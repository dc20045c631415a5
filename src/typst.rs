//! The destination event vocabulary: start/end tags of typesetting constructs,
//! leaf events, and constructs with no source equivalent (function calls,
//! bindings, set rules). Each type has a view over `Seq<char>`.
use vstd::prelude::*;

verus! {

#[derive(Clone, Copy, Debug, PartialEq, Eq, Structural)]
pub enum LinkType {
    Content,
    Url,
    Autolink,
}

#[derive(Clone, Copy, Debug, PartialEq, Eq, Structural)]
pub enum QuoteType {
    Inline,
    Block,
}

#[derive(Clone, Copy, Debug, PartialEq, Eq, Structural)]
pub enum QuoteQuotes {
    DoNotWrapInDoubleQuotes,
    WrapInDoubleQuotes,
    Auto,
}

#[derive(Clone, Copy, Debug, PartialEq, Eq, Structural)]
pub enum ShowType {
    ShowSet,
    Function,
}

#[derive(Clone, Copy, Debug, PartialEq, Eq, Structural)]
pub enum TableCellAlignment {
    Left,
    Center,
    Right,
    /// No alignment given for the column.
    Unset,
}

#[derive(Clone, Copy, Debug, PartialEq, Eq, Structural)]
pub enum CodeBlockDisplay {
    Block,
    Inline,
}

#[derive(Clone, Copy, Debug, PartialEq, Eq, Structural)]
pub enum TableOfContents {
    Include,
    Exclude,
}

#[derive(Clone, Copy, Debug, PartialEq, Eq, Structural)]
pub enum Bookmarks {
    Include,
    Exclude,
}

/// The payload of a start/end event pair.
#[derive(Clone, Debug, PartialEq, Eq)]
pub enum Tag {
    Paragraph,
    /// Level (1 for the top level), table-of-contents and bookmark flags.
    Heading(u8, TableOfContents, Bookmarks),
    Emphasis,
    Strong,
    Link(LinkType, String),
    /// Kind, quote marks, optional attribution.
    Quote(QuoteType, QuoteQuotes, Option<String>),
    /// Optional language token and display mode.
    CodeBlock(Option<String>, CodeBlockDisplay),
    /// Optional marker, tightness.
    BulletList(Option<String>, bool),
    /// Starting number, optional numbering pattern, tightness.
    NumberedList(u64, Option<String>, bool),
    Item,
    Table(Vec<TableCellAlignment>),
    TableHead,
    TableRow,
    TableCell,
    /// Show rule: kind, selector, the `set` rule's element, key and value,
    /// and the function body.
    Show(ShowType, String, Option<(String, String, String)>, Option<String>),
}

/// One point of a destination document stream.
#[derive(Clone, Debug, PartialEq, Eq)]
pub enum Event {
    Start(Tag),
    End(Tag),
    /// Markup passed through as it is.
    Raw(String),
    /// Prose, escaped on output outside code blocks.
    Text(String),
    /// Inline code.
    Code(String),
    Linebreak,
    Parbreak,
    PageBreak,
    /// A line: start point, end point, length, angle, stroke.
    Line(
        Option<(String, String)>,
        Option<(String, String)>,
        Option<String>,
        Option<String>,
        Option<String>,
    ),
    /// A binding: name and value.
    Let(String, String),
    /// A call: optional receiver, function name, arguments.
    FunctionCall(Option<String>, String, Vec<String>),
    DocumentFunctionCall(Vec<String>),
    /// A set rule: element, key, value.
    SetRule(String, String, String),
    DocumentSet(String, String),
}

// ---------------------------------------------------------------------------
// Views.
// ---------------------------------------------------------------------------

pub enum TagV {
    Paragraph,
    Heading(u8, TableOfContents, Bookmarks),
    Emphasis,
    Strong,
    Link(LinkType, Seq<char>),
    Quote(QuoteType, QuoteQuotes, Option<Seq<char>>),
    CodeBlock(Option<Seq<char>>, CodeBlockDisplay),
    BulletList(Option<Seq<char>>, bool),
    NumberedList(u64, Option<Seq<char>>, bool),
    Item,
    Table(Seq<TableCellAlignment>),
    TableHead,
    TableRow,
    TableCell,
    Show(ShowType, Seq<char>, Option<(Seq<char>, Seq<char>, Seq<char>)>, Option<Seq<char>>),
}

pub enum EventV {
    Start(TagV),
    End(TagV),
    Raw(Seq<char>),
    Text(Seq<char>),
    Code(Seq<char>),
    Linebreak,
    Parbreak,
    PageBreak,
    Line(
        Option<(Seq<char>, Seq<char>)>,
        Option<(Seq<char>, Seq<char>)>,
        Option<Seq<char>>,
        Option<Seq<char>>,
        Option<Seq<char>>,
    ),
    Let(Seq<char>, Seq<char>),
    FunctionCall(Option<Seq<char>>, Seq<char>, Seq<Seq<char>>),
    DocumentFunctionCall(Seq<Seq<char>>),
    SetRule(Seq<char>, Seq<char>, Seq<char>),
    DocumentSet(Seq<char>, Seq<char>),
}

pub open spec fn opt_view(o: Option<String>) -> Option<Seq<char>> {
    match o {
        Some(s) => Some(s@),
        None => None,
    }
}

pub open spec fn pair_view(o: Option<(String, String)>) -> Option<(Seq<char>, Seq<char>)> {
    match o {
        Some((a, b)) => Some((a@, b@)),
        None => None,
    }
}

pub open spec fn strings_view(v: Vec<String>) -> Seq<Seq<char>> {
    v@.map_values(|s: String| s@)
}

impl View for Tag {
    type V = TagV;

    open spec fn view(&self) -> TagV {
        match self {
            Tag::Paragraph => TagV::Paragraph,
            Tag::Heading(n, t, b) => TagV::Heading(*n, *t, *b),
            Tag::Emphasis => TagV::Emphasis,
            Tag::Strong => TagV::Strong,
            Tag::Link(k, u) => TagV::Link(*k, u@),
            Tag::Quote(k, q, a) => TagV::Quote(*k, *q, opt_view(*a)),
            Tag::CodeBlock(f, d) => TagV::CodeBlock(opt_view(*f), *d),
            Tag::BulletList(m, t) => TagV::BulletList(opt_view(*m), *t),
            Tag::NumberedList(n, p, t) => TagV::NumberedList(*n, opt_view(*p), *t),
            Tag::Item => TagV::Item,
            Tag::Table(a) => TagV::Table(a@),
            Tag::TableHead => TagV::TableHead,
            Tag::TableRow => TagV::TableRow,
            Tag::TableCell => TagV::TableCell,
            Tag::Show(k, sel, set, f) => TagV::Show(
                *k,
                sel@,
                match set {
                    Some((e, k2, v)) => Some((e@, k2@, v@)),
                    None => None,
                },
                opt_view(*f),
            ),
        }
    }
}

impl View for Event {
    type V = EventV;

    open spec fn view(&self) -> EventV {
        match self {
            Event::Start(t) => EventV::Start(t@),
            Event::End(t) => EventV::End(t@),
            Event::Raw(s) => EventV::Raw(s@),
            Event::Text(s) => EventV::Text(s@),
            Event::Code(s) => EventV::Code(s@),
            Event::Linebreak => EventV::Linebreak,
            Event::Parbreak => EventV::Parbreak,
            Event::PageBreak => EventV::PageBreak,
            Event::Line(a, b, l, g, s) => EventV::Line(
                pair_view(*a),
                pair_view(*b),
                opt_view(*l),
                opt_view(*g),
                opt_view(*s),
            ),
            Event::Let(l, r) => EventV::Let(l@, r@),
            Event::FunctionCall(v, f, args) => EventV::FunctionCall(
                opt_view(*v),
                f@,
                strings_view(*args),
            ),
            Event::DocumentFunctionCall(args) => EventV::DocumentFunctionCall(strings_view(*args)),
            Event::SetRule(e, k, v) => EventV::SetRule(e@, k@, v@),
            Event::DocumentSet(k, v) => EventV::DocumentSet(k@, v@),
        }
    }
}

} // verus!
