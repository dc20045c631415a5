//! The source event vocabulary, as a Markdown parser produces it, and the
//! pipeline's event type that holds either a source or a destination event.
use vstd::prelude::*;
use crate::typst::{opt_view, strings_view, EventV};

verus! {

#[derive(Clone, Copy, Debug, PartialEq, Eq, Structural)]
pub enum HeadingLevel {
    H1,
    H2,
    H3,
    H4,
    H5,
    H6,
}

#[derive(Clone, Copy, Debug, PartialEq, Eq, Structural)]
pub enum Alignment {
    /// No alignment given for the column.
    Unset,
    Left,
    Center,
    Right,
}

#[derive(Clone, Copy, Debug, PartialEq, Eq, Structural)]
pub enum LinkType {
    Inline,
    Reference,
    ReferenceUnknown,
    Collapsed,
    CollapsedUnknown,
    Shortcut,
    ShortcutUnknown,
    Autolink,
    Email,
}

#[derive(Clone, Debug, PartialEq, Eq)]
pub enum CodeBlockKind {
    Indented,
    /// The info string after the fence; empty when there is none.
    Fenced(String),
}

/// The payload of a source start/end event pair.
#[derive(Clone, Debug, PartialEq, Eq)]
pub enum Tag {
    Paragraph,
    /// Level, optional id, classes.
    Heading(HeadingLevel, Option<String>, Vec<String>),
    BlockQuote,
    CodeBlock(CodeBlockKind),
    /// The first number of an ordered list; `None` for a bullet list.
    List(Option<u64>),
    Item,
    FootnoteDefinition(String),
    Table(Vec<Alignment>),
    TableHead,
    TableRow,
    TableCell,
    Emphasis,
    Strong,
    Strikethrough,
    /// Kind, destination, title.
    Link(LinkType, String, String),
    /// Kind, destination, title.
    Image(LinkType, String, String),
}

/// One point of a source document stream.
#[derive(Clone, Debug, PartialEq, Eq)]
pub enum Event {
    Start(Tag),
    End(Tag),
    Text(String),
    Code(String),
    Html(String),
    FootnoteReference(String),
    SoftBreak,
    HardBreak,
    Rule,
    TaskListMarker(bool),
}

/// An event of the conversion pipeline: not converted yet, or converted.
#[derive(Clone, Debug, PartialEq, Eq)]
pub enum ParserEvent {
    Markdown(Event),
    Typst(crate::typst::Event),
}

// ---------------------------------------------------------------------------
// Views.
// ---------------------------------------------------------------------------

pub enum CodeBlockKindV {
    Indented,
    Fenced(Seq<char>),
}

pub enum MdTagV {
    Paragraph,
    Heading(HeadingLevel, Option<Seq<char>>, Seq<Seq<char>>),
    BlockQuote,
    CodeBlock(CodeBlockKindV),
    List(Option<u64>),
    Item,
    FootnoteDefinition(Seq<char>),
    Table(Seq<Alignment>),
    TableHead,
    TableRow,
    TableCell,
    Emphasis,
    Strong,
    Strikethrough,
    Link(LinkType, Seq<char>, Seq<char>),
    Image(LinkType, Seq<char>, Seq<char>),
}

pub enum MdEventV {
    Start(MdTagV),
    End(MdTagV),
    Text(Seq<char>),
    Code(Seq<char>),
    Html(Seq<char>),
    FootnoteReference(Seq<char>),
    SoftBreak,
    HardBreak,
    Rule,
    TaskListMarker(bool),
}

pub enum PEventV {
    Markdown(MdEventV),
    Typst(EventV),
}

impl View for CodeBlockKind {
    type V = CodeBlockKindV;

    open spec fn view(&self) -> CodeBlockKindV {
        match self {
            CodeBlockKind::Indented => CodeBlockKindV::Indented,
            CodeBlockKind::Fenced(s) => CodeBlockKindV::Fenced(s@),
        }
    }
}

impl View for Tag {
    type V = MdTagV;

    open spec fn view(&self) -> MdTagV {
        match self {
            Tag::Paragraph => MdTagV::Paragraph,
            Tag::Heading(l, id, classes) => MdTagV::Heading(*l, opt_view(*id), strings_view(*classes)),
            Tag::BlockQuote => MdTagV::BlockQuote,
            Tag::CodeBlock(k) => MdTagV::CodeBlock(k@),
            Tag::List(n) => MdTagV::List(*n),
            Tag::Item => MdTagV::Item,
            Tag::FootnoteDefinition(s) => MdTagV::FootnoteDefinition(s@),
            Tag::Table(a) => MdTagV::Table(a@),
            Tag::TableHead => MdTagV::TableHead,
            Tag::TableRow => MdTagV::TableRow,
            Tag::TableCell => MdTagV::TableCell,
            Tag::Emphasis => MdTagV::Emphasis,
            Tag::Strong => MdTagV::Strong,
            Tag::Strikethrough => MdTagV::Strikethrough,
            Tag::Link(k, u, t) => MdTagV::Link(*k, u@, t@),
            Tag::Image(k, u, t) => MdTagV::Image(*k, u@, t@),
        }
    }
}

impl View for Event {
    type V = MdEventV;

    open spec fn view(&self) -> MdEventV {
        match self {
            Event::Start(t) => MdEventV::Start(t@),
            Event::End(t) => MdEventV::End(t@),
            Event::Text(s) => MdEventV::Text(s@),
            Event::Code(s) => MdEventV::Code(s@),
            Event::Html(s) => MdEventV::Html(s@),
            Event::FootnoteReference(s) => MdEventV::FootnoteReference(s@),
            Event::SoftBreak => MdEventV::SoftBreak,
            Event::HardBreak => MdEventV::HardBreak,
            Event::Rule => MdEventV::Rule,
            Event::TaskListMarker(b) => MdEventV::TaskListMarker(*b),
        }
    }
}

impl View for ParserEvent {
    type V = PEventV;

    open spec fn view(&self) -> PEventV {
        match self {
            ParserEvent::Markdown(e) => PEventV::Markdown(e@),
            ParserEvent::Typst(e) => PEventV::Typst(e@),
        }
    }
}

pub open spec fn events_view(v: Seq<ParserEvent>) -> Seq<PEventV> {
    v.map_values(|e: ParserEvent| e@)
}

} // verus!
