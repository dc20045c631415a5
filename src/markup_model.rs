//! The serializer as a state machine over views: its state, what one event
//! does to the state and emits, when an event is acceptable, and the text a
//! whole stream renders to.
use vstd::prelude::*;
use crate::link::link_target;
use crate::text::{
    decimal, ends_with, escaped, label_id, replaced, stars_escaped, starts_with, trimmed,
};
use crate::typst::{EventV, QuoteQuotes, QuoteType, ShowType, TableCellAlignment, TagV};

verus! {

/// The serializer's state.
pub struct MarkupModel {
    /// Open tags, innermost last.
    pub stack: Seq<TagV>,
    /// Number of open code blocks.
    pub depth: nat,
    /// The row being collected, between a row's start and end.
    pub row: Option<Seq<char>>,
    /// The cell being collected, between a cell's start and end.
    pub cell: Option<Seq<char>>,
    /// A paragraph was closed early for an image; its end is still to come.
    pub closed_for_image: bool,
    /// The raw text of the heading being read.
    pub heading: Option<Seq<char>>,
    /// Heading text to label, for headings already closed.
    pub labels: Map<Seq<char>, Seq<char>>,
}

pub open spec fn initial_model() -> MarkupModel {
    MarkupModel {
        stack: seq![],
        depth: 0,
        row: None,
        cell: None,
        closed_for_image: false,
        heading: None,
        labels: Map::empty(),
    }
}

pub open spec fn repeat_char(c: char, n: nat) -> Seq<char> {
    Seq::new(n, |i: int| c)
}

/// `parts` with `sep` between each two.
pub open spec fn join(parts: Seq<Seq<char>>, sep: Seq<char>) -> Seq<char>
    decreases parts.len(),
{
    if parts.len() == 0 {
        seq![]
    } else if parts.len() == 1 {
        parts[0]
    } else {
        join(parts.drop_last(), sep) + sep + parts.last()
    }
}

pub open spec fn comma() -> Seq<char> {
    seq![',', ' ']
}

pub open spec fn opt_or_empty(o: Option<Seq<char>>) -> Seq<char> {
    match o {
        Some(s) => s,
        None => seq![],
    }
}

// ---------------------------------------------------------------------------
// Opening markup.
// ---------------------------------------------------------------------------

/// The alignment keyword of a table column.
pub open spec fn align_word(a: TableCellAlignment) -> Seq<char> {
    match a {
        TableCellAlignment::Left => "left"@,
        TableCellAlignment::Center => "center"@,
        TableCellAlignment::Right => "right"@,
        TableCellAlignment::Unset => "start"@,
    }
}

pub open spec fn all_unset(a: Seq<TableCellAlignment>) -> bool {
    forall|i: int| 0 <= i < a.len() ==> a[i] == TableCellAlignment::Unset
}

/// The opening of a table: its column count, and its column alignments unless
/// none is set.
pub open spec fn table_open(a: Seq<TableCellAlignment>) -> Seq<char> {
    "#table(\n  columns: "@ + decimal(a.len()) + (if all_unset(a) {
        seq![]
    } else {
        ", align: ("@ + join(a.map_values(|x: TableCellAlignment| align_word(x)), comma())
            + ")"@
    }) + ",\n"@
}

pub open spec fn quote_open(
    k: QuoteType,
    q: QuoteQuotes,
    attribution: Option<Seq<char>>,
) -> Seq<char> {
    let block = match k {
        QuoteType::Block => "block: true,"@,
        QuoteType::Inline => "block: false,"@,
    };
    let quotes = match q {
        QuoteQuotes::DoNotWrapInDoubleQuotes => "quotes: false,"@,
        QuoteQuotes::WrapInDoubleQuotes => "quotes: true,"@,
        QuoteQuotes::Auto => "quotes: auto,"@,
    };
    match attribution {
        Some(a) => "#quote("@ + block + " "@ + quotes + " attribution: ["@ + a + "])["@,
        None => "#quote("@ + block + " "@ + quotes + ")["@,
    }
}

/// The opening of a link: a label reference for a target that resolves to
/// one, else a quoted target.
pub open spec fn link_open(url: Seq<char>, labels: Map<Seq<char>, Seq<char>>) -> Seq<char> {
    let p = if starts_with(url, seq!['<']) {
        url
    } else {
        link_target(url, Some(labels))
    };
    if starts_with(p, seq!['<']) {
        "#link("@ + p + ")["@
    } else {
        "#link(\""@ + p + "\")["@
    }
}

/// The markup a start tag emits, before any buffering; `None` for lists,
/// which emit nothing.
pub open spec fn open_text(t: TagV, m: MarkupModel) -> Option<Seq<char>> {
    match t {
        TagV::Paragraph => Some("#par()["@),
        TagV::Show(ShowType::ShowSet, sel, set, _) => match set {
            Some((e, k, v)) => Some(
                "#show "@ + sel + ": set "@ + e + "("@ + k + ":"@ + v + ")"@,
            ),
            None => Some(seq![]),
        },
        TagV::Show(ShowType::Function, sel, _, f) => Some("#show "@ + sel + ":"@ + opt_or_empty(f)),
        TagV::Heading(n, _, _) => Some(repeat_char('=', n as nat) + " "@),
        TagV::CodeBlock(fence, _) => Some(
            repeat_char('`', 6 + m.depth) + opt_or_empty(fence) + "\n"@,
        ),
        TagV::BulletList(_, _) => None,
        TagV::NumberedList(_, _, _) => None,
        TagV::Item => if m.stack.len() > 0 && m.stack.last() is BulletList {
            Some("- "@)
        } else {
            Some("+ "@)
        },
        TagV::Emphasis => Some("#emph["@),
        TagV::Strong => Some("#strong["@),
        TagV::Link(_, url) => Some(link_open(url, m.labels)),
        TagV::Quote(k, q, a) => Some(quote_open(k, q, a)),
        TagV::Table(a) => Some(table_open(a)),
        TagV::TableRow => Some(seq![]),
        TagV::TableHead => Some(seq![]),
        TagV::TableCell => Some(seq![]),
    }
}

/// What a start tag does to the state besides its markup.
pub open spec fn start_model(t: TagV, m: MarkupModel) -> MarkupModel {
    let m1 = match t {
        TagV::Heading(_, _, _) => MarkupModel { heading: Some(seq![]), ..m },
        TagV::CodeBlock(_, _) => MarkupModel { depth: m.depth + 1, ..m },
        TagV::TableRow => MarkupModel { row: Some(seq![]), ..m },
        TagV::TableHead => MarkupModel { row: Some(seq![]), ..m },
        TagV::TableCell => MarkupModel { cell: Some(seq![]), ..m },
        _ => m,
    };
    MarkupModel { stack: m1.stack.push(t), ..m1 }
}

/// Output goes into the open cell, else into the open row, else out.
pub open spec fn route(m: MarkupModel, out: Seq<char>) -> (MarkupModel, Seq<char>) {
    match m.cell {
        Some(c) => (MarkupModel { cell: Some(c + out), ..m }, seq![]),
        None => match m.row {
            Some(r) => (MarkupModel { row: Some(r + out), ..m }, seq![]),
            None => (m, out),
        },
    }
}

// ---------------------------------------------------------------------------
// Closing markup and table cells.
// ---------------------------------------------------------------------------

/// A row's collected cells without a trailing separator.
pub open spec fn strip_separator(b: Seq<char>) -> Seq<char> {
    if ends_with(b, comma()) {
        b.take(b.len() - 2)
    } else {
        b
    }
}

/// A cell appended to a row, with a separator after earlier cells.
pub open spec fn add_cell(r: Seq<char>, cell: Seq<char>) -> Seq<char> {
    if r.len() == 0 {
        cell
    } else {
        r + comma() + cell
    }
}

/// A cell's content with line-break tags, comment starts and bare stars
/// escaped, and surrounding whitespace trimmed.
pub open spec fn cell_content(c: Seq<char>) -> Seq<char> {
    let br = "\\\n"@;
    let c1 = replaced(c, seq!['<', 'b', 'r', '>'], br);
    let c2 = replaced(c1, seq!['<', 'b', 'r', '/', '>'], br);
    let c3 = replaced(c2, seq!['<', 'b', 'r', ' ', '/', '>'], br);
    let c4 = replaced(c3, seq!['/', '/'], "\\/\\/"@);
    trimmed(stars_escaped(c4))
}

/// A cell in brackets.
pub open spec fn cell_markup(c: Seq<char>) -> Seq<char> {
    seq!['['] + cell_content(c) + seq![']']
}

pub open spec fn is_row_tag(t: TagV) -> bool {
    t is TableRow || t is TableHead || t is TableCell
}

/// The markup an end tag emits before buffering, and the state after it,
/// the tag still on the stack.
pub open spec fn close(t: TagV, m: MarkupModel) -> (MarkupModel, Seq<char>) {
    match t {
        TagV::Paragraph => (m, "]\n"@),
        TagV::Heading(_, _, _) => match m.heading {
            Some(h) => (
                MarkupModel { heading: None, labels: m.labels.insert(h, label_id(h)), ..m },
                " <"@ + label_id(h) + ">\n"@,
            ),
            None => (m, "\n"@),
        },
        TagV::Item => (m, "\n"@),
        TagV::Emphasis => (m, "]"@),
        TagV::Strong => (m, "]"@),
        TagV::BulletList(_, _) => (m, seq![]),
        TagV::NumberedList(_, _, _) => (m, seq![]),
        TagV::CodeBlock(_, _) => {
            let d = if m.depth > 0 {
                (m.depth - 1) as nat
            } else {
                0
            };
            (MarkupModel { depth: d, ..m }, repeat_char('`', 6 + d) + "\n"@)
        },
        TagV::Link(_, _) => (m, "]"@),
        TagV::Show(_, _, _, _) => (m, "\n"@),
        TagV::Quote(k, _, _) => (m, if k is Inline {
            "]"@
        } else {
            "]\n"@
        }),
        TagV::Table(_) => (m, ")\n"@),
        TagV::TableHead => match m.row {
            Some(b) => (MarkupModel { row: None, ..m }, "  "@ + strip_separator(b) + ",\n"@),
            None => (m, "\n"@),
        },
        TagV::TableRow => match m.row {
            Some(b) => (MarkupModel { row: None, ..m }, "  "@ + strip_separator(b) + ",\n"@),
            None => (m, "\n"@),
        },
        TagV::TableCell => {
            let cell = match m.cell {
                Some(c) => cell_markup(c),
                None => seq!['[', ']'],
            };
            let row = match m.row {
                Some(r) => Some(add_cell(r, cell)),
                None => None,
            };
            (MarkupModel { cell: None, row, ..m }, seq![])
        },
    }
}

// ---------------------------------------------------------------------------
// Leaf events.
// ---------------------------------------------------------------------------

/// Inline code as a raw-literal call; backslash and quote are escaped so
/// that the content cannot leave the string.
pub open spec fn raw_call(x: Seq<char>) -> Seq<char> {
    "#raw(\""@ + replaced(replaced(x, seq!['\\'], "\\\\"@), seq!['"'], "\\\""@) + "\")"@
}

pub open spec fn point_part(name: Seq<char>, p: Option<(Seq<char>, Seq<char>)>) -> Seq<Seq<char>> {
    match p {
        Some((a, b)) => seq![name + ": ("@ + a + ", "@ + b + ")"@],
        None => seq![],
    }
}

pub open spec fn value_part(name: Seq<char>, v: Option<Seq<char>>) -> Seq<Seq<char>> {
    match v {
        Some(x) => seq![name + ": "@ + x],
        None => seq![],
    }
}

pub open spec fn line_markup(
    start: Option<(Seq<char>, Seq<char>)>,
    end: Option<(Seq<char>, Seq<char>)>,
    length: Option<Seq<char>>,
    angle: Option<Seq<char>>,
    stroke: Option<Seq<char>>,
) -> Seq<char> {
    let parts = point_part("start"@, start) + point_part("end"@, end) + value_part(
        "length"@,
        length,
    ) + value_part("angle"@, angle) + value_part("stroke"@, stroke);
    "#line("@ + join(parts, comma()) + ")\n"@
}

pub open spec fn image_name() -> Seq<char> {
    seq!['i', 'm', 'a', 'g', 'e']
}

/// A call: an image call first closes an open paragraph, since images stand
/// outside paragraphs.
pub open spec fn call_step(
    m: MarkupModel,
    v: Option<Seq<char>>,
    f: Seq<char>,
    args: Seq<Seq<char>>,
) -> (MarkupModel, Seq<char>) {
    let close_par = f == image_name() && m.stack.len() > 0 && m.stack.last() is Paragraph;
    let m1 = if close_par {
        MarkupModel { stack: m.stack.drop_last(), closed_for_image: true, ..m }
    } else {
        m
    };
    let prefix = if close_par {
        "]\n"@
    } else {
        seq![]
    };
    let call = match v {
        Some(r) => "#"@ + r + "."@ + f + "("@ + join(args, comma()) + ")\n"@,
        None => "#"@ + f + "("@ + join(args, comma()) + ")\n"@,
    };
    (m1, prefix + call)
}

// ---------------------------------------------------------------------------
// One event.
// ---------------------------------------------------------------------------

pub open spec fn start_step(t: TagV, m: MarkupModel) -> (MarkupModel, Seq<char>) {
    let m1 = start_model(t, m);
    match open_text(t, m) {
        None => (m1, seq![]),
        Some(o) => route(m1, o),
    }
}

pub open spec fn end_step(t: TagV, m: MarkupModel) -> (MarkupModel, Seq<char>) {
    if t is Paragraph && m.closed_for_image {
        (MarkupModel { closed_for_image: false, ..m }, seq![])
    } else {
        let (m1, out) = close(t, m);
        let m2 = MarkupModel { stack: m1.stack.drop_last(), ..m1 };
        match m2.cell {
            Some(c) => (MarkupModel { cell: Some(c + out), ..m2 }, seq![]),
            None => match m2.row {
                Some(r) => if !is_row_tag(t) {
                    (MarkupModel { row: Some(r + out), ..m2 }, seq![])
                } else {
                    (m2, out)
                },
                None => (m2, out),
            },
        }
    }
}

/// The state after one event, and the fragment emitted for it.
pub open spec fn markup_step(m: MarkupModel, e: EventV) -> (MarkupModel, Seq<char>) {
    match e {
        EventV::Start(t) => start_step(t, m),
        EventV::End(t) => end_step(t, m),
        EventV::Raw(x) => route(m, x),
        EventV::Text(x) => {
            let m1 = match m.heading {
                Some(h) => MarkupModel { heading: Some(h + x), ..m },
                None => m,
            };
            route(m1, if m.depth == 0 { escaped(x) } else { x })
        },
        EventV::Code(x) => route(m, raw_call(x)),
        EventV::Linebreak => (m, "#linebreak()\n"@),
        EventV::Parbreak => (m, "#parbreak()\n"@),
        EventV::PageBreak => (m, "#pagebreak()\n"@),
        EventV::Line(s, e2, l, a, st) => (m, line_markup(s, e2, l, a, st)),
        EventV::Let(l, r) => (m, "#let "@ + l + " = "@ + r + "\n"@),
        EventV::FunctionCall(v, f, args) => call_step(m, v, f, args),
        EventV::DocumentFunctionCall(args) => (m, "#document("@ + join(args, comma()) + ")\n"@),
        EventV::SetRule(e2, k, v) => (m, "#set "@ + e2 + "("@ + k + ": "@ + v + ")\n"@),
        EventV::DocumentSet(k, v) => (m, "#set document("@ + k + ": "@ + v + ")\n"@),
    }
}

/// Whether the serializer accepts `e` in state `m`: an end tag closes the
/// innermost open tag (or the paragraph already closed for an image), a list
/// item stands in a list, and a show rule carries the payload of its kind.
pub open spec fn event_ok(m: MarkupModel, e: EventV) -> bool {
    match e {
        EventV::Start(TagV::Item) => m.stack.len() > 0 && (m.stack.last() is BulletList
            || m.stack.last() is NumberedList),
        EventV::Start(TagV::Show(ShowType::ShowSet, _, set, _)) => set is Some,
        EventV::Start(TagV::Show(ShowType::Function, _, _, f)) => f is Some,
        EventV::End(t) => (t is Paragraph && m.closed_for_image) || (m.stack.len() > 0
            && m.stack.last() == t),
        _ => true,
    }
}

/// Whether every event of `evs` is accepted, from state `m` on.
pub open spec fn stream_ok(m: MarkupModel, evs: Seq<EventV>) -> bool
    decreases evs.len(),
{
    evs.len() == 0 || (event_ok(m, evs[0]) && stream_ok(markup_step(m, evs[0]).0, evs.skip(1)))
}

/// What is emitted once the stream is exhausted: a row left open is flushed.
pub open spec fn flush(m: MarkupModel) -> (MarkupModel, Option<Seq<char>>) {
    match m.row {
        Some(b) => (MarkupModel { row: None, ..m }, Some(strip_separator(b))),
        None => (m, None),
    }
}

/// The text that `evs` renders to from state `m`, with the final flush.
pub open spec fn rendered(m: MarkupModel, evs: Seq<EventV>) -> Seq<char>
    decreases evs.len(),
{
    if evs.len() == 0 {
        opt_or_empty(flush(m).1)
    } else {
        let (m1, out) = markup_step(m, evs[0]);
        out + rendered(m1, evs.skip(1))
    }
}

/// The text that a whole stream renders to.
pub open spec fn render(evs: Seq<EventV>) -> Seq<char> {
    rendered(initial_model(), evs)
}

} // verus!
