//! The whole conversion: the converters in their order, then the paragraph
//! merge, then the serializer.
use vstd::prelude::*;
use crate::check::check_events;
use crate::convert::{
    converted_all, convert, lemma_pop_next, rev, reversed, text_all, ConvertText, Stage,
};
use crate::images::{images_of, ConvertImages};
use crate::markdown::{events_view, PEventV, ParserEvent};
use crate::markup::TypstMarkup;
use crate::markup_model::{initial_model, render, stream_ok};
use crate::merge::{merged, MergeConsecutiveParagraphs};
use crate::typst::{Event, EventV};

verus! {

/// The converters in order: tables and headings, paragraphs, soft and hard
/// breaks, text, images (which must see paragraphs and text before the
/// inline constructs are rewritten), links, strong, emphasis, quotes, code,
/// lists; then the paragraph merge.
pub open spec fn convert_chain(s: Seq<PEventV>) -> Seq<PEventV> {
    let a = converted_all(Stage::Tables, s);
    let b = converted_all(Stage::Headings, a);
    let c = converted_all(Stage::Paragraphs, b);
    let d = converted_all(Stage::SoftBreaks, c);
    let e = converted_all(Stage::HardBreaks, d);
    let f = images_of(text_all(0, e));
    let g = converted_all(Stage::Links, f);
    let h = converted_all(Stage::Strong, g);
    let i = converted_all(Stage::Emphasis, h);
    let j = converted_all(Stage::BlockQuotes, i);
    let k = converted_all(Stage::Code, j);
    let l = converted_all(Stage::Lists, k);
    merged(l)
}

/// The destination events of `s`, in order; source events left over are
/// dropped.
pub open spec fn typst_part(s: Seq<PEventV>) -> Seq<EventV>
    decreases s.len(),
{
    if s.len() == 0 {
        seq![]
    } else {
        typst_part(s.drop_last()) + match s.last() {
            PEventV::Typst(e) => seq![e],
            PEventV::Markdown(_) => seq![],
        }
    }
}

/// Runs every converter and the paragraph merge over source events.
pub fn convert_markdown(events: Vec<ParserEvent>) -> (r: Vec<ParserEvent>)
    ensures
        events_view(r@) == convert_chain(events_view(events@)),
{
    let e = convert(Stage::Tables, events);
    let e = convert(Stage::Headings, e);
    let e = convert(Stage::Paragraphs, e);
    let e = convert(Stage::SoftBreaks, e);
    let e = convert(Stage::HardBreaks, e);
    let t = ConvertText::new(e);
    let e = t.into_events();
    let im = ConvertImages::new(e);
    let e = im.into_events();
    let e = convert(Stage::Links, e);
    let e = convert(Stage::Strong, e);
    let e = convert(Stage::Emphasis, e);
    let e = convert(Stage::BlockQuotes, e);
    let e = convert(Stage::Code, e);
    let e = convert(Stage::Lists, e);
    MergeConsecutiveParagraphs::new(e).into_events()
}

/// The destination events among `events`, in order.
pub fn typst_events(events: Vec<ParserEvent>) -> (r: Vec<Event>)
    ensures
        r@.map_values(|e: Event| e@) == typst_part(events_view(events@)),
{
    let ghost input = events_view(events@);
    let ghost n = input.len();
    let mut pending = reversed(events);
    let mut out: Vec<Event> = Vec::new();
    while pending.len() > 0
        invariant
            n == input.len(),
            pending.len() <= n,
            events_view(rev(pending@)) == input.skip(n - pending.len()),
            out@.map_values(|e: Event| e@) == typst_part(input.take(n - pending.len())),
        decreases pending.len(),
    {
        let ghost k = n - pending.len();
        let ghost before = pending@;
        let e = pending.pop().unwrap();
        proof {
            lemma_pop_next(before, pending@, e, input, k as int);
        }
        assert(input.take(k + 1).drop_last() =~= input.take(k));
        let ghost ov = out@.map_values(|e: Event| e@);
        match e {
            ParserEvent::Typst(te) => {
                let ghost tv = te@;
                out.push(te);
                assert(out@.map_values(|e: Event| e@) =~= ov.push(tv));
            },
            ParserEvent::Markdown(_) => {},
        }
        assert(out@.map_values(|e: Event| e@) =~= typst_part(input.take(k + 1)));
    }
    assert(input.take(n as int) =~= input);
    out
}

/// Converts source events and renders the result as markup; `None` when the
/// converted events are not well nested, so that the serializer would not
/// accept them.
pub fn render_markdown_events(events: Vec<ParserEvent>) -> (r: Option<String>)
    ensures
        ({
            let out = typst_part(convert_chain(events_view(events@)));
            match r {
                Some(s) => stream_ok(initial_model(), out) && s@ == render(out),
                None => !stream_ok(initial_model(), out),
            }
        }),
{
    let converted = convert_markdown(events);
    let te = typst_events(converted);
    if check_events(&te) {
        Some(TypstMarkup::new(te).into_string())
    } else {
        None
    }
}

} // verus!
