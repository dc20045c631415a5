//! Merging paragraphs: a paragraph end followed, across nothing but text and
//! line breaks, by a paragraph start joins the two paragraphs into one, with a
//! line break where the boundary was.
use vstd::prelude::*;
use crate::convert::{lemma_pop_next, rev, reversed};
use crate::markdown::{events_view, Event, MdEventV, PEventV, ParserEvent};
use crate::typst::{self, EventV, TagV};

verus! {

pub open spec fn is_end_par(e: PEventV) -> bool {
    e == PEventV::Typst(EventV::End(TagV::Paragraph))
}

pub open spec fn is_start_par(e: PEventV) -> bool {
    e == PEventV::Typst(EventV::Start(TagV::Paragraph))
}

/// Text and line breaks: what may stand between two merged paragraphs.
pub open spec fn is_quiet(e: PEventV) -> bool {
    match e {
        PEventV::Typst(EventV::Text(_)) => true,
        PEventV::Typst(EventV::Linebreak) => true,
        PEventV::Markdown(MdEventV::Text(_)) => true,
        PEventV::Markdown(MdEventV::SoftBreak) => true,
        PEventV::Markdown(MdEventV::HardBreak) => true,
        _ => false,
    }
}

pub open spec fn linebreak() -> PEventV {
    PEventV::Typst(EventV::Linebreak)
}

pub open spec fn end_par() -> PEventV {
    PEventV::Typst(EventV::End(TagV::Paragraph))
}

/// Reading `s` from the left: what is decided, and, after a paragraph end,
/// the quiet events seen since it.
pub open spec fn merge_state(s: Seq<PEventV>) -> (Seq<PEventV>, Option<Seq<PEventV>>)
    decreases s.len(),
{
    if s.len() == 0 {
        (seq![], None)
    } else {
        let (out, pending) = merge_state(s.drop_last());
        let e = s.last();
        match pending {
            None => if is_end_par(e) {
                (out, Some(seq![]))
            } else {
                (out.push(e), None)
            },
            Some(run) => if is_quiet(e) {
                (out, Some(run.push(e)))
            } else if is_start_par(e) {
                (out + seq![linebreak()] + run, None)
            } else if is_end_par(e) {
                (out + seq![end_par()] + run, Some(seq![]))
            } else {
                (out + seq![end_par()] + run + seq![e], None)
            },
        }
    }
}

/// `s` with each paragraph end that is followed, across quiet events only,
/// by a paragraph start replaced by a line break, and that start dropped.
pub open spec fn merged(s: Seq<PEventV>) -> Seq<PEventV> {
    match merge_state(s).1 {
        None => merge_state(s).0,
        Some(run) => merge_state(s).0 + seq![end_par()] + run,
    }
}

fn is_quiet_exec(e: &ParserEvent) -> (r: bool)
    ensures
        r == is_quiet(e@),
{
    match e {
        ParserEvent::Typst(typst::Event::Text(_)) => true,
        ParserEvent::Typst(typst::Event::Linebreak) => true,
        ParserEvent::Markdown(Event::Text(_)) => true,
        ParserEvent::Markdown(Event::SoftBreak) => true,
        ParserEvent::Markdown(Event::HardBreak) => true,
        _ => false,
    }
}

fn is_end_par_exec(e: &ParserEvent) -> (r: bool)
    ensures
        r == is_end_par(e@),
{
    matches!(e, ParserEvent::Typst(typst::Event::End(typst::Tag::Paragraph)))
}

fn is_start_par_exec(e: &ParserEvent) -> (r: bool)
    ensures
        r == is_start_par(e@),
{
    matches!(e, ParserEvent::Typst(typst::Event::Start(typst::Tag::Paragraph)))
}

/// Appends all of `run` to `out`.
fn drain_into(out: &mut Vec<ParserEvent>, run: Vec<ParserEvent>)
    ensures
        events_view(final(out)@) == events_view(old(out)@) + events_view(run@),
{
    let ghost rv = events_view(run@);
    let mut pending = reversed(run);
    let ghost n = rv.len();
    while pending.len() > 0
        invariant
            n == rv.len(),
            pending.len() <= n,
            events_view(rev(pending@)) == rv.skip(n - pending.len()),
            events_view(out@) == events_view(old(out)@) + rv.take(n - pending.len()),
        decreases pending.len(),
    {
        let ghost k = n - pending.len();
        let ghost before = pending@;
        let e = pending.pop().unwrap();
        proof {
            lemma_pop_next(before, pending@, e, rv, k as int);
        }
        let ghost ov = events_view(out@);
        out.push(e);
        assert(events_view(out@) =~= ov.push(rv[k]));
        assert(rv.take(k + 1) =~= rv.take(k).push(rv[k]));
    }
    assert(rv.take(n as int) =~= rv);
}

/// Joins paragraphs that only text and line breaks separate; see [`merged`].
pub struct MergeConsecutiveParagraphs {
    events: Vec<ParserEvent>,
}

impl MergeConsecutiveParagraphs {
    pub closed spec fn input(&self) -> Seq<PEventV> {
        events_view(self.events@)
    }

    pub fn new(events: Vec<ParserEvent>) -> (r: Self)
        ensures
            r.input() == events_view(events@),
    {
        MergeConsecutiveParagraphs { events }
    }

    /// The merged events.
    pub fn into_events(self) -> (r: Vec<ParserEvent>)
        ensures
            events_view(r@) == merged(self.input()),
    {
        let ghost input = self.input();
        let mut pending = reversed(self.events);
        let ghost n = input.len();
        let mut out: Vec<ParserEvent> = Vec::new();
        let mut run: Vec<ParserEvent> = Vec::new();
        let mut waiting = false;
        while pending.len() > 0
            invariant
                n == input.len(),
                pending.len() <= n,
                events_view(rev(pending@)) == input.skip(n - pending.len()),
                (events_view(out@), if waiting {
                    Some(events_view(run@))
                } else {
                    None
                }) == merge_state(input.take(n - pending.len())),
            decreases pending.len(),
        {
            let ghost k = n - pending.len();
            let ghost before = pending@;
            let e = pending.pop().unwrap();
            proof {
                lemma_pop_next(before, pending@, e, input, k as int);
            }
            assert(input.take(k + 1).drop_last() =~= input.take(k));
            let ghost ov = events_view(out@);
            let ghost rv = events_view(run@);
            let ghost ev = e@;
            if !waiting {
                if is_end_par_exec(&e) {
                    waiting = true;
                    run = Vec::new();
                    assert(events_view(run@) =~= Seq::<PEventV>::empty());
                } else {
                    out.push(e);
                    assert(events_view(out@) =~= ov.push(ev));
                }
            } else if is_quiet_exec(&e) {
                run.push(e);
                assert(events_view(run@) =~= rv.push(ev));
            } else if is_start_par_exec(&e) {
                out.push(ParserEvent::Typst(typst::Event::Linebreak));
                let r = run;
                run = Vec::new();
                drain_into(&mut out, r);
                waiting = false;
                assert(events_view(out@) =~= ov + seq![linebreak()] + rv);
            } else if is_end_par_exec(&e) {
                out.push(ParserEvent::Typst(typst::Event::End(typst::Tag::Paragraph)));
                let r = run;
                run = Vec::new();
                drain_into(&mut out, r);
                assert(events_view(run@) =~= Seq::<PEventV>::empty());
                assert(events_view(out@) =~= ov + seq![end_par()] + rv);
            } else {
                out.push(ParserEvent::Typst(typst::Event::End(typst::Tag::Paragraph)));
                let r = run;
                run = Vec::new();
                drain_into(&mut out, r);
                let ghost ov2 = events_view(out@);
                out.push(e);
                waiting = false;
                assert(events_view(out@) =~= ov2.push(ev));
                assert(events_view(out@) =~= ov + seq![end_par()] + rv + seq![ev]);
            }
        }
        assert(input.take(n as int) =~= input);
        if waiting {
            let ghost ov = events_view(out@);
            out.push(ParserEvent::Typst(typst::Event::End(typst::Tag::Paragraph)));
            drain_into(&mut out, run);
            assert(events_view(out@) =~= ov + seq![end_par()] + merge_state(input).1->Some_0);
        }
        out
    }
}

} // verus!
