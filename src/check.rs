//! Checking a destination stream before serializing it: every end tag closes
//! the innermost open tag, list items stand in lists, and show rules carry
//! their payload.
use vstd::prelude::*;
use crate::markup_model::{image_name, initial_model, markup_step, stream_ok, MarkupModel};
use crate::markup::is_image_name;
use crate::typst::{Event, EventV, ShowType, TableCellAlignment, Tag, TagV};

verus! {

/// What an event does to the open tags and to the flag of a paragraph
/// closed early for an image.
pub open spec fn nesting_step(stack: Seq<TagV>, closed: bool, e: EventV) -> (Seq<TagV>, bool) {
    match e {
        EventV::Start(t) => (stack.push(t), closed),
        EventV::End(t) => if t is Paragraph && closed {
            (stack, false)
        } else {
            (stack.drop_last(), closed)
        },
        EventV::FunctionCall(_, f, _) => if f == image_name() && stack.len() > 0
            && stack.last() is Paragraph {
            (stack.drop_last(), true)
        } else {
            (stack, closed)
        },
        _ => (stack, closed),
    }
}

/// The serializer's open tags and early-closed flag follow [`nesting_step`].
pub proof fn lemma_nesting_step(m: MarkupModel, e: EventV)
    ensures
        (markup_step(m, e).0.stack, markup_step(m, e).0.closed_for_image) == nesting_step(
            m.stack,
            m.closed_for_image,
            e,
        ),
{
}

fn opt_eq(a: &Option<String>, b: &Option<String>) -> (r: bool)
    ensures
        r == (crate::typst::opt_view(*a) == crate::typst::opt_view(*b)),
{
    match (a, b) {
        (Some(x), Some(y)) => *x == *y,
        (None, None) => true,
        _ => false,
    }
}

fn alignments_eq(a: &Vec<TableCellAlignment>, b: &Vec<TableCellAlignment>) -> (r: bool)
    ensures
        r == (a@ == b@),
{
    if a.len() != b.len() {
        return false;
    }
    let mut i: usize = 0;
    while i < a.len()
        invariant
            a.len() == b.len(),
            i <= a.len(),
            forall|k: int| 0 <= k < i ==> a@[k] == b@[k],
        decreases a.len() - i,
    {
        if a[i] != b[i] {
            return false;
        }
        i = i + 1;
    }
    assert(a@ =~= b@);
    true
}

/// Whether two tags are the same.
pub fn tag_eq(a: &Tag, b: &Tag) -> (r: bool)
    ensures
        r == (a@ == b@),
{
    match (a, b) {
        (Tag::Paragraph, Tag::Paragraph) => true,
        (Tag::Heading(n1, t1, b1), Tag::Heading(n2, t2, b2)) => *n1 == *n2 && *t1 == *t2 && *b1
            == *b2,
        (Tag::Emphasis, Tag::Emphasis) => true,
        (Tag::Strong, Tag::Strong) => true,
        (Tag::Link(k1, u1), Tag::Link(k2, u2)) => *k1 == *k2 && *u1 == *u2,
        (Tag::Quote(k1, q1, a1), Tag::Quote(k2, q2, a2)) => *k1 == *k2 && *q1 == *q2 && opt_eq(
            a1,
            a2,
        ),
        (Tag::CodeBlock(f1, d1), Tag::CodeBlock(f2, d2)) => opt_eq(f1, f2) && *d1 == *d2,
        (Tag::BulletList(m1, t1), Tag::BulletList(m2, t2)) => opt_eq(m1, m2) && *t1 == *t2,
        (Tag::NumberedList(n1, p1, t1), Tag::NumberedList(n2, p2, t2)) => *n1 == *n2 && opt_eq(
            p1,
            p2,
        ) && *t1 == *t2,
        (Tag::Item, Tag::Item) => true,
        (Tag::Table(a1), Tag::Table(a2)) => alignments_eq(a1, a2),
        (Tag::TableHead, Tag::TableHead) => true,
        (Tag::TableRow, Tag::TableRow) => true,
        (Tag::TableCell, Tag::TableCell) => true,
        (Tag::Show(k1, s1, set1, f1), Tag::Show(k2, s2, set2, f2)) => {
            let sets = match (set1, set2) {
                (Some((e1, x1, v1)), Some((e2, x2, v2))) => *e1 == *e2 && *x1 == *x2 && *v1 == *v2,
                (None, None) => true,
                _ => false,
            };
            *k1 == *k2 && *s1 == *s2 && sets && opt_eq(f1, f2)
        },
        _ => false,
    }
}

/// The tag of a start event.
pub open spec fn started(e: EventV) -> TagV {
    match e {
        EventV::Start(t) => t,
        _ => TagV::Paragraph,
    }
}

/// Whether the serializer accepts `events`: `true` exactly when every event
/// is acceptable in the state the ones before it leave.
pub fn check_events(events: &Vec<Event>) -> (r: bool)
    ensures
        r == stream_ok(initial_model(), events@.map_values(|e: Event| e@)),
{
    let ghost evs = events@.map_values(|e: Event| e@);
    let ghost mut m = initial_model();
    // Indices of the start events of the open tags, innermost last.
    let mut open: Vec<usize> = Vec::new();
    let mut closed = false;
    let mut i: usize = 0;
    assert(evs.skip(0) =~= evs);
    while i < events.len()
        invariant
            i <= events.len(),
            evs == events@.map_values(|e: Event| e@),
            stream_ok(initial_model(), evs) == stream_ok(m, evs.skip(i as int)),
            closed == m.closed_for_image,
            open.len() == m.stack.len(),
            forall|k: int|
                0 <= k < open.len() ==> open@[k] < i && (#[trigger] evs[open@[k] as int]) is Start
                    && started(evs[open@[k] as int]) == m.stack[k],
        decreases events.len() - i,
    {
        let ghost e = evs[i as int];
        assert(evs.skip(i as int)[0] == e);
        assert(evs.skip(i as int).skip(1) =~= evs.skip(i + 1));
        proof {
            lemma_nesting_step(m, e);
        }
        let ghost m1 = markup_step(m, e).0;
        match &events[i] {
            Event::Start(t) => {
                match t {
                    Tag::Item => {
                        let n = open.len();
                        if n == 0 {
                            return false;
                        }
                        let top = open[n - 1];
                        let is_list = match &events[top] {
                            Event::Start(Tag::BulletList(_, _)) => true,
                            Event::Start(Tag::NumberedList(_, _, _)) => true,
                            _ => false,
                        };
                        assert(started(evs[top as int]) == m.stack.last());
                        if !is_list {
                            return false;
                        }
                    },
                    Tag::Show(ShowType::ShowSet, _, set, _) => {
                        if set.is_none() {
                            return false;
                        }
                    },
                    Tag::Show(ShowType::Function, _, _, f) => {
                        if f.is_none() {
                            return false;
                        }
                    },
                    _ => {},
                }
                open.push(i);
                assert(m1.stack == m.stack.push(t@));
            },
            Event::End(t) => {
                if matches!(t, Tag::Paragraph) && closed {
                    closed = false;
                } else {
                    let n = open.len();
                    if n == 0 {
                        return false;
                    }
                    let top = open[n - 1];
                    let same = match &events[top] {
                        Event::Start(s) => tag_eq(s, t),
                        _ => false,
                    };
                    assert(started(evs[top as int]) == m.stack.last());
                    if !same {
                        return false;
                    }
                    open.pop();
                }
            },
            Event::FunctionCall(_, f, _) => {
                let n = open.len();
                if is_image_name(f) && n > 0 {
                    let top = open[n - 1];
                    let par = matches!(&events[top], Event::Start(Tag::Paragraph));
                    assert(started(evs[top as int]) == m.stack.last());
                    if par {
                        open.pop();
                        closed = true;
                    }
                }
            },
            _ => {},
        }
        proof {
            m = m1;
        }
        i = i + 1;
    }
    true
}

} // verus!
