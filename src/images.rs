//! Images: a source image becomes a standalone image call, never inside a
//! paragraph. A paragraph that holds only an image disappears; an image after
//! prose closes the paragraph first, and content after the image opens a new
//! one; nothing between an image's start and end (its alt text) reaches the
//! output. A paragraph's start is held back until its first content, so that
//! a paragraph holding only images leaves none behind; a paragraph without
//! images, empty or not, and every event outside images and paragraph
//! boundaries pass through unchanged.
use vstd::prelude::*;
use crate::convert::{opt_pview, rev, reversed};
use crate::markdown::{events_view, Event, MdEventV, MdTagV, PEventV, ParserEvent, Tag};
use crate::markup_model::image_name;
use crate::text::{chars_of, push_char, starts_with, string_from};
use crate::typst::{self, EventV, TagV};

verus! {

/// The events the image converter owns.
#[derive(Clone, Copy, Debug, PartialEq, Eq, Structural)]
pub enum Kind {
    ImageStart,
    ImageEnd,
    StartParagraph,
    EndParagraph,
    Other,
}

pub open spec fn kind(e: PEventV) -> Kind {
    match e {
        PEventV::Markdown(MdEventV::Start(MdTagV::Image(_, _, _))) => Kind::ImageStart,
        PEventV::Markdown(MdEventV::End(MdTagV::Image(_, _, _))) => Kind::ImageEnd,
        PEventV::Typst(EventV::Start(TagV::Paragraph)) => Kind::StartParagraph,
        PEventV::Typst(EventV::End(TagV::Paragraph)) => Kind::EndParagraph,
        _ => Kind::Other,
    }
}

/// Where the converter stands with respect to paragraphs.
#[derive(Clone, Copy, Debug, PartialEq, Eq, Structural)]
pub enum ParMode {
    /// No paragraph of the input is open.
    Outside,
    /// A paragraph of the input has just started; its start is held back
    /// until its first content or its end.
    Held,
    /// A paragraph of the input is open, but the output's was closed for an
    /// image (or never opened before one): content reopens it, its end
    /// leaves nothing.
    AfterImage,
    /// A paragraph is open in the output.
    Open,
}

pub open spec fn start_paragraph() -> PEventV {
    PEventV::Typst(EventV::Start(TagV::Paragraph))
}

pub open spec fn end_paragraph() -> PEventV {
    PEventV::Typst(EventV::End(TagV::Paragraph))
}

/// The path of an image start event.
pub open spec fn image_url(e: PEventV) -> Seq<char> {
    match e {
        PEventV::Markdown(MdEventV::Start(MdTagV::Image(_, url, _))) => url,
        _ => seq![],
    }
}

/// The image call for a path, without a leading `./`, as a quoted argument.
pub open spec fn image_event(url: Seq<char>) -> PEventV {
    let path = if starts_with(url, seq!['.', '/']) {
        url.skip(2)
    } else {
        url
    };
    PEventV::Typst(EventV::FunctionCall(None, image_name(), seq![seq!['"'] + path + seq!['"']]))
}

/// The image converter's state: how many images are open (their contents are
/// skipped), and the paragraph mode.
pub struct ImagesState {
    pub depth: nat,
    pub mode: ParMode,
}

pub open spec fn images_start() -> ImagesState {
    ImagesState { depth: 0, mode: ParMode::Outside }
}

/// One input event: the state after it and the events it becomes.
pub open spec fn image_step(st: ImagesState, e: PEventV) -> (ImagesState, Seq<PEventV>) {
    let k = kind(e);
    if st.depth > 0 {
        // Inside an image: everything is dropped; nested images are counted.
        if k == Kind::ImageStart {
            (ImagesState { depth: st.depth + 1, ..st }, seq![])
        } else if k == Kind::ImageEnd {
            (ImagesState { depth: (st.depth - 1) as nat, ..st }, seq![])
        } else {
            (st, seq![])
        }
    } else if k == Kind::ImageStart {
        let call = image_event(image_url(e));
        if st.mode == ParMode::Open {
            (ImagesState { depth: 1, mode: ParMode::AfterImage }, seq![end_paragraph(), call])
        } else if st.mode == ParMode::Held {
            (ImagesState { depth: 1, mode: ParMode::AfterImage }, seq![call])
        } else {
            (ImagesState { depth: 1, ..st }, seq![call])
        }
    } else if k == Kind::ImageEnd {
        (st, seq![])
    } else if k == Kind::StartParagraph && st.mode == ParMode::Outside {
        (ImagesState { mode: ParMode::Held, ..st }, seq![])
    } else if k == Kind::EndParagraph && st.mode == ParMode::Open {
        (ImagesState { mode: ParMode::Outside, ..st }, seq![e])
    } else if k == Kind::EndParagraph && st.mode == ParMode::Held {
        (ImagesState { mode: ParMode::Outside, ..st }, seq![start_paragraph(), e])
    } else if k == Kind::EndParagraph && st.mode == ParMode::AfterImage {
        (ImagesState { mode: ParMode::Outside, ..st }, seq![])
    } else if st.mode == ParMode::Held || st.mode == ParMode::AfterImage {
        (ImagesState { mode: ParMode::Open, ..st }, seq![start_paragraph(), e])
    } else {
        (st, seq![e])
    }
}

/// What the converter yields for input `s` from state `st`.
pub open spec fn images_from(st: ImagesState, s: Seq<PEventV>) -> Seq<PEventV>
    decreases s.len(),
{
    if s.len() == 0 {
        seq![]
    } else {
        let (st1, out) = image_step(st, s[0]);
        out + images_from(st1, s.skip(1))
    }
}

/// What the converter yields for input `s`.
pub open spec fn images_of(s: Seq<PEventV>) -> Seq<PEventV> {
    images_from(images_start(), s)
}

pub open spec fn not_image(e: PEventV) -> bool {
    kind(e) != Kind::ImageStart && kind(e) != Kind::ImageEnd
}

proof fn lemma_skip_image_body(st: ImagesState, alt: Seq<PEventV>, end: PEventV, rest: Seq<PEventV>)
    requires
        st.depth == 1,
        kind(end) == Kind::ImageEnd,
        forall|i: int| 0 <= i < alt.len() ==> not_image(#[trigger] alt[i]),
    ensures
        images_from(st, alt + seq![end] + rest) == images_from(
            ImagesState { depth: 0, ..st },
            rest,
        ),
    decreases alt.len(),
{
    let s = alt + seq![end] + rest;
    if alt.len() == 0 {
        assert(s[0] == end);
        assert(s.skip(1) =~= rest);
    } else {
        assert(s[0] == alt[0]);
        assert(not_image(alt[0]));
        assert forall|i: int| 0 <= i < alt.skip(1).len() implies not_image(#[trigger] alt.skip(1)[i]) by {
            assert(alt.skip(1)[i] == alt[i + 1]);
        }
        lemma_skip_image_body(st, alt.skip(1), end, rest);
        assert(s.skip(1) =~= alt.skip(1) + seq![end] + rest);
    }
}

/// An image, whatever its alt text, becomes exactly its image call: an open
/// paragraph is closed before it, nothing between its start and end reaches
/// the output, and the paragraph it stood in is held back, so that content
/// after it opens a new one and its end leaves nothing.
pub proof fn lemma_image_becomes_call(
    st: ImagesState,
    start: PEventV,
    alt: Seq<PEventV>,
    end: PEventV,
    rest: Seq<PEventV>,
)
    requires
        st.depth == 0,
        kind(start) == Kind::ImageStart,
        kind(end) == Kind::ImageEnd,
        forall|i: int| 0 <= i < alt.len() ==> not_image(#[trigger] alt[i]),
    ensures
        images_from(st, seq![start] + alt + seq![end] + rest) == (if st.mode == ParMode::Open {
            seq![end_paragraph()]
        } else {
            seq![]
        }) + seq![image_event(image_url(start))] + images_from(
            ImagesState {
                depth: 0,
                mode: if st.mode == ParMode::Open || st.mode == ParMode::Held {
                    ParMode::AfterImage
                } else {
                    st.mode
                },
            },
            rest,
        ),
{
    let s = seq![start] + alt + seq![end] + rest;
    assert(s[0] == start);
    assert(s.skip(1) =~= alt + seq![end] + rest);
    let st1 = image_step(st, start).0;
    lemma_skip_image_body(st1, alt, end, rest);
    if st.mode == ParMode::Open {
        assert(seq![end_paragraph(), image_event(image_url(start))] =~= seq![end_paragraph()] + seq![
            image_event(image_url(start)),
        ]);
    } else {
        assert(seq![image_event(image_url(start))] =~= Seq::<PEventV>::empty() + seq![
            image_event(image_url(start)),
        ]);
    }
}

/// Events the converter does not own pass through unchanged, outside
/// paragraphs and images.
pub proof fn lemma_others_pass(s: Seq<PEventV>)
    requires
        forall|i: int| 0 <= i < s.len() ==> kind(#[trigger] s[i]) == Kind::Other,
    ensures
        images_from(images_start(), s) == s,
    decreases s.len(),
{
    if s.len() > 0 {
        assert(kind(s[0]) == Kind::Other);
        assert forall|i: int| 0 <= i < s.skip(1).len() implies kind(#[trigger] s.skip(1)[i])
            == Kind::Other by {
            assert(s.skip(1)[i] == s[i + 1]);
        }
        lemma_others_pass(s.skip(1));
        assert(s =~= seq![s[0]] + s.skip(1));
    }
}

proof fn lemma_open_content_passes(c: Seq<PEventV>, rest: Seq<PEventV>)
    requires
        forall|i: int| 0 <= i < c.len() ==> kind(#[trigger] c[i]) == Kind::Other,
    ensures
        images_from(ImagesState { depth: 0, mode: ParMode::Open }, c + rest) == c + images_from(
            ImagesState { depth: 0, mode: ParMode::Open },
            rest,
        ),
    decreases c.len(),
{
    if c.len() == 0 {
        assert(c + rest =~= rest);
    } else {
        assert((c + rest)[0] == c[0]);
        assert((c + rest).skip(1) =~= c.skip(1) + rest);
        assert forall|i: int| 0 <= i < c.skip(1).len() implies kind(#[trigger] c.skip(1)[i])
            == Kind::Other by {
            assert(c.skip(1)[i] == c[i + 1]);
        }
        lemma_open_content_passes(c.skip(1), rest);
        assert(c =~= seq![c[0]] + c.skip(1));
    }
}

/// A paragraph without images passes through unchanged, its start held back
/// only until its first content.
pub proof fn lemma_paragraph_passes(c: Seq<PEventV>, rest: Seq<PEventV>)
    requires
        c.len() > 0,
        forall|i: int| 0 <= i < c.len() ==> kind(#[trigger] c[i]) == Kind::Other,
    ensures
        images_from(images_start(), seq![start_paragraph()] + c + seq![end_paragraph()] + rest)
            == seq![start_paragraph()] + c + seq![end_paragraph()] + images_from(
            images_start(),
            rest,
        ),
{
    let s = seq![start_paragraph()] + c + seq![end_paragraph()] + rest;
    assert(s[0] == start_paragraph());
    let s1 = s.skip(1);
    assert(s1 =~= c + (seq![end_paragraph()] + rest));
    assert(s1[0] == c[0]);
    assert(kind(c[0]) == Kind::Other);
    assert forall|i: int| 0 <= i < c.skip(1).len() implies kind(#[trigger] c.skip(1)[i])
        == Kind::Other by {
        assert(c.skip(1)[i] == c[i + 1]);
    }
    assert(s1.skip(1) =~= c.skip(1) + (seq![end_paragraph()] + rest));
    lemma_open_content_passes(c.skip(1), seq![end_paragraph()] + rest);
    let t = seq![end_paragraph()] + rest;
    assert(t[0] == end_paragraph());
    assert(t.skip(1) =~= rest);
    assert(c =~= seq![c[0]] + c.skip(1));
    let held = ImagesState { depth: 0, mode: ParMode::Held };
    let open = ImagesState { depth: 0, mode: ParMode::Open };
    assert(images_from(images_start(), s) == images_from(held, s1));
    assert(images_from(held, s1) == seq![start_paragraph(), c[0]] + images_from(open, s1.skip(1)));
    assert(images_from(open, t) == seq![end_paragraph()] + images_from(images_start(), rest));
    assert(images_from(images_start(), s) =~= seq![start_paragraph()] + c + seq![end_paragraph()]
        + images_from(images_start(), rest));
}

/// An empty paragraph passes through unchanged.
pub proof fn lemma_empty_paragraph_passes(rest: Seq<PEventV>)
    ensures
        images_from(images_start(), seq![start_paragraph(), end_paragraph()] + rest) == seq![
            start_paragraph(),
            end_paragraph(),
        ] + images_from(images_start(), rest),
{
    let s = seq![start_paragraph(), end_paragraph()] + rest;
    assert(s[0] == start_paragraph());
    assert(s.skip(1)[0] == end_paragraph());
    assert(s.skip(1).skip(1) =~= rest);
    let held = ImagesState { depth: 0, mode: ParMode::Held };
    assert(images_from(images_start(), s) == images_from(held, s.skip(1)));
    assert(images_from(held, s.skip(1)) == seq![start_paragraph(), end_paragraph()]
        + images_from(images_start(), s.skip(1).skip(1)));
}

/// Once a paragraph's start is held back (at its start or after an image),
/// the next content reopens it.
pub proof fn lemma_content_reopens_paragraph(st: ImagesState, e: PEventV)
    requires
        st.depth == 0,
        st.mode == ParMode::Held || st.mode == ParMode::AfterImage,
        kind(e) == Kind::Other,
    ensures
        image_step(st, e) == (ImagesState { depth: 0, mode: ParMode::Open }, seq![
            start_paragraph(),
            e,
        ]),
{
}

/// What an event adds to the number of open paragraphs.
pub open spec fn par_delta(e: PEventV) -> int {
    if kind(e) == Kind::StartParagraph {
        1
    } else if kind(e) == Kind::EndParagraph {
        -1
    } else {
        0
    }
}

/// Paragraph starts minus paragraph ends in `o`.
pub open spec fn open_pars(o: Seq<PEventV>) -> int
    decreases o.len(),
{
    if o.len() == 0 {
        0
    } else {
        open_pars(o.drop_last()) + par_delta(o.last())
    }
}

pub open spec fn is_image_call(e: PEventV) -> bool {
    match e {
        PEventV::Typst(EventV::FunctionCall(_, f, _)) => f == image_name(),
        _ => false,
    }
}

pub open spec fn mode_open(st: ImagesState) -> int {
    if st.mode == ParMode::Open {
        1
    } else {
        0
    }
}

/// The input's paragraphs are neither nested nor left unbalanced: outside
/// images, a paragraph starts only when none is open and ends only when one
/// is; and it holds no image call yet.
pub open spec fn paragraphs_ok(st: ImagesState, s: Seq<PEventV>) -> bool
    decreases s.len(),
{
    s.len() == 0 || (!is_image_call(s[0]) && (st.depth == 0 && kind(s[0]) == Kind::StartParagraph
        ==> st.mode == ParMode::Outside) && (st.depth == 0 && kind(s[0]) == Kind::EndParagraph
        ==> st.mode != ParMode::Outside) && paragraphs_ok(image_step(st, s[0]).0, s.skip(1)))
}

proof fn lemma_open_pars_add(a: Seq<PEventV>, b: Seq<PEventV>)
    ensures
        open_pars(a + b) == open_pars(a) + open_pars(b),
    decreases b.len(),
{
    if b.len() > 0 {
        lemma_open_pars_add(a, b.drop_last());
        assert((a + b).drop_last() =~= a + b.drop_last());
    } else {
        assert(a + b =~= a);
    }
}

proof fn lemma_open_pars_short(x: PEventV, y: PEventV)
    ensures
        open_pars(Seq::<PEventV>::empty()) == 0,
        open_pars(seq![x]) == par_delta(x),
        open_pars(seq![x, y]) == par_delta(x) + par_delta(y),
{
    assert(seq![x].drop_last() =~= Seq::<PEventV>::empty());
    assert(open_pars(seq![x]) == open_pars(Seq::<PEventV>::empty()) + par_delta(x));
    assert(seq![x, y].drop_last() =~= seq![x]);
    assert(seq![x, y].last() == y);
    assert(open_pars(seq![x, y]) == open_pars(seq![x]) + par_delta(y));
}

proof fn lemma_step_paragraphs(st: ImagesState, e: PEventV)
    requires
        !is_image_call(e),
        st.depth == 0 && kind(e) == Kind::StartParagraph ==> st.mode == ParMode::Outside,
        st.depth == 0 && kind(e) == Kind::EndParagraph ==> st.mode != ParMode::Outside,
    ensures
        open_pars(image_step(st, e).1) + mode_open(st) == mode_open(image_step(st, e).0),
        forall|j: int|
            0 <= j < image_step(st, e).1.len() && is_image_call(#[trigger] image_step(st, e).1[j])
                ==> open_pars(image_step(st, e).1.take(j)) + mode_open(st) == 0,
{
    let (st1, out) = image_step(st, e);
    let call = image_event(image_url(e));
    lemma_open_pars_short(end_paragraph(), call);
    lemma_open_pars_short(start_paragraph(), e);
    lemma_open_pars_short(start_paragraph(), end_paragraph());
    lemma_open_pars_short(e, e);
    lemma_open_pars_short(call, call);
    assert forall|j: int| 0 <= j < out.len() && is_image_call(#[trigger] out[j]) implies open_pars(
        out.take(j),
    ) + mode_open(st) == 0 by {
        if j == 0 {
            assert(out.take(0) =~= Seq::<PEventV>::empty());
        } else {
            assert(out.take(1) =~= seq![out[0]]);
            lemma_open_pars_short(out[0], out[0]);
        }
    }
}

proof fn lemma_calls_outside_paragraphs(st: ImagesState, s: Seq<PEventV>)
    requires
        paragraphs_ok(st, s),
    ensures
        forall|j: int|
            0 <= j < images_from(st, s).len() && is_image_call(#[trigger] images_from(st, s)[j])
                ==> open_pars(images_from(st, s).take(j)) + mode_open(st) == 0,
    decreases s.len(),
{
    if s.len() > 0 {
        let (st1, a) = image_step(st, s[0]);
        let b = images_from(st1, s.skip(1));
        let out = images_from(st, s);
        assert(out == a + b);
        lemma_step_paragraphs(st, s[0]);
        lemma_calls_outside_paragraphs(st1, s.skip(1));
        assert forall|j: int| 0 <= j < out.len() && is_image_call(#[trigger] out[j]) implies open_pars(
            out.take(j),
        ) + mode_open(st) == 0 by {
            if j < a.len() {
                assert(out.take(j) =~= a.take(j));
                assert(out[j] == a[j]);
            } else {
                let j2 = j - a.len();
                assert(out.take(j) =~= a + b.take(j2));
                assert(out[j] == b[j2]);
                lemma_open_pars_add(a, b.take(j2));
            }
        }
    }
}

/// An image is never inside a paragraph: when the input's paragraphs are
/// neither nested nor unbalanced, every image call of the output comes after
/// as many paragraph ends as starts.
pub proof fn lemma_images_outside_paragraphs(s: Seq<PEventV>)
    requires
        paragraphs_ok(images_start(), s),
    ensures
        forall|j: int|
            0 <= j < images_of(s).len() && is_image_call(#[trigger] images_of(s)[j]) ==> open_pars(
                images_of(s).take(j),
            ) == 0,
{
    lemma_calls_outside_paragraphs(images_start(), s);
}

fn kind_of(e: &ParserEvent) -> (r: Kind)
    ensures
        r == kind(e@),
{
    match e {
        ParserEvent::Markdown(Event::Start(Tag::Image(_, _, _))) => Kind::ImageStart,
        ParserEvent::Markdown(Event::End(Tag::Image(_, _, _))) => Kind::ImageEnd,
        ParserEvent::Typst(typst::Event::Start(typst::Tag::Paragraph)) => Kind::StartParagraph,
        ParserEvent::Typst(typst::Event::End(typst::Tag::Paragraph)) => Kind::EndParagraph,
        _ => Kind::Other,
    }
}

/// The image call for an image start event.
fn image_call(e: &ParserEvent) -> (r: ParserEvent)
    ensures
        r@ == image_event(image_url(e@)),
{
    let empty = String::new();
    let url = match e {
        ParserEvent::Markdown(Event::Start(Tag::Image(_, url, _))) => url,
        _ => &empty,
    };
    let v = chars_of(url.as_str());
    let b: usize = if v.len() >= 2 && v[0] == '.' && v[1] == '/' {
        2
    } else {
        0
    };
    assert((b == 2) == starts_with(url@, seq!['.', '/'])) by {
        if v.len() >= 2 {
            assert(url@.take(2)[0] == url@[0] && url@.take(2)[1] == url@[1]);
            if v@[0] == '.' && v@[1] == '/' {
                assert(url@.take(2) =~= seq!['.', '/']);
            }
        }
    }
    let mut quoted = String::new();
    push_char(&mut quoted, '"');
    let path = string_from(&v, b, v.len());
    quoted.append(path.as_str());
    push_char(&mut quoted, '"');
    let mut name = String::new();
    push_char(&mut name, 'i');
    push_char(&mut name, 'm');
    push_char(&mut name, 'a');
    push_char(&mut name, 'g');
    push_char(&mut name, 'e');
    assert(name@ =~= image_name());
    let ghost q = quoted@;
    let args = vec![quoted];
    assert(args@.map_values(|s: String| s@) =~= seq![q]);
    let r = ParserEvent::Typst(typst::Event::FunctionCall(None, name, args));
    assert(b == 0 ==> v@.subrange(0, v.len() as int) =~= url@);
    assert(b == 2 ==> v@.subrange(2, v.len() as int) =~= url@.skip(2));
    assert(q =~= seq!['"'] + (if b == 2 {
        url@.skip(2)
    } else {
        url@
    }) + seq!['"']);
    r
}

pub open spec fn opt_seq(o: Option<PEventV>) -> Seq<PEventV> {
    match o {
        Some(x) => seq![x],
        None => seq![],
    }
}

/// Takes images out of paragraphs and turns them into image calls; see the
/// module documentation.
pub struct ConvertImages {
    depth: usize,
    mode: ParMode,
    /// An output event due before any further input is read.
    queued: Option<ParserEvent>,
    /// The input still to come, the next one last.
    iter: Vec<ParserEvent>,
}

impl ConvertImages {
    pub closed spec fn state(&self) -> ImagesState {
        ImagesState { depth: self.depth as nat, mode: self.mode }
    }

    /// The input still to come, in order.
    pub closed spec fn remaining(&self) -> Seq<PEventV> {
        events_view(rev(self.iter@))
    }

    /// Everything the converter has still to yield.
    pub closed spec fn pending(&self) -> Seq<PEventV> {
        opt_seq(opt_pview(self.queued)) + images_from(self.state(), self.remaining())
    }

    pub closed spec fn measure(&self) -> nat {
        (2 * self.iter.len() + if self.queued is Some {
            1int
        } else {
            0int
        }) as nat
    }

    pub closed spec fn wf(&self) -> bool {
        self.depth + self.iter.len() <= usize::MAX
    }

    pub fn new(iter: Vec<ParserEvent>) -> (r: Self)
        ensures
            r.wf(),
            r.pending() == images_of(events_view(iter@)),
    {
        let ghost input = iter@;
        let pending = reversed(iter);
        let r = ConvertImages { depth: 0, mode: ParMode::Outside, queued: None, iter: pending };
        assert(rev(pending@) =~= input);
        assert(r.pending() =~= images_of(events_view(input)));
        r
    }

    /// One input event; its output events, the first of them first.
    fn step(&mut self, e: ParserEvent) -> (r: (Option<ParserEvent>, Option<ParserEvent>))
        requires
            old(self).depth < usize::MAX,
        ensures
            (final(self).state(), opt_seq(opt_pview(r.0)) + opt_seq(opt_pview(r.1)))
                == image_step(old(self).state(), e@),
            r.0 is None ==> r.1 is None,
            final(self).depth <= old(self).depth + 1,
            final(self).iter == old(self).iter,
            final(self).queued == old(self).queued,
    {
        let k = kind_of(&e);
        if self.depth > 0 {
            if k == Kind::ImageStart {
                self.depth = self.depth + 1;
            } else if k == Kind::ImageEnd {
                self.depth = self.depth - 1;
            }
            return (None, None);
        }
        if k == Kind::ImageStart {
            let call = image_call(&e);
            self.depth = 1;
            if self.mode == ParMode::Open {
                self.mode = ParMode::AfterImage;
                return (Some(ParserEvent::Typst(typst::Event::End(typst::Tag::Paragraph))), Some(call));
            }
            if self.mode == ParMode::Held {
                self.mode = ParMode::AfterImage;
            }
            return (Some(call), None);
        }
        if k == Kind::ImageEnd {
            return (None, None);
        }
        if k == Kind::StartParagraph && self.mode == ParMode::Outside {
            self.mode = ParMode::Held;
            return (None, None);
        }
        if k == Kind::EndParagraph && self.mode == ParMode::Open {
            self.mode = ParMode::Outside;
            return (Some(e), None);
        }
        if k == Kind::EndParagraph && self.mode == ParMode::Held {
            self.mode = ParMode::Outside;
            return (Some(ParserEvent::Typst(typst::Event::Start(typst::Tag::Paragraph))), Some(e));
        }
        if k == Kind::EndParagraph && self.mode == ParMode::AfterImage {
            self.mode = ParMode::Outside;
            return (None, None);
        }
        if self.mode == ParMode::Held || self.mode == ParMode::AfterImage {
            self.mode = ParMode::Open;
            return (Some(ParserEvent::Typst(typst::Event::Start(typst::Tag::Paragraph))), Some(e));
        }
        (Some(e), None)
    }

    /// The next output event: the first of [`pending`](Self::pending), or
    /// `None` when nothing is left.
    pub fn next(&mut self) -> (r: Option<ParserEvent>)
        requires
            old(self).wf(),
        ensures
            final(self).wf(),
            match r {
                Some(x) => old(self).pending() == seq![x@] + final(self).pending()
                    && final(self).measure() < old(self).measure(),
                None => old(self).pending().len() == 0 && final(self).pending().len() == 0,
            },
    {
        if self.queued.is_some() {
            let q = self.queued.take();
            assert(old(self).pending() =~= seq![q->Some_0@] + self.pending());
            return q;
        }
        assert(old(self).pending() =~= images_from(self.state(), self.remaining()));
        while self.iter.len() > 0
            invariant
                self.wf(),
                self.queued is None,
                self.iter.len() <= old(self).iter.len(),
                old(self).measure() == 2 * old(self).iter.len(),
                old(self).pending() == images_from(self.state(), self.remaining()),
            decreases self.iter.len(),
        {
            let ghost rem = self.remaining();
            let ghost st = self.state();
            let ghost before = self.iter@;
            let e = self.iter.pop().unwrap();
            assert(e@ == rem[0]) by {
                assert(rev(before)[0] == before[before.len() - 1]);
            }
            assert(self.remaining() =~= rem.skip(1));
            let out = self.step(e);
            match out.0 {
                Some(a) => {
                    self.queued = out.1;
                    assert(old(self).pending() =~= seq![a@] + self.pending());
                    return Some(a);
                },
                None => {
                    assert(images_from(st, rem) =~= images_from(self.state(), self.remaining()));
                },
            }
        }
        assert(self.remaining() =~= Seq::<PEventV>::empty());
        None
    }

    /// Everything the converter yields.
    pub fn into_events(self) -> (r: Vec<ParserEvent>)
        requires
            self.wf(),
        ensures
            events_view(r@) == self.pending(),
    {
        let ghost p0 = self.pending();
        let mut this = self;
        let mut out: Vec<ParserEvent> = Vec::new();
        assert(events_view(out@) + this.pending() =~= p0);
        loop
            invariant
                this.wf(),
                p0 == self.pending(),
                events_view(out@) + this.pending() == p0,
            decreases this.measure(),
        {
            let ghost ov = events_view(out@);
            let ghost p = this.pending();
            match this.next() {
                Some(x) => {
                    out.push(x);
                    assert(events_view(out@) =~= ov.push(x@));
                    assert(events_view(out@) + this.pending() =~= ov + p);
                },
                None => {
                    assert(events_view(out@) =~= p0);
                    return out;
                },
            }
        }
    }
}

} // verus!
