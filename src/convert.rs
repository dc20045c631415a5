//! Per-construct converters: each rewrites the source events of one
//! construct into destination events and passes every other event through.
use vstd::prelude::*;
use crate::markdown::{
    events_view, Alignment, CodeBlockKind, CodeBlockKindV, Event, HeadingLevel, LinkType,
    MdEventV, MdTagV, PEventV, ParserEvent, Tag,
};
use crate::markup::lit;
use crate::text::{ends_with, starts_with, trim_whitespace, trimmed};
use crate::typst::{self, Bookmarks, CodeBlockDisplay, EventV, QuoteQuotes, QuoteType,
    TableCellAlignment, TableOfContents, TagV};

verus! {

/// The construct a converter rewrites.
#[derive(Clone, Copy, Debug, PartialEq, Eq, Structural)]
pub enum Stage {
    Paragraphs,
    Links,
    Strong,
    Emphasis,
    SoftBreaks,
    HardBreaks,
    BlockQuotes,
    Code,
    Lists,
    Headings,
    Tables,
}

// ---------------------------------------------------------------------------
// What each converter does to one event.
// ---------------------------------------------------------------------------

pub open spec fn heading_number(l: HeadingLevel) -> u8 {
    match l {
        HeadingLevel::H1 => 1,
        HeadingLevel::H2 => 2,
        HeadingLevel::H3 => 3,
        HeadingLevel::H4 => 4,
        HeadingLevel::H5 => 5,
        HeadingLevel::H6 => 6,
    }
}

pub open spec fn alignment_of(a: Alignment) -> TableCellAlignment {
    match a {
        Alignment::Left => TableCellAlignment::Left,
        Alignment::Center => TableCellAlignment::Center,
        Alignment::Right => TableCellAlignment::Right,
        Alignment::Unset => TableCellAlignment::Unset,
    }
}

/// The destination tag a source tag becomes at `stage`, if `stage` owns it.
/// A link of a kind with no destination form (reference, collapsed,
/// shortcut) is owned and has none.
pub open spec fn tag_of(stage: Stage, t: MdTagV) -> Option<Option<TagV>> {
    match (stage, t) {
        (Stage::Paragraphs, MdTagV::Paragraph) => Some(Some(TagV::Paragraph)),
        (Stage::Links, MdTagV::Link(k, url, _)) => Some(
            match k {
                LinkType::Inline => Some(TagV::Link(typst::LinkType::Content, url)),
                LinkType::Autolink => Some(TagV::Link(typst::LinkType::Autolink, url)),
                LinkType::Email => Some(TagV::Link(typst::LinkType::Url, "mailto:"@ + url)),
                _ => None,
            },
        ),
        (Stage::Strong, MdTagV::Strong) => Some(Some(TagV::Strong)),
        (Stage::Emphasis, MdTagV::Emphasis) => Some(Some(TagV::Emphasis)),
        (Stage::BlockQuotes, MdTagV::BlockQuote) => Some(
            Some(TagV::Quote(QuoteType::Block, QuoteQuotes::Auto, None)),
        ),
        (Stage::Code, MdTagV::CodeBlock(k)) => Some(
            Some(
                TagV::CodeBlock(
                    match k {
                        CodeBlockKindV::Indented => None,
                        CodeBlockKindV::Fenced(f) => if f.len() == 0 {
                            None
                        } else {
                            Some(f)
                        },
                    },
                    CodeBlockDisplay::Block,
                ),
            ),
        ),
        (Stage::Lists, MdTagV::List(n)) => Some(
            Some(
                match n {
                    Some(start) => TagV::NumberedList(start, None, false),
                    None => TagV::BulletList(None, false),
                },
            ),
        ),
        (Stage::Lists, MdTagV::Item) => Some(Some(TagV::Item)),
        (Stage::Headings, MdTagV::Heading(l, _, _)) => Some(
            Some(
                TagV::Heading(heading_number(l), TableOfContents::Include, Bookmarks::Include),
            ),
        ),
        (Stage::Tables, MdTagV::Table(a)) => Some(
            Some(TagV::Table(a.map_values(|x: Alignment| alignment_of(x)))),
        ),
        (Stage::Tables, MdTagV::TableHead) => Some(Some(TagV::TableHead)),
        (Stage::Tables, MdTagV::TableRow) => Some(Some(TagV::TableRow)),
        (Stage::Tables, MdTagV::TableCell) => Some(Some(TagV::TableCell)),
        _ => None,
    }
}

/// What one event becomes at `stage`: `None` when it is dropped.
pub open spec fn converted(stage: Stage, e: PEventV) -> Option<PEventV> {
    match e {
        PEventV::Markdown(MdEventV::Start(t)) => match tag_of(stage, t) {
            Some(Some(d)) => Some(PEventV::Typst(EventV::Start(d))),
            Some(None) => None,
            None => Some(e),
        },
        PEventV::Markdown(MdEventV::End(t)) => match tag_of(stage, t) {
            Some(Some(d)) => Some(PEventV::Typst(EventV::End(d))),
            Some(None) => None,
            None => Some(e),
        },
        PEventV::Markdown(MdEventV::SoftBreak) => if stage == Stage::SoftBreaks {
            Some(PEventV::Typst(EventV::Text(" "@)))
        } else {
            Some(e)
        },
        PEventV::Markdown(MdEventV::HardBreak) => if stage == Stage::HardBreaks {
            Some(PEventV::Typst(EventV::Linebreak))
        } else {
            Some(e)
        },
        PEventV::Markdown(MdEventV::Code(x)) => if stage == Stage::Code {
            Some(PEventV::Typst(EventV::Code(x)))
        } else {
            Some(e)
        },
        _ => Some(e),
    }
}

/// The events of `s` converted at `stage`, in order, dropped ones left out.
pub open spec fn converted_all(stage: Stage, s: Seq<PEventV>) -> Seq<PEventV>
    decreases s.len(),
{
    if s.len() == 0 {
        seq![]
    } else {
        converted_all(stage, s.drop_last()) + match converted(stage, s.last()) {
            Some(x) => seq![x],
            None => seq![],
        }
    }
}

// ---------------------------------------------------------------------------
// Executable converters.
// ---------------------------------------------------------------------------

pub open spec fn opt_pview(o: Option<ParserEvent>) -> Option<PEventV> {
    match o {
        Some(e) => Some(e@),
        None => None,
    }
}

fn alignments_of(a: &Vec<Alignment>) -> (r: Vec<TableCellAlignment>)
    ensures
        r@ == a@.map_values(|x: Alignment| alignment_of(x)),
{
    let mut r: Vec<TableCellAlignment> = Vec::new();
    let mut i: usize = 0;
    while i < a.len()
        invariant
            i <= a.len(),
            r@ == a@.take(i as int).map_values(|x: Alignment| alignment_of(x)),
        decreases a.len() - i,
    {
        let x = match a[i] {
            Alignment::Left => TableCellAlignment::Left,
            Alignment::Center => TableCellAlignment::Center,
            Alignment::Right => TableCellAlignment::Right,
            Alignment::Unset => TableCellAlignment::Unset,
        };
        r.push(x);
        assert(a@.take(i + 1).map_values(|x: Alignment| alignment_of(x)) =~= a@.take(
            i as int,
        ).map_values(|x: Alignment| alignment_of(x)).push(alignment_of(a@[i as int])));
        i = i + 1;
    }
    assert(a@.take(a.len() as int) =~= a@);
    r
}

/// The destination tag for `t` at `stage`, in the shape of [`tag_of`].
fn convert_tag(stage: Stage, t: Tag) -> (r: Result<Option<typst::Tag>, Tag>)
    ensures
        match r {
            Ok(Some(d)) => tag_of(stage, t@) == Some(Some(d@)),
            Ok(None) => tag_of(stage, t@) == Some(None::<TagV>),
            Err(u) => tag_of(stage, t@) is None && u@ == t@,
        },
{
    match (stage, t) {
        (Stage::Paragraphs, Tag::Paragraph) => Ok(Some(typst::Tag::Paragraph)),
        (Stage::Links, Tag::Link(k, url, title)) => match k {
            LinkType::Inline => Ok(Some(typst::Tag::Link(typst::LinkType::Content, url))),
            LinkType::Autolink => Ok(Some(typst::Tag::Link(typst::LinkType::Autolink, url))),
            LinkType::Email => {
                let mut u = lit("mailto:");
                u.append(url.as_str());
                Ok(Some(typst::Tag::Link(typst::LinkType::Url, u)))
            },
            _ => Ok(None),
        },
        (Stage::Strong, Tag::Strong) => Ok(Some(typst::Tag::Strong)),
        (Stage::Emphasis, Tag::Emphasis) => Ok(Some(typst::Tag::Emphasis)),
        (Stage::BlockQuotes, Tag::BlockQuote) => Ok(
            Some(typst::Tag::Quote(QuoteType::Block, QuoteQuotes::Auto, None)),
        ),
        (Stage::Code, Tag::CodeBlock(k)) => {
            let fence = match k {
                CodeBlockKind::Indented => None,
                CodeBlockKind::Fenced(f) => if f.as_str().is_empty() {
                    None
                } else {
                    Some(f)
                },
            };
            Ok(Some(typst::Tag::CodeBlock(fence, CodeBlockDisplay::Block)))
        },
        (Stage::Lists, Tag::List(n)) => match n {
            Some(start) => Ok(Some(typst::Tag::NumberedList(start, None, false))),
            None => Ok(Some(typst::Tag::BulletList(None, false))),
        },
        (Stage::Lists, Tag::Item) => Ok(Some(typst::Tag::Item)),
        (Stage::Headings, Tag::Heading(l, id, classes)) => {
            let n: u8 = match l {
                HeadingLevel::H1 => 1,
                HeadingLevel::H2 => 2,
                HeadingLevel::H3 => 3,
                HeadingLevel::H4 => 4,
                HeadingLevel::H5 => 5,
                HeadingLevel::H6 => 6,
            };
            Ok(Some(typst::Tag::Heading(n, TableOfContents::Include, Bookmarks::Include)))
        },
        (Stage::Tables, Tag::Table(a)) => Ok(Some(typst::Tag::Table(alignments_of(&a)))),
        (Stage::Tables, Tag::TableHead) => Ok(Some(typst::Tag::TableHead)),
        (Stage::Tables, Tag::TableRow) => Ok(Some(typst::Tag::TableRow)),
        (Stage::Tables, Tag::TableCell) => Ok(Some(typst::Tag::TableCell)),
        (_, t) => Err(t),
    }
}

/// What one event becomes at `stage`; `None` when it is dropped.
pub fn convert_event(stage: Stage, e: ParserEvent) -> (r: Option<ParserEvent>)
    ensures
        opt_pview(r) == converted(stage, e@),
{
    match e {
        ParserEvent::Markdown(Event::Start(t)) => match convert_tag(stage, t) {
            Ok(Some(d)) => Some(ParserEvent::Typst(typst::Event::Start(d))),
            Ok(None) => None,
            Err(u) => Some(ParserEvent::Markdown(Event::Start(u))),
        },
        ParserEvent::Markdown(Event::End(t)) => match convert_tag(stage, t) {
            Ok(Some(d)) => Some(ParserEvent::Typst(typst::Event::End(d))),
            Ok(None) => None,
            Err(u) => Some(ParserEvent::Markdown(Event::End(u))),
        },
        ParserEvent::Markdown(Event::SoftBreak) => if stage == Stage::SoftBreaks {
            Some(ParserEvent::Typst(typst::Event::Text(lit(" "))))
        } else {
            Some(ParserEvent::Markdown(Event::SoftBreak))
        },
        ParserEvent::Markdown(Event::HardBreak) => if stage == Stage::HardBreaks {
            Some(ParserEvent::Typst(typst::Event::Linebreak))
        } else {
            Some(ParserEvent::Markdown(Event::HardBreak))
        },
        ParserEvent::Markdown(Event::Code(x)) => if stage == Stage::Code {
            Some(ParserEvent::Typst(typst::Event::Code(x)))
        } else {
            Some(ParserEvent::Markdown(Event::Code(x)))
        },
        other => Some(other),
    }
}

/// `s` in reverse order.
pub open spec fn rev<T>(s: Seq<T>) -> Seq<T> {
    Seq::new(s.len(), |i: int| s[s.len() - 1 - i])
}

/// Popping the last element of a vector that holds `input[k..]` reversed
/// takes `input[k]` and leaves `input[k + 1..]` reversed.
pub proof fn lemma_pop_next(
    before: Seq<ParserEvent>,
    after: Seq<ParserEvent>,
    e: ParserEvent,
    input: Seq<PEventV>,
    k: int,
)
    requires
        before.len() > 0,
        after == before.drop_last(),
        e == before.last(),
        0 <= k <= input.len(),
        events_view(rev(before)) == input.skip(k),
    ensures
        k < input.len(),
        e@ == input[k],
        events_view(rev(after)) == input.skip(k + 1),
{
    assert(events_view(rev(before)).len() == before.len());
    assert(after.len() == before.len() - 1);
    assert(events_view(rev(before))[0] == input.skip(k)[0]);
    assert(events_view(rev(after)).len() == input.len() - k - 1);
    assert forall|i: int| 0 <= i < input.len() - k - 1 implies events_view(rev(after))[i]
        == input.skip(k + 1)[i] by {
        assert(after[after.len() - 1 - i] == before[before.len() - 1 - (i + 1)]);
        assert(events_view(rev(before))[i + 1] == input.skip(k)[i + 1]);
    }
    assert(events_view(rev(after)) =~= input.skip(k + 1));
}

/// `v` in reverse order.
pub(crate) fn reversed<T>(v: Vec<T>) -> (r: Vec<T>)
    ensures
        r@ == rev(v@),
{
    let ghost orig = v@;
    let mut v = v;
    let mut r: Vec<T> = Vec::new();
    while v.len() > 0
        invariant
            v.len() <= orig.len(),
            v@ == orig.take(v.len() as int),
            r.len() + v.len() == orig.len(),
            forall|i: int| 0 <= i < r.len() ==> r@[i] == orig[orig.len() - 1 - i],
        decreases v.len(),
    {
        let ghost n = v.len();
        let e = v.pop().unwrap();
        assert(e == orig[n - 1]);
        r.push(e);
        assert(v@ =~= orig.take(v.len() as int));
    }
    assert(r@ =~= rev(orig));
    r
}

/// Converts the construct that `stage` names in `events`, passing every
/// other event through.
pub fn convert(stage: Stage, events: Vec<ParserEvent>) -> (r: Vec<ParserEvent>)
    ensures
        events_view(r@) == converted_all(stage, events_view(events@)),
{
    let ghost input = events_view(events@);
    let mut pending = reversed(events);
    let mut out: Vec<ParserEvent> = Vec::new();
    let ghost n = input.len();
    while pending.len() > 0
        invariant
            n == input.len(),
            pending.len() <= n,
            events_view(rev(pending@)) == input.skip(n - pending.len()),
            events_view(out@) == converted_all(stage, input.take(n - pending.len())),
        decreases pending.len(),
    {
        let ghost k = n - pending.len();
        let ghost before = pending@;
        let e = pending.pop().unwrap();
        proof {
            lemma_pop_next(before, pending@, e, input, k as int);
        }
        assert(input.take(k + 1).drop_last() =~= input.take(k));
        let ghost ov = events_view(out@);
        match convert_event(stage, e) {
            Some(x) => {
                out.push(x);
                assert(events_view(out@) =~= ov.push(x@));
            },
            None => {},
        }
        assert(events_view(out@) =~= converted_all(stage, input.take(k + 1)));
    }
    assert(input.take(n as int) =~= input);
    out
}

// ---------------------------------------------------------------------------
// Text.
// ---------------------------------------------------------------------------

/// Text written as `\[...\]`: a math idiom with no destination form.
pub open spec fn is_bracket_math(t: Seq<char>) -> bool {
    starts_with(trimmed(t), seq!['\\', '[']) && ends_with(trimmed(t), seq!['\\', ']'])
}

/// One event through the text converter, which tracks the code-block depth:
/// the code-block depth after it, and what it becomes (`None`: dropped).
pub open spec fn text_step(depth: nat, e: PEventV) -> (nat, Option<PEventV>) {
    match e {
        PEventV::Markdown(MdEventV::Text(t)) => if depth == 0 && is_bracket_math(t) {
            (depth, None)
        } else {
            (depth, Some(PEventV::Typst(EventV::Text(t))))
        },
        PEventV::Markdown(MdEventV::Start(MdTagV::CodeBlock(_))) => (depth + 1, Some(e)),
        PEventV::Markdown(MdEventV::End(MdTagV::CodeBlock(_))) => (
            if depth > 0 {
                (depth - 1) as nat
            } else {
                0
            },
            Some(e),
        ),
        _ => (depth, Some(e)),
    }
}

/// The text converter's next output from depth `depth` and events `rem`:
/// the depth and events left after it, and the event, `None` at the end.
pub open spec fn text_next(depth: nat, rem: Seq<PEventV>) -> (nat, Seq<PEventV>, Option<PEventV>)
    decreases rem.len(),
{
    if rem.len() == 0 {
        (depth, rem, None)
    } else {
        let (d1, o) = text_step(depth, rem[0]);
        match o {
            Some(x) => (d1, rem.skip(1), Some(x)),
            None => text_next(d1, rem.skip(1)),
        }
    }
}

/// All that the text converter yields from depth `depth` and events `rem`.
pub open spec fn text_all(depth: nat, rem: Seq<PEventV>) -> Seq<PEventV>
    decreases rem.len(),
{
    if rem.len() == 0 {
        seq![]
    } else {
        let (d1, o) = text_step(depth, rem[0]);
        match o {
            Some(x) => seq![x] + text_all(d1, rem.skip(1)),
            None => text_all(d1, rem.skip(1)),
        }
    }
}

fn is_bracket_math_exec(t: &String) -> (r: bool)
    ensures
        r == is_bracket_math(t@),
{
    let tt = trim_whitespace(t.as_str());
    let v = crate::text::chars_of(tt.as_str());
    let n = v.len();
    let r = n >= 2 && v[0] == '\\' && v[1] == '[' && v[n - 2] == '\\' && v[n - 1] == ']';
    assert(r == is_bracket_math(t@)) by {
        let s = trimmed(t@);
        if n >= 2 {
            assert(s.take(2)[0] == s[0] && s.take(2)[1] == s[1]);
            assert(s.skip(n - 2)[0] == s[n - 2] && s.skip(n - 2)[1] == s[n - 1]);
            if r {
                assert(s.take(2) =~= seq!['\\', '[']);
                assert(s.skip(n - 2) =~= seq!['\\', ']']);
            }
        }
    }
    r
}

/// Turns source text into destination text, tracking code blocks, and drops
/// text written as `\[...\]` outside them. Escaping is left to the
/// serializer, which knows whether it stands in code.
pub struct ConvertText {
    code: usize,
    /// The events still to come, the next one last.
    iter: Vec<ParserEvent>,
}

impl ConvertText {
    pub closed spec fn depth(&self) -> nat {
        self.code as nat
    }

    /// The events still to come, in order.
    pub closed spec fn remaining(&self) -> Seq<PEventV> {
        events_view(rev(self.iter@))
    }

    pub closed spec fn wf(&self) -> bool {
        self.code + self.iter.len() <= usize::MAX
    }

    pub fn new(iter: Vec<ParserEvent>) -> (r: Self)
        ensures
            r.wf(),
            r.depth() == 0,
            r.remaining() == events_view(iter@),
    {
        let ghost input = iter@;
        let pending = reversed(iter);
        let r = ConvertText { code: 0, iter: pending };
        assert(rev(pending@) =~= input);
        r
    }

    pub fn next(&mut self) -> (r: Option<ParserEvent>)
        requires
            old(self).wf(),
        ensures
            final(self).wf(),
            (final(self).depth(), final(self).remaining(), opt_pview(r)) == text_next(
                old(self).depth(),
                old(self).remaining(),
            ),
        decreases old(self).remaining().len(),
    {
        let ghost rem = self.remaining();
        let ghost before = self.iter@;
        match self.iter.pop() {
            None => {
                assert(rem.len() == 0);
                None
            },
            Some(e) => {
                assert(e@ == rem[0]) by {
                    assert(rev(before)[0] == before[before.len() - 1]);
                }
                assert(self.remaining() =~= rem.skip(1));
                match e {
                    ParserEvent::Markdown(Event::Text(t)) => {
                        if self.code == 0 && is_bracket_math_exec(&t) {
                            self.next()
                        } else {
                            Some(ParserEvent::Typst(typst::Event::Text(t)))
                        }
                    },
                    ParserEvent::Markdown(Event::Start(Tag::CodeBlock(k))) => {
                        self.code = self.code + 1;
                        Some(ParserEvent::Markdown(Event::Start(Tag::CodeBlock(k))))
                    },
                    ParserEvent::Markdown(Event::End(Tag::CodeBlock(k))) => {
                        if self.code > 0 {
                            self.code = self.code - 1;
                        }
                        Some(ParserEvent::Markdown(Event::End(Tag::CodeBlock(k))))
                    },
                    other => Some(other),
                }
            },
        }
    }

    /// All the events that remain, converted.
    pub fn into_events(self) -> (r: Vec<ParserEvent>)
        requires
            self.wf(),
        ensures
            events_view(r@) == text_all(self.depth(), self.remaining()),
    {
        let ghost d0 = self.depth();
        let ghost rem0 = self.remaining();
        let mut this = self;
        let mut out: Vec<ParserEvent> = Vec::new();
        loop
            invariant
                this.wf(),
                d0 == self.depth(),
                rem0 == self.remaining(),
                events_view(out@) + text_all(this.depth(), this.remaining()) == text_all(d0, rem0),
            decreases this.remaining().len(),
        {
            let ghost d = this.depth();
            let ghost rem = this.remaining();
            proof {
                lemma_text_next_all(d, rem);
            }
            let ghost ov = events_view(out@);
            match this.next() {
                Some(x) => {
                    out.push(x);
                    assert(events_view(out@) =~= ov.push(x@));
                    assert(events_view(out@) + text_all(this.depth(), this.remaining()) =~= ov
                        + text_all(d, rem));
                },
                None => {
                    assert(events_view(out@) =~= text_all(d0, rem0));
                    return out;
                },
            }
        }
    }
}

/// One output of the text converter, followed by all the rest, is all of it.
proof fn lemma_text_next_all(d: nat, rem: Seq<PEventV>)
    ensures
        ({
            let (d1, rem1, o) = text_next(d, rem);
            &&& rem1.len() <= rem.len()
            &&& match o {
                Some(x) => rem1.len() < rem.len() && text_all(d, rem) == seq![x] + text_all(d1, rem1),
                None => text_all(d, rem) == Seq::<PEventV>::empty(),
            }
        }),
    decreases rem.len(),
{
    if rem.len() > 0 {
        let (d1, o) = text_step(d, rem[0]);
        if o is None {
            lemma_text_next_all(d1, rem.skip(1));
        }
    }
}

} // verus!
