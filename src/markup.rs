//! The serializer: turns destination events into markup text, fragment by
//! fragment, buffering table rows and cells until they close.
use vstd::prelude::*;
use crate::link::{process_link_url_impl, LabelTable};
use crate::markup_model::{
    add_cell, align_word, all_unset, call_step, cell_markup, close, comma, end_step, event_ok,
    flush, image_name, initial_model, join, link_open, markup_step, open_text, point_part,
    quote_open, raw_call, render, rendered, repeat_char, route, start_model, start_step,
    stream_ok, strip_separator, table_open, value_part, MarkupModel,
};
use crate::text::{
    chars_of, generate_label_id, push_char, push_decimal, replace_all, escape_stars,
    string_from, trim_whitespace, typst_escape,
};
use crate::typst::{
    opt_view, pair_view, strings_view, Event, EventV, QuoteQuotes, QuoteType, ShowType,
    TableCellAlignment, Tag, TagV,
};

verus! {

/// A `String` holding `s`.
pub(crate) fn lit(s: &str) -> (r: String)
    ensures
        r@ == s@,
{
    let mut r = String::new();
    r.append(s);
    assert(r@ =~= s@);
    r
}

/// Appends `n` copies of `c`.
pub(crate) fn push_repeat(s: &mut String, c: char, n: usize)
    ensures
        final(s)@ == old(s)@ + repeat_char(c, n as nat),
{
    let mut i: usize = 0;
    while i < n
        invariant
            i <= n,
            s@ == old(s)@ + repeat_char(c, i as nat),
        decreases n - i,
    {
        push_char(s, c);
        i = i + 1;
        assert(s@ =~= old(s)@ + repeat_char(c, i as nat));
    }
}

/// Appends `parts` separated by `, `.
pub(crate) fn push_joined(s: &mut String, parts: &Vec<String>)
    ensures
        final(s)@ == old(s)@ + join(strings_view(*parts), comma()),
{
    let ghost pv = strings_view(*parts);
    let mut i: usize = 0;
    assert(pv.take(0) =~= Seq::<Seq<char>>::empty());
    assert(s@ =~= old(s)@ + join(pv.take(0), comma()));
    while i < parts.len()
        invariant
            i <= parts.len(),
            pv == strings_view(*parts),
            pv.len() == parts.len(),
            s@ == old(s)@ + join(pv.take(i as int), comma()),
        decreases parts.len() - i,
    {
        assert(pv.take(i + 1).drop_last() =~= pv.take(i as int));
        assert(pv.take(i + 1).last() == parts@[i as int]@);
        if i > 0 {
            push_char(s, ',');
            push_char(s, ' ');
        }
        s.append(parts[i].as_str());
        i = i + 1;
        assert(s@ =~= old(s)@ + join(pv.take(i as int), comma()));
    }
    assert(pv.take(parts.len() as int) =~= pv);
}

/// Whether `s` begins with `c`.
fn starts_with_char(s: &String, c: char) -> (r: bool)
    ensures
        r == crate::text::starts_with(s@, seq![c]),
{
    let v = chars_of(s.as_str());
    let r = v.len() > 0 && v[0] == c;
    assert(r == crate::text::starts_with(s@, seq![c])) by {
        if v.len() > 0 {
            assert(s@.take(1)[0] == s@[0]);
            if v[0] == c {
                assert(s@.take(1) =~= seq![c]);
            }
        }
    }
    r
}

fn align_string(a: TableCellAlignment) -> (r: String)
    ensures
        r@ == align_word(a),
{
    match a {
        TableCellAlignment::Left => lit("left"),
        TableCellAlignment::Center => lit("center"),
        TableCellAlignment::Right => lit("right"),
        TableCellAlignment::Unset => lit("start"),
    }
}

/// The opening of a table with the given column alignments.
pub fn table_markup(alignment: &Vec<TableCellAlignment>) -> (r: String)
    ensures
        r@ == table_open(alignment@),
{
    let mut r = lit("#table(\n  columns: ");
    push_decimal(&mut r, alignment.len());
    let mut words: Vec<String> = Vec::new();
    let mut all = true;
    let mut i: usize = 0;
    while i < alignment.len()
        invariant
            i <= alignment.len(),
            strings_view(words) == alignment@.take(i as int).map_values(
                |x: TableCellAlignment| align_word(x),
            ),
            all == all_unset(alignment@.take(i as int)),
        decreases alignment.len() - i,
    {
        let w = align_string(alignment[i]);
        let ghost wv = w@;
        let ghost old_words = strings_view(words);
        let ghost prev = alignment@.take(i as int);
        let ghost next = alignment@.take(i + 1);
        words.push(w);
        assert(strings_view(words) =~= old_words.push(wv));
        assert(next.map_values(|x: TableCellAlignment| align_word(x)) =~= prev.map_values(
            |x: TableCellAlignment| align_word(x),
        ).push(align_word(alignment@[i as int])));
        assert(next =~= prev.push(alignment@[i as int]));
        if alignment[i] != TableCellAlignment::Unset {
            all = false;
        }
        assert(all == all_unset(next)) by {
            if all_unset(next) {
                assert(next[i as int] == TableCellAlignment::Unset);
                assert forall|k: int| 0 <= k < prev.len() implies prev[k]
                    == TableCellAlignment::Unset by {
                    assert(next[k] == prev[k]);
                }
            }
            if all {
                assert forall|k: int| 0 <= k < next.len() implies next[k]
                    == TableCellAlignment::Unset by {
                    if k < i {
                        assert(next[k] == prev[k]);
                    }
                }
            }
        }
        i = i + 1;
    }
    assert(alignment@.take(alignment.len() as int) =~= alignment@);
    if !all {
        r.append(", align: (");
        push_joined(&mut r, &words);
        r.append(")");
    }
    r.append(",\n");
    r
}

fn quote_markup(k: QuoteType, q: QuoteQuotes, attribution: &Option<String>) -> (r: String)
    ensures
        r@ == quote_open(k, q, opt_view(*attribution)),
{
    let block = match k {
        QuoteType::Block => "block: true,",
        QuoteType::Inline => "block: false,",
    };
    let quotes = match q {
        QuoteQuotes::DoNotWrapInDoubleQuotes => "quotes: false,",
        QuoteQuotes::WrapInDoubleQuotes => "quotes: true,",
        QuoteQuotes::Auto => "quotes: auto,",
    };
    let mut r = lit("#quote(");
    r.append(block);
    r.append(" ");
    r.append(quotes);
    match attribution {
        Some(a) => {
            r.append(" attribution: [");
            r.append(a.as_str());
            r.append("])[");
        },
        None => {
            r.append(")[");
        },
    }
    r
}

/// Inline code as a raw-literal call.
pub fn raw_markup(x: &str) -> (r: String)
    ensures
        r@ == raw_call(x@),
{
    let backslash = vec!['\\'];
    let quote = vec!['"'];
    assert(backslash@ =~= seq!['\\'] && quote@ =~= seq!['"']);
    let a = replace_all(x, &backslash, "\\\\");
    let b = replace_all(a.as_str(), &quote, "\\\"");
    let mut r = lit("#raw(\"");
    r.append(b.as_str());
    r.append("\")");
    r
}

/// A table cell's collected content, escaped, trimmed and in brackets.
pub fn cell_markup_of(c: &str) -> (r: String)
    ensures
        r@ == cell_markup(c@),
{
    let br1 = vec!['<', 'b', 'r', '>'];
    let br2 = vec!['<', 'b', 'r', '/', '>'];
    let br3 = vec!['<', 'b', 'r', ' ', '/', '>'];
    let slashes = vec!['/', '/'];
    assert(br1@ =~= seq!['<', 'b', 'r', '>'] && br2@ =~= seq!['<', 'b', 'r', '/', '>'] && br3@
        =~= seq!['<', 'b', 'r', ' ', '/', '>'] && slashes@ =~= seq!['/', '/']);
    let c1 = replace_all(c, &br1, "\\\n");
    let c2 = replace_all(c1.as_str(), &br2, "\\\n");
    let c3 = replace_all(c2.as_str(), &br3, "\\\n");
    let c4 = replace_all(c3.as_str(), &slashes, "\\/\\/");
    let c5 = escape_stars(c4.as_str());
    let c6 = trim_whitespace(c5.as_str());
    let mut r = String::new();
    push_char(&mut r, '[');
    r.append(c6.as_str());
    push_char(&mut r, ']');
    assert(r@ =~= cell_markup(c@));
    r
}

/// A row's collected cells without a trailing `, `.
fn strip_separator_of(b: String) -> (r: String)
    ensures
        r@ == strip_separator(b@),
{
    let v = chars_of(b.as_str());
    let n = v.len();
    if n >= 2 && v[n - 2] == ',' && v[n - 1] == ' ' {
        assert(b@.skip(n - 2) =~= comma());
        string_from(&v, 0, n - 2)
    } else {
        assert(!crate::text::ends_with(b@, comma())) by {
            if crate::text::ends_with(b@, comma()) {
                assert(b@.skip(n - 2)[0] == b@[n - 2]);
                assert(b@.skip(n - 2)[1] == b@[n - 1]);
            }
        }
        b
    }
}

fn row_markup(b: String) -> (r: String)
    ensures
        r@ == "  "@ + strip_separator(b@) + ",\n"@,
{
    let s = strip_separator_of(b);
    let mut r = lit("  ");
    r.append(s.as_str());
    r.append(",\n");
    r
}

fn line_point(name: &str, p: &Option<(String, String)>, parts: &mut Vec<String>)
    ensures
        strings_view(*final(parts)) == strings_view(*old(parts)) + point_part(name@, pair_view(*p)),
{
    match p {
        Some((a, b)) => {
            let mut s = lit(name);
            s.append(": (");
            s.append(a.as_str());
            s.append(", ");
            s.append(b.as_str());
            s.append(")");
            parts.push(s);
        },
        None => {},
    }
    assert(strings_view(*final(parts)) =~= strings_view(*old(parts)) + point_part(name@, pair_view(*p)));
}

fn line_value(name: &str, v: &Option<String>, parts: &mut Vec<String>)
    ensures
        strings_view(*final(parts)) == strings_view(*old(parts)) + value_part(name@, opt_view(*v)),
{
    match v {
        Some(x) => {
            let mut s = lit(name);
            s.append(": ");
            s.append(x.as_str());
            parts.push(s);
        },
        None => {},
    }
    assert(strings_view(*final(parts)) =~= strings_view(*old(parts)) + value_part(name@, opt_view(*v)));
}

/// Whether a call's function name is `image`.
pub(crate) fn is_image_name(f: &String) -> (r: bool)
    ensures
        r == (f@ == image_name()),
{
    let v = chars_of(f.as_str());
    let r = v.len() == 5 && v[0] == 'i' && v[1] == 'm' && v[2] == 'a' && v[3] == 'g' && v[4]
        == 'e';
    assert(r == (f@ == image_name())) by {
        if r {
            assert(f@ =~= image_name());
        }
        if f@ == image_name() {
            assert(v@[0] == 'i' && v@[1] == 'm' && v@[2] == 'a' && v@[3] == 'g' && v@[4] == 'e');
        }
    }
    r
}

/// Converts destination events to markup text. Each call of [`next`](Self::next)
/// yields one fragment, which may be empty while a table row is collected
/// and may hold several lines.
pub struct TypstMarkup {
    /// The events still to come, the next one last.
    events: Vec<Event>,
    tag_queue: Vec<Tag>,
    code_depth: usize,
    row_buffer: Option<String>,
    cell_buffer: Option<String>,
    paragraph_closed_for_image: bool,
    heading_text_buffer: Option<String>,
    label_map: LabelTable,
}

impl TypstMarkup {
    /// The serializer's state.
    pub closed spec fn model(&self) -> MarkupModel {
        MarkupModel {
            stack: self.tag_queue@.map_values(|t: Tag| t@),
            depth: self.code_depth as nat,
            row: opt_view(self.row_buffer),
            cell: opt_view(self.cell_buffer),
            closed_for_image: self.paragraph_closed_for_image,
            heading: opt_view(self.heading_text_buffer),
            labels: self.label_map.view(),
        }
    }

    /// The events still to come, in order.
    pub closed spec fn remaining(&self) -> Seq<EventV> {
        Seq::new(self.events.len() as nat, |i: int| self.events@[self.events.len() - 1 - i]@)
    }

    pub closed spec fn wf(&self) -> bool {
        self.code_depth + self.events.len() <= usize::MAX
    }

    pub fn new(events: Vec<Event>) -> (r: Self)
        ensures
            r.wf(),
            r.model() == initial_model(),
            r.remaining() == events@.map_values(|e: Event| e@),
    {
        let ghost ev = events@;
        let mut events = events;
        let mut pending: Vec<Event> = Vec::new();
        while events.len() > 0
            invariant
                pending.len() + events.len() == ev.len(),
                events@ == ev.take(events.len() as int),
                forall|i: int|
                    0 <= i < pending.len() ==> pending@[i] == ev[ev.len() - 1 - i],
            decreases events.len(),
        {
            let e = events.pop().unwrap();
            pending.push(e);
        }
        let r = TypstMarkup {
            events: pending,
            tag_queue: Vec::new(),
            code_depth: 0,
            row_buffer: None,
            cell_buffer: None,
            paragraph_closed_for_image: false,
            heading_text_buffer: None,
            label_map: LabelTable::new(),
        };
        assert(r.model().stack =~= Seq::<TagV>::empty());
        assert(r.remaining() =~= ev.map_values(|e: Event| e@));
        r
    }

    /// Sends `out` into the open cell, else into the open row, else returns it.
    fn route_out(&mut self, out: String) -> (r: String)
        ensures
            (final(self).model(), r@) == route(old(self).model(), out@),
            final(self).events == old(self).events,
            final(self).code_depth == old(self).code_depth,
    {
        match self.cell_buffer.take() {
            Some(mut c) => {
                c.append(out.as_str());
                self.cell_buffer = Some(c);
                String::new()
            },
            None => match self.row_buffer.take() {
                Some(mut b) => {
                    b.append(out.as_str());
                    self.row_buffer = Some(b);
                    String::new()
                },
                None => out,
            },
        }
    }

    fn link_markup(&self, url: &String) -> (r: String)
        ensures
            r@ == link_open(url@, self.model().labels),
    {
        let processed = if starts_with_char(url, '<') {
            url.clone()
        } else {
            process_link_url_impl(url.as_str(), Some(&self.label_map))
        };
        if starts_with_char(&processed, '<') {
            let mut r = lit("#link(");
            r.append(processed.as_str());
            r.append(")[");
            r
        } else {
            let mut r = lit("#link(\"");
            r.append(processed.as_str());
            r.append("\")[");
            r
        }
    }

    /// The markup a start tag emits, before buffering.
    fn open_markup(&self, t: &Tag) -> (r: Option<String>)
        requires
            event_ok(self.model(), EventV::Start(t@)),
        ensures
            opt_view(r) == open_text(t@, self.model()),
    {
        match t {
            Tag::Paragraph => Some(lit("#par()[")),
            Tag::Show(ShowType::ShowSet, selector, set, _) => match set {
                Some((ele, k, v)) => {
                    let mut r = lit("#show ");
                    r.append(selector.as_str());
                    r.append(": set ");
                    r.append(ele.as_str());
                    r.append("(");
                    r.append(k.as_str());
                    r.append(":");
                    r.append(v.as_str());
                    r.append(")");
                    Some(r)
                },
                None => Some(String::new()),
            },
            Tag::Show(ShowType::Function, selector, _, func) => match func {
                Some(f) => {
                    let mut r = lit("#show ");
                    r.append(selector.as_str());
                    r.append(":");
                    r.append(f.as_str());
                    Some(r)
                },
                None => Some(String::new()),
            },
            Tag::Heading(n, _, _) => {
                let mut r = String::new();
                push_repeat(&mut r, '=', *n as usize);
                r.append(" ");
                assert(r@ =~= repeat_char('=', *n as nat) + " "@);
                Some(r)
            },
            Tag::CodeBlock(fence, _) => {
                let mut r = String::new();
                push_repeat(&mut r, '`', 6);
                push_repeat(&mut r, '`', self.code_depth);
                assert(r@ =~= repeat_char('`', 6 + self.code_depth as nat));
                match fence {
                    Some(f) => r.append(f.as_str()),
                    None => {},
                }
                r.append("\n");
                Some(r)
            },
            Tag::BulletList(_, _) => None,
            Tag::NumberedList(_, _, _) => None,
            Tag::Item => {
                let n = self.tag_queue.len();
                if matches!(self.tag_queue[n - 1], Tag::BulletList(_, _)) {
                    Some(lit("- "))
                } else {
                    Some(lit("+ "))
                }
            },
            Tag::Emphasis => Some(lit("#emph[")),
            Tag::Strong => Some(lit("#strong[")),
            Tag::Link(_, url) => Some(self.link_markup(url)),
            Tag::Quote(k, q, a) => Some(quote_markup(*k, *q, a)),
            Tag::Table(a) => Some(table_markup(a)),
            Tag::TableRow => Some(String::new()),
            Tag::TableHead => Some(String::new()),
            Tag::TableCell => Some(String::new()),
        }
    }

    fn start(&mut self, t: Tag) -> (r: String)
        requires
            old(self).wf(),
            old(self).code_depth + old(self).events.len() < usize::MAX,
            event_ok(old(self).model(), EventV::Start(t@)),
        ensures
            (final(self).model(), r@) == start_step(t@, old(self).model()),
            final(self).events == old(self).events,
            final(self).code_depth <= old(self).code_depth + 1,
    {
        let ret = self.open_markup(&t);
        let ghost m0 = self.model();
        match &t {
            Tag::Heading(_, _, _) => {
                self.heading_text_buffer = Some(String::new());
            },
            Tag::CodeBlock(_, _) => {
                self.code_depth = self.code_depth + 1;
            },
            Tag::TableRow => {
                self.row_buffer = Some(String::new());
            },
            Tag::TableHead => {
                self.row_buffer = Some(String::new());
            },
            Tag::TableCell => {
                self.cell_buffer = Some(String::new());
            },
            _ => {},
        }
        let ghost tv = t@;
        self.tag_queue.push(t);
        assert(self.model().stack =~= start_model(tv, m0).stack);
        assert(self.model() == start_model(tv, m0));
        match ret {
            None => String::new(),
            Some(o) => self.route_out(o),
        }
    }

    /// The markup an end tag emits before buffering; updates the heading,
    /// label, code-depth and table state.
    fn close_markup(&mut self, t: &Tag) -> (r: String)
        ensures
            (final(self).model(), r@) == close(t@, old(self).model()),
            final(self).events == old(self).events,
            final(self).code_depth <= old(self).code_depth,
    {
        match t {
            Tag::Paragraph => lit("]\n"),
            Tag::Heading(_, _, _) => match self.heading_text_buffer.take() {
                Some(h) => {
                    let label = generate_label_id(h.as_str());
                    let mut out = lit(" <");
                    out.append(label.as_str());
                    out.append(">\n");
                    self.label_map.insert(h, label);
                    out
                },
                None => lit("\n"),
            },
            Tag::Item => lit("\n"),
            Tag::Emphasis => lit("]"),
            Tag::Strong => lit("]"),
            Tag::BulletList(_, _) => String::new(),
            Tag::NumberedList(_, _, _) => String::new(),
            Tag::CodeBlock(_, _) => {
                if self.code_depth > 0 {
                    self.code_depth = self.code_depth - 1;
                }
                let mut r = String::new();
                push_repeat(&mut r, '`', 6);
                push_repeat(&mut r, '`', self.code_depth);
                assert(r@ =~= repeat_char('`', 6 + self.code_depth as nat));
                r.append("\n");
                r
            },
            Tag::Link(_, _) => lit("]"),
            Tag::Show(_, _, _, _) => lit("\n"),
            Tag::Quote(k, _, _) => match k {
                QuoteType::Inline => lit("]"),
                QuoteType::Block => lit("]\n"),
            },
            Tag::Table(_) => lit(")\n"),
            Tag::TableHead => match self.row_buffer.take() {
                Some(b) => row_markup(b),
                None => lit("\n"),
            },
            Tag::TableRow => match self.row_buffer.take() {
                Some(b) => row_markup(b),
                None => lit("\n"),
            },
            Tag::TableCell => {
                let cell = match self.cell_buffer.take() {
                    Some(c) => cell_markup_of(c.as_str()),
                    None => {
                        let mut e = String::new();
                        push_char(&mut e, '[');
                        push_char(&mut e, ']');
                        assert(e@ =~= seq!['[', ']']);
                        e
                    },
                };
                match self.row_buffer.take() {
                    Some(mut row) => {
                        if !row.as_str().is_empty() {
                            push_char(&mut row, ',');
                            push_char(&mut row, ' ');
                        }
                        row.append(cell.as_str());
                        assert(row@ =~= add_cell(old(self).model().row->Some_0, cell@));
                        self.row_buffer = Some(row);
                    },
                    None => {},
                }
                String::new()
            },
        }
    }

    fn end(&mut self, t: Tag) -> (r: String)
        requires
            old(self).wf(),
            event_ok(old(self).model(), EventV::End(t@)),
        ensures
            (final(self).model(), r@) == end_step(t@, old(self).model()),
            final(self).events == old(self).events,
            final(self).code_depth <= old(self).code_depth,
    {
        if matches!(t, Tag::Paragraph) && self.paragraph_closed_for_image {
            self.paragraph_closed_for_image = false;
            return String::new();
        }
        let out = self.close_markup(&t);
        let ghost m1 = self.model();
        self.tag_queue.pop();
        assert(self.model().stack =~= m1.stack.drop_last());
        assert(self.model() == MarkupModel { stack: m1.stack.drop_last(), ..m1 });
        match self.cell_buffer.take() {
            Some(mut c) => {
                c.append(out.as_str());
                self.cell_buffer = Some(c);
                String::new()
            },
            None => {
                let row_tag = matches!(t, Tag::TableRow | Tag::TableHead | Tag::TableCell);
                if !row_tag {
                    match self.row_buffer.take() {
                        Some(mut b) => {
                            b.append(out.as_str());
                            self.row_buffer = Some(b);
                            String::new()
                        },
                        None => out,
                    }
                } else {
                    out
                }
            },
        }
    }

    fn text(&mut self, x: String) -> (r: String)
        ensures
            (final(self).model(), r@) == markup_step(old(self).model(), EventV::Text(x@)),
            final(self).events == old(self).events,
            final(self).code_depth == old(self).code_depth,
    {
        match self.heading_text_buffer.take() {
            Some(mut h) => {
                h.append(x.as_str());
                self.heading_text_buffer = Some(h);
            },
            None => {},
        }
        let content = if self.code_depth == 0 {
            typst_escape(x.as_str())
        } else {
            x
        };
        self.route_out(content)
    }

    fn call(&mut self, v: Option<String>, f: String, args: Vec<String>) -> (r: String)
        ensures
            (final(self).model(), r@) == call_step(
                old(self).model(),
                opt_view(v),
                f@,
                strings_view(args),
            ),
            final(self).events == old(self).events,
            final(self).code_depth == old(self).code_depth,
    {
        let mut result = String::new();
        let n = self.tag_queue.len();
        if is_image_name(&f) && n > 0 && matches!(self.tag_queue[n - 1], Tag::Paragraph) {
            result.append("]\n");
            let ghost m0 = self.model();
            self.tag_queue.pop();
            self.paragraph_closed_for_image = true;
            assert(self.model().stack =~= m0.stack.drop_last());
            assert(self.model() == MarkupModel {
                stack: m0.stack.drop_last(),
                closed_for_image: true,
                ..m0
            });
        }
        push_char(&mut result, '#');
        match v {
            Some(recv) => {
                result.append(recv.as_str());
                push_char(&mut result, '.');
            },
            None => {},
        }
        result.append(f.as_str());
        push_char(&mut result, '(');
        push_joined(&mut result, &args);
        result.append(")\n");
        proof {
            reveal_strlit("#");
            reveal_strlit(".");
            reveal_strlit("(");
        }
        assert(result@ =~= call_step(old(self).model(), opt_view(v), f@, strings_view(args)).1);
        result
    }

    fn leaf(&mut self, e: Event) -> (r: String)
        requires
            !(e is Start || e is End || e is Text || e is FunctionCall),
        ensures
            (final(self).model(), r@) == markup_step(old(self).model(), e@),
            final(self).events == old(self).events,
            final(self).code_depth == old(self).code_depth,
    {
        match e {
            Event::Raw(x) => self.route_out(x),
            Event::Code(x) => {
                let content = raw_markup(x.as_str());
                self.route_out(content)
            },
            Event::Linebreak => lit("#linebreak()\n"),
            Event::Parbreak => lit("#parbreak()\n"),
            Event::PageBreak => lit("#pagebreak()\n"),
            Event::Line(start, end, length, angle, stroke) => {
                let mut parts: Vec<String> = Vec::new();
                assert(strings_view(parts) =~= Seq::<Seq<char>>::empty());
                line_point("start", &start, &mut parts);
                line_point("end", &end, &mut parts);
                line_value("length", &length, &mut parts);
                line_value("angle", &angle, &mut parts);
                line_value("stroke", &stroke, &mut parts);
                let mut r = lit("#line(");
                push_joined(&mut r, &parts);
                r.append(")\n");
                assert(strings_view(parts) =~= point_part("start"@, pair_view(start)) + point_part(
                    "end"@,
                    pair_view(end),
                ) + value_part("length"@, opt_view(length)) + value_part("angle"@, opt_view(angle))
                    + value_part("stroke"@, opt_view(stroke)));
                r
            },
            Event::Let(lhs, rhs) => {
                let mut r = lit("#let ");
                r.append(lhs.as_str());
                r.append(" = ");
                r.append(rhs.as_str());
                r.append("\n");
                r
            },
            Event::DocumentFunctionCall(args) => {
                let mut r = lit("#document(");
                push_joined(&mut r, &args);
                r.append(")\n");
                r
            },
            Event::SetRule(ele, k, v) => {
                let mut r = lit("#set ");
                r.append(ele.as_str());
                r.append("(");
                r.append(k.as_str());
                r.append(": ");
                r.append(v.as_str());
                r.append(")\n");
                r
            },
            Event::DocumentSet(k, v) => {
                let mut r = lit("#set document(");
                r.append(k.as_str());
                r.append(": ");
                r.append(v.as_str());
                r.append(")\n");
                r
            },
            _ => String::new(),
        }
    }

    /// The next fragment: the markup of the next event, or once the events
    /// are exhausted, a table row left open, then `None`.
    pub fn next(&mut self) -> (r: Option<String>)
        requires
            old(self).wf(),
            old(self).remaining().len() > 0 ==> event_ok(
                old(self).model(),
                old(self).remaining()[0],
            ),
        ensures
            final(self).wf(),
            old(self).remaining().len() > 0 ==> opt_view(r) == Some(
                markup_step(old(self).model(), old(self).remaining()[0]).1,
            ) && final(self).model() == markup_step(
                old(self).model(),
                old(self).remaining()[0],
            ).0 && final(self).remaining() == old(self).remaining().skip(1),
            old(self).remaining().len() == 0 ==> (final(self).model(), opt_view(r)) == flush(
                old(self).model(),
            ) && final(self).remaining().len() == 0,
    {
        let ghost rem = self.remaining();
        match self.events.pop() {
            None => match self.row_buffer.take() {
                Some(b) => Some(strip_separator_of(b)),
                None => None,
            },
            Some(e) => {
                assert(e@ == rem[0]);
                assert(self.remaining() =~= rem.skip(1));
                let out = match e {
                    Event::Start(t) => self.start(t),
                    Event::End(t) => self.end(t),
                    Event::Text(x) => self.text(x),
                    Event::FunctionCall(v, f, args) => self.call(v, f, args),
                    other => self.leaf(other),
                };
                Some(out)
            },
        }
    }

    /// All remaining fragments, concatenated.
    pub fn into_string(self) -> (r: String)
        requires
            self.wf(),
            stream_ok(self.model(), self.remaining()),
        ensures
            r@ == rendered(self.model(), self.remaining()),
    {
        let ghost m0 = self.model();
        let ghost rem0 = self.remaining();
        let mut this = self;
        let mut out = String::new();
        loop
            invariant
                this.wf(),
                m0 == self.model(),
                rem0 == self.remaining(),
                stream_ok(this.model(), this.remaining()),
                out@ + rendered(this.model(), this.remaining()) == rendered(m0, rem0),
            decreases 2 * this.remaining().len() + if this.model().row is Some {
                1int
            } else {
                0int
            },
        {
            let ghost m = this.model();
            let ghost rem = this.remaining();
            match this.next() {
                Some(s) => {
                    out.append(s.as_str());
                    proof {
                        if rem.len() == 0 {
                            assert(this.remaining().len() == 0 && this.model().row is None);
                            assert(rendered(this.model(), this.remaining()) =~= Seq::<
                                char,
                            >::empty());
                        }
                    }
                    assert(out@ + rendered(this.model(), this.remaining()) =~= rendered(m0, rem0));
                },
                None => {
                    assert(rendered(m, rem) =~= Seq::<char>::empty());
                    assert(out@ =~= rendered(m0, rem0));
                    return out;
                },
            }
        }
    }
}

/// Renders `iter` as markup and pushes it onto `s`.
pub fn push_markup(s: &mut String, iter: Vec<Event>)
    requires
        stream_ok(initial_model(), iter@.map_values(|e: Event| e@)),
    ensures
        final(s)@ == old(s)@ + render(iter@.map_values(|e: Event| e@)),
{
    let text = TypstMarkup::new(iter).into_string();
    s.append(text.as_str());
}

/// Renders `iter` as markup, appending it to `w` fragment by fragment.
pub fn write_markup(w: &mut String, iter: Vec<Event>)
    requires
        stream_ok(initial_model(), iter@.map_values(|e: Event| e@)),
    ensures
        final(w)@ == old(w)@ + render(iter@.map_values(|e: Event| e@)),
{
    let rendered_text = TypstMarkup::new(iter).into_string();
    w.append(rendered_text.as_str());
}

} // verus!
