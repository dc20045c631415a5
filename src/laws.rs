//! Properties that relate the library's functions, proved over their
//! specifications.
use vstd::prelude::*;
use crate::link::{angled, link_target};
use crate::markup_model::{
    add_cell, align_word, all_unset, cell_markup, comma, image_name, initial_model,
    strip_separator, join, markup_step, opt_or_empty, render,
    rendered, repeat_char, stream_ok, table_open, MarkupModel,
};
use crate::text::{decimal, escaped, escape_char, label_id, replaced, stars_escaped, starts_with};
use crate::typst::{EventV, QuoteQuotes, QuoteType, TableCellAlignment, TagV};

verus! {

/// Text in a code block is emitted as it is; text outside one is escaped.
/// (Outside table rows, where it is collected instead of emitted.)
pub proof fn lemma_text_escaped_outside_code(m: MarkupModel, x: Seq<char>)
    requires
        m.row is None,
        m.cell is None,
    ensures
        m.depth > 0 ==> markup_step(m, EventV::Text(x)).1 == x,
        m.depth == 0 ==> markup_step(m, EventV::Text(x)).1 == escaped(x),
{
}

/// Every `*` of `s` has a backslash just before it.
pub open spec fn stars_guarded(s: Seq<char>) -> bool {
    forall|i: int| 0 <= i < s.len() && #[trigger] s[i] == '*' ==> i > 0 && s[i - 1] == '\\'
}

proof fn lemma_guarded_stars_kept(s: Seq<char>)
    requires
        stars_guarded(s),
    ensures
        stars_escaped(s) == s,
    decreases s.len(),
{
    if s.len() > 0 {
        let p = s.drop_last();
        assert(stars_guarded(p)) by {
            assert forall|i: int| 0 <= i < p.len() && #[trigger] p[i] == '*' implies i > 0 && p[i - 1]
                == '\\' by {
                assert(s[i] == p[i]);
                assert(s[i - 1] == p[i - 1]);
            }
        }
        lemma_guarded_stars_kept(p);
        assert(s =~= p.push(s.last()));
    }
}

proof fn lemma_escaped_guarded(x: Seq<char>)
    ensures
        stars_guarded(escaped(x)),
    decreases x.len(),
{
    if x.len() > 0 {
        let p = x.drop_last();
        lemma_escaped_guarded(p);
        let a = escaped(p);
        let b = escape_char(x.last());
        let s = a + b;
        assert(s == escaped(x));
        assert forall|i: int| 0 <= i < s.len() && #[trigger] s[i] == '*' implies i > 0 && s[i - 1]
            == '\\' by {
            if i >= a.len() {
                let j = i - a.len();
                assert(b[j] == '*');
                assert(j == 1 && b[0] == '\\');
            } else {
                assert(a[i] == '*');
            }
        }
    }
}

/// Prose escaped once is not escaped again when a table cell escapes its
/// stars: escaping leaves no bare `*`.
pub proof fn lemma_escaped_stars_not_doubled(x: Seq<char>)
    ensures
        stars_escaped(escaped(x)) == escaped(x),
{
    lemma_escaped_guarded(x);
    lemma_guarded_stars_kept(escaped(x));
}

/// A link to `#text` resolves to the label that a heading with `text` gets,
/// whether the heading was read before the link (its label recorded) or not.
pub proof fn lemma_heading_label_round_trip(labels: Map<Seq<char>, Seq<char>>, text: Seq<char>)
    requires
        !labels.contains_key(text),
        !labels.contains_key(label_id(text)),
    ensures
        link_target(seq!['#'] + text, Some(labels)) == angled(label_id(text)),
        link_target(seq!['#'] + text, Some(labels.insert(text, label_id(text)))) == angled(
            label_id(text),
        ),
{
    let u = seq!['#'] + text;
    assert(u.take(1) =~= seq!['#']);
    assert(starts_with(u, seq!['#']));
    assert(u.skip(1) =~= text);
}

/// Column alignments map to `left`, `center`, `right`, and an unset column
/// to `start`; the `align:` argument is left out when no column is set.
pub proof fn lemma_alignment_mapping(a: Seq<TableCellAlignment>)
    ensures
        align_word(TableCellAlignment::Left) == "left"@,
        align_word(TableCellAlignment::Center) == "center"@,
        align_word(TableCellAlignment::Right) == "right"@,
        align_word(TableCellAlignment::Unset) == "start"@,
        all_unset(a) ==> table_open(a) == "#table(\n  columns: "@ + decimal(a.len()) + ",\n"@,
        !all_unset(a) ==> table_open(a) == "#table(\n  columns: "@ + decimal(a.len())
            + ", align: ("@ + join(a.map_values(|x: TableCellAlignment| align_word(x)), comma())
            + ")"@ + ",\n"@,
{
    assert(("#table(\n  columns: "@ + decimal(a.len())) + Seq::<char>::empty() =~= "#table(\n  columns: "@
        + decimal(a.len()));
}

// ---------------------------------------------------------------------------
// Balanced brackets.
// ---------------------------------------------------------------------------

/// Opening brackets minus closing brackets in `s`.
pub open spec fn bracket_balance(s: Seq<char>) -> int
    decreases s.len(),
{
    if s.len() == 0 {
        0
    } else {
        bracket_balance(s.drop_last()) + if s.last() == '[' {
            1int
        } else if s.last() == ']' {
            -1int
        } else {
            0int
        }
    }
}

pub open spec fn no_brackets(s: Seq<char>) -> bool {
    forall|i: int| 0 <= i < s.len() ==> #[trigger] s[i] != '[' && s[i] != ']'
}

proof fn lemma_balance_add(a: Seq<char>, b: Seq<char>)
    ensures
        bracket_balance(a + b) == bracket_balance(a) + bracket_balance(b),
    decreases b.len(),
{
    if b.len() > 0 {
        lemma_balance_add(a, b.drop_last());
        assert((a + b).drop_last() =~= a + b.drop_last());
    } else {
        assert(a + b =~= a);
    }
}

proof fn lemma_no_brackets_balance(s: Seq<char>)
    requires
        no_brackets(s),
    ensures
        bracket_balance(s) == 0,
    decreases s.len(),
{
    if s.len() > 0 {
        assert(s.last() == s[s.len() - 1]);
        assert(no_brackets(s.drop_last())) by {
            assert forall|i: int| 0 <= i < s.drop_last().len() implies #[trigger] s.drop_last()[i]
                != '[' && s.drop_last()[i] != ']' by {
                assert(s.drop_last()[i] == s[i]);
            }
        }
        lemma_no_brackets_balance(s.drop_last());
    }
}

proof fn lemma_escaped_no_brackets(x: Seq<char>)
    requires
        no_brackets(x),
    ensures
        no_brackets(escaped(x)),
    decreases x.len(),
{
    if x.len() > 0 {
        let p = x.drop_last();
        assert(no_brackets(p)) by {
            assert forall|i: int| 0 <= i < p.len() implies #[trigger] p[i] != '[' && p[i] != ']' by {
                assert(p[i] == x[i]);
            }
        }
        lemma_escaped_no_brackets(p);
        let a = escaped(p);
        let b = escape_char(x.last());
        assert(x.last() == x[x.len() - 1]);
        assert forall|i: int| 0 <= i < (a + b).len() implies #[trigger] (a + b)[i] != '[' && (a
            + b)[i] != ']' by {
            if i >= a.len() {
                assert((a + b)[i] == b[i - a.len()]);
            } else {
                assert((a + b)[i] == a[i]);
            }
        }
    }
}

proof fn lemma_literal_balances()
    ensures
        bracket_balance("#par()["@) == 1,
        bracket_balance("#emph["@) == 1,
        bracket_balance("#strong["@) == 1,
        bracket_balance("]\n"@) == -1,
        bracket_balance("]"@) == -1,
{
    reveal_strlit("#par()[");
    reveal_strlit("#emph[");
    reveal_strlit("#strong[");
    reveal_strlit("]\n");
    reveal_strlit("]");
    let par = "#par()["@;
    assert(no_brackets(par.drop_last())) by {
        assert forall|i: int| 0 <= i < par.drop_last().len() implies #[trigger] par.drop_last()[i]
            != '[' && par.drop_last()[i] != ']' by {
            assert(par.drop_last()[i] == par[i]);
        }
    }
    lemma_no_brackets_balance(par.drop_last());
    let emph = "#emph["@;
    assert(no_brackets(emph.drop_last())) by {
        assert forall|i: int| 0 <= i < emph.drop_last().len() implies #[trigger] emph.drop_last()[i]
            != '[' && emph.drop_last()[i] != ']' by {
            assert(emph.drop_last()[i] == emph[i]);
        }
    }
    lemma_no_brackets_balance(emph.drop_last());
    let strong = "#strong["@;
    assert(no_brackets(strong.drop_last())) by {
        assert forall|i: int| 0 <= i < strong.drop_last().len() implies #[trigger] strong.drop_last()[
            i] != '[' && strong.drop_last()[i] != ']' by {
            assert(strong.drop_last()[i] == strong[i]);
        }
    }
    lemma_no_brackets_balance(strong.drop_last());
    let close_par = "]\n"@;
    let one = seq![']'];
    assert(one.drop_last() =~= Seq::<char>::empty());
    assert(bracket_balance(Seq::<char>::empty()) == 0);
    assert(bracket_balance(one) == -1);
    assert(close_par.drop_last() =~= one);
    assert(close_par.last() == '\n');
    assert(bracket_balance(close_par) == bracket_balance(one));
    assert("]"@ =~= one);
}

proof fn lemma_zero_literals()
    ensures
        bracket_balance("- "@) == 0,
        bracket_balance("+ "@) == 0,
        bracket_balance("\n"@) == 0,
        bracket_balance("#linebreak()\n"@) == 0,
        bracket_balance("#parbreak()\n"@) == 0,
        bracket_balance("#pagebreak()\n"@) == 0,
        bracket_balance("#quote("@) == 0,
        bracket_balance("block: true,"@) == 0,
        bracket_balance("block: false,"@) == 0,
        bracket_balance(" "@) == 0,
        bracket_balance("quotes: false,"@) == 0,
        bracket_balance("quotes: true,"@) == 0,
        bracket_balance("quotes: auto,"@) == 0,
{
    reveal_strlit("- ");
    reveal_strlit("+ ");
    reveal_strlit("\n");
    reveal_strlit("#linebreak()\n");
    reveal_strlit("#parbreak()\n");
    reveal_strlit("#pagebreak()\n");
    reveal_strlit("#quote(");
    reveal_strlit("block: true,");
    reveal_strlit("block: false,");
    reveal_strlit(" ");
    reveal_strlit("quotes: false,");
    reveal_strlit("quotes: true,");
    reveal_strlit("quotes: auto,");
    lemma_no_brackets_balance("- "@);
    lemma_no_brackets_balance("+ "@);
    lemma_no_brackets_balance("\n"@);
    lemma_no_brackets_balance("#linebreak()\n"@);
    lemma_no_brackets_balance("#parbreak()\n"@);
    lemma_no_brackets_balance("#pagebreak()\n"@);
    lemma_no_brackets_balance("#quote("@);
    lemma_no_brackets_balance("block: true,"@);
    lemma_no_brackets_balance("block: false,"@);
    lemma_no_brackets_balance(" "@);
    lemma_no_brackets_balance("quotes: false,"@);
    lemma_no_brackets_balance("quotes: true,"@);
    lemma_no_brackets_balance("quotes: auto,"@);
}

proof fn lemma_quote_literals()
    ensures
        bracket_balance(" attribution: ["@) == 1,
        bracket_balance("])["@) == 0,
        bracket_balance(")["@) == 1,
{
    reveal_strlit(" attribution: [");
    reveal_strlit("])[");
    reveal_strlit(")[");
    let a = " attribution: ["@;
    assert(no_brackets(a.drop_last())) by {
        assert forall|i: int| 0 <= i < a.drop_last().len() implies #[trigger] a.drop_last()[i]
            != '[' && a.drop_last()[i] != ']' by {
            assert(a.drop_last()[i] == a[i]);
        }
    }
    lemma_no_brackets_balance(a.drop_last());
    let c = ")["@;
    assert(c.drop_last() =~= seq![')']);
    lemma_no_brackets_balance(seq![')']);
    let b = "])["@;
    assert(b.drop_last() =~= seq![']', ')']);
    assert(seq![']', ')'].drop_last() =~= seq![']']);
    assert(seq![']'].drop_last() =~= Seq::<char>::empty());
    assert(bracket_balance(Seq::<char>::empty()) == 0);
    assert(bracket_balance(seq![']']) == -1);
    assert(bracket_balance(seq![']', ')']) == -1);
}

/// What a tag's markup adds to the bracket balance when it opens.
pub open spec fn bracket_weight(t: TagV) -> int {
    if t is Paragraph || t is Emphasis || t is Strong || t is Quote {
        1
    } else {
        0
    }
}

/// Tags whose markup holds no brackets but the pair it opens and closes.
pub open spec fn plain_tag(t: TagV) -> bool {
    match t {
        TagV::Paragraph => true,
        TagV::Emphasis => true,
        TagV::Strong => true,
        TagV::Quote(_, _, a) => match a {
            Some(x) => no_brackets(x),
            None => true,
        },
        TagV::BulletList(_, _) => true,
        TagV::NumberedList(_, _, _) => true,
        TagV::Item => true,
        TagV::CodeBlock(f, _) => match f {
            Some(x) => no_brackets(x),
            None => true,
        },
        _ => false,
    }
}

/// Events of prose: paragraphs, emphasis, strong text, quotes, lists, code
/// blocks, inline code, calls (but image calls) and document calls, and line,
/// paragraph and page breaks, with no bracket in their text, code, names,
/// arguments, attribution or language token.
pub open spec fn prose_event(e: EventV) -> bool {
    match e {
        EventV::Start(t) => plain_tag(t),
        EventV::End(t) => plain_tag(t),
        EventV::Text(x) => no_brackets(x),
        EventV::Code(x) => no_brackets(x),
        EventV::FunctionCall(v, f, args) => f != image_name() && no_brackets(f) && match v {
            Some(r) => no_brackets(r),
            None => true,
        } && all_without_brackets(args),
        EventV::DocumentFunctionCall(args) => all_without_brackets(args),
        EventV::Linebreak => true,
        EventV::Parbreak => true,
        EventV::PageBreak => true,
        _ => false,
    }
}

pub open spec fn all_without_brackets(parts: Seq<Seq<char>>) -> bool {
    forall|i: int| 0 <= i < parts.len() ==> no_brackets(#[trigger] parts[i])
}

proof fn lemma_concat_no_brackets(a: Seq<char>, b: Seq<char>)
    requires
        no_brackets(a),
        no_brackets(b),
    ensures
        no_brackets(a + b),
{
    assert forall|i: int| 0 <= i < (a + b).len() implies #[trigger] (a + b)[i] != '[' && (a + b)[i]
        != ']' by {
        if i < a.len() {
            assert((a + b)[i] == a[i]);
        } else {
            assert((a + b)[i] == b[i - a.len()]);
        }
    }
}

proof fn lemma_replaced_no_brackets(s: Seq<char>, pat: Seq<char>, rep: Seq<char>)
    requires
        no_brackets(s),
        no_brackets(rep),
    ensures
        no_brackets(replaced(s, pat, rep)),
    decreases s.len(),
{
    if s.len() > 0 {
        let k = if pat.len() > 0 && starts_with(s, pat) {
            pat.len() as int
        } else {
            1
        };
        assert(no_brackets(s.skip(k))) by {
            assert forall|i: int| 0 <= i < s.skip(k).len() implies #[trigger] s.skip(k)[i] != '['
                && s.skip(k)[i] != ']' by {
                assert(s.skip(k)[i] == s[i + k]);
            }
        }
        lemma_replaced_no_brackets(s.skip(k), pat, rep);
        assert(s[0] != '[' && s[0] != ']');
        if k == 1 && !(pat.len() > 0 && starts_with(s, pat)) {
            lemma_concat_no_brackets(seq![s[0]], replaced(s.skip(1), pat, rep));
        } else {
            lemma_concat_no_brackets(rep, replaced(s.skip(k), pat, rep));
        }
    }
}

proof fn lemma_join_no_brackets(parts: Seq<Seq<char>>, sep: Seq<char>)
    requires
        all_without_brackets(parts),
        no_brackets(sep),
    ensures
        no_brackets(join(parts, sep)),
    decreases parts.len(),
{
    if parts.len() > 1 {
        let p = parts.drop_last();
        assert(all_without_brackets(p)) by {
            assert forall|i: int| 0 <= i < p.len() implies no_brackets(#[trigger] p[i]) by {
                assert(p[i] == parts[i]);
            }
        }
        lemma_join_no_brackets(p, sep);
        assert(no_brackets(parts[parts.len() - 1]));
        lemma_concat_no_brackets(join(p, sep), sep);
        lemma_concat_no_brackets(join(p, sep) + sep, parts.last());
    } else if parts.len() == 1 {
        assert(no_brackets(parts[0]));
    }
}

proof fn lemma_call_literals()
    ensures
        no_brackets("#raw(\""@),
        no_brackets("\")"@),
        no_brackets("\\\\"@),
        no_brackets("\\\""@),
        no_brackets("#"@),
        no_brackets("."@),
        no_brackets("("@),
        no_brackets(")\n"@),
        no_brackets("#document("@),
        no_brackets(comma()),
{
    reveal_strlit("#raw(\"");
    reveal_strlit("\")");
    reveal_strlit("\\\\");
    reveal_strlit("\\\"");
    reveal_strlit("#");
    reveal_strlit(".");
    reveal_strlit("(");
    reveal_strlit(")\n");
    reveal_strlit("#document(");
}

pub open spec fn bracket_count(stack: Seq<TagV>) -> int
    decreases stack.len(),
{
    if stack.len() == 0 {
        0
    } else {
        bracket_count(stack.drop_last()) + bracket_weight(stack.last())
    }
}

/// The open tags once `evs` is read from state `m`.
pub open spec fn final_stack(m: MarkupModel, evs: Seq<EventV>) -> Seq<TagV>
    decreases evs.len(),
{
    if evs.len() == 0 {
        m.stack
    } else {
        final_stack(markup_step(m, evs[0]).0, evs.skip(1))
    }
}

/// Start tags minus end tags in `evs`.
pub open spec fn tag_depth(evs: Seq<EventV>) -> int
    decreases evs.len(),
{
    if evs.len() == 0 {
        0
    } else {
        (match evs[0] {
            EventV::Start(_) => 1int,
            EventV::End(_) => -1int,
            _ => 0int,
        }) + tag_depth(evs.skip(1))
    }
}

proof fn lemma_repeat_no_brackets(c: char, n: nat)
    requires
        c != '[' && c != ']',
    ensures
        no_brackets(repeat_char(c, n)),
{
}

proof fn lemma_prose_balance(m: MarkupModel, evs: Seq<EventV>)
    requires
        m.row is None,
        m.cell is None,
        !m.closed_for_image,
        stream_ok(m, evs),
        forall|i: int| 0 <= i < evs.len() ==> prose_event(#[trigger] evs[i]),
    ensures
        bracket_balance(rendered(m, evs)) + bracket_count(m.stack) == bracket_count(
            final_stack(m, evs),
        ),
        final_stack(m, evs).len() == m.stack.len() + tag_depth(evs),
    decreases evs.len(),
{
    if evs.len() == 0 {
        assert(rendered(m, evs) =~= Seq::<char>::empty());
    } else {
        let e = evs[0];
        assert(prose_event(e));
        let (m1, out) = markup_step(m, e);
        assert forall|i: int| 0 <= i < evs.skip(1).len() implies prose_event(
            #[trigger] evs.skip(1)[i],
        ) by {
            assert(evs.skip(1)[i] == evs[i + 1]);
        }
        lemma_prose_balance(m1, evs.skip(1));
        lemma_balance_add(out, rendered(m1, evs.skip(1)));
        lemma_literal_balances();
        lemma_zero_literals();
        lemma_quote_literals();
        match e {
            EventV::Text(x) => {
                lemma_escaped_no_brackets(x);
                lemma_no_brackets_balance(escaped(x));
                lemma_no_brackets_balance(x);
            },
            EventV::Code(x) => {
                lemma_call_literals();
                lemma_replaced_no_brackets(x, seq!['\\'], "\\\\"@);
                let y = replaced(x, seq!['\\'], "\\\\"@);
                lemma_replaced_no_brackets(y, seq!['"'], "\\\""@);
                let z = replaced(y, seq!['"'], "\\\""@);
                lemma_concat_no_brackets("#raw(\""@, z);
                lemma_concat_no_brackets("#raw(\""@ + z, "\")"@);
                lemma_no_brackets_balance("#raw(\""@ + z + "\")"@);
            },
            EventV::FunctionCall(v, f, args) => {
                lemma_call_literals();
                lemma_join_no_brackets(args, comma());
                let j = join(args, comma());
                let head = match v {
                    Some(r) => {
                        lemma_concat_no_brackets("#"@, r);
                        lemma_concat_no_brackets("#"@ + r, "."@);
                        lemma_concat_no_brackets("#"@ + r + "."@, f);
                        "#"@ + r + "."@ + f
                    },
                    None => {
                        lemma_concat_no_brackets("#"@, f);
                        "#"@ + f
                    },
                };
                lemma_concat_no_brackets(head, "("@);
                lemma_concat_no_brackets(head + "("@, j);
                lemma_concat_no_brackets(head + "("@ + j, ")\n"@);
                lemma_no_brackets_balance(head + "("@ + j + ")\n"@);
                assert(out =~= Seq::<char>::empty() + (head + "("@ + j + ")\n"@));
                lemma_no_brackets_balance(Seq::<char>::empty());
                lemma_balance_add(Seq::<char>::empty(), head + "("@ + j + ")\n"@);
            },
            EventV::DocumentFunctionCall(args) => {
                lemma_call_literals();
                lemma_join_no_brackets(args, comma());
                let j = join(args, comma());
                lemma_concat_no_brackets("#document("@, j);
                lemma_concat_no_brackets("#document("@ + j, ")\n"@);
                lemma_no_brackets_balance("#document("@ + j + ")\n"@);
            },
            EventV::Start(t) => {
                assert(m1.stack.drop_last() =~= m.stack);
                match t {
                    TagV::CodeBlock(f, _) => {
                        let r = repeat_char('`', 6 + m.depth);
                        lemma_repeat_no_brackets('`', 6 + m.depth);
                        lemma_no_brackets_balance(r);
                        lemma_balance_add(r, opt_or_empty(f));
                        lemma_balance_add(r + opt_or_empty(f), "\n"@);
                        if f is Some {
                            lemma_no_brackets_balance(f->Some_0);
                        } else {
                            assert(opt_or_empty(f) =~= Seq::<char>::empty());
                        }
                    },
                    TagV::Quote(k, q, a) => {
                        let block = match k {
                            QuoteType::Block => "block: true,"@,
                            QuoteType::Inline => "block: false,"@,
                        };
                        let quotes = match q {
                            QuoteQuotes::DoNotWrapInDoubleQuotes => "quotes: false,"@,
                            QuoteQuotes::WrapInDoubleQuotes => "quotes: true,"@,
                            QuoteQuotes::Auto => "quotes: auto,"@,
                        };
                        let head = "#quote("@ + block + " "@ + quotes;
                        lemma_balance_add("#quote("@, block);
                        lemma_balance_add("#quote("@ + block, " "@);
                        lemma_balance_add("#quote("@ + block + " "@, quotes);
                        match a {
                            Some(x) => {
                                lemma_no_brackets_balance(x);
                                lemma_balance_add(head, " attribution: ["@);
                                lemma_balance_add(head + " attribution: ["@, x);
                                lemma_balance_add(head + " attribution: ["@ + x, "])["@);
                            },
                            None => {
                                lemma_balance_add(head, ")["@);
                            },
                        }
                    },
                    _ => {},
                }
            },
            EventV::End(t) => {
                assert(m.stack.drop_last().push(m.stack.last()) =~= m.stack);
                match t {
                    TagV::CodeBlock(_, _) => {
                        let d: nat = if m.depth > 0 {
                            (m.depth - 1) as nat
                        } else {
                            0
                        };
                        let r = repeat_char('`', 6 + d);
                        lemma_repeat_no_brackets('`', 6 + d);
                        lemma_no_brackets_balance(r);
                        lemma_balance_add(r, "\n"@);
                    },
                    _ => {},
                }
            },
            _ => {},
        }
    }
}

/// Serializing a well-nested stream of prose events (every tag opened is
/// closed, each end closing the innermost open tag) yields as many opening as
/// closing brackets, when no text, code, name, argument, attribution or
/// language token holds one.
pub proof fn lemma_nesting_balanced(evs: Seq<EventV>)
    requires
        stream_ok(initial_model(), evs),
        forall|i: int| 0 <= i < evs.len() ==> prose_event(#[trigger] evs[i]),
        tag_depth(evs) == 0,
    ensures
        bracket_balance(render(evs)) == 0,
{
    lemma_prose_balance(initial_model(), evs);
    assert(final_stack(initial_model(), evs).len() == 0);
}

// ---------------------------------------------------------------------------
// Balanced parentheses.
// ---------------------------------------------------------------------------

/// Opening minus closing parentheses in `s`.
pub open spec fn paren_balance(s: Seq<char>) -> int
    decreases s.len(),
{
    if s.len() == 0 {
        0
    } else {
        paren_balance(s.drop_last()) + if s.last() == '(' {
            1int
        } else if s.last() == ')' {
            -1int
        } else {
            0int
        }
    }
}

pub open spec fn no_parens(s: Seq<char>) -> bool {
    forall|i: int| 0 <= i < s.len() ==> #[trigger] s[i] != '(' && s[i] != ')'
}

pub open spec fn all_without_parens(parts: Seq<Seq<char>>) -> bool {
    forall|i: int| 0 <= i < parts.len() ==> no_parens(#[trigger] parts[i])
}

pub open spec fn opt_no_parens(o: Option<Seq<char>>) -> bool {
    match o {
        Some(x) => no_parens(x),
        None => true,
    }
}

/// No parenthesis in what an event carries.
pub open spec fn paren_free_event(e: EventV) -> bool {
    match e {
        EventV::Start(TagV::Quote(_, _, a)) => opt_no_parens(a),
        EventV::Start(TagV::CodeBlock(f, _)) => opt_no_parens(f),
        EventV::Text(x) => no_parens(x),
        EventV::Code(x) => no_parens(x),
        EventV::FunctionCall(v, f, args) => opt_no_parens(v) && no_parens(f) && all_without_parens(
            args,
        ),
        EventV::DocumentFunctionCall(args) => all_without_parens(args),
        _ => true,
    }
}

proof fn lemma_paren_add(a: Seq<char>, b: Seq<char>)
    ensures
        paren_balance(a + b) == paren_balance(a) + paren_balance(b),
    decreases b.len(),
{
    if b.len() > 0 {
        lemma_paren_add(a, b.drop_last());
        assert((a + b).drop_last() =~= a + b.drop_last());
    } else {
        assert(a + b =~= a);
    }
}

proof fn lemma_no_parens_balance(s: Seq<char>)
    requires
        no_parens(s),
    ensures
        paren_balance(s) == 0,
    decreases s.len(),
{
    if s.len() > 0 {
        assert(s.last() == s[s.len() - 1]);
        assert(no_parens(s.drop_last())) by {
            assert forall|i: int| 0 <= i < s.drop_last().len() implies #[trigger] s.drop_last()[i]
                != '(' && s.drop_last()[i] != ')' by {
                assert(s.drop_last()[i] == s[i]);
            }
        }
        lemma_no_parens_balance(s.drop_last());
    }
}

proof fn lemma_concat_no_parens(a: Seq<char>, b: Seq<char>)
    requires
        no_parens(a),
        no_parens(b),
    ensures
        no_parens(a + b),
{
    assert forall|i: int| 0 <= i < (a + b).len() implies #[trigger] (a + b)[i] != '(' && (a + b)[i]
        != ')' by {
        if i < a.len() {
            assert((a + b)[i] == a[i]);
        } else {
            assert((a + b)[i] == b[i - a.len()]);
        }
    }
}

proof fn lemma_escaped_no_parens(x: Seq<char>)
    requires
        no_parens(x),
    ensures
        no_parens(escaped(x)),
    decreases x.len(),
{
    if x.len() > 0 {
        let p = x.drop_last();
        assert(no_parens(p)) by {
            assert forall|i: int| 0 <= i < p.len() implies #[trigger] p[i] != '(' && p[i] != ')' by {
                assert(p[i] == x[i]);
            }
        }
        lemma_escaped_no_parens(p);
        assert(x.last() == x[x.len() - 1]);
        lemma_concat_no_parens(escaped(p), escape_char(x.last()));
    }
}

proof fn lemma_replaced_no_parens(s: Seq<char>, pat: Seq<char>, rep: Seq<char>)
    requires
        no_parens(s),
        no_parens(rep),
    ensures
        no_parens(replaced(s, pat, rep)),
    decreases s.len(),
{
    if s.len() > 0 {
        let k = if pat.len() > 0 && starts_with(s, pat) {
            pat.len() as int
        } else {
            1
        };
        assert(no_parens(s.skip(k))) by {
            assert forall|i: int| 0 <= i < s.skip(k).len() implies #[trigger] s.skip(k)[i] != '('
                && s.skip(k)[i] != ')' by {
                assert(s.skip(k)[i] == s[i + k]);
            }
        }
        lemma_replaced_no_parens(s.skip(k), pat, rep);
        assert(s[0] != '(' && s[0] != ')');
        if k == 1 && !(pat.len() > 0 && starts_with(s, pat)) {
            lemma_concat_no_parens(seq![s[0]], replaced(s.skip(1), pat, rep));
        } else {
            lemma_concat_no_parens(rep, replaced(s.skip(k), pat, rep));
        }
    }
}

proof fn lemma_join_no_parens(parts: Seq<Seq<char>>, sep: Seq<char>)
    requires
        all_without_parens(parts),
        no_parens(sep),
    ensures
        no_parens(join(parts, sep)),
    decreases parts.len(),
{
    if parts.len() > 1 {
        let p = parts.drop_last();
        assert(all_without_parens(p)) by {
            assert forall|i: int| 0 <= i < p.len() implies no_parens(#[trigger] p[i]) by {
                assert(p[i] == parts[i]);
            }
        }
        lemma_join_no_parens(p, sep);
        assert(no_parens(parts[parts.len() - 1]));
        lemma_concat_no_parens(join(p, sep), sep);
        lemma_concat_no_parens(join(p, sep) + sep, parts.last());
    } else if parts.len() == 1 {
        assert(no_parens(parts[0]));
    }
}

proof fn lemma_repeat_no_parens(c: char, n: nat)
    requires
        c != '(' && c != ')',
    ensures
        no_parens(repeat_char(c, n)),
{
}

proof fn lemma_paren_literals()
    ensures
        paren_balance("#par()["@) == 0,
        paren_balance("#emph["@) == 0,
        paren_balance("#strong["@) == 0,
        paren_balance("]\n"@) == 0,
        paren_balance("]"@) == 0,
        paren_balance("\n"@) == 0,
        paren_balance("- "@) == 0,
        paren_balance("+ "@) == 0,
        paren_balance("#linebreak()\n"@) == 0,
        paren_balance("#parbreak()\n"@) == 0,
        paren_balance("#pagebreak()\n"@) == 0,
        paren_balance("#quote("@) == 1,
        paren_balance("block: true,"@) == 0,
        paren_balance("block: false,"@) == 0,
        paren_balance(" "@) == 0,
        paren_balance("quotes: false,"@) == 0,
        paren_balance("quotes: true,"@) == 0,
        paren_balance("quotes: auto,"@) == 0,
        paren_balance(" attribution: ["@) == 0,
        paren_balance("])["@) == -1,
        paren_balance(")["@) == -1,
        paren_balance("#raw(\""@) == 1,
        paren_balance("\")"@) == -1,
        paren_balance("("@) == 1,
        paren_balance(")\n"@) == -1,
        paren_balance("#document("@) == 1,
        no_parens("#"@),
        no_parens("."@),
        no_parens("\\\\"@),
        no_parens("\\\""@),
        no_parens("\n"@),
        no_parens(comma()),
{
    reveal_strlit("#par()[");
    reveal_strlit("#emph[");
    reveal_strlit("#strong[");
    reveal_strlit("]\n");
    reveal_strlit("]");
    reveal_strlit("\n");
    reveal_strlit("- ");
    reveal_strlit("+ ");
    reveal_strlit("#linebreak()\n");
    reveal_strlit("#parbreak()\n");
    reveal_strlit("#pagebreak()\n");
    reveal_strlit("#quote(");
    reveal_strlit("block: true,");
    reveal_strlit("block: false,");
    reveal_strlit(" ");
    reveal_strlit("quotes: false,");
    reveal_strlit("quotes: true,");
    reveal_strlit("quotes: auto,");
    reveal_strlit(" attribution: [");
    reveal_strlit("])[");
    reveal_strlit(")[");
    reveal_strlit("#raw(\"");
    reveal_strlit("\")");
    reveal_strlit("(");
    reveal_strlit(")\n");
    reveal_strlit("#document(");
    reveal_strlit("#");
    reveal_strlit(".");
    reveal_strlit("\\\\");
    reveal_strlit("\\\"");
    reveal_with_fuel(paren_balance, 20);
}

proof fn lemma_step_parens(m: MarkupModel, e: EventV)
    requires
        m.row is None,
        m.cell is None,
        !m.closed_for_image,
        prose_event(e),
        paren_free_event(e),
    ensures
        paren_balance(markup_step(m, e).1) == 0,
        markup_step(m, e).0.row is None,
        markup_step(m, e).0.cell is None,
        !markup_step(m, e).0.closed_for_image,
{
    lemma_paren_literals();
    let out = markup_step(m, e).1;
    match e {
        EventV::Text(x) => {
            lemma_escaped_no_parens(x);
            lemma_no_parens_balance(escaped(x));
            lemma_no_parens_balance(x);
        },
        EventV::Code(x) => {
            lemma_replaced_no_parens(x, seq!['\\'], "\\\\"@);
            let y = replaced(x, seq!['\\'], "\\\\"@);
            lemma_replaced_no_parens(y, seq!['"'], "\\\""@);
            let z = replaced(y, seq!['"'], "\\\""@);
            lemma_no_parens_balance(z);
            lemma_paren_add("#raw(\""@, z);
            lemma_paren_add("#raw(\""@ + z, "\")"@);
        },
        EventV::FunctionCall(v, f, args) => {
            lemma_join_no_parens(args, comma());
            let j = join(args, comma());
            let head = match v {
                Some(r) => {
                    lemma_concat_no_parens("#"@, r);
                    lemma_concat_no_parens("#"@ + r, "."@);
                    lemma_concat_no_parens("#"@ + r + "."@, f);
                    "#"@ + r + "."@ + f
                },
                None => {
                    lemma_concat_no_parens("#"@, f);
                    "#"@ + f
                },
            };
            lemma_no_parens_balance(head);
            lemma_no_parens_balance(j);
            lemma_paren_add(head, "("@);
            lemma_paren_add(head + "("@, j);
            lemma_paren_add(head + "("@ + j, ")\n"@);
            assert(out =~= Seq::<char>::empty() + (head + "("@ + j + ")\n"@));
            lemma_paren_add(Seq::<char>::empty(), head + "("@ + j + ")\n"@);
        },
        EventV::DocumentFunctionCall(args) => {
            lemma_join_no_parens(args, comma());
            let j = join(args, comma());
            lemma_no_parens_balance(j);
            lemma_paren_add("#document("@, j);
            lemma_paren_add("#document("@ + j, ")\n"@);
        },
        EventV::Start(t) => {
            match t {
                TagV::CodeBlock(f, _) => {
                    let r = repeat_char('`', 6 + m.depth);
                    lemma_repeat_no_parens('`', 6 + m.depth);
                    lemma_no_parens_balance(r);
                    lemma_paren_add(r, opt_or_empty(f));
                    lemma_paren_add(r + opt_or_empty(f), "\n"@);
                    if f is Some {
                        lemma_no_parens_balance(f->Some_0);
                    } else {
                        assert(opt_or_empty(f) =~= Seq::<char>::empty());
                    }
                },
                TagV::Quote(k, q, a) => {
                    let block = match k {
                        QuoteType::Block => "block: true,"@,
                        QuoteType::Inline => "block: false,"@,
                    };
                    let quotes = match q {
                        QuoteQuotes::DoNotWrapInDoubleQuotes => "quotes: false,"@,
                        QuoteQuotes::WrapInDoubleQuotes => "quotes: true,"@,
                        QuoteQuotes::Auto => "quotes: auto,"@,
                    };
                    let head = "#quote("@ + block + " "@ + quotes;
                    lemma_paren_add("#quote("@, block);
                    lemma_paren_add("#quote("@ + block, " "@);
                    lemma_paren_add("#quote("@ + block + " "@, quotes);
                    match a {
                        Some(x) => {
                            lemma_no_parens_balance(x);
                            lemma_paren_add(head, " attribution: ["@);
                            lemma_paren_add(head + " attribution: ["@, x);
                            lemma_paren_add(head + " attribution: ["@ + x, "])["@);
                        },
                        None => {
                            lemma_paren_add(head, ")["@);
                        },
                    }
                },
                _ => {},
            }
        },
        EventV::End(t) => {
            match t {
                TagV::CodeBlock(_, _) => {
                    let d: nat = if m.depth > 0 {
                        (m.depth - 1) as nat
                    } else {
                        0
                    };
                    let r = repeat_char('`', 6 + d);
                    lemma_repeat_no_parens('`', 6 + d);
                    lemma_no_parens_balance(r);
                    lemma_paren_add(r, "\n"@);
                },
                _ => {},
            }
        },
        _ => {},
    }
}

proof fn lemma_rendered_parens(m: MarkupModel, evs: Seq<EventV>)
    requires
        m.row is None,
        m.cell is None,
        !m.closed_for_image,
        forall|i: int| 0 <= i < evs.len() ==> prose_event(#[trigger] evs[i]) && paren_free_event(
            evs[i],
        ),
    ensures
        paren_balance(rendered(m, evs)) == 0,
    decreases evs.len(),
{
    if evs.len() == 0 {
        assert(rendered(m, evs) =~= Seq::<char>::empty());
    } else {
        let e = evs[0];
        assert(prose_event(e) && paren_free_event(e));
        lemma_step_parens(m, e);
        let (m1, out) = markup_step(m, e);
        assert forall|i: int| 0 <= i < evs.skip(1).len() implies prose_event(
            #[trigger] evs.skip(1)[i],
        ) && paren_free_event(evs.skip(1)[i]) by {
            assert(evs.skip(1)[i] == evs[i + 1]);
        }
        lemma_rendered_parens(m1, evs.skip(1));
        lemma_paren_add(out, rendered(m1, evs.skip(1)));
    }
}

/// Serializing prose events yields as many opening as closing parentheses,
/// when no text, code, name, argument, attribution or language token holds
/// one: each event's markup balances its own.
pub proof fn lemma_parens_balanced(evs: Seq<EventV>)
    requires
        forall|i: int| 0 <= i < evs.len() ==> prose_event(#[trigger] evs[i]) && paren_free_event(
            evs[i],
        ),
    ensures
        paren_balance(render(evs)) == 0,
{
    lemma_rendered_parens(initial_model(), evs);
}

// ---------------------------------------------------------------------------
// Table rows.
// ---------------------------------------------------------------------------

/// Events that may stand inside a table row: cell boundaries, text, raw
/// markup, inline code and inline tags.
pub open spec fn row_event(e: EventV) -> bool {
    match e {
        EventV::Start(t) => t is TableCell || t is Emphasis || t is Strong || t is Link,
        EventV::End(t) => t is TableCell || t is Emphasis || t is Strong || t is Link,
        EventV::Text(_) => true,
        EventV::Raw(_) => true,
        EventV::Code(_) => true,
        _ => false,
    }
}

/// While a row is open, nothing of it is emitted: each of its events yields
/// an empty fragment and the row stays open.
pub proof fn lemma_row_deferred(m: MarkupModel, e: EventV)
    requires
        m.row is Some,
        row_event(e),
    ensures
        markup_step(m, e).1 == Seq::<char>::empty(),
        markup_step(m, e).0.row is Some,
{
}

/// A row's end emits the cells collected so far, on one line, and closes
/// the row.
pub proof fn lemma_row_end(m: MarkupModel, b: Seq<char>)
    requires
        m.row == Some(b),
        m.cell is None,
    ensures
        markup_step(m, EventV::End(TagV::TableRow)).1 == "  "@ + strip_separator(b) + ",\n"@,
        markup_step(m, EventV::End(TagV::TableRow)).0.row is None,
{
}

/// A cell's end adds the cell, escaped and in brackets, to its row.
pub proof fn lemma_cell_end(m: MarkupModel, r: Seq<char>, c: Seq<char>)
    requires
        m.row == Some(r),
        m.cell == Some(c),
        !m.closed_for_image,
    ensures
        markup_step(m, EventV::End(TagV::TableCell)).1 == Seq::<char>::empty(),
        markup_step(m, EventV::End(TagV::TableCell)).0.row == Some(add_cell(r, cell_markup(c))),
        markup_step(m, EventV::End(TagV::TableCell)).0.cell is None,
{
}

} // verus!
