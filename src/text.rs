//! Character-level text handling: escaping for typesetting markup, label
//! derivation, substring replacement, whitespace trimming and decimal
//! formatting, each stated over `Seq<char>`.
use vstd::prelude::*;
use vstd::std_specs::iter::IteratorSpec;

verus! {

// ---------------------------------------------------------------------------
// Names for what the standard library computes from a character.
// ---------------------------------------------------------------------------

/// Whether a character is Unicode `Alphabetic` or `Numeric`.
pub uninterp spec fn char_is_alphanumeric(c: char) -> bool;

/// The characters of the Unicode lower-case mapping of a character.
pub uninterp spec fn char_lowercase(c: char) -> Seq<char>;

/// Relies on `char::is_alphanumeric`: the answer depends on the character alone.
#[verifier::external_body]
pub(crate) fn is_alphanumeric(c: char) -> (r: bool)
    ensures
        r == char_is_alphanumeric(c),
{
    c.is_alphanumeric()
}

/// Relies on `char::to_lowercase`: the lower-case characters of `c`, which
/// depend on `c` alone.
#[verifier::external_body]
pub(crate) fn lowercase(c: char) -> (r: String)
    ensures
        r@ == char_lowercase(c),
{
    c.to_lowercase().to_string()
}

/// The characters of `s`, in order.
pub fn chars_of(s: &str) -> (r: Vec<char>)
    ensures
        r@ == s@,
{
    broadcast use vstd::string::group_string_axioms;

    let mut it = s.chars();
    let mut r: Vec<char> = Vec::new();
    loop
        invariant
            r@ + it.remaining() == s@,
            it.decrease() is Some,
        decreases it.decrease()->0,
    {
        let ghost before = it.remaining();
        match it.next() {
            Some(c) => {
                r.push(c);
                assert(r@ + it.remaining() =~= s@) by {
                    assert(before =~= seq![c] + before.drop_first());
                }
            },
            None => {
                assert(r@ =~= s@);
                return r;
            },
        }
    }
}

/// Relies on `String::push`: appends one character.
#[verifier::external_body]
pub(crate) fn push_char(s: &mut String, c: char)
    ensures
        final(s)@ == old(s)@.push(c),
{
    s.push(c)
}

// ---------------------------------------------------------------------------
// Sequence predicates.
// ---------------------------------------------------------------------------

pub open spec fn starts_with(s: Seq<char>, p: Seq<char>) -> bool {
    p.len() <= s.len() && s.take(p.len() as int) == p
}

pub open spec fn ends_with(s: Seq<char>, p: Seq<char>) -> bool {
    p.len() <= s.len() && s.skip(s.len() - p.len()) == p
}

/// `s` without the suffix `p`, when `s` ends with it.
pub open spec fn strip_suffix(s: Seq<char>, p: Seq<char>) -> Seq<char> {
    if ends_with(s, p) {
        s.take(s.len() - p.len())
    } else {
        s
    }
}

/// Whether `s[i..]` begins with `p`.
pub open spec fn matches_at(s: Seq<char>, i: int, p: Seq<char>) -> bool {
    0 <= i && i + p.len() <= s.len() && s.subrange(i, i + p.len()) == p
}

/// Whether `pat` occurs in `s`.
pub open spec fn contains(s: Seq<char>, pat: Seq<char>) -> bool {
    exists|i: int| matches_at(s, i, pat)
}

pub fn seq_matches_at(s: &Vec<char>, i: usize, p: &Vec<char>) -> (r: bool)
    ensures
        r == matches_at(s@, i as int, p@),
{
    if i > s.len() || p.len() > s.len() - i {
        return false;
    }
    let mut j: usize = 0;
    while j < p.len()
        invariant
            i + p.len() <= s.len(),
            j <= p.len(),
            forall|k: int| 0 <= k < j ==> s@[i + k] == p@[k],
        decreases p.len() - j,
    {
        if s[i + j] != p[j] {
            assert(s@.subrange(i as int, i + p.len())[j as int] != p@[j as int]);
            return false;
        }
        j = j + 1;
    }
    assert(s@.subrange(i as int, i + p.len()) =~= p@);
    true
}

// ---------------------------------------------------------------------------
// Whitespace (the Unicode `White_Space` property).
// ---------------------------------------------------------------------------

pub open spec fn is_white_space(c: char) -> bool {
    let u = c as u32;
    (0x09 <= u && u <= 0x0d) || u == 0x20 || u == 0x85 || u == 0xa0 || u == 0x1680 || (0x2000
        <= u && u <= 0x200a) || u == 0x2028 || u == 0x2029 || u == 0x202f || u == 0x205f || u
        == 0x3000
}

/// Whether `c` is whitespace, as `char::is_whitespace` defines it.
pub fn is_whitespace(c: char) -> (r: bool)
    ensures
        r == is_white_space(c),
{
    let u = c as u32;
    (0x09 <= u && u <= 0x0d) || u == 0x20 || u == 0x85 || u == 0xa0 || u == 0x1680 || (0x2000
        <= u && u <= 0x200a) || u == 0x2028 || u == 0x2029 || u == 0x202f || u == 0x205f || u
        == 0x3000
}

pub open spec fn trim_start(s: Seq<char>) -> Seq<char>
    decreases s.len(),
{
    if s.len() > 0 && is_white_space(s[0]) {
        trim_start(s.skip(1))
    } else {
        s
    }
}

pub open spec fn trim_end(s: Seq<char>) -> Seq<char>
    decreases s.len(),
{
    if s.len() > 0 && is_white_space(s.last()) {
        trim_end(s.drop_last())
    } else {
        s
    }
}

/// `s` without leading and trailing whitespace.
pub open spec fn trimmed(s: Seq<char>) -> Seq<char> {
    trim_end(trim_start(s))
}

/// The characters `v[lo..hi]` as a `String`.
pub fn string_from(v: &Vec<char>, lo: usize, hi: usize) -> (r: String)
    requires
        lo <= hi <= v.len(),
    ensures
        r@ == v@.subrange(lo as int, hi as int),
{
    let mut r = String::new();
    let mut i = lo;
    while i < hi
        invariant
            lo <= i <= hi <= v.len(),
            r@ == v@.subrange(lo as int, i as int),
        decreases hi - i,
    {
        push_char(&mut r, v[i]);
        i = i + 1;
        assert(r@ =~= v@.subrange(lo as int, i as int));
    }
    r
}

/// `s` without leading and trailing whitespace.
pub fn trim_whitespace(s: &str) -> (r: String)
    ensures
        r@ == trimmed(s@),
{
    let v = chars_of(s);
    let mut a: usize = 0;
    assert(v@.skip(0) =~= v@);
    while a < v.len() && is_whitespace(v[a])
        invariant
            a <= v.len(),
            trim_start(v@) == trim_start(v@.skip(a as int)),
        decreases v.len() - a,
    {
        assert(v@.skip(a as int).skip(1) =~= v@.skip(a + 1));
        a = a + 1;
    }
    let mut b: usize = v.len();
    assert(v@.skip(a as int) =~= v@.subrange(a as int, b as int));
    while b > a && is_whitespace(v[b - 1])
        invariant
            a <= b <= v.len(),
            trim_start(v@) == v@.subrange(a as int, v.len() as int),
            trim_end(trim_start(v@)) == trim_end(v@.subrange(a as int, b as int)),
        decreases b - a,
    {
        assert(v@.subrange(a as int, b as int).drop_last() =~= v@.subrange(a as int, b - 1));
        b = b - 1;
    }
    string_from(&v, a, b)
}

// ---------------------------------------------------------------------------
// Escaping prose for the typesetting language.
// ---------------------------------------------------------------------------

/// What one character of prose becomes: the markup's special characters get a
/// backslash, and an underscore also a space before it, so that it cannot
/// join the word in front.
pub open spec fn escape_char(c: char) -> Seq<char> {
    if c == '$' || c == '#' || c == '<' || c == '>' || c == '*' || c == '`' || c == '@' {
        seq!['\\', c]
    } else if c == '_' {
        seq![' ', '\\', '_']
    } else {
        seq![c]
    }
}

pub open spec fn escaped(s: Seq<char>) -> Seq<char>
    decreases s.len(),
{
    if s.len() == 0 {
        seq![]
    } else {
        escaped(s.drop_last()) + escape_char(s.last())
    }
}

/// Escapes prose so that the markup reads it as plain text.
pub fn typst_escape(s: &str) -> (r: String)
    ensures
        r@ == escaped(s@),
{
    let v = chars_of(s);
    let mut r = String::new();
    let mut i: usize = 0;
    while i < v.len()
        invariant
            i <= v.len(),
            r@ == escaped(v@.take(i as int)),
        decreases v.len() - i,
    {
        let c = v[i];
        if c == '$' || c == '#' || c == '<' || c == '>' || c == '*' || c == '`' || c == '@' {
            push_char(&mut r, '\\');
            push_char(&mut r, c);
        } else if c == '_' {
            push_char(&mut r, ' ');
            push_char(&mut r, '\\');
            push_char(&mut r, '_');
        } else {
            push_char(&mut r, c);
        }
        assert(v@.take(i + 1).drop_last() =~= v@.take(i as int));
        i = i + 1;
        assert(r@ =~= escaped(v@.take(i as int)));
    }
    assert(v@.take(v.len() as int) =~= v@);
    r
}

// ---------------------------------------------------------------------------
// Replacing every occurrence of a pattern, left to right.
// ---------------------------------------------------------------------------

/// `s` with each non-overlapping occurrence of `pat`, found from the left,
/// replaced by `rep`.
pub open spec fn replaced(s: Seq<char>, pat: Seq<char>, rep: Seq<char>) -> Seq<char>
    decreases s.len(),
{
    if s.len() == 0 {
        seq![]
    } else if pat.len() > 0 && starts_with(s, pat) {
        rep + replaced(s.skip(pat.len() as int), pat, rep)
    } else {
        seq![s[0]] + replaced(s.skip(1), pat, rep)
    }
}

/// `s` with every occurrence of `pat` replaced by `rep`, left to right.
pub fn replace_all(s: &str, pat: &Vec<char>, rep: &str) -> (r: String)
    requires
        pat.len() > 0,
    ensures
        r@ == replaced(s@, pat@, rep@),
{
    let v = chars_of(s);
    let mut r = String::new();
    let mut i: usize = 0;
    assert(v@.skip(0) =~= v@);
    assert(r@ + replaced(v@, pat@, rep@) =~= replaced(v@, pat@, rep@));
    while i < v.len()
        invariant
            i <= v.len(),
            pat.len() > 0,
            r@ + replaced(v@.skip(i as int), pat@, rep@) == replaced(v@, pat@, rep@),
        decreases v.len() - i,
    {
        let ghost rest = v@.skip(i as int);
        let ghost r0 = r@;
        if seq_matches_at(&v, i, pat) {
            assert(rest.take(pat.len() as int) =~= v@.subrange(i as int, i + pat.len()));
            assert(rest.skip(pat.len() as int) =~= v@.skip(i + pat.len()));
            r.append(rep);
            i = i + pat.len();
            assert(r@ + replaced(v@.skip(i as int), pat@, rep@) =~= r0 + replaced(rest, pat@, rep@));
        } else {
            assert(!starts_with(rest, pat@)) by {
                if starts_with(rest, pat@) {
                    assert(rest.take(pat.len() as int) =~= v@.subrange(i as int, i + pat.len()));
                }
            }
            assert(rest.skip(1) =~= v@.skip(i + 1));
            let c = v[i];
            push_char(&mut r, c);
            i = i + 1;
            assert(r@ + replaced(v@.skip(i as int), pat@, rep@) =~= r0 + replaced(rest, pat@, rep@));
        }
    }
    assert(v@.skip(i as int) =~= Seq::<char>::empty());
    r
}

// ---------------------------------------------------------------------------
// Labels derived from heading text.
// ---------------------------------------------------------------------------

pub open spec fn is_ascii_upper(c: char) -> bool {
    'A' <= c && c <= 'Z'
}

pub open spec fn is_ascii_lower_or_digit(c: char) -> bool {
    ('a' <= c && c <= 'z') || ('0' <= c && c <= '9')
}

/// What one character of heading text becomes in a label: ASCII letters are
/// lower-cased and digits kept; whitespace and every other ASCII character
/// (punctuation, `-`, `_`) become a separator; other letters and digits are
/// lower-cased, and any other character (CJK text, symbols) is kept as it is.
pub open spec fn label_piece(c: char) -> Seq<char> {
    if is_ascii_upper(c) {
        seq![(((c as u32) + 32) as u8) as char]
    } else if is_ascii_lower_or_digit(c) {
        seq![c]
    } else if (c as u32) < 128 || is_white_space(c) {
        seq!['-']
    } else if char_is_alphanumeric(c) {
        char_lowercase(c)
    } else {
        seq![c]
    }
}

pub open spec fn label_pieces(s: Seq<char>) -> Seq<char>
    decreases s.len(),
{
    if s.len() == 0 {
        seq![]
    } else {
        label_pieces(s.drop_last()) + label_piece(s.last())
    }
}

/// Reading `t` from the left: the label so far, and whether a separator is
/// owed before the next kept character.
pub open spec fn slug_state(t: Seq<char>) -> (Seq<char>, bool)
    decreases t.len(),
{
    if t.len() == 0 {
        (seq![], false)
    } else {
        let (out, pending) = slug_state(t.drop_last());
        let c = t.last();
        if c == '-' {
            (out, out.len() > 0)
        } else if pending {
            (out + seq!['-', c], false)
        } else {
            (out.push(c), false)
        }
    }
}

/// `t` with each run of `-` collapsed into one, and none at either end.
pub open spec fn slug(t: Seq<char>) -> Seq<char> {
    slug_state(t).0
}

/// The label that heading text `s` gets.
pub open spec fn label_id(s: Seq<char>) -> Seq<char> {
    slug(label_pieces(s))
}

/// Collapses each run of `-` in `s` into one and drops those at either end.
pub fn collapse_separators(s: &str) -> (r: String)
    ensures
        r@ == slug(s@),
{
    let v = chars_of(s);
    let mut r = String::new();
    let mut pending = false;
    let mut emitted = false;
    let mut i: usize = 0;
    while i < v.len()
        invariant
            i <= v.len(),
            (r@, pending) == slug_state(v@.take(i as int)),
            emitted == (r@.len() > 0),
        decreases v.len() - i,
    {
        let c = v[i];
        assert(v@.take(i + 1).drop_last() =~= v@.take(i as int));
        if c == '-' {
            pending = emitted;
        } else {
            if pending {
                push_char(&mut r, '-');
            }
            push_char(&mut r, c);
            pending = false;
            emitted = true;
        }
        i = i + 1;
        assert((r@, pending) =~= slug_state(v@.take(i as int)));
    }
    assert(v@.take(v.len() as int) =~= v@);
    r
}

/// Derives the label of a heading from its text: lower-cased, each run of
/// whitespace and ASCII non-alphanumerics turned into one `-` and none kept
/// at either end, non-ASCII characters kept.
pub fn generate_label_id(text: &str) -> (r: String)
    ensures
        r@ == label_id(text@),
{
    let v = chars_of(text);
    let mut pieces = String::new();
    let mut i: usize = 0;
    while i < v.len()
        invariant
            i <= v.len(),
            pieces@ == label_pieces(v@.take(i as int)),
        decreases v.len() - i,
    {
        let c = v[i];
        if 'A' <= c && c <= 'Z' {
            let b: u8 = ((c as u32) + 32) as u8;
            push_char(&mut pieces, b as char);
        } else if ('a' <= c && c <= 'z') || ('0' <= c && c <= '9') {
            push_char(&mut pieces, c);
        } else if (c as u32) < 128 || is_whitespace(c) {
            push_char(&mut pieces, '-');
        } else if is_alphanumeric(c) {
            let low = lowercase(c);
            pieces.append(low.as_str());
        } else {
            push_char(&mut pieces, c);
        }
        assert(v@.take(i + 1).drop_last() =~= v@.take(i as int));
        i = i + 1;
        assert(pieces@ =~= label_pieces(v@.take(i as int)));
    }
    assert(v@.take(v.len() as int) =~= v@);
    collapse_separators(pieces.as_str())
}

// ---------------------------------------------------------------------------
// Table-cell escaping.
// ---------------------------------------------------------------------------

/// `s` with a backslash put before every `*` that has none before it.
pub open spec fn stars_escaped(s: Seq<char>) -> Seq<char>
    decreases s.len(),
{
    if s.len() == 0 {
        seq![]
    } else {
        let c = s.last();
        let after_backslash = s.len() >= 2 && s[s.len() - 2] == '\\';
        stars_escaped(s.drop_last()) + if c == '*' && !after_backslash {
            seq!['\\', '*']
        } else {
            seq![c]
        }
    }
}

/// Escapes each `*` of `s` that is not escaped yet.
pub fn escape_stars(s: &str) -> (r: String)
    ensures
        r@ == stars_escaped(s@),
{
    let v = chars_of(s);
    let mut r = String::new();
    let mut i: usize = 0;
    while i < v.len()
        invariant
            i <= v.len(),
            r@ == stars_escaped(v@.take(i as int)),
        decreases v.len() - i,
    {
        let c = v[i];
        let after_backslash = i >= 1 && v[i - 1] == '\\';
        if c == '*' && !after_backslash {
            push_char(&mut r, '\\');
            push_char(&mut r, '*');
        } else {
            push_char(&mut r, c);
        }
        assert(v@.take(i + 1).drop_last() =~= v@.take(i as int));
        i = i + 1;
        assert(r@ =~= stars_escaped(v@.take(i as int)));
    }
    assert(v@.take(v.len() as int) =~= v@);
    r
}

// ---------------------------------------------------------------------------
// Decimal numbers.
// ---------------------------------------------------------------------------

pub open spec fn digit_char(d: nat) -> char {
    (((d % 10) + 48) as u8) as char
}

/// The decimal digits of `n`, most significant first.
pub open spec fn decimal(n: nat) -> Seq<char>
    decreases n,
{
    if n < 10 {
        seq![digit_char(n)]
    } else {
        decimal(n / 10) + seq![digit_char(n % 10)]
    }
}

/// Appends the decimal digits of `n`.
pub fn push_decimal(s: &mut String, n: usize)
    ensures
        final(s)@ == old(s)@ + decimal(n as nat),
    decreases n,
{
    if n >= 10 {
        push_decimal(s, n / 10);
    }
    let d: u8 = (n % 10) as u8;
    let c = (d + 48) as char;
    push_char(s, c);
    assert(final(s)@ =~= old(s)@ + decimal(n as nat));
}

} // verus!
