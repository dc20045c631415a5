//! Heading labels and link targets: the table from heading text to label, and
//! the rewriting of a link target into a label reference or a path.
use vstd::prelude::*;
use crate::text::{
    chars_of, ends_with, generate_label_id, label_id, push_char, seq_matches_at, starts_with,
    string_from,
};

verus! {

// ---------------------------------------------------------------------------
// The label table.
// ---------------------------------------------------------------------------

pub open spec fn table_map(e: Seq<(Seq<char>, Seq<char>)>) -> Map<Seq<char>, Seq<char>>
    decreases e.len(),
{
    if e.len() == 0 {
        Map::empty()
    } else {
        table_map(e.drop_last()).insert(e.last().0, e.last().1)
    }
}

/// Map from heading text to the label generated for it. Later entries win.
pub struct LabelTable {
    entries: Vec<(String, String)>,
}

impl LabelTable {
    pub closed spec fn entries_view(&self) -> Seq<(Seq<char>, Seq<char>)> {
        self.entries@.map_values(|p: (String, String)| (p.0@, p.1@))
    }

    pub closed spec fn view(&self) -> Map<Seq<char>, Seq<char>> {
        table_map(self.entries_view())
    }

    pub fn new() -> (r: Self)
        ensures
            r.view() == Map::<Seq<char>, Seq<char>>::empty(),
    {
        let r = LabelTable { entries: Vec::new() };
        assert(r.entries_view() =~= Seq::<(Seq<char>, Seq<char>)>::empty());
        r
    }

    /// Records `label` for heading text `text`, replacing an earlier one.
    pub fn insert(&mut self, text: String, label: String)
        ensures
            final(self).view() == old(self).view().insert(text@, label@),
    {
        let ghost k = text@;
        let ghost l = label@;
        self.entries.push((text, label));
        assert(self.entries_view().drop_last() =~= old(self).entries_view());
        assert(self.entries_view().last() == (k, l));
    }

    /// The label recorded for `text`, if any.
    pub fn get(&self, text: &String) -> (r: Option<String>)
        ensures
            match r {
                Some(l) => self.view().contains_key(text@) && l@ == self.view()[text@],
                None => !self.view().contains_key(text@),
            },
    {
        let ghost ev = self.entries_view();
        let mut i = self.entries.len();
        assert(ev.take(i as int) =~= ev);
        while i > 0
            invariant
                i <= self.entries.len(),
                ev == self.entries_view(),
                ev.len() == self.entries.len(),
                table_map(ev.take(i as int)).contains_key(text@) == table_map(ev).contains_key(
                    text@,
                ),
                table_map(ev.take(i as int)).contains_key(text@) ==> table_map(ev.take(i as int))[text@]
                    == table_map(ev)[text@],
            decreases i,
        {
            assert(ev.take(i as int).drop_last() =~= ev.take(i - 1));
            assert(ev[i - 1] == (self.entries@[i - 1].0@, self.entries@[i - 1].1@));
            if self.entries[i - 1].0 == *text {
                return Some(self.entries[i - 1].1.clone());
            }
            i = i - 1;
        }
        None
    }
}

// ---------------------------------------------------------------------------
// Link targets.
// ---------------------------------------------------------------------------

pub open spec fn angled(l: Seq<char>) -> Seq<char> {
    seq!['<'] + l + seq!['>']
}

/// `s` with every leading copy of `p` removed.
pub open spec fn trim_prefix_all(s: Seq<char>, p: Seq<char>) -> Seq<char>
    decreases s.len(),
{
    if p.len() > 0 && starts_with(s, p) {
        trim_prefix_all(s.skip(p.len() as int), p)
    } else {
        s
    }
}

pub open spec fn first_hash(p: Seq<char>, i: int) -> bool {
    0 <= i < p.len() && p[i] == '#' && forall|j: int| 0 <= j < i ==> p[j] != '#'
}

pub open spec fn has_hash(p: Seq<char>) -> bool {
    exists|i: int| 0 <= i < p.len() && p[i] == '#'
}

pub open spec fn all_dots(s: Seq<char>) -> bool {
    forall|j: int| 0 <= j < s.len() ==> s[j] == '.'
}

/// A source-format file name turned into the destination format's.
pub open spec fn to_typ(file: Seq<char>) -> Seq<char> {
    if ends_with(file, seq!['.', 'm', 'd']) {
        file.take(file.len() - 3) + seq!['.', 't', 'y', 'p']
    } else {
        file
    }
}

/// The label an in-document anchor refers to: the table's entry for the
/// anchor text, else the one for the label derived from it, else that label.
pub open spec fn internal_label(
    anchor: Seq<char>,
    labels: Option<Map<Seq<char>, Seq<char>>>,
) -> Seq<char> {
    match labels {
        Some(m) => if m.contains_key(anchor) {
            m[anchor]
        } else if m.contains_key(label_id(anchor)) {
            m[label_id(anchor)]
        } else {
            label_id(anchor)
        },
        None => label_id(anchor),
    }
}

/// The anchor of a target written as `./#anchor` or `/#anchor`.
pub open spec fn relative_anchor(u: Seq<char>) -> Seq<char> {
    trim_prefix_all(trim_prefix_all(trim_prefix_all(u, seq!['.', '/']), seq!['/']), seq!['#'])
}

/// A target with no leading `./`: a path, with an anchor or not.
pub open spec fn file_target(p: Seq<char>) -> Seq<char> {
    if has_hash(p) {
        let i = choose|i: int| first_hash(p, i);
        let file = p.take(i);
        let anchor = p.skip(i);
        if all_dots(file) {
            angled(label_id(trim_prefix_all(anchor, seq!['#'])))
        } else {
            to_typ(file) + anchor
        }
    } else {
        to_typ(p)
    }
}

/// What a link target becomes: `<label>` for an in-document anchor, else the
/// path with `./` dropped and a `.md` file renamed to `.typ`.
pub open spec fn link_target(u: Seq<char>, labels: Option<Map<Seq<char>, Seq<char>>>) -> Seq<
    char,
> {
    if starts_with(u, seq!['#']) {
        angled(internal_label(u.skip(1), labels))
    } else if (starts_with(u, seq!['.', '/', '#']) || starts_with(u, seq!['/', '#']))
        && relative_anchor(u).len() > 0 {
        angled(label_id(relative_anchor(u)))
    } else if starts_with(u, seq!['.', '/']) {
        file_target(u.skip(2))
    } else {
        file_target(u)
    }
}

/// The index `j` at which `v[j..]` is `v[start..]` with all leading copies of
/// `p` removed.
fn skip_prefixes(v: &Vec<char>, start: usize, p: &Vec<char>) -> (j: usize)
    requires
        start <= v.len(),
        p.len() > 0,
    ensures
        start <= j <= v.len(),
        v@.skip(j as int) == trim_prefix_all(v@.skip(start as int), p@),
{
    let mut j = start;
    while seq_matches_at(v, j, p)
        invariant
            start <= j <= v.len(),
            p.len() > 0,
            trim_prefix_all(v@.skip(start as int), p@) == trim_prefix_all(v@.skip(j as int), p@),
        decreases v.len() - j,
    {
        assert(v@.skip(j as int).take(p.len() as int) =~= v@.subrange(j as int, j + p.len()));
        assert(v@.skip(j as int).skip(p.len() as int) =~= v@.skip(j + p.len()));
        j = j + p.len();
    }
    assert(!starts_with(v@.skip(j as int), p@)) by {
        if starts_with(v@.skip(j as int), p@) {
            assert(v@.skip(j as int).take(p.len() as int) =~= v@.subrange(j as int, j + p.len()));
        }
    }
    j
}

fn angle_string(label: &str) -> (r: String)
    ensures
        r@ == angled(label@),
{
    let mut r = String::new();
    push_char(&mut r, '<');
    r.append(label);
    push_char(&mut r, '>');
    assert(r@ =~= angled(label@));
    r
}

fn label_for(anchor: &String, labels: Option<&LabelTable>) -> (r: String)
    ensures
        r@ == internal_label(
            anchor@,
            match labels {
                Some(t) => Some(t.view()),
                None => None,
            },
        ),
{
    match labels {
        Some(map) => {
            if let Some(label) = map.get(anchor) {
                return label;
            }
            let label = generate_label_id(anchor.as_str());
            if let Some(existing) = map.get(&label) {
                return existing;
            }
            label
        },
        None => generate_label_id(anchor.as_str()),
    }
}

/// `v[b..e]` renamed from `.md` to `.typ` when it is a source-format file.
fn typ_file(v: &Vec<char>, b: usize, e: usize) -> (r: String)
    requires
        b <= e <= v.len(),
    ensures
        r@ == to_typ(v@.subrange(b as int, e as int)),
{
    let ghost f = v@.subrange(b as int, e as int);
    if e - b >= 3 && v[e - 3] == '.' && v[e - 2] == 'm' && v[e - 1] == 'd' {
        assert(f.skip(f.len() - 3) =~= seq!['.', 'm', 'd']);
        let mut r = string_from(v, b, e - 3);
        push_char(&mut r, '.');
        push_char(&mut r, 't');
        push_char(&mut r, 'y');
        push_char(&mut r, 'p');
        assert(f.take(f.len() - 3) =~= v@.subrange(b as int, e - 3));
        assert(r@ =~= to_typ(f));
        r
    } else {
        assert(!ends_with(f, seq!['.', 'm', 'd'])) by {
            if ends_with(f, seq!['.', 'm', 'd']) {
                assert(f.skip(f.len() - 3)[0] == f[f.len() - 3]);
                assert(f.skip(f.len() - 3)[1] == f[f.len() - 2]);
                assert(f.skip(f.len() - 3)[2] == f[f.len() - 1]);
            }
        }
        string_from(v, b, e)
    }
}

/// Rewrites a link target: an in-document anchor (`#text`, `./#text`,
/// `/#text`, or a path of dots before `#`) becomes `<label>`, resolved
/// through `label_map` when one is given; otherwise a leading `./` is
/// dropped and a `.md` file becomes `.typ`, keeping any anchor.
pub fn process_link_url_impl(url: &str, label_map: Option<&LabelTable>) -> (r: String)
    ensures
        r@ == link_target(
            url@,
            match label_map {
                Some(t) => Some(t.view()),
                None => None,
            },
        ),
{
    let v = chars_of(url);
    let n = v.len();
    // An anchor in this document.
    if n >= 1 && v[0] == '#' {
        assert(v@.take(1) =~= seq!['#']);
        let anchor = string_from(&v, 1, n);
        assert(anchor@ =~= v@.skip(1));
        let label = label_for(&anchor, label_map);
        return angle_string(label.as_str());
    }
    assert(!starts_with(v@, seq!['#'])) by {
        if starts_with(v@, seq!['#']) {
            assert(v@.take(1)[0] == v@[0]);
        }
    }
    let dot_slash = vec!['.', '/'];
    let slash = vec!['/'];
    let hash = vec!['#'];
    assert(dot_slash@ =~= seq!['.', '/'] && slash@ =~= seq!['/'] && hash@ =~= seq!['#']);
    // An anchor after `./` or `/`.
    let rel = (n >= 3 && v[0] == '.' && v[1] == '/' && v[2] == '#') || (n >= 2 && v[0] == '/'
        && v[1] == '#');
    assert(rel == (starts_with(v@, seq!['.', '/', '#']) || starts_with(v@, seq!['/', '#']))) by {
        if n >= 3 {
            assert(v@.take(3)[0] == v@[0] && v@.take(3)[1] == v@[1] && v@.take(3)[2] == v@[2]);
            if v@[0] == '.' && v@[1] == '/' && v@[2] == '#' {
                assert(v@.take(3) =~= seq!['.', '/', '#']);
            }
        }
        if n >= 2 {
            assert(v@.take(2)[0] == v@[0] && v@.take(2)[1] == v@[1]);
            if v@[0] == '/' && v@[1] == '#' {
                assert(v@.take(2) =~= seq!['/', '#']);
            }
        }
    }
    if rel {
        assert(v@.skip(0) =~= v@);
        let j1 = skip_prefixes(&v, 0, &dot_slash);
        let j2 = skip_prefixes(&v, j1, &slash);
        let j3 = skip_prefixes(&v, j2, &hash);
        assert(v@.skip(0) =~= v@);
        if j3 < n {
            let anchor = string_from(&v, j3, n);
            assert(anchor@ =~= v@.skip(j3 as int));
            let label = generate_label_id(anchor.as_str());
            return angle_string(label.as_str());
        }
        assert(v@.skip(j3 as int) =~= Seq::<char>::empty());
    }
    // A path: drop a leading `./`.
    let b: usize = if n >= 2 && v[0] == '.' && v[1] == '/' {
        2
    } else {
        0
    };
    assert((b == 2) == starts_with(v@, seq!['.', '/'])) by {
        if n >= 2 {
            assert(v@.take(2)[0] == v@[0] && v@.take(2)[1] == v@[1]);
            if v@[0] == '.' && v@[1] == '/' {
                assert(v@.take(2) =~= seq!['.', '/']);
            }
        }
    }
    let ghost p = v@.skip(b as int);
    assert(b == 0 ==> p =~= v@);
    let mut i = b;
    while i < n && v[i] != '#'
        invariant
            b <= i <= n,
            n == v.len(),
            p == v@.skip(b as int),
            forall|j: int| b <= j < i ==> v@[j] != '#',
        decreases n - i,
    {
        i = i + 1;
    }
    if i == n {
        assert(!has_hash(p)) by {
            if has_hash(p) {
                let k = choose|k: int| 0 <= k < p.len() && p[k] == '#';
                assert(v@[b + k] == '#');
            }
        }
        assert(p =~= v@.subrange(b as int, n as int));
        return typ_file(&v, b, n);
    }
    let ghost k = i - b;
    assert(first_hash(p, k as int));
    assert(has_hash(p));
    let ghost c = choose|c: int| first_hash(p, c);
    assert(c == k) by {
        if c < k {
            assert(p[c] == '#');
            assert(v@[b + c] == '#');
        }
        if c > k {
            assert(p[k as int] != '#');
        }
    }
    assert(p.take(k as int) =~= v@.subrange(b as int, i as int));
    assert(p.skip(k as int) =~= v@.skip(i as int));
    // All dots before `#`: an anchor in this document.
    let mut d = b;
    while d < i && v[d] == '.'
        invariant
            b <= d <= i,
            i < n,
            n == v.len(),
            forall|j: int| b <= j < d ==> v@[j] == '.',
        decreases i - d,
    {
        d = d + 1;
    }
    if d == i {
        assert(all_dots(p.take(k as int)));
        let j = skip_prefixes(&v, i, &hash);
        let anchor = string_from(&v, j, n);
        assert(anchor@ =~= v@.skip(j as int));
        let label = generate_label_id(anchor.as_str());
        return angle_string(label.as_str());
    }
    assert(!all_dots(p.take(k as int))) by {
        assert(p.take(k as int)[d - b] == v@[d as int]);
    }
    let mut r = typ_file(&v, b, i);
    let rest = string_from(&v, i, n);
    r.append(rest.as_str());
    assert(rest@ =~= v@.skip(i as int));
    r
}

/// Rewrites a link target with no label table: in-document anchors get the
/// derived label.
pub fn process_link_url(url: &str) -> (r: String)
    ensures
        r@ == link_target(url@, None),
{
    process_link_url_impl(url, None)
}

} // verus!
