//! Trimming, splitting and joining.

use vstd::prelude::*;

use crate::text::basic::{chars_of, slice_text, texts};
use crate::text::search::{occurs_here, starts_with};

verus! {

/// A class of characters at which texts are trimmed or cut.
#[derive(Clone, Copy)]
pub enum Class {
    /// Unicode white space.
    Space,
    /// The separators of path words: `/`, `.`, `-` and `_`.
    Path,
    /// One character.
    Only(char),
}

/// The characters with the Unicode property `White_Space`.
pub open spec fn is_space(c: char) -> bool {
    let n = c as u32;
    ||| 0x09 <= n <= 0x0d
    ||| n == 0x20
    ||| n == 0x85
    ||| n == 0xa0
    ||| n == 0x1680
    ||| 0x2000 <= n <= 0x200a
    ||| n == 0x2028
    ||| n == 0x2029
    ||| n == 0x202f
    ||| n == 0x205f
    ||| n == 0x3000
}

impl Class {
    /// Whether the class holds `c`.
    pub open spec fn holds(self, c: char) -> bool {
        match self {
            Class::Space => is_space(c),
            Class::Path => c == '/' || c == '.' || c == '-' || c == '_',
            Class::Only(x) => c == x,
        }
    }

    /// Whether the class holds `c`.
    pub fn has(self, c: char) -> (r: bool)
        ensures
            r == self.holds(c),
    {
        match self {
            Class::Space => {
                let n: u32 = c as u32;
                (0x09 <= n && n <= 0x0d) || n == 0x20 || n == 0x85 || n == 0xa0 || n == 0x1680 || (
                0x2000 <= n && n <= 0x200a) || n == 0x2028 || n == 0x2029 || n == 0x202f || n
                    == 0x205f || n == 0x3000
            },
            Class::Path => c == '/' || c == '.' || c == '-' || c == '_',
            Class::Only(x) => c == x,
        }
    }
}

/// `s` without the characters of the class at its start.
pub open spec fn trim_start(s: Seq<char>, k: Class) -> Seq<char>
    decreases s.len(),
{
    if s.len() > 0 && k.holds(s[0]) {
        trim_start(s.drop_first(), k)
    } else {
        s
    }
}

/// `s` without the characters of the class at its end.
pub open spec fn trim_end(s: Seq<char>, k: Class) -> Seq<char>
    decreases s.len(),
{
    if s.len() > 0 && k.holds(s.last()) {
        trim_end(s.drop_last(), k)
    } else {
        s
    }
}

/// `s` without the characters of the class at either end.
pub open spec fn trim_both(s: Seq<char>, k: Class) -> Seq<char> {
    trim_end(trim_start(s, k), k)
}

/// `s` without white space at either end.
pub open spec fn trim(s: Seq<char>) -> Seq<char> {
    trim_both(s, Class::Space)
}

/// The pieces of `s` between the characters of the class: one more piece than
/// there are such characters.
pub open spec fn split(s: Seq<char>, k: Class) -> Seq<Seq<char>>
    decreases s.len(),
{
    if s.len() == 0 {
        seq![Seq::<char>::empty()]
    } else {
        let p = split(s.drop_last(), k);
        if k.holds(s.last()) {
            p.push(Seq::<char>::empty())
        } else {
            p.drop_last().push(p.last().push(s.last()))
        }
    }
}

/// The texts of `p` that are not empty, in order.
pub open spec fn nonempty(p: Seq<Seq<char>>) -> Seq<Seq<char>>
    decreases p.len(),
{
    if p.len() == 0 {
        Seq::empty()
    } else {
        let rest = nonempty(p.drop_last());
        if p.last().len() > 0 {
            rest.push(p.last())
        } else {
            rest
        }
    }
}

/// The words of `s`: its maximal runs of characters that are not white space.
pub open spec fn words(s: Seq<char>) -> Seq<Seq<char>> {
    nonempty(split(s, Class::Space))
}

/// A line without the carriage return that may end it.
pub open spec fn strip_cr(s: Seq<char>) -> Seq<char> {
    if s.len() > 0 && s.last() == '\r' {
        s.drop_last()
    } else {
        s
    }
}

/// Each line without the carriage return that may end it.
pub open spec fn strip_crs(p: Seq<Seq<char>>) -> Seq<Seq<char>> {
    p.map_values(|l: Seq<char>| strip_cr(l))
}

/// The lines of `s`. A line ends in a line feed, with or without a carriage
/// return before it; the last line need not end in one.
pub open spec fn lines(s: Seq<char>) -> Seq<Seq<char>> {
    let p = split(s, Class::Only('\n'));
    let ended = strip_crs(p.drop_last());
    if p.last().len() == 0 {
        ended
    } else {
        ended.push(p.last())
    }
}

/// The texts of `p` with `sep` between each two.
pub open spec fn join(p: Seq<Seq<char>>, sep: Seq<char>) -> Seq<char>
    decreases p.len(),
{
    if p.len() == 0 {
        Seq::empty()
    } else if p.len() == 1 {
        p[0]
    } else {
        join(p.drop_last(), sep) + sep + p.last()
    }
}

/// All texts of `p`, one after the other.
pub open spec fn concat(p: Seq<Seq<char>>) -> Seq<char>
    decreases p.len(),
{
    if p.len() == 0 {
        Seq::empty()
    } else {
        concat(p.drop_last()) + p.last()
    }
}

/// What follows `pat` where `s` begins with it.
pub open spec fn after_prefix(s: Seq<char>, pat: Seq<char>) -> Option<Seq<char>> {
    if starts_with(s, pat) {
        Some(s.subrange(pat.len() as int, s.len() as int))
    } else {
        None
    }
}

pub proof fn lemma_split_nonempty(s: Seq<char>, k: Class)
    ensures
        split(s, k).len() >= 1,
    decreases s.len(),
{
    if s.len() > 0 {
        lemma_split_nonempty(s.drop_last(), k);
    }
}

/// No piece of a split holds a character of the class.
pub proof fn lemma_split_pieces(s: Seq<char>, k: Class)
    ensures
        forall|i: int, j: int|
            #![trigger split(s, k)[i][j]]
            0 <= i < split(s, k).len() && 0 <= j < split(s, k)[i].len() ==> !k.holds(
                split(s, k)[i][j],
            ),
    decreases s.len(),
{
    if s.len() > 0 {
        lemma_split_pieces(s.drop_last(), k);
        lemma_split_nonempty(s.drop_last(), k);
        let p = split(s.drop_last(), k);
        let q = split(s, k);
        assert forall|i: int, j: int|
            #![trigger q[i][j]]
            0 <= i < q.len() && 0 <= j < q[i].len() implies !k.holds(q[i][j]) by {
            if k.holds(s.last()) {
                if i < p.len() {
                    assert(q[i] == p[i]);
                }
            } else if i < p.len() - 1 {
                assert(q[i] == p[i]);
            } else if j < p.last().len() {
                assert(q[i][j] == p[p.len() - 1][j]);
            }
        }
    }
}

/// A character of the class ends a piece.
pub proof fn lemma_split_push(s: Seq<char>, c: char, k: Class)
    ensures
        k.holds(c) ==> split(s.push(c), k) == split(s, k).push(Seq::<char>::empty()),
        !k.holds(c) ==> split(s.push(c), k) == split(s, k).drop_last().push(
            split(s, k).last().push(c),
        ),
{
    assert(s.push(c).drop_last() =~= s);
}

/// A text without characters of the class lengthens the last piece.
pub proof fn lemma_split_extend(s: Seq<char>, t: Seq<char>, k: Class)
    requires
        forall|i: int| 0 <= i < t.len() ==> !k.holds(#[trigger] t[i]),
    ensures
        split(s + t, k) == split(s, k).drop_last().push(split(s, k).last() + t),
    decreases t.len(),
{
    lemma_split_nonempty(s, k);
    if t.len() == 0 {
        assert(s + t =~= s);
        assert(split(s, k).last() + t =~= split(s, k).last());
        assert(split(s, k).drop_last().push(split(s, k).last()) =~= split(s, k));
    } else {
        let d = t.drop_last();
        lemma_split_extend(s, d, k);
        assert(s + t =~= (s + d).push(t.last()));
        lemma_split_push(s + d, t.last(), k);
        let p = split(s, k).drop_last();
        let l = split(s, k).last();
        assert(p.push(l + d).drop_last() =~= p);
        assert((l + d).push(t.last()) =~= l + t);
    }
}

/// A text with no white space at its ends is trimmed already.
pub proof fn lemma_trim_id(s: Seq<char>, k: Class)
    requires
        s.len() > 0 ==> !k.holds(s[0]) && !k.holds(s.last()),
    ensures
        trim_both(s, k) == s,
{
}

/// A trimmed text is a part of the text that it was trimmed from.
pub proof fn lemma_trim_start_len(s: Seq<char>, k: Class)
    ensures
        trim_start(s, k).len() <= s.len(),
        trim_start(s, k) == s.subrange(s.len() - trim_start(s, k).len(), s.len() as int),
        trim_start(s, k).len() > 0 ==> !k.holds(trim_start(s, k)[0]),
    decreases s.len(),
{
    if s.len() > 0 && k.holds(s[0]) {
        lemma_trim_start_len(s.drop_first(), k);
        let n = trim_start(s, k).len();
        assert(s.drop_first().subrange(s.len() - 1 - n, s.len() - 1) =~= s.subrange(
            s.len() - n,
            s.len() as int,
        ));
    } else {
        assert(s.subrange(0, s.len() as int) =~= s);
    }
}

pub proof fn lemma_trim_end_len(s: Seq<char>, k: Class)
    ensures
        trim_end(s, k).len() <= s.len(),
        trim_end(s, k) == s.take(trim_end(s, k).len() as int),
        trim_end(s, k).len() > 0 ==> !k.holds(trim_end(s, k).last()),
    decreases s.len(),
{
    if s.len() > 0 && k.holds(s.last()) {
        lemma_trim_end_len(s.drop_last(), k);
        let n = trim_end(s, k).len() as int;
        assert(s.drop_last().take(n) =~= s.take(n));
    } else {
        assert(s.take(s.len() as int) =~= s);
    }
}

/// Trimming leaves nothing to trim: neither end of the result is of the class.
pub proof fn lemma_trim_ends(s: Seq<char>, k: Class)
    ensures
        trim_both(s, k).len() > 0 ==> !k.holds(trim_both(s, k)[0]) && !k.holds(
            trim_both(s, k).last(),
        ),
{
    lemma_trim_start_len(s, k);
    lemma_trim_end_len(trim_start(s, k), k);
}

/// Trimming twice is trimming once.
pub proof fn law_trim_idempotent(s: Seq<char>, k: Class)
    ensures
        trim_both(trim_both(s, k), k) == trim_both(s, k),
{
    lemma_trim_ends(s, k);
}

pub proof fn lemma_nonempty_all(p: Seq<Seq<char>>)
    ensures
        forall|i: int| 0 <= i < nonempty(p).len() ==> (#[trigger] nonempty(p)[i]).len() > 0,
        nonempty(p).len() <= p.len(),
    decreases p.len(),
{
    if p.len() > 0 {
        lemma_nonempty_all(p.drop_last());
    }
}

/// `s` without the characters of the class at its start.
pub fn trimmed_start(s: &str, k: Class) -> (r: String)
    ensures
        r@ == trim_start(s@, k),
{
    let cs = chars_of(s);
    let mut i: usize = 0;
    assert(s@.subrange(0, s@.len() as int) =~= s@);
    while i < cs.len() && k.has(cs[i])
        invariant
            cs@ == s@,
            i <= cs@.len(),
            trim_start(s@, k) == trim_start(s@.subrange(i as int, s@.len() as int), k),
        decreases cs@.len() - i,
    {
        assert(s@.subrange(i as int, s@.len() as int).drop_first() =~= s@.subrange(
            i + 1,
            s@.len() as int,
        ));
        i = i + 1;
    }
    slice_text(&cs, i, cs.len())
}

/// `s` without the characters of the class at its end.
pub fn trimmed_end(s: &str, k: Class) -> (r: String)
    ensures
        r@ == trim_end(s@, k),
{
    let cs = chars_of(s);
    let mut i: usize = cs.len();
    assert(s@.subrange(0, s@.len() as int) =~= s@);
    while i > 0 && k.has(cs[i - 1])
        invariant
            cs@ == s@,
            i <= cs@.len(),
            trim_end(s@, k) == trim_end(s@.subrange(0, i as int), k),
        decreases i,
    {
        assert(s@.subrange(0, i as int).drop_last() =~= s@.subrange(0, i - 1));
        i = i - 1;
    }
    slice_text(&cs, 0, i)
}

/// `s` without the characters of the class at either end.
pub fn trimmed_both(s: &str, k: Class) -> (r: String)
    ensures
        r@ == trim_both(s@, k),
{
    trimmed_end(trimmed_start(s, k).as_str(), k)
}

/// `s` without white space at either end.
pub fn trimmed(s: &str) -> (r: String)
    ensures
        r@ == trim(s@),
{
    trimmed_both(s, Class::Space)
}

/// The pieces of `s` between the characters of the class.
pub fn pieces(s: &str, k: Class) -> (r: Vec<String>)
    ensures
        texts(r@) == split(s@, k),
{
    let cs = chars_of(s);
    let mut r: Vec<String> = Vec::new();
    let mut cur = String::new();
    let mut i: usize = 0;
    assert(texts(r@).push(cur@) =~= split(s@.take(0), k));
    while i < cs.len()
        invariant
            cs@ == s@,
            i <= cs@.len(),
            texts(r@).push(cur@) == split(s@.take(i as int), k),
        decreases cs@.len() - i,
    {
        let c = cs[i];
        let ghost p = split(s@.take(i as int), k);
        assert(s@.take(i + 1).drop_last() =~= s@.take(i as int));
        if k.has(c) {
            let ghost before = r@;
            r.push(cur);
            cur = String::new();
            assert(texts(r@) =~= texts(before).push(p.last()));
            assert(texts(r@) =~= p);
        } else {
            cur.push(c);
            assert(p.drop_last() =~= texts(r@));
        }
        i = i + 1;
    }
    let ghost before = r@;
    let ghost last = cur@;
    r.push(cur);
    assert(texts(r@) =~= texts(before).push(last));
    assert(s@.take(s@.len() as int) =~= s@);
    r
}

/// The texts of `v` that are not empty, in order.
pub fn kept_nonempty(v: Vec<String>) -> (r: Vec<String>)
    ensures
        texts(r@) == nonempty(texts(v@)),
{
    let mut r: Vec<String> = Vec::new();
    let mut i: usize = 0;
    let ghost all = texts(v@);
    while i < v.len()
        invariant
            i <= v@.len(),
            all == texts(v@),
            texts(r@) == nonempty(all.take(i as int)),
        decreases v@.len() - i,
    {
        assert(all.take(i + 1).drop_last() =~= all.take(i as int));
        if !v[i].as_str().is_empty() {
            let ghost before = r@;
            r.push(v[i].clone());
            assert(texts(r@) =~= texts(before).push(v@[i as int]@));
        }
        i = i + 1;
    }
    assert(all.take(all.len() as int) =~= all);
    r
}

/// The words of `s`.
pub fn words_of(s: &str) -> (r: Vec<String>)
    ensures
        texts(r@) == words(s@),
{
    kept_nonempty(pieces(s, Class::Space))
}

/// A line without the carriage return that may end it.
pub fn without_cr(s: &String) -> (r: String)
    ensures
        r@ == strip_cr(s@),
{
    let cs = chars_of(s.as_str());
    if cs.len() > 0 && cs[cs.len() - 1] == '\r' {
        let r = slice_text(&cs, 0, cs.len() - 1);
        assert(r@ =~= s@.drop_last());
        r
    } else {
        s.clone()
    }
}

/// The lines of `s`.
pub fn lines_of(s: &str) -> (r: Vec<String>)
    ensures
        texts(r@) == lines(s@),
{
    let p = pieces(s, Class::Only('\n'));
    proof {
        lemma_split_nonempty(s@, Class::Only('\n'));
    }
    let ghost all = split(s@, Class::Only('\n'));
    let n: usize = p.len() - 1;
    let mut r: Vec<String> = Vec::new();
    let mut i: usize = 0;
    while i < n
        invariant
            texts(p@) == all,
            n == p@.len() - 1,
            i <= n,
            texts(r@) == strip_crs(all.take(i as int)),
        decreases n - i,
    {
        let ghost before = r@;
        let l = without_cr(&p[i]);
        let ghost t = l@;
        r.push(l);
        assert(texts(p@)[i as int] == p@[i as int]@);
        assert(texts(r@) =~= texts(before).push(t));
        assert(strip_crs(all.take(i + 1)) =~= strip_crs(all.take(i as int)).push(
            strip_cr(all[i as int]),
        ));
        i = i + 1;
    }
    assert(all.take(n as int) =~= all.drop_last());
    assert(texts(p@)[n as int] == p@[n as int]@);
    if !p[n].as_str().is_empty() {
        let ghost before = r@;
        r.push(p[n].clone());
        assert(texts(r@) =~= texts(before).push(p@[n as int]@));
    }
    r
}

/// The first line of `s`, or the empty text.
pub open spec fn first_line(s: Seq<char>) -> Seq<char> {
    if lines(s).len() > 0 {
        lines(s)[0]
    } else {
        Seq::empty()
    }
}

/// The first line of `s`, or the empty text.
pub fn first_line_of(s: &str) -> (r: String)
    ensures
        r@ == first_line(s@),
{
    let l = lines_of(s);
    if l.len() > 0 {
        assert(texts(l@)[0] == l@[0]@);
        l[0].clone()
    } else {
        String::new()
    }
}

/// The texts of `v` with `sep` between each two.
pub fn joined(v: &Vec<String>, sep: &str) -> (r: String)
    ensures
        r@ == join(texts(v@), sep@),
{
    let mut r = String::new();
    let mut i: usize = 0;
    let ghost all = texts(v@);
    while i < v.len()
        invariant
            i <= v@.len(),
            all == texts(v@),
            r@ == join(all.take(i as int), sep@),
        decreases v@.len() - i,
    {
        assert(all.take(i + 1).drop_last() =~= all.take(i as int));
        assert(all[i as int] == v@[i as int]@);
        if i > 0 {
            r.append(sep);
        }
        r.append(v[i].as_str());
        assert(r@ =~= join(all.take(i + 1), sep@)) by {
            assert(join(all.take(0), sep@) =~= Seq::<char>::empty());
        }
        i = i + 1;
    }
    assert(all.take(all.len() as int) =~= all);
    r
}

/// What follows `pat` where `s` begins with it.
pub fn text_after_prefix(s: &str, pat: &str) -> (r: Option<String>)
    ensures
        match r {
            Some(t) => after_prefix(s@, pat@) == Some(t@),
            None => after_prefix(s@, pat@) is None,
        },
{
    let a = chars_of(s);
    let b = chars_of(pat);
    if occurs_here(&a, &b, 0) {
        Some(slice_text(&a, b.len(), a.len()))
    } else {
        None
    }
}

} // verus!
