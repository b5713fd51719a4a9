//! Substring search.

use vstd::prelude::*;

use crate::text::basic::{chars_of, slice_text};

verus! {

/// `pat` stands in `s` at position `i`.
pub open spec fn occurs_at(s: Seq<char>, pat: Seq<char>, i: int) -> bool {
    &&& 0 <= i
    &&& i + pat.len() <= s.len()
    &&& s.subrange(i, i + pat.len()) =~= pat
}

/// `pat` stands somewhere in `s`.
pub open spec fn contains(s: Seq<char>, pat: Seq<char>) -> bool {
    exists|i: int| #[trigger] occurs_at(s, pat, i)
}

/// The first position at or after `from` at which `pat` stands in `s`.
pub open spec fn find_from(s: Seq<char>, pat: Seq<char>, from: int) -> Option<int>
    decreases s.len() - from,
{
    if from < 0 || from + pat.len() > s.len() {
        None
    } else if occurs_at(s, pat, from) {
        Some(from)
    } else {
        find_from(s, pat, from + 1)
    }
}

/// `s` begins with `pat`.
pub open spec fn starts_with(s: Seq<char>, pat: Seq<char>) -> bool {
    occurs_at(s, pat, 0)
}

/// `s` ends with `pat`.
pub open spec fn ends_with(s: Seq<char>, pat: Seq<char>) -> bool {
    occurs_at(s, pat, s.len() - pat.len())
}

/// The text between the first `open` and the first `close` that follows it.
pub open spec fn between(s: Seq<char>, open: Seq<char>, close: Seq<char>) -> Option<Seq<char>> {
    match find_from(s, open, 0) {
        None => None,
        Some(i) => match find_from(s, close, i + open.len()) {
            None => None,
            Some(j) => Some(s.subrange(i + open.len(), j)),
        },
    }
}

/// How many times `pat` stands in `s`, counting from `from` and not
/// overlapping (each search resumes behind the last hit).
pub open spec fn count_from(s: Seq<char>, pat: Seq<char>, from: int) -> nat
    decreases s.len() - from,
{
    if pat.len() == 0 {
        0
    } else {
        match find_from(s, pat, from) {
            Some(i) => if from <= i && i + pat.len() <= s.len() {
                1 + count_from(s, pat, i + pat.len())
            } else {
                0
            },
            None => 0,
        }
    }
}

/// A search result is the least position that qualifies; no result means that
/// no position qualifies.
pub proof fn lemma_find_least(s: Seq<char>, pat: Seq<char>, from: int)
    requires
        0 <= from,
    ensures
        match find_from(s, pat, from) {
            Some(i) => from <= i && occurs_at(s, pat, i) && forall|j: int|
                from <= j < i ==> !#[trigger] occurs_at(s, pat, j),
            None => forall|j: int| from <= j ==> !#[trigger] occurs_at(s, pat, j),
        },
    decreases s.len() - from,
{
    if from + pat.len() > s.len() {
    } else if occurs_at(s, pat, from) {
    } else {
        lemma_find_least(s, pat, from + 1);
    }
}

/// A text is contained exactly when a search from the start finds it.
pub proof fn lemma_contains_is_find(s: Seq<char>, pat: Seq<char>)
    ensures
        contains(s, pat) == (find_from(s, pat, 0) is Some),
{
    lemma_find_least(s, pat, 0);
    if contains(s, pat) {
        let i = choose|i: int| #[trigger] occurs_at(s, pat, i);
        assert(occurs_at(s, pat, i));
    }
}

/// What the first part contains, the whole contains.
pub proof fn lemma_contains_left(a: Seq<char>, b: Seq<char>, pat: Seq<char>)
    requires
        contains(a, pat),
    ensures
        contains(a + b, pat),
{
    let i = choose|i: int| #[trigger] occurs_at(a, pat, i);
    assert((a + b).subrange(i, i + pat.len()) =~= a.subrange(i, i + pat.len()));
    assert(occurs_at(a + b, pat, i));
}

/// What the second part contains, the whole contains.
pub proof fn lemma_contains_right(a: Seq<char>, b: Seq<char>, pat: Seq<char>)
    requires
        contains(b, pat),
    ensures
        contains(a + b, pat),
{
    let i = choose|i: int| #[trigger] occurs_at(b, pat, i);
    assert((a + b).subrange(a.len() + i, a.len() + i + pat.len()) =~= b.subrange(
        i,
        i + pat.len(),
    ));
    assert(occurs_at(a + b, pat, a.len() + i));
}

/// Every text contains itself.
pub proof fn lemma_contains_self(s: Seq<char>)
    ensures
        contains(s, s),
{
    assert(s.subrange(0, s.len() as int) =~= s);
    assert(occurs_at(s, s, 0));
}

/// A pattern stands in a text exactly where the text is something, then the
/// pattern, then something.
pub proof fn law_occurrence(before: Seq<char>, pat: Seq<char>, after: Seq<char>, s: Seq<char>, i: int)
    ensures
        occurs_at(before + pat + after, pat, before.len() as int),
        contains(before + pat + after, pat),
        occurs_at(s, pat, i) ==> s == s.take(i) + pat + s.skip(i + pat.len()),
{
    let t = before + pat + after;
    assert(t.subrange(before.len() as int, (before.len() + pat.len()) as int) =~= pat);
    assert(occurs_at(t, pat, before.len() as int));
    if occurs_at(s, pat, i) {
        assert(s.subrange(i, i + pat.len()) =~= pat);
        assert forall|k: int| 0 <= k < s.len() implies s[k] == (s.take(i) + pat + s.skip(
            i + pat.len(),
        ))[k] by {
            if i <= k < i + pat.len() {
                assert(s.subrange(i, i + pat.len())[k - i] == s[k]);
            }
        }
        assert(s =~= s.take(i) + pat + s.skip(i + pat.len()));
    }
}

/// The places in `p` hold the pattern and do not overlap.
pub open spec fn apart(s: Seq<char>, pat: Seq<char>, p: Seq<int>) -> bool {
    &&& forall|i: int| 0 <= i < p.len() ==> occurs_at(s, pat, #[trigger] p[i])
    &&& forall|i: int, j: int|
        0 <= i < j < p.len() ==> (#[trigger] p[i]) + pat.len() <= #[trigger] p[j]
}

/// The count of a pattern is the largest number of places that hold it without
/// overlapping: no such list is longer.
pub proof fn law_count_is_largest(s: Seq<char>, pat: Seq<char>, p: Seq<int>)
    requires
        pat.len() > 0,
        apart(s, pat, p),
    ensures
        count_from(s, pat, 0) >= p.len(),
{
    lemma_count_at_least(s, pat, 0, p);
}

proof fn lemma_count_at_least(s: Seq<char>, pat: Seq<char>, from: int, p: Seq<int>)
    requires
        pat.len() > 0,
        0 <= from,
        apart(s, pat, p),
        p.len() > 0 ==> from <= p[0],
    ensures
        count_from(s, pat, from) >= p.len(),
    decreases s.len() - from,
{
    if p.len() > 0 {
        lemma_find_least(s, pat, from);
        assert(occurs_at(s, pat, p[0]));
        let i = find_from(s, pat, from)->0;
        let rest = p.drop_first();
        assert forall|k: int| 0 <= k < rest.len() implies occurs_at(s, pat, #[trigger] rest[k]) by {
            assert(rest[k] == p[k + 1]);
        }
        assert forall|a: int, b: int| 0 <= a < b < rest.len() implies (#[trigger] rest[a])
            + pat.len() <= #[trigger] rest[b] by {
            assert(rest[a] == p[a + 1] && rest[b] == p[b + 1]);
        }
        if rest.len() > 0 {
            assert(p[0] + pat.len() <= p[1]);
        }
        lemma_count_at_least(s, pat, i + pat.len(), rest);
    }
}

/// There is a list of places that hold the pattern without overlapping and that
/// is as long as its count.
pub proof fn law_count_is_reached(s: Seq<char>, pat: Seq<char>)
    requires
        pat.len() > 0,
    ensures
        exists|p: Seq<int>| #[trigger] apart(s, pat, p) && p.len() == count_from(s, pat, 0),
{
    let p = lemma_count_places(s, pat, 0);
    assert(apart(s, pat, p));
}

proof fn lemma_count_places(s: Seq<char>, pat: Seq<char>, from: int) -> (p: Seq<int>)
    requires
        pat.len() > 0,
        0 <= from,
    ensures
        apart(s, pat, p),
        p.len() == count_from(s, pat, from),
        p.len() > 0 ==> from <= p[0],
    decreases s.len() - from,
{
    lemma_find_least(s, pat, from);
    match find_from(s, pat, from) {
        None => Seq::empty(),
        Some(i) => {
            let rest = lemma_count_places(s, pat, i + pat.len());
            let p = seq![i] + rest;
            assert forall|k: int| 0 <= k < p.len() implies occurs_at(s, pat, #[trigger] p[k]) by {
                if k > 0 {
                    assert(p[k] == rest[k - 1]);
                }
            }
            assert forall|a: int, b: int| 0 <= a < b < p.len() implies (#[trigger] p[a])
                + pat.len() <= #[trigger] p[b] by {
                assert(p[b] == rest[b - 1]);
                if a > 0 {
                    assert(p[a] == rest[a - 1]);
                } else if b > 1 {
                    assert(rest[0] + pat.len() <= rest[b - 1]);
                }
            }
            p
        },
    }
}

/// Whether `pat` stands in `s` at `i`.
pub fn occurs_here(s: &Vec<char>, pat: &Vec<char>, i: usize) -> (r: bool)
    ensures
        r == occurs_at(s@, pat@, i as int),
{
    let n: usize = s.len();
    if i > n || pat.len() > n - i {
        return false;
    }
    let mut k: usize = 0;
    while k < pat.len()
        invariant
            i + pat@.len() <= n == s@.len(),
            k <= pat@.len(),
            forall|j: int| 0 <= j < k ==> s@[i + j] == pat@[j],
        decreases pat@.len() - k,
    {
        if s[i + k] != pat[k] {
            assert(s@.subrange(i as int, i + pat@.len())[k as int] != pat@[k as int]);
            return false;
        }
        k = k + 1;
    }
    assert(s@.subrange(i as int, i + pat@.len()) =~= pat@);
    true
}

/// The first position at or after `from` at which `pat` stands in `s`.
pub fn find_chars(s: &Vec<char>, pat: &Vec<char>, from: usize) -> (r: Option<usize>)
    ensures
        match r {
            Some(i) => find_from(s@, pat@, from as int) == Some(i as int) && from <= i && i
                + pat@.len() <= s@.len(),
            None => find_from(s@, pat@, from as int) is None,
        },
{
    let mut i: usize = from;
    while i <= s.len() && pat.len() <= s.len() - i
        invariant
            from <= i,
            find_from(s@, pat@, from as int) == find_from(s@, pat@, i as int),
            i <= s@.len() || i == from,
        decreases s@.len() + 1 - i,
    {
        if occurs_here(s, pat, i) {
            return Some(i);
        }
        if i == s.len() {
            return None;
        }
        i = i + 1;
    }
    None
}

/// Whether `pat` stands somewhere in `s`.
pub fn has(s: &str, pat: &str) -> (r: bool)
    ensures
        r == contains(s@, pat@),
{
    let r = find_chars(&chars_of(s), &chars_of(pat), 0);
    proof {
        lemma_contains_is_find(s@, pat@);
    }
    r.is_some()
}

/// Whether `s` begins with `pat`.
pub fn begins(s: &str, pat: &str) -> (r: bool)
    ensures
        r == starts_with(s@, pat@),
{
    occurs_here(&chars_of(s), &chars_of(pat), 0)
}

/// Whether `s` ends with `pat`.
pub fn ends(s: &str, pat: &str) -> (r: bool)
    ensures
        r == ends_with(s@, pat@),
{
    let a = chars_of(s);
    let b = chars_of(pat);
    if b.len() > a.len() {
        return false;
    }
    occurs_here(&a, &b, a.len() - b.len())
}

/// The text between the first `open` and the first `close` that follows it.
pub fn text_between(s: &str, open: &str, close: &str) -> (r: Option<String>)
    ensures
        match r {
            Some(t) => between(s@, open@, close@) == Some(t@),
            None => between(s@, open@, close@) is None,
        },
{
    let t = chars_of(s);
    let o = chars_of(open);
    match find_chars(&t, &o, 0) {
        None => None,
        Some(i) => {
            let start: usize = i + o.len();
            match find_chars(&t, &chars_of(close), start) {
                None => None,
                Some(j) => Some(slice_text(&t, start, j)),
            }
        },
    }
}

/// How many times `pat` stands in `s`, not overlapping.
pub fn count_text(s: &str, pat: &str) -> (r: usize)
    requires
        pat@.len() > 0,
    ensures
        r == count_from(s@, pat@, 0),
{
    let t = chars_of(s);
    let p = chars_of(pat);
    let total: usize = t.len();
    let mut n: usize = 0;
    let mut from: usize = 0;
    loop
        invariant
            p@ == pat@,
            t@ == s@,
            p@.len() > 0,
            total == t@.len(),
            n <= from <= total,
            count_from(s@, pat@, 0) == n + count_from(s@, pat@, from as int),
        ensures
            n == count_from(s@, pat@, 0),
        decreases t@.len() - from,
    {
        match find_chars(&t, &p, from) {
            None => {
                break;
            },
            Some(i) => {
                n = n + 1;
                from = i + p.len();
            },
        }
    }
    n
}

} // verus!
