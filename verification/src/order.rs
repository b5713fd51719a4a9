//! Stable ordering of rows by a number and a text.

use vstd::prelude::*;

use crate::text::basic::chars_of;

verus! {

/// What rows are ordered by: first a number, then a text.
pub struct SortKey {
    pub rank: i64,
    pub text: String,
}

impl View for SortKey {
    type V = (int, Seq<char>);

    open spec fn view(&self) -> (int, Seq<char>) {
        (self.rank as int, self.text@)
    }
}

/// The views of a list of keys.
pub open spec fn key_views(v: Seq<SortKey>) -> Seq<(int, Seq<char>)> {
    v.map_values(|k: SortKey| k@)
}

/// `a` is not behind `b` in the order of their characters.
pub open spec fn text_le(a: Seq<char>, b: Seq<char>) -> bool
    decreases a.len(),
{
    if a.len() == 0 {
        true
    } else if b.len() == 0 {
        false
    } else if a[0] != b[0] {
        a[0] < b[0]
    } else {
        text_le(a.drop_first(), b.drop_first())
    }
}

/// `a` is not behind `b`.
pub open spec fn key_le(a: (int, Seq<char>), b: (int, Seq<char>)) -> bool {
    a.0 < b.0 || (a.0 == b.0 && text_le(a.1, b.1))
}

/// The order `o` with `x` put in behind all that are not behind it.
pub open spec fn insert_in(o: Seq<int>, keys: Seq<(int, Seq<char>)>, x: int) -> Seq<int>
    decreases o.len(),
{
    if o.len() == 0 || key_le(keys[o.last()], keys[x]) {
        o.push(x)
    } else {
        insert_in(o.drop_last(), keys, x).push(o.last())
    }
}

/// The places of `keys` in ascending order; equal keys keep their order.
pub open spec fn stable_order(keys: Seq<(int, Seq<char>)>) -> Seq<int>
    decreases keys.len(),
{
    if keys.len() == 0 {
        Seq::empty()
    } else {
        insert_in(stable_order(keys.drop_last()), keys, keys.len() - 1)
    }
}

/// The elements of `s` at the places of `o`, in that order.
pub open spec fn pick<A>(s: Seq<A>, o: Seq<int>) -> Seq<A> {
    o.map_values(|i: int| s[i])
}

pub proof fn lemma_text_le_total(a: Seq<char>, b: Seq<char>)
    ensures
        text_le(a, b) || text_le(b, a),
    decreases a.len(),
{
    if a.len() > 0 && b.len() > 0 && a[0] == b[0] {
        lemma_text_le_total(a.drop_first(), b.drop_first());
    }
}

pub proof fn lemma_text_le_trans(a: Seq<char>, b: Seq<char>, c: Seq<char>)
    requires
        text_le(a, b),
        text_le(b, c),
    ensures
        text_le(a, c),
    decreases a.len(),
{
    if a.len() > 0 && b.len() > 0 && c.len() > 0 && a[0] == b[0] && b[0] == c[0] {
        lemma_text_le_trans(a.drop_first(), b.drop_first(), c.drop_first());
    }
}

pub proof fn lemma_key_le_trans(a: (int, Seq<char>), b: (int, Seq<char>), c: (int, Seq<char>))
    requires
        key_le(a, b),
        key_le(b, c),
    ensures
        key_le(a, c),
{
    if a.0 == b.0 && b.0 == c.0 {
        lemma_text_le_trans(a.1, b.1, c.1);
    }
}

/// The places in `o` are those below `n`, each once.
pub open spec fn is_arrangement(o: Seq<int>, n: int) -> bool {
    &&& o.len() == n
    &&& o.no_duplicates()
    &&& forall|i: int| 0 <= i < o.len() ==> 0 <= #[trigger] o[i] < n
}

/// The keys ascend along `o`, and equal keys stand in the order they came in.
pub open spec fn ascends(o: Seq<int>, keys: Seq<(int, Seq<char>)>) -> bool {
    forall|i: int, j: int|
        0 <= i < j < o.len() ==> key_le(keys[#[trigger] o[i]], keys[#[trigger] o[j]]) && (key_le(
            keys[o[j]],
            keys[o[i]],
        ) ==> o[i] < o[j])
}

proof fn lemma_insert_in(o: Seq<int>, keys: Seq<(int, Seq<char>)>, x: int)
    requires
        0 <= x < keys.len(),
        o.no_duplicates(),
        forall|i: int| 0 <= i < o.len() ==> 0 <= #[trigger] o[i] < x,
        ascends(o, keys),
    ensures
        insert_in(o, keys, x).len() == o.len() + 1,
        insert_in(o, keys, x).no_duplicates(),
        forall|i: int|
            0 <= i < insert_in(o, keys, x).len() ==> #[trigger] insert_in(o, keys, x)[i] == x
                || o.contains(insert_in(o, keys, x)[i]),
        ascends(insert_in(o, keys, x), keys),
    decreases o.len(),
{
    let r = insert_in(o, keys, x);
    if o.len() == 0 {
    } else if key_le(keys[o.last()], keys[x]) {
        assert forall|i: int, j: int| 0 <= i < j < r.len() implies key_le(
            keys[#[trigger] r[i]],
            keys[#[trigger] r[j]],
        ) && (key_le(keys[r[j]], keys[r[i]]) ==> r[i] < r[j]) by {
            if j == o.len() {
                if i < o.len() - 1 {
                    assert(key_le(keys[o[i]], keys[o[o.len() - 1]]));
                    lemma_key_le_trans(keys[o[i]], keys[o.last()], keys[x]);
                }
            } else {
                assert(r[i] == o[i] && r[j] == o[j]);
            }
        }
        assert forall|i: int| 0 <= i < r.len() implies #[trigger] r[i] == x || o.contains(r[i]) by {
            if i < o.len() {
                assert(o[i] == r[i]);
            }
        }
    } else {
        let d = o.drop_last();
        assert(ascends(d, keys)) by {
            assert forall|i: int, j: int| 0 <= i < j < d.len() implies key_le(
                keys[#[trigger] d[i]],
                keys[#[trigger] d[j]],
            ) && (key_le(keys[d[j]], keys[d[i]]) ==> d[i] < d[j]) by {
                assert(d[i] == o[i] && d[j] == o[j]);
            }
        }
        lemma_insert_in(d, keys, x);
        let q = insert_in(d, keys, x);
        let z = o.last();
        assert(r == q.push(z));
        lemma_text_le_total(keys[z].1, keys[x].1);
        assert(key_le(keys[x], keys[z]));
        assert forall|i: int| 0 <= i < q.len() implies #[trigger] q[i] != z by {
            if q[i] != x {
                assert(d.contains(q[i]));
                let a = choose|a: int| 0 <= a < d.len() && d[a] == q[i];
                assert(o[a] == q[i]);
                assert(o[o.len() - 1] == z);
            }
        }
        assert forall|i: int, j: int| 0 <= i < j < r.len() implies key_le(
            keys[#[trigger] r[i]],
            keys[#[trigger] r[j]],
        ) && (key_le(keys[r[j]], keys[r[i]]) ==> r[i] < r[j]) by {
            if j == q.len() {
                assert(r[i] == q[i]);
                if q[i] != x {
                    assert(d.contains(q[i]));
                    let a = choose|a: int| 0 <= a < d.len() && d[a] == q[i];
                    assert(o[a] == q[i]);
                    assert(o[o.len() - 1] == z);
                }
            } else {
                assert(r[i] == q[i] && r[j] == q[j]);
            }
        }
        assert forall|i: int| 0 <= i < r.len() implies #[trigger] r[i] == x || o.contains(r[i]) by {
            if i < q.len() {
                assert(q[i] == r[i]);
                if q[i] != x {
                    let a = choose|a: int| 0 <= a < d.len() && d[a] == q[i];
                    assert(o[a] == q[i]);
                }
            } else {
                assert(o[o.len() - 1] == z);
            }
        }
    }
}

/// Texts are ordered by the first character in which they differ, and one that
/// the other only continues comes first.
pub proof fn law_text_order(a: Seq<char>, b: Seq<char>, k: int)
    requires
        0 <= k <= a.len(),
        k <= b.len(),
        a.take(k) == b.take(k),
    ensures
        k < a.len() && k < b.len() && a[k] < b[k] ==> text_le(a, b) && !text_le(b, a),
        k == a.len() ==> text_le(a, b),
        k == a.len() && k < b.len() ==> !text_le(b, a),
    decreases k,
{
    if k > 0 {
        assert(a.take(k)[0] == a[0] && b.take(k)[0] == b[0]);
        assert(a.drop_first().take(k - 1) =~= a.take(k).drop_first());
        assert(b.drop_first().take(k - 1) =~= b.take(k).drop_first());
        law_text_order(a.drop_first(), b.drop_first(), k - 1);
    }
}

/// Rows that are picked in stable order stand by the number, then by the text.
pub proof fn lemma_picked_order<A>(s: Seq<A>, keys: Seq<(int, Seq<char>)>, x: int, y: int)
    requires
        keys.len() == s.len(),
        0 <= x < y < s.len(),
    ensures
        pick(s, stable_order(keys)).len() == s.len(),
        0 <= stable_order(keys)[x] < s.len(),
        0 <= stable_order(keys)[y] < s.len(),
        stable_order(keys)[x] != stable_order(keys)[y],
        pick(s, stable_order(keys))[x] == s[stable_order(keys)[x]],
        pick(s, stable_order(keys))[y] == s[stable_order(keys)[y]],
        key_le(keys[stable_order(keys)[x]], keys[stable_order(keys)[y]]),
        key_le(keys[stable_order(keys)[y]], keys[stable_order(keys)[x]]) ==> stable_order(keys)[x]
            < stable_order(keys)[y],
{
    law_stable_order(keys);
    let o = stable_order(keys);
    assert(o[x] != o[y]);
    assert(key_le(keys[o[x]], keys[o[y]]));
}

/// The order holds every place once, ascends, and keeps equal keys in the order
/// in which they came.
pub proof fn law_stable_order(keys: Seq<(int, Seq<char>)>)
    ensures
        is_arrangement(stable_order(keys), keys.len() as int),
        ascends(stable_order(keys), keys),
    decreases keys.len(),
{
    if keys.len() > 0 {
        let n = keys.len() - 1;
        let d = keys.drop_last();
        law_stable_order(d);
        let o = stable_order(d);
        assert(ascends(o, keys)) by {
            assert forall|i: int, j: int| 0 <= i < j < o.len() implies key_le(
                keys[#[trigger] o[i]],
                keys[#[trigger] o[j]],
            ) && (key_le(keys[o[j]], keys[o[i]]) ==> o[i] < o[j]) by {
                assert(d[o[i]] == keys[o[i]]);
                assert(d[o[j]] == keys[o[j]]);
            }
        }
        lemma_insert_in(o, keys, n);
        let r = stable_order(keys);
        assert forall|i: int| 0 <= i < r.len() implies 0 <= #[trigger] r[i] < keys.len() by {
            if r[i] != n {
                assert(o.contains(r[i]));
            }
        }
    }
}

/// Distinct places below `n` are at most `n`.
pub proof fn lemma_distinct_below(o: Seq<int>, n: int)
    requires
        o.no_duplicates(),
        0 <= n,
        forall|i: int| 0 <= i < o.len() ==> 0 <= #[trigger] o[i] < n,
    ensures
        o.len() <= n,
{
    let below = vstd::set_lib::set_int_range(0, n);
    vstd::set_lib::lemma_int_range(0, n);
    o.unique_seq_to_set();
    assert(o.to_set().subset_of(below)) by {
        assert forall|x: int| o.to_set().contains(x) implies below.contains(x) by {
            let i = choose|i: int| 0 <= i < o.len() && o[i] == x;
            assert(o[i] == x);
        }
    }
    vstd::set_lib::lemma_len_subset(o.to_set(), below);
}

/// An arrangement of the places below `n` holds each of them.
pub proof fn lemma_arrangement_onto(o: Seq<int>, n: int)
    requires
        is_arrangement(o, n),
    ensures
        forall|i: int| 0 <= i < n ==> #[trigger] o.contains(i),
{
    let below = vstd::set_lib::set_int_range(0, n);
    vstd::set_lib::lemma_int_range(0, n);
    o.unique_seq_to_set();
    assert(o.to_set().subset_of(below)) by {
        assert forall|x: int| o.to_set().contains(x) implies below.contains(x) by {
            let i = choose|i: int| 0 <= i < o.len() && o[i] == x;
            assert(o[i] == x);
        }
    }
    vstd::set_lib::lemma_subset_equality(o.to_set(), below);
    assert forall|i: int| 0 <= i < n implies #[trigger] o.contains(i) by {
        assert(below.contains(i));
        assert(o.to_set().contains(i));
    }
}

/// Behind the point of insertion every key is greater, so the new place goes
/// there.
proof fn lemma_insert_at(o: Seq<int>, keys: Seq<(int, Seq<char>)>, x: int, p: int)
    requires
        0 <= p <= o.len(),
        p > 0 ==> key_le(keys[o[p - 1]], keys[x]),
        forall|i: int| p <= i < o.len() ==> !key_le(keys[#[trigger] o[i]], keys[x]),
    ensures
        insert_in(o, keys, x) == o.insert(p, x),
    decreases o.len(),
{
    if p == o.len() {
        assert(o.insert(p, x) =~= o.push(x));
    } else {
        assert(!key_le(keys[o[o.len() - 1]], keys[x]));
        lemma_insert_at(o.drop_last(), keys, x, p);
        assert(o.insert(p, x) =~= o.drop_last().insert(p, x).push(o.last()));
    }
}

/// Whether `a` is not behind `b` in the order of their characters.
pub fn text_not_behind(a: &str, b: &str) -> (r: bool)
    ensures
        r == text_le(a@, b@),
{
    let x = chars_of(a);
    let y = chars_of(b);
    let mut i: usize = 0;
    assert(x@.skip(0) =~= a@);
    assert(y@.skip(0) =~= b@);
    while i < x.len() && i < y.len()
        invariant
            i <= x@.len(),
            i <= y@.len(),
            text_le(a@, b@) == text_le(x@.skip(i as int), y@.skip(i as int)),
        decreases x@.len() - i,
    {
        if x[i] != y[i] {
            return x[i] < y[i];
        }
        assert(x@.skip(i as int).drop_first() =~= x@.skip(i + 1));
        assert(y@.skip(i as int).drop_first() =~= y@.skip(i + 1));
        i = i + 1;
    }
    i == x.len()
}

/// Whether `a` is not behind `b`.
pub fn key_not_behind(a: &SortKey, b: &SortKey) -> (r: bool)
    ensures
        r == key_le(a@, b@),
{
    a.rank < b.rank || (a.rank == b.rank && text_not_behind(a.text.as_str(), b.text.as_str()))
}

/// Places as mathematical integers.
pub open spec fn places(o: Seq<usize>) -> Seq<int> {
    o.map_values(|i: usize| i as int)
}

/// The places of `keys` in ascending order; equal keys keep their order.
pub fn order_of(keys: &Vec<SortKey>) -> (r: Vec<usize>)
    ensures
        places(r@) == stable_order(key_views(keys@)),
        r@.len() == keys@.len(),
        forall|i: int| 0 <= i < r@.len() ==> (#[trigger] r@[i]) < keys@.len(),
{
    let mut o: Vec<usize> = Vec::new();
    let mut n: usize = 0;
    let ghost all = key_views(keys@);
    assert(places(o@) =~= stable_order(all.take(0)));
    while n < keys.len()
        invariant
            n <= keys@.len(),
            all == key_views(keys@),
            places(o@) == stable_order(all.take(n as int)),
        decreases keys@.len() - n,
    {
        let ghost cur = all.take(n + 1);
        let ghost po = places(o@);
        assert(cur.drop_last() =~= all.take(n as int));
        proof {
            law_stable_order(all.take(n as int));
        }
        assert forall|i: int| 0 <= i < o@.len() implies (#[trigger] o@[i]) < n by {
            assert(po[i] == o@[i] as int);
        }
        let mut p: usize = o.len();
        while p > 0 && !key_not_behind(&keys[o[p - 1]], &keys[n])
            invariant
                p <= o@.len(),
                n < keys@.len(),
                all == key_views(keys@),
                cur == all.take(n + 1),
                po == places(o@),
                forall|i: int| 0 <= i < o@.len() ==> (#[trigger] o@[i]) < n,
                forall|i: int| p <= i < po.len() ==> !key_le(cur[#[trigger] po[i]], cur[n as int]),
            decreases p,
        {
            assert(po[p - 1] == o@[p - 1] as int);
            assert(cur[po[p - 1]] == keys@[o@[p - 1] as int]@);
            assert(cur[n as int] == keys@[n as int]@);
            p = p - 1;
        }
        proof {
            if p > 0 {
                assert(po[p - 1] == o@[p - 1] as int);
                assert(cur[po[p - 1]] == keys@[o@[p - 1] as int]@);
                assert(cur[n as int] == keys@[n as int]@);
            }
            lemma_insert_at(po, cur, n as int, p as int);
        }
        let ghost before = o@;
        o.insert(p, n);
        assert(places(o@) =~= po.insert(p as int, n as int));
        n = n + 1;
    }
    assert(all.take(all.len() as int) =~= all);
    proof {
        law_stable_order(all);
    }
    assert forall|i: int| 0 <= i < o@.len() implies (#[trigger] o@[i]) < keys@.len() by {
        assert(places(o@)[i] == o@[i] as int);
    }
    o
}

} // verus!
