//! Facts about sequences that loops over vectors need.

use vstd::prelude::*;

verus! {

/// Filtering one element more.
pub proof fn lemma_filter_step<A>(s: Seq<A>, p: spec_fn(A) -> bool, i: int)
    requires
        0 <= i < s.len(),
    ensures
        s.take(i + 1).filter(p) == if p(s[i]) {
            s.take(i).filter(p).push(s[i])
        } else {
            s.take(i).filter(p)
        },
{
    reveal(Seq::filter);
    assert(s.take(i + 1).drop_last() =~= s.take(i));
    assert(s.take(i + 1).last() == s[i]);
}

/// What a filter keeps was there and passes; what was there and passes is kept.
pub proof fn lemma_filter_members<A>(s: Seq<A>, p: spec_fn(A) -> bool, x: A)
    ensures
        s.filter(p).contains(x) <==> s.contains(x) && p(x),
    decreases s.len(),
{
    reveal(Seq::filter);
    if s.len() > 0 {
        let d = s.drop_last();
        lemma_filter_members(d, p, x);
        assert(s =~= d.push(s.last()));
        if s.contains(x) {
            let i = choose|i: int| 0 <= i < s.len() && s[i] == x;
            if i < d.len() {
                assert(d[i] == x);
            }
        }
        if d.contains(x) {
            let i = choose|i: int| 0 <= i < d.len() && d[i] == x;
            assert(s[i] == x);
        }
        if p(s.last()) {
            let f = d.filter(p);
            assert(s.filter(p) =~= f.push(s.last()));
            assert(f.push(s.last())[f.len() as int] == s.last());
            if f.contains(x) {
                let i = choose|i: int| 0 <= i < f.len() && f[i] == x;
                assert(f.push(s.last())[i] == x);
            }
            if f.push(s.last()).contains(x) {
                let i = choose|i: int| 0 <= i < f.len() + 1 && f.push(s.last())[i] == x;
                if i < f.len() {
                    assert(f[i] == x);
                }
            }
        }
        assert(s[s.len() - 1] == s.last());
    }
}

/// A filter keeps the order: each two kept elements come from two places in
/// the same order.
pub proof fn lemma_filter_order<A>(s: Seq<A>, p: spec_fn(A) -> bool, i: int, j: int) -> (r: (
    int,
    int,
))
    requires
        0 <= i < j < s.filter(p).len(),
    ensures
        0 <= r.0 < r.1 < s.len(),
        s[r.0] == s.filter(p)[i],
        s[r.1] == s.filter(p)[j],
    decreases s.len(),
{
    reveal(Seq::filter);
    let d = s.drop_last();
    if s.len() == 0 {
        (0, 1)
    } else if p(s.last()) && j == s.filter(p).len() - 1 {
        let f = d.filter(p);
        assert(f[i] == s.filter(p)[i]);
        assert(f.contains(f[i]));
        lemma_filter_members(d, p, f[i]);
        let a = choose|a: int| 0 <= a < d.len() && d[a] == f[i];
        assert(s[a] == d[a]);
        (a, s.len() - 1)
    } else {
        let f = d.filter(p);
        assert(f[i] == s.filter(p)[i]);
        assert(f[j] == s.filter(p)[j]);
        let r = lemma_filter_order(d, p, i, j);
        assert(s[r.0] == d[r.0]);
        assert(s[r.1] == d[r.1]);
        r
    }
}

/// Without a duplicate, and drawn from a list, a sequence is no longer than
/// the list.
pub proof fn lemma_distinct_fits<A>(s: Seq<A>, from: Seq<A>)
    requires
        s.no_duplicates(),
        forall|i: int| 0 <= i < s.len() ==> from.contains(#[trigger] s[i]),
    ensures
        s.len() <= from.len(),
{
    s.unique_seq_to_set();
    from.lemma_cardinality_of_set();
    assert(s.to_set().subset_of(from.to_set())) by {
        assert forall|x: A| s.to_set().contains(x) implies from.to_set().contains(x) by {
            assert(s.contains(x));
            let i = choose|i: int| 0 <= i < s.len() && s[i] == x;
            assert(from.contains(s[i]));
        }
    }
    vstd::set_lib::lemma_len_subset(s.to_set(), from.to_set());
}

} // verus!
