//! Dependency management with cycle detection.

use vstd::prelude::*;

use crate::dag::model::{
    dep_views, deps_ok, has_task, DagError, DagErrorView, Db, DbView, Dependency,
};
use crate::seqs::{
    lemma_distinct_fits, lemma_filter_members, lemma_filter_order, lemma_filter_step,
};
use crate::text::basic::{has_text, same, texts};

verus! {

/// The step from the `i`-th node of `p` to the next is a dependency.
pub open spec fn step_at(
    deps: Seq<(Seq<char>, Seq<char>)>,
    p: Seq<Seq<char>>,
    i: int,
) -> bool {
    deps.contains((p[i], p[i + 1]))
}

/// `p` is a walk of at least one step along dependencies.
pub open spec fn is_walk(deps: Seq<(Seq<char>, Seq<char>)>, p: Seq<Seq<char>>) -> bool {
    &&& p.len() >= 2
    &&& forall|i: int| 0 <= i < p.len() - 1 ==> #[trigger] step_at(deps, p, i)
}

/// A walk leads from `a` to `b`.
pub open spec fn reaches(
    deps: Seq<(Seq<char>, Seq<char>)>,
    a: Seq<char>,
    b: Seq<char>,
) -> bool {
    exists|p: Seq<Seq<char>>| #[trigger] is_walk(deps, p) && p[0] == a && p.last() == b
}

/// No task waits, directly or through others, for itself.
pub open spec fn acyclic(deps: Seq<(Seq<char>, Seq<char>)>) -> bool {
    forall|a: Seq<char>| !#[trigger] reaches(deps, a, a)
}

/// The dependency `blocker -> blocked` would close a cycle.
pub open spec fn closes_cycle(
    deps: Seq<(Seq<char>, Seq<char>)>,
    blocker: Seq<char>,
    blocked: Seq<char>,
) -> bool {
    blocker == blocked || reaches(deps, blocked, blocker)
}

/// All dependencies but this one.
pub open spec fn other_than(pair: (Seq<char>, Seq<char>)) -> spec_fn(
    (Seq<char>, Seq<char>),
) -> bool {
    |d: (Seq<char>, Seq<char>)| d != pair
}

/// A dependency is a walk of one step.
pub proof fn lemma_reaches_step(
    deps: Seq<(Seq<char>, Seq<char>)>,
    a: Seq<char>,
    b: Seq<char>,
)
    requires
        deps.contains((a, b)),
    ensures
        reaches(deps, a, b),
{
    let p = seq![a, b];
    assert(p[0] == a && p[1] == b);
    assert forall|i: int| 0 <= i < p.len() - 1 implies #[trigger] step_at(deps, p, i) by {
        assert(i == 0);
    }
    assert(is_walk(deps, p));
}

/// A walk followed by a walk is a walk.
pub proof fn lemma_reaches_trans(
    deps: Seq<(Seq<char>, Seq<char>)>,
    a: Seq<char>,
    b: Seq<char>,
    c: Seq<char>,
)
    requires
        reaches(deps, a, b),
        reaches(deps, b, c),
    ensures
        reaches(deps, a, c),
{
    let p = choose|p: Seq<Seq<char>>| #[trigger] is_walk(deps, p) && p[0] == a && p.last() == b;
    let q = choose|q: Seq<Seq<char>>| #[trigger] is_walk(deps, q) && q[0] == b && q.last() == c;
    let w = p + q.drop_first();
    assert forall|i: int| 0 <= i < w.len() - 1 implies #[trigger] step_at(deps, w, i) by {
        if i < p.len() - 1 {
            assert(step_at(deps, p, i));
            assert(w[i] == p[i] && w[i + 1] == p[i + 1]);
        } else {
            let k = i - (p.len() - 1);
            assert(step_at(deps, q, k));
            assert(w[i] == q[k]);
            assert(w[i + 1] == q[k + 1]);
        }
    }
    assert(w[0] == a);
    assert(w.last() == c);
    assert(is_walk(deps, w));
}

/// A walk along fewer dependencies is a walk along more.
pub proof fn lemma_reaches_mono(
    less: Seq<(Seq<char>, Seq<char>)>,
    more: Seq<(Seq<char>, Seq<char>)>,
    a: Seq<char>,
    b: Seq<char>,
)
    requires
        reaches(less, a, b),
        forall|d: (Seq<char>, Seq<char>)| #[trigger] less.contains(d) ==> more.contains(d),
    ensures
        reaches(more, a, b),
{
    let p = choose|p: Seq<Seq<char>>| #[trigger] is_walk(less, p) && p[0] == a && p.last() == b;
    assert forall|i: int| 0 <= i < p.len() - 1 implies #[trigger] step_at(more, p, i) by {
        assert(step_at(less, p, i));
    }
    assert(is_walk(more, p));
}

/// Taking dependencies away opens no cycle.
pub proof fn law_fewer_dependencies_stay_acyclic(
    less: Seq<(Seq<char>, Seq<char>)>,
    more: Seq<(Seq<char>, Seq<char>)>,
)
    requires
        acyclic(more),
        forall|d: (Seq<char>, Seq<char>)| #[trigger] less.contains(d) ==> more.contains(d),
    ensures
        acyclic(less),
{
    assert forall|a: Seq<char>| !#[trigger] reaches(less, a, a) by {
        if reaches(less, a, a) {
            lemma_reaches_mono(less, more, a, a);
        }
    }
}

/// A walk that may use the new dependency `a -> b` either does without it, or
/// gets to `a` and goes on from `b` without it.
proof fn lemma_walk_with_new(
    deps: Seq<(Seq<char>, Seq<char>)>,
    a: Seq<char>,
    b: Seq<char>,
    p: Seq<Seq<char>>,
)
    requires
        is_walk(deps.push((a, b)), p),
    ensures
        reaches(deps, p[0], p.last()) || ((p[0] == a || reaches(deps, p[0], a)) && (p.last() == b
            || reaches(deps, b, p.last()))),
    decreases p.len(),
{
    let more = deps.push((a, b));
    let n = p.len() - 1;
    let w = p[n - 1];
    let v = p[n];
    assert(step_at(more, p, n - 1));
    assert(more.contains((w, v)));
    let k = choose|k: int| 0 <= k < more.len() && more[k] == (w, v);
    let old_edge = k < deps.len();
    if old_edge {
        assert(deps[k] == (w, v));
        lemma_reaches_step(deps, w, v);
    } else {
        assert(w == a && v == b);
    }
    if p.len() > 2 {
        let q = p.drop_last();
        assert forall|i: int| 0 <= i < q.len() - 1 implies #[trigger] step_at(more, q, i) by {
            assert(step_at(more, p, i));
        }
        assert(is_walk(more, q));
        assert(q.last() == w && q[0] == p[0]);
        lemma_walk_with_new(deps, a, b, q);
        if old_edge {
            if reaches(deps, p[0], w) {
                lemma_reaches_trans(deps, p[0], w, v);
            } else if reaches(deps, b, w) {
                lemma_reaches_trans(deps, b, w, v);
            }
        }
    }
}

/// A dependency that closes no cycle leaves the dependencies acyclic.
pub proof fn law_added_dependency_stays_acyclic(
    deps: Seq<(Seq<char>, Seq<char>)>,
    blocker: Seq<char>,
    blocked: Seq<char>,
)
    requires
        acyclic(deps),
        !closes_cycle(deps, blocker, blocked),
    ensures
        acyclic(deps.push((blocker, blocked))),
{
    let more = deps.push((blocker, blocked));
    assert forall|x: Seq<char>| !#[trigger] reaches(more, x, x) by {
        if reaches(more, x, x) {
            let p = choose|p: Seq<Seq<char>>| #[trigger]
                is_walk(more, p) && p[0] == x && p.last() == x;
            lemma_walk_with_new(deps, blocker, blocked, p);
            assert(!reaches(deps, x, x));
            if x != blocker && x != blocked {
                lemma_reaches_trans(deps, blocked, x, blocker);
            }
        }
    }
}

/// Without the pair among them, the dependencies other than it are all of them.
proof fn lemma_all_other(deps: Seq<(Seq<char>, Seq<char>)>, pair: (Seq<char>, Seq<char>))
    requires
        !deps.contains(pair),
    ensures
        deps.filter(other_than(pair)) == deps,
    decreases deps.len(),
{
    reveal(Seq::filter);
    if deps.len() > 0 {
        let d = deps.drop_last();
        assert forall|k: int| 0 <= k < d.len() implies #[trigger] d[k] != pair by {
            assert(deps[k] == d[k]);
        }
        lemma_all_other(d, pair);
        assert(deps.contains(deps.last()));
        assert(d.push(deps.last()) =~= deps);
    }
}

/// Removing a dependency undoes adding it.
pub proof fn law_removal_undoes_addition(
    deps: Seq<(Seq<char>, Seq<char>)>,
    blocker: Seq<char>,
    blocked: Seq<char>,
)
    requires
        !deps.contains((blocker, blocked)),
    ensures
        deps.push((blocker, blocked)).filter(other_than((blocker, blocked))) == deps,
{
    let more = deps.push((blocker, blocked));
    lemma_filter_step(more, other_than((blocker, blocked)), deps.len() as int);
    assert(more.take(deps.len() as int) =~= deps);
    assert(more.take(more.len() as int) =~= more);
    lemma_all_other(deps, (blocker, blocked));
}

/// A dependency that would close a cycle does close one.
pub proof fn law_refused_dependency_would_be_cyclic(
    deps: Seq<(Seq<char>, Seq<char>)>,
    blocker: Seq<char>,
    blocked: Seq<char>,
)
    requires
        closes_cycle(deps, blocker, blocked),
    ensures
        !acyclic(deps.push((blocker, blocked))),
{
    let more = deps.push((blocker, blocked));
    assert(more[deps.len() as int] == (blocker, blocked));
    assert(more.contains((blocker, blocked)));
    lemma_reaches_step(more, blocker, blocked);
    if blocker != blocked {
        assert forall|d: (Seq<char>, Seq<char>)| #[trigger] deps.contains(d) implies more.contains(
            d,
        ) by {
            let k = choose|k: int| 0 <= k < deps.len() && deps[k] == d;
            assert(more[k] == d);
        }
        lemma_reaches_mono(deps, more, blocked, blocker);
        lemma_reaches_trans(more, blocker, blocked, blocker);
    }
    assert(reaches(more, blocker, blocker));
}

/// A set of nodes that dependencies do not leave holds every node of a walk
/// that starts in it.
proof fn lemma_closed_holds_walk(
    deps: Seq<(Seq<char>, Seq<char>)>,
    inside: Seq<Seq<char>>,
    target: Seq<char>,
    p: Seq<Seq<char>>,
)
    requires
        is_walk(deps, p),
        inside.contains(p[0]),
        forall|k: int|
            0 <= k < deps.len() && inside.contains((#[trigger] deps[k]).0) ==> inside.contains(
                deps[k].1,
            ) && deps[k].1 != target,
    ensures
        inside.contains(p.last()),
        p.last() != target,
    decreases p.len(),
{
    let n = p.len() - 1;
    assert(step_at(deps, p, n - 1));
    if p.len() > 2 {
        let q = p.drop_last();
        assert forall|i: int| 0 <= i < q.len() - 1 implies #[trigger] step_at(deps, q, i) by {
            assert(step_at(deps, p, i));
        }
        lemma_closed_holds_walk(deps, inside, target, q);
        assert(q.last() == p[n - 1]);
    }
    let k = choose|k: int| 0 <= k < deps.len() && deps[k] == (p[n - 1], p[n]);
    assert(inside.contains(deps[k].0));
}

/// The blocked ends of all dependencies, behind `start`.
spec fn ends_of(deps: Seq<(Seq<char>, Seq<char>)>, start: Seq<char>) -> Seq<Seq<char>> {
    seq![start] + deps.map_values(|d: (Seq<char>, Seq<char>)| d.1)
}

impl Db {
    /// Whether the dependency would close a cycle: whether `blocker_id` is
    /// reachable from `blocked_id` through existing edges. The search goes
    /// breadth first.
    pub fn would_create_cycle(&self, blocker_id: &str, blocked_id: &str) -> (r: bool)
        ensures
            r == closes_cycle(self@.deps, blocker_id@, blocked_id@),
    {
        if same(blocker_id, blocked_id) {
            return true;
        }
        let mut visited: Vec<String> = Vec::new();
        visited.push(blocked_id.to_owned());
        let ghost deps = self@.deps;
        let ghost ends = ends_of(deps, blocked_id@);
        let mut idx: usize = 0;
        proof {
            assert(texts(visited@) =~= seq![blocked_id@]);
            assert(ends[0] == blocked_id@);
        }
        while idx < visited.len()
            invariant
                blocker_id@ != blocked_id@,
                deps == self@.deps,
                ends == ends_of(deps, blocked_id@),
                idx <= visited@.len(),
                visited@.len() >= 1,
                visited@[0]@ == blocked_id@,
                texts(visited@).no_duplicates(),
                forall|i: int|
                    0 <= i < visited@.len() ==> ends.contains(#[trigger] texts(visited@)[i]),
                forall|i: int|
                    0 <= i < visited@.len() ==> #[trigger] texts(visited@)[i] == blocked_id@
                        || reaches(deps, blocked_id@, texts(visited@)[i]),
                forall|i: int, k: int|
                    #![trigger texts(visited@)[i], deps[k]]
                    0 <= i < idx && 0 <= k < deps.len() && deps[k].0 == texts(visited@)[i]
                        ==> texts(visited@).contains(deps[k].1) && deps[k].1 != blocker_id@,
            decreases ends.len() - idx,
        {
            let current = visited[idx].clone();
            let ghost reached = visited@;
            assert(texts(reached)[idx as int] == current@);
            let mut k: usize = 0;
            while k < self.deps.len()
                invariant
                    blocker_id@ != blocked_id@,
                    deps == self@.deps,
                    ends == ends_of(deps, blocked_id@),
                    k <= self.deps@.len(),
                    self.deps@.len() == deps.len(),
                    idx < reached.len() <= visited@.len(),
                    texts(reached)[idx as int] == current@,
                    forall|i: int|
                        0 <= i < reached.len() ==> #[trigger] texts(visited@)[i] == texts(
                            reached,
                        )[i],
                    visited@[0]@ == blocked_id@,
                    texts(visited@).no_duplicates(),
                    forall|i: int|
                        0 <= i < visited@.len() ==> ends.contains(#[trigger] texts(visited@)[i]),
                    forall|i: int|
                        0 <= i < visited@.len() ==> #[trigger] texts(visited@)[i] == blocked_id@
                            || reaches(deps, blocked_id@, texts(visited@)[i]),
                    forall|i: int, l: int|
                        #![trigger texts(visited@)[i], deps[l]]
                        0 <= i < idx && 0 <= l < deps.len() && deps[l].0 == texts(visited@)[i]
                            ==> texts(visited@).contains(deps[l].1) && deps[l].1 != blocker_id@,
                    forall|l: int|
                        0 <= l < k && (#[trigger] deps[l]).0 == current@ ==> texts(
                            visited@,
                        ).contains(deps[l].1) && deps[l].1 != blocker_id@,
                decreases self.deps@.len() - k,
            {
                assert(deps[k as int] == self.deps@[k as int]@);
                if same(self.deps[k].blocker.as_str(), current.as_str()) {
                    let dependent = self.deps[k].blocked.clone();
                    proof {
                        assert(deps.contains((current@, dependent@)));
                        lemma_reaches_step(deps, current@, dependent@);
                        assert(texts(visited@)[idx as int] == current@);
                        if current@ != blocked_id@ {
                            lemma_reaches_trans(deps, blocked_id@, current@, dependent@);
                        }
                        assert(reaches(deps, blocked_id@, dependent@));
                    }
                    if same(dependent.as_str(), blocker_id) {
                        return true;
                    }
                    if !has_text(&visited, dependent.as_str()) {
                        let ghost before = visited@;
                        proof {
                            assert(ends[k + 1] == dependent@);
                            assert(ends.contains(dependent@));
                        }
                        visited.push(dependent);
                        proof {
                            assert(texts(visited@) =~= texts(before).push(dependent@));
                            assert(texts(visited@)[before.len() as int] == dependent@);
                            assert forall|x: Seq<char>| #[trigger]
                                texts(before).contains(x) implies texts(visited@).contains(x) by {
                                let i = choose|i: int|
                                    0 <= i < before.len() && texts(before)[i] == x;
                                assert(texts(visited@)[i] == x);
                            }
                            assert forall|i: int, l: int|
                                #![trigger texts(visited@)[i], deps[l]]
                                0 <= i < idx && 0 <= l < deps.len() && deps[l].0 == texts(
                                    visited@,
                                )[i] implies texts(visited@).contains(deps[l].1) && deps[l].1
                                != blocker_id@ by {
                                assert(texts(before)[i] == texts(visited@)[i]);
                                assert(texts(before).contains(deps[l].1));
                            }
                        }
                    }
                }
                k = k + 1;
            }
            proof {
                lemma_distinct_fits(texts(visited@), ends);
            }
            idx = idx + 1;
        }
        proof {
            let inside = texts(visited@);
            assert(inside[0] == blocked_id@);
            assert forall|k: int|
                0 <= k < deps.len() && inside.contains(
                    (#[trigger] deps[k]).0,
                ) implies inside.contains(deps[k].1) && deps[k].1 != blocker_id@ by {
                let i = choose|i: int| 0 <= i < inside.len() && inside[i] == deps[k].0;
                assert(texts(visited@)[i] == deps[k].0);
            }
            if reaches(deps, blocked_id@, blocker_id@) {
                let p = choose|p: Seq<Seq<char>>| #[trigger]
                    is_walk(deps, p) && p[0] == blocked_id@ && p.last() == blocker_id@;
                lemma_closed_holds_walk(deps, inside, blocker_id@, p);
            }
        }
        false
    }

    /// Adds a dependency: `blocked_id` cannot start until `blocker_id` is done.
    ///
    /// Rejects the dependency if it would create a cycle, if one of the tasks
    /// does not exist, or if it is recorded already.
    pub fn add_dependency(&mut self, blocker_id: &str, blocked_id: &str) -> (r: Result<
        (),
        DagError,
    >)
        requires
            old(self)@.wf(),
        ensures
            final(self)@.wf(),
            acyclic(old(self)@.deps) ==> acyclic(final(self)@.deps),
            ({
                let db = old(self)@;
                let pair = (blocker_id@, blocked_id@);
                if closes_cycle(db.deps, blocker_id@, blocked_id@) {
                    r is Err && r->Err_0@ == DagErrorView::Cycle(blocker_id@, blocked_id@)
                } else if !has_task(db.tasks, blocker_id@) || !has_task(db.tasks, blocked_id@)
                    || db.deps.contains(pair) {
                    r is Err && r->Err_0@ == DagErrorView::NotAdded(blocker_id@, blocked_id@)
                } else {
                    r is Ok && final(self)@ == (DbView { deps: db.deps.push(pair), ..db })
                }
            }),
            r is Err ==> final(self)@ == old(self)@,
    {
        let ghost db = self@;
        if self.would_create_cycle(blocker_id, blocked_id) {
            return Err(DagError::Cycle(blocker_id.to_owned(), blocked_id.to_owned()));
        }
        if self.find_task(blocker_id).is_none() || self.find_task(blocked_id).is_none()
            || self.has_dependency(blocker_id, blocked_id) {
            return Err(DagError::NotAdded(blocker_id.to_owned(), blocked_id.to_owned()));
        }
        proof {
            if acyclic(db.deps) {
                law_added_dependency_stays_acyclic(db.deps, blocker_id@, blocked_id@);
            }
        }
        let ghost before = self.deps@;
        let d = Dependency { blocker: blocker_id.to_owned(), blocked: blocked_id.to_owned() };
        self.deps.push(d);
        assert(dep_views(self.deps@) =~= dep_views(before).push((blocker_id@, blocked_id@)));
        assert(deps_ok(self@.deps, self@.tasks));
        Ok(())
    }

    /// Removes a dependency between two tasks, where there is one.
    pub fn remove_dependency(&mut self, blocker_id: &str, blocked_id: &str)
        requires
            old(self)@.wf(),
        ensures
            final(self)@.wf(),
            final(self)@ == (DbView {
                deps: old(self)@.deps.filter(other_than((blocker_id@, blocked_id@))),
                ..old(self)@
            }),
            acyclic(old(self)@.deps) ==> acyclic(final(self)@.deps),
    {
        let ghost db = self@;
        let ghost p = other_than((blocker_id@, blocked_id@));
        let mut kept: Vec<Dependency> = Vec::new();
        let mut k: usize = 0;
        assert(dep_views(kept@) =~= db.deps.take(0).filter(p)) by {
            reveal(Seq::filter);
        }
        while k < self.deps.len()
            invariant
                k <= self.deps@.len(),
                db == self@,
                p == other_than((blocker_id@, blocked_id@)),
                dep_views(kept@) == db.deps.take(k as int).filter(p),
            decreases self.deps@.len() - k,
        {
            proof {
                lemma_filter_step(db.deps, p, k as int);
            }
            assert(db.deps[k as int] == self.deps@[k as int]@);
            if !(same(self.deps[k].blocker.as_str(), blocker_id) && same(
                self.deps[k].blocked.as_str(),
                blocked_id,
            )) {
                let ghost before = kept@;
                let d = Dependency {
                    blocker: self.deps[k].blocker.clone(),
                    blocked: self.deps[k].blocked.clone(),
                };
                kept.push(d);
                assert(dep_views(kept@) =~= dep_views(before).push(db.deps[k as int]));
            }
            k = k + 1;
        }
        assert(db.deps.take(db.deps.len() as int) =~= db.deps);
        self.deps = kept;
        proof {
            lemma_fewer_deps(db, self@, p);
        }
    }
}

/// Dropping dependencies keeps the invariant and acyclicity.
pub proof fn lemma_fewer_deps(db: DbView, after: DbView, p: spec_fn((Seq<char>, Seq<char>)) -> bool)
    requires
        db.wf(),
        after == (DbView { deps: db.deps.filter(p), ..db }),
    ensures
        after.wf(),
        acyclic(db.deps) ==> acyclic(after.deps),
{
    let less = db.deps.filter(p);
    assert forall|d: (Seq<char>, Seq<char>)| #[trigger] less.contains(d) implies db.deps.contains(
        d,
    ) by {
        lemma_filter_members(db.deps, p, d);
    }
    assert forall|k: int| 0 <= k < less.len() implies has_task(db.tasks, (#[trigger] less[k]).0)
        && has_task(db.tasks, less[k].1) && less[k].0 != less[k].1 by {
        assert(less.contains(less[k]));
        let i = choose|i: int| 0 <= i < db.deps.len() && db.deps[i] == less[k];
    }
    assert forall|k: int, l: int| 0 <= k < l < less.len() implies #[trigger] less[k]
        != #[trigger] less[l] by {
        let r = lemma_filter_order(db.deps, p, k, l);
        assert(db.deps[r.0] != db.deps[r.1]);
    }
    if acyclic(db.deps) {
        law_fewer_dependencies_stay_acyclic(less, db.deps);
    }
}

} // verus!
