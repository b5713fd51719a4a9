//! The tree below a task.

use vstd::prelude::*;

use crate::dag::model::{
    has_task, ids_distinct, is_parent_at, pos, task_views, DagError, DagErrorView, Db, DbView,
    Task, TaskView,
};
use crate::dag::tasks::is_child;
use crate::dag::transitions::lemma_parent_unique;
use crate::order::{pick, places};
use crate::text::basic::opt_same;

verus! {

/// The places before `n` of the children of the task at `i`, ascending.
pub open spec fn kids(tasks: Seq<TaskView>, i: int, n: int) -> Seq<int>
    decreases n,
{
    if n <= 0 {
        Seq::empty()
    } else if is_child(tasks, i, n - 1) {
        kids(tasks, i, n - 1).push(n - 1)
    } else {
        kids(tasks, i, n - 1)
    }
}

/// What a depth-first listing adds, from a stack of tasks whose children are
/// still to be listed: the children of the top of the stack, then what their
/// own listing adds.
pub open spec fn listing(tasks: Seq<TaskView>, stack: Seq<int>, budget: nat) -> Seq<int>
    decreases budget,
{
    if budget == 0 || stack.len() == 0 {
        Seq::empty()
    } else {
        let k = kids(tasks, stack.last(), tasks.len() as int);
        k + listing(tasks, stack.drop_last() + k, (budget - 1) as nat)
    }
}

/// The places of the task at `root` and of everything below it.
pub open spec fn tree_order(tasks: Seq<TaskView>, root: int) -> Seq<int> {
    seq![root] + listing(tasks, seq![root], tasks.len())
}

/// The task at `i` is the one at `root` or below it.
pub open spec fn descends(tasks: Seq<TaskView>, root: int, i: int) -> bool
    decreases i,
{
    i == root || exists|j: int| #[trigger]
        is_parent_at(tasks, i, j) && descends(tasks, root, j)
}

proof fn lemma_kids(tasks: Seq<TaskView>, i: int, n: int)
    requires
        n <= tasks.len(),
    ensures
        forall|j: int| #[trigger] kids(tasks, i, n).contains(j) <==> j < n && is_child(tasks, i, j),
        kids(tasks, i, n).no_duplicates(),
        forall|k: int| 0 <= k < kids(tasks, i, n).len() ==> i < #[trigger] kids(tasks, i, n)[k] < n,
    decreases n,
{
    if n > 0 {
        lemma_kids(tasks, i, n - 1);
        let a = kids(tasks, i, n - 1);
        let b = kids(tasks, i, n);
        assert forall|j: int| #[trigger] b.contains(j) <==> j < n && is_child(tasks, i, j) by {
            if b.contains(j) {
                let k = choose|k: int| 0 <= k < b.len() && b[k] == j;
                if k < a.len() {
                    assert(a[k] == j);
                    assert(a.contains(j));
                }
            }
            if j < n && is_child(tasks, i, j) {
                if j == n - 1 {
                    assert(b[a.len() as int] == j);
                } else {
                    assert(a.contains(j));
                    let k = choose|k: int| 0 <= k < a.len() && a[k] == j;
                    assert(b[k] == j);
                }
            }
        }
    }
}

/// In a list of places, every parent comes before its children.
pub open spec fn listed_first(tasks: Seq<TaskView>, o: Seq<int>) -> bool {
    forall|a: int, b: int|
        0 <= a < o.len() && 0 <= b < o.len() && #[trigger] is_child(tasks, o[a], o[b]) ==> a < b
}

/// What a depth-first listing keeps: what was seen is below the root, each
/// once; what is not on the stack has had its children listed, what is on it
/// has not.
spec fn listing_state(
    tasks: Seq<TaskView>,
    root: int,
    seen: Seq<int>,
    stack: Seq<int>,
    budget: nat,
) -> bool {
    &&& seen.no_duplicates()
    &&& stack.no_duplicates()
    &&& seen.contains(root)
    &&& forall|k: int|
        0 <= k < seen.len() ==> root <= #[trigger] seen[k] < tasks.len() && descends(
            tasks,
            root,
            seen[k],
        )
    &&& forall|i: int, j: int| #[trigger]
        is_child(tasks, i, j) && seen.contains(j) && j != root ==> seen.contains(i)
    &&& forall|k: int| 0 <= k < stack.len() ==> seen.contains(#[trigger] stack[k])
    &&& forall|i: int, j: int| #[trigger]
        is_child(tasks, i, j) && seen.contains(i) && !stack.contains(i) ==> seen.contains(j)
    &&& forall|i: int, j: int| #[trigger]
        is_child(tasks, i, j) && stack.contains(i) ==> !seen.contains(j)
    &&& seen.len() - stack.len() + budget >= tasks.len()
    &&& listed_first(tasks, seen)
}

proof fn lemma_listing(
    tasks: Seq<TaskView>,
    root: int,
    seen: Seq<int>,
    stack: Seq<int>,
    budget: nat,
)
    requires
        ids_distinct(tasks),
        0 <= root < tasks.len(),
        listing_state(tasks, root, seen, stack, budget),
    ensures
        (seen + listing(tasks, stack, budget)).no_duplicates(),
        forall|i: int| #[trigger]
            (seen + listing(tasks, stack, budget)).contains(i) <==> 0 <= i < tasks.len()
                && descends(tasks, root, i),
        listed_first(tasks, seen + listing(tasks, stack, budget)),
    decreases budget,
{
    if budget == 0 || stack.len() == 0 {
        assert(seen + listing(tasks, stack, budget) =~= seen);
        if budget == 0 {
            crate::order::lemma_distinct_below(seen, tasks.len() as int);
        }
        assert(stack.len() == 0);
        assert forall|i: int| 0 <= i < tasks.len() && descends(
            tasks,
            root,
            i,
        ) implies #[trigger] seen.contains(i) by {
            lemma_closed(tasks, root, seen, i);
        }
    } else {
        let p = stack.last();
        let rest = stack.drop_last();
        let n = tasks.len() as int;
        let k = kids(tasks, p, n);
        lemma_kids(tasks, p, n);
        let seen2 = seen + k;
        let stack2 = rest + k;
        assert(stack[stack.len() - 1] == p);
        assert(stack.contains(p));
        assert(seen.contains(p));
        assert forall|x: int| #[trigger] k.contains(x) implies !seen.contains(x) by {
            assert(is_child(tasks, p, x));
        }
        assert(seen2.no_duplicates()) by {
            assert forall|a: int, b: int|
                0 <= a < seen2.len() && 0 <= b < seen2.len() && a != b implies seen2[a]
                != seen2[b] by {
                if a < seen.len() && b >= seen.len() {
                    assert(k.contains(k[b - seen.len()]));
                    assert(seen.contains(seen[a]));
                } else if b < seen.len() && a >= seen.len() {
                    assert(k.contains(k[a - seen.len()]));
                    assert(seen.contains(seen[b]));
                }
            }
        }
        assert forall|x: int| #[trigger] rest.contains(x) implies stack.contains(x) && x != p by {
            let a = choose|a: int| 0 <= a < rest.len() && rest[a] == x;
            assert(stack[a] == x);
        }
        assert(stack2.no_duplicates()) by {
            assert forall|a: int, b: int|
                0 <= a < stack2.len() && 0 <= b < stack2.len() && a != b implies stack2[a]
                != stack2[b] by {
                if a < rest.len() && b < rest.len() {
                    assert(stack[a] != stack[b]);
                } else if a < rest.len() {
                    assert(k.contains(k[b - rest.len()]));
                    assert(seen.contains(stack[a]));
                } else if b < rest.len() {
                    assert(k.contains(k[a - rest.len()]));
                    assert(seen.contains(stack[b]));
                }
            }
        }
        assert forall|x: int| #[trigger] seen2.contains(x) <==> seen.contains(x) || k.contains(
            x,
        ) by {
            if seen2.contains(x) {
                let a = choose|a: int| 0 <= a < seen2.len() && seen2[a] == x;
                if a < seen.len() {
                    assert(seen[a] == x);
                } else {
                    assert(k[a - seen.len()] == x);
                }
            }
            if seen.contains(x) {
                let a = choose|a: int| 0 <= a < seen.len() && seen[a] == x;
                assert(seen2[a] == x);
            }
            if k.contains(x) {
                let a = choose|a: int| 0 <= a < k.len() && k[a] == x;
                assert(seen2[a + seen.len()] == x);
            }
        }
        assert forall|x: int| #[trigger] stack2.contains(x) <==> rest.contains(x) || k.contains(
            x,
        ) by {
            if stack2.contains(x) {
                let a = choose|a: int| 0 <= a < stack2.len() && stack2[a] == x;
                if a < rest.len() {
                    assert(rest[a] == x);
                } else {
                    assert(k[a - rest.len()] == x);
                }
            }
            if rest.contains(x) {
                let a = choose|a: int| 0 <= a < rest.len() && rest[a] == x;
                assert(stack2[a] == x);
            }
            if k.contains(x) {
                let a = choose|a: int| 0 <= a < k.len() && k[a] == x;
                assert(stack2[a + rest.len()] == x);
            }
        }
        assert forall|a: int| 0 <= a < seen2.len() implies root <= #[trigger] seen2[a]
            < tasks.len() && descends(tasks, root, seen2[a]) by {
            if a >= seen.len() {
                let x = k[a - seen.len()];
                assert(k.contains(x));
                assert(is_child(tasks, p, x));
                assert(is_parent_at(tasks, x, p));
                let b = choose|b: int| 0 <= b < seen.len() && seen[b] == p;
                assert(descends(tasks, root, seen[b]));
            }
        }
        assert forall|i: int, j: int| #[trigger]
            is_child(tasks, i, j) && seen2.contains(j) && j != root implies seen2.contains(i) by {
            if k.contains(j) {
                assert(is_parent_at(tasks, j, p));
                assert(is_parent_at(tasks, j, i));
                lemma_parent_unique(tasks, j, p);
                lemma_parent_unique(tasks, j, i);
            }
        }
        assert forall|a: int| 0 <= a < stack2.len() implies seen2.contains(
            #[trigger] stack2[a],
        ) by {
            assert(stack2.contains(stack2[a]));
            if rest.contains(stack2[a]) {
                let b = choose|b: int| 0 <= b < rest.len() && rest[b] == stack2[a];
                assert(seen.contains(stack[b]));
            }
        }
        assert forall|i: int, j: int| #[trigger]
            is_child(tasks, i, j) && seen2.contains(i) && !stack2.contains(
            i,
        ) implies seen2.contains(j) by {
            if i == p {
                assert(k.contains(j));
            } else {
                assert(seen.contains(i));
                if stack.contains(i) {
                    let a = choose|a: int| 0 <= a < stack.len() && stack[a] == i;
                    assert(rest[a] == i);
                    assert(rest.contains(i));
                }
            }
        }
        assert forall|i: int, j: int| #[trigger]
            is_child(tasks, i, j) && stack2.contains(i) implies !seen2.contains(j) by {
            if k.contains(i) {
                // a child of a child is not seen, for its parent was not
                assert(!seen.contains(i));
                let b = choose|b: int| 0 <= b < seen.len() && seen[b] == p;
                assert(root <= seen[b]);
                if k.contains(j) {
                    assert(is_parent_at(tasks, j, p));
                    assert(is_parent_at(tasks, j, i));
                    lemma_parent_unique(tasks, j, p);
                    lemma_parent_unique(tasks, j, i);
                }
            } else {
                assert(stack.contains(i) && i != p);
                if k.contains(j) {
                    assert(is_parent_at(tasks, j, p));
                    assert(is_parent_at(tasks, j, i));
                    lemma_parent_unique(tasks, j, p);
                    lemma_parent_unique(tasks, j, i);
                }
            }
        }
        assert forall|a: int, b: int|
            0 <= a < seen2.len() && 0 <= b < seen2.len() && #[trigger] is_child(
                tasks,
                seen2[a],
                seen2[b],
            ) implies a < b by {
            let x = seen2[a];
            let y = seen2[b];
            if a < seen.len() && b < seen.len() {
                assert(is_child(tasks, seen[a], seen[b]));
            } else if a >= seen.len() {
                assert(k.contains(k[a - seen.len()]));
                assert(stack2.contains(x));
                assert(seen2.contains(y));
            }
        }
        lemma_listing(tasks, root, seen2, stack2, (budget - 1) as nat);
        assert(seen + listing(tasks, stack, budget) =~= seen2 + listing(
            tasks,
            stack2,
            (budget - 1) as nat,
        ));
    }
}

/// A set that holds the root and, with a task, its children holds all below.
proof fn lemma_closed(tasks: Seq<TaskView>, root: int, seen: Seq<int>, i: int)
    requires
        0 <= i < tasks.len(),
        seen.contains(root),
        descends(tasks, root, i),
        forall|a: int, b: int| #[trigger]
            is_child(tasks, a, b) && seen.contains(a) ==> seen.contains(b),
    ensures
        seen.contains(i),
    decreases i,
{
    if i != root {
        let j = choose|j: int| #[trigger] is_parent_at(tasks, i, j) && descends(tasks, root, j);
        lemma_closed(tasks, root, seen, j);
        assert(is_child(tasks, j, i));
    }
}

/// A tree listing holds the root and everything below it, each once, the root
/// first and every parent before its children.
pub proof fn law_tree_is_all_below(tasks: Seq<TaskView>, root: int)
    requires
        ids_distinct(tasks),
        0 <= root < tasks.len(),
    ensures
        tree_order(tasks, root).no_duplicates(),
        tree_order(tasks, root)[0] == root,
        listed_first(tasks, tree_order(tasks, root)),
        forall|i: int| #[trigger]
            tree_order(tasks, root).contains(i) <==> 0 <= i < tasks.len() && descends(
                tasks,
                root,
                i,
            ),
{
    let one = seq![root];
    assert(one[0] == root);
    assert forall|i: int, j: int| #[trigger]
        is_child(tasks, i, j) && one.contains(i) implies !one.contains(j) by {}
    lemma_listing(tasks, root, one, one, tasks.len());
}

/// No task of the list comes before its parent.
pub open spec fn children_later(tree: Seq<TaskView>) -> bool {
    forall|a: int, b: int|
        0 <= a < tree.len() && 0 <= b < tree.len() && (#[trigger] tree[b]).parent_id == Some(
            (#[trigger] tree[a]).id,
        ) ==> a < b
}

/// The tasks of a tree listing are different ones, and none comes before its
/// parent.
pub proof fn law_tree_parents_first(db: DbView, root: int)
    requires
        db.wf(),
        0 <= root < db.tasks.len(),
    ensures
        ids_distinct(pick(db.tasks, tree_order(db.tasks, root))),
        children_later(pick(db.tasks, tree_order(db.tasks, root))),
{
    let tasks = db.tasks;
    let o = tree_order(tasks, root);
    let tree = pick(tasks, o);
    law_tree_is_all_below(tasks, root);
    assert forall|a: int| 0 <= a < o.len() implies 0 <= #[trigger] o[a] < tasks.len() by {
        assert(o.contains(o[a]));
    }
    assert forall|a: int, b: int| 0 <= a < b < tree.len() implies (#[trigger] tree[a]).id != (
    #[trigger] tree[b]).id by {
        assert(o[a] != o[b]);
    }
    assert forall|a: int, b: int|
        0 <= a < tree.len() && 0 <= b < tree.len() && (#[trigger] tree[b]).parent_id == Some(
            (#[trigger] tree[a]).id,
        ) implies a < b by {
        assert(tasks[o[b]].parent_id is Some);
        let j = choose|j: int| is_parent_at(tasks, o[b], j);
        if j != o[a] {
            assert(tasks[j].id == tasks[o[a]].id);
        }
        assert(is_child(tasks, o[a], o[b]));
    }
}

impl Db {
    /// The places of the children of the task at `i`.
    pub fn child_places(&self, i: usize) -> (r: Vec<usize>)
        requires
            i < self@.tasks.len(),
        ensures
            places(r@) == kids(self@.tasks, i as int, self@.tasks.len() as int),
            forall|k: int| 0 <= k < r@.len() ==> (#[trigger] r@[k]) < self@.tasks.len(),
    {
        let ghost tasks = self@.tasks;
        let mut r: Vec<usize> = Vec::new();
        let mut j: usize = 0;
        assert(places(r@) =~= kids(tasks, i as int, 0));
        while j < self.tasks.len()
            invariant
                j <= self.tasks@.len(),
                i < self.tasks@.len(),
                tasks == self@.tasks,
                places(r@) == kids(tasks, i as int, j as int),
                forall|k: int| 0 <= k < r@.len() ==> (#[trigger] r@[k]) < tasks.len(),
            decreases self.tasks@.len() - j,
        {
            assert(tasks[i as int] == self.tasks@[i as int]@);
            assert(tasks[j as int] == self.tasks@[j as int]@);
            if i < j && opt_same(&self.tasks[j].parent_id, self.tasks[i].id.as_str()) {
                let ghost before = r@;
                r.push(j);
                assert(is_child(tasks, i as int, j as int));
                assert(places(r@) =~= places(before).push(j as int));
            } else {
                assert(!is_child(tasks, i as int, j as int));
            }
            j = j + 1;
        }
        r
    }

    /// The root task and all its descendants in a flat list, the root first.
    pub fn get_task_tree(&self, root_id: &str) -> (r: Result<Vec<Task>, DagError>)
        requires
            self@.wf(),
        ensures
            has_task(self@.tasks, root_id@) ==> r is Ok && task_views(r->Ok_0@) == pick(
                self@.tasks,
                tree_order(self@.tasks, pos(self@.tasks, root_id@)),
            ),
            !has_task(self@.tasks, root_id@) ==> r is Err && r->Err_0@ == DagErrorView::TaskLookup(
                root_id@,
            ),
    {
        let root: usize = match self.find_task(root_id) {
            None => {
                return Err(DagError::TaskLookup(root_id.to_owned()));
            },
            Some(i) => i,
        };
        let ghost tasks = self@.tasks;
        let n: usize = self.tasks.len();
        assert(tasks.len() == n);
        let mut seen: Vec<usize> = Vec::new();
        let mut stack: Vec<usize> = Vec::new();
        seen.push(root);
        stack.push(root);
        let mut budget: usize = n;
        assert(places(seen@) =~= seq![root as int]);
        assert(places(stack@) =~= seq![root as int]);
        while budget > 0 && stack.len() > 0
            invariant
                tasks == self@.tasks,
                n == tasks.len(),
                n == self.tasks@.len(),
                budget <= n,
                tree_order(tasks, root as int) == places(seen@) + listing(
                    tasks,
                    places(stack@),
                    budget as nat,
                ),
                forall|k: int| 0 <= k < seen@.len() ==> (#[trigger] seen@[k]) < n,
                forall|k: int| 0 <= k < stack@.len() ==> (#[trigger] stack@[k]) < n,
            decreases budget,
        {
            let ghost s0 = places(seen@);
            let ghost t0 = places(stack@);
            let p: usize = stack[stack.len() - 1];
            let ghost before = stack@;
            let popped = stack.pop();
            assert(places(stack@) =~= t0.drop_last());
            assert(t0.last() == p as int);
            let k = self.child_places(p);
            let ghost kp = places(k@);
            let mut x: usize = 0;
            while x < k.len()
                invariant
                    x <= k@.len(),
                    n == self.tasks@.len(),
                    forall|y: int| 0 <= y < k@.len() ==> (#[trigger] k@[y]) < n,
                    forall|y: int| 0 <= y < seen@.len() ==> (#[trigger] seen@[y]) < n,
                    forall|y: int| 0 <= y < stack@.len() ==> (#[trigger] stack@[y]) < n,
                    kp == places(k@),
                    places(seen@) == s0 + kp.take(x as int),
                    places(stack@) == t0.drop_last() + kp.take(x as int),
                decreases k@.len() - x,
            {
                let ghost s1 = seen@;
                let ghost t1 = stack@;
                seen.push(k[x]);
                stack.push(k[x]);
                assert(kp[x as int] == k@[x as int] as int);
                assert(places(seen@) =~= places(s1).push(kp[x as int]));
                assert(places(stack@) =~= places(t1).push(kp[x as int]));
                assert(kp.take(x + 1) =~= kp.take(x as int).push(kp[x as int]));
                x = x + 1;
            }
            assert(kp.take(kp.len() as int) =~= kp);
            budget = budget - 1;
            assert(places(seen@) + listing(tasks, places(stack@), budget as nat) =~= s0 + listing(
                tasks,
                t0,
                (budget + 1) as nat,
            ));
        }
        assert(places(seen@) =~= tree_order(tasks, root as int));
        assert(task_views(self.tasks@) == tasks);
        Ok(crate::dag::queries::pick_tasks(&self.tasks, &seen))
    }
}

} // verus!
