//! Status transition validation and auto-transitions.

use vstd::prelude::*;

use crate::dag::model::{
    entry_refers, has_task, ids_distinct, is_parent_at, is_task_status, lemma_pos, lemma_pos_of,
    lemma_status_names, parents_first, pos, task_columns, task_views, DagError, DagErrorView, Db,
    DbView, TaskView,
};
use crate::text::basic::{opt_same, same};

verus! {

/// The status changes that a task may make.
pub open spec fn valid_transition(from: Seq<char>, to: Seq<char>) -> bool {
    ||| from == "pending"@ && to == "in_progress"@
    ||| from == "pending"@ && to == "blocked"@
    ||| from == "in_progress"@ && to == "done"@
    ||| from == "in_progress"@ && to == "failed"@
    ||| from == "in_progress"@ && to == "pending"@
    ||| from == "blocked"@ && to == "pending"@
    ||| from == "failed"@ && to == "pending"@
}

/// Why the task `id` may not take the status `new`, where it may not.
pub open spec fn status_refusal(
    tasks: Seq<TaskView>,
    id: Seq<char>,
    new: Seq<char>,
) -> Option<DagErrorView> {
    if !has_task(tasks, id) {
        Some(DagErrorView::NoStatus(id))
    } else if !valid_transition(tasks[pos(tasks, id)].status, new) {
        Some(DagErrorView::InvalidTransition(tasks[pos(tasks, id)].status, new))
    } else {
        None
    }
}

/// The task with another status, changed at `now`.
pub open spec fn restatus(t: TaskView, status: Seq<char>, now: Seq<char>) -> TaskView {
    TaskView { status, updated_at: now, ..t }
}

/// Every blocker of the task `id` is done.
pub open spec fn blockers_done(
    tasks: Seq<TaskView>,
    deps: Seq<(Seq<char>, Seq<char>)>,
    id: Seq<char>,
) -> bool {
    forall|k: int, i: int|
        #![trigger deps[k], tasks[i]]
        0 <= k < deps.len() && deps[k].1 == id && 0 <= i < tasks.len() && tasks[i].id == deps[k].0
            ==> tasks[i].status == "done"@
}

/// Every child of the task `id` is done.
pub open spec fn children_done(tasks: Seq<TaskView>, id: Seq<char>) -> bool {
    forall|i: int|
        0 <= i < tasks.len() && (#[trigger] tasks[i]).parent_id == Some(id) ==> tasks[i].status
            == "done"@
}

/// The completion of `id` lets the task `t` go on: it was blocked, `id` was
/// one of its blockers, and all of them are done now.
pub open spec fn released(
    tasks: Seq<TaskView>,
    deps: Seq<(Seq<char>, Seq<char>)>,
    id: Seq<char>,
    t: TaskView,
) -> bool {
    t.status == "blocked"@ && deps.contains((id, t.id)) && blockers_done(tasks, deps, t.id)
}

/// The tasks after the blocked tasks that the completion of `id` lets go on
/// have become pending.
pub open spec fn unblocked(
    tasks: Seq<TaskView>,
    deps: Seq<(Seq<char>, Seq<char>)>,
    id: Seq<char>,
    now: Seq<char>,
) -> Seq<TaskView> {
    Seq::new(
        tasks.len(),
        |k: int|
            if released(tasks, deps, id, tasks[k]) {
                restatus(tasks[k], "pending"@, now)
            } else {
                tasks[k]
            },
    )
}

/// The tasks after the completion of the one at `i` has been passed up: its
/// parent is done once all children are, and so on upward, stopping at the
/// first ancestor that has an open child or was done before.
pub open spec fn completed_up(tasks: Seq<TaskView>, i: int, now: Seq<char>) -> Seq<TaskView>
    decreases i,
{
    if exists|j: int| is_parent_at(tasks, i, j) {
        let j = choose|j: int| is_parent_at(tasks, i, j);
        if children_done(tasks, tasks[j].id) && tasks[j].status != "done"@ && 0 <= j < i {
            completed_up(tasks.update(j, restatus(tasks[j], "done"@, now)), j, now)
        } else {
            tasks
        }
    } else {
        tasks
    }
}

/// The tasks after the failure of the one at `i` has been passed up: every
/// ancestor is failed, up to the first that was failed before.
pub open spec fn failed_up(tasks: Seq<TaskView>, i: int, now: Seq<char>) -> Seq<TaskView>
    decreases i,
{
    if exists|j: int| is_parent_at(tasks, i, j) {
        let j = choose|j: int| is_parent_at(tasks, i, j);
        if tasks[j].status != "failed"@ && 0 <= j < i {
            failed_up(tasks.update(j, restatus(tasks[j], "failed"@, now)), j, now)
        } else {
            tasks
        }
    } else {
        tasks
    }
}

/// The tasks after `id` took the status `new`, with all that follows from it.
pub open spec fn status_set(
    tasks: Seq<TaskView>,
    deps: Seq<(Seq<char>, Seq<char>)>,
    id: Seq<char>,
    new: Seq<char>,
    now: Seq<char>,
) -> Seq<TaskView> {
    let i = pos(tasks, id);
    let set = tasks.update(i, restatus(tasks[i], new, now));
    if new == "done"@ {
        completed_up(unblocked(set, deps, id, now), i, now)
    } else if new == "failed"@ {
        failed_up(set, i, now)
    } else {
        set
    }
}

/// The task `id` has been given the status `new` whatever it had, with all
/// that follows from it, where there is such a task.
pub open spec fn forced(
    before: DbView,
    after: DbView,
    r: Result<(), DagError>,
    id: Seq<char>,
    new: Seq<char>,
    now: Seq<char>,
) -> bool {
    if has_task(before.tasks, id) {
        r is Ok && after == (DbView {
            tasks: status_set(before.tasks, before.deps, id, new, now),
            ..before
        })
    } else {
        r is Err && r->Err_0@ == DagErrorView::NoTask(id) && after == before
    }
}

/// The two lists hold the same tasks in the same places, but for what a status
/// change touches.
pub open spec fn same_but_status(a: Seq<TaskView>, b: Seq<TaskView>) -> bool {
    &&& a.len() == b.len()
    &&& forall|i: int|
        0 <= i < a.len() ==> #[trigger] b[i] == (TaskView {
            status: b[i].status,
            updated_at: b[i].updated_at,
            ..a[i]
        })
}

/// Changing statuses keeps the invariant, where the new ones are statuses.
pub proof fn lemma_same_but_status_keeps(a: DbView, b: DbView)
    requires
        a.wf(),
        same_but_status(a.tasks, b.tasks),
        forall|i: int| 0 <= i < b.tasks.len() ==> is_task_status((#[trigger] b.tasks[i]).status),
        a.deps == b.deps,
        a.logs == b.logs,
        a.features == b.features,
        a.journal == b.journal,
        a.last_entry == b.last_entry,
    ensures
        b.wf(),
        forall|id: Seq<char>| #[trigger]
            has_task(a.tasks, id) ==> has_task(b.tasks, id) && pos(a.tasks, id) == pos(
                b.tasks,
                id,
            ),
{
    assert forall|i: int|
        0 <= i < b.tasks.len() && (#[trigger] b.tasks[i]).parent_id is Some implies exists|j: int|
        is_parent_at(b.tasks, i, j) by {
        assert(a.tasks[i].parent_id is Some);
        let j = choose|j: int| is_parent_at(a.tasks, i, j);
        assert(b.tasks[j].id == a.tasks[j].id);
        assert(is_parent_at(b.tasks, i, j));
    }
    assert forall|i: int, j: int|
        0 <= i < j < b.tasks.len() implies (#[trigger] b.tasks[i]).id != (
    #[trigger] b.tasks[j]).id by {
        assert(a.tasks[i].id != a.tasks[j].id);
    }
    assert forall|i: int| 0 <= i < b.tasks.len() implies task_columns(
        #[trigger] b.tasks[i],
        b.features,
    ) by {
        assert(task_columns(a.tasks[i], a.features));
    }
    assert forall|id: Seq<char>| #[trigger] has_task(a.tasks, id) implies has_task(b.tasks, id)
        && pos(a.tasks, id) == pos(b.tasks, id) by {
        lemma_pos_of(a.tasks, id);
        let i = pos(a.tasks, id);
        assert(b.tasks[i].id == id);
        lemma_pos(b.tasks, i);
    }
    assert forall|k: int| 0 <= k < b.deps.len() implies has_task(b.tasks, (#[trigger] b.deps[k]).0)
        && has_task(b.tasks, b.deps[k].1) && b.deps[k].0 != b.deps[k].1 by {
        assert(has_task(a.tasks, a.deps[k].0));
        assert(has_task(a.tasks, a.deps[k].1));
    }
    assert forall|k: int| 0 <= k < b.logs.len() implies has_task(
        b.tasks,
        (#[trigger] b.logs[k]).task_id,
    ) by {
        assert(has_task(a.tasks, a.logs[k].task_id));
    }
    assert forall|k: int| 0 <= k < b.journal.len() implies entry_refers(
        #[trigger] b.journal[k],
        b.tasks,
        b.features,
    ) by {
        assert(entry_refers(a.journal[k], a.tasks, a.features));
    }
}

/// With distinct ids a task has one parent at most.
pub proof fn lemma_parent_unique(tasks: Seq<TaskView>, i: int, j: int)
    requires
        ids_distinct(tasks),
        i < tasks.len(),
        is_parent_at(tasks, i, j),
    ensures
        (choose|x: int| is_parent_at(tasks, i, x)) == j,
{
    let x = choose|x: int| is_parent_at(tasks, i, x);
    assert(is_parent_at(tasks, i, x));
    if x < j {
        assert(tasks[x].id != tasks[j].id);
    } else if j < x {
        assert(tasks[j].id != tasks[x].id);
    }
}

/// Passing a completion up touches statuses only.
pub proof fn lemma_completed_up(tasks: Seq<TaskView>, i: int, now: Seq<char>)
    requires
        0 <= i < tasks.len(),
        forall|k: int| 0 <= k < tasks.len() ==> is_task_status((#[trigger] tasks[k]).status),
    ensures
        same_but_status(tasks, completed_up(tasks, i, now)),
        forall|k: int|
            0 <= k < tasks.len() ==> is_task_status(
                (#[trigger] completed_up(tasks, i, now)[k]).status,
            ),
        forall|k: int|
            i <= k < tasks.len() ==> #[trigger] completed_up(tasks, i, now)[k] == tasks[k],
        forall|k: int|
            0 <= k < tasks.len() ==> #[trigger] completed_up(tasks, i, now)[k] == tasks[k]
                || completed_up(tasks, i, now)[k] == restatus(tasks[k], "done"@, now),
    decreases i,
{
    if exists|j: int| is_parent_at(tasks, i, j) {
        let j = choose|j: int| is_parent_at(tasks, i, j);
        if children_done(tasks, tasks[j].id) && tasks[j].status != "done"@ {
            let next = tasks.update(j, restatus(tasks[j], "done"@, now));
            lemma_completed_up(next, j, now);
            assert(completed_up(tasks, i, now) == completed_up(next, j, now));
            assert(completed_up(next, j, now)[j] == next[j]);
        }
    }
}

/// Passing a failure up touches statuses only.
pub proof fn lemma_failed_up(tasks: Seq<TaskView>, i: int, now: Seq<char>)
    requires
        0 <= i < tasks.len(),
        forall|k: int| 0 <= k < tasks.len() ==> is_task_status((#[trigger] tasks[k]).status),
    ensures
        same_but_status(tasks, failed_up(tasks, i, now)),
        forall|k: int|
            0 <= k < tasks.len() ==> is_task_status((#[trigger] failed_up(tasks, i, now)[k]).status),
        forall|k: int| i <= k < tasks.len() ==> #[trigger] failed_up(tasks, i, now)[k] == tasks[k],
        forall|k: int|
            0 <= k < tasks.len() ==> #[trigger] failed_up(tasks, i, now)[k] == tasks[k]
                || failed_up(tasks, i, now)[k] == restatus(tasks[k], "failed"@, now),
    decreases i,
{
    if exists|j: int| is_parent_at(tasks, i, j) {
        let j = choose|j: int| is_parent_at(tasks, i, j);
        if tasks[j].status != "failed"@ {
            let next = tasks.update(j, restatus(tasks[j], "failed"@, now));
            lemma_failed_up(next, j, now);
            assert(failed_up(tasks, i, now) == failed_up(next, j, now));
            assert(failed_up(next, j, now)[j] == next[j]);
        }
    }
}

/// A status change keeps the invariant of the database.
pub proof fn lemma_status_set_keeps(db: DbView, id: Seq<char>, new: Seq<char>, now: Seq<char>)
    requires
        db.wf(),
        has_task(db.tasks, id),
        is_task_status(new),
    ensures
        same_but_status(db.tasks, status_set(db.tasks, db.deps, id, new, now)),
        (DbView { tasks: status_set(db.tasks, db.deps, id, new, now), ..db }).wf(),
        forall|k: int|
            0 <= k < db.tasks.len() ==> is_task_status(
                (#[trigger] status_set(db.tasks, db.deps, id, new, now)[k]).status,
            ),
        status_set(db.tasks, db.deps, id, new, now)[pos(db.tasks, id)] == restatus(
            db.tasks[pos(db.tasks, id)],
            new,
            now,
        ),
{
    let i = pos(db.tasks, id);
    lemma_pos_of(db.tasks, id);
    let set = db.tasks.update(i, restatus(db.tasks[i], new, now));
    assert forall|k: int| 0 <= k < set.len() implies is_task_status((#[trigger] set[k]).status) by {
        assert(task_columns(db.tasks[k], db.features));
    }
    lemma_status_names();
    let result = status_set(db.tasks, db.deps, id, new, now);
    if new == "done"@ {
        let u = unblocked(set, db.deps, id, now);
        lemma_completed_up(u, i, now);
        assert(u[i] == set[i]);
        assert(same_but_status(db.tasks, u));
        assert(completed_up(u, i, now)[i] == u[i]);
    } else if new == "failed"@ {
        lemma_failed_up(set, i, now);
        assert(failed_up(set, i, now)[i] == set[i]);
    }
    assert(same_but_status(db.tasks, result));
    lemma_same_but_status_keeps(db, DbView { tasks: result, ..db });
}

/// Whether a task may change from one status to another.
///
/// Valid transitions are pending to in_progress or blocked; in_progress to
/// done, failed or pending; blocked to pending; failed to pending.
pub fn is_valid_transition(from: &str, to: &str) -> (r: bool)
    ensures
        r == valid_transition(from@, to@),
{
    (same(from, "pending") && (same(to, "in_progress") || same(to, "blocked"))) || (same(
        from,
        "in_progress",
    ) && (same(to, "done") || same(to, "failed") || same(to, "pending"))) || ((same(from, "blocked")
        || same(from, "failed")) && same(to, "pending"))
}

impl Db {
    /// Gives the task at `i` another status.
    pub fn put_status_at(&mut self, i: usize, status: &str, now: &str)
        requires
            i < old(self)@.tasks.len(),
        ensures
            final(self)@ == (DbView {
                tasks: old(self)@.tasks.update(
                    i as int,
                    restatus(old(self)@.tasks[i as int], status@, now@),
                ),
                ..old(self)@
            }),
    {
        let ghost before = self.tasks@;
        let mut t = self.tasks[i].clone();
        t.status = status.to_owned();
        t.updated_at = now.to_owned();
        assert(t@ == restatus(before[i as int]@, status@, now@));
        self.tasks.set(i, t);
        assert(task_views(self.tasks@) =~= task_views(before).update(i as int, t@));
    }

    /// Whether every blocker of the task `id` is done.
    pub fn blockers_are_done(&self, id: &str) -> (r: bool)
        ensures
            r == blockers_done(self@.tasks, self@.deps, id@),
    {
        let mut k: usize = 0;
        while k < self.deps.len()
            invariant
                k <= self.deps@.len(),
                forall|l: int, i: int|
                    #![trigger self@.deps[l], self@.tasks[i]]
                    0 <= l < k && self@.deps[l].1 == id@ && 0 <= i < self@.tasks.len()
                        && self@.tasks[i].id == self@.deps[l].0 ==> self@.tasks[i].status
                        == "done"@,
            decreases self.deps@.len() - k,
        {
            assert(self@.deps[k as int] == self.deps@[k as int]@);
            if same(self.deps[k].blocked.as_str(), id) {
                let mut i: usize = 0;
                while i < self.tasks.len()
                    invariant
                        k < self.deps@.len(),
                        i <= self.tasks@.len(),
                        self@.deps[k as int].1 == id@,
                        self@.deps[k as int] == self.deps@[k as int]@,
                        forall|j: int|
                            0 <= j < i && (#[trigger] self@.tasks[j]).id == self@.deps[k as int].0
                                ==> self@.tasks[j].status == "done"@,
                    decreases self.tasks@.len() - i,
                {
                    assert(self@.tasks[i as int] == self.tasks@[i as int]@);
                    if same(self.tasks[i].id.as_str(), self.deps[k].blocker.as_str()) && !same(
                        self.tasks[i].status.as_str(),
                        "done",
                    ) {
                        return false;
                    }
                    i = i + 1;
                }
            }
            k = k + 1;
        }
        true
    }

    /// Whether every child of the task `id` is done.
    pub fn children_are_done(&self, id: &str) -> (r: bool)
        ensures
            r == children_done(self@.tasks, id@),
    {
        let mut i: usize = 0;
        while i < self.tasks.len()
            invariant
                i <= self.tasks@.len(),
                forall|j: int|
                    0 <= j < i && (#[trigger] self@.tasks[j]).parent_id == Some(id@)
                        ==> self@.tasks[j].status == "done"@,
            decreases self.tasks@.len() - i,
        {
            assert(self@.tasks[i as int] == self.tasks@[i as int]@);
            if opt_same(&self.tasks[i].parent_id, id) && !same(
                self.tasks[i].status.as_str(),
                "done",
            ) {
                return false;
            }
            i = i + 1;
        }
        true
    }

    /// Whether the dependency is recorded.
    pub fn has_dependency(&self, blocker: &str, blocked: &str) -> (r: bool)
        ensures
            r == self@.deps.contains((blocker@, blocked@)),
    {
        let mut k: usize = 0;
        while k < self.deps.len()
            invariant
                k <= self.deps@.len(),
                forall|l: int| 0 <= l < k ==> #[trigger] self@.deps[l] != (blocker@, blocked@),
            decreases self.deps@.len() - k,
        {
            assert(self@.deps[k as int] == self.deps@[k as int]@);
            if same(self.deps[k].blocker.as_str(), blocker) && same(
                self.deps[k].blocked.as_str(),
                blocked,
            ) {
                assert(self@.deps[k as int] == (blocker@, blocked@));
                return true;
            }
            k = k + 1;
        }
        false
    }

    /// When a blocker is marked done, moves the tasks that it was the last open
    /// blocker of from blocked to pending.
    pub fn auto_unblock_tasks(&mut self, blocker_id: &str, now: &str)
        ensures
            final(self)@ == (DbView {
                tasks: unblocked(old(self)@.tasks, old(self)@.deps, blocker_id@, now@),
                ..old(self)@
            }),
    {
        let ghost start = self@;
        let ghost goal = unblocked(start.tasks, start.deps, blocker_id@, now@);
        let mut i: usize = 0;
        while i < self.tasks.len()
            invariant
                i <= self.tasks@.len(),
                self.tasks@.len() == start.tasks.len(),
                goal == unblocked(start.tasks, start.deps, blocker_id@, now@),
                self@ == (DbView { tasks: self@.tasks, ..start }),
                self@.tasks.len() == start.tasks.len(),
                forall|j: int| 0 <= j < i ==> #[trigger] self@.tasks[j] == goal[j],
                forall|j: int| i <= j < start.tasks.len() ==> #[trigger] self@.tasks[j]
                    == start.tasks[j],
            decreases self.tasks@.len() - i,
        {
            let ghost mid = self@;
            assert(self@.tasks[i as int] == self.tasks@[i as int]@);
            proof {
                lemma_status_names();
                lemma_blockers_done_same(start.tasks, mid.tasks, start.deps, start.tasks[i as int].id);
            }
            let id = self.tasks[i].id.clone();
            if same(self.tasks[i].status.as_str(), "blocked") && self.has_dependency(
                blocker_id,
                id.as_str(),
            ) && self.blockers_are_done(id.as_str()) {
                self.put_status_at(i, "pending", now);
            }
            assert(self@.tasks[i as int] == goal[i as int]);
            assert(self@.tasks.len() == self.tasks@.len());
            i = i + 1;
        }
        assert(self@.tasks =~= goal);
    }

    /// When the task at `i` is done, marks its parent done if all children are,
    /// and so on upward.
    pub fn auto_complete_parent(&mut self, i: usize, now: &str)
        requires
            i < old(self)@.tasks.len(),
            ids_distinct(old(self)@.tasks),
            parents_first(old(self)@.tasks),
        ensures
            final(self)@ == (DbView {
                tasks: completed_up(old(self)@.tasks, i as int, now@),
                ..old(self)@
            }),
        decreases i,
    {
        match self.parent_index(i) {
            None => {},
            Some(j) => {
                proof {
                    lemma_parent_unique(self@.tasks, i as int, j as int);
                }
                assert(self@.tasks[j as int] == self.tasks@[j as int]@);
                let id = self.tasks[j].id.clone();
                if self.children_are_done(id.as_str()) && !same(
                    self.tasks[j].status.as_str(),
                    "done",
                ) {
                    let ghost before = self@.tasks;
                    self.put_status_at(j, "done", now);
                    proof {
                        lemma_update_keeps_shape(before, j as int, "done"@, now@);
                    }
                    self.auto_complete_parent(j, now);
                }
            },
        }
    }

    /// When the task at `i` failed, marks its parent failed, and so on upward.
    pub fn auto_fail_parent(&mut self, i: usize, now: &str)
        requires
            i < old(self)@.tasks.len(),
            ids_distinct(old(self)@.tasks),
            parents_first(old(self)@.tasks),
        ensures
            final(self)@ == (DbView {
                tasks: failed_up(old(self)@.tasks, i as int, now@),
                ..old(self)@
            }),
        decreases i,
    {
        match self.parent_index(i) {
            None => {},
            Some(j) => {
                proof {
                    lemma_parent_unique(self@.tasks, i as int, j as int);
                }
                assert(self@.tasks[j as int] == self.tasks@[j as int]@);
                if !same(self.tasks[j].status.as_str(), "failed") {
                    let ghost before = self@.tasks;
                    self.put_status_at(j, "failed", now);
                    proof {
                        lemma_update_keeps_shape(before, j as int, "failed"@, now@);
                    }
                    self.auto_fail_parent(j, now);
                }
            },
        }
    }

    /// Where the parent of the task at `i` stands.
    pub fn parent_index(&self, i: usize) -> (r: Option<usize>)
        requires
            i < self@.tasks.len(),
            ids_distinct(self@.tasks),
            parents_first(self@.tasks),
        ensures
            match r {
                Some(j) => is_parent_at(self@.tasks, i as int, j as int),
                None => self@.tasks[i as int].parent_id is None && forall|j: int|
                    !is_parent_at(self@.tasks, i as int, j),
            },
    {
        assert(self@.tasks[i as int] == self.tasks@[i as int]@);
        match &self.tasks[i].parent_id {
            None => None,
            Some(p) => {
                proof {
                    let j = choose|j: int| is_parent_at(self@.tasks, i as int, j);
                    assert(is_parent_at(self@.tasks, i as int, j));
                    lemma_pos(self@.tasks, j);
                }
                self.find_task(p.as_str())
            },
        }
    }

    /// Gives a task a status whatever it had, with all that follows from it.
    pub fn force_task_status(&mut self, task_id: &str, new_status: &str, now: &str) -> (r: Result<
        (),
        DagError,
    >)
        requires
            old(self)@.wf(),
            is_task_status(new_status@),
        ensures
            final(self)@.wf(),
            forced(old(self)@, final(self)@, r, task_id@, new_status@, now@),
    {
        match self.find_task(task_id) {
            None => Err(DagError::NoTask(task_id.to_owned())),
            Some(i) => {
                self.move_status_at(i, task_id, new_status, now);
                Ok(())
            },
        }
    }

    /// Marks a task done, whatever its status.
    pub fn force_complete_task(&mut self, task_id: &str, now: &str) -> (r: Result<(), DagError>)
        requires
            old(self)@.wf(),
        ensures
            final(self)@.wf(),
            forced(old(self)@, final(self)@, r, task_id@, "done"@, now@),
    {
        self.force_task_status(task_id, "done", now)
    }

    /// Marks a task failed, whatever its status.
    pub fn force_fail_task(&mut self, task_id: &str, now: &str) -> (r: Result<(), DagError>)
        requires
            old(self)@.wf(),
        ensures
            final(self)@.wf(),
            forced(old(self)@, final(self)@, r, task_id@, "failed"@, now@),
    {
        self.force_task_status(task_id, "failed", now)
    }

    /// Makes a task pending again, whatever its status.
    pub fn force_reset_task(&mut self, task_id: &str, now: &str) -> (r: Result<(), DagError>)
        requires
            old(self)@.wf(),
        ensures
            final(self)@.wf(),
            forced(old(self)@, final(self)@, r, task_id@, "pending"@, now@),
    {
        self.force_task_status(task_id, "pending", now)
    }

    /// Gives the task at `i` a status, with all that follows from it.
    fn move_status_at(&mut self, i: usize, task_id: &str, new_status: &str, now: &str)
        requires
            old(self)@.wf(),
            is_task_status(new_status@),
            i < old(self)@.tasks.len(),
            i == pos(old(self)@.tasks, task_id@),
            old(self)@.tasks[i as int].id == task_id@,
        ensures
            final(self)@.wf(),
            final(self)@ == (DbView {
                tasks: status_set(
                    old(self)@.tasks,
                    old(self)@.deps,
                    task_id@,
                    new_status@,
                    now@,
                ),
                ..old(self)@
            }),
    {
        let ghost start = self@;
        self.put_status_at(i, new_status, now);
        proof {
            lemma_update_keeps_shape(start.tasks, i as int, new_status@, now@);
            lemma_status_names();
            lemma_status_set_keeps(start, task_id@, new_status@, now@);
        }
        if same(new_status, "done") {
            let ghost mid = self@;
            self.auto_unblock_tasks(task_id, now);
            proof {
                lemma_unblocked_shape(mid.tasks, mid.deps, task_id@, now@);
            }
            self.auto_complete_parent(i, now);
        } else if same(new_status, "failed") {
            self.auto_fail_parent(i, now);
        }
    }

    /// Sets the status of a task, with validation and auto-transitions.
    ///
    /// The change must be allowed. A task that is done lets go on the blocked
    /// tasks of which it was the last open blocker, and completes its parent
    /// once all children are done; one that failed fails its ancestors.
    pub fn set_task_status(&mut self, task_id: &str, new_status: &str, now: &str) -> (r: Result<
        (),
        DagError,
    >)
        requires
            old(self)@.wf(),
        ensures
            final(self)@.wf(),
            match status_refusal(old(self)@.tasks, task_id@, new_status@) {
                Some(e) => r is Err && r->Err_0@ == e && final(self)@ == old(self)@,
                None => r is Ok && final(self)@ == (DbView {
                    tasks: status_set(
                        old(self)@.tasks,
                        old(self)@.deps,
                        task_id@,
                        new_status@,
                        now@,
                    ),
                    ..old(self)@
                }),
            },
    {
        let ghost start = self@;
        let i: usize = match self.find_task(task_id) {
            None => {
                return Err(DagError::NoStatus(task_id.to_owned()));
            },
            Some(i) => i,
        };
        assert(self@.tasks[i as int] == self.tasks@[i as int]@);
        if !is_valid_transition(self.tasks[i].status.as_str(), new_status) {
            return Err(
                DagError::InvalidTransition(self.tasks[i].status.clone(), new_status.to_owned()),
            );
        }
        self.move_status_at(i, task_id, new_status, now);
        Ok(())
    }
}

/// Marking blocked tasks pending changes nothing about which tasks are done.
proof fn lemma_blockers_done_same(
    a: Seq<TaskView>,
    b: Seq<TaskView>,
    deps: Seq<(Seq<char>, Seq<char>)>,
    id: Seq<char>,
)
    requires
        a.len() == b.len(),
        forall|i: int|
            0 <= i < a.len() ==> (#[trigger] b[i]).id == a[i].id && ((b[i].status == "done"@) == (
            a[i].status == "done"@)),
    ensures
        blockers_done(a, deps, id) == blockers_done(b, deps, id),
{
    if blockers_done(a, deps, id) {
        assert forall|k: int, i: int|
            #![trigger deps[k], b[i]]
            0 <= k < deps.len() && deps[k].1 == id && 0 <= i < b.len() && b[i].id
                == deps[k].0 implies b[i].status == "done"@ by {
            assert(a[i].id == deps[k].0);
        }
    }
    if blockers_done(b, deps, id) {
        assert forall|k: int, i: int|
            #![trigger deps[k], a[i]]
            0 <= k < deps.len() && deps[k].1 == id && 0 <= i < a.len() && a[i].id
                == deps[k].0 implies a[i].status == "done"@ by {
            assert(b[i].id == deps[k].0);
        }
    }
}

/// A status change leaves ids and parents as they are.
proof fn lemma_update_keeps_shape(tasks: Seq<TaskView>, j: int, s: Seq<char>, now: Seq<char>)
    requires
        0 <= j < tasks.len(),
        ids_distinct(tasks),
        parents_first(tasks),
    ensures
        ids_distinct(tasks.update(j, restatus(tasks[j], s, now))),
        parents_first(tasks.update(j, restatus(tasks[j], s, now))),
{
    let b = tasks.update(j, restatus(tasks[j], s, now));
    lemma_shape(tasks, b);
}

/// Lists with the same ids and parents agree on distinctness and order.
proof fn lemma_shape(a: Seq<TaskView>, b: Seq<TaskView>)
    requires
        ids_distinct(a),
        parents_first(a),
        a.len() == b.len(),
        forall|i: int|
            0 <= i < a.len() ==> (#[trigger] b[i]).id == a[i].id && b[i].parent_id
                == a[i].parent_id,
    ensures
        ids_distinct(b),
        parents_first(b),
{
    assert forall|i: int, j: int| 0 <= i < j < b.len() implies (#[trigger] b[i]).id != (
    #[trigger] b[j]).id by {
        assert(a[i].id != a[j].id);
    }
    assert forall|i: int|
        0 <= i < b.len() && (#[trigger] b[i]).parent_id is Some implies exists|j: int|
        is_parent_at(b, i, j) by {
        assert(a[i].parent_id is Some);
        let j = choose|j: int| is_parent_at(a, i, j);
        assert(b[j].id == a[j].id);
        assert(is_parent_at(b, i, j));
    }
}

proof fn lemma_unblocked_shape(
    tasks: Seq<TaskView>,
    deps: Seq<(Seq<char>, Seq<char>)>,
    id: Seq<char>,
    now: Seq<char>,
)
    requires
        ids_distinct(tasks),
        parents_first(tasks),
    ensures
        ids_distinct(unblocked(tasks, deps, id, now)),
        parents_first(unblocked(tasks, deps, id, now)),
{
    lemma_shape(tasks, unblocked(tasks, deps, id, now));
}

} // verus!
