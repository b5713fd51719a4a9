//! What holds across operations.

use vstd::prelude::*;

use crate::dag::cleanup::{
    feature_places, leaves_entry, leaves_orphan, lemma_stripped_keeps, not_of_feature, stripped,
    without_feature,
};
use crate::dag::crud::lemma_without_places_from;
use crate::dag::model::{
    entry_refers, has_task, ids_distinct, is_parent_at, is_task_status, lemma_pos, lemma_pos_of,
    lemma_status_names, pos, task_columns, DagErrorView, DbView, JournalView, TaskView,
};
use crate::dag::queries::{is_ready, parent_failed};
use crate::dag::transitions::{
    completed_up, failed_up, lemma_completed_up, lemma_failed_up, lemma_parent_unique,
    lemma_status_set_keeps, released, restatus, same_but_status, status_refusal, status_set,
    unblocked,
};
use crate::dag::tree::descends;
use crate::journal::with_entry;
use crate::seqs::lemma_filter_members;

verus! {

/// A task that was created is read back as it was made, every other task as it
/// was before.
pub proof fn law_new_task_reads_back(db: DbView, row: TaskView, other: Seq<char>)
    requires
        db.wf(),
        !has_task(db.tasks, row.id),
    ensures
        ({
            let after = db.tasks.push(row);
            &&& has_task(after, row.id)
            &&& after[pos(after, row.id)] == row
            &&& has_task(db.tasks, other) ==> has_task(after, other) && after[pos(after, other)]
                == db.tasks[pos(db.tasks, other)]
        }),
{
    let after = db.tasks.push(row);
    assert(ids_distinct(after)) by {
        assert forall|i: int, j: int| 0 <= i < j < after.len() implies (#[trigger] after[i]).id != (
        #[trigger] after[j]).id by {
            assert(after[i] == db.tasks[i]);
            if j < db.tasks.len() {
                assert(after[j] == db.tasks[j]);
            }
        }
    }
    lemma_pos(after, db.tasks.len() as int);
    if has_task(db.tasks, other) {
        lemma_pos_of(db.tasks, other);
        lemma_pos(after, pos(db.tasks, other));
    }
}

/// A task that was created is ready at once, unless its parent has failed; and
/// its parent is ready no more.
pub proof fn law_new_task_is_ready(db: DbView, row: TaskView)
    requires
        db.wf(),
        !has_task(db.tasks, row.id),
        row.status == "pending"@,
        row.parent_id is Some ==> has_task(db.tasks, row.parent_id->0),
    ensures
        ({
            let after = DbView { tasks: db.tasks.push(row), ..db };
            &&& is_ready(after, row) <==> !parent_failed(db.tasks, row.parent_id)
            &&& forall|t: TaskView|
                row.parent_id == Some(#[trigger] t.id) ==> !is_ready(after, t)
        }),
{
    lemma_status_names();
    let after = DbView { tasks: db.tasks.push(row), ..db };
    let n = db.tasks.len() as int;
    assert(after.tasks[n] == row);
    assert forall|i: int| 0 <= i < after.tasks.len() implies (#[trigger] after.tasks[i]).parent_id
        != Some(row.id) by {
        if i < n {
            assert(after.tasks[i] == db.tasks[i]);
            if db.tasks[i].parent_id == Some(row.id) {
                let j = choose|j: int| is_parent_at(db.tasks, i, j);
                assert(db.tasks[j].id == row.id);
            }
        }
    }
    assert forall|k: int| 0 <= k < db.deps.len() implies (#[trigger] db.deps[k]).1 != row.id by {
        assert(has_task(db.tasks, db.deps[k].1));
    }
    assert(parent_failed(after.tasks, row.parent_id) == parent_failed(db.tasks, row.parent_id)) by {
        if parent_failed(after.tasks, row.parent_id) {
            let i = choose|i: int|
                0 <= i < after.tasks.len() && row.parent_id == Some((#[trigger] after.tasks[i]).id)
                    && after.tasks[i].status == "failed"@;
            assert(i < n);
            assert(after.tasks[i] == db.tasks[i]);
        }
        if parent_failed(db.tasks, row.parent_id) {
            let i = choose|i: int|
                0 <= i < n && row.parent_id == Some((#[trigger] db.tasks[i]).id)
                    && db.tasks[i].status == "failed"@;
            assert(after.tasks[i] == db.tasks[i]);
        }
    }
    assert forall|t: TaskView| row.parent_id == Some(#[trigger] t.id) implies !is_ready(
        after,
        t,
    ) by {
        assert(after.tasks[n].parent_id == Some(t.id));
    }
}

/// A task that is done stays done: no change of its status is accepted.
pub proof fn law_done_is_final(db: DbView, id: Seq<char>, new: Seq<char>)
    requires
        db.wf(),
        has_task(db.tasks, id),
        db.tasks[pos(db.tasks, id)].status == "done"@,
    ensures
        status_refusal(db.tasks, id, new) == Some(DagErrorView::InvalidTransition("done"@, new)),
{
    lemma_status_names();
}

/// A change of status takes hold, and touches nothing of any task but its
/// status and the time of its last change.
pub proof fn law_status_takes_hold(db: DbView, id: Seq<char>, new: Seq<char>, now: Seq<char>)
    requires
        db.wf(),
        has_task(db.tasks, id),
        is_task_status(new),
    ensures
        same_but_status(db.tasks, status_set(db.tasks, db.deps, id, new, now)),
        status_set(db.tasks, db.deps, id, new, now)[pos(db.tasks, id)].status == new,
        (DbView { tasks: status_set(db.tasks, db.deps, id, new, now), ..db }).wf(),
{
    lemma_status_set_keeps(db, id, new, now);
}

/// The statuses of the tasks once one of them has taken another.
proof fn lemma_set_statuses(db: DbView, i: int, new: Seq<char>, now: Seq<char>)
    requires
        db.wf(),
        0 <= i < db.tasks.len(),
        is_task_status(new),
    ensures
        forall|k: int|
            0 <= k < db.tasks.len() ==> is_task_status(
                (#[trigger] db.tasks.update(i, restatus(db.tasks[i], new, now))[k]).status,
            ),
        ids_distinct(db.tasks.update(i, restatus(db.tasks[i], new, now))),
{
    let set = db.tasks.update(i, restatus(db.tasks[i], new, now));
    assert forall|k: int| 0 <= k < set.len() implies is_task_status((#[trigger] set[k]).status) by {
        assert(task_columns(db.tasks[k], db.features));
    }
    assert forall|x: int, y: int| 0 <= x < y < set.len() implies (#[trigger] set[x]).id != (
    #[trigger] set[y]).id by {
        assert(db.tasks[x].id != db.tasks[y].id);
    }
}

/// Completing the last open child completes the parent.
pub proof fn law_last_child_completes_parent(db: DbView, id: Seq<char>, now: Seq<char>, j: int)
    requires
        db.wf(),
        has_task(db.tasks, id),
        is_parent_at(db.tasks, pos(db.tasks, id), j),
        forall|k: int|
            0 <= k < db.tasks.len() && k != pos(db.tasks, id) && (
            #[trigger] db.tasks[k]).parent_id == Some(db.tasks[j].id) ==> db.tasks[k].status
                == "done"@,
    ensures
        status_set(db.tasks, db.deps, id, "done"@, now)[j].status == "done"@,
{
    let i = pos(db.tasks, id);
    lemma_pos_of(db.tasks, id);
    lemma_status_names();
    lemma_set_statuses(db, i, "done"@, now);
    let set = db.tasks.update(i, restatus(db.tasks[i], "done"@, now));
    let u = unblocked(set, db.deps, id, now);
    assert forall|x: int, y: int| 0 <= x < y < u.len() implies (#[trigger] u[x]).id != (
    #[trigger] u[y]).id by {
        assert(set[x].id != set[y].id);
    }
    assert forall|k: int| 0 <= k < u.len() implies is_task_status((#[trigger] u[k]).status) by {
        assert(is_task_status(set[k].status));
    }
    assert(is_parent_at(u, i, j));
    lemma_parent_unique(u, i, j);
    assert forall|k: int|
        0 <= k < u.len() && (#[trigger] u[k]).parent_id == Some(u[j].id) implies u[k].status
        == "done"@ by {
        assert(db.tasks[k].parent_id == Some(db.tasks[j].id));
        assert(set[k].status == "done"@);
    }
    lemma_completed_up(u, i, now);
    if u[j].status != "done"@ {
        let next = u.update(j, restatus(u[j], "done"@, now));
        assert forall|k: int| 0 <= k < next.len() implies is_task_status(
            (#[trigger] next[k]).status,
        ) by {
            assert(is_task_status(u[k].status));
        }
        lemma_completed_up(next, j, now);
        assert(completed_up(next, j, now)[j] == next[j]);
    }
}

/// Completing a task leaves none of the tasks blocked that it alone held up.
pub proof fn law_completion_unblocks(db: DbView, id: Seq<char>, now: Seq<char>, k: int)
    requires
        db.wf(),
        has_task(db.tasks, id),
        0 <= k < db.tasks.len(),
        db.deps.contains((id, db.tasks[k].id)),
        forall|b: int|
            0 <= b < db.tasks.len() && db.deps.contains(((#[trigger] db.tasks[b]).id, db.tasks[k].id))
                && b != pos(db.tasks, id) ==> db.tasks[b].status == "done"@,
        db.tasks[k].status == "blocked"@,
    ensures
        status_set(db.tasks, db.deps, id, "done"@, now)[k].status != "blocked"@,
{
    let i = pos(db.tasks, id);
    lemma_pos_of(db.tasks, id);
    lemma_status_names();
    lemma_set_statuses(db, i, "done"@, now);
    let set = db.tasks.update(i, restatus(db.tasks[i], "done"@, now));
    let u = unblocked(set, db.deps, id, now);
    let kid = db.tasks[k].id;
    assert forall|d: int, b: int|
        #![trigger db.deps[d], set[b]]
        0 <= d < db.deps.len() && db.deps[d].1 == kid && 0 <= b < set.len() && set[b].id
            == db.deps[d].0 implies set[b].status == "done"@ by {
        if b != i {
            assert(db.deps[d] == (db.tasks[b].id, kid));
            assert(db.deps.contains((db.tasks[b].id, kid)));
        }
    }
    let x = choose|x: int| 0 <= x < db.deps.len() && db.deps[x] == (id, kid);
    assert(db.deps[x].0 != db.deps[x].1);
    assert(k != i);
    assert(released(set, db.deps, id, set[k]));
    assert(u[k].status == "pending"@);
    assert forall|y: int| 0 <= y < u.len() implies is_task_status((#[trigger] u[y]).status) by {
        assert(is_task_status(set[y].status));
    }
    lemma_completed_up(u, i, now);
    assert(completed_up(u, i, now)[k] == u[k] || completed_up(u, i, now)[k] == restatus(
        u[k],
        "done"@,
        now,
    ));
}

/// Completing a task changes the status of others in two ways only: a blocked
/// one becomes pending, or one becomes done.
pub proof fn law_completion_touches(db: DbView, id: Seq<char>, now: Seq<char>, k: int)
    requires
        db.wf(),
        has_task(db.tasks, id),
        0 <= k < db.tasks.len(),
    ensures
        ({
            let after = status_set(db.tasks, db.deps, id, "done"@, now)[k];
            ||| after == db.tasks[k]
            ||| after.status == "done"@
            ||| db.tasks[k].status == "blocked"@ && after.status == "pending"@
        }),
{
    let i = pos(db.tasks, id);
    lemma_pos_of(db.tasks, id);
    lemma_status_names();
    lemma_set_statuses(db, i, "done"@, now);
    let set = db.tasks.update(i, restatus(db.tasks[i], "done"@, now));
    let u = unblocked(set, db.deps, id, now);
    assert forall|y: int| 0 <= y < u.len() implies is_task_status((#[trigger] u[y]).status) by {
        assert(is_task_status(set[y].status));
    }
    lemma_completed_up(u, i, now);
    assert(completed_up(u, i, now)[k] == u[k] || completed_up(u, i, now)[k] == restatus(
        u[k],
        "done"@,
        now,
    ));
}

/// Every task but the one at `except` passes its failure on to its parent.
pub open spec fn failures_passed_up(tasks: Seq<TaskView>, except: int) -> bool {
    forall|x: int, y: int|
        x < tasks.len() && x != except && #[trigger] is_parent_at(tasks, x, y) && tasks[x].status
            == "failed"@ ==> tasks[y].status == "failed"@
}

proof fn lemma_failed_chain(tasks: Seq<TaskView>, a: int, x: int, except: int)
    requires
        failures_passed_up(tasks, except),
        descends(tasks, a, x),
        0 <= a,
        x < except,
        x < tasks.len(),
        tasks[x].status == "failed"@,
    ensures
        tasks[a].status == "failed"@,
    decreases x,
{
    if x != a {
        let y = choose|y: int| #[trigger] is_parent_at(tasks, x, y) && descends(tasks, a, y);
        lemma_failed_chain(tasks, a, y, except);
    }
}

proof fn lemma_descends_same(a: Seq<TaskView>, b: Seq<TaskView>, root: int, i: int)
    requires
        same_but_status(a, b),
        descends(a, root, i),
        i < a.len(),
    ensures
        descends(b, root, i),
    decreases i,
{
    if i != root {
        let j = choose|j: int| #[trigger] is_parent_at(a, i, j) && descends(a, root, j);
        assert(b[i].parent_id == a[i].parent_id && b[j].id == a[j].id);
        assert(is_parent_at(b, i, j));
        lemma_descends_same(a, b, root, j);
    }
}

proof fn lemma_failed_up_all(tasks: Seq<TaskView>, i: int, now: Seq<char>, a: int)
    requires
        ids_distinct(tasks),
        0 <= a < i < tasks.len(),
        descends(tasks, a, i),
        failures_passed_up(tasks, i),
        forall|k: int| 0 <= k < tasks.len() ==> is_task_status((#[trigger] tasks[k]).status),
    ensures
        failed_up(tasks, i, now)[a].status == "failed"@,
    decreases i,
{
    lemma_status_names();
    let j = choose|j: int| #[trigger] is_parent_at(tasks, i, j) && descends(tasks, a, j);
    lemma_parent_unique(tasks, i, j);
    if tasks[j].status == "failed"@ {
        lemma_failed_chain(tasks, a, j, i);
    } else {
        let next = tasks.update(j, restatus(tasks[j], "failed"@, now));
        assert(failed_up(tasks, i, now) == failed_up(next, j, now));
        assert forall|k: int| 0 <= k < next.len() implies is_task_status(
            (#[trigger] next[k]).status,
        ) by {
            assert(is_task_status(tasks[k].status));
        }
        assert(same_but_status(tasks, next));
        lemma_failed_up(next, j, now);
        assert(failed_up(next, j, now)[j] == next[j]);
        if a != j {
            assert forall|x: int, y: int| 0 <= x < y < next.len() implies (#[trigger] next[x]).id
                != (#[trigger] next[y]).id by {
                assert(tasks[x].id != tasks[y].id);
            }
            lemma_descends_same(tasks, next, a, j);
            assert(a < j) by {
                lemma_above(tasks, a, j);
            }
            assert forall|x: int, y: int|
                x < next.len() && x != j && #[trigger] is_parent_at(next, x, y) && next[x].status
                    == "failed"@ implies next[y].status == "failed"@ by {
                assert(is_parent_at(tasks, x, y));
                if x == i {
                    lemma_parent_unique(tasks, i, y);
                }
            }
            lemma_failed_up_all(next, j, now, a);
        }
    }
}

proof fn lemma_above(tasks: Seq<TaskView>, a: int, i: int)
    requires
        descends(tasks, a, i),
    ensures
        a <= i,
    decreases i,
{
    if i != a {
        let j = choose|j: int| #[trigger] is_parent_at(tasks, i, j) && descends(tasks, a, j);
        lemma_above(tasks, a, j);
    }
}

/// Failing a task fails its parent.
pub proof fn law_failure_fails_parent(db: DbView, id: Seq<char>, now: Seq<char>, j: int)
    requires
        db.wf(),
        has_task(db.tasks, id),
        is_parent_at(db.tasks, pos(db.tasks, id), j),
    ensures
        status_set(db.tasks, db.deps, id, "failed"@, now)[j].status == "failed"@,
{
    let i = pos(db.tasks, id);
    lemma_pos_of(db.tasks, id);
    lemma_status_names();
    lemma_set_statuses(db, i, "failed"@, now);
    let set = db.tasks.update(i, restatus(db.tasks[i], "failed"@, now));
    assert(is_parent_at(set, i, j));
    lemma_parent_unique(set, i, j);
    if set[j].status != "failed"@ {
        let next = set.update(j, restatus(set[j], "failed"@, now));
        assert forall|k: int| 0 <= k < next.len() implies is_task_status(
            (#[trigger] next[k]).status,
        ) by {
            assert(is_task_status(set[k].status));
        }
        lemma_failed_up(next, j, now);
        assert(failed_up(next, j, now)[j] == next[j]);
    }
}

/// Failing a task fails every ancestor, where no failed task has a parent that
/// is not failed.
pub proof fn law_failure_fails_ancestors(db: DbView, id: Seq<char>, now: Seq<char>, a: int)
    requires
        db.wf(),
        has_task(db.tasks, id),
        0 <= a < db.tasks.len(),
        a != pos(db.tasks, id),
        descends(db.tasks, a, pos(db.tasks, id)),
        failures_passed_up(db.tasks, pos(db.tasks, id)),
    ensures
        status_set(db.tasks, db.deps, id, "failed"@, now)[a].status == "failed"@,
{
    let i = pos(db.tasks, id);
    lemma_pos_of(db.tasks, id);
    lemma_status_names();
    lemma_set_statuses(db, i, "failed"@, now);
    let set = db.tasks.update(i, restatus(db.tasks[i], "failed"@, now));
    assert(same_but_status(db.tasks, set));
    lemma_descends_same(db.tasks, set, a, i);
    lemma_above(db.tasks, a, i);
    assert forall|x: int, y: int|
        x < set.len() && x != i && #[trigger] is_parent_at(set, x, y) && set[x].status
            == "failed"@ implies set[y].status == "failed"@ by {
        assert(is_parent_at(db.tasks, x, y));
    }
    lemma_failed_up_all(set, i, now, a);
}

/// Deleting the tasks of a feature leaves none of them, nor a dependency, a log
/// entry or a journal entry of theirs, and keeps the database in order.
pub proof fn law_deleted_feature_leaves_nothing(db: DbView, f: Seq<char>)
    requires
        db.wf(),
        !leaves_orphan(db, f),
        !leaves_entry(db, f),
    ensures
        forall|i: int|
            0 <= i < without_feature(db, f).tasks.len() ==> (#[trigger] without_feature(
                db,
                f,
            ).tasks[i]).feature_id != Some(f),
        forall|i: int|
            0 <= i < without_feature(db, f).journal.len() ==> (#[trigger] without_feature(
                db,
                f,
            ).journal[i]).feature_id != Some(f),
        without_feature(db, f).wf(),
{
    let gone = feature_places(db, f);
    let w = without_feature(db, f);
    lemma_stripped_keeps(db, f);
    assert forall|i: int| 0 <= i < w.tasks.len() implies (#[trigger] w.tasks[i]).feature_id != Some(
        f,
    ) by {
        let j = lemma_without_places_from(db.tasks, gone, i);
        assert(!gone.contains(j));
    }
    let p = not_of_feature(f);
    assert forall|i: int| 0 <= i < w.journal.len() implies (#[trigger] w.journal[i]).feature_id
        != Some(f) by {
        assert(w.journal.contains(w.journal[i]));
        lemma_filter_members(db.journal, p, w.journal[i]);
    }
}

/// The id of a journal entry is not given again, though the entry was deleted
/// with its feature.
pub proof fn law_entry_id_is_not_given_again(
    db: DbView,
    first: JournalView,
    f: Seq<char>,
    second: JournalView,
)
    requires
        db.wf(),
        db.last_entry < i64::MAX - 1,
        entry_refers(first, db.tasks, db.features),
    ensures
        ({
            let mid = with_entry(db, first);
            let id = mid.journal.last().id;
            &&& with_entry(stripped(mid, f), second).journal.last().id > id
            &&& with_entry(without_feature(mid, f), second).journal.last().id > id
        }),
{
}

} // verus!
