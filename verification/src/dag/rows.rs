//! What the operations on tasks do to their rows.

use vstd::prelude::*;

use crate::dag::claims::after_retry;
use crate::dag::cleanup::{
    dep_untouched, feature_places, not_of_feature, stripped, without_feature,
};
use crate::dag::crud::{
    after_delete, delete_children, delete_from, delete_refusal, dep_stays, first_free,
    lemma_without_places, lemma_without_places_from, log_stays, new_row, staying_before,
    still_blocks, updated, without_places, CreateTaskParams, TaskUpdate,
};
use crate::dag::dependencies::{
    is_walk, lemma_reaches_step, lemma_reaches_trans, reaches, step_at,
};
use crate::dag::model::{
    has_task, ids_distinct, is_parent_at, is_task_status, lemma_pos_of, lemma_status_names, pos,
    task_columns, DagError, DagErrorView, DbView, JournalView, LogView, TaskView,
};
use crate::dag::tasks::{derived_status, is_child};
use crate::dag::transitions::{
    completed_up, failed_up, forced, lemma_completed_up, lemma_failed_up, lemma_status_set_keeps,
    restatus, status_refusal, status_set, unblocked,
};
use crate::dag::tree::descends;
use crate::seqs::lemma_filter_members;
use crate::text::basic::opt_str;

verus! {

/// A change of status is accepted exactly where it is one of these seven: a
/// pending task starts or is blocked; one in progress is done, fails or goes
/// back; a blocked or a failed one becomes pending. A refusal tells both
/// statuses.
pub proof fn law_accepted_changes(tasks: Seq<TaskView>, i: int, new: Seq<char>)
    requires
        ids_distinct(tasks),
        0 <= i < tasks.len(),
    ensures
        ({
            let old = tasks[i].status;
            let r = status_refusal(tasks, tasks[i].id, new);
            &&& r is None <==> {
                ||| old == "pending"@ && (new == "in_progress"@ || new == "blocked"@)
                ||| old == "in_progress"@ && (new == "done"@ || new == "failed"@ || new
                    == "pending"@)
                ||| old == "blocked"@ && new == "pending"@
                ||| old == "failed"@ && new == "pending"@
            }
            &&& r is Some ==> r->0 == DagErrorView::InvalidTransition(old, new)
        }),
{
    lemma_status_names();
    crate::dag::model::lemma_pos(tasks, i);
}

/// A status that is neither a completion nor a failure changes one row only.
pub proof fn law_plain_change_touches_one(
    db: DbView,
    id: Seq<char>,
    new: Seq<char>,
    now: Seq<char>,
    k: int,
)
    requires
        db.wf(),
        has_task(db.tasks, id),
        new == "pending"@ || new == "in_progress"@ || new == "blocked"@,
        0 <= k < db.tasks.len(),
    ensures
        ({
            let after = status_set(db.tasks, db.deps, id, new, now);
            &&& db.tasks[k].id != id ==> after[k] == db.tasks[k]
            &&& db.tasks[k].id == id ==> after[k] == (TaskView {
                status: new,
                updated_at: now,
                ..db.tasks[k]
            })
        }),
{
    lemma_status_names();
    lemma_pos_of(db.tasks, id);
    crate::dag::model::lemma_pos(db.tasks, k);
}

/// The rows of the tasks above are all that a failure touches beside its own.
pub proof fn law_failure_touches(db: DbView, id: Seq<char>, now: Seq<char>, k: int)
    requires
        db.wf(),
        has_task(db.tasks, id),
        0 <= k < db.tasks.len(),
    ensures
        ({
            let after = status_set(db.tasks, db.deps, id, "failed"@, now);
            &&& !descends(db.tasks, k, pos(db.tasks, id)) ==> after[k] == db.tasks[k]
            &&& after[k] == db.tasks[k] || after[k].status == "failed"@
        }),
{
    let i = pos(db.tasks, id);
    lemma_pos_of(db.tasks, id);
    lemma_status_names();
    let set = db.tasks.update(i, restatus(db.tasks[i], "failed"@, now));
    lemma_set(db, i, "failed"@, now);
    lemma_failed_up(set, i, now);
    if failed_up(set, i, now)[k] != set[k] {
        lemma_failed_above(set, i, now, k);
        lemma_descends_kept(set, db.tasks, k, i);
    }
    assert(descends(db.tasks, i, i));
}

/// A task that is not above the completed one changes exactly where it was
/// blocked, the completed one blocked it, and every other task that blocks it is
/// done: then it is pending.
pub proof fn law_completion_effect(db: DbView, id: Seq<char>, now: Seq<char>, k: int)
    requires
        db.wf(),
        has_task(db.tasks, id),
        0 <= k < db.tasks.len(),
        !descends(db.tasks, k, pos(db.tasks, id)),
    ensures
        ({
            let after = status_set(db.tasks, db.deps, id, "done"@, now)[k];
            let freed = db.tasks[k].status == "blocked"@ && db.deps.contains((id, db.tasks[k].id))
                && forall|b: int|
                0 <= b < db.tasks.len() && db.deps.contains(
                    ((#[trigger] db.tasks[b]).id, db.tasks[k].id),
                ) && db.tasks[b].id != id ==> db.tasks[b].status == "done"@;
            after == if freed {
                TaskView { status: "pending"@, updated_at: now, ..db.tasks[k] }
            } else {
                db.tasks[k]
            }
        }),
{
    let i = pos(db.tasks, id);
    lemma_pos_of(db.tasks, id);
    lemma_status_names();
    lemma_set(db, i, "done"@, now);
    let set = db.tasks.update(i, restatus(db.tasks[i], "done"@, now));
    let u = unblocked(set, db.deps, id, now);
    assert(descends(db.tasks, i, i));
    assert(k != i);
    let kid = db.tasks[k].id;
    let freed = db.tasks[k].status == "blocked"@ && db.deps.contains((id, kid)) && forall|b: int|
        0 <= b < db.tasks.len() && db.deps.contains(((#[trigger] db.tasks[b]).id, kid))
            && db.tasks[b].id != id ==> db.tasks[b].status == "done"@;
    if freed {
        assert forall|d: int, b: int|
            #![trigger db.deps[d], set[b]]
            0 <= d < db.deps.len() && db.deps[d].1 == kid && 0 <= b < set.len() && set[b].id
                == db.deps[d].0 implies set[b].status == "done"@ by {
            if b != i {
                assert(db.deps[d] == (db.tasks[b].id, kid));
                assert(db.deps.contains((db.tasks[b].id, kid)));
                crate::dag::model::lemma_pos(db.tasks, b);
            }
        }
    } else if db.tasks[k].status == "blocked"@ && db.deps.contains((id, kid)) {
        let b = choose|b: int|
            0 <= b < db.tasks.len() && db.deps.contains(((#[trigger] db.tasks[b]).id, kid))
                && db.tasks[b].id != id && db.tasks[b].status != "done"@;
        let d = choose|d: int| 0 <= d < db.deps.len() && db.deps[d] == (db.tasks[b].id, kid);
        assert(set[b] == db.tasks[b]);
        assert(db.deps[d].1 == kid && set[b].id == db.deps[d].0);
    }
    assert(u[k] == if freed {
        restatus(db.tasks[k], "pending"@, now)
    } else {
        db.tasks[k]
    });
    assert forall|y: int| 0 <= y < u.len() implies is_task_status((#[trigger] u[y]).status) by {
        assert(is_task_status(set[y].status));
    }
    lemma_completed_up(u, i, now);
    if completed_up(u, i, now)[k] != u[k] {
        lemma_completed_above(u, i, now, k);
        lemma_descends_kept(u, db.tasks, k, i);
    }
}

/// A parent that was not done, and that has another child which is neither done
/// nor above the completed task, is not done by the completion.
pub proof fn law_open_child_keeps_parent_open(
    db: DbView,
    id: Seq<char>,
    now: Seq<char>,
    j: int,
    other: int,
)
    requires
        db.wf(),
        has_task(db.tasks, id),
        0 <= j < db.tasks.len(),
        0 <= other < db.tasks.len(),
        db.tasks[j].status != "done"@,
        db.tasks[other].parent_id == Some(db.tasks[j].id),
        db.tasks[other].status != "done"@,
        !descends(db.tasks, other, pos(db.tasks, id)),
        db.tasks[j].id != id,
    ensures
        status_set(db.tasks, db.deps, id, "done"@, now)[j].status != "done"@,
{
    let i = pos(db.tasks, id);
    lemma_pos_of(db.tasks, id);
    lemma_status_names();
    lemma_set(db, i, "done"@, now);
    let set = db.tasks.update(i, restatus(db.tasks[i], "done"@, now));
    let u = unblocked(set, db.deps, id, now);
    assert forall|y: int| 0 <= y < u.len() implies is_task_status((#[trigger] u[y]).status) by {
        assert(is_task_status(set[y].status));
    }
    assert forall|x: int, y: int| 0 <= x < y < u.len() implies (#[trigger] u[x]).id != (
    #[trigger] u[y]).id by {
        assert(set[x].id != set[y].id);
    }
    assert(descends(db.tasks, i, i));
    assert(other != i);
    assert(u[other].status != "done"@ && u[j].status != "done"@);
    if completed_up(u, i, now)[j].status == "done"@ {
        lemma_completed_needs(u, i, now, j, other);
        lemma_descends_kept(u, db.tasks, other, i);
    }
}

proof fn lemma_set(db: DbView, i: int, new: Seq<char>, now: Seq<char>)
    requires
        db.wf(),
        0 <= i < db.tasks.len(),
        is_task_status(new),
    ensures
        forall|k: int|
            0 <= k < db.tasks.len() ==> is_task_status(
                (#[trigger] db.tasks.update(i, restatus(db.tasks[i], new, now))[k]).status,
            ),
        ids_distinct(db.tasks.update(i, restatus(db.tasks[i], new, now))),
{
    let set = db.tasks.update(i, restatus(db.tasks[i], new, now));
    assert forall|k: int| 0 <= k < set.len() implies is_task_status((#[trigger] set[k]).status) by {
        assert(task_columns(db.tasks[k], db.features));
    }
    assert forall|x: int, y: int| 0 <= x < y < set.len() implies (#[trigger] set[x]).id != (
    #[trigger] set[y]).id by {
        assert(db.tasks[x].id != db.tasks[y].id);
    }
}

/// Who is above whom rests on ids and parents alone.
proof fn lemma_descends_kept(a: Seq<TaskView>, b: Seq<TaskView>, root: int, i: int)
    requires
        a.len() == b.len(),
        forall|k: int|
            0 <= k < a.len() ==> (#[trigger] a[k]).id == b[k].id && a[k].parent_id
                == b[k].parent_id,
        descends(a, root, i),
        i < a.len(),
    ensures
        descends(b, root, i),
    decreases i,
{
    if i != root {
        let j = choose|j: int| #[trigger] is_parent_at(a, i, j) && descends(a, root, j);
        assert(a[i].parent_id == b[i].parent_id && a[j].id == b[j].id);
        assert(is_parent_at(b, i, j));
        lemma_descends_kept(a, b, root, j);
    }
}

proof fn lemma_failed_above(tasks: Seq<TaskView>, i: int, now: Seq<char>, k: int)
    requires
        0 <= i < tasks.len(),
        0 <= k < tasks.len(),
        forall|x: int| 0 <= x < tasks.len() ==> is_task_status((#[trigger] tasks[x]).status),
        failed_up(tasks, i, now)[k] != tasks[k],
    ensures
        descends(tasks, k, i),
    decreases i,
{
    let j = choose|j: int| is_parent_at(tasks, i, j);
    assert(is_parent_at(tasks, i, j));
    let next = tasks.update(j, restatus(tasks[j], "failed"@, now));
    assert(descends(tasks, j, j));
    if k != j {
        assert forall|x: int| 0 <= x < next.len() implies is_task_status(
            (#[trigger] next[x]).status,
        ) by {
            assert(is_task_status(tasks[x].status));
        }
        assert(next[k] == tasks[k]);
        lemma_failed_above(next, j, now, k);
        lemma_descends_kept(next, tasks, k, j);
    }
    assert(is_parent_at(tasks, i, j) && descends(tasks, k, j));
}

proof fn lemma_completed_above(tasks: Seq<TaskView>, i: int, now: Seq<char>, k: int)
    requires
        0 <= i < tasks.len(),
        0 <= k < tasks.len(),
        forall|x: int| 0 <= x < tasks.len() ==> is_task_status((#[trigger] tasks[x]).status),
        completed_up(tasks, i, now)[k] != tasks[k],
    ensures
        descends(tasks, k, i),
    decreases i,
{
    let j = choose|j: int| is_parent_at(tasks, i, j);
    assert(is_parent_at(tasks, i, j));
    let next = tasks.update(j, restatus(tasks[j], "done"@, now));
    assert(descends(tasks, j, j));
    if k != j {
        assert forall|x: int| 0 <= x < next.len() implies is_task_status(
            (#[trigger] next[x]).status,
        ) by {
            assert(is_task_status(tasks[x].status));
        }
        assert(next[k] == tasks[k]);
        lemma_completed_above(next, j, now, k);
        lemma_descends_kept(next, tasks, k, j);
    }
    assert(is_parent_at(tasks, i, j) && descends(tasks, k, j));
}

/// A task that becomes done on the way up has no child that is not done, but for
/// those that became done on the way.
proof fn lemma_completed_needs(
    tasks: Seq<TaskView>,
    i: int,
    now: Seq<char>,
    k: int,
    other: int,
)
    requires
        0 <= i < tasks.len(),
        0 <= k < tasks.len(),
        0 <= other < tasks.len(),
        ids_distinct(tasks),
        forall|x: int| 0 <= x < tasks.len() ==> is_task_status((#[trigger] tasks[x]).status),
        tasks[k].status != "done"@,
        completed_up(tasks, i, now)[k].status == "done"@,
        tasks[other].parent_id == Some(tasks[k].id),
        tasks[other].status != "done"@,
    ensures
        descends(tasks, other, i),
    decreases i,
{
    let j = choose|j: int| is_parent_at(tasks, i, j);
    assert(is_parent_at(tasks, i, j));
    let next = tasks.update(j, restatus(tasks[j], "done"@, now));
    assert(completed_up(tasks, i, now) == completed_up(next, j, now));
    assert forall|x: int| 0 <= x < next.len() implies is_task_status((#[trigger] next[x]).status) by {
        assert(is_task_status(tasks[x].status));
    }
    assert forall|x: int, y: int| 0 <= x < y < next.len() implies (#[trigger] next[x]).id != (
    #[trigger] next[y]).id by {
        assert(tasks[x].id != tasks[y].id);
    }
    assert(descends(tasks, j, j));
    if other == j {
        assert(is_parent_at(tasks, i, j) && descends(tasks, other, j));
    } else if k == j {
        assert(tasks[other].parent_id == Some(tasks[j].id));
    } else {
        assert(next[k] == tasks[k] && next[other] == tasks[other]);
        lemma_completed_needs(next, j, now, k, other);
        lemma_descends_kept(next, tasks, other, j);
        assert(is_parent_at(tasks, i, j) && descends(tasks, other, j));
    }
}

/// The task stands below `i`, or is `i`, and has no children.
pub open spec fn is_leaf_below(tasks: Seq<TaskView>, i: int, l: int) -> bool {
    &&& 0 <= l < tasks.len()
    &&& descends(tasks, i, l)
    &&& forall|j: int| !#[trigger] is_child(tasks, l, j)
}

/// The derived status of a task says what the leaves below it say: it is done
/// exactly where all of them are, failed exactly where one of them is, and a
/// parent is in progress exactly where none failed and one is in progress, and
/// else pending.
pub proof fn law_derived_from_leaves(tasks: Seq<TaskView>, i: int)
    requires
        ids_distinct(tasks),
        0 <= i < tasks.len(),
        forall|k: int| 0 <= k < tasks.len() ==> is_task_status((#[trigger] tasks[k]).status),
    ensures
        derived_status(tasks, i) == "done"@ <==> forall|l: int| #[trigger]
            is_leaf_below(tasks, i, l) ==> tasks[l].status == "done"@,
        derived_status(tasks, i) == "failed"@ <==> exists|l: int| #[trigger]
            is_leaf_below(tasks, i, l) && tasks[l].status == "failed"@,
        derived_status(tasks, i) == "in_progress"@ <==> (exists|l: int| #[trigger]
            is_leaf_below(tasks, i, l) && tasks[l].status == "in_progress"@) && (forall|l: int|
            #[trigger] is_leaf_below(tasks, i, l) ==> tasks[l].status != "failed"@),
        (exists|j: int| is_child(tasks, i, j)) ==> derived_status(tasks, i) == "done"@
            || derived_status(tasks, i) == "failed"@ || derived_status(tasks, i) == "in_progress"@
            || derived_status(tasks, i) == "pending"@,
        (forall|j: int| !#[trigger] is_child(tasks, i, j)) ==> derived_status(tasks, i)
            == tasks[i].status,
    decreases tasks.len() - i,
{
    lemma_status_names();
    assert(descends(tasks, i, i));
    if exists|j: int| is_child(tasks, i, j) {
        assert forall|j: int| #[trigger] is_child(tasks, i, j) implies {
            &&& derived_status(tasks, j) == "done"@ <==> forall|l: int| #[trigger]
                is_leaf_below(tasks, j, l) ==> tasks[l].status == "done"@
            &&& derived_status(tasks, j) == "failed"@ <==> exists|l: int| #[trigger]
                is_leaf_below(tasks, j, l) && tasks[l].status == "failed"@
            &&& derived_status(tasks, j) == "in_progress"@ <==> (exists|l: int| #[trigger]
                is_leaf_below(tasks, j, l) && tasks[l].status == "in_progress"@) && (forall|l: int|
                #[trigger] is_leaf_below(tasks, j, l) ==> tasks[l].status != "failed"@)
        } by {
            law_derived_from_leaves(tasks, j);
        }
        assert forall|l: int| #[trigger] is_leaf_below(tasks, i, l) implies exists|j: int|
            is_child(tasks, i, j) && is_leaf_below(tasks, j, l) by {
            assert(l != i);
            let j = lemma_below_child(tasks, i, l);
            assert(is_child(tasks, i, j) && is_leaf_below(tasks, j, l));
        }
        assert forall|j: int, l: int|
            #![trigger is_child(tasks, i, j), is_leaf_below(tasks, j, l)]
            is_child(tasks, i, j) && is_leaf_below(tasks, j, l) implies is_leaf_below(
            tasks,
            i,
            l,
        ) by {
            lemma_child_below(tasks, i, j, l);
        }
    } else {
        assert forall|l: int| #[trigger] is_leaf_below(tasks, i, l) implies l == i by {
            if l != i {
                let j = lemma_below_child(tasks, i, l);
                assert(is_child(tasks, i, j));
            }
        }
        assert(is_leaf_below(tasks, i, i));
    }
}

/// What stands below a task stands below one of its children.
proof fn lemma_below_child(tasks: Seq<TaskView>, i: int, l: int) -> (j: int)
    requires
        0 <= i,
        descends(tasks, i, l),
        l != i,
        l < tasks.len(),
    ensures
        is_child(tasks, i, j),
        descends(tasks, j, l),
    decreases l,
{
    let y = choose|y: int| #[trigger] is_parent_at(tasks, l, y) && descends(tasks, i, y);
    assert(descends(tasks, l, l));
    if y == i {
        assert(is_child(tasks, i, l));
        l
    } else {
        let j = lemma_below_child(tasks, i, y);
        assert(is_parent_at(tasks, l, y) && descends(tasks, j, y));
        j
    }
}

/// What stands below a child stands below the task.
proof fn lemma_child_below(tasks: Seq<TaskView>, i: int, j: int, l: int)
    requires
        is_child(tasks, i, j),
        descends(tasks, j, l),
        l < tasks.len(),
    ensures
        descends(tasks, i, l),
    decreases l,
{
    assert(descends(tasks, i, i));
    if l == j {
        assert(is_parent_at(tasks, j, i) && descends(tasks, i, i));
    } else {
        let y = choose|y: int| #[trigger] is_parent_at(tasks, l, y) && descends(tasks, j, y);
        lemma_child_below(tasks, i, j, y);
        assert(is_parent_at(tasks, l, y) && descends(tasks, i, y));
    }
}

/// A retry puts the row back to pending, counts one retry more, records the
/// failed verification and frees the row; every other row stays.
pub proof fn law_retry_row(db: DbView, id: Seq<char>, now: Seq<char>, k: int)
    requires
        db.wf(),
        has_task(db.tasks, id),
        db.tasks[pos(db.tasks, id)].retry_count < i32::MAX,
        0 <= k < db.tasks.len(),
    ensures
        ({
            let after = after_retry(db, id, now);
            &&& after.tasks.len() == db.tasks.len()
            &&& db.tasks[k].id != id ==> after.tasks[k] == db.tasks[k]
            &&& db.tasks[k].id == id ==> {
                &&& after.tasks[k].status == "pending"@
                &&& after.tasks[k].retry_count == db.tasks[k].retry_count + 1
                &&& after.tasks[k].verification_status == Some("failed"@)
                &&& after.tasks[k].claimed_by is None
                &&& after.tasks[k].updated_at == now
                &&& after.tasks[k].title == db.tasks[k].title
                &&& after.tasks[k].description == db.tasks[k].description
                &&& after.tasks[k].priority == db.tasks[k].priority
                &&& after.tasks[k].parent_id == db.tasks[k].parent_id
                &&& after.tasks[k].feature_id == db.tasks[k].feature_id
            }
            &&& after.deps == db.deps && after.logs == db.logs && after.features == db.features
                && after.journal == db.journal
        }),
{
    lemma_status_names();
    lemma_pos_of(db.tasks, id);
    crate::dag::model::lemma_pos(db.tasks, k);
    law_plain_change_touches_one(db, id, "pending"@, now, k);
}

/// The row of a new task: pending, held by nobody, never tried, with what was
/// asked for and an empty description where none was given.
pub proof fn law_new_row(p: CreateTaskParams, id: Seq<char>, now: Seq<char>)
    ensures
        ({
            let r = new_row(p, id, now);
            &&& r.id == id
            &&& r.title == p.title@
            &&& r.status == "pending"@
            &&& r.priority == p.priority
            &&& r.max_retries == p.max_retries
            &&& r.parent_id == opt_str(p.parent_id)
            &&& r.feature_id == opt_str(p.feature_id)
            &&& r.task_type == p.task_type@
            &&& r.retry_count == 0
            &&& r.claimed_by is None
            &&& r.verification_status is None
            &&& r.created_at == now
            &&& r.updated_at == now
            &&& p.description is None ==> r.description.len() == 0
            &&& p.description is Some ==> r.description == p.description->0@
        }),
{
}

/// The id that a new task gets is the first of those proposed that no task has.
pub proof fn law_first_free_id(tasks: Seq<TaskView>, ids: Seq<Seq<char>>, from: int)
    requires
        0 <= from,
    ensures
        match first_free(tasks, ids, from) {
            Some(n) => from <= n < ids.len() && !has_task(tasks, ids[n]) && forall|m: int|
                from <= m < n ==> has_task(tasks, #[trigger] ids[m]),
            None => forall|m: int| from <= m < ids.len() ==> has_task(tasks, #[trigger] ids[m]),
        },
    decreases ids.len() - from,
{
    if from < ids.len() && has_task(tasks, ids[from]) {
        law_first_free_id(tasks, ids, from + 1);
    }
}

/// An update replaces what it names and nothing else of the row but the time of
/// its last change; one that names nothing changes nothing.
pub proof fn law_update_replaces_what_it_names(t: TaskView, u: TaskUpdate, now: Seq<char>)
    ensures
        ({
            let r = updated(t, u, now);
            &&& r.title == if u.title is Some {
                u.title->0@
            } else {
                t.title
            }
            &&& r.description == if u.description is Some {
                u.description->0@
            } else {
                t.description
            }
            &&& r.priority == if u.priority is Some {
                u.priority->0
            } else {
                t.priority
            }
            &&& r.updated_at == if u.title is Some || u.description is Some || u.priority is Some {
                now
            } else {
                t.updated_at
            }
            &&& r.id == t.id && r.status == t.status && r.parent_id == t.parent_id && r.feature_id
                == t.feature_id && r.task_type == t.task_type && r.retry_count == t.retry_count
                && r.max_retries == t.max_retries && r.verification_status
                == t.verification_status && r.created_at == t.created_at && r.claimed_by
                == t.claimed_by
        }),
{
}

/// Deleting the tasks of a feature takes away exactly the rows whose feature
/// column names it, the dependencies that name one of them, the log entries of
/// one of them, and the journal entries of the feature; every feature stays.
pub proof fn law_deleted_feature_takes_its_own(
    db: DbView,
    f: Seq<char>,
    t: TaskView,
    a: int,
    b: int,
    l: LogView,
    e: JournalView,
)
    requires
        db.wf(),
        0 <= a < db.tasks.len(),
        0 <= b < db.tasks.len(),
    ensures
        ({
            let w = without_feature(db, f);
            &&& w.tasks.contains(t) <==> db.tasks.contains(t) && t.feature_id != Some(f)
            &&& w.deps.contains((db.tasks[a].id, db.tasks[b].id)) <==> db.deps.contains(
                (db.tasks[a].id, db.tasks[b].id),
            ) && db.tasks[a].feature_id != Some(f) && db.tasks[b].feature_id != Some(f)
            &&& l.task_id == db.tasks[a].id ==> (w.logs.contains(l) <==> db.logs.contains(l)
                && db.tasks[a].feature_id != Some(f))
            &&& w.journal.contains(e) <==> db.journal.contains(e) && e.feature_id != Some(f)
            &&& w.features == db.features
            &&& stripped(db, f).tasks == db.tasks
            &&& stripped(db, f).deps == w.deps
            &&& stripped(db, f).logs == w.logs
            &&& stripped(db, f).journal == w.journal
        }),
{
    let gone = feature_places(db, f);
    let w = without_feature(db, f);
    crate::dag::model::lemma_pos(db.tasks, a);
    crate::dag::model::lemma_pos(db.tasks, b);
    lemma_filter_members(
        db.deps,
        dep_untouched(db, gone),
        (db.tasks[a].id, db.tasks[b].id),
    );
    lemma_filter_members(db.logs, log_stays(db.tasks, gone), l);
    lemma_filter_members(db.journal, not_of_feature(f), e);
    lemma_without_places(db.tasks, gone);
    if w.tasks.contains(t) {
        let x = choose|x: int| 0 <= x < w.tasks.len() && w.tasks[x] == t;
        let i = lemma_without_places_from(db.tasks, gone, x);
        assert(db.tasks[i] == t);
        assert(!gone.contains(i));
    }
    if db.tasks.contains(t) && t.feature_id != Some(f) {
        let i = choose|i: int| 0 <= i < db.tasks.len() && db.tasks[i] == t;
        assert(!gone.contains(i));
        assert(without_places(db.tasks, gone)[staying_before(gone, i)] == t);
    }
}

/// Deleting a task takes the rows below it and its own away, where nothing stands
/// in the way, and never a row that is not below it.
pub proof fn law_delete_takes_what_is_below(db: DbView, id: Seq<char>, k: int)
    requires
        db.wf(),
        has_task(db.tasks, id),
        0 <= k < db.tasks.len(),
    ensures
        ({
            let d = delete_from(db, pos(db.tasks, id), Set::empty());
            let after = after_delete(db, d);
            &&& !descends(db.tasks, pos(db.tasks, id), k) ==> after.tasks.contains(db.tasks[k])
            &&& d.1 is None ==> (after.tasks.contains(db.tasks[k]) <==> !descends(
                db.tasks,
                pos(db.tasks, id),
                k,
            ))
        }),
{
    let i = pos(db.tasks, id);
    lemma_pos_of(db.tasks, id);
    let d = delete_from(db, i, Set::empty());
    lemma_deleted(db, i, Set::empty(), k);
    let after = after_delete(db, d);
    lemma_without_places(db.tasks, d.0);
    if !d.0.contains(k) {
        assert(without_places(db.tasks, d.0)[staying_before(d.0, k)] == db.tasks[k]);
    } else if after.tasks.contains(db.tasks[k]) {
        let x = choose|x: int| 0 <= x < after.tasks.len() && after.tasks[x] == db.tasks[k];
        let m = lemma_without_places_from(db.tasks, d.0, x);
        crate::dag::model::lemma_pos(db.tasks, m);
        crate::dag::model::lemma_pos(db.tasks, k);
    }
}

/// A task that blocks another is not deleted: the deletion is refused by its
/// name, and the database stays as it is.
pub proof fn law_blocker_is_not_deleted(db: DbView, id: Seq<char>, k: int)
    requires
        db.wf(),
        has_task(db.tasks, id),
        0 <= k < db.deps.len(),
        db.deps[k].0 == id,
    ensures
        ({
            let d = delete_from(db, pos(db.tasks, id), Set::empty());
            &&& delete_refusal(db.tasks, d.1) == Some(DagErrorView::Blocks(id))
            &&& after_delete(db, d) == db
        }),
{
    let i = pos(db.tasks, id);
    lemma_pos_of(db.tasks, id);
    let none = Set::<int>::empty();
    assert(!none.contains(pos(db.tasks, db.deps[k].1)));
    lemma_nothing_gone(db.tasks);
    lemma_all_stay(db.deps, dep_stays(db.tasks, none));
    lemma_all_stay(db.logs, log_stays(db.tasks, none));
}

/// A task without children that blocks none and that the journal does not name
/// is deleted.
pub proof fn law_free_leaf_is_deleted(db: DbView, id: Seq<char>)
    requires
        db.wf(),
        has_task(db.tasks, id),
        forall|k: int| 0 <= k < db.deps.len() ==> (#[trigger] db.deps[k]).0 != id,
        forall|k: int| 0 <= k < db.tasks.len() ==> (#[trigger] db.tasks[k]).parent_id != Some(id),
        forall|k: int|
            0 <= k < db.journal.len() ==> (#[trigger] db.journal[k]).task_id != Some(id),
    ensures
        delete_from(db, pos(db.tasks, id), Set::empty()).1 is None,
{
    let i = pos(db.tasks, id);
    lemma_pos_of(db.tasks, id);
    lemma_no_children(db, i, i + 1, Set::empty());
}

proof fn lemma_no_children(db: DbView, i: int, j: int, gone: Set<int>)
    requires
        0 <= i < j,
        forall|b: int| !#[trigger] is_child(db.tasks, i, b),
    ensures
        delete_children(db, i, j, gone) == (gone, None::<crate::dag::crud::Obstacle<int>>),
    decreases db.tasks.len() - j,
{
    if j < db.tasks.len() {
        assert(!is_child(db.tasks, i, j));
        lemma_no_children(db, i, j + 1, gone);
    }
}

proof fn lemma_nothing_gone<A>(s: Seq<A>)
    ensures
        without_places(s, Set::<int>::empty()) == s,
    decreases s.len(),
{
    if s.len() > 0 {
        lemma_nothing_gone(s.drop_last());
        assert(s.drop_last().push(s.last()) =~= s);
    }
}

proof fn lemma_all_stay<A>(s: Seq<A>, p: spec_fn(A) -> bool)
    requires
        forall|x: A| #[trigger] p(x),
    ensures
        s.filter(p) == s,
    decreases s.len(),
{
    reveal(Seq::filter);
    if s.len() > 0 {
        lemma_all_stay(s.drop_last(), p);
        assert(p(s.last()));
        assert(s.drop_last().push(s.last()) =~= s);
    }
}

proof fn lemma_deleted(db: DbView, i: int, gone: Set<int>, x: int)
    requires
        0 <= i < db.tasks.len(),
        0 <= x < db.tasks.len(),
    ensures
        delete_from(db, i, gone).0.contains(x) ==> gone.contains(x) || descends(db.tasks, i, x),
        gone.contains(x) ==> delete_from(db, i, gone).0.contains(x),
        delete_from(db, i, gone).1 is None && descends(db.tasks, i, x) ==> delete_from(
            db,
            i,
            gone,
        ).0.contains(x),
    decreases 2 * (db.tasks.len() - i) + 1,
{
    assert(descends(db.tasks, i, i));
    if !still_blocks(db.tasks, db.deps, i, gone) {
        lemma_deleted_children(db, i, i + 1, gone, x);
        if descends(db.tasks, i, x) && x != i {
            let c = lemma_below_child(db.tasks, i, x);
            assert(is_child(db.tasks, i, c) && descends(db.tasks, c, x));
        }
    }
}

proof fn lemma_deleted_children(db: DbView, i: int, j: int, gone: Set<int>, x: int)
    requires
        0 <= i < j,
        0 <= x < db.tasks.len(),
    ensures
        delete_children(db, i, j, gone).0.contains(x) ==> gone.contains(x) || descends(
            db.tasks,
            i,
            x,
        ),
        gone.contains(x) ==> delete_children(db, i, j, gone).0.contains(x),
        delete_children(db, i, j, gone).1 is None ==> forall|c: int|
            j <= c && #[trigger] is_child(db.tasks, i, c) && descends(db.tasks, c, x)
                ==> delete_children(db, i, j, gone).0.contains(x),
    decreases 2 * (db.tasks.len() - j) + 2,
{
    if j < db.tasks.len() {
        if is_child(db.tasks, i, j) {
            lemma_deleted(db, j, gone, x);
            if descends(db.tasks, j, x) {
                lemma_child_below(db.tasks, i, j, x);
            }
            let r = delete_from(db, j, gone);
            if r.1 is None {
                lemma_deleted_children(db, i, j + 1, r.0, x);
            }
        } else {
            lemma_deleted_children(db, i, j + 1, gone, x);
        }
    }
}

/// One task leads to another exactly where a dependency does, or a dependency
/// leads to a task that leads there.
pub proof fn law_reaches_step_by_step(
    deps: Seq<(Seq<char>, Seq<char>)>,
    a: Seq<char>,
    b: Seq<char>,
)
    ensures
        reaches(deps, a, b) <==> deps.contains((a, b)) || exists|c: Seq<char>|
            deps.contains((a, c)) && #[trigger] reaches(deps, c, b),
{
    if deps.contains((a, b)) {
        lemma_reaches_step(deps, a, b);
    }
    if exists|c: Seq<char>| deps.contains((a, c)) && #[trigger] reaches(deps, c, b) {
        let c = choose|c: Seq<char>| deps.contains((a, c)) && #[trigger] reaches(deps, c, b);
        lemma_reaches_step(deps, a, c);
        lemma_reaches_trans(deps, a, c, b);
    }
    if reaches(deps, a, b) {
        let p = choose|p: Seq<Seq<char>>| #[trigger] is_walk(deps, p) && p[0] == a && p.last() == b;
        assert(step_at(deps, p, 0));
        let c = p[1];
        if p.len() > 2 {
            let q = p.drop_first();
            assert forall|i: int| 0 <= i < q.len() - 1 implies #[trigger] step_at(deps, q, i) by {
                assert(step_at(deps, p, i + 1));
                assert(q[i] == p[i + 1] && q[i + 1] == p[i + 2]);
            }
            assert(is_walk(deps, q));
            assert(q[0] == c && q.last() == b);
            assert(reaches(deps, c, b));
        }
    }
}

/// A status that is forced on a task is taken whatever the task had; of the
/// other rows at most the status changes, and nothing else of the database does.
/// Forcing one on a task that does not exist changes nothing.
pub proof fn law_forced_status(
    before: DbView,
    after: DbView,
    r: Result<(), DagError>,
    id: Seq<char>,
    new: Seq<char>,
    now: Seq<char>,
    i: int,
)
    requires
        before.wf(),
        is_task_status(new),
        forced(before, after, r, id, new, now),
    ensures
        0 <= i < before.tasks.len() && before.tasks[i].id == id ==> {
            &&& r is Ok
            &&& after.tasks[i].status == new
            &&& after.tasks[i].updated_at == now
            &&& after.wf()
            &&& after.deps == before.deps && after.logs == before.logs
            &&& after.features == before.features && after.journal == before.journal
        },
        (forall|k: int| 0 <= k < before.tasks.len() ==> (#[trigger] before.tasks[k]).id != id)
            ==> r is Err && after == before,
{
    if 0 <= i < before.tasks.len() && before.tasks[i].id == id {
        lemma_pos_of(before.tasks, id);
        assert(pos(before.tasks, id) == i);
        lemma_status_set_keeps(before, id, new, now);
    }
}

} // verus!
