//! The life of a task: claiming, completing, failing, retrying and releasing.

use vstd::prelude::*;

use crate::dag::model::{
    has_task, lemma_pos_of, log_views, pos, task_views, DagError, DagErrorView, Db, DbView,
    LogEntry, LogView, Task, TaskView,
};
use crate::dag::transitions::{
    lemma_same_but_status_keeps, lemma_status_set_keeps,
    status_refusal, status_set,
};
use crate::text::basic::same;

verus! {

/// The database after the task `id` took the status `new`.
pub open spec fn after_status(db: DbView, id: Seq<char>, new: Seq<char>, now: Seq<char>) -> DbView {
    DbView { tasks: status_set(db.tasks, db.deps, id, new, now), ..db }
}

/// The database with another holder of the task `id`.
pub open spec fn with_holder(db: DbView, id: Seq<char>, who: Option<Seq<char>>) -> DbView {
    let i = pos(db.tasks, id);
    DbView { tasks: db.tasks.update(i, TaskView { claimed_by: who, ..db.tasks[i] }), ..db }
}

/// The database with one log entry more.
pub open spec fn with_log(
    db: DbView,
    id: Seq<char>,
    message: Seq<char>,
    timestamp: Seq<char>,
) -> DbView {
    DbView { logs: db.logs.push(LogView { task_id: id, message, timestamp }), ..db }
}

/// The database after a failed verification sent the task `id` back.
pub open spec fn after_retry(db: DbView, id: Seq<char>, now: Seq<char>) -> DbView {
    let set = after_status(db, id, "pending"@, now);
    let i = pos(db.tasks, id);
    DbView {
        tasks: set.tasks.update(
            i,
            TaskView {
                retry_count: (set.tasks[i].retry_count + 1) as i32,
                verification_status: Some("failed"@),
                claimed_by: None,
                ..set.tasks[i]
            },
        ),
        ..set
    }
}

/// The database with the verification result of the task `id` recorded.
pub open spec fn with_verification(db: DbView, id: Seq<char>, result: Seq<char>) -> DbView {
    let i = pos(db.tasks, id);
    DbView {
        tasks: db.tasks.update(
            i,
            TaskView { verification_status: Some(result), ..db.tasks[i] },
        ),
        ..db
    }
}

/// Replacing a row by one with the same id, parent, type and feature keeps the
/// invariant.
pub proof fn lemma_row_replaced(db: DbView, i: int, t: TaskView)
    requires
        db.wf(),
        0 <= i < db.tasks.len(),
        t.id == db.tasks[i].id,
        t.parent_id == db.tasks[i].parent_id,
        crate::dag::model::task_columns(t, db.features),
    ensures
        (DbView { tasks: db.tasks.update(i, t), ..db }).wf(),
        forall|id: Seq<char>| #[trigger]
            has_task(db.tasks, id) ==> has_task(db.tasks.update(i, t), id) && pos(db.tasks, id)
                == pos(db.tasks.update(i, t), id),
{
    let b = db.tasks.update(i, t);
    let after = DbView { tasks: b, ..db };
    assert forall|x: int, y: int| 0 <= x < y < b.len() implies (#[trigger] b[x]).id != (
    #[trigger] b[y]).id by {
        assert(db.tasks[x].id != db.tasks[y].id);
    }
    assert forall|x: int|
        0 <= x < b.len() && (#[trigger] b[x]).parent_id is Some implies exists|j: int|
        crate::dag::model::is_parent_at(b, x, j) by {
        assert(db.tasks[x].parent_id is Some);
        let j = choose|j: int| crate::dag::model::is_parent_at(db.tasks, x, j);
        assert(b[j].id == db.tasks[j].id);
        assert(crate::dag::model::is_parent_at(b, x, j));
    }
    assert forall|id: Seq<char>| #[trigger] has_task(db.tasks, id) implies has_task(b, id) && pos(
        db.tasks,
        id,
    ) == pos(b, id) by {
        lemma_pos_of(db.tasks, id);
        let k = pos(db.tasks, id);
        assert(b[k].id == id);
        crate::dag::model::lemma_pos(b, k);
    }
    assert forall|x: int| 0 <= x < b.len() implies crate::dag::model::task_columns(
        #[trigger] b[x],
        db.features,
    ) by {
        assert(crate::dag::model::task_columns(db.tasks[x], db.features));
    }
    assert forall|k: int| 0 <= k < db.deps.len() implies has_task(b, (#[trigger] db.deps[k]).0)
        && has_task(b, db.deps[k].1) && db.deps[k].0 != db.deps[k].1 by {
        assert(has_task(db.tasks, db.deps[k].0));
        assert(has_task(db.tasks, db.deps[k].1));
    }
    assert forall|k: int| 0 <= k < db.logs.len() implies has_task(
        b,
        (#[trigger] db.logs[k]).task_id,
    ) by {
        assert(has_task(db.tasks, db.logs[k].task_id));
    }
}

impl Db {
    /// Puts another row in the place of the task at `i`.
    pub fn put_task_at(&mut self, i: usize, t: Task)
        requires
            old(self)@.wf(),
            i < old(self)@.tasks.len(),
            t@.id == old(self)@.tasks[i as int].id,
            t@.parent_id == old(self)@.tasks[i as int].parent_id,
            crate::dag::model::task_columns(t@, old(self)@.features),
        ensures
            final(self)@.wf(),
            final(self)@ == (DbView {
                tasks: old(self)@.tasks.update(i as int, t@),
                ..old(self)@
            }),
    {
        let ghost db = self@;
        let ghost before = self.tasks@;
        let ghost row = t@;
        self.tasks.set(i, t);
        assert(task_views(self.tasks@) =~= task_views(before).update(i as int, row));
        proof {
            lemma_row_replaced(db, i as int, row);
        }
    }

    /// Makes `who` the holder of the task.
    pub fn put_holder(&mut self, task_id: &str, who: Option<String>)
        requires
            old(self)@.wf(),
            has_task(old(self)@.tasks, task_id@),
        ensures
            final(self)@.wf(),
            final(self)@ == with_holder(
                old(self)@,
                task_id@,
                crate::text::basic::opt_text(who),
            ),
    {
        match self.find_task(task_id) {
            None => {},
            Some(i) => {
                assert(self@.tasks[i as int] == self.tasks@[i as int]@);
                let mut t = self.tasks[i].clone();
                t.claimed_by = who;
                assert(crate::dag::model::task_columns(self@.tasks[i as int], self@.features));
                self.put_task_at(i, t);
            },
        }
    }

    /// Claims a task for execution by an agent: the task is in progress, and
    /// the agent holds it.
    pub fn claim_task(&mut self, task_id: &str, agent_id: &str, now: &str) -> (r: Result<
        (),
        DagError,
    >)
        requires
            old(self)@.wf(),
        ensures
            final(self)@.wf(),
            match status_refusal(old(self)@.tasks, task_id@, "in_progress"@) {
                Some(e) => r is Err && r->Err_0@ == e && final(self)@ == old(self)@,
                None => r is Ok && final(self)@ == with_holder(
                    after_status(old(self)@, task_id@, "in_progress"@, now@),
                    task_id@,
                    Some(agent_id@),
                ),
            },
    {
        let ghost start = self@;
        match self.set_task_status(task_id, "in_progress", now) {
            Err(e) => Err(e),
            Ok(_) => {
                proof {
                    lemma_status_set_keeps(start, task_id@, "in_progress"@, now@);
                    lemma_same_but_status_keeps(start, self@);
                }
                self.put_holder(task_id, Some(agent_id.to_owned()));
                Ok(())
            },
        }
    }

    /// Marks a task as completed: it is done, with all that follows from it,
    /// and nobody holds it.
    pub fn complete_task(&mut self, task_id: &str, now: &str) -> (r: Result<(), DagError>)
        requires
            old(self)@.wf(),
        ensures
            final(self)@.wf(),
            match status_refusal(old(self)@.tasks, task_id@, "done"@) {
                Some(e) => r is Err && r->Err_0@ == e && final(self)@ == old(self)@,
                None => r is Ok && final(self)@ == with_holder(
                    after_status(old(self)@, task_id@, "done"@, now@),
                    task_id@,
                    None,
                ),
            },
    {
        let ghost start = self@;
        match self.set_task_status(task_id, "done", now) {
            Err(e) => Err(e),
            Ok(_) => {
                proof {
                    lemma_status_set_keeps(start, task_id@, "done"@, now@);
                    lemma_same_but_status_keeps(start, self@);
                }
                self.put_holder(task_id, None);
                Ok(())
            },
        }
    }

    /// Records a log entry.
    pub fn push_log(&mut self, task_id: &str, message: &str, timestamp: &str)
        requires
            old(self)@.wf(),
            has_task(old(self)@.tasks, task_id@),
        ensures
            final(self)@.wf(),
            final(self)@ == with_log(old(self)@, task_id@, message@, timestamp@),
    {
        let ghost db = self@;
        let ghost before = self.logs@;
        let l = LogEntry {
            task_id: task_id.to_owned(),
            message: message.to_owned(),
            timestamp: timestamp.to_owned(),
        };
        self.logs.push(l);
        assert(log_views(self.logs@) =~= log_views(before).push(l@));
        assert forall|k: int| 0 <= k < self@.logs.len() implies has_task(
            self@.tasks,
            (#[trigger] self@.logs[k]).task_id,
        ) by {
            if k < before.len() {
                assert(has_task(db.tasks, db.logs[k].task_id));
            }
        }
    }

    /// Marks a task as failed, lets go of it and logs the reason.
    pub fn fail_task(&mut self, task_id: &str, reason: &str, now: &str, timestamp: &str) -> (r:
        Result<(), DagError>)
        requires
            old(self)@.wf(),
        ensures
            final(self)@.wf(),
            match status_refusal(old(self)@.tasks, task_id@, "failed"@) {
                Some(e) => r is Err && r->Err_0@ == e && final(self)@ == old(self)@,
                None => r is Ok && final(self)@ == with_log(
                    with_holder(
                        after_status(old(self)@, task_id@, "failed"@, now@),
                        task_id@,
                        None,
                    ),
                    task_id@,
                    reason@,
                    timestamp@,
                ),
            },
    {
        let ghost start = self@;
        match self.set_task_status(task_id, "failed", now) {
            Err(e) => Err(e),
            Ok(_) => {
                proof {
                    lemma_status_set_keeps(start, task_id@, "failed"@, now@);
                    lemma_same_but_status_keeps(start, self@);
                }
                let ghost mid = self@;
                self.put_holder(task_id, None);
                proof {
                    let i = pos(mid.tasks, task_id@);
                    lemma_pos_of(mid.tasks, task_id@);
                    assert(crate::dag::model::task_columns(mid.tasks[i], mid.features));
                    lemma_row_replaced(mid, i, TaskView { claimed_by: None, ..mid.tasks[i] });
                }
                self.push_log(task_id, reason, timestamp);
                Ok(())
            },
        }
    }

    /// Sends a task back to pending, counts the retry and records that its
    /// verification failed.
    pub fn retry_task(&mut self, task_id: &str, now: &str) -> (r: Result<(), DagError>)
        requires
            old(self)@.wf(),
            has_task(old(self)@.tasks, task_id@) ==> old(self)@.tasks[pos(
                old(self)@.tasks,
                task_id@,
            )].retry_count < i32::MAX,
        ensures
            final(self)@.wf(),
            match status_refusal(old(self)@.tasks, task_id@, "pending"@) {
                Some(e) => r is Err && r->Err_0@ == e && final(self)@ == old(self)@,
                None => r is Ok && final(self)@ == after_retry(old(self)@, task_id@, now@),
            },
    {
        let ghost start = self@;
        match self.set_task_status(task_id, "pending", now) {
            Err(e) => Err(e),
            Ok(_) => {
                proof {
                    lemma_status_set_keeps(start, task_id@, "pending"@, now@);
                    lemma_same_but_status_keeps(start, self@);
                }
                match self.find_task(task_id) {
                    None => {},
                    Some(i) => {
                        assert(self@.tasks[i as int] == self.tasks@[i as int]@);
                        let mut t = self.tasks[i].clone();
                        t.retry_count = t.retry_count + 1;
                        t.verification_status = Some("failed".to_owned());
                        t.claimed_by = None;
                        assert(crate::dag::model::task_columns(
                            self@.tasks[i as int],
                            self@.features,
                        ));
                        self.put_task_at(i, t);
                    },
                }
                Ok(())
            },
        }
    }

    /// Releases the claim on a task: one that is in progress goes back to
    /// pending and is held by nobody; any other stays as it is.
    pub fn release_claim(&mut self, task_id: &str, now: &str) -> (r: Result<(), DagError>)
        requires
            old(self)@.wf(),
        ensures
            final(self)@.wf(),
            !has_task(old(self)@.tasks, task_id@) ==> r is Err && r->Err_0@ == DagErrorView::NoRow(
                task_id@,
            ) && final(self)@ == old(self)@,
            has_task(old(self)@.tasks, task_id@) ==> r is Ok && final(self)@ == (if old(
                self,
            )@.tasks[pos(old(self)@.tasks, task_id@)].status == "in_progress"@ {
                with_holder(
                    after_status(old(self)@, task_id@, "pending"@, now@),
                    task_id@,
                    None,
                )
            } else {
                old(self)@
            }),
    {
        let ghost start = self@;
        match self.find_task(task_id) {
            None => Err(DagError::NoRow(task_id.to_owned())),
            Some(i) => {
                assert(self@.tasks[i as int] == self.tasks@[i as int]@);
                if same(self.tasks[i].status.as_str(), "in_progress") {
                    let done = self.set_task_status(task_id, "pending", now);
                    proof {
                        lemma_status_set_keeps(start, task_id@, "pending"@, now@);
                        lemma_same_but_status_keeps(start, self@);
                    }
                    self.put_holder(task_id, None);
                }
                Ok(())
            },
        }
    }

    /// Records the result of a verification.
    pub fn put_verification(&mut self, task_id: &str, passed: bool)
        requires
            old(self)@.wf(),
            has_task(old(self)@.tasks, task_id@),
        ensures
            final(self)@.wf(),
            final(self)@ == with_verification(
                old(self)@,
                task_id@,
                if passed {
                    "passed"@
                } else {
                    "failed"@
                },
            ),
    {
        match self.find_task(task_id) {
            None => {},
            Some(i) => {
                assert(self@.tasks[i as int] == self.tasks@[i as int]@);
                let mut t = self.tasks[i].clone();
                t.verification_status = Some(
                    if passed {
                        "passed".to_owned()
                    } else {
                        "failed".to_owned()
                    },
                );
                assert(crate::dag::model::task_columns(self@.tasks[i as int], self@.features));
                self.put_task_at(i, t);
            },
        }
    }
}

} // verus!
