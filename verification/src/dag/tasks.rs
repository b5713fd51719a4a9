//! Task hierarchy and status derivation.

use vstd::prelude::*;

use crate::dag::model::{has_task, pos, DagError, DagErrorView, Db, TaskView};
use crate::text::basic::{opt_same, same};

verus! {

/// The task at `j` is a child of the one at `i`.
pub open spec fn is_child(tasks: Seq<TaskView>, i: int, j: int) -> bool {
    0 <= i < j < tasks.len() && tasks[j].parent_id == Some(tasks[i].id)
}

/// The status of the task at `i`, seen through its children where it has any:
/// failed if one of them is, else done if all of them are, else in progress if
/// one of them is, else pending.
pub open spec fn derived_status(tasks: Seq<TaskView>, i: int) -> Seq<char>
    decreases tasks.len() - i,
{
    if !(exists|j: int| is_child(tasks, i, j)) {
        tasks[i].status
    } else if exists|j: int|
        #![trigger is_child(tasks, i, j)]
        is_child(tasks, i, j) && derived_status(tasks, j) == "failed"@ {
        "failed"@
    } else if forall|j: int|
        #![trigger is_child(tasks, i, j)]
        is_child(tasks, i, j) ==> derived_status(tasks, j) == "done"@ {
        "done"@
    } else if exists|j: int|
        #![trigger is_child(tasks, i, j)]
        is_child(tasks, i, j) && derived_status(tasks, j) == "in_progress"@ {
        "in_progress"@
    } else {
        "pending"@
    }
}

impl Db {
    /// The derived status of the task at `i`.
    pub fn derived_status_at(&self, i: usize) -> (r: String)
        requires
            i < self@.tasks.len(),
        ensures
            r@ == derived_status(self@.tasks, i as int),
        decreases self@.tasks.len() - i,
    {
        let ghost tasks = self@.tasks;
        assert(tasks[i as int] == self.tasks@[i as int]@);
        let mut any_child = false;
        let mut any_failed = false;
        let mut all_done = true;
        let mut any_progress = false;
        let n: usize = self.tasks.len();
        assert(tasks.len() == n);
        let mut j: usize = i + 1;
        while j < self.tasks.len()
            invariant
                i < j <= self.tasks@.len(),
                tasks == self@.tasks,
                tasks.len() == self.tasks@.len(),
                tasks[i as int] == self.tasks@[i as int]@,
                any_child == (exists|k: int| k < j && #[trigger] is_child(tasks, i as int, k)),
                any_failed == (exists|k: int|
                    #![trigger is_child(tasks, i as int, k)]
                    k < j && is_child(tasks, i as int, k) && derived_status(tasks, k)
                        == "failed"@),
                all_done == (forall|k: int|
                    #![trigger is_child(tasks, i as int, k)]
                    k < j && is_child(tasks, i as int, k) ==> derived_status(tasks, k)
                        == "done"@),
                any_progress == (exists|k: int|
                    #![trigger is_child(tasks, i as int, k)]
                    k < j && is_child(tasks, i as int, k) && derived_status(tasks, k)
                        == "in_progress"@),
            decreases self.tasks@.len() - j,
        {
            assert(tasks[j as int] == self.tasks@[j as int]@);
            if opt_same(&self.tasks[j].parent_id, self.tasks[i].id.as_str()) {
                assert(is_child(tasks, i as int, j as int));
                let s = self.derived_status_at(j);
                any_child = true;
                if same(s.as_str(), "failed") {
                    any_failed = true;
                }
                if !same(s.as_str(), "done") {
                    all_done = false;
                }
                if same(s.as_str(), "in_progress") {
                    any_progress = true;
                }
            } else {
                assert(!is_child(tasks, i as int, j as int));
            }
            j = j + 1;
        }
        assert(forall|k: int| is_child(tasks, i as int, k) ==> k < j);
        if !any_child {
            self.tasks[i].status.clone()
        } else if any_failed {
            "failed".to_owned()
        } else if all_done {
            "done".to_owned()
        } else if any_progress {
            "in_progress".to_owned()
        } else {
            "pending".to_owned()
        }
    }

    /// The derived status of a parent task, based on its children.
    ///
    /// - Any child `failed`: parent `failed`
    /// - All children `done`: parent `done`
    /// - Any child `in_progress`: parent `in_progress`
    /// - Otherwise: `pending`
    pub fn compute_parent_status(&self, parent_id: &str) -> (r: Result<String, DagError>)
        requires
            self@.wf(),
        ensures
            has_task(self@.tasks, parent_id@) ==> r is Ok && r->Ok_0@ == derived_status(
                self@.tasks,
                pos(self@.tasks, parent_id@),
            ),
            !has_task(self@.tasks, parent_id@) ==> r is Err && r->Err_0@
                == DagErrorView::NoParentStatus(parent_id@),
    {
        match self.find_task(parent_id) {
            Some(i) => Ok(self.derived_status_at(i)),
            None => Err(DagError::NoParentStatus(parent_id.to_owned())),
        }
    }

    /// The derived status for a task (considering children if it has any).
    pub fn get_task_status(&self, task_id: &str) -> (r: Result<String, DagError>)
        requires
            self@.wf(),
        ensures
            has_task(self@.tasks, task_id@) ==> r is Ok && r->Ok_0@ == derived_status(
                self@.tasks,
                pos(self@.tasks, task_id@),
            ),
            !has_task(self@.tasks, task_id@) ==> r is Err && r->Err_0@
                == DagErrorView::NoTaskStatus(task_id@),
    {
        match self.find_task(task_id) {
            Some(i) => Ok(self.derived_status_at(i)),
            None => Err(DagError::NoTaskStatus(task_id.to_owned())),
        }
    }
}

} // verus!
