//! Choosing and claiming the task of an iteration.

use vstd::prelude::*;

use crate::config::{target_view, RunTarget, RunTargetView};
use crate::dag::claims::{after_status, with_holder};
use crate::dag::model::{
    has_task, lemma_pos, lemma_pos_of, lemma_status_names, pos, task_columns, task_views, DagError,
    DagErrorView, Db, DbView, Feature, FeatureView, Task, TaskView,
};
use crate::dag::queries::{is_ready, law_selected_members, selected, Select};
use crate::dag::transitions::valid_transition;
use crate::feature::{feature_pos, has_name, name_pos};
use crate::seqs::{lemma_filter_members, lemma_filter_step};
use crate::text::basic::same;

verus! {

/// Outcome of the loop execution.
#[derive(Debug, Clone, Copy, PartialEq, Eq, Structural)]
pub enum Outcome {
    /// All DAG tasks done
    Complete,
    /// <promise>FAILURE</promise> emitted
    Failure,
    /// Iteration limit hit
    LimitReached,
    /// No ready tasks, but incomplete tasks exist
    Blocked,
    /// DAG is empty, user must run `ralph feature create`
    NoPlan,
    /// User interrupted and chose not to continue
    Interrupted,
}

/// The task has the id.
pub open spec fn has_id(id: Seq<char>) -> spec_fn(TaskView) -> bool {
    |t: TaskView| t.id == id
}

/// The ready tasks that the run is about, in listing order: those of the
/// feature, the one task that was named, or all.
pub open spec fn scoped_ready(
    db: DbView,
    target: Option<RunTargetView>,
    feature_id: Option<&str>,
) -> Seq<TaskView> {
    match target {
        Some(RunTargetView::Feature(_)) => match feature_id {
            Some(f) => selected(db, Select::ReadyOf(f)),
            None => selected(db, Select::Ready),
        },
        Some(RunTargetView::Task(id)) => selected(db, Select::Ready).filter(has_id(id)),
        None => selected(db, Select::Ready),
    }
}

/// Every task is done or failed.
pub open spec fn resolved(db: DbView) -> bool {
    forall|i: int|
        0 <= i < db.tasks.len() ==> (#[trigger] db.tasks[i]).status == "done"@
            || db.tasks[i].status == "failed"@
}

/// The database after the agent has claimed a task.
pub open spec fn claimed(db: DbView, id: Seq<char>, agent: Seq<char>, now: Seq<char>) -> DbView {
    with_holder(after_status(db, id, "in_progress"@, now), id, Some(agent))
}

/// The feature that the run is about, where it is about one, or why that cannot
/// be said.
pub open spec fn run_feature(db: DbView, target: Option<RunTargetView>) -> Result<
    Option<FeatureView>,
    DagErrorView,
> {
    match target {
        Some(RunTargetView::Feature(name)) => if has_name(db.features, name) {
            Ok(Some(db.features[name_pos(db.features, name)].feature))
        } else {
            Err(DagErrorView::NoFeature(name))
        },
        Some(RunTargetView::Task(id)) => if has_task(db.tasks, id) {
            match db.tasks[pos(db.tasks, id)].feature_id {
                Some(fid) => Ok(Some(db.features[feature_pos(db.features, fid)].feature)),
                None => Ok(None),
            }
        } else {
            Err(DagErrorView::TaskLookup(id))
        },
        None => Ok(None),
    }
}

/// How an iteration begins.
#[derive(Debug)]
pub enum Start {
    /// There is nothing to work on.
    Stop(Outcome),
    /// The task has been claimed; this is its row before that.
    Work(Task),
}

/// A scoped ready task is a row of the database that is ready.
pub proof fn law_scoped_is_ready(
    db: DbView,
    target: Option<RunTargetView>,
    feature_id: Option<&str>,
    t: TaskView,
)
    requires
        scoped_ready(db, target, feature_id).contains(t),
    ensures
        db.tasks.contains(t),
        is_ready(db, t),
        target matches Some(RunTargetView::Task(id)) ==> t.id == id,
        target matches Some(RunTargetView::Feature(_)) ==> feature_id is Some ==> t.feature_id
            == Some(feature_id->0@),
{
    match target {
        Some(RunTargetView::Feature(_)) => match feature_id {
            Some(f) => {
                law_selected_members(db, Select::ReadyOf(f), t);
            },
            None => {
                law_selected_members(db, Select::Ready, t);
            },
        },
        Some(RunTargetView::Task(id)) => {
            lemma_filter_members(selected(db, Select::Ready), has_id(id), t);
            law_selected_members(db, Select::Ready, t);
        },
        None => {
            law_selected_members(db, Select::Ready, t);
        },
    }
}

/// Without a target, the run has nothing to work on exactly where no task is
/// ready.
pub proof fn law_unscoped_ready(db: DbView)
    ensures
        scoped_ready(db, None, None).len() == 0 <==> forall|i: int|
            0 <= i < db.tasks.len() ==> !is_ready(db, #[trigger] db.tasks[i]),
{
    let s = scoped_ready(db, None, None);
    if s.len() > 0 {
        let t = s[0];
        assert(s.contains(t));
        law_selected_members(db, Select::Ready, t);
        let i = choose|i: int| 0 <= i < db.tasks.len() && db.tasks[i] == t;
        assert(is_ready(db, db.tasks[i]));
    }
    if exists|i: int| 0 <= i < db.tasks.len() && is_ready(db, #[trigger] db.tasks[i]) {
        let i = choose|i: int| 0 <= i < db.tasks.len() && is_ready(db, #[trigger] db.tasks[i]);
        law_selected_members(db, Select::Ready, db.tasks[i]);
        assert(db.tasks.contains(db.tasks[i]));
    }
}

/// A claimed task is in progress, held by the agent, and no longer ready.
pub proof fn law_claimed_is_not_ready(
    db: DbView,
    id: Seq<char>,
    agent: Seq<char>,
    now: Seq<char>,
)
    requires
        db.wf(),
        has_task(db.tasks, id),
    ensures
        ({
            let after = claimed(db, id, agent, now);
            let row = after.tasks[pos(db.tasks, id)];
            &&& row.id == id
            &&& row.status == "in_progress"@
            &&& row.claimed_by == Some(agent)
            &&& !is_ready(after, row)
        }),
{
    lemma_status_names();
    crate::dag::transitions::lemma_status_set_keeps(db, id, "in_progress"@, now);
    lemma_pos_of(db.tasks, id);
    let mid = after_status(db, id, "in_progress"@, now);
    crate::dag::transitions::lemma_same_but_status_keeps(db, mid);
}

impl Db {
    /// The ready tasks that the run is about.
    pub fn get_scoped_ready_tasks(
        &self,
        target: &Option<RunTarget>,
        feature_id: Option<&str>,
    ) -> (r: Vec<Task>)
        ensures
            task_views(r@) == scoped_ready(self@, target_view(*target), feature_id),
    {
        match target {
            Some(RunTarget::Feature(_)) => match feature_id {
                Some(f) => self.get_ready_tasks_for_feature(f),
                None => self.get_ready_tasks(),
            },
            Some(RunTarget::Task(id)) => {
                let ready = self.get_ready_tasks();
                let ghost all = task_views(ready@);
                let ghost p = has_id(id@);
                let mut r: Vec<Task> = Vec::new();
                let mut i: usize = 0;
                assert(task_views(r@) =~= all.take(0).filter(p)) by {
                    reveal(Seq::filter);
                }
                while i < ready.len()
                    invariant
                        i <= ready@.len(),
                        all == task_views(ready@),
                        p == has_id(id@),
                        task_views(r@) == all.take(i as int).filter(p),
                    decreases ready@.len() - i,
                {
                    proof {
                        lemma_filter_step(all, p, i as int);
                    }
                    assert(all[i as int] == ready@[i as int]@);
                    if same(ready[i].id.as_str(), id.as_str()) {
                        let ghost before = r@;
                        let t = ready[i].clone();
                        r.push(t);
                        assert(task_views(r@) =~= task_views(before).push(all[i as int]));
                    }
                    i = i + 1;
                }
                assert(all.take(all.len() as int) =~= all);
                r
            },
            None => self.get_ready_tasks(),
        }
    }

    /// Begins an iteration: picks the first ready task of the run and claims
    /// it for the agent. Where no task is ready, or there is none at all, says
    /// how the run ends.
    pub fn start_iteration(
        &mut self,
        target: &Option<RunTarget>,
        feature_id: Option<&str>,
        agent_id: &str,
        now: &str,
    ) -> (r: Start)
        requires
            old(self)@.wf(),
        ensures
            final(self)@.wf(),
            ({
                let db = old(self)@;
                let ready = scoped_ready(db, target_view(*target), feature_id);
                if db.tasks.len() == 0 {
                    r == Start::Stop(Outcome::NoPlan) && final(self)@ == db
                } else if ready.len() == 0 {
                    r == Start::Stop(
                        if resolved(db) {
                            Outcome::Complete
                        } else {
                            Outcome::Blocked
                        },
                    ) && final(self)@ == db
                } else {
                    &&& r is Work
                    &&& r->Work_0@ == ready[0]
                    &&& final(self)@ == claimed(db, ready[0].id, agent_id@, now@)
                }
            }),
    {
        let ghost db = self@;
        let ready = self.get_scoped_ready_tasks(target, feature_id);
        assert(self@.tasks.len() == self.tasks@.len());
        if self.tasks.len() == 0 {
            return Start::Stop(Outcome::NoPlan);
        }
        let ghost views = task_views(ready@);
        assert(views.len() == ready@.len());
        if ready.len() == 0 {
            if self.all_resolved() {
                return Start::Stop(Outcome::Complete);
            }
            return Start::Stop(Outcome::Blocked);
        }
        let task = ready[0].clone();
        proof {
            assert(views[0] == ready@[0]@);
            assert(views.contains(views[0]));
            law_scoped_is_ready(db, target_view(*target), feature_id, views[0]);
            let i = choose|i: int| 0 <= i < db.tasks.len() && db.tasks[i] == views[0];
            assert(db.tasks[i].id == task@.id);
            lemma_pos(db.tasks, i);
            assert(valid_transition("pending"@, "in_progress"@));
        }
        let done = self.claim_task(task.id.as_str(), agent_id, now);
        Start::Work(task)
    }

    /// The feature that the run is about: the one that was named, or that of
    /// the task that was named, where it has one.
    pub fn resolve_feature(&self, target: &Option<RunTarget>) -> (r: Result<
        Option<Feature>,
        DagError,
    >)
        requires
            self@.wf(),
        ensures
            match run_feature(self@, target_view(*target)) {
                Ok(None) => r is Ok && r->Ok_0 is None,
                Ok(Some(f)) => r is Ok && r->Ok_0 is Some && r->Ok_0->0@ == f,
                Err(e) => r is Err && r->Err_0@ == e,
            },
    {
        match target {
            Some(RunTarget::Feature(name)) => match self.get_feature(name.as_str()) {
                Ok(f) => Ok(Some(f)),
                Err(e) => Err(e),
            },
            Some(RunTarget::Task(id)) => match self.get_task(id.as_str()) {
                Ok(t) => {
                    proof {
                        lemma_pos_of(self@.tasks, id@);
                        assert(task_columns(t@, self@.features));
                    }
                    match t.feature_id {
                        Some(fid) => {
                            match self.get_feature_by_id(fid.as_str()) {
                                Ok(f) => Ok(Some(f)),
                                Err(e) => Err(e),
                            }
                        },
                        None => Ok(None),
                    }
                },
                Err(e) => Err(e),
            },
            None => Ok(None),
        }
    }
}

} // verus!
