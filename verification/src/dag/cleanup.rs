//! Deleting everything that belongs to a feature.

use vstd::prelude::*;

use crate::dag::crud::{
    lemma_stays, lemma_without_rows, log_stays, marked, without_places,
};
use crate::dag::model::{
    dep_views, entry_refers, has_task, journal_views, pos, DagError, DagErrorView, Db, DbView,
    Dependency, JournalEntry, JournalView,
};
use crate::dag::queries::Select;
use crate::dag::tasks::is_child;
use crate::seqs::{lemma_filter_members, lemma_filter_order, lemma_filter_step};
use crate::text::basic::opt_same;

verus! {

/// The places of the tasks of a feature.
pub open spec fn feature_places(db: DbView, f: Seq<char>) -> Set<int> {
    Set::new(|i: int| 0 <= i < db.tasks.len() && db.tasks[i].feature_id == Some(f))
}

/// The dependencies that involve none of the tasks at the places `gone`.
pub open spec fn dep_untouched(db: DbView, gone: Set<int>) -> spec_fn(
    (Seq<char>, Seq<char>),
) -> bool {
    |d: (Seq<char>, Seq<char>)|
        !gone.contains(pos(db.tasks, d.0)) && !gone.contains(pos(db.tasks, d.1))
}

/// The journal entries of other features, or of none.
pub open spec fn not_of_feature(f: Seq<char>) -> spec_fn(JournalView) -> bool {
    |e: JournalView| e.feature_id != Some(f)
}

/// The database without the dependencies, logs and journal entries of a
/// feature.
pub open spec fn stripped(db: DbView, f: Seq<char>) -> DbView {
    let gone = feature_places(db, f);
    DbView {
        deps: db.deps.filter(dep_untouched(db, gone)),
        logs: db.logs.filter(log_stays(db.tasks, gone)),
        journal: db.journal.filter(not_of_feature(f)),
        ..db
    }
}

/// A task outside the feature has its parent in it.
pub open spec fn leaves_orphan(db: DbView, f: Seq<char>) -> bool {
    exists|i: int, j: int| #[trigger]
        is_child(db.tasks, i, j) && feature_places(db, f).contains(i) && !feature_places(
            db,
            f,
        ).contains(j)
}

/// A journal entry of another feature, or of none, names a task of the feature.
pub open spec fn leaves_entry(db: DbView, f: Seq<char>) -> bool {
    exists|k: int|
        0 <= k < db.journal.len() && (#[trigger] db.journal[k]).feature_id != Some(f)
            && db.journal[k].task_id is Some && feature_places(db, f).contains(
            pos(db.tasks, db.journal[k].task_id->0),
        )
}

/// The database without a feature's tasks and what belongs to them.
pub open spec fn without_feature(db: DbView, f: Seq<char>) -> DbView {
    DbView { tasks: without_places(db.tasks, feature_places(db, f)), ..stripped(db, f) }
}

pub proof fn lemma_stripped_keeps(db: DbView, f: Seq<char>)
    requires
        db.wf(),
    ensures
        stripped(db, f).wf(),
        !leaves_orphan(db, f) && !leaves_entry(db, f) ==> without_feature(db, f).wf(),
{
    let gone = feature_places(db, f);
    let s = stripped(db, f);
    let w = without_feature(db, f);
    let p = dep_untouched(db, gone);
    let q = log_stays(db.tasks, gone);
    if !leaves_orphan(db, f) {
        lemma_without_rows(db, gone);
    }
    assert forall|k: int| 0 <= k < s.deps.len() implies has_task(db.tasks, (#[trigger] s.deps[k]).0)
        && has_task(db.tasks, s.deps[k].1) && s.deps[k].0 != s.deps[k].1 && has_task(
        w.tasks,
        s.deps[k].0,
    ) && has_task(w.tasks, s.deps[k].1) by {
        assert(s.deps.contains(s.deps[k]));
        lemma_filter_members(db.deps, p, s.deps[k]);
        let l = choose|l: int| 0 <= l < db.deps.len() && db.deps[l] == s.deps[k];
        assert(has_task(db.tasks, db.deps[l].0) && has_task(db.tasks, db.deps[l].1));
        lemma_stays(db.tasks, gone, db.deps[l].0);
        lemma_stays(db.tasks, gone, db.deps[l].1);
    }
    assert forall|k: int, l: int| 0 <= k < l < s.deps.len() implies #[trigger] s.deps[k]
        != #[trigger] s.deps[l] by {
        let r = lemma_filter_order(db.deps, p, k, l);
        assert(db.deps[r.0] != db.deps[r.1]);
    }
    assert forall|k: int| 0 <= k < s.logs.len() implies has_task(
        db.tasks,
        (#[trigger] s.logs[k]).task_id,
    ) && has_task(w.tasks, s.logs[k].task_id) by {
        assert(s.logs.contains(s.logs[k]));
        lemma_filter_members(db.logs, q, s.logs[k]);
        let l = choose|l: int| 0 <= l < db.logs.len() && db.logs[l] == s.logs[k];
        assert(has_task(db.tasks, db.logs[l].task_id));
        lemma_stays(db.tasks, gone, db.logs[l].task_id);
    }
    let e = not_of_feature(f);
    assert forall|k: int| 0 <= k < s.journal.len() implies entry_refers(
        #[trigger] s.journal[k],
        db.tasks,
        db.features,
    ) && 0 < s.journal[k].id <= db.last_entry && (!leaves_entry(db, f) ==> entry_refers(
        s.journal[k],
        w.tasks,
        db.features,
    )) by {
        assert(s.journal.contains(s.journal[k]));
        lemma_filter_members(db.journal, e, s.journal[k]);
        let l = choose|l: int| 0 <= l < db.journal.len() && db.journal[l] == s.journal[k];
        assert(entry_refers(db.journal[l], db.tasks, db.features));
        if db.journal[l].task_id is Some && !leaves_entry(db, f) {
            lemma_stays(db.tasks, gone, db.journal[l].task_id->0);
        }
    }
    assert forall|k: int, l: int| 0 <= k < l < s.journal.len() implies (
    #[trigger] s.journal[k]).id < (#[trigger] s.journal[l]).id by {
        let r = lemma_filter_order(db.journal, e, k, l);
        assert(db.journal[r.0].id < db.journal[r.1].id);
    }
}

impl Db {
    /// Flags for the tasks of a feature.
    fn feature_flags(&self, feature_id: &str) -> (r: Vec<bool>)
        ensures
            r@.len() == self@.tasks.len(),
            marked(r@) == feature_places(self@, feature_id@),
    {
        let mut r: Vec<bool> = Vec::new();
        let mut i: usize = 0;
        while i < self.tasks.len()
            invariant
                i <= self.tasks@.len(),
                r@.len() == i,
                forall|j: int|
                    0 <= j < i ==> #[trigger] r@[j] == (self@.tasks[j].feature_id == Some(
                        feature_id@,
                    )),
            decreases self.tasks@.len() - i,
        {
            assert(self@.tasks[i as int] == self.tasks@[i as int]@);
            r.push(opt_same(&self.tasks[i].feature_id, feature_id));
            i = i + 1;
        }
        assert(self@.tasks.len() == self.tasks@.len());
        assert(marked(r@) =~= feature_places(self@, feature_id@));
        r
    }

    /// The dependencies that involve no marked task.
    fn untouched_deps(&self, gone: &Vec<bool>) -> (r: Vec<Dependency>)
        requires
            self@.wf(),
            gone@.len() == self@.tasks.len(),
        ensures
            dep_views(r@) == self@.deps.filter(dep_untouched(self@, marked(gone@))),
    {
        let ghost db = self@;
        let ghost p = dep_untouched(db, marked(gone@));
        let mut r: Vec<Dependency> = Vec::new();
        let mut k: usize = 0;
        assert(dep_views(r@) =~= db.deps.take(0).filter(p)) by {
            reveal(Seq::filter);
        }
        while k < self.deps.len()
            invariant
                k <= self.deps@.len(),
                db == self@,
                db.wf(),
                gone@.len() == db.tasks.len(),
                p == dep_untouched(db, marked(gone@)),
                dep_views(r@) == db.deps.take(k as int).filter(p),
            decreases self.deps@.len() - k,
        {
            proof {
                lemma_filter_step(db.deps, p, k as int);
            }
            assert(db.deps[k as int] == self.deps@[k as int]@);
            assert(has_task(db.tasks, db.deps[k as int].0));
            assert(has_task(db.tasks, db.deps[k as int].1));
            let a = self.find_task(self.deps[k].blocker.as_str());
            let b = self.find_task(self.deps[k].blocked.as_str());
            match (a, b) {
                (Some(i), Some(j)) => {
                    if !gone[i] && !gone[j] {
                        let ghost before = r@;
                        let d = Dependency {
                            blocker: self.deps[k].blocker.clone(),
                            blocked: self.deps[k].blocked.clone(),
                        };
                        r.push(d);
                        assert(dep_views(r@) =~= dep_views(before).push(db.deps[k as int]));
                    }
                },
                _ => {},
            }
            k = k + 1;
        }
        assert(db.deps.take(db.deps.len() as int) =~= db.deps);
        r
    }

    /// The journal entries of other features, or of none.
    fn other_journal(&self, feature_id: &str) -> (r: Vec<JournalEntry>)
        ensures
            journal_views(r@) == self@.journal.filter(not_of_feature(feature_id@)),
    {
        let ghost all = self@.journal;
        let ghost p = not_of_feature(feature_id@);
        let mut r: Vec<JournalEntry> = Vec::new();
        let mut k: usize = 0;
        assert(journal_views(r@) =~= all.take(0).filter(p)) by {
            reveal(Seq::filter);
        }
        while k < self.journal.len()
            invariant
                k <= self.journal@.len(),
                all == self@.journal,
                p == not_of_feature(feature_id@),
                journal_views(r@) == all.take(k as int).filter(p),
            decreases self.journal@.len() - k,
        {
            proof {
                lemma_filter_step(all, p, k as int);
            }
            assert(all[k as int] == self.journal@[k as int]@);
            if !opt_same(&self.journal[k].feature_id, feature_id) {
                let ghost before = r@;
                let e = self.journal[k].clone();
                r.push(e);
                assert(journal_views(r@) =~= journal_views(before).push(all[k as int]));
            }
            k = k + 1;
        }
        assert(all.take(all.len() as int) =~= all);
        r
    }

    /// Whether a task that is not marked has a marked parent.
    fn finds_orphan(&self, gone: &Vec<bool>) -> (r: bool)
        requires
            self@.wf(),
            gone@.len() == self@.tasks.len(),
        ensures
            r == (exists|i: int, j: int| #[trigger]
                is_child(self@.tasks, i, j) && marked(gone@).contains(i) && !marked(
                    gone@,
                ).contains(j)),
    {
        let ghost tasks = self@.tasks;
        let ghost m = marked(gone@);
        let mut j: usize = 0;
        while j < self.tasks.len()
            invariant
                j <= self.tasks@.len(),
                tasks == self@.tasks,
                self@.wf(),
                m == marked(gone@),
                gone@.len() == tasks.len(),
                forall|a: int, b: int|
                    b < j && #[trigger] is_child(tasks, a, b) && m.contains(a) ==> m.contains(b),
            decreases self.tasks@.len() - j,
        {
            assert(tasks[j as int] == self.tasks@[j as int]@);
            match self.parent_index(j) {
                Some(i) => {
                    assert(is_child(tasks, i as int, j as int));
                    if gone[i] && !gone[j] {
                        assert(m.contains(i as int) && !m.contains(j as int));
                        return true;
                    }
                    assert forall|a: int, b: int|
                        b < j + 1 && #[trigger] is_child(tasks, a, b) && m.contains(
                            a,
                        ) implies m.contains(b) by {
                        if b == j {
                            assert(crate::dag::model::is_parent_at(tasks, b, a));
                            crate::dag::transitions::lemma_parent_unique(tasks, b, a);
                            crate::dag::transitions::lemma_parent_unique(tasks, b, i as int);
                        }
                    }
                },
                None => {},
            }
            j = j + 1;
        }
        false
    }

    /// Whether a journal entry that is not of the feature names a marked task.
    fn finds_entry(&self, feature_id: &str, gone: &Vec<bool>) -> (r: bool)
        requires
            self@.wf(),
            gone@.len() == self@.tasks.len(),
            marked(gone@) == feature_places(self@, feature_id@),
        ensures
            r == leaves_entry(self@, feature_id@),
    {
        let ghost db = self@;
        let mut k: usize = 0;
        while k < self.journal.len()
            invariant
                k <= self.journal@.len(),
                db == self@,
                db.wf(),
                gone@.len() == db.tasks.len(),
                marked(gone@) == feature_places(db, feature_id@),
                forall|l: int|
                    0 <= l < k && (#[trigger] db.journal[l]).feature_id != Some(feature_id@)
                        && db.journal[l].task_id is Some ==> !feature_places(
                        db,
                        feature_id@,
                    ).contains(pos(db.tasks, db.journal[l].task_id->0)),
            decreases self.journal@.len() - k,
        {
            assert(db.journal[k as int] == self.journal@[k as int]@);
            assert(entry_refers(db.journal[k as int], db.tasks, db.features));
            if !opt_same(&self.journal[k].feature_id, feature_id) {
                match &self.journal[k].task_id {
                    Some(id) => match self.find_task(id.as_str()) {
                        Some(i) => {
                            if gone[i] {
                                assert(marked(gone@).contains(i as int));
                                return true;
                            }
                            assert(!marked(gone@).contains(i as int));
                        },
                        None => {},
                    },
                    None => {},
                }
            }
            k = k + 1;
        }
        false
    }

    /// Deletes all tasks associated with a feature.
    ///
    /// Removes dependencies, logs, journal entries, and the tasks themselves;
    /// gives back how many tasks there were. Tasks of others below one of the
    /// feature's tasks keep the tasks from being deleted, and so do other
    /// journal entries that name one.
    pub fn delete_tasks_for_feature(&mut self, feature_id: &str) -> (r: Result<usize, DagError>)
        requires
            old(self)@.wf(),
        ensures
            final(self)@.wf(),
            ({
                let db = old(self)@;
                let n = db.tasks.filter(Select::OfFeature(feature_id).pred(db)).len();
                if n == 0 {
                    r is Ok && r->Ok_0 == 0 && final(self)@ == db
                } else if leaves_orphan(db, feature_id@) || leaves_entry(db, feature_id@) {
                    r is Err && r->Err_0@ == DagErrorView::Constraint && final(self)@ == stripped(
                        db,
                        feature_id@,
                    )
                } else {
                    r is Ok && r->Ok_0 == n && final(self)@ == without_feature(db, feature_id@)
                }
            }),
    {
        let ghost db = self@;
        let count: usize = self.count_tasks(Select::OfFeature(feature_id));
        if count == 0 {
            return Ok(0);
        }
        let gone = self.feature_flags(feature_id);
        proof {
            lemma_stripped_keeps(db, feature_id@);
        }
        let held = self.finds_orphan(&gone) || self.finds_entry(feature_id, &gone);
        let tasks = self.unmarked_tasks(&gone);
        let deps = self.untouched_deps(&gone);
        let logs = self.unmarked_logs(&gone);
        let journal = self.other_journal(feature_id);
        self.deps = deps;
        self.logs = logs;
        self.journal = journal;
        if held {
            return Err(DagError::Constraint);
        }
        self.tasks = tasks;
        Ok(count)
    }
}

} // verus!
