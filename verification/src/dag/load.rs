//! Taking over rows from storage, after checking that they hold together.

use vstd::prelude::*;

use crate::dag::model::{
    deps_ok, entry_refers, features_ok, has_task, ids_distinct, is_feature_status, is_parent_at,
    is_task_status, is_verification_status, journal_ok, parents_first, task_columns, Db,
    Dependency, FeatureRow, JournalEntry, LogEntry, Task,
};
use crate::text::basic::{opt_same, opt_text, same};

verus! {

/// Whether the text is a task status.
pub fn names_task_status(s: &str) -> (r: bool)
    ensures
        r == is_task_status(s@),
{
    same(s, "pending") || same(s, "in_progress") || same(s, "done") || same(s, "blocked") || same(
        s,
        "failed",
    )
}

/// Whether the text is a feature status.
pub fn names_feature_status(s: &str) -> (r: bool)
    ensures
        r == is_feature_status(s@),
{
    same(s, "draft") || same(s, "planned") || same(s, "ready") || same(s, "running") || same(
        s,
        "done",
    ) || same(s, "failed")
}

/// Whether the text, where there is one, is a verification result.
pub fn names_verification(o: &Option<String>) -> (r: bool)
    ensures
        r == is_verification_status(opt_text(*o)),
{
    match o {
        None => true,
        Some(s) => same(s.as_str(), "pending") || same(s.as_str(), "passed") || same(
            s.as_str(),
            "failed",
        ),
    }
}

impl Db {
    fn ids_are_distinct(&self) -> (r: bool)
        ensures
            r == ids_distinct(self@.tasks),
    {
        let mut j: usize = 0;
        while j < self.tasks.len()
            invariant
                j <= self.tasks@.len(),
                forall|a: int, b: int|
                    0 <= a < b < j ==> (#[trigger] self@.tasks[a]).id != (
                    #[trigger] self@.tasks[b]).id,
            decreases self.tasks@.len() - j,
        {
            assert(self@.tasks[j as int] == self.tasks@[j as int]@);
            let mut i: usize = 0;
            while i < j
                invariant
                    i <= j < self.tasks@.len(),
                    self@.tasks[j as int] == self.tasks@[j as int]@,
                    forall|a: int|
                        0 <= a < i ==> (#[trigger] self@.tasks[a]).id != self@.tasks[j as int].id,
                decreases j - i,
            {
                assert(self@.tasks[i as int] == self.tasks@[i as int]@);
                if same(self.tasks[i].id.as_str(), self.tasks[j].id.as_str()) {
                    assert(self@.tasks[i as int].id == self@.tasks[j as int].id);
                    return false;
                }
                i = i + 1;
            }
            j = j + 1;
        }
        true
    }

    fn parents_come_first(&self) -> (r: bool)
        ensures
            r == parents_first(self@.tasks),
    {
        let ghost tasks = self@.tasks;
        let mut i: usize = 0;
        while i < self.tasks.len()
            invariant
                i <= self.tasks@.len(),
                tasks == self@.tasks,
                forall|x: int|
                    0 <= x < i && (#[trigger] tasks[x]).parent_id is Some ==> exists|y: int|
                        is_parent_at(tasks, x, y),
            decreases self.tasks@.len() - i,
        {
            assert(tasks[i as int] == self.tasks@[i as int]@);
            if self.tasks[i].parent_id.is_some() {
                let mut found = false;
                let mut j: usize = 0;
                while j < i
                    invariant
                        j <= i < self.tasks@.len(),
                        tasks == self@.tasks,
                        tasks[i as int] == self.tasks@[i as int]@,
                        found == (exists|y: int| y < j && #[trigger] is_parent_at(tasks, i as int, y)),
                    decreases i - j,
                {
                    assert(tasks[j as int] == self.tasks@[j as int]@);
                    if opt_same(&self.tasks[i].parent_id, self.tasks[j].id.as_str()) {
                        assert(is_parent_at(tasks, i as int, j as int));
                        found = true;
                    } else {
                        assert(!is_parent_at(tasks, i as int, j as int));
                    }
                    j = j + 1;
                }
                if !found {
                    assert(!(exists|y: int| is_parent_at(tasks, i as int, y)));
                    return false;
                }
            }
            i = i + 1;
        }
        true
    }

    fn columns_are_valid(&self) -> (r: bool)
        ensures
            r == (forall|i: int|
                0 <= i < self@.tasks.len() ==> task_columns(
                    #[trigger] self@.tasks[i],
                    self@.features,
                )),
    {
        let mut i: usize = 0;
        while i < self.tasks.len()
            invariant
                i <= self.tasks@.len(),
                forall|j: int|
                    0 <= j < i ==> task_columns(#[trigger] self@.tasks[j], self@.features),
            decreases self.tasks@.len() - i,
        {
            assert(self@.tasks[i as int] == self.tasks@[i as int]@);
            let t = &self.tasks[i];
            let known = match &t.feature_id {
                Some(f) => self.find_feature(f.as_str()).is_some(),
                None => true,
            };
            if !known || !names_task_status(t.status.as_str()) || !names_verification(
                &t.verification_status,
            ) || !(same(t.task_type.as_str(), "feature") || same(
                t.task_type.as_str(),
                "standalone",
            )) {
                assert(!task_columns(self@.tasks[i as int], self@.features));
                return false;
            }
            i = i + 1;
        }
        true
    }

    fn features_are_ok(&self) -> (r: bool)
        ensures
            r == features_ok(self@.features),
    {
        let ghost fs = self@.features;
        let mut j: usize = 0;
        while j < self.features.len()
            invariant
                j <= self.features@.len(),
                fs == self@.features,
                forall|a: int, b: int|
                    0 <= a < b < j ==> (#[trigger] fs[a]).feature.id != (
                    #[trigger] fs[b]).feature.id && fs[a].feature.name != fs[b].feature.name,
                forall|a: int| 0 <= a < j ==> is_feature_status((#[trigger] fs[a]).feature.status),
            decreases self.features@.len() - j,
        {
            assert(fs[j as int] == self.features@[j as int]@);
            if !names_feature_status(self.features[j].feature.status.as_str()) {
                return false;
            }
            let mut i: usize = 0;
            while i < j
                invariant
                    i <= j < self.features@.len(),
                    fs == self@.features,
                    fs[j as int] == self.features@[j as int]@,
                    forall|a: int|
                        0 <= a < i ==> (#[trigger] fs[a]).feature.id != fs[j as int].feature.id
                            && fs[a].feature.name != fs[j as int].feature.name,
                decreases j - i,
            {
                assert(fs[i as int] == self.features@[i as int]@);
                if same(
                    self.features[i].feature.id.as_str(),
                    self.features[j].feature.id.as_str(),
                ) || same(
                    self.features[i].feature.name.as_str(),
                    self.features[j].feature.name.as_str(),
                ) {
                    assert(fs[i as int].feature.id == fs[j as int].feature.id
                        || fs[i as int].feature.name == fs[j as int].feature.name);
                    return false;
                }
                i = i + 1;
            }
            j = j + 1;
        }
        true
    }

    fn deps_are_ok(&self) -> (r: bool)
        ensures
            r == deps_ok(self@.deps, self@.tasks),
    {
        let ghost ds = self@.deps;
        let mut j: usize = 0;
        while j < self.deps.len()
            invariant
                j <= self.deps@.len(),
                ds == self@.deps,
                forall|a: int, b: int|
                    0 <= a < b < j ==> #[trigger] ds[a] != #[trigger] ds[b],
                forall|a: int|
                    0 <= a < j ==> has_task(self@.tasks, (#[trigger] ds[a]).0) && has_task(
                        self@.tasks,
                        ds[a].1,
                    ) && ds[a].0 != ds[a].1,
            decreases self.deps@.len() - j,
        {
            assert(ds[j as int] == self.deps@[j as int]@);
            if self.find_task(self.deps[j].blocker.as_str()).is_none() || self.find_task(
                self.deps[j].blocked.as_str(),
            ).is_none() || same(self.deps[j].blocker.as_str(), self.deps[j].blocked.as_str()) {
                return false;
            }
            let mut i: usize = 0;
            while i < j
                invariant
                    i <= j < self.deps@.len(),
                    ds == self@.deps,
                    ds[j as int] == self.deps@[j as int]@,
                    forall|a: int| 0 <= a < i ==> #[trigger] ds[a] != ds[j as int],
                decreases j - i,
            {
                assert(ds[i as int] == self.deps@[i as int]@);
                if same(self.deps[i].blocker.as_str(), self.deps[j].blocker.as_str()) && same(
                    self.deps[i].blocked.as_str(),
                    self.deps[j].blocked.as_str(),
                ) {
                    assert(ds[i as int] == ds[j as int]);
                    return false;
                }
                i = i + 1;
            }
            j = j + 1;
        }
        true
    }

    fn logs_are_ok(&self) -> (r: bool)
        ensures
            r == (forall|k: int|
                0 <= k < self@.logs.len() ==> has_task(
                    self@.tasks,
                    (#[trigger] self@.logs[k]).task_id,
                )),
    {
        let mut k: usize = 0;
        while k < self.logs.len()
            invariant
                k <= self.logs@.len(),
                forall|a: int|
                    0 <= a < k ==> has_task(self@.tasks, (#[trigger] self@.logs[a]).task_id),
            decreases self.logs@.len() - k,
        {
            assert(self@.logs[k as int] == self.logs@[k as int]@);
            if self.find_task(self.logs[k].task_id.as_str()).is_none() {
                return false;
            }
            k = k + 1;
        }
        true
    }

    fn journal_is_ok(&self) -> (r: bool)
        ensures
            r == journal_ok(self@.journal, self@.tasks, self@.features, self@.last_entry),
    {
        let ghost es = self@.journal;
        if self.last_entry < 0 {
            return false;
        }
        let mut last: i64 = 0;
        let mut k: usize = 0;
        while k < self.journal.len()
            invariant
                k <= self.journal@.len(),
                es == self@.journal,
                0 <= self.last_entry,
                0 <= last <= self.last_entry,
                k > 0 ==> last == es[k - 1].id,
                k == 0 ==> last == 0,
                forall|a: int|
                    0 <= a < k ==> entry_refers(#[trigger] es[a], self@.tasks, self@.features)
                        && 0 < es[a].id <= last,
                forall|a: int, b: int|
                    0 <= a < b < k ==> (#[trigger] es[a]).id < (#[trigger] es[b]).id,
            decreases self.journal@.len() - k,
        {
            assert(es[k as int] == self.journal@[k as int]@);
            let id: i64 = self.journal[k].id;
            if id <= last || id > self.last_entry || !self.refers(&self.journal[k]) {
                proof {
                    if k > 0 {
                        assert(es[k - 1].id < es[k as int].id ==> id > last);
                    }
                }
                return false;
            }
            last = id;
            k = k + 1;
        }
        true
    }

    /// Whether the database keeps its invariant.
    pub fn is_wf(&self) -> (r: bool)
        ensures
            r == self@.wf(),
    {
        self.ids_are_distinct() && self.parents_come_first() && self.columns_are_valid()
            && self.features_are_ok() && self.deps_are_ok() && self.logs_are_ok()
            && self.journal_is_ok()
    }

    /// The database made of these rows, where they keep its invariant.
    pub fn from_rows(
        tasks: Vec<Task>,
        deps: Vec<Dependency>,
        logs: Vec<LogEntry>,
        features: Vec<FeatureRow>,
        journal: Vec<JournalEntry>,
        last_entry: i64,
    ) -> (r: Option<Db>)
        ensures
            ({
                let db = (Db { tasks, deps, logs, features, journal, last_entry });
                if db@.wf() {
                    r == Some(db)
                } else {
                    r is None
                }
            }),
    {
        let db = Db { tasks, deps, logs, features, journal, last_entry };
        if db.is_wf() {
            Some(db)
        } else {
            None
        }
    }
}

} // verus!
