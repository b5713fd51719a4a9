//! Feature management.

use vstd::prelude::*;

use crate::dag::load::names_feature_status;
use crate::dag::model::{
    entry_refers, feature_views, has_feature, is_feature_status, row_views, task_columns, DagError,
    DagErrorView, Db, DbView, Feature, FeatureRow, FeatureRowView, FeatureView,
};
use crate::dag::queries::Select;
use crate::order::{key_views, order_of, pick, places, stable_order, SortKey};
use crate::seqs::{lemma_filter_members, lemma_filter_order, lemma_filter_step};
use crate::text::basic::{opt_same, same};

verus! {

/// A feature with this name is recorded.
pub open spec fn has_name(features: Seq<FeatureRowView>, name: Seq<char>) -> bool {
    exists|i: int| 0 <= i < features.len() && (#[trigger] features[i]).feature.name == name
}

/// Where the feature with this name stands.
pub open spec fn name_pos(features: Seq<FeatureRowView>, name: Seq<char>) -> int {
    choose|i: int| 0 <= i < features.len() && (#[trigger] features[i]).feature.name == name
}

/// Where the feature with this id stands.
pub open spec fn feature_pos(features: Seq<FeatureRowView>, id: Seq<char>) -> int {
    choose|i: int| 0 <= i < features.len() && (#[trigger] features[i]).feature.id == id
}

/// The row that a new feature gets.
pub open spec fn draft_row(id: Seq<char>, name: Seq<char>, now: Seq<char>) -> FeatureRowView {
    FeatureRowView {
        feature: FeatureView { id, name, spec_path: None, plan_path: None, status: "draft"@ },
        created_at: now,
        updated_at: now,
    }
}

/// All features, oldest first.
pub open spec fn listed_features(features: Seq<FeatureRowView>) -> Seq<FeatureView> {
    let keys = features.map_values(|r: FeatureRowView| (0int, r.created_at));
    pick(features.map_values(|r: FeatureRowView| r.feature), stable_order(keys))
}

/// Replacing a feature row by one with the same id, the same name and a valid
/// status keeps the invariant.
proof fn lemma_feature_replaced(db: DbView, i: int, row: FeatureRowView)
    requires
        db.wf(),
        0 <= i < db.features.len(),
        row.feature.id == db.features[i].feature.id,
        row.feature.name == db.features[i].feature.name,
        is_feature_status(row.feature.status),
    ensures
        (DbView { features: db.features.update(i, row), ..db }).wf(),
{
    let b = db.features.update(i, row);
    assert forall|x: int, y: int| 0 <= x < y < b.len() implies (#[trigger] b[x]).feature.id != (
    #[trigger] b[y]).feature.id && b[x].feature.name != b[y].feature.name by {
        assert(db.features[x].feature.id != db.features[y].feature.id);
    }
    assert forall|x: int| 0 <= x < b.len() implies is_feature_status(
        (#[trigger] b[x]).feature.status,
    ) by {
        assert(is_feature_status(db.features[x].feature.status));
    }
    assert forall|id: Seq<char>| #[trigger] has_feature(db.features, id) implies has_feature(
        b,
        id,
    ) by {
        let x = choose|x: int| 0 <= x < db.features.len() && (#[trigger] db.features[x]).feature.id
            == id;
        assert(b[x].feature.id == id);
    }
    assert forall|x: int| 0 <= x < db.tasks.len() implies task_columns(
        #[trigger] db.tasks[x],
        b,
    ) by {
        assert(task_columns(db.tasks[x], db.features));
    }
}

/// A feature that was created is found by its name and by its id, in draft.
pub proof fn law_new_feature_reads_back(
    db: DbView,
    id: Seq<char>,
    name: Seq<char>,
    now: Seq<char>,
)
    requires
        db.wf(),
        !has_name(db.features, name),
        !has_feature(db.features, id),
    ensures
        ({
            let after = db.features.push(draft_row(id, name, now));
            &&& has_name(after, name)
            &&& has_feature(after, id)
            &&& after[name_pos(after, name)] == draft_row(id, name, now)
            &&& after[feature_pos(after, id)] == draft_row(id, name, now)
        }),
{
    let after = db.features.push(draft_row(id, name, now));
    let n = db.features.len() as int;
    assert(after[n].feature.name == name && after[n].feature.id == id);
    let i = name_pos(after, name);
    let j = feature_pos(after, id);
    assert(0 <= i < after.len() && after[i].feature.name == name);
    assert(0 <= j < after.len() && after[j].feature.id == id);
    if i < n {
        assert(db.features[i].feature.name == name);
    }
    if j < n {
        assert(db.features[j].feature.id == id);
    }
}

impl Db {
    /// Where the feature with this name stands.
    pub fn find_feature_name(&self, name: &str) -> (r: Option<usize>)
        requires
            self@.wf(),
        ensures
            match r {
                Some(i) => i < self@.features.len() && self@.features[i as int].feature.name
                    == name@ && has_name(self@.features, name@) && name_pos(self@.features, name@)
                    == i,
                None => !has_name(self@.features, name@),
            },
    {
        let mut i: usize = 0;
        while i < self.features.len()
            invariant
                self@.wf(),
                i <= self.features@.len(),
                forall|j: int| 0 <= j < i ==> (#[trigger] self@.features[j]).feature.name != name@,
            decreases self.features@.len() - i,
        {
            assert(self@.features[i as int] == self.features@[i as int]@);
            if same(self.features[i].feature.name.as_str(), name) {
                proof {
                    let j = name_pos(self@.features, name@);
                    assert(self@.features[i as int].feature.name == name@);
                    assert(self@.features[j].feature.name == name@);
                    if j < i {
                        assert(self@.features[j].feature.name != self@.features[i as int].feature.name);
                    } else if i < j {
                        assert(self@.features[i as int].feature.name != self@.features[j].feature.name);
                    }
                }
                return Some(i);
            }
            i = i + 1;
        }
        None
    }

    /// Where the feature with this id stands; there is one place at most.
    pub fn find_feature_place(&self, id: &str) -> (r: Option<usize>)
        requires
            self@.wf(),
        ensures
            match r {
                Some(i) => i < self@.features.len() && self@.features[i as int].feature.id == id@
                    && has_feature(self@.features, id@) && feature_pos(self@.features, id@) == i,
                None => !has_feature(self@.features, id@),
            },
    {
        let r = self.find_feature(id);
        proof {
            if r is Some {
                let i = r->0 as int;
                let j = feature_pos(self@.features, id@);
                assert(self@.features[i].feature.id == id@);
                assert(self@.features[j].feature.id == id@);
                if j < i {
                    assert(self@.features[j].feature.id != self@.features[i].feature.id);
                } else if i < j {
                    assert(self@.features[i].feature.id != self@.features[j].feature.id);
                }
            }
        }
        r
    }

    /// Creates a new feature, in draft.
    pub fn create_feature(&mut self, name: &str, id: &str, now: &str) -> (r: Result<
        Feature,
        DagError,
    >)
        requires
            old(self)@.wf(),
        ensures
            final(self)@.wf(),
            ({
                let db = old(self)@;
                if has_name(db.features, name@) {
                    r is Err && r->Err_0@ == DagErrorView::FeatureExists(name@) && final(self)@
                        == db
                } else if has_feature(db.features, id@) {
                    r is Err && r->Err_0@ == DagErrorView::NotCreated(name@) && final(self)@
                        == db
                } else {
                    let row = draft_row(id@, name@, now@);
                    r is Ok && r->Ok_0@ == row.feature && final(self)@ == (DbView {
                        features: db.features.push(row),
                        ..db
                    })
                }
            }),
    {
        let ghost db = self@;
        if self.find_feature_name(name).is_some() {
            return Err(DagError::FeatureExists(name.to_owned()));
        }
        if self.find_feature(id).is_some() {
            return Err(DagError::NotCreated(name.to_owned()));
        }
        let feature = Feature {
            id: id.to_owned(),
            name: name.to_owned(),
            spec_path: None,
            plan_path: None,
            status: "draft".to_owned(),
        };
        let row = FeatureRow {
            feature: feature.clone(),
            created_at: now.to_owned(),
            updated_at: now.to_owned(),
        };
        let ghost rv = row@;
        let ghost before = self.features@;
        self.features.push(row);
        assert(row_views(self.features@) =~= row_views(before).push(rv));
        proof {
            let b = self@.features;
            assert forall|x: int, y: int| 0 <= x < y < b.len() implies (
            #[trigger] b[x]).feature.id != (#[trigger] b[y]).feature.id && b[x].feature.name
                != b[y].feature.name by {
                if y < db.features.len() {
                    assert(db.features[x].feature.id != db.features[y].feature.id);
                } else {
                    assert(db.features[x].feature.id != id@);
                    assert(db.features[x].feature.name != name@);
                }
            }
            assert forall|x: int| 0 <= x < b.len() implies is_feature_status(
                (#[trigger] b[x]).feature.status,
            ) by {
                if x < db.features.len() {
                    assert(is_feature_status(db.features[x].feature.status));
                }
            }
            assert forall|f: Seq<char>| #[trigger] has_feature(db.features, f) implies has_feature(
                b,
                f,
            ) by {
                let x = choose|x: int|
                    0 <= x < db.features.len() && (#[trigger] db.features[x]).feature.id == f;
                assert(b[x].feature.id == f);
            }
            assert forall|x: int| 0 <= x < db.tasks.len() implies task_columns(
                #[trigger] self@.tasks[x],
                b,
            ) by {
                assert(task_columns(db.tasks[x], db.features));
            }
        }
        Ok(feature)
    }

    /// The feature of this name.
    pub fn get_feature(&self, name: &str) -> (r: Result<Feature, DagError>)
        requires
            self@.wf(),
        ensures
            has_name(self@.features, name@) ==> r is Ok && r->Ok_0@ == self@.features[name_pos(
                self@.features,
                name@,
            )].feature,
            !has_name(self@.features, name@) ==> r is Err && r->Err_0@ == DagErrorView::NoFeature(
                name@,
            ),
    {
        match self.find_feature_name(name) {
            Some(i) => {
                assert(self@.features[i as int] == self.features@[i as int]@);
                Ok(self.features[i].feature.clone())
            },
            None => Err(DagError::NoFeature(name.to_owned())),
        }
    }

    /// The feature with this ID.
    pub fn get_feature_by_id(&self, id: &str) -> (r: Result<Feature, DagError>)
        requires
            self@.wf(),
        ensures
            has_feature(self@.features, id@) ==> r is Ok && r->Ok_0@ == self@.features[feature_pos(
                self@.features,
                id@,
            )].feature,
            !has_feature(self@.features, id@) ==> r is Err && r->Err_0@
                == DagErrorView::NoFeatureId(id@),
    {
        match self.find_feature_place(id) {
            Some(i) => {
                assert(self@.features[i as int] == self.features@[i as int]@);
                Ok(self.features[i].feature.clone())
            },
            None => Err(DagError::NoFeatureId(id.to_owned())),
        }
    }

    /// Whether a feature of this name exists.
    pub fn feature_exists(&self, name: &str) -> (r: bool)
        requires
            self@.wf(),
        ensures
            r == has_name(self@.features, name@),
    {
        self.find_feature_name(name).is_some()
    }

    /// All features, oldest first.
    pub fn list_features(&self) -> (r: Vec<Feature>)
        ensures
            feature_views(r@) == listed_features(self@.features),
    {
        let ghost rows = self@.features;
        let ghost stamp = |r: FeatureRowView| (0int, r.created_at);
        let ghost inner = rows.map_values(|r: FeatureRowView| r.feature);
        let mut keys: Vec<SortKey> = Vec::new();
        let mut i: usize = 0;
        while i < self.features.len()
            invariant
                i <= self.features@.len(),
                rows == self@.features,
                stamp == (|r: FeatureRowView| (0int, r.created_at)),
                key_views(keys@) == rows.map_values(stamp).take(i as int),
            decreases self.features@.len() - i,
        {
            let ghost before = keys@;
            let k = SortKey { rank: 0, text: self.features[i].created_at.clone() };
            keys.push(k);
            assert(rows[i as int] == self.features@[i as int]@);
            assert(key_views(keys@) =~= key_views(before).push(k@));
            assert(rows.map_values(stamp).take(i + 1) =~= rows.map_values(stamp).take(
                i as int,
            ).push(stamp(rows[i as int])));
            i = i + 1;
        }
        assert(rows.map_values(stamp).take(rows.len() as int) =~= rows.map_values(stamp));
        assert(key_views(keys@).len() == keys@.len());
        let o = order_of(&keys);
        let ghost goal = listed_features(rows);
        let mut r: Vec<Feature> = Vec::new();
        let mut n: usize = 0;
        while n < o.len()
            invariant
                n <= o@.len(),
                rows == self@.features,
                inner == rows.map_values(|r: FeatureRowView| r.feature),
                forall|i: int| 0 <= i < o@.len() ==> (#[trigger] o@[i]) < self.features@.len(),
                goal == pick(inner, places(o@)),
                feature_views(r@) == goal.take(n as int),
            decreases o@.len() - n,
        {
            let ghost before = r@;
            let f = self.features[o[n]].feature.clone();
            r.push(f);
            assert(places(o@)[n as int] == o@[n as int] as int);
            assert(rows[o@[n as int] as int] == self.features@[o@[n as int] as int]@);
            assert(feature_views(r@) =~= feature_views(before).push(f@));
            assert(goal.take(n + 1) =~= goal.take(n as int).push(goal[n as int]));
            n = n + 1;
        }
        assert(goal.take(goal.len() as int) =~= goal);
        r
    }

    /// Puts another row in the place of the feature at `i`.
    fn put_feature_at(&mut self, i: usize, row: FeatureRow)
        requires
            old(self)@.wf(),
            i < old(self)@.features.len(),
            row@.feature.id == old(self)@.features[i as int].feature.id,
            row@.feature.name == old(self)@.features[i as int].feature.name,
            is_feature_status(row@.feature.status),
        ensures
            final(self)@.wf(),
            final(self)@ == (DbView {
                features: old(self)@.features.update(i as int, row@),
                ..old(self)@
            }),
    {
        let ghost db = self@;
        let ghost before = self.features@;
        let ghost rv = row@;
        self.features.set(i, row);
        assert(row_views(self.features@) =~= row_views(before).update(i as int, rv));
        proof {
            lemma_feature_replaced(db, i as int, rv);
        }
    }

    /// Updates a feature's status.
    pub fn update_feature_status(&mut self, id: &str, status: &str, now: &str) -> (r: Result<
        (),
        DagError,
    >)
        requires
            old(self)@.wf(),
        ensures
            final(self)@.wf(),
            ({
                let db = old(self)@;
                let i = feature_pos(db.features, id@);
                if !has_feature(db.features, id@) {
                    r is Err && r->Err_0@ == DagErrorView::NoFeature(id@) && final(self)@ == db
                } else if !is_feature_status(status@) {
                    r is Err && r->Err_0@ == DagErrorView::FeatureStatus(status@)
                        && final(self)@ == db
                } else {
                    r is Ok && final(self)@ == (DbView {
                        features: db.features.update(
                            i,
                            FeatureRowView {
                                feature: FeatureView { status: status@, ..db.features[i].feature },
                                updated_at: now@,
                                ..db.features[i]
                            },
                        ),
                        ..db
                    })
                }
            }),
    {
        match self.find_feature_place(id) {
            None => Err(DagError::NoFeature(id.to_owned())),
            Some(i) => {
                if !names_feature_status(status) {
                    return Err(DagError::FeatureStatus(status.to_owned()));
                }
                assert(self@.features[i as int] == self.features@[i as int]@);
                let mut row = self.features[i].clone();
                row.feature.status = status.to_owned();
                row.updated_at = now.to_owned();
                self.put_feature_at(i, row);
                Ok(())
            },
        }
    }

    /// Updates a feature's spec path, where the feature exists.
    pub fn update_feature_spec_path(&mut self, id: &str, spec_path: &str, now: &str)
        requires
            old(self)@.wf(),
        ensures
            final(self)@.wf(),
            ({
                let db = old(self)@;
                let i = feature_pos(db.features, id@);
                if !has_feature(db.features, id@) {
                    final(self)@ == db
                } else {
                    final(self)@ == (DbView {
                        features: db.features.update(
                            i,
                            FeatureRowView {
                                feature: FeatureView {
                                    spec_path: Some(spec_path@),
                                    ..db.features[i].feature
                                },
                                updated_at: now@,
                                ..db.features[i]
                            },
                        ),
                        ..db
                    })
                }
            }),
    {
        match self.find_feature_place(id) {
            None => {},
            Some(i) => {
                assert(self@.features[i as int] == self.features@[i as int]@);
                assert(is_feature_status(self@.features[i as int].feature.status));
                let mut row = self.features[i].clone();
                row.feature.spec_path = Some(spec_path.to_owned());
                row.updated_at = now.to_owned();
                self.put_feature_at(i, row);
            },
        }
    }

    /// Updates a feature's plan path, where the feature exists.
    pub fn update_feature_plan_path(&mut self, id: &str, plan_path: &str, now: &str)
        requires
            old(self)@.wf(),
        ensures
            final(self)@.wf(),
            ({
                let db = old(self)@;
                let i = feature_pos(db.features, id@);
                if !has_feature(db.features, id@) {
                    final(self)@ == db
                } else {
                    final(self)@ == (DbView {
                        features: db.features.update(
                            i,
                            FeatureRowView {
                                feature: FeatureView {
                                    plan_path: Some(plan_path@),
                                    ..db.features[i].feature
                                },
                                updated_at: now@,
                                ..db.features[i]
                            },
                        ),
                        ..db
                    })
                }
            }),
    {
        match self.find_feature_place(id) {
            None => {},
            Some(i) => {
                assert(self@.features[i as int] == self.features@[i as int]@);
                assert(is_feature_status(self@.features[i as int].feature.status));
                let mut row = self.features[i].clone();
                row.feature.plan_path = Some(plan_path.to_owned());
                row.updated_at = now.to_owned();
                self.put_feature_at(i, row);
            },
        }
    }
}

/// The features other than the one with this id.
pub open spec fn other_feature(id: Seq<char>) -> spec_fn(FeatureRowView) -> bool {
    |f: FeatureRowView| f.feature.id != id
}

/// Some task belongs to the feature, or some journal entry does.
pub open spec fn feature_in_use(db: DbView, id: Seq<char>) -> bool {
    ||| exists|i: int| 0 <= i < db.tasks.len() && (#[trigger] db.tasks[i]).feature_id == Some(id)
    ||| exists|k: int|
        0 <= k < db.journal.len() && (#[trigger] db.journal[k]).feature_id == Some(id)
}

proof fn lemma_feature_removed(db: DbView, id: Seq<char>)
    requires
        db.wf(),
        !feature_in_use(db, id),
    ensures
        (DbView { features: db.features.filter(other_feature(id)), ..db }).wf(),
{
    let p = other_feature(id);
    let b = db.features.filter(p);
    assert forall|x: int, y: int| 0 <= x < y < b.len() implies (#[trigger] b[x]).feature.id != (
    #[trigger] b[y]).feature.id && b[x].feature.name != b[y].feature.name by {
        let (i, j) = lemma_filter_order(db.features, p, x, y);
        assert(db.features[i].feature.id != db.features[j].feature.id);
    }
    assert forall|x: int| 0 <= x < b.len() implies is_feature_status(
        (#[trigger] b[x]).feature.status,
    ) by {
        assert(b.contains(b[x]));
        lemma_filter_members(db.features, p, b[x]);
    }
    assert forall|f: Seq<char>| #[trigger]
        has_feature(db.features, f) && f != id implies has_feature(b, f) by {
        let i = choose|i: int|
            0 <= i < db.features.len() && (#[trigger] db.features[i]).feature.id == f;
        lemma_filter_members(db.features, p, db.features[i]);
        assert(db.features.contains(db.features[i]));
        let j = choose|j: int| 0 <= j < b.len() && b[j] == db.features[i];
        assert(b[j].feature.id == f);
    }
    assert forall|x: int| 0 <= x < db.tasks.len() implies task_columns(
        #[trigger] db.tasks[x],
        b,
    ) by {
        assert(task_columns(db.tasks[x], db.features));
    }
    assert forall|k: int| 0 <= k < db.journal.len() implies entry_refers(
        #[trigger] db.journal[k],
        db.tasks,
        b,
    ) by {
        assert(entry_refers(db.journal[k], db.tasks, db.features));
    }
}

impl Db {
    /// Whether a journal entry belongs to the feature.
    fn journal_has_feature(&self, id: &str) -> (r: bool)
        ensures
            r == (exists|k: int|
                0 <= k < self@.journal.len() && (#[trigger] self@.journal[k]).feature_id == Some(
                    id@,
                )),
    {
        let mut k: usize = 0;
        while k < self.journal.len()
            invariant
                k <= self.journal@.len(),
                forall|l: int| 0 <= l < k ==> (#[trigger] self@.journal[l]).feature_id != Some(id@),
            decreases self.journal@.len() - k,
        {
            assert(self@.journal[k as int] == self.journal@[k as int]@);
            if opt_same(&self.journal[k].feature_id, id) {
                return true;
            }
            k = k + 1;
        }
        false
    }

    /// Deletes a feature. One that tasks or journal entries belong to cannot
    /// be deleted.
    pub fn delete_feature(&mut self, id: &str) -> (r: Result<(), DagError>)
        requires
            old(self)@.wf(),
        ensures
            final(self)@.wf(),
            if feature_in_use(old(self)@, id@) {
                r is Err && r->Err_0@ == DagErrorView::Constraint && final(self)@ == old(self)@
            } else {
                r is Ok && final(self)@ == (DbView {
                    features: old(self)@.features.filter(other_feature(id@)),
                    ..old(self)@
                })
            },
    {
        let ghost db = self@;
        let ghost q = Select::OfFeature(id).pred(db);
        proof {
            if exists|i: int|
                0 <= i < db.tasks.len() && (#[trigger] db.tasks[i]).feature_id == Some(id@) {
                let i = choose|i: int|
                    0 <= i < db.tasks.len() && (#[trigger] db.tasks[i]).feature_id == Some(id@);
                lemma_filter_members(db.tasks, q, db.tasks[i]);
                assert(db.tasks.contains(db.tasks[i]));
            }
            if db.tasks.filter(q).len() > 0 {
                let t = db.tasks.filter(q)[0];
                assert(db.tasks.filter(q).contains(t));
                lemma_filter_members(db.tasks, q, t);
                let i = choose|i: int| 0 <= i < db.tasks.len() && db.tasks[i] == t;
                assert(db.tasks[i].feature_id == Some(id@));
            }
        }
        if self.count_tasks(Select::OfFeature(id)) > 0 || self.journal_has_feature(id) {
            return Err(DagError::Constraint);
        }
        let ghost p = other_feature(id@);
        let ghost all = db.features;
        let mut kept: Vec<FeatureRow> = Vec::new();
        let mut i: usize = 0;
        assert(all.take(0).filter(p) =~= Seq::empty()) by {
            reveal(Seq::filter);
        }
        assert(row_views(kept@) =~= Seq::empty());
        while i < self.features.len()
            invariant
                i <= self.features@.len(),
                all == row_views(self.features@),
                p == other_feature(id@),
                row_views(kept@) == all.take(i as int).filter(p),
            decreases self.features@.len() - i,
        {
            assert(all[i as int] == self.features@[i as int]@);
            proof {
                lemma_filter_step(all, p, i as int);
            }
            if !same(self.features[i].feature.id.as_str(), id) {
                let ghost before = kept@;
                kept.push(self.features[i].clone());
                assert(row_views(kept@) =~= row_views(before).push(all[i as int]));
            }
            i = i + 1;
        }
        assert(all.take(all.len() as int) =~= all);
        proof {
            lemma_feature_removed(db, id@);
        }
        self.features = kept;
        Ok(())
    }
}

} // verus!
