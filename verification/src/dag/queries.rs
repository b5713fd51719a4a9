//! Reading the task database: selections in their order, and counts.

use vstd::prelude::*;

use crate::dag::model::{
    has_task, lemma_pos_of, log_views, pos, task_views, Db, DbView, LogEntry, LogView, Task,
    TaskView,
};
use crate::dag::transitions::blockers_done;
use crate::order::{
    key_views, lemma_picked_order, order_of, pick, places, stable_order, text_le, SortKey,
};
use crate::seqs::{lemma_filter_members, lemma_filter_step};
use crate::text::basic::{opt_same, same};

verus! {

/// Task counts summary.
#[derive(Debug, Clone, Copy)]
pub struct TaskCounts {
    pub total: usize,
    pub ready: usize,
    pub done: usize,
    pub blocked: usize,
}

/// A task of the database has children.
pub open spec fn has_children(tasks: Seq<TaskView>, id: Seq<char>) -> bool {
    exists|i: int| 0 <= i < tasks.len() && (#[trigger] tasks[i]).parent_id == Some(id)
}

/// The parent named by `parent` is failed.
pub open spec fn parent_failed(tasks: Seq<TaskView>, parent: Option<Seq<char>>) -> bool {
    exists|i: int|
        0 <= i < tasks.len() && parent == Some((#[trigger] tasks[i]).id) && tasks[i].status
            == "failed"@
}

/// The task is ready to execute: it is pending, a leaf, its parent has not
/// failed, and all its blockers are done.
pub open spec fn is_ready(db: DbView, t: TaskView) -> bool {
    &&& t.status == "pending"@
    &&& !has_children(db.tasks, t.id)
    &&& !parent_failed(db.tasks, t.parent_id)
    &&& blockers_done(db.tasks, db.deps, t.id)
}

/// A selection of tasks.
#[derive(Clone, Copy)]
pub enum Select<'a> {
    /// All that are ready.
    Ready,
    /// Those of one feature that are ready.
    ReadyOf(&'a str),
    /// All of one feature.
    OfFeature(&'a str),
    /// Those of no feature.
    Standalone,
    /// All with this status.
    WithStatus(&'a str),
    /// Those of one feature with this status.
    OfFeatureWithStatus(&'a str, &'a str),
    /// All.
    All,
}

impl<'a> Select<'a> {
    /// Whether the selection holds `t`.
    pub open spec fn admits(self, db: DbView, t: TaskView) -> bool {
        match self {
            Select::Ready => is_ready(db, t),
            Select::ReadyOf(f) => is_ready(db, t) && t.feature_id == Some(f@),
            Select::OfFeature(f) => t.feature_id == Some(f@),
            Select::Standalone => t.task_type == "standalone"@,
            Select::WithStatus(s) => t.status == s@,
            Select::OfFeatureWithStatus(f, s) => t.feature_id == Some(f@) && t.status == s@,
            Select::All => true,
        }
    }

    /// The selection as a predicate.
    pub open spec fn pred(self, db: DbView) -> spec_fn(TaskView) -> bool {
        |t: TaskView| self.admits(db, t)
    }
}

/// What tasks are listed by: priority, then time of creation.
pub open spec fn task_key(t: TaskView) -> (int, Seq<char>) {
    (t.priority as int, t.created_at)
}

/// The keys of a list of tasks.
pub open spec fn task_keys(s: Seq<TaskView>) -> Seq<(int, Seq<char>)> {
    s.map_values(|t: TaskView| task_key(t))
}

/// The tasks by priority, then by time of creation, then as they came.
pub open spec fn listed(s: Seq<TaskView>) -> Seq<TaskView> {
    pick(s, stable_order(task_keys(s)))
}

/// The tasks of the selection, in listing order.
pub open spec fn selected(db: DbView, sel: Select) -> Seq<TaskView> {
    listed(db.tasks.filter(sel.pred(db)))
}

/// The dependencies by which `id` is blocked.
pub open spec fn blocking(id: Seq<char>) -> spec_fn((Seq<char>, Seq<char>)) -> bool {
    |d: (Seq<char>, Seq<char>)| d.1 == id
}

/// The dependencies by which `id` blocks.
pub open spec fn blocked_from(id: Seq<char>) -> spec_fn((Seq<char>, Seq<char>)) -> bool {
    |d: (Seq<char>, Seq<char>)| d.0 == id
}

/// The tasks that block `id`, in the order in which the dependencies came.
pub open spec fn blockers_of(db: DbView, id: Seq<char>) -> Seq<TaskView> {
    db.deps.filter(blocking(id)).map_values(
        |d: (Seq<char>, Seq<char>)| db.tasks[pos(db.tasks, d.0)],
    )
}

/// The tasks that `id` blocks, in the order in which the dependencies came.
pub open spec fn blocked_of(db: DbView, id: Seq<char>) -> Seq<TaskView> {
    db.deps.filter(blocked_from(id)).map_values(
        |d: (Seq<char>, Seq<char>)| db.tasks[pos(db.tasks, d.1)],
    )
}

/// The log entries of the task `id`.
pub open spec fn of_task(id: Seq<char>) -> spec_fn(LogView) -> bool {
    |l: LogView| l.task_id == id
}

/// The log entries of the task `id`, oldest first.
pub open spec fn logs_of(db: DbView, id: Seq<char>) -> Seq<LogView> {
    let s = db.logs.filter(of_task(id));
    pick(s, stable_order(s.map_values(|l: LogView| (0int, l.timestamp))))
}

/// A task that is done, in progress, blocked or failed is not ready.
pub proof fn law_ready_is_pending(db: DbView, t: TaskView)
    requires
        is_ready(db, t),
    ensures
        t.status == "pending"@,
        forall|i: int, k: int|
            #![trigger db.tasks[i], db.deps[k]]
            0 <= i < db.tasks.len() && 0 <= k < db.deps.len() && db.deps[k] == (
                db.tasks[i].id,
                t.id,
            ) ==> db.tasks[i].status == "done"@,
{
}

/// What is listed is what was selected: every task of the selection, each as
/// often as it is in the database.
pub proof fn law_selected_members(db: DbView, sel: Select, t: TaskView)
    ensures
        selected(db, sel).contains(t) <==> db.tasks.contains(t) && sel.admits(db, t),
{
    let p = sel.pred(db);
    let s = db.tasks.filter(p);
    lemma_filter_members(db.tasks, p, t);
    lemma_pick_members(s, stable_order(task_keys(s)), t);
    crate::order::law_stable_order(task_keys(s));
    crate::order::lemma_arrangement_onto(stable_order(task_keys(s)), s.len() as int);
}

/// Every listing stands by priority, the lowest number first, and tasks of one
/// priority stand by their time of creation, the oldest first.
pub proof fn law_listing_order(db: DbView, sel: Select, x: int, y: int)
    requires
        0 <= x < y < selected(db, sel).len(),
    ensures
        selected(db, sel)[x].priority <= selected(db, sel)[y].priority,
        selected(db, sel)[x].priority == selected(db, sel)[y].priority ==> text_le(
            selected(db, sel)[x].created_at,
            selected(db, sel)[y].created_at,
        ),
{
    let s = db.tasks.filter(sel.pred(db));
    law_listed_order(s, x, y);
}

/// Any list of tasks is put in order by priority, then by time of creation, then
/// as they came; none is lost and none is put in twice.
pub proof fn law_listed_order(s: Seq<TaskView>, x: int, y: int)
    ensures
        listed(s).len() == s.len(),
        0 <= x < y < s.len() ==> {
            let a = listed(s)[x];
            let b = listed(s)[y];
            &&& a.priority <= b.priority
            &&& a.priority == b.priority ==> text_le(a.created_at, b.created_at)
            &&& exists|i: int, j: int|
                0 <= i < s.len() && 0 <= j < s.len() && i != j && a == #[trigger] s[i] && b
                    == #[trigger] s[j] && (a.priority == b.priority && text_le(
                    b.created_at,
                    a.created_at,
                ) ==> i < j)
        },
{
    let keys = task_keys(s);
    crate::order::law_stable_order(keys);
    if 0 <= x < y < s.len() {
        lemma_picked_order(s, keys, x, y);
        let i = stable_order(keys)[x];
        let j = stable_order(keys)[y];
        assert(keys[i] == task_key(s[i]));
        assert(keys[j] == task_key(s[j]));
        assert(listed(s)[x] == s[i] && listed(s)[y] == s[j]);
    }
}

/// In a listing no task stands twice.
pub proof fn law_listing_is_distinct(db: DbView, sel: Select, x: int, y: int)
    requires
        db.wf(),
        0 <= x < y < selected(db, sel).len(),
    ensures
        selected(db, sel)[x].id != selected(db, sel)[y].id,
{
    let p = sel.pred(db);
    let s = db.tasks.filter(p);
    law_listed_order(s, x, y);
    let a = selected(db, sel)[x];
    let b = selected(db, sel)[y];
    let (i, j) = choose|i: int, j: int|
        0 <= i < s.len() && 0 <= j < s.len() && i != j && a == #[trigger] s[i] && b
            == #[trigger] s[j];
    if i < j {
        let r = crate::seqs::lemma_filter_order(db.tasks, p, i, j);
        assert(db.tasks[r.0].id != db.tasks[r.1].id);
    } else {
        let r = crate::seqs::lemma_filter_order(db.tasks, p, j, i);
        assert(db.tasks[r.0].id != db.tasks[r.1].id);
    }
}

/// A task is listed as ready exactly where its row is pending, no row names it
/// as parent, its own parent's row is not failed, and every row that blocks it
/// is done.
pub proof fn law_ready_listing(db: DbView, t: TaskView)
    ensures
        selected(db, Select::Ready).contains(t) <==> {
            &&& db.tasks.contains(t)
            &&& t.status == "pending"@
            &&& forall|i: int|
                0 <= i < db.tasks.len() ==> (#[trigger] db.tasks[i]).parent_id != Some(t.id)
            &&& forall|i: int|
                0 <= i < db.tasks.len() && t.parent_id == Some((#[trigger] db.tasks[i]).id)
                    ==> db.tasks[i].status != "failed"@
            &&& forall|i: int, k: int|
                #![trigger db.tasks[i], db.deps[k]]
                0 <= i < db.tasks.len() && 0 <= k < db.deps.len() && db.deps[k] == (
                    db.tasks[i].id,
                    t.id,
                ) ==> db.tasks[i].status == "done"@
        },
{
    law_selected_members(db, Select::Ready, t);
}

/// What each other listing holds, by the columns of the rows. Those of a feature
/// that are ready are the ready ones whose feature column names it.
pub proof fn law_listing_columns(db: DbView, f: &str, status: &str, t: TaskView)
    ensures
        selected(db, Select::ReadyOf(f)).contains(t) <==> selected(db, Select::Ready).contains(t)
            && t.feature_id == Some(f@),
        selected(db, Select::OfFeature(f)).contains(t) <==> db.tasks.contains(t) && t.feature_id
            == Some(f@),
        selected(db, Select::Standalone).contains(t) <==> db.tasks.contains(t) && t.task_type
            == "standalone"@,
        selected(db, Select::WithStatus(status)).contains(t) <==> db.tasks.contains(t) && t.status
            == status@,
        selected(db, Select::OfFeatureWithStatus(f, status)).contains(t) <==> db.tasks.contains(t)
            && t.feature_id == Some(f@) && t.status == status@,
        selected(db, Select::All).contains(t) <==> db.tasks.contains(t),
{
    law_selected_members(db, Select::Ready, t);
    law_selected_members(db, Select::ReadyOf(f), t);
    law_selected_members(db, Select::OfFeature(f), t);
    law_selected_members(db, Select::Standalone, t);
    law_selected_members(db, Select::WithStatus(status), t);
    law_selected_members(db, Select::OfFeatureWithStatus(f, status), t);
    law_selected_members(db, Select::All, t);
}

/// The log of a task holds exactly its entries, and a later place never has an
/// earlier timestamp.
pub proof fn law_task_log(db: DbView, id: Seq<char>, l: LogView, x: int, y: int)
    ensures
        logs_of(db, id).contains(l) <==> db.logs.contains(l) && l.task_id == id,
        0 <= x < y < logs_of(db, id).len() ==> text_le(
            logs_of(db, id)[x].timestamp,
            logs_of(db, id)[y].timestamp,
        ),
{
    let s = db.logs.filter(of_task(id));
    let keys = s.map_values(|l: LogView| (0int, l.timestamp));
    lemma_filter_members(db.logs, of_task(id), l);
    lemma_pick_members(s, stable_order(keys), l);
    crate::order::law_stable_order(keys);
    crate::order::lemma_arrangement_onto(stable_order(keys), s.len() as int);
    if 0 <= x < y < s.len() {
        lemma_picked_order(s, keys, x, y);
    }
}

/// The blockers of a task are the tasks that a dependency names as blocking it,
/// and the blocked ones are those that a dependency names as blocked by it.
pub proof fn law_blockers_and_blocked(db: DbView, id: Seq<char>, t: TaskView)
    requires
        db.wf(),
    ensures
        blockers_of(db, id).contains(t) <==> db.tasks.contains(t) && db.deps.contains((t.id, id)),
        blocked_of(db, id).contains(t) <==> db.tasks.contains(t) && db.deps.contains((id, t.id)),
        blockers_of(db, id).contains(t) && db.tasks.contains(t) ==> forall|u: TaskView|
            db.tasks.contains(u) && u.id == id ==> #[trigger] blocked_of(db, t.id).contains(u),
{
    lemma_linked(db, id, t);
    if blockers_of(db, id).contains(t) && db.tasks.contains(t) {
        assert forall|u: TaskView| db.tasks.contains(u) && u.id == id implies #[trigger] blocked_of(
            db,
            t.id,
        ).contains(u) by {
            lemma_linked(db, t.id, u);
        }
    }
}

proof fn lemma_linked(db: DbView, id: Seq<char>, t: TaskView)
    requires
        db.wf(),
    ensures
        blockers_of(db, id).contains(t) <==> db.tasks.contains(t) && db.deps.contains((t.id, id)),
        blocked_of(db, id).contains(t) <==> db.tasks.contains(t) && db.deps.contains((id, t.id)),
{
    let to = db.deps.filter(blocking(id));
    let from = db.deps.filter(blocked_from(id));
    if blockers_of(db, id).contains(t) {
        let k = choose|k: int| 0 <= k < to.len() && blockers_of(db, id)[k] == t;
        let d = to[k];
        assert(to.contains(d));
        lemma_filter_members(db.deps, blocking(id), d);
        let m = choose|m: int| 0 <= m < db.deps.len() && db.deps[m] == d;
        assert(has_task(db.tasks, db.deps[m].0));
        lemma_pos_of_id(db, d.0);
    }
    if blocked_of(db, id).contains(t) {
        let k = choose|k: int| 0 <= k < from.len() && blocked_of(db, id)[k] == t;
        let d = from[k];
        assert(from.contains(d));
        lemma_filter_members(db.deps, blocked_from(id), d);
        let m = choose|m: int| 0 <= m < db.deps.len() && db.deps[m] == d;
        assert(has_task(db.tasks, db.deps[m].1));
        lemma_pos_of_id(db, d.1);
    }
    if db.tasks.contains(t) {
        let i = choose|i: int| 0 <= i < db.tasks.len() && db.tasks[i] == t;
        lemma_pos_of(db.tasks, t.id);
        assert(pos(db.tasks, t.id) == i);
        if db.deps.contains((t.id, id)) {
            lemma_filter_members(db.deps, blocking(id), (t.id, id));
            let k = choose|k: int| 0 <= k < to.len() && to[k] == (t.id, id);
            assert(blockers_of(db, id)[k] == t);
        }
        if db.deps.contains((id, t.id)) {
            lemma_filter_members(db.deps, blocked_from(id), (id, t.id));
            let k = choose|k: int| 0 <= k < from.len() && from[k] == (id, t.id);
            assert(blocked_of(db, id)[k] == t);
        }
    }
}

proof fn lemma_pos_of_id(db: DbView, id: Seq<char>)
    requires
        db.wf(),
        has_task(db.tasks, id),
    ensures
        0 <= pos(db.tasks, id) < db.tasks.len(),
        db.tasks[pos(db.tasks, id)].id == id,
        db.tasks.contains(db.tasks[pos(db.tasks, id)]),
{
    lemma_pos_of(db.tasks, id);
}

/// Picking every place once keeps the members.
proof fn lemma_pick_members<A>(s: Seq<A>, o: Seq<int>, x: A)
    ensures
        (forall|i: int| 0 <= i < o.len() ==> 0 <= #[trigger] o[i] < s.len()) && (forall|i: int|
            0 <= i < s.len() ==> #[trigger] o.contains(i)) ==> (pick(s, o).contains(x)
            <==> s.contains(x)),
{
    if (forall|i: int| 0 <= i < o.len() ==> 0 <= #[trigger] o[i] < s.len()) && (forall|i: int|
        0 <= i < s.len() ==> #[trigger] o.contains(i)) {
        if pick(s, o).contains(x) {
            let k = choose|k: int| 0 <= k < o.len() && pick(s, o)[k] == x;
            assert(s[o[k]] == x);
        }
        if s.contains(x) {
            let i = choose|i: int| 0 <= i < s.len() && s[i] == x;
            assert(o.contains(i));
            let k = choose|k: int| 0 <= k < o.len() && o[k] == i;
            assert(pick(s, o)[k] == x);
        }
    }
}

/// The tasks at the given places.
pub fn pick_tasks(v: &Vec<Task>, o: &Vec<usize>) -> (r: Vec<Task>)
    requires
        forall|i: int| 0 <= i < o@.len() ==> (#[trigger] o@[i]) < v@.len(),
    ensures
        task_views(r@) == pick(task_views(v@), places(o@)),
{
    let mut r: Vec<Task> = Vec::new();
    let mut i: usize = 0;
    while i < o.len()
        invariant
            i <= o@.len(),
            forall|i: int| 0 <= i < o@.len() ==> (#[trigger] o@[i]) < v@.len(),
            task_views(r@) == pick(task_views(v@), places(o@)).take(i as int),
        decreases o@.len() - i,
    {
        let ghost before = r@;
        let t = v[o[i]].clone();
        r.push(t);
        assert(places(o@)[i as int] == o@[i as int] as int);
        assert(task_views(r@) =~= task_views(before).push(v@[o@[i as int] as int]@));
        assert(pick(task_views(v@), places(o@)).take(i + 1) =~= pick(
            task_views(v@),
            places(o@),
        ).take(i as int).push(task_views(v@)[o@[i as int] as int]));
        i = i + 1;
    }
    assert(pick(task_views(v@), places(o@)).take(o@.len() as int) =~= pick(
        task_views(v@),
        places(o@),
    ));
    r
}

/// The tasks by priority, then by time of creation, then as they came.
pub fn list_tasks(v: &Vec<Task>) -> (r: Vec<Task>)
    ensures
        task_views(r@) == listed(task_views(v@)),
{
    let mut keys: Vec<SortKey> = Vec::new();
    let ghost all = task_keys(task_views(v@));
    let mut i: usize = 0;
    while i < v.len()
        invariant
            i <= v@.len(),
            all == task_keys(task_views(v@)),
            key_views(keys@) == all.take(i as int),
        decreases v@.len() - i,
    {
        let ghost before = keys@;
        let k = SortKey { rank: v[i].priority as i64, text: v[i].created_at.clone() };
        keys.push(k);
        assert(key_views(keys@) =~= key_views(before).push(k@));
        assert(task_views(v@)[i as int] == v@[i as int]@);
        assert(all.take(i + 1) =~= all.take(i as int).push(task_key(v@[i as int]@)));
        i = i + 1;
    }
    assert(all.take(all.len() as int) =~= all);
    assert(key_views(keys@).len() == keys@.len());
    let o = order_of(&keys);
    pick_tasks(v, &o)
}

impl Db {
    /// Whether the task has children.
    pub fn task_has_children(&self, id: &str) -> (r: bool)
        ensures
            r == has_children(self@.tasks, id@),
    {
        let mut i: usize = 0;
        while i < self.tasks.len()
            invariant
                i <= self.tasks@.len(),
                forall|j: int| 0 <= j < i ==> (#[trigger] self@.tasks[j]).parent_id != Some(id@),
            decreases self.tasks@.len() - i,
        {
            assert(self@.tasks[i as int] == self.tasks@[i as int]@);
            if opt_same(&self.tasks[i].parent_id, id) {
                return true;
            }
            i = i + 1;
        }
        false
    }

    /// Whether the parent named by `parent` is failed.
    pub fn parent_is_failed(&self, parent: &Option<String>) -> (r: bool)
        ensures
            r == parent_failed(self@.tasks, crate::text::basic::opt_text(*parent)),
    {
        let mut i: usize = 0;
        while i < self.tasks.len()
            invariant
                i <= self.tasks@.len(),
                forall|j: int|
                    0 <= j < i ==> !(crate::text::basic::opt_text(*parent) == Some(
                        (#[trigger] self@.tasks[j]).id,
                    ) && self@.tasks[j].status == "failed"@),
            decreases self.tasks@.len() - i,
        {
            assert(self@.tasks[i as int] == self.tasks@[i as int]@);
            if opt_same(parent, self.tasks[i].id.as_str()) && same(
                self.tasks[i].status.as_str(),
                "failed",
            ) {
                return true;
            }
            i = i + 1;
        }
        false
    }

    /// Whether the task is ready to execute.
    pub fn task_is_ready(&self, t: &Task) -> (r: bool)
        ensures
            r == is_ready(self@, t@),
    {
        same(t.status.as_str(), "pending") && !self.task_has_children(t.id.as_str())
            && !self.parent_is_failed(&t.parent_id) && self.blockers_are_done(t.id.as_str())
    }

    /// Whether the selection holds the task.
    pub fn task_is_selected(&self, sel: Select, t: &Task) -> (r: bool)
        ensures
            r == sel.admits(self@, t@),
    {
        match sel {
            Select::Ready => self.task_is_ready(t),
            Select::ReadyOf(f) => self.task_is_ready(t) && opt_same(&t.feature_id, f),
            Select::OfFeature(f) => opt_same(&t.feature_id, f),
            Select::Standalone => same(t.task_type.as_str(), "standalone"),
            Select::WithStatus(s) => same(t.status.as_str(), s),
            Select::OfFeatureWithStatus(f, s) => opt_same(&t.feature_id, f) && same(
                t.status.as_str(),
                s,
            ),
            Select::All => true,
        }
    }

    /// The tasks of the selection as they came.
    pub fn matching_tasks(&self, sel: Select) -> (r: Vec<Task>)
        ensures
            task_views(r@) == self@.tasks.filter(sel.pred(self@)),
    {
        let ghost tasks = self@.tasks;
        let ghost p = sel.pred(self@);
        let mut r: Vec<Task> = Vec::new();
        let mut i: usize = 0;
        assert(task_views(r@) =~= tasks.take(0).filter(p)) by {
            reveal(Seq::filter);
        }
        while i < self.tasks.len()
            invariant
                i <= self.tasks@.len(),
                tasks == self@.tasks,
                p == sel.pred(self@),
                task_views(r@) == tasks.take(i as int).filter(p),
            decreases self.tasks@.len() - i,
        {
            proof {
                lemma_filter_step(tasks, p, i as int);
            }
            assert(tasks[i as int] == self.tasks@[i as int]@);
            if self.task_is_selected(sel, &self.tasks[i]) {
                let ghost before = r@;
                let t = self.tasks[i].clone();
                r.push(t);
                assert(task_views(r@) =~= task_views(before).push(tasks[i as int]));
            }
            i = i + 1;
        }
        assert(tasks.take(tasks.len() as int) =~= tasks);
        r
    }

    /// The tasks of the selection by priority, then by time of creation.
    pub fn select_tasks(&self, sel: Select) -> (r: Vec<Task>)
        ensures
            task_views(r@) == selected(self@, sel),
    {
        list_tasks(&self.matching_tasks(sel))
    }

    /// How many tasks the selection holds.
    pub fn count_tasks(&self, sel: Select) -> (r: usize)
        ensures
            r == self@.tasks.filter(sel.pred(self@)).len(),
    {
        let v = self.matching_tasks(sel);
        assert(task_views(v@).len() == v@.len());
        v.len()
    }

    /// All tasks that are ready to execute, by priority, then by time of
    /// creation.
    pub fn get_ready_tasks(&self) -> (r: Vec<Task>)
        ensures
            task_views(r@) == selected(self@, Select::Ready),
    {
        self.select_tasks(Select::Ready)
    }

    /// All tasks of one feature that are ready to execute.
    pub fn get_ready_tasks_for_feature(&self, feature_id: &str) -> (r: Vec<Task>)
        ensures
            task_views(r@) == selected(self@, Select::ReadyOf(feature_id)),
    {
        self.select_tasks(Select::ReadyOf(feature_id))
    }

    /// Standalone tasks (not associated with any feature).
    pub fn get_standalone_tasks(&self) -> (r: Vec<Task>)
        ensures
            task_views(r@) == selected(self@, Select::Standalone),
    {
        self.select_tasks(Select::Standalone)
    }

    /// All tasks of a feature.
    pub fn get_all_tasks_for_feature(&self, feature_id: &str) -> (r: Vec<Task>)
        ensures
            task_views(r@) == selected(self@, Select::OfFeature(feature_id)),
    {
        self.select_tasks(Select::OfFeature(feature_id))
    }

    /// All tasks in the database.
    pub fn get_all_tasks(&self) -> (r: Vec<Task>)
        ensures
            task_views(r@) == selected(self@, Select::All),
    {
        self.select_tasks(Select::All)
    }

    /// Task counts (total, ready, done, blocked).
    pub fn get_task_counts(&self) -> (r: TaskCounts)
        ensures
            r.total == self@.tasks.len(),
            r.ready == self@.tasks.filter(Select::Ready.pred(self@)).len(),
            r.done == self@.tasks.filter(Select::WithStatus("done").pred(self@)).len(),
            r.blocked == self@.tasks.filter(Select::WithStatus("blocked").pred(self@)).len(),
    {
        assert(self@.tasks.len() == self.tasks@.len());
        TaskCounts {
            total: self.tasks.len(),
            ready: self.count_tasks(Select::Ready),
            done: self.count_tasks(Select::WithStatus("done")),
            blocked: self.count_tasks(Select::WithStatus("blocked")),
        }
    }

    /// Task counts for a specific feature.
    pub fn get_feature_task_counts(&self, feature_id: &str) -> (r: TaskCounts)
        ensures
            r.total == self@.tasks.filter(Select::OfFeature(feature_id).pred(self@)).len(),
            r.ready == self@.tasks.filter(Select::ReadyOf(feature_id).pred(self@)).len(),
            r.done == self@.tasks.filter(
                Select::OfFeatureWithStatus(feature_id, "done").pred(self@),
            ).len(),
            r.blocked == self@.tasks.filter(
                Select::OfFeatureWithStatus(feature_id, "blocked").pred(self@),
            ).len(),
    {
        TaskCounts {
            total: self.count_tasks(Select::OfFeature(feature_id)),
            ready: self.count_tasks(Select::ReadyOf(feature_id)),
            done: self.count_tasks(Select::OfFeatureWithStatus(feature_id, "done")),
            blocked: self.count_tasks(Select::OfFeatureWithStatus(feature_id, "blocked")),
        }
    }

    /// Whether all tasks are resolved (done or failed).
    pub fn all_resolved(&self) -> (r: bool)
        ensures
            r == (forall|i: int|
                0 <= i < self@.tasks.len() ==> (#[trigger] self@.tasks[i]).status == "done"@
                    || self@.tasks[i].status == "failed"@),
    {
        let mut i: usize = 0;
        while i < self.tasks.len()
            invariant
                i <= self.tasks@.len(),
                forall|j: int|
                    0 <= j < i ==> (#[trigger] self@.tasks[j]).status == "done"@
                        || self@.tasks[j].status == "failed"@,
            decreases self.tasks@.len() - i,
        {
            assert(self@.tasks[i as int] == self.tasks@[i as int]@);
            if !same(self.tasks[i].status.as_str(), "done") && !same(
                self.tasks[i].status.as_str(),
                "failed",
            ) {
                return false;
            }
            i = i + 1;
        }
        true
    }

    /// Tasks that block a given task (its prerequisites).
    pub fn get_task_blockers(&self, task_id: &str) -> (r: Vec<Task>)
        requires
            self@.wf(),
        ensures
            task_views(r@) == blockers_of(self@, task_id@),
    {
        let ghost db = self@;
        let ghost p = blocking(task_id@);
        let mut r: Vec<Task> = Vec::new();
        let mut k: usize = 0;
        let ghost f = |d: (Seq<char>, Seq<char>)| db.tasks[pos(db.tasks, d.0)];
        assert(task_views(r@) =~= db.deps.take(0).filter(p).map_values(f)) by {
            reveal(Seq::filter);
        }
        while k < self.deps.len()
            invariant
                k <= self.deps@.len(),
                db == self@,
                db.wf(),
                p == blocking(task_id@),
                f == (|d: (Seq<char>, Seq<char>)| db.tasks[pos(db.tasks, d.0)]),
                task_views(r@) == db.deps.take(k as int).filter(p).map_values(f),
            decreases self.deps@.len() - k,
        {
            proof {
                lemma_filter_step(db.deps, p, k as int);
            }
            assert(db.deps[k as int] == self.deps@[k as int]@);
            if same(self.deps[k].blocked.as_str(), task_id) {
                assert(has_task(db.tasks, db.deps[k as int].0));
                match self.find_task(self.deps[k].blocker.as_str()) {
                    Some(i) => {
                        let ghost before = r@;
                        let t = self.tasks[i].clone();
                        r.push(t);
                        assert(db.tasks[i as int] == self.tasks@[i as int]@);
                        assert(task_views(r@) =~= task_views(before).push(db.tasks[i as int]));
                        assert(db.deps.take(k + 1).filter(p).map_values(f) =~= db.deps.take(
                            k as int,
                        ).filter(p).map_values(f).push(f(db.deps[k as int])));
                    },
                    None => {},
                }
            }
            k = k + 1;
        }
        assert(db.deps.take(db.deps.len() as int) =~= db.deps);
        r
    }

    /// Tasks that are blocked by a given task (its dependents).
    pub fn get_tasks_blocked_by(&self, task_id: &str) -> (r: Vec<Task>)
        requires
            self@.wf(),
        ensures
            task_views(r@) == blocked_of(self@, task_id@),
    {
        let ghost db = self@;
        let ghost p = blocked_from(task_id@);
        let mut r: Vec<Task> = Vec::new();
        let mut k: usize = 0;
        let ghost f = |d: (Seq<char>, Seq<char>)| db.tasks[pos(db.tasks, d.1)];
        assert(task_views(r@) =~= db.deps.take(0).filter(p).map_values(f)) by {
            reveal(Seq::filter);
        }
        while k < self.deps.len()
            invariant
                k <= self.deps@.len(),
                db == self@,
                db.wf(),
                p == blocked_from(task_id@),
                f == (|d: (Seq<char>, Seq<char>)| db.tasks[pos(db.tasks, d.1)]),
                task_views(r@) == db.deps.take(k as int).filter(p).map_values(f),
            decreases self.deps@.len() - k,
        {
            proof {
                lemma_filter_step(db.deps, p, k as int);
            }
            assert(db.deps[k as int] == self.deps@[k as int]@);
            if same(self.deps[k].blocker.as_str(), task_id) {
                assert(has_task(db.tasks, db.deps[k as int].1));
                match self.find_task(self.deps[k].blocked.as_str()) {
                    Some(i) => {
                        let ghost before = r@;
                        let t = self.tasks[i].clone();
                        r.push(t);
                        assert(db.tasks[i as int] == self.tasks@[i as int]@);
                        assert(task_views(r@) =~= task_views(before).push(db.tasks[i as int]));
                        assert(db.deps.take(k + 1).filter(p).map_values(f) =~= db.deps.take(
                            k as int,
                        ).filter(p).map_values(f).push(f(db.deps[k as int])));
                    },
                    None => {},
                }
            }
            k = k + 1;
        }
        assert(db.deps.take(db.deps.len() as int) =~= db.deps);
        r
    }

    /// All log entries for a task, oldest first.
    pub fn get_task_logs(&self, task_id: &str) -> (r: Vec<LogEntry>)
        ensures
            log_views(r@) == logs_of(self@, task_id@),
    {
        let ghost all = self@.logs;
        let ghost p = of_task(task_id@);
        let ghost stamp = |l: LogView| (0int, l.timestamp);
        let mut found: Vec<LogEntry> = Vec::new();
        let mut keys: Vec<SortKey> = Vec::new();
        let mut i: usize = 0;
        assert(log_views(found@) =~= all.take(0).filter(p)) by {
            reveal(Seq::filter);
        }
        assert(key_views(keys@) =~= log_views(found@).map_values(stamp));
        while i < self.logs.len()
            invariant
                i <= self.logs@.len(),
                all == self@.logs,
                p == of_task(task_id@),
                stamp == (|l: LogView| (0int, l.timestamp)),
                log_views(found@) == all.take(i as int).filter(p),
                key_views(keys@) == log_views(found@).map_values(stamp),
            decreases self.logs@.len() - i,
        {
            proof {
                lemma_filter_step(all, p, i as int);
            }
            assert(all[i as int] == self.logs@[i as int]@);
            if same(self.logs[i].task_id.as_str(), task_id) {
                let ghost before = found@;
                let ghost kbefore = keys@;
                let l = self.logs[i].clone();
                let k = SortKey { rank: 0, text: self.logs[i].timestamp.clone() };
                found.push(l);
                keys.push(k);
                assert(log_views(found@) =~= log_views(before).push(all[i as int]));
                assert(key_views(keys@) =~= key_views(kbefore).push(k@));
                assert(log_views(found@).map_values(stamp) =~= log_views(before).map_values(
                    stamp,
                ).push(stamp(all[i as int])));
            }
            i = i + 1;
        }
        assert(all.take(all.len() as int) =~= all);
        assert(key_views(keys@).len() == keys@.len());
        assert(log_views(found@).len() == found@.len());
        let o = order_of(&keys);
        let ghost goal = logs_of(self@, task_id@);
        let mut r: Vec<LogEntry> = Vec::new();
        let mut n: usize = 0;
        while n < o.len()
            invariant
                n <= o@.len(),
                forall|i: int| 0 <= i < o@.len() ==> (#[trigger] o@[i]) < found@.len(),
                goal == pick(log_views(found@), places(o@)),
                log_views(r@) == goal.take(n as int),
            decreases o@.len() - n,
        {
            let ghost before = r@;
            let l = found[o[n]].clone();
            r.push(l);
            assert(places(o@)[n as int] == o@[n as int] as int);
            assert(log_views(r@) =~= log_views(before).push(l@));
            assert(goal.take(n + 1) =~= goal.take(n as int).push(goal[n as int]));
            n = n + 1;
        }
        assert(goal.take(goal.len() as int) =~= goal);
        r
    }
}

} // verus!
