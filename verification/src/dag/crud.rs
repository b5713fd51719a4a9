//! CRUD operations for task management.

use vstd::prelude::*;

use crate::dag::claims::with_log;
use crate::dag::model::{
    dep_views, entry_refers, has_feature, has_task, is_parent_at, is_task_type, lemma_pos,
    lemma_pos_of, log_views, pos, task_columns, task_views, DagError, DagErrorView, Db, DbView,
    Dependency, JournalView, LogEntry, LogView, Task, TaskView,
};
use crate::dag::tasks::is_child;

use crate::seqs::{lemma_filter_members, lemma_filter_order, lemma_filter_step};
use crate::text::basic::{opt_same, opt_str, same, texts};

verus! {

/// Fields that can be updated on a task.
#[derive(Debug)]
pub struct TaskUpdate {
    pub title: Option<String>,
    pub description: Option<String>,
    pub priority: Option<i32>,
}

impl Default for TaskUpdate {
    fn default() -> (r: Self)
        ensures
            r.title is None,
            r.description is None,
            r.priority is None,
    {
        TaskUpdate { title: None, description: None, priority: None }
    }
}

/// Inputs for creating a task with optional feature association.
#[derive(Debug, Clone, Copy)]
pub struct CreateTaskParams<'a> {
    pub title: &'a str,
    pub description: Option<&'a str>,
    pub parent_id: Option<&'a str>,
    pub priority: i32,
    pub feature_id: Option<&'a str>,
    pub task_type: &'a str,
    pub max_retries: i32,
}

/// The row that a new task gets.
pub open spec fn new_row(p: CreateTaskParams, id: Seq<char>, now: Seq<char>) -> TaskView {
    TaskView {
        id,
        title: p.title@,
        description: match p.description {
            Some(d) => d@,
            None => Seq::empty(),
        },
        status: "pending"@,
        parent_id: opt_str(p.parent_id),
        feature_id: opt_str(p.feature_id),
        task_type: p.task_type@,
        priority: p.priority,
        retry_count: 0,
        max_retries: p.max_retries,
        verification_status: None,
        created_at: now,
        updated_at: now,
        claimed_by: None,
    }
}

/// The first of the ids that no task has.
pub open spec fn first_free(tasks: Seq<TaskView>, ids: Seq<Seq<char>>, from: int) -> Option<int>
    decreases ids.len() - from,
{
    if from < 0 || from >= ids.len() {
        None
    } else if !has_task(tasks, ids[from]) {
        Some(from)
    } else {
        first_free(tasks, ids, from + 1)
    }
}

/// The task with the fields of the update in place of its own.
pub open spec fn updated(t: TaskView, u: TaskUpdate, now: Seq<char>) -> TaskView {
    if u.title is None && u.description is None && u.priority is None {
        t
    } else {
        TaskView {
            title: match u.title {
                Some(x) => x@,
                None => t.title,
            },
            description: match u.description {
                Some(x) => x@,
                None => t.description,
            },
            priority: match u.priority {
                Some(x) => x,
                None => t.priority,
            },
            updated_at: now,
            ..t
        }
    }
}

/// The elements of `s` whose places are not in `gone`.
pub open spec fn without_places<A>(s: Seq<A>, gone: Set<int>) -> Seq<A>
    decreases s.len(),
{
    if s.len() == 0 {
        s
    } else if gone.contains(s.len() - 1) {
        without_places(s.drop_last(), gone)
    } else {
        without_places(s.drop_last(), gone).push(s.last())
    }
}

/// The dependencies whose blocked task is not gone.
pub open spec fn dep_stays(tasks: Seq<TaskView>, gone: Set<int>) -> spec_fn(
    (Seq<char>, Seq<char>),
) -> bool {
    |d: (Seq<char>, Seq<char>)| !gone.contains(pos(tasks, d.1))
}

/// The log entries whose task is not gone.
pub open spec fn log_stays(tasks: Seq<TaskView>, gone: Set<int>) -> spec_fn(LogView) -> bool {
    |l: LogView| !gone.contains(pos(tasks, l.task_id))
}

/// The database without the tasks at the places `gone`, and without what blocks
/// those at the places `bare` and what was logged for them.
pub open spec fn without_tasks(db: DbView, gone: Set<int>, bare: Set<int>) -> DbView {
    DbView {
        tasks: without_places(db.tasks, gone),
        deps: db.deps.filter(dep_stays(db.tasks, bare)),
        logs: db.logs.filter(log_stays(db.tasks, bare)),
        ..db
    }
}

/// A journal entry names the task.
pub open spec fn in_journal(journal: Seq<JournalView>, id: Seq<char>) -> bool {
    exists|k: int| 0 <= k < journal.len() && (#[trigger] journal[k]).task_id == Some(id)
}

/// What stands in the way of a deletion, with the task's place.
#[derive(Debug)]
pub enum Obstacle<P> {
    /// The task still blocks another.
    Blocks(P),
    /// A journal entry names the task.
    Recorded(P),
}

/// What a deletion leaves: the database without what is gone. A task that is
/// kept by the journal has lost what blocked it and what was logged for it.
pub open spec fn after_delete(db: DbView, d: (Set<int>, Option<Obstacle<int>>)) -> DbView {
    match d.1 {
        Some(Obstacle::Recorded(i)) => without_tasks(db, d.0, d.0.insert(i)),
        _ => without_tasks(db, d.0, d.0),
    }
}

/// Why a deletion was refused, where it was.
pub open spec fn delete_refusal(tasks: Seq<TaskView>, o: Option<Obstacle<int>>) -> Option<
    DagErrorView,
> {
    match o {
        Some(Obstacle::Blocks(b)) => Some(DagErrorView::Blocks(tasks[b].id)),
        Some(Obstacle::Recorded(_)) => Some(DagErrorView::Constraint),
        None => None,
    }
}

/// The task at `i` still blocks a task that is not gone.
pub open spec fn still_blocks(
    tasks: Seq<TaskView>,
    deps: Seq<(Seq<char>, Seq<char>)>,
    i: int,
    gone: Set<int>,
) -> bool {
    exists|k: int|
        0 <= k < deps.len() && (#[trigger] deps[k]).0 == tasks[i].id && !gone.contains(
            pos(tasks, deps[k].1),
        )
}

/// Deleting the task at `i` with its children: the places that are gone then,
/// and what stood in the way, where something did. A task goes once all its
/// children are gone, unless it still blocks another or the journal names it.
pub open spec fn delete_from(db: DbView, i: int, gone: Set<int>) -> (
    Set<int>,
    Option<Obstacle<int>>,
)
    decreases 2 * (db.tasks.len() - i) + 1,
{
    if i < 0 || i >= db.tasks.len() {
        (gone, None)
    } else if still_blocks(db.tasks, db.deps, i, gone) {
        (gone, Some(Obstacle::Blocks(i)))
    } else {
        let r = delete_children(db, i, i + 1, gone);
        if r.1 is Some {
            r
        } else if in_journal(db.journal, db.tasks[i].id) {
            (r.0, Some(Obstacle::Recorded(i)))
        } else {
            (r.0.insert(i), None)
        }
    }
}

/// Deleting the children of the task at `i` that stand at `j` or behind it, in
/// their order, up to the first that cannot go.
pub open spec fn delete_children(db: DbView, i: int, j: int, gone: Set<int>) -> (
    Set<int>,
    Option<Obstacle<int>>,
)
    decreases 2 * (db.tasks.len() - j) + 2,
{
    if j < 0 || j >= db.tasks.len() {
        (gone, None)
    } else if is_child(db.tasks, i, j) {
        let r = delete_from(db, j, gone);
        if r.1 is Some {
            r
        } else {
            delete_children(db, i, j + 1, r.0)
        }
    } else {
        delete_children(db, i, j + 1, gone)
    }
}

/// What goes leaves nothing hanging: the children of a task that is gone are
/// gone, and so are the tasks that it blocked; the journal names none of them.
pub open spec fn nothing_hangs(db: DbView, gone: Set<int>) -> bool {
    &&& forall|i: int, j: int| #[trigger]
        is_child(db.tasks, i, j) && gone.contains(i) ==> gone.contains(j)
    &&& forall|k: int|
        0 <= k < db.deps.len() && gone.contains(pos(db.tasks, (#[trigger] db.deps[k]).0))
            ==> gone.contains(pos(db.tasks, db.deps[k].1))
    &&& forall|i: int|
        #[trigger] gone.contains(i) ==> !in_journal(db.journal, db.tasks[i].id)
}

proof fn lemma_delete_from(db: DbView, i: int, gone: Set<int>)
    requires
        db.wf(),
        nothing_hangs(db, gone),
    ensures
        nothing_hangs(db, delete_from(db, i, gone).0),
        gone.subset_of(delete_from(db, i, gone).0),
        0 <= i < db.tasks.len() && delete_from(db, i, gone).1 is None ==> delete_from(
            db,
            i,
            gone,
        ).0.contains(i),
    decreases 2 * (db.tasks.len() - i) + 1,
{
    if i < 0 || i >= db.tasks.len() {
    } else if still_blocks(db.tasks, db.deps, i, gone) {
    } else {
        lemma_delete_children(db, i, i + 1, gone);
        let r = delete_children(db, i, i + 1, gone);
        if r.1 is None && !in_journal(db.journal, db.tasks[i].id) {
            let g = r.0.insert(i);
            assert forall|a: int, b: int| #[trigger]
                is_child(db.tasks, a, b) && g.contains(a) implies g.contains(b) by {
                if a == i {
                    assert(i + 1 <= b);
                }
            }
            assert forall|k: int|
                0 <= k < db.deps.len() && g.contains(
                    pos(db.tasks, (#[trigger] db.deps[k]).0),
                ) implies g.contains(pos(db.tasks, db.deps[k].1)) by {
                if !r.0.contains(pos(db.tasks, db.deps[k].0)) {
                    lemma_pos_of(db.tasks, db.deps[k].0);
                    assert(db.deps[k].0 == db.tasks[i].id);
                    assert(gone.contains(pos(db.tasks, db.deps[k].1)));
                }
            }
        }
    }
}

proof fn lemma_delete_children(db: DbView, i: int, j: int, gone: Set<int>)
    requires
        db.wf(),
        nothing_hangs(db, gone),
        0 <= j,
    ensures
        nothing_hangs(db, delete_children(db, i, j, gone).0),
        gone.subset_of(delete_children(db, i, j, gone).0),
        delete_children(db, i, j, gone).1 is None ==> forall|b: int|
            j <= b && #[trigger] is_child(db.tasks, i, b) ==> delete_children(
                db,
                i,
                j,
                gone,
            ).0.contains(b),
    decreases 2 * (db.tasks.len() - j) + 2,
{
    if j < db.tasks.len() {
        if is_child(db.tasks, i, j) {
            lemma_delete_from(db, j, gone);
            let r = delete_from(db, j, gone);
            if r.1 is None {
                lemma_delete_children(db, i, j + 1, r.0);
            }
        } else {
            lemma_delete_children(db, i, j + 1, gone);
        }
    }
}

/// How many places before `i` stay.
pub open spec fn staying_before(gone: Set<int>, i: int) -> int
    decreases i,
{
    if i <= 0 {
        0
    } else {
        staying_before(gone, i - 1) + if gone.contains(i - 1) {
            0int
        } else {
            1
        }
    }
}

proof fn lemma_staying_before(gone: Set<int>, i: int, j: int)
    requires
        0 <= i < j,
    ensures
        0 <= staying_before(gone, i) <= staying_before(gone, j),
        !gone.contains(i) ==> staying_before(gone, i) < staying_before(gone, j),
    decreases j,
{
    if i < j - 1 {
        lemma_staying_before(gone, i, j - 1);
    } else {
        lemma_staying_nonneg(gone, i);
    }
}

proof fn lemma_staying_nonneg(gone: Set<int>, i: int)
    ensures
        0 <= staying_before(gone, i),
    decreases i,
{
    if i > 0 {
        lemma_staying_nonneg(gone, i - 1);
    }
}

/// A staying element moves down by what is gone before it.
pub proof fn lemma_without_places<A>(s: Seq<A>, gone: Set<int>)
    ensures
        without_places(s, gone).len() == staying_before(gone, s.len() as int),
        forall|i: int|
            #![trigger staying_before(gone, i)]
            0 <= i < s.len() && !gone.contains(i) ==> 0 <= staying_before(gone, i)
                < without_places(s, gone).len() && without_places(s, gone)[staying_before(gone, i)]
                == s[i],
    decreases s.len(),
{
    if s.len() > 0 {
        let d = s.drop_last();
        lemma_without_places(d, gone);
        assert forall|i: int|
            #![trigger staying_before(gone, i)]
            0 <= i < s.len() && !gone.contains(i) implies 0 <= staying_before(gone, i)
            < without_places(s, gone).len() && without_places(s, gone)[staying_before(gone, i)]
            == s[i] by {
            if i < d.len() {
                assert(d[i] == s[i]);
            } else {
                lemma_staying_nonneg(gone, i);
            }
        }
    }
}

/// Where a staying element came from.
pub proof fn lemma_without_places_from<A>(s: Seq<A>, gone: Set<int>, k: int) -> (i: int)
    requires
        0 <= k < without_places(s, gone).len(),
    ensures
        0 <= i < s.len(),
        !gone.contains(i),
        staying_before(gone, i) == k,
        s[i] == without_places(s, gone)[k],
    decreases s.len(),
{
    let d = s.drop_last();
    lemma_without_places(d, gone);
    if !gone.contains(s.len() - 1) && k == without_places(s, gone).len() - 1 {
        s.len() - 1
    } else {
        let i = lemma_without_places_from(d, gone, k);
        assert(d[i] == s[i]);
        i
    }
}

/// A task that stays is found after the others are gone.
pub proof fn lemma_stays(tasks: Seq<TaskView>, gone: Set<int>, id: Seq<char>)
    requires
        crate::dag::model::ids_distinct(tasks),
        has_task(tasks, id),
        !gone.contains(pos(tasks, id)),
    ensures
        has_task(without_places(tasks, gone), id),
{
    lemma_pos_of(tasks, id);
    lemma_without_places(tasks, gone);
    let i = pos(tasks, id);
    assert(tasks[i].id == id);
    assert(without_places(tasks, gone)[staying_before(gone, i)].id == id);
}

/// Where nothing hangs, taking tasks away keeps the invariant.
pub proof fn lemma_without_tasks_keeps(db: DbView, gone: Set<int>, bare: Set<int>)
    requires
        db.wf(),
        nothing_hangs(db, gone),
        gone.subset_of(bare),
    ensures
        without_tasks(db, gone, bare).wf(),
{
    let b = without_tasks(db, gone, bare);
    lemma_without_rows(db, gone);
    let p = dep_stays(db.tasks, bare);
    assert forall|k: int| 0 <= k < b.deps.len() implies has_task(b.tasks, (#[trigger] b.deps[k]).0)
        && has_task(b.tasks, b.deps[k].1) && b.deps[k].0 != b.deps[k].1 by {
        assert(b.deps.contains(b.deps[k]));
        lemma_filter_members(db.deps, p, b.deps[k]);
        let l = choose|l: int| 0 <= l < db.deps.len() && db.deps[l] == b.deps[k];
        assert(has_task(db.tasks, db.deps[l].0) && has_task(db.tasks, db.deps[l].1));
        assert(!gone.contains(pos(db.tasks, db.deps[l].1)));
        assert(!gone.contains(pos(db.tasks, db.deps[l].0)));
        lemma_stays(db.tasks, gone, db.deps[l].0);
        lemma_stays(db.tasks, gone, db.deps[l].1);
    }
    assert forall|k: int, l: int| 0 <= k < l < b.deps.len() implies #[trigger] b.deps[k]
        != #[trigger] b.deps[l] by {
        let r = lemma_filter_order(db.deps, p, k, l);
        assert(db.deps[r.0] != db.deps[r.1]);
    }
    let q = log_stays(db.tasks, bare);
    assert forall|k: int| 0 <= k < b.logs.len() implies has_task(
        b.tasks,
        (#[trigger] b.logs[k]).task_id,
    ) by {
        assert(b.logs.contains(b.logs[k]));
        lemma_filter_members(db.logs, q, b.logs[k]);
        let l = choose|l: int| 0 <= l < db.logs.len() && db.logs[l] == b.logs[k];
        assert(has_task(db.tasks, db.logs[l].task_id));
        lemma_stays(db.tasks, gone, db.logs[l].task_id);
    }
    assert forall|k: int| 0 <= k < b.journal.len() implies entry_refers(
        #[trigger] b.journal[k],
        b.tasks,
        b.features,
    ) by {
        let e = db.journal[k];
        assert(entry_refers(e, db.tasks, db.features));
        if e.task_id is Some {
            lemma_pos_of(db.tasks, e.task_id->0);
            assert(in_journal(db.journal, db.tasks[pos(db.tasks, e.task_id->0)].id));
            lemma_stays(db.tasks, gone, e.task_id->0);
        }
    }
}

/// Where the children of what goes go too, the rows that stay keep their shape.
pub proof fn lemma_without_rows(db: DbView, gone: Set<int>)
    requires
        db.wf(),
        forall|i: int, j: int| #[trigger]
            is_child(db.tasks, i, j) && gone.contains(i) ==> gone.contains(j),
    ensures
        crate::dag::model::ids_distinct(without_places(db.tasks, gone)),
        crate::dag::model::parents_first(without_places(db.tasks, gone)),
        forall|i: int|
            0 <= i < without_places(db.tasks, gone).len() ==> task_columns(
                #[trigger] without_places(db.tasks, gone)[i],
                db.features,
            ),
{
    let b = without_places(db.tasks, gone);
    lemma_without_places(db.tasks, gone);
    assert forall|x: int, y: int| 0 <= x < y < b.len() implies (#[trigger] b[x]).id != (
    #[trigger] b[y]).id by {
        let i = lemma_without_places_from(db.tasks, gone, x);
        let j = lemma_without_places_from(db.tasks, gone, y);
        if i < j {
            assert(db.tasks[i].id != db.tasks[j].id);
        } else if j < i {
            assert(db.tasks[j].id != db.tasks[i].id);
        }
    }
    assert forall|x: int|
        0 <= x < b.len() && (#[trigger] b[x]).parent_id is Some implies exists|y: int|
        is_parent_at(b, x, y) by {
        let i = lemma_without_places_from(db.tasks, gone, x);
        assert(db.tasks[i].parent_id is Some);
        let j = choose|j: int| is_parent_at(db.tasks, i, j);
        assert(is_child(db.tasks, j, i));
        assert(!gone.contains(j));
        lemma_staying_before(gone, j, i);
        assert(db.tasks[j] == b[staying_before(gone, j)]);
        assert(is_parent_at(b, x, staying_before(gone, j)));
    }
    assert forall|x: int| 0 <= x < b.len() implies task_columns(#[trigger] b[x], db.features) by {
        let i = lemma_without_places_from(db.tasks, gone, x);
        assert(task_columns(db.tasks[i], db.features));
    }
}

/// Deleting a task takes it away with everything below it, and leaves nothing
/// hanging.
pub proof fn law_deleted_task_is_gone(db: DbView, id: Seq<char>)
    requires
        db.wf(),
        has_task(db.tasks, id),
        delete_from(db, pos(db.tasks, id), Set::empty()).1 is None,
    ensures
        ({
            let d = delete_from(db, pos(db.tasks, id), Set::empty());
            &&& !has_task(after_delete(db, d).tasks, id)
            &&& after_delete(db, d).wf()
            &&& forall|i: int, j: int| #[trigger]
                is_child(db.tasks, i, j) && d.0.contains(i) ==> d.0.contains(j)
        }),
{
    let i = pos(db.tasks, id);
    lemma_pos_of(db.tasks, id);
    lemma_delete_from(db, i, Set::empty());
    let gone = delete_from(db, i, Set::empty()).0;
    lemma_without_tasks_keeps(db, gone, gone);
    let b = without_places(db.tasks, gone);
    if has_task(b, id) {
        let x = choose|x: int| 0 <= x < b.len() && (#[trigger] b[x]).id == id;
        let j = lemma_without_places_from(db.tasks, gone, x);
        lemma_pos(db.tasks, j);
        assert(j == i);
    }
}

/// A task that the journal names stays, whatever is deleted.
pub proof fn law_recorded_task_stays(db: DbView, id: Seq<char>, recorded: Seq<char>)
    requires
        db.wf(),
        has_task(db.tasks, id),
        has_task(db.tasks, recorded),
        in_journal(db.journal, recorded),
    ensures
        ({
            let d = delete_from(db, pos(db.tasks, id), Set::empty());
            &&& has_task(after_delete(db, d).tasks, recorded)
            &&& after_delete(db, d).wf()
        }),
{
    lemma_delete_from(db, pos(db.tasks, id), Set::empty());
    let d = delete_from(db, pos(db.tasks, id), Set::empty());
    lemma_pos_of(db.tasks, recorded);
    lemma_stays(db.tasks, d.0, recorded);
    lemma_after_delete_keeps(db, d);
}

/// What a deletion leaves keeps the invariant.
proof fn lemma_after_delete_keeps(db: DbView, d: (Set<int>, Option<Obstacle<int>>))
    requires
        db.wf(),
        nothing_hangs(db, d.0),
    ensures
        after_delete(db, d).wf(),
{
    match d.1 {
        Some(Obstacle::Recorded(i)) => lemma_without_tasks_keeps(db, d.0, d.0.insert(i)),
        _ => lemma_without_tasks_keeps(db, d.0, d.0),
    }
}

/// The places marked in a vector of flags.
pub open spec fn marked(v: Seq<bool>) -> Set<int> {
    Set::new(|i: int| 0 <= i < v.len() && v[i])
}

/// What stood in the way, by the place of its task.
pub open spec fn obstacle_at(o: Option<Obstacle<usize>>) -> Option<Obstacle<int>> {
    match o {
        Some(Obstacle::Blocks(i)) => Some(Obstacle::Blocks(i as int)),
        Some(Obstacle::Recorded(i)) => Some(Obstacle::Recorded(i as int)),
        None => None,
    }
}

/// What stood in the way is one of so many tasks.
pub open spec fn obstacle_within(o: Option<Obstacle<usize>>, n: nat) -> bool {
    match o {
        Some(Obstacle::Blocks(i)) => i < n,
        Some(Obstacle::Recorded(i)) => i < n,
        None => true,
    }
}

impl Db {
    /// Whether the task at `i` still blocks one that is not gone.
    pub fn task_still_blocks(&self, i: usize, gone: &Vec<bool>) -> (r: bool)
        requires
            self@.wf(),
            i < self@.tasks.len(),
            gone@.len() == self@.tasks.len(),
        ensures
            r == still_blocks(self@.tasks, self@.deps, i as int, marked(gone@)),
    {
        let mut k: usize = 0;
        assert(self@.tasks[i as int] == self.tasks@[i as int]@);
        while k < self.deps.len()
            invariant
                self@.wf(),
                i < self@.tasks.len(),
                self@.tasks[i as int] == self.tasks@[i as int]@,
                gone@.len() == self@.tasks.len(),
                k <= self.deps@.len(),
                forall|l: int|
                    0 <= l < k && (#[trigger] self@.deps[l]).0 == self@.tasks[i as int].id
                        ==> marked(gone@).contains(pos(self@.tasks, self@.deps[l].1)),
            decreases self.deps@.len() - k,
        {
            assert(self@.deps[k as int] == self.deps@[k as int]@);
            if same(self.deps[k].blocker.as_str(), self.tasks[i].id.as_str()) {
                assert(has_task(self@.tasks, self@.deps[k as int].1));
                match self.find_task(self.deps[k].blocked.as_str()) {
                    Some(b) => {
                        if !gone[b] {
                            assert(self@.deps[k as int].0 == self@.tasks[i as int].id);
                            return true;
                        }
                    },
                    None => {},
                }
            }
            k = k + 1;
        }
        false
    }

    /// Whether a journal entry names the task.
    pub fn journal_names(&self, id: &str) -> (r: bool)
        ensures
            r == in_journal(self@.journal, id@),
    {
        let mut k: usize = 0;
        while k < self.journal.len()
            invariant
                k <= self.journal@.len(),
                forall|l: int| 0 <= l < k ==> (#[trigger] self@.journal[l]).task_id != Some(id@),
            decreases self.journal@.len() - k,
        {
            assert(self@.journal[k as int] == self.journal@[k as int]@);
            if opt_same(&self.journal[k].task_id, id) {
                return true;
            }
            k = k + 1;
        }
        false
    }

    /// Marks what goes when the task at `i` is deleted; gives back what stood
    /// in the way, where something did.
    pub fn mark_deleted(&self, i: usize, gone: &mut Vec<bool>) -> (r: Option<Obstacle<usize>>)
        requires
            self@.wf(),
            i < self@.tasks.len(),
            old(gone)@.len() == self@.tasks.len(),
        ensures
            final(gone)@.len() == self@.tasks.len(),
            (marked(final(gone)@), obstacle_at(r)) == delete_from(
                self@,
                i as int,
                marked(old(gone)@),
            ),
            obstacle_within(r, self@.tasks.len()),
        decreases 2 * (self@.tasks.len() - i) + 1,
    {
        if self.task_still_blocks(i, gone) {
            return Some(Obstacle::Blocks(i));
        }
        let n: usize = self.tasks.len();
        assert(self@.tasks.len() == n);
        assert(self@.tasks[i as int] == self.tasks@[i as int]@);
        match self.mark_children_deleted(i, i + 1, gone) {
            Some(o) => Some(o),
            None => {
                if self.journal_names(self.tasks[i].id.as_str()) {
                    return Some(Obstacle::Recorded(i));
                }
                let ghost before = gone@;
                gone.set(i, true);
                assert(marked(gone@) =~= marked(before).insert(i as int));
                None
            },
        }
    }

    /// Marks what goes when the children of the task at `i` that stand at `j`
    /// or behind it are deleted.
    pub fn mark_children_deleted(&self, i: usize, j: usize, gone: &mut Vec<bool>) -> (r: Option<
        Obstacle<usize>,
    >)
        requires
            self@.wf(),
            i < j <= self@.tasks.len(),
            old(gone)@.len() == self@.tasks.len(),
        ensures
            final(gone)@.len() == self@.tasks.len(),
            (marked(final(gone)@), obstacle_at(r)) == delete_children(
                self@,
                i as int,
                j as int,
                marked(old(gone)@),
            ),
            obstacle_within(r, self@.tasks.len()),
        decreases 2 * (self@.tasks.len() - j) + 2,
    {
        assert(self@.tasks.len() == self.tasks@.len());
        if j >= self.tasks.len() {
            return None;
        }
        assert(self@.tasks[i as int] == self.tasks@[i as int]@);
        assert(self@.tasks[j as int] == self.tasks@[j as int]@);
        if opt_same(&self.tasks[j].parent_id, self.tasks[i].id.as_str()) {
            assert(is_child(self@.tasks, i as int, j as int));
            match self.mark_deleted(j, gone) {
                Some(o) => Some(o),
                None => self.mark_children_deleted(i, j + 1, gone),
            }
        } else {
            assert(!is_child(self@.tasks, i as int, j as int));
            self.mark_children_deleted(i, j + 1, gone)
        }
    }

    /// The task rows that are not marked.
    pub fn unmarked_tasks(&self, gone: &Vec<bool>) -> (r: Vec<Task>)
        requires
            gone@.len() == self@.tasks.len(),
        ensures
            task_views(r@) == without_places(self@.tasks, marked(gone@)),
    {
        let ghost tasks = self@.tasks;
        let mut r: Vec<Task> = Vec::new();
        let mut i: usize = 0;
        assert(task_views(r@) =~= without_places(tasks.take(0), marked(gone@)));
        while i < self.tasks.len()
            invariant
                i <= self.tasks@.len(),
                tasks == self@.tasks,
                gone@.len() == tasks.len(),
                task_views(r@) == without_places(tasks.take(i as int), marked(gone@)),
            decreases self.tasks@.len() - i,
        {
            assert(tasks.take(i + 1).drop_last() =~= tasks.take(i as int));
            assert(tasks[i as int] == self.tasks@[i as int]@);
            if !gone[i] {
                let ghost before = r@;
                let t = self.tasks[i].clone();
                r.push(t);
                assert(task_views(r@) =~= task_views(before).push(tasks[i as int]));
            }
            i = i + 1;
        }
        assert(tasks.take(tasks.len() as int) =~= tasks);
        r
    }

    /// The dependencies whose blocked task is not marked.
    pub fn unmarked_deps(&self, gone: &Vec<bool>) -> (r: Vec<Dependency>)
        requires
            self@.wf(),
            gone@.len() == self@.tasks.len(),
        ensures
            dep_views(r@) == self@.deps.filter(dep_stays(self@.tasks, marked(gone@))),
    {
        let ghost db = self@;
        let ghost p = dep_stays(db.tasks, marked(gone@));
        let mut r: Vec<Dependency> = Vec::new();
        let mut k: usize = 0;
        assert(dep_views(r@) =~= db.deps.take(0).filter(p)) by {
            reveal(Seq::filter);
        }
        while k < self.deps.len()
            invariant
                k <= self.deps@.len(),
                db == self@,
                db.wf(),
                gone@.len() == db.tasks.len(),
                p == dep_stays(db.tasks, marked(gone@)),
                dep_views(r@) == db.deps.take(k as int).filter(p),
            decreases self.deps@.len() - k,
        {
            proof {
                lemma_filter_step(db.deps, p, k as int);
            }
            assert(db.deps[k as int] == self.deps@[k as int]@);
            assert(has_task(db.tasks, db.deps[k as int].1));
            match self.find_task(self.deps[k].blocked.as_str()) {
                Some(i) => {
                    if !gone[i] {
                        let ghost before = r@;
                        let d = Dependency {
                            blocker: self.deps[k].blocker.clone(),
                            blocked: self.deps[k].blocked.clone(),
                        };
                        r.push(d);
                        assert(dep_views(r@) =~= dep_views(before).push(db.deps[k as int]));
                    }
                },
                None => {},
            }
            k = k + 1;
        }
        assert(db.deps.take(db.deps.len() as int) =~= db.deps);
        r
    }

    /// The log entries whose task is not marked.
    pub fn unmarked_logs(&self, gone: &Vec<bool>) -> (r: Vec<LogEntry>)
        requires
            self@.wf(),
            gone@.len() == self@.tasks.len(),
        ensures
            log_views(r@) == self@.logs.filter(log_stays(self@.tasks, marked(gone@))),
    {
        let ghost db = self@;
        let ghost p = log_stays(db.tasks, marked(gone@));
        let mut r: Vec<LogEntry> = Vec::new();
        let mut k: usize = 0;
        assert(log_views(r@) =~= db.logs.take(0).filter(p)) by {
            reveal(Seq::filter);
        }
        while k < self.logs.len()
            invariant
                k <= self.logs@.len(),
                db == self@,
                db.wf(),
                gone@.len() == db.tasks.len(),
                p == log_stays(db.tasks, marked(gone@)),
                log_views(r@) == db.logs.take(k as int).filter(p),
            decreases self.logs@.len() - k,
        {
            proof {
                lemma_filter_step(db.logs, p, k as int);
            }
            assert(db.logs[k as int] == self.logs@[k as int]@);
            assert(has_task(db.tasks, db.logs[k as int].task_id));
            match self.find_task(self.logs[k].task_id.as_str()) {
                Some(i) => {
                    if !gone[i] {
                        let ghost before = r@;
                        let l = self.logs[k].clone();
                        r.push(l);
                        assert(log_views(r@) =~= log_views(before).push(db.logs[k as int]));
                    }
                },
                None => {},
            }
            k = k + 1;
        }
        assert(db.logs.take(db.logs.len() as int) =~= db.logs);
        r
    }

    /// Deletes a task.
    ///
    /// Rejects if other tasks depend on it, and deletes its children with it.
    /// A child that other tasks depend on stops the deletion; the siblings
    /// before it are gone then. So does a task that a journal entry names.
    pub fn delete_task(&mut self, id: &str) -> (r: Result<(), DagError>)
        requires
            old(self)@.wf(),
        ensures
            final(self)@.wf(),
            ({
                let db = old(self)@;
                if !has_task(db.tasks, id@) {
                    r is Err && r->Err_0@ == DagErrorView::NoTask(id@) && final(self)@ == db
                } else {
                    let d = delete_from(db, pos(db.tasks, id@), Set::empty());
                    &&& final(self)@ == after_delete(db, d)
                    &&& match delete_refusal(db.tasks, d.1) {
                        Some(e) => r is Err && r->Err_0@ == e,
                        None => r is Ok,
                    }
                }
            }),
    {
        let ghost db = self@;
        let i: usize = match self.find_task(id) {
            None => {
                return Err(DagError::NoTask(id.to_owned()));
            },
            Some(i) => i,
        };
        let n: usize = self.tasks.len();
        assert(self@.tasks.len() == n);
        let mut gone: Vec<bool> = Vec::new();
        let mut k: usize = 0;
        while k < n
            invariant
                k <= n,
                gone@.len() == k,
                forall|j: int| 0 <= j < k ==> !#[trigger] gone@[j],
            decreases n - k,
        {
            gone.push(false);
            k = k + 1;
        }
        assert(marked(gone@) =~= Set::<int>::empty());
        let obstacle = self.mark_deleted(i, &mut gone);
        proof {
            lemma_delete_from(db, i as int, Set::empty());
            lemma_after_delete_keeps(db, (marked(gone@), obstacle_at(obstacle)));
        }
        let tasks = self.unmarked_tasks(&gone);
        let r = match obstacle {
            Some(Obstacle::Blocks(b)) => {
                assert(db.tasks[b as int] == self.tasks@[b as int]@);
                Err(DagError::Blocks(self.tasks[b].id.clone()))
            },
            Some(Obstacle::Recorded(b)) => {
                let ghost before = gone@;
                gone.set(b, true);
                assert(marked(gone@) =~= marked(before).insert(b as int));
                Err(DagError::Constraint)
            },
            None => Ok(()),
        };
        let deps = self.unmarked_deps(&gone);
        let logs = self.unmarked_logs(&gone);
        self.tasks = tasks;
        self.deps = deps;
        self.logs = logs;
        r
    }

    /// Creates a new task with feature association and task type, under the
    /// first of the candidate ids that is not taken.
    pub fn create_task_with_feature(
        &mut self,
        params: CreateTaskParams<'_>,
        ids: &Vec<String>,
        now: &str,
    ) -> (r: Result<Task, DagError>)
        requires
            old(self)@.wf(),
            ids@.len() > 0,
        ensures
            final(self)@.wf(),
            ({
                let db = old(self)@;
                let free = first_free(db.tasks, texts(ids@), 0);
                if params.parent_id is Some && !has_task(db.tasks, params.parent_id->0@) {
                    r is Err && r->Err_0@ == DagErrorView::NoParent(params.parent_id->0@)
                        && final(self)@ == db
                } else if free is None || !is_task_type(params.task_type@) || (params.feature_id
                    is Some && !has_feature(db.features, params.feature_id->0@)) {
                    r is Err && r->Err_0@ == DagErrorView::IdsExhausted(ids@.len()) && final(self)@
                        == db
                } else {
                    let row = new_row(params, texts(ids@)[free->0], now@);
                    r is Ok && r->Ok_0@ == row && final(self)@ == (DbView {
                        tasks: db.tasks.push(row),
                        ..db
                    })
                }
            }),
    {
        let ghost db = self@;
        match params.parent_id {
            Some(p) => {
                if self.find_task(p).is_none() {
                    return Err(DagError::NoParent(p.to_owned()));
                }
            },
            None => {},
        }
        let columns_ok = (same(params.task_type, "feature") || same(
            params.task_type,
            "standalone",
        )) && match params.feature_id {
            Some(f) => self.find_feature(f).is_some(),
            None => true,
        };
        if !columns_ok {
            return Err(DagError::IdsExhausted(ids.len()));
        }
        let mut attempt: usize = 0;
        while attempt < ids.len()
            invariant
                attempt <= ids@.len(),
                db == self@,
                db == old(self)@,
                first_free(db.tasks, texts(ids@), 0) == first_free(
                    db.tasks,
                    texts(ids@),
                    attempt as int,
                ),
                db.wf(),
                is_task_type(params.task_type@),
                params.feature_id is Some ==> has_feature(db.features, params.feature_id->0@),
                params.parent_id is Some ==> has_task(db.tasks, params.parent_id->0@),
            decreases ids@.len() - attempt,
        {
            let id = ids[attempt].clone();
            assert(texts(ids@)[attempt as int] == id@);
            if self.find_task(id.as_str()).is_none() {
                let t = Task {
                    id,
                    title: params.title.to_owned(),
                    description: match params.description {
                        Some(d) => d.to_owned(),
                        None => String::new(),
                    },
                    status: "pending".to_owned(),
                    parent_id: match params.parent_id {
                        Some(p) => Some(p.to_owned()),
                        None => None,
                    },
                    feature_id: match params.feature_id {
                        Some(f) => Some(f.to_owned()),
                        None => None,
                    },
                    task_type: params.task_type.to_owned(),
                    priority: params.priority,
                    retry_count: 0,
                    max_retries: params.max_retries,
                    verification_status: None,
                    created_at: now.to_owned(),
                    updated_at: now.to_owned(),
                    claimed_by: None,
                };
                let row = t.clone();
                let ghost before = self.tasks@;
                self.tasks.push(t);
                assert(task_views(self.tasks@) =~= task_views(before).push(row@));
                proof {
                    lemma_row_added(db, row@);
                }
                return Ok(row);
            }
            attempt = attempt + 1;
        }
        Err(DagError::IdsExhausted(ids.len()))
    }

    /// Creates a new task of a feature with three retries.
    pub fn create_task(
        &mut self,
        title: &str,
        description: Option<&str>,
        parent_id: Option<&str>,
        priority: i32,
        ids: &Vec<String>,
        now: &str,
    ) -> (r: Result<Task, DagError>)
        requires
            old(self)@.wf(),
            ids@.len() > 0,
        ensures
            final(self)@.wf(),
            ({
                let db = old(self)@;
                let free = first_free(db.tasks, texts(ids@), 0);
                let params = (CreateTaskParams {
                    title,
                    description,
                    parent_id,
                    priority,
                    feature_id: None,
                    task_type: "feature",
                    max_retries: 3,
                });
                if parent_id is Some && !has_task(db.tasks, parent_id->0@) {
                    r is Err && r->Err_0@ == DagErrorView::NoParent(parent_id->0@) && final(self)@
                        == db
                } else if free is None {
                    r is Err && r->Err_0@ == DagErrorView::IdsExhausted(ids@.len()) && final(self)@
                        == db
                } else {
                    let row = new_row(params, texts(ids@)[free->0], now@);
                    r is Ok && r->Ok_0@ == row && final(self)@ == (DbView {
                        tasks: db.tasks.push(row),
                        ..db
                    })
                }
            }),
    {
        self.create_task_with_feature(
            CreateTaskParams {
                title,
                description,
                parent_id,
                priority,
                feature_id: None,
                task_type: "feature",
                max_retries: 3,
            },
            ids,
            now,
        )
    }

    /// The task with this id.
    pub fn get_task(&self, id: &str) -> (r: Result<Task, DagError>)
        requires
            self@.wf(),
        ensures
            has_task(self@.tasks, id@) ==> r is Ok && r->Ok_0@ == self@.tasks[pos(
                self@.tasks,
                id@,
            )],
            !has_task(self@.tasks, id@) ==> r is Err && r->Err_0@ == DagErrorView::TaskLookup(
                id@,
            ),
    {
        match self.find_task(id) {
            Some(i) => {
                assert(self@.tasks[i as int] == self.tasks@[i as int]@);
                Ok(self.tasks[i].clone())
            },
            None => Err(DagError::TaskLookup(id.to_owned())),
        }
    }

    /// Updates a task's fields and gives the task back.
    pub fn update_task(&mut self, id: &str, fields: TaskUpdate, now: &str) -> (r: Result<
        Task,
        DagError,
    >)
        requires
            old(self)@.wf(),
        ensures
            final(self)@.wf(),
            !has_task(old(self)@.tasks, id@) ==> r is Err && r->Err_0@ == DagErrorView::NoTask(id@)
                && final(self)@ == old(self)@,
            has_task(old(self)@.tasks, id@) ==> {
                let i = pos(old(self)@.tasks, id@);
                let row = updated(old(self)@.tasks[i], fields, now@);
                r is Ok && r->Ok_0@ == row && final(self)@ == (DbView {
                    tasks: old(self)@.tasks.update(i, row),
                    ..old(self)@
                })
            },
    {
        let ghost db = self@;
        let i: usize = match self.find_task(id) {
            None => {
                return Err(DagError::NoTask(id.to_owned()));
            },
            Some(i) => i,
        };
        assert(self@.tasks[i as int] == self.tasks@[i as int]@);
        let mut t = self.tasks[i].clone();
        if fields.title.is_none() && fields.description.is_none() && fields.priority.is_none() {
            assert(self@.tasks.update(i as int, t@) =~= self@.tasks);
            return Ok(t);
        }
        match fields.title {
            Some(x) => {
                t.title = x;
            },
            None => {},
        }
        match fields.description {
            Some(x) => {
                t.description = x;
            },
            None => {},
        }
        match fields.priority {
            Some(x) => {
                t.priority = x;
            },
            None => {},
        }
        t.updated_at = now.to_owned();
        let row = t.clone();
        assert(task_columns(db.tasks[i as int], db.features));
        self.put_task_at(i, t);
        Ok(row)
    }

    /// Adds a log message for a task.
    pub fn add_log(&mut self, task_id: &str, message: &str, timestamp: &str) -> (r: Result<
        (),
        DagError,
    >)
        requires
            old(self)@.wf(),
        ensures
            final(self)@.wf(),
            !has_task(old(self)@.tasks, task_id@) ==> r is Err && r->Err_0@ == DagErrorView::NoTask(
                task_id@,
            ) && final(self)@ == old(self)@,
            has_task(old(self)@.tasks, task_id@) ==> r is Ok && final(self)@ == with_log(
                old(self)@,
                task_id@,
                message@,
                timestamp@,
            ),
    {
        if self.find_task(task_id).is_none() {
            return Err(DagError::NoTask(task_id.to_owned()));
        }
        self.push_log(task_id, message, timestamp);
        Ok(())
    }
}

/// A new row with a free id, an existing parent and valid columns keeps the
/// invariant.
pub proof fn lemma_row_added(db: DbView, row: TaskView)
    requires
        db.wf(),
        !has_task(db.tasks, row.id),
        row.parent_id is Some ==> has_task(db.tasks, row.parent_id->0),
        task_columns(row, db.features),
    ensures
        (DbView { tasks: db.tasks.push(row), ..db }).wf(),
{
    let b = db.tasks.push(row);
    let n = db.tasks.len() as int;
    assert forall|x: int, y: int| 0 <= x < y < b.len() implies (#[trigger] b[x]).id != (
    #[trigger] b[y]).id by {
        if y < n {
            assert(db.tasks[x].id != db.tasks[y].id);
        } else {
            assert(db.tasks[x].id != row.id);
        }
    }
    assert forall|x: int|
        0 <= x < b.len() && (#[trigger] b[x]).parent_id is Some implies exists|y: int|
        is_parent_at(b, x, y) by {
        if x < n {
            assert(db.tasks[x].parent_id is Some);
            let j = choose|j: int| is_parent_at(db.tasks, x, j);
            assert(is_parent_at(b, x, j));
        } else {
            lemma_pos_of(db.tasks, row.parent_id->0);
            assert(is_parent_at(b, x, pos(db.tasks, row.parent_id->0)));
        }
    }
    assert forall|id: Seq<char>| #[trigger] has_task(db.tasks, id) implies has_task(b, id) by {
        lemma_pos_of(db.tasks, id);
        assert(b[pos(db.tasks, id)].id == id);
    }
    assert forall|x: int| 0 <= x < b.len() implies task_columns(#[trigger] b[x], db.features) by {
        if x < n {
            assert(task_columns(db.tasks[x], db.features));
        }
    }
    assert forall|k: int| 0 <= k < db.deps.len() implies has_task(b, (#[trigger] db.deps[k]).0)
        && has_task(b, db.deps[k].1) && db.deps[k].0 != db.deps[k].1 by {
        assert(has_task(db.tasks, db.deps[k].0));
        assert(has_task(db.tasks, db.deps[k].1));
    }
    assert forall|k: int| 0 <= k < db.logs.len() implies has_task(
        b,
        (#[trigger] db.logs[k]).task_id,
    ) by {
        assert(has_task(db.tasks, db.logs[k].task_id));
    }
}

} // verus!
