//! Rows of the task database, their mathematical views and the invariant that
//! every operation keeps.

use vstd::prelude::*;

use crate::text::basic::{clone_opt, clone_texts, opt_text, same, texts};

verus! {

/// A task in the DAG.
#[derive(Debug)]
pub struct Task {
    pub id: String,
    pub title: String,
    pub description: String,
    pub status: String,
    pub parent_id: Option<String>,
    pub feature_id: Option<String>,
    pub task_type: String,
    pub priority: i32,
    pub retry_count: i32,
    pub max_retries: i32,
    pub verification_status: Option<String>,
    pub created_at: String,
    pub updated_at: String,
    pub claimed_by: Option<String>,
}

/// What a task row holds.
pub struct TaskView {
    pub id: Seq<char>,
    pub title: Seq<char>,
    pub description: Seq<char>,
    pub status: Seq<char>,
    pub parent_id: Option<Seq<char>>,
    pub feature_id: Option<Seq<char>>,
    pub task_type: Seq<char>,
    pub priority: i32,
    pub retry_count: i32,
    pub max_retries: i32,
    pub verification_status: Option<Seq<char>>,
    pub created_at: Seq<char>,
    pub updated_at: Seq<char>,
    pub claimed_by: Option<Seq<char>>,
}

impl View for Task {
    type V = TaskView;

    open spec fn view(&self) -> TaskView {
        TaskView {
            id: self.id@,
            title: self.title@,
            description: self.description@,
            status: self.status@,
            parent_id: opt_text(self.parent_id),
            feature_id: opt_text(self.feature_id),
            task_type: self.task_type@,
            priority: self.priority,
            retry_count: self.retry_count,
            max_retries: self.max_retries,
            verification_status: opt_text(self.verification_status),
            created_at: self.created_at@,
            updated_at: self.updated_at@,
            claimed_by: opt_text(self.claimed_by),
        }
    }
}

impl Clone for Task {
    fn clone(&self) -> (r: Self)
        ensures
            r@ == self@,
    {
        Task {
            id: self.id.clone(),
            title: self.title.clone(),
            description: self.description.clone(),
            status: self.status.clone(),
            parent_id: clone_opt(&self.parent_id),
            feature_id: clone_opt(&self.feature_id),
            task_type: self.task_type.clone(),
            priority: self.priority,
            retry_count: self.retry_count,
            max_retries: self.max_retries,
            verification_status: clone_opt(&self.verification_status),
            created_at: self.created_at.clone(),
            updated_at: self.updated_at.clone(),
            claimed_by: clone_opt(&self.claimed_by),
        }
    }
}

/// The views of a list of tasks.
pub open spec fn task_views(v: Seq<Task>) -> Seq<TaskView> {
    v.map_values(|t: Task| t@)
}

/// A dependency: `blocked` cannot start until `blocker` is done.
#[derive(Debug)]
pub struct Dependency {
    pub blocker: String,
    pub blocked: String,
}

impl View for Dependency {
    type V = (Seq<char>, Seq<char>);

    open spec fn view(&self) -> (Seq<char>, Seq<char>) {
        (self.blocker@, self.blocked@)
    }
}

/// The views of a list of dependencies.
pub open spec fn dep_views(v: Seq<Dependency>) -> Seq<(Seq<char>, Seq<char>)> {
    v.map_values(|d: Dependency| d@)
}

/// A log entry for a task.
#[derive(Debug)]
pub struct LogEntry {
    pub task_id: String,
    pub message: String,
    pub timestamp: String,
}

/// What a log row holds.
pub struct LogView {
    pub task_id: Seq<char>,
    pub message: Seq<char>,
    pub timestamp: Seq<char>,
}

impl View for LogEntry {
    type V = LogView;

    open spec fn view(&self) -> LogView {
        LogView {
            task_id: self.task_id@,
            message: self.message@,
            timestamp: self.timestamp@,
        }
    }
}

impl Clone for LogEntry {
    fn clone(&self) -> (r: Self)
        ensures
            r@ == self@,
    {
        LogEntry {
            task_id: self.task_id.clone(),
            message: self.message.clone(),
            timestamp: self.timestamp.clone(),
        }
    }
}

/// The views of a list of log entries.
pub open spec fn log_views(v: Seq<LogEntry>) -> Seq<LogView> {
    v.map_values(|l: LogEntry| l@)
}

/// A feature in the DAG.
#[derive(Debug)]
pub struct Feature {
    pub id: String,
    pub name: String,
    pub spec_path: Option<String>,
    pub plan_path: Option<String>,
    pub status: String,
}

/// What a feature holds.
pub struct FeatureView {
    pub id: Seq<char>,
    pub name: Seq<char>,
    pub spec_path: Option<Seq<char>>,
    pub plan_path: Option<Seq<char>>,
    pub status: Seq<char>,
}

impl View for Feature {
    type V = FeatureView;

    open spec fn view(&self) -> FeatureView {
        FeatureView {
            id: self.id@,
            name: self.name@,
            spec_path: opt_text(self.spec_path),
            plan_path: opt_text(self.plan_path),
            status: self.status@,
        }
    }
}

impl Clone for Feature {
    fn clone(&self) -> (r: Self)
        ensures
            r@ == self@,
    {
        Feature {
            id: self.id.clone(),
            name: self.name.clone(),
            spec_path: clone_opt(&self.spec_path),
            plan_path: clone_opt(&self.plan_path),
            status: self.status.clone(),
        }
    }
}

/// The views of a list of features.
pub open spec fn feature_views(v: Seq<Feature>) -> Seq<FeatureView> {
    v.map_values(|f: Feature| f@)
}

/// A feature row: the feature and its time stamps.
#[derive(Debug)]
pub struct FeatureRow {
    pub feature: Feature,
    pub created_at: String,
    pub updated_at: String,
}

/// What a feature row holds.
pub struct FeatureRowView {
    pub feature: FeatureView,
    pub created_at: Seq<char>,
    pub updated_at: Seq<char>,
}

impl View for FeatureRow {
    type V = FeatureRowView;

    open spec fn view(&self) -> FeatureRowView {
        FeatureRowView {
            feature: self.feature@,
            created_at: self.created_at@,
            updated_at: self.updated_at@,
        }
    }
}

impl Clone for FeatureRow {
    fn clone(&self) -> (r: Self)
        ensures
            r@ == self@,
    {
        FeatureRow {
            feature: self.feature.clone(),
            created_at: self.created_at.clone(),
            updated_at: self.updated_at.clone(),
        }
    }
}

/// The views of a list of feature rows.
pub open spec fn row_views(v: Seq<FeatureRow>) -> Seq<FeatureRowView> {
    v.map_values(|f: FeatureRow| f@)
}

/// A single journal entry recording metadata about one agent loop iteration.
///
/// Duration and cost are held as the decimal text that is shown for them.
#[derive(Debug)]
pub struct JournalEntry {
    pub id: i64,
    pub run_id: String,
    pub iteration: u32,
    pub task_id: Option<String>,
    pub feature_id: Option<String>,
    pub outcome: String,
    pub model: Option<String>,
    pub duration_secs: String,
    pub cost_usd: String,
    pub files_modified: Vec<String>,
    pub notes: Option<String>,
    pub created_at: String,
}

/// What a journal row holds.
pub struct JournalView {
    pub id: i64,
    pub run_id: Seq<char>,
    pub iteration: u32,
    pub task_id: Option<Seq<char>>,
    pub feature_id: Option<Seq<char>>,
    pub outcome: Seq<char>,
    pub model: Option<Seq<char>>,
    pub duration_secs: Seq<char>,
    pub cost_usd: Seq<char>,
    pub files_modified: Seq<Seq<char>>,
    pub notes: Option<Seq<char>>,
    pub created_at: Seq<char>,
}

impl View for JournalEntry {
    type V = JournalView;

    open spec fn view(&self) -> JournalView {
        JournalView {
            id: self.id,
            run_id: self.run_id@,
            iteration: self.iteration,
            task_id: opt_text(self.task_id),
            feature_id: opt_text(self.feature_id),
            outcome: self.outcome@,
            model: opt_text(self.model),
            duration_secs: self.duration_secs@,
            cost_usd: self.cost_usd@,
            files_modified: texts(self.files_modified@),
            notes: opt_text(self.notes),
            created_at: self.created_at@,
        }
    }
}

impl Clone for JournalEntry {
    fn clone(&self) -> (r: Self)
        ensures
            r@ == self@,
    {
        JournalEntry {
            id: self.id,
            run_id: self.run_id.clone(),
            iteration: self.iteration,
            task_id: clone_opt(&self.task_id),
            feature_id: clone_opt(&self.feature_id),
            outcome: self.outcome.clone(),
            model: clone_opt(&self.model),
            duration_secs: self.duration_secs.clone(),
            cost_usd: self.cost_usd.clone(),
            files_modified: clone_texts(&self.files_modified),
            notes: clone_opt(&self.notes),
            created_at: self.created_at.clone(),
        }
    }
}

/// The views of a list of journal entries.
pub open spec fn journal_views(v: Seq<JournalEntry>) -> Seq<JournalView> {
    v.map_values(|e: JournalEntry| e@)
}

/// The task database: its tables, each in the order in which rows came.
#[derive(Debug)]
pub struct Db {
    pub tasks: Vec<Task>,
    pub deps: Vec<Dependency>,
    pub logs: Vec<LogEntry>,
    pub features: Vec<FeatureRow>,
    pub journal: Vec<JournalEntry>,
    /// The greatest id that a journal entry ever had; none is given twice.
    pub last_entry: i64,
}

/// What the task database holds.
pub struct DbView {
    pub tasks: Seq<TaskView>,
    pub deps: Seq<(Seq<char>, Seq<char>)>,
    pub logs: Seq<LogView>,
    pub features: Seq<FeatureRowView>,
    pub journal: Seq<JournalView>,
    pub last_entry: i64,
}

impl View for Db {
    type V = DbView;

    open spec fn view(&self) -> DbView {
        DbView {
            tasks: task_views(self.tasks@),
            deps: dep_views(self.deps@),
            logs: log_views(self.logs@),
            features: row_views(self.features@),
            journal: journal_views(self.journal@),
            last_entry: self.last_entry,
        }
    }
}

/// The statuses a task can have.
pub open spec fn is_task_status(s: Seq<char>) -> bool {
    s == "pending"@ || s == "in_progress"@ || s == "done"@ || s == "blocked"@ || s == "failed"@
}

/// The kinds of task.
pub open spec fn is_task_type(s: Seq<char>) -> bool {
    s == "feature"@ || s == "standalone"@
}

/// The statuses a feature can have.
pub open spec fn is_feature_status(s: Seq<char>) -> bool {
    s == "draft"@ || s == "planned"@ || s == "ready"@ || s == "running"@ || s == "done"@ || s
        == "failed"@
}

/// The results a verification can have, where there is one.
pub open spec fn is_verification_status(o: Option<Seq<char>>) -> bool {
    match o {
        None => true,
        Some(s) => s == "pending"@ || s == "passed"@ || s == "failed"@,
    }
}

/// A task with this id is among `tasks`.
pub open spec fn has_task(tasks: Seq<TaskView>, id: Seq<char>) -> bool {
    exists|i: int| 0 <= i < tasks.len() && (#[trigger] tasks[i]).id == id
}

/// Where the task with this id stands.
pub open spec fn pos(tasks: Seq<TaskView>, id: Seq<char>) -> int {
    choose|i: int| 0 <= i < tasks.len() && (#[trigger] tasks[i]).id == id
}

/// A feature with this id is among `features`.
pub open spec fn has_feature(features: Seq<FeatureRowView>, id: Seq<char>) -> bool {
    exists|i: int| 0 <= i < features.len() && (#[trigger] features[i]).feature.id == id
}

/// No two tasks share an id.
pub open spec fn ids_distinct(tasks: Seq<TaskView>) -> bool {
    forall|i: int, j: int|
        0 <= i < j < tasks.len() ==> (#[trigger] tasks[i]).id != (#[trigger] tasks[j]).id
}

/// Where the parent of the task at `i` stands, before the task itself.
pub open spec fn is_parent_at(tasks: Seq<TaskView>, i: int, j: int) -> bool {
    0 <= j < i && tasks[i].parent_id == Some(tasks[j].id)
}

/// Every parent stands before its children.
pub open spec fn parents_first(tasks: Seq<TaskView>) -> bool {
    forall|i: int|
        0 <= i < tasks.len() && (#[trigger] tasks[i]).parent_id is Some ==> exists|j: int|
            is_parent_at(tasks, i, j)
}

/// Every column of the task holds a value that the column admits.
pub open spec fn task_columns(t: TaskView, features: Seq<FeatureRowView>) -> bool {
    &&& is_task_status(t.status)
    &&& is_task_type(t.task_type)
    &&& is_verification_status(t.verification_status)
    &&& t.feature_id is Some ==> has_feature(features, t.feature_id->0)
}

/// Features have distinct ids and names, and valid statuses.
pub open spec fn features_ok(features: Seq<FeatureRowView>) -> bool {
    &&& forall|i: int, j: int|
        0 <= i < j < features.len() ==> (#[trigger] features[i]).feature.id != (
        #[trigger] features[j]).feature.id && features[i].feature.name != features[j].feature.name
    &&& forall|i: int|
        0 <= i < features.len() ==> is_feature_status((#[trigger] features[i]).feature.status)
}

/// Dependencies are between two different tasks that exist, and none is
/// recorded twice.
pub open spec fn deps_ok(deps: Seq<(Seq<char>, Seq<char>)>, tasks: Seq<TaskView>) -> bool {
    &&& forall|k: int|
        0 <= k < deps.len() ==> has_task(tasks, (#[trigger] deps[k]).0) && has_task(
            tasks,
            deps[k].1,
        ) && deps[k].0 != deps[k].1
    &&& forall|k: int, l: int| 0 <= k < l < deps.len() ==> #[trigger] deps[k] != #[trigger] deps[l]
}

/// The task and the feature that a journal entry names, where it names them,
/// exist.
pub open spec fn entry_refers(
    e: JournalView,
    tasks: Seq<TaskView>,
    features: Seq<FeatureRowView>,
) -> bool {
    &&& e.task_id is Some ==> has_task(tasks, e.task_id->0)
    &&& e.feature_id is Some ==> has_feature(features, e.feature_id->0)
}

/// Journal entries name tasks and features that exist; their ids ascend from 1
/// and stay within those that were given.
pub open spec fn journal_ok(
    journal: Seq<JournalView>,
    tasks: Seq<TaskView>,
    features: Seq<FeatureRowView>,
    last: i64,
) -> bool {
    &&& 0 <= last
    &&& forall|k: int|
        0 <= k < journal.len() ==> entry_refers(#[trigger] journal[k], tasks, features) && 0
            < journal[k].id <= last
    &&& forall|k: int, l: int|
        0 <= k < l < journal.len() ==> (#[trigger] journal[k]).id < (#[trigger] journal[l]).id
}

impl DbView {
    /// The invariant of the task database.
    pub open spec fn wf(self) -> bool {
        &&& ids_distinct(self.tasks)
        &&& parents_first(self.tasks)
        &&& forall|i: int|
            0 <= i < self.tasks.len() ==> task_columns(#[trigger] self.tasks[i], self.features)
        &&& features_ok(self.features)
        &&& deps_ok(self.deps, self.tasks)
        &&& forall|k: int|
            0 <= k < self.logs.len() ==> has_task(self.tasks, (#[trigger] self.logs[k]).task_id)
        &&& journal_ok(self.journal, self.tasks, self.features, self.last_entry)
    }
}

/// Why an operation on the task database was refused.
#[derive(Debug)]
pub enum DagError {
    /// No task has this id.
    NoTask(String),
    /// The task that was asked for does not exist.
    TaskLookup(String),
    /// The task whose status is to change does not exist.
    NoStatus(String),
    /// The task without children whose derived status was asked for does not
    /// exist.
    NoParentStatus(String),
    /// The task whose status was asked for does not exist.
    NoTaskStatus(String),
    /// The task whose claim is to be released does not exist.
    NoRow(String),
    /// The parent named for a new task does not exist.
    NoParent(String),
    /// No feature has this name, or the feature to be changed does not exist.
    NoFeature(String),
    /// No feature has this id.
    NoFeatureId(String),
    /// A feature of this name exists.
    FeatureExists(String),
    /// The feature of this name could not be created, as its id is taken.
    NotCreated(String),
    /// A feature cannot have this status.
    FeatureStatus(String),
    /// The status change is not allowed.
    InvalidTransition(String, String),
    /// The dependency would close a cycle.
    Cycle(String, String),
    /// The dependency is between tasks that do not both exist, or is there
    /// already.
    NotAdded(String, String),
    /// A row names one that does not exist, or would lose the one that it
    /// names.
    Constraint,
    /// Other tasks depend on the task.
    Blocks(String),
    /// No unused task id was found in this many attempts.
    IdsExhausted(usize),
    /// The ids for journal entries are used up.
    Full,
}

/// What a refusal says, with its texts by value.
pub enum DagErrorView {
    NoTask(Seq<char>),
    TaskLookup(Seq<char>),
    NoStatus(Seq<char>),
    NoParentStatus(Seq<char>),
    NoTaskStatus(Seq<char>),
    NoRow(Seq<char>),
    NoParent(Seq<char>),
    NoFeature(Seq<char>),
    NoFeatureId(Seq<char>),
    FeatureExists(Seq<char>),
    NotCreated(Seq<char>),
    FeatureStatus(Seq<char>),
    InvalidTransition(Seq<char>, Seq<char>),
    Cycle(Seq<char>, Seq<char>),
    NotAdded(Seq<char>, Seq<char>),
    Constraint,
    Blocks(Seq<char>),
    IdsExhausted(nat),
    Full,
}

impl View for DagError {
    type V = DagErrorView;

    open spec fn view(&self) -> DagErrorView {
        match self {
            DagError::NoTask(a) => DagErrorView::NoTask(a@),
            DagError::TaskLookup(a) => DagErrorView::TaskLookup(a@),
            DagError::NoStatus(a) => DagErrorView::NoStatus(a@),
            DagError::NoParentStatus(a) => DagErrorView::NoParentStatus(a@),
            DagError::NoTaskStatus(a) => DagErrorView::NoTaskStatus(a@),
            DagError::NoRow(a) => DagErrorView::NoRow(a@),
            DagError::NoParent(a) => DagErrorView::NoParent(a@),
            DagError::NoFeature(a) => DagErrorView::NoFeature(a@),
            DagError::NoFeatureId(a) => DagErrorView::NoFeatureId(a@),
            DagError::FeatureExists(a) => DagErrorView::FeatureExists(a@),
            DagError::NotCreated(a) => DagErrorView::NotCreated(a@),
            DagError::FeatureStatus(a) => DagErrorView::FeatureStatus(a@),
            DagError::InvalidTransition(a, b) => DagErrorView::InvalidTransition(a@, b@),
            DagError::Cycle(a, b) => DagErrorView::Cycle(a@, b@),
            DagError::NotAdded(a, b) => DagErrorView::NotAdded(a@, b@),
            DagError::Constraint => DagErrorView::Constraint,
            DagError::Blocks(a) => DagErrorView::Blocks(a@),
            DagError::IdsExhausted(n) => DagErrorView::IdsExhausted(*n as nat),
            DagError::Full => DagErrorView::Full,
        }
    }
}

/// With distinct ids, a task found by its id stands where it was found.
pub proof fn lemma_pos(tasks: Seq<TaskView>, i: int)
    requires
        ids_distinct(tasks),
        0 <= i < tasks.len(),
    ensures
        has_task(tasks, tasks[i].id),
        pos(tasks, tasks[i].id) == i,
{
    let j = pos(tasks, tasks[i].id);
    assert(tasks[i].id == tasks[i].id);
    assert(0 <= j < tasks.len() && tasks[j].id == tasks[i].id);
    if j < i {
        assert(tasks[j].id != tasks[i].id);
    } else if i < j {
        assert(tasks[i].id != tasks[j].id);
    }
}

/// The position of a task that exists is one of its list, and holds the id.
pub proof fn lemma_pos_of(tasks: Seq<TaskView>, id: Seq<char>)
    requires
        has_task(tasks, id),
    ensures
        0 <= pos(tasks, id) < tasks.len(),
        tasks[pos(tasks, id)].id == id,
{
}

/// The names of statuses differ.
pub proof fn lemma_status_names()
    ensures
        "pending"@ != "in_progress"@,
        "pending"@ != "done"@,
        "pending"@ != "blocked"@,
        "pending"@ != "failed"@,
        "in_progress"@ != "done"@,
        "in_progress"@ != "blocked"@,
        "in_progress"@ != "failed"@,
        "done"@ != "blocked"@,
        "done"@ != "failed"@,
        "blocked"@ != "failed"@,
{
    reveal_strlit("pending");
    reveal_strlit("in_progress");
    reveal_strlit("done");
    reveal_strlit("blocked");
    reveal_strlit("failed");
    assert("pending"@[0] != "done"@[0]);
    assert("pending"@[0] != "blocked"@[0]);
    assert("pending"@[0] != "failed"@[0]);
    assert("pending"@[0] != "in_progress"@[0]);
    assert("in_progress"@[0] != "done"@[0]);
    assert("in_progress"@[0] != "blocked"@[0]);
    assert("in_progress"@[0] != "failed"@[0]);
    assert("done"@[0] != "blocked"@[0]);
    assert("done"@[0] != "failed"@[0]);
    assert("blocked"@[0] != "failed"@[0]);
}

impl Db {
    /// An empty task database.
    pub fn new() -> (r: Self)
        ensures
            r@.wf(),
            r@.tasks.len() == 0,
            r@.deps.len() == 0,
            r@.logs.len() == 0,
            r@.features.len() == 0,
            r@.journal.len() == 0,
            r@.last_entry == 0,
    {
        Db {
            tasks: Vec::new(),
            deps: Vec::new(),
            logs: Vec::new(),
            features: Vec::new(),
            journal: Vec::new(),
            last_entry: 0,
        }
    }

    /// Where the task with this id stands.
    pub fn find_task(&self, id: &str) -> (r: Option<usize>)
        ensures
            match r {
                Some(i) => i < self@.tasks.len() && self@.tasks[i as int].id == id@ && has_task(
                    self@.tasks,
                    id@,
                ) && (ids_distinct(self@.tasks) ==> pos(self@.tasks, id@) == i),
                None => !has_task(self@.tasks, id@),
            },
    {
        let mut i: usize = 0;
        while i < self.tasks.len()
            invariant
                i <= self.tasks@.len(),
                forall|j: int| 0 <= j < i ==> (#[trigger] self@.tasks[j]).id != id@,
            decreases self.tasks@.len() - i,
        {
            assert(self@.tasks[i as int] == self.tasks@[i as int]@);
            if same(self.tasks[i].id.as_str(), id) {
                proof {
                    if ids_distinct(self@.tasks) {
                        lemma_pos(self@.tasks, i as int);
                    }
                }
                return Some(i);
            }
            i = i + 1;
        }
        None
    }

    /// Where the feature with this id stands.
    pub fn find_feature(&self, id: &str) -> (r: Option<usize>)
        ensures
            match r {
                Some(i) => i < self@.features.len() && self@.features[i as int].feature.id == id@
                    && has_feature(self@.features, id@),
                None => !has_feature(self@.features, id@),
            },
    {
        let mut i: usize = 0;
        while i < self.features.len()
            invariant
                i <= self.features@.len(),
                forall|j: int| 0 <= j < i ==> (#[trigger] self@.features[j]).feature.id != id@,
            decreases self.features@.len() - i,
        {
            assert(self@.features[i as int] == self.features@[i as int]@);
            if same(self.features[i].feature.id.as_str(), id) {
                return Some(i);
            }
            i = i + 1;
        }
        None
    }
}

} // verus!
