//! Shared types for agent sessions.

use vstd::prelude::*;

use crate::text::basic::{clone_texts, opt_text, texts};

verus! {

/// Information about a task assigned to the agent for the current iteration.
#[derive(Debug)]
pub struct TaskInfo {
    pub task_id: String,
    pub title: String,
    pub description: String,
    pub parent: Option<ParentContext>,
    pub completed_blockers: Vec<BlockerContext>,
}

/// What a task assignment holds.
pub struct TaskInfoView {
    pub task_id: Seq<char>,
    pub title: Seq<char>,
    pub description: Seq<char>,
    pub parent: Option<(Seq<char>, Seq<char>)>,
    pub completed_blockers: Seq<BlockerView>,
}

impl View for TaskInfo {
    type V = TaskInfoView;

    open spec fn view(&self) -> TaskInfoView {
        TaskInfoView {
            task_id: self.task_id@,
            title: self.title@,
            description: self.description@,
            parent: match self.parent {
                Some(p) => Some(p@),
                None => None,
            },
            completed_blockers: blocker_views(self.completed_blockers@),
        }
    }
}

/// Context about a task's parent task.
#[derive(Debug)]
pub struct ParentContext {
    pub title: String,
    pub description: String,
}

impl View for ParentContext {
    type V = (Seq<char>, Seq<char>);

    open spec fn view(&self) -> (Seq<char>, Seq<char>) {
        (self.title@, self.description@)
    }
}

/// Context about a completed blocker (prerequisite) task.
#[derive(Debug)]
pub struct BlockerContext {
    pub task_id: String,
    pub title: String,
    pub summary: String,
}

/// What the context of a blocker holds.
pub struct BlockerView {
    pub task_id: Seq<char>,
    pub title: Seq<char>,
    pub summary: Seq<char>,
}

impl View for BlockerContext {
    type V = BlockerView;

    open spec fn view(&self) -> BlockerView {
        BlockerView { task_id: self.task_id@, title: self.title@, summary: self.summary@ }
    }
}

/// The views of a list of blockers.
pub open spec fn blocker_views(v: Seq<BlockerContext>) -> Seq<BlockerView> {
    v.map_values(|b: BlockerContext| b@)
}

/// Information about a retry attempt.
#[derive(Debug)]
pub struct RetryInfo {
    pub attempt: i32,
    pub max_retries: i32,
    pub previous_failure_reason: String,
}

impl View for RetryInfo {
    type V = (i32, i32, Seq<char>);

    open spec fn view(&self) -> (i32, i32, Seq<char>) {
        (self.attempt, self.max_retries, self.previous_failure_reason@)
    }
}

/// Full iteration context passed to the system prompt.
#[derive(Debug)]
pub struct IterationContext {
    pub task: TaskInfo,
    pub spec_content: Option<String>,
    pub plan_content: Option<String>,
    pub retry_info: Option<RetryInfo>,
    /// Unique run ID for this invocation (format: run-{8 hex chars}).
    pub run_id: String,
    /// The journal as markdown.
    pub journal_context: String,
    /// The matching knowledge entries as markdown.
    pub knowledge_context: String,
}

/// What an iteration context holds.
pub struct IterationView {
    pub task: TaskInfoView,
    pub spec_content: Option<Seq<char>>,
    pub plan_content: Option<Seq<char>>,
    pub retry_info: Option<(i32, i32, Seq<char>)>,
    pub run_id: Seq<char>,
    pub journal_context: Seq<char>,
    pub knowledge_context: Seq<char>,
}

impl View for IterationContext {
    type V = IterationView;

    open spec fn view(&self) -> IterationView {
        IterationView {
            task: self.task@,
            spec_content: opt_text(self.spec_content),
            plan_content: opt_text(self.plan_content),
            retry_info: match self.retry_info {
                Some(r) => Some(r@),
                None => None,
            },
            run_id: self.run_id@,
            journal_context: self.journal_context@,
            knowledge_context: self.knowledge_context@,
        }
    }
}

/// A knowledge entry parsed from a `<knowledge>` sigil in agent output.
#[derive(Debug)]
pub struct KnowledgeSigil {
    pub title: String,
    pub tags: Vec<String>,
    pub body: String,
}

/// What a knowledge sigil holds.
pub struct KnowledgeSigilView {
    pub title: Seq<char>,
    pub tags: Seq<Seq<char>>,
    pub body: Seq<char>,
}

impl View for KnowledgeSigil {
    type V = KnowledgeSigilView;

    open spec fn view(&self) -> KnowledgeSigilView {
        KnowledgeSigilView { title: self.title@, tags: texts(self.tags@), body: self.body@ }
    }
}

impl Clone for KnowledgeSigil {
    fn clone(&self) -> (r: Self)
        ensures
            r@ == self@,
    {
        KnowledgeSigil {
            title: self.title.clone(),
            tags: clone_texts(&self.tags),
            body: self.body.clone(),
        }
    }
}

/// The views of a list of knowledge sigils.
pub open spec fn knowledge_views(v: Seq<KnowledgeSigil>) -> Seq<KnowledgeSigilView> {
    v.map_values(|k: KnowledgeSigil| k@)
}

/// Why the agent stopped.
#[derive(Debug, Clone, Copy, PartialEq, Eq, Structural)]
pub enum StopReason {
    EndTurn,
    MaxTokens,
    MaxTurnRequests,
    Refusal,
    Cancelled,
    /// A reason that this version does not know.
    Unknown,
}

/// Data collected from a streaming agent session.
#[derive(Debug)]
pub struct StreamingResult {
    /// Accumulated full agent text output (for sigil extraction).
    pub full_text: String,
    /// File paths written during the session.
    pub files_modified: Vec<String>,
    /// Iteration duration in milliseconds (wall clock).
    pub duration_ms: u64,
    /// Why the agent stopped.
    pub stop_reason: StopReason,
}

/// Result of running a single iteration.
#[derive(Debug)]
pub enum RunResult {
    /// The agent finished and produced a streaming result.
    Completed(StreamingResult),
    /// The user interrupted the iteration with Ctrl+C.
    Interrupted,
}

/// All sigils extracted from a session's text output.
#[derive(Debug)]
pub struct SigilResult {
    /// Task ID from `<task-done>...</task-done>` sigil, if present.
    pub task_done: Option<String>,
    /// Task ID from `<task-failed>...</task-failed>` sigil, if present.
    pub task_failed: Option<String>,
    /// Model hint from `<next-model>...</next-model>` sigil, if present.
    pub next_model_hint: Option<String>,
    /// Notes from `<journal>...</journal>` sigil, if present.
    pub journal_notes: Option<String>,
    /// Knowledge entries from `<knowledge>` sigils, if any.
    pub knowledge_entries: Vec<KnowledgeSigil>,
    /// True if `<promise>COMPLETE</promise>` was found.
    pub is_complete: bool,
    /// True if `<promise>FAILURE</promise>` was found.
    pub is_failure: bool,
}

/// What the sigils of a session say.
pub struct SigilView {
    pub task_done: Option<Seq<char>>,
    pub task_failed: Option<Seq<char>>,
    pub next_model_hint: Option<Seq<char>>,
    pub journal_notes: Option<Seq<char>>,
    pub knowledge_entries: Seq<KnowledgeSigilView>,
    pub is_complete: bool,
    pub is_failure: bool,
}

impl View for SigilResult {
    type V = SigilView;

    open spec fn view(&self) -> SigilView {
        SigilView {
            task_done: opt_text(self.task_done),
            task_failed: opt_text(self.task_failed),
            next_model_hint: opt_text(self.next_model_hint),
            journal_notes: opt_text(self.journal_notes),
            knowledge_entries: knowledge_views(self.knowledge_entries@),
            is_complete: self.is_complete,
            is_failure: self.is_failure,
        }
    }
}

} // verus!
