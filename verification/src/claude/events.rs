//! Event types for an agent's stream-json output.

use vstd::prelude::*;

use crate::acp::summary::Field;
use crate::text::basic::opt_text;
use crate::text::search::{contains, has};

pub use crate::acp::sigils::{
    parse_journal_sigil, parse_knowledge_sigils, parse_next_model_hint, parse_task_done,
    parse_task_failed, COMPLETE_SIGIL, FAILURE_SIGIL,
};
pub use crate::acp::types::KnowledgeSigil;

verus! {

/// Parsed event from the agent's NDJSON stream.
#[derive(Debug)]
pub enum Event {
    Assistant(Assistant),
    ToolErrors(Vec<ToolResult>),
    Result(ResultEvent),
    /// Streaming delta from --include-partial-messages.
    StreamDelta(StreamDelta),
    Unknown,
}

/// A streaming text/thinking delta from --include-partial-messages.
#[derive(Debug)]
pub struct StreamDelta {
    /// "text_delta" or "thinking_delta"
    pub delta_type: String,
    pub text: String,
}

/// Assistant message with content blocks.
#[derive(Debug)]
pub struct Assistant {
    pub model: Option<String>,
    pub content: Vec<ContentBlock>,
}

/// Content block types.
#[derive(Debug)]
pub enum ContentBlock {
    Text { text: String },
    Thinking { thinking: String },
    ToolUse { id: String, name: String, input: Vec<Field> },
    Unknown,
}

/// Tool result from user message.
#[derive(Debug)]
pub struct ToolResult {
    pub tool_use_id: String,
    pub content: String,
    pub is_error: bool,
}

/// Final result event from the agent. The cost is held as decimal text.
#[derive(Debug)]
pub struct ResultEvent {
    pub result: Option<String>,
    pub duration_ms: u64,
    pub total_cost_usd: String,
    /// Model hint extracted from `<next-model>...</next-model>` sigil.
    /// Applies to the next iteration only; `None` if absent or malformed.
    pub next_model_hint: Option<String>,
    /// Task ID from `<task-done>...</task-done>` sigil, if present.
    pub task_done: Option<String>,
    /// Task ID from `<task-failed>...</task-failed>` sigil, if present.
    pub task_failed: Option<String>,
    /// Notes from `<journal>...</journal>` sigil, if present.
    pub journal_notes: Option<String>,
    /// Knowledge entries from `<knowledge>` sigils, if any.
    pub knowledge_entries: Vec<KnowledgeSigil>,
    /// File paths modified during streaming (populated from tool use events).
    pub files_modified: Vec<String>,
}

impl Default for ResultEvent {
    fn default() -> (r: Self)
        ensures
            r.result is None,
            r.duration_ms == 0,
            r.total_cost_usd@ == "0"@,
            r.next_model_hint is None,
            r.task_done is None,
            r.task_failed is None,
            r.journal_notes is None,
            r.knowledge_entries@.len() == 0,
            r.files_modified@.len() == 0,
    {
        ResultEvent {
            result: None,
            duration_ms: 0,
            total_cost_usd: "0".to_owned(),
            next_model_hint: None,
            task_done: None,
            task_failed: None,
            journal_notes: None,
            knowledge_entries: Vec::new(),
            files_modified: Vec::new(),
        }
    }
}

/// The text holds the sigil.
pub open spec fn result_has(result: Option<Seq<char>>, sigil: Seq<char>) -> bool {
    match result {
        Some(t) => contains(t, sigil),
        None => false,
    }
}

impl ResultEvent {
    /// Checks if result contains the COMPLETE sigil.
    pub fn is_complete(&self) -> (r: bool)
        ensures
            r == result_has(opt_text(self.result), COMPLETE_SIGIL@),
    {
        match &self.result {
            Some(t) => has(t.as_str(), COMPLETE_SIGIL),
            None => false,
        }
    }

    /// Checks if result contains the FAILURE sigil.
    pub fn is_failure(&self) -> (r: bool)
        ensures
            r == result_has(opt_text(self.result), FAILURE_SIGIL@),
    {
        match &self.result {
            Some(t) => has(t.as_str(), FAILURE_SIGIL),
            None => false,
        }
    }
}

} // verus!
