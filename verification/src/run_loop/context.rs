//! What the agent is told about the task of an iteration.

use vstd::prelude::*;

use crate::acp::types::{
    blocker_views, BlockerContext, BlockerView, IterationContext, IterationView, ParentContext,
    RetryInfo, TaskInfo, TaskInfoView,
};
use crate::config::{Config, ConfigView, RunTarget, RunTargetView};
use crate::dag::model::{
    has_task, journal_views, log_views, pos, task_views, Db, DbView, JournalEntry, JournalView,
    Task, TaskView,
};
use crate::dag::queries::{blockers_of, logs_of};
use crate::journal::{journal_text, recent, render_journal_context};
use crate::knowledge::entry::{entry_views, EntryView, KnowledgeEntry};
use crate::knowledge::graph::scored_entries;
use crate::knowledge::matching::{
    few_tags, match_knowledge_entries, matched, scored_views, task_hints,
};
use crate::knowledge::render::{knowledge_text, render_knowledge_context};
use crate::text::basic::{clone_texts, opt_str, same, texts};

verus! {

/// The message of the latest log entry of a task, where it has one.
pub open spec fn last_message(db: DbView, id: Seq<char>) -> Option<Seq<char>> {
    let l = logs_of(db, id);
    if l.len() == 0 {
        None
    } else {
        Some(l.last().message)
    }
}

/// What is told of a completed blocker: its latest log message, or its
/// description where it has none.
pub open spec fn blocker_context(db: DbView, t: TaskView) -> BlockerView {
    BlockerView {
        task_id: t.id,
        title: t.title,
        summary: match last_message(db, t.id) {
            Some(m) => m,
            None => t.description,
        },
    }
}

/// What is told of the tasks that are done.
pub open spec fn completed_contexts(db: DbView, s: Seq<TaskView>) -> Seq<BlockerView>
    decreases s.len(),
{
    if s.len() == 0 {
        Seq::empty()
    } else if s.last().status == "done"@ {
        completed_contexts(db, s.drop_last()).push(blocker_context(db, s.last()))
    } else {
        completed_contexts(db, s.drop_last())
    }
}

/// Why the last attempt at a task failed.
pub open spec fn failure_reason(db: DbView, id: Seq<char>) -> Seq<char> {
    match last_message(db, id) {
        Some(m) => m,
        None => "No failure reason recorded"@,
    }
}

/// The retry limit as a signed number; one beyond 31 bits wraps.
pub open spec fn retry_limit(max_retries: u32) -> i32 {
    if max_retries <= i32::MAX {
        max_retries as i32
    } else {
        (max_retries - 0x1_0000_0000) as i32
    }
}

/// The retry limit as a signed number.
pub fn signed_limit(max_retries: u32) -> (r: i32)
    ensures
        r == retry_limit(max_retries),
{
    if max_retries <= i32::MAX as u32 {
        max_retries as i32
    } else {
        (max_retries as i64 - 0x1_0000_0000) as i32
    }
}

/// The name of the feature that a run targets.
pub open spec fn target_feature(target: Option<RunTargetView>) -> Option<Seq<char>> {
    match target {
        Some(RunTargetView::Feature(n)) => Some(n),
        _ => None,
    }
}

/// The files of the last of the entries.
pub open spec fn last_files(entries: Seq<JournalView>) -> Seq<Seq<char>> {
    if entries.len() == 0 {
        Seq::empty()
    } else {
        entries.last().files_modified
    }
}

/// The entries of a scored list.
pub open spec fn entries_of_scored(s: Seq<(EntryView, nat)>) -> Seq<EntryView> {
    s.map_values(|p: (EntryView, nat)| p.0)
}

/// The context of a task.
pub open spec fn iteration_context(
    db: DbView,
    t: TaskView,
    spec_content: Option<Seq<char>>,
    plan_content: Option<Seq<char>>,
    c: ConfigView,
    found: Seq<JournalView>,
    knowledge: Seq<EntryView>,
) -> IterationView {
    let entries = recent(db.journal, c.run_id, 5) + found;
    IterationView {
        task: TaskInfoView {
            task_id: t.id,
            title: t.title,
            description: t.description,
            parent: match t.parent_id {
                Some(p) => if has_task(db.tasks, p) {
                    let row = db.tasks[pos(db.tasks, p)];
                    Some((row.title, row.description))
                } else {
                    None
                },
                None => None,
            },
            completed_blockers: completed_contexts(db, blockers_of(db, t.id)),
        },
        spec_content,
        plan_content,
        retry_info: if t.retry_count > 0 {
            Some(
                (
                    (t.retry_count + 1) as i32,
                    retry_limit(c.max_retries),
                    failure_reason(db, t.id),
                ),
            )
        } else {
            None
        },
        run_id: c.run_id,
        journal_context: journal_text(entries),
        knowledge_context: knowledge_text(
            entries_of_scored(
                matched(
                    task_hints(
                        t.title,
                        t.description,
                        target_feature(c.run_target),
                        last_files(entries),
                    ),
                    knowledge,
                ),
            ),
            None,
        ),
    }
}

/// An optional text of its own.
fn owned(o: Option<&str>) -> (r: Option<String>)
    ensures
        crate::text::basic::opt_text(r) == opt_str(o),
{
    match o {
        Some(s) => Some(s.to_owned()),
        None => None,
    }
}

impl Db {
    /// The message of the latest log entry of a task.
    fn last_log_message(&self, task_id: &str) -> (r: Option<String>)
        ensures
            crate::text::basic::opt_text(r) == last_message(self@, task_id@),
    {
        let logs = self.get_task_logs(task_id);
        let ghost all = log_views(logs@);
        assert(all.len() == logs@.len());
        let n: usize = logs.len();
        if n == 0 {
            return None;
        }
        assert(all[n - 1] == logs@[n - 1]@);
        Some(logs[n - 1].message.clone())
    }

    /// The completed blockers (dependencies) of a task.
    pub fn get_completed_blockers(&self, task_id: &str) -> (r: Vec<BlockerContext>)
        requires
            self@.wf(),
        ensures
            blocker_views(r@) == completed_contexts(self@, blockers_of(self@, task_id@)),
    {
        let rows = self.get_task_blockers(task_id);
        let ghost all = task_views(rows@);
        let mut r: Vec<BlockerContext> = Vec::new();
        let mut i: usize = 0;
        assert(blocker_views(r@) =~= completed_contexts(self@, all.take(0)));
        while i < rows.len()
            invariant
                i <= rows@.len(),
                all == task_views(rows@),
                blocker_views(r@) == completed_contexts(self@, all.take(i as int)),
            decreases rows@.len() - i,
        {
            assert(all.take(i + 1).drop_last() =~= all.take(i as int));
            assert(all[i as int] == rows@[i as int]@);
            if same(rows[i].status.as_str(), "done") {
                let summary = match self.last_log_message(rows[i].id.as_str()) {
                    Some(m) => m,
                    None => rows[i].description.clone(),
                };
                let b = BlockerContext {
                    task_id: rows[i].id.clone(),
                    title: rows[i].title.clone(),
                    summary,
                };
                let ghost bv = b@;
                let ghost before = r@;
                r.push(b);
                assert(blocker_views(r@) =~= blocker_views(before).push(bv));
            }
            i = i + 1;
        }
        assert(all.take(all.len() as int) =~= all);
        r
    }

    /// The last failure reason from a task's logs.
    pub fn get_last_failure_reason(&self, task_id: &str) -> (r: String)
        ensures
            r@ == failure_reason(self@, task_id@),
    {
        match self.last_log_message(task_id) {
            Some(m) => m,
            None => "No failure reason recorded".to_owned(),
        }
    }

    /// Builds the full iteration context for the assigned task. `found` are the
    /// journal entries that the search gave, `knowledge` all entries of the
    /// knowledge base.
    pub fn build_iteration_context(
        &self,
        task: &Task,
        spec_content: Option<&str>,
        plan_content: Option<&str>,
        config: &Config,
        found: &Vec<JournalEntry>,
        knowledge: &Vec<KnowledgeEntry>,
    ) -> (r: IterationContext)
        requires
            self@.wf(),
            task.retry_count < i32::MAX,
            forall|i: int| 0 <= i < knowledge@.len() ==> few_tags(#[trigger] knowledge@[i]),
        ensures
            r@ == iteration_context(
                self@,
                task@,
                opt_str(spec_content),
                opt_str(plan_content),
                config@,
                journal_views(found@),
                entry_views(knowledge@),
            ),
    {
        let parent = match &task.parent_id {
            Some(p) => match self.get_task(p.as_str()) {
                Ok(row) => Some(ParentContext { title: row.title, description: row.description }),
                Err(_) => None,
            },
            None => None,
        };
        let completed_blockers = self.get_completed_blockers(task.id.as_str());
        let retry_info = if task.retry_count > 0 {
            Some(
                RetryInfo {
                    attempt: task.retry_count + 1,
                    max_retries: signed_limit(config.max_retries),
                    previous_failure_reason: self.get_last_failure_reason(task.id.as_str()),
                },
            )
        } else {
            None
        };
        let entries = self.select_journal_entries(config.run_id.as_str(), 5, found);
        let ghost ev = journal_views(entries@);
        assert(ev.len() == entries@.len());
        let journal_context = render_journal_context(&entries);
        let n: usize = entries.len();
        let mut files: Vec<String> = Vec::new();
        if n > 0 {
            assert(ev[n - 1] == entries@[n - 1]@);
            files = clone_texts(&entries[n - 1].files_modified);
        } else {
            assert(texts(files@) =~= Seq::empty());
        }
        let feature_name = match &config.run_target {
            Some(RunTarget::Feature(name)) => Some(name.as_str()),
            _ => None,
        };
        let hits = match_knowledge_entries(
            knowledge,
            task.title.as_str(),
            task.description.as_str(),
            feature_name,
            &files,
        );
        assert(scored_entries(hits@) =~= entries_of_scored(scored_views(hits@)));
        let knowledge_context = render_knowledge_context(&hits);
        IterationContext {
            task: TaskInfo {
                task_id: task.id.clone(),
                title: task.title.clone(),
                description: task.description.clone(),
                parent,
                completed_blockers,
            },
            spec_content: owned(spec_content),
            plan_content: owned(plan_content),
            retry_info,
            run_id: config.run_id.clone(),
            journal_context,
            knowledge_context,
        }
    }
}

} // verus!
