//! What follows from the agent's answer: the task's status, the journal entry
//! and the next iteration.

use vstd::prelude::*;

use crate::acp::sigils::{extract_sigils, sigils};
use crate::acp::types::{SigilResult, SigilView, StopReason, StreamingResult};
use crate::config::{Config, ConfigView, ModelStrategy};
use crate::dag::claims::{
    after_retry, after_status, lemma_row_replaced, with_holder, with_log, with_verification,
};
use crate::dag::crud::TaskUpdate;
use crate::dag::messages::error_text;
use crate::dag::model::{
    entry_refers, has_task, lemma_pos_of, lemma_status_names, pos, task_columns, DagError,
    DagErrorView, Db, DbView, JournalEntry, JournalView, Task, TaskView,
};
use crate::dag::transitions::{
    lemma_same_but_status_keeps, lemma_status_set_keeps, status_refusal,
};
use crate::interrupt::{append_feedback_to_description, with_feedback};
use crate::journal::with_entry;
use crate::run_loop::context::{retry_limit, signed_limit};
use crate::run_loop::start::{resolved, Outcome};
use crate::strategy::{choice, level_after, select_model, ModelSelection};
use crate::text::basic::{clone_opt, clone_texts, opt_str, opt_text, same, texts};
use crate::text::case::lowercase;
use crate::text::number::{decimal, decimal_int, decimal_int_text, decimal_text};

verus! {

/// What the agent's answer means for the task it was given.
#[derive(Debug, Clone, Copy, PartialEq, Eq, Structural)]
pub enum Reaction {
    /// The agent stopped early: the task is released.
    Incomplete,
    /// The agent refused: the task fails.
    Refused,
    /// The agent gave up on the whole: the run ends.
    GiveUp,
    /// The agent reports its task as done.
    Done,
    /// The agent reports another task as done.
    WrongDone,
    /// The agent reports its task as failed.
    Failed,
    /// The agent reports another task as failed.
    WrongFailed,
    /// The agent reports nothing: the task is released.
    Unreported,
}

/// What the answer means, by why the agent stopped and what its sigils say.
pub open spec fn reaction(id: Seq<char>, stop: StopReason, s: SigilView) -> Reaction {
    match stop {
        StopReason::EndTurn => if s.is_failure {
            Reaction::GiveUp
        } else {
            match s.task_done {
                Some(d) => if d == id {
                    Reaction::Done
                } else {
                    Reaction::WrongDone
                },
                None => match s.task_failed {
                    Some(f) => if f == id {
                        Reaction::Failed
                    } else {
                        Reaction::WrongFailed
                    },
                    None => Reaction::Unreported,
                },
            }
        },
        StopReason::Refusal => Reaction::Refused,
        _ => Reaction::Incomplete,
    }
}

/// No sigil at all.
pub open spec fn no_sigils() -> SigilView {
    SigilView {
        task_done: None,
        task_failed: None,
        next_model_hint: None,
        journal_notes: None,
        knowledge_entries: Seq::empty(),
        is_complete: false,
        is_failure: false,
    }
}

/// The sigils that count: those of an agent that ended its turn.
pub open spec fn counted_sigils(stop: StopReason, text: Seq<char>) -> SigilView {
    if stop == StopReason::EndTurn {
        sigils(text)
    } else {
        no_sigils()
    }
}

/// The agent's answer as it was read.
#[derive(Debug)]
pub struct Reading {
    pub reaction: Reaction,
    pub sigils: SigilResult,
}

/// Reads the agent's answer. Sigils count only where the agent ended its turn.
pub fn read_answer(task_id: &str, result: &StreamingResult) -> (r: Reading)
    ensures
        r.sigils@ == counted_sigils(result.stop_reason, result.full_text@),
        r.reaction == reaction(
            task_id@,
            result.stop_reason,
            counted_sigils(result.stop_reason, result.full_text@),
        ),
{
    match result.stop_reason {
        StopReason::EndTurn => {
            let found = extract_sigils(result.full_text.as_str());
            let reaction = if found.is_failure {
                Reaction::GiveUp
            } else {
                match &found.task_done {
                    Some(d) => if same(d.as_str(), task_id) {
                        Reaction::Done
                    } else {
                        Reaction::WrongDone
                    },
                    None => match &found.task_failed {
                        Some(f) => if same(f.as_str(), task_id) {
                            Reaction::Failed
                        } else {
                            Reaction::WrongFailed
                        },
                        None => Reaction::Unreported,
                    },
                }
            };
            Reading { reaction, sigils: found }
        },
        stop => {
            let none = SigilResult {
                task_done: None,
                task_failed: None,
                next_model_hint: None,
                journal_notes: None,
                knowledge_entries: Vec::new(),
                is_complete: false,
                is_failure: false,
            };
            assert(none@.knowledge_entries =~= Seq::empty());
            let reaction = if stop == StopReason::Refusal {
                Reaction::Refused
            } else {
                Reaction::Incomplete
            };
            Reading { reaction, sigils: none }
        },
    }
}

/// How the run ends by the agent's answer alone, where it does.
pub open spec fn ended_by(reaction: Reaction) -> Option<Outcome> {
    if reaction == Reaction::GiveUp {
        Some(Outcome::Failure)
    } else {
        None
    }
}

/// How the run ends by the agent's answer alone, where it does.
pub fn ends_run(reaction: Reaction) -> (r: Option<Outcome>)
    ensures
        r == ended_by(reaction),
{
    if reaction == Reaction::GiveUp {
        Some(Outcome::Failure)
    } else {
        None
    }
}

/// What the verification agent says of a task that was reported as done.
#[derive(Debug)]
pub struct Verdict {
    pub passed: bool,
    pub reason: String,
}

/// Which step on the task was refused, and why.
#[derive(Debug)]
pub enum SettleError {
    /// Completing the task.
    Completing(DagError),
    /// Having the task tried again.
    Retrying(DagError),
    /// Failing the task.
    Failing(DagError),
    /// Releasing the claim on the task.
    Releasing(DagError),
    /// Writing something down about the task.
    Noting(DagError),
}

/// Which step on the task was refused, and why, with texts by value.
pub enum SettleErrorView {
    Completing(DagErrorView),
    Retrying(DagErrorView),
    Failing(DagErrorView),
    Releasing(DagErrorView),
    Noting(DagErrorView),
}

impl View for SettleError {
    type V = SettleErrorView;

    open spec fn view(&self) -> SettleErrorView {
        match self {
            SettleError::Completing(e) => SettleErrorView::Completing(e@),
            SettleError::Retrying(e) => SettleErrorView::Retrying(e@),
            SettleError::Failing(e) => SettleErrorView::Failing(e@),
            SettleError::Releasing(e) => SettleErrorView::Releasing(e@),
            SettleError::Noting(e) => SettleErrorView::Noting(e@),
        }
    }
}

/// What is said of the refusal of a step.
pub open spec fn settle_text(e: SettleErrorView) -> Seq<char> {
    match e {
        SettleErrorView::Completing(_) => "Failed to complete task"@,
        SettleErrorView::Retrying(_) => "Failed to retry task"@,
        SettleErrorView::Failing(_) => "Failed to fail task"@,
        SettleErrorView::Releasing(_) => "Failed to release task claim"@,
        SettleErrorView::Noting(cause) => error_text(cause),
    }
}

impl SettleError {
    /// What is said of the refusal.
    pub fn message(&self) -> (r: String)
        ensures
            r@ == settle_text(self@),
    {
        match self {
            SettleError::Completing(_) => "Failed to complete task".to_owned(),
            SettleError::Retrying(_) => "Failed to retry task".to_owned(),
            SettleError::Failing(_) => "Failed to fail task".to_owned(),
            SettleError::Releasing(_) => "Failed to release task claim".to_owned(),
            SettleError::Noting(cause) => cause.message(),
        }
    }
}

/// What became of the task.
#[derive(Debug, Clone, Copy, PartialEq, Eq, Structural)]
pub enum Settled {
    /// It is done, without verification.
    Completed,
    /// It is done, and its verification passed.
    Verified,
    /// Its verification failed, and it is tried again.
    Retried,
    /// Its verification failed once too often.
    Exhausted,
    /// It failed.
    Failed,
    /// It was released.
    Released,
    /// It stays as it is.
    Unchanged,
}

/// The database after a task was completed.
pub open spec fn completed(db: DbView, id: Seq<char>, now: Seq<char>) -> DbView {
    with_holder(after_status(db, id, "done"@, now), id, None)
}

/// The database after a task failed.
pub open spec fn failed(db: DbView, id: Seq<char>, reason: Seq<char>, now: Seq<char>) -> DbView {
    with_log(with_holder(after_status(db, id, "failed"@, now), id, None), id, reason, now)
}

/// The database after the claim on a task was released.
pub open spec fn released(db: DbView, id: Seq<char>, now: Seq<char>) -> DbView {
    if db.tasks[pos(db.tasks, id)].status == "in_progress"@ {
        with_holder(after_status(db, id, "pending"@, now), id, None)
    } else {
        db
    }
}

/// The database after a task was reported as done, and what became of it.
/// Without a verdict it is complete. A failed verification is logged; then the
/// task is tried again, where it has retries left, or it fails.
pub open spec fn done_step(
    db: DbView,
    t: TaskView,
    limit: i32,
    verdict: Option<(bool, Seq<char>)>,
    now: Seq<char>,
) -> (DbView, Result<Settled, SettleErrorView>) {
    let id = t.id;
    match verdict {
        None => match status_refusal(db.tasks, id, "done"@) {
            Some(e) => (db, Err(SettleErrorView::Completing(e))),
            None => (completed(db, id, now), Ok(Settled::Completed)),
        },
        Some((true, _)) => match status_refusal(db.tasks, id, "done"@) {
            Some(e) => (db, Err(SettleErrorView::Completing(e))),
            None => (
                with_verification(completed(db, id, now), id, "passed"@),
                Ok(Settled::Verified),
            ),
        },
        Some((false, reason)) => if !has_task(db.tasks, id) {
            (db, Err(SettleErrorView::Noting(DagErrorView::NoTask(id))))
        } else {
            let logged = with_log(db, id, "Verification failed: "@ + reason, now);
            if t.retry_count < limit {
                match status_refusal(db.tasks, id, "pending"@) {
                    Some(e) => (logged, Err(SettleErrorView::Retrying(e))),
                    None => (after_retry(logged, id, now), Ok(Settled::Retried)),
                }
            } else {
                match status_refusal(db.tasks, id, "failed"@) {
                    Some(e) => (logged, Err(SettleErrorView::Failing(e))),
                    None => (
                        failed(
                            logged,
                            id,
                            "Verification failed after "@ + decimal_int(limit as int)
                                + " retries: "@ + reason,
                            now,
                        ),
                        Ok(Settled::Exhausted),
                    ),
                }
            }
        },
    }
}

/// The database after the agent's answer, and what became of the task.
pub open spec fn settle_step(
    db: DbView,
    t: TaskView,
    limit: i32,
    agent: Seq<char>,
    reaction: Reaction,
    verdict: Option<(bool, Seq<char>)>,
    now: Seq<char>,
) -> (DbView, Result<Settled, SettleErrorView>) {
    let id = t.id;
    match reaction {
        Reaction::Incomplete | Reaction::Unreported => if has_task(db.tasks, id) {
            (released(db, id, now), Ok(Settled::Released))
        } else {
            (db, Err(SettleErrorView::Releasing(DagErrorView::NoRow(id))))
        },
        Reaction::Refused => match status_refusal(db.tasks, id, "failed"@) {
            Some(e) => (db, Err(SettleErrorView::Failing(e))),
            None => (failed(db, id, "Agent refused the request"@, now), Ok(Settled::Failed)),
        },
        Reaction::Failed => match status_refusal(db.tasks, id, "failed"@) {
            Some(e) => (db, Err(SettleErrorView::Failing(e))),
            None => (failed(db, id, "Task marked failed by "@ + agent, now), Ok(Settled::Failed)),
        },
        Reaction::Done => done_step(db, t, limit, verdict, now),
        Reaction::GiveUp | Reaction::WrongDone | Reaction::WrongFailed => (
            db,
            Ok(Settled::Unchanged),
        ),
    }
}

/// What the journal says of the iteration.
pub open spec fn journal_outcome(
    db: DbView,
    t: TaskView,
    reaction: Reaction,
    s: SigilView,
) -> Seq<char> {
    if reaction == Reaction::Refused {
        "failed"@
    } else if reaction == Reaction::Incomplete {
        "blocked"@
    } else if has_task(db.tasks, t.id) && db.tasks[pos(db.tasks, t.id)].retry_count
        > t.retry_count {
        "retried"@
    } else if s.task_done is Some {
        "done"@
    } else if s.task_failed is Some {
        "failed"@
    } else {
        "blocked"@
    }
}

/// The journal entry of an iteration. Agents do not report their cost.
pub open spec fn iteration_entry(
    c: ConfigView,
    t: TaskView,
    outcome: Seq<char>,
    duration_secs: Seq<char>,
    files: Seq<Seq<char>>,
    notes: Option<Seq<char>>,
    now: Seq<char>,
) -> JournalView {
    JournalView {
        id: 0,
        run_id: c.run_id,
        iteration: c.iteration,
        task_id: Some(t.id),
        feature_id: t.feature_id,
        outcome,
        model: Some(c.current_model),
        duration_secs,
        cost_usd: "0.0000"@,
        files_modified: files,
        notes,
        created_at: now,
    }
}

/// The database with one journal entry more, where the entry can be inserted.
pub open spec fn recorded(db: DbView, e: JournalView) -> DbView {
    if db.last_entry < i64::MAX && entry_refers(e, db.tasks, db.features) {
        with_entry(db, e)
    } else {
        db
    }
}

/// What is said where the journal entry of an iteration could not be inserted.
/// Of an iteration that the agent did not end itself, nothing is said.
pub open spec fn journal_warning(db: DbView, e: JournalView, reaction: Reaction) -> Option<
    Seq<char>,
> {
    let head = "Warning: failed to write journal entry: "@;
    if reaction == Reaction::Refused || reaction == Reaction::Incomplete || reaction
        == Reaction::GiveUp {
        None
    } else if db.last_entry == i64::MAX {
        Some(head + error_text(DagErrorView::Full))
    } else if !entry_refers(e, db.tasks, db.features) {
        Some(head + error_text(DagErrorView::Constraint))
    } else {
        None
    }
}

/// How an iteration ended: what became of the task, and a line of warning where
/// the journal does not tell of it.
#[derive(Debug)]
pub struct Finished {
    pub settled: Settled,
    pub warning: Option<String>,
}

/// The claim on a task, and all else of its row but the time of its last
/// change, is as before once the claim is released.
pub proof fn law_release_undoes_claim(
    db: DbView,
    id: Seq<char>,
    agent: Seq<char>,
    t1: Seq<char>,
    t2: Seq<char>,
)
    requires
        db.wf(),
        has_task(db.tasks, id),
        db.tasks[pos(db.tasks, id)].status == "pending"@,
        db.tasks[pos(db.tasks, id)].claimed_by is None,
    ensures
        ({
            let i = pos(db.tasks, id);
            released(crate::run_loop::start::claimed(db, id, agent, t1), id, t2) == (DbView {
                tasks: db.tasks.update(i, TaskView { updated_at: t2, ..db.tasks[i] }),
                ..db
            })
        }),
{
    lemma_status_names();
    lemma_pos_of(db.tasks, id);
    let i = pos(db.tasks, id);
    let mid = after_status(db, id, "in_progress"@, t1);
    lemma_status_set_keeps(db, id, "in_progress"@, t1);
    lemma_same_but_status_keeps(db, mid);
    let held = with_holder(mid, id, Some(agent));
    lemma_holder(mid, id, Some(agent));
    let back = after_status(held, id, "pending"@, t2);
    lemma_status_set_keeps(held, id, "pending"@, t2);
    lemma_same_but_status_keeps(held, back);
    let end = with_holder(back, id, None);
    assert(end.tasks =~= db.tasks.update(i, TaskView { updated_at: t2, ..db.tasks[i] }));
}

/// Another holder changes no id, so every task stays where it is.
proof fn lemma_holder(db: DbView, id: Seq<char>, who: Option<Seq<char>>)
    requires
        db.wf(),
        has_task(db.tasks, id),
    ensures
        with_holder(db, id, who).wf(),
        forall|x: Seq<char>| #[trigger]
            has_task(db.tasks, x) ==> has_task(with_holder(db, id, who).tasks, x) && pos(
                db.tasks,
                x,
            ) == pos(with_holder(db, id, who).tasks, x),
{
    lemma_pos_of(db.tasks, id);
    let i = pos(db.tasks, id);
    assert(task_columns(db.tasks[i], db.features));
    lemma_row_replaced(db, i, TaskView { claimed_by: who, ..db.tasks[i] });
}

/// What a verdict says.
pub open spec fn verdict_view(v: Option<&Verdict>) -> Option<(bool, Seq<char>)> {
    match v {
        Some(v) => Some((v.passed, v.reason@)),
        None => None,
    }
}

/// What is logged of a task that the agent gave up.
fn failed_by(agent: &str) -> (r: String)
    ensures
        r@ == "Task marked failed by "@ + agent@,
{
    let mut r = "Task marked failed by ".to_owned();
    r.append(agent);
    r
}

impl Db {
    /// Handles a task that was reported as done: completes it, or, where its
    /// verification failed, has it tried again or fails it.
    pub fn handle_task_done(
        &mut self,
        task: &Task,
        max_retries: u32,
        verdict: Option<&Verdict>,
        now: &str,
    ) -> (r: Result<Settled, SettleError>)
        requires
            old(self)@.wf(),
            has_task(old(self)@.tasks, task.id@) ==> old(self)@.tasks[pos(
                old(self)@.tasks,
                task.id@,
            )].retry_count < i32::MAX,
        ensures
            final(self)@.wf(),
            ({
                let step = done_step(
                    old(self)@,
                    task@,
                    retry_limit(max_retries),
                    verdict_view(verdict),
                    now@,
                );
                &&& final(self)@ == step.0
                &&& match step.1 {
                    Ok(s) => r == Ok::<Settled, SettleError>(s),
                    Err(e) => r is Err && r->Err_0@ == e,
                }
            }),
    {
        let id = task.id.as_str();
        let ghost db = self@;
        match verdict {
            None => match self.complete_task(id, now) {
                Err(e) => Err(SettleError::Completing(e)),
                Ok(_) => Ok(Settled::Completed),
            },
            Some(v) => {
                if v.passed {
                    match self.complete_task(id, now) {
                        Err(e) => Err(SettleError::Completing(e)),
                        Ok(_) => {
                            proof {
                                lemma_status_names();
                                let mid = after_status(db, id@, "done"@, now@);
                                lemma_status_set_keeps(db, id@, "done"@, now@);
                                lemma_same_but_status_keeps(db, mid);
                                lemma_holder(mid, id@, None);
                            }
                            self.put_verification(id, true);
                            Ok(Settled::Verified)
                        },
                    }
                } else {
                    let mut message = "Verification failed: ".to_owned();
                    message.append(v.reason.as_str());
                    match self.add_log(id, message.as_str(), now) {
                        Err(e) => Err(SettleError::Noting(e)),
                        Ok(_) => {
                            let limit: i32 = signed_limit(max_retries);
                            if task.retry_count < limit {
                                match self.retry_task(id, now) {
                                    Err(e) => Err(SettleError::Retrying(e)),
                                    Ok(_) => Ok(Settled::Retried),
                                }
                            } else {
                                let mut last = "Verification failed after ".to_owned();
                                last.append(decimal_int_text(limit as i64).as_str());
                                last.append(" retries: ");
                                last.append(v.reason.as_str());
                                match self.fail_task(id, last.as_str(), now, now) {
                                    Err(e) => Err(SettleError::Failing(e)),
                                    Ok(_) => Ok(Settled::Exhausted),
                                }
                            }
                        },
                    }
                }
            },
        }
    }

    /// Changes the task as the agent's answer asks for.
    pub fn settle_task(
        &mut self,
        task: &Task,
        max_retries: u32,
        agent: &str,
        reaction: Reaction,
        verdict: Option<&Verdict>,
        now: &str,
    ) -> (r: Result<Settled, SettleError>)
        requires
            old(self)@.wf(),
            has_task(old(self)@.tasks, task.id@) ==> old(self)@.tasks[pos(
                old(self)@.tasks,
                task.id@,
            )].retry_count < i32::MAX,
        ensures
            final(self)@.wf(),
            ({
                let step = settle_step(
                    old(self)@,
                    task@,
                    retry_limit(max_retries),
                    agent@,
                    reaction,
                    verdict_view(verdict),
                    now@,
                );
                &&& final(self)@ == step.0
                &&& match step.1 {
                    Ok(s) => r == Ok::<Settled, SettleError>(s),
                    Err(e) => r is Err && r->Err_0@ == e,
                }
            }),
    {
        let id = task.id.as_str();
        match reaction {
            Reaction::Incomplete | Reaction::Unreported => match self.release_claim(id, now) {
                Err(e) => Err(SettleError::Releasing(e)),
                Ok(_) => Ok(Settled::Released),
            },
            Reaction::Refused => match self.fail_task(id, "Agent refused the request", now, now) {
                Err(e) => Err(SettleError::Failing(e)),
                Ok(_) => Ok(Settled::Failed),
            },
            Reaction::Failed => match self.fail_task(
                id,
                failed_by(agent).as_str(),
                now,
                now,
            ) {
                Err(e) => Err(SettleError::Failing(e)),
                Ok(_) => Ok(Settled::Failed),
            },
            Reaction::Done => self.handle_task_done(task, max_retries, verdict, now),
            Reaction::GiveUp | Reaction::WrongDone | Reaction::WrongFailed => Ok(
                Settled::Unchanged,
            ),
        }
    }

    /// Ends an iteration: changes the task as the agent's answer asks for and
    /// records the iteration in the journal. A run that ends on a failure
    /// records nothing.
    pub fn finish_iteration(
        &mut self,
        config: &Config,
        task: &Task,
        reading: &Reading,
        verdict: Option<&Verdict>,
        files_modified: &Vec<String>,
        duration_secs: &str,
        now: &str,
    ) -> (r: Result<Finished, SettleError>)
        requires
            old(self)@.wf(),
            has_task(old(self)@.tasks, task.id@) ==> old(self)@.tasks[pos(
                old(self)@.tasks,
                task.id@,
            )].retry_count < i32::MAX,
        ensures
            final(self)@.wf(),
            ({
                let step = settle_step(
                    old(self)@,
                    task@,
                    retry_limit(config.max_retries),
                    config@.agent.title,
                    reading.reaction,
                    verdict_view(verdict),
                    now@,
                );
                let entry = iteration_entry(
                    config@,
                    task@,
                    journal_outcome(step.0, task@, reading.reaction, reading.sigils@),
                    duration_secs@,
                    texts(files_modified@),
                    reading.sigils@.journal_notes,
                    now@,
                );
                match step.1 {
                    Ok(s) => {
                        &&& r is Ok
                        &&& r->Ok_0.settled == s
                        &&& opt_text(r->Ok_0.warning) == journal_warning(
                            step.0,
                            entry,
                            reading.reaction,
                        )
                        &&& final(self)@ == if reading.reaction == Reaction::GiveUp {
                            step.0
                        } else {
                            recorded(step.0, entry)
                        }
                    },
                    Err(e) => r is Err && r->Err_0@ == e && final(self)@ == step.0,
                }
            }),
    {
        let settled = match self.settle_task(
            task,
            config.max_retries,
            config.agent.title.as_str(),
            reading.reaction,
            verdict,
            now,
        ) {
            Err(e) => {
                return Err(e);
            },
            Ok(s) => s,
        };
        if reading.reaction == Reaction::GiveUp {
            return Ok(Finished { settled, warning: None });
        }
        let outcome = self.outcome_of(task, reading);
        let entry = JournalEntry {
            id: 0,
            run_id: config.run_id.clone(),
            iteration: config.iteration,
            task_id: Some(task.id.clone()),
            feature_id: clone_opt(&task.feature_id),
            outcome,
            model: Some(config.current_model.clone()),
            duration_secs: duration_secs.to_owned(),
            cost_usd: "0.0000".to_owned(),
            files_modified: clone_texts(files_modified),
            notes: clone_opt(&reading.sigils.journal_notes),
            created_at: now.to_owned(),
        };
        let warning = match self.insert_journal_entry(&entry) {
            Ok(_) => None,
            Err(e) => if reading.reaction == Reaction::Refused || reading.reaction
                == Reaction::Incomplete {
                None
            } else {
                let mut line = "Warning: failed to write journal entry: ".to_owned();
                line.append(e.message().as_str());
                Some(line)
            },
        };
        Ok(Finished { settled, warning })
    }

    /// What the journal says of the iteration.
    fn outcome_of(&self, task: &Task, reading: &Reading) -> (r: String)
        requires
            self@.wf(),
        ensures
            r@ == journal_outcome(self@, task@, reading.reaction, reading.sigils@),
    {
        if reading.reaction == Reaction::Refused {
            return "failed".to_owned();
        }
        if reading.reaction == Reaction::Incomplete {
            return "blocked".to_owned();
        }
        match self.get_task(task.id.as_str()) {
            Ok(t) => {
                if t.retry_count > task.retry_count {
                    return "retried".to_owned();
                }
            },
            Err(_) => {},
        }
        if reading.sigils.task_done.is_some() {
            "done".to_owned()
        } else if reading.sigils.task_failed.is_some() {
            "failed".to_owned()
        } else {
            "blocked".to_owned()
        }
    }

    /// Handles an interrupted iteration: feedback is put behind the task's
    /// description and logged, the claim is released, and the journal tells of
    /// the interrupt.
    pub fn interrupt_iteration(
        &mut self,
        config: &Config,
        task: &Task,
        feedback: &Option<String>,
        now: &str,
    ) -> (r: Result<(), SettleError>)
        requires
            old(self)@.wf(),
        ensures
            final(self)@.wf(),
            !has_task(old(self)@.tasks, task.id@) ==> r is Err && r->Err_0@ == (match feedback {
                Some(_) => SettleErrorView::Noting(DagErrorView::NoTask(task.id@)),
                None => SettleErrorView::Releasing(DagErrorView::NoRow(task.id@)),
            }) && final(self)@ == old(self)@,
            has_task(old(self)@.tasks, task.id@) ==> r is Ok && final(self)@ == recorded(
                released(
                    after_feedback(
                        old(self)@,
                        task@,
                        opt_text(*feedback),
                        config.iteration,
                        now@,
                    ),
                    task.id@,
                    now@,
                ),
                iteration_entry(
                    config@,
                    task@,
                    "interrupted"@,
                    "0.0"@,
                    Seq::empty(),
                    opt_text(*feedback),
                    now@,
                ),
            ),
    {
        let id = task.id.as_str();
        match feedback {
            Some(fb) => {
                let description = append_feedback_to_description(
                    task.description.as_str(),
                    fb.as_str(),
                    config.iteration,
                );
                let fields = TaskUpdate {
                    title: None,
                    description: Some(description),
                    priority: None,
                };
                let ghost db = self@;
                match self.update_task(id, fields, now) {
                    Err(e) => {
                        return Err(SettleError::Noting(e));
                    },
                    Ok(_) => {},
                }
                proof {
                    lemma_pos_of(db.tasks, id@);
                    let i = pos(db.tasks, id@);
                    assert(self@.tasks[i].id == id@);
                }
                let mut message = "User feedback (iteration ".to_owned();
                message.append(decimal_text(config.iteration as u64).as_str());
                message.append("): ");
                message.append(fb.as_str());
                match self.add_log(id, message.as_str(), now) {
                    Err(e) => {
                        return Err(SettleError::Noting(e));
                    },
                    Ok(_) => {},
                }
                assert(has_task(self@.tasks, id@));
            },
            None => {},
        }
        match self.release_claim(id, now) {
            Err(e) => {
                return Err(SettleError::Releasing(e));
            },
            Ok(_) => {},
        }
        let entry = JournalEntry {
            id: 0,
            run_id: config.run_id.clone(),
            iteration: config.iteration,
            task_id: Some(task.id.clone()),
            feature_id: clone_opt(&task.feature_id),
            outcome: "interrupted".to_owned(),
            model: Some(config.current_model.clone()),
            duration_secs: "0.0".to_owned(),
            cost_usd: "0.0000".to_owned(),
            files_modified: Vec::new(),
            notes: clone_opt(feedback),
            created_at: now.to_owned(),
        };
        assert(entry@.files_modified =~= Seq::empty());
        let recorded = self.insert_journal_entry(&entry);
        Ok(())
    }

    /// Goes on to the next iteration, or says how the run ends: it is complete
    /// once every task is resolved, and it ends at the iteration limit. The
    /// model of the next iteration is selected by the strategy, the agent's
    /// hint and the progress.
    pub fn advance(
        &self,
        config: &mut Config,
        next_model_hint: Option<&str>,
        progress: &str,
    ) -> (r: Next)
        requires
            old(config)@.model_strategy == ModelStrategy::Fixed ==> old(config)@.model is Some,
            old(config)@.iteration < u32::MAX,
        ensures
            r is Go && old(config)@.limit > 0 ==> final(config)@.iteration <= old(config)@.limit,
            ({
                let c = old(config)@;
                let next = ConfigView { iteration: (c.iteration + 1) as u32, ..c };
                if resolved(self@) {
                    r == Next::Stop(Outcome::Complete) && final(config)@ == c
                } else if c.limit > 0 && c.iteration >= c.limit {
                    r == Next::Stop(Outcome::LimitReached) && final(config)@ == c
                } else {
                    &&& r is Go
                    &&& r->Go_0.strategy_choice@ == choice(
                        next,
                        progress@,
                        lowercase(progress@),
                    )
                    &&& opt_text(r->Go_0.hint) == opt_str(next_model_hint)
                    &&& r->Go_0.model@ == (match next_model_hint {
                        Some(h) => h@,
                        None => r->Go_0.strategy_choice@,
                    })
                    &&& r->Go_0.was_overridden == (next_model_hint is Some
                        && next_model_hint->0@ != r->Go_0.strategy_choice@)
                    &&& final(config)@ == (ConfigView {
                        escalation_level: level_after(
                            next,
                            opt_str(next_model_hint),
                            lowercase(progress@),
                        ),
                        current_model: r->Go_0.model@,
                        ..next
                    })
                }
            }),
    {
        if self.all_resolved() {
            return Next::Stop(Outcome::Complete);
        }
        if config.limit_reached() {
            return Next::Stop(Outcome::LimitReached);
        }
        config.iteration = config.iteration + 1;
        let selection = select_model(config, next_model_hint, progress);
        config.current_model = selection.model.clone();
        Next::Go(selection)
    }
}

/// The database after feedback on a task was recorded.
pub open spec fn after_feedback(
    db: DbView,
    t: TaskView,
    feedback: Option<Seq<char>>,
    iteration: u32,
    now: Seq<char>,
) -> DbView {
    match feedback {
        Some(fb) => {
            let i = pos(db.tasks, t.id);
            with_log(
                DbView {
                    tasks: db.tasks.update(
                        i,
                        TaskView {
                            description: with_feedback(t.description, fb, iteration),
                            updated_at: now,
                            ..db.tasks[i]
                        },
                    ),
                    ..db
                },
                t.id,
                "User feedback (iteration "@ + decimal(iteration as nat) + "): "@ + fb,
                now,
            )
        },
        None => db,
    }
}

/// How the loop goes on.
#[derive(Debug)]
pub enum Next {
    /// The run ends.
    Stop(Outcome),
    /// The next iteration follows, with the model that was selected.
    Go(ModelSelection),
}

} // verus!
