//! What holds of an iteration, by the rows of the task database.

use vstd::prelude::*;

use crate::acp::types::{BlockerView, SigilView, StopReason};
use crate::config::{ConfigView, RunTargetView};
use crate::dag::claims::{after_status, lemma_row_replaced, with_holder, with_log};
use crate::dag::model::{
    has_task, is_task_status, lemma_pos_of, lemma_status_names, pos, task_columns, DagErrorView,
    DbView, FeatureView, JournalView, LogView, TaskView,
};
use crate::dag::queries::{
    blockers_of, law_blockers_and_blocked, law_listing_order, law_selected_members, law_task_log,
    logs_of, selected, Select,
};
use crate::dag::transitions::{lemma_same_but_status_keeps, lemma_status_set_keeps};
use crate::feature::{feature_pos, name_pos};
use crate::interrupt::with_feedback;
use crate::journal::{journal_text, recent};
use crate::knowledge::entry::EntryView;
use crate::knowledge::matching::{matched, task_hints};
use crate::knowledge::render::knowledge_text;
use crate::order::text_le;
use crate::run_loop::context::{
    blocker_context, completed_contexts, entries_of_scored, failure_reason, iteration_context,
    last_files, last_message, retry_limit,
};
use crate::run_loop::settle::{
    after_feedback, counted_sigils, done_step, iteration_entry, ended_by, journal_outcome,
    journal_warning, reaction, recorded, settle_step, settle_text, Reaction, SettleErrorView,
    Settled,
};
use crate::run_loop::start::{claimed, has_id, resolved, run_feature, scoped_ready, Outcome};
use crate::seqs::{lemma_filter_members, lemma_filter_order};
use crate::text::number::decimal;
use crate::text::search::contains;

verus! {

/// After a failed verification of a task in progress, the task is pending with
/// one retry more exactly where its retries were fewer than allowed, and failed
/// exactly where they had reached what is allowed. Either way nobody holds it,
/// and the log tells why. Whether the agent's report or the whole answer is
/// handled makes no difference.
pub proof fn law_failed_verification(
    db: DbView,
    t: TaskView,
    max_retries: u32,
    agent: Seq<char>,
    reason: Seq<char>,
    now: Seq<char>,
)
    requires
        db.wf(),
        has_task(db.tasks, t.id),
        db.tasks[pos(db.tasks, t.id)].status == "in_progress"@,
        db.tasks[pos(db.tasks, t.id)].retry_count < i32::MAX,
        max_retries <= i32::MAX,
    ensures
        ({
            let before = db.tasks[pos(db.tasks, t.id)];
            let limit = retry_limit(max_retries);
            let step = done_step(db, t, limit, Some((false, reason)), now);
            let after = step.0.tasks[pos(db.tasks, t.id)];
            &&& settle_step(db, t, limit, agent, Reaction::Done, Some((false, reason)), now) == step
            &&& after.id == t.id
            &&& after.claimed_by is None
            &&& (after.status == "pending"@ && after.retry_count == before.retry_count + 1)
                <==> t.retry_count < max_retries
            &&& after.status == "failed"@ <==> t.retry_count >= max_retries
            &&& after.retry_count == before.retry_count <==> t.retry_count >= max_retries
            &&& step.1 is Ok
            &&& step.1->Ok_0 == if t.retry_count < max_retries {
                Settled::Retried
            } else {
                Settled::Exhausted
            }
            &&& t.retry_count < max_retries ==> after.verification_status == Some("failed"@)
            &&& step.0.logs.len() > db.logs.len()
            &&& step.0.logs[db.logs.len() as int] == (LogView {
                task_id: t.id,
                message: "Verification failed: "@ + reason,
                timestamp: now,
            })
            &&& step.0.logs.len() == db.logs.len() + if t.retry_count < max_retries {
                1int
            } else {
                2int
            }
        }),
{
    let limit = retry_limit(max_retries);
    lemma_status_names();
    lemma_pos_of(db.tasks, t.id);
    let logged = with_log(db, t.id, "Verification failed: "@ + reason, now);
    lemma_log_keeps(db, t.id, "Verification failed: "@ + reason, now);
    if t.retry_count < limit {
        lemma_status_set_keeps(logged, t.id, "pending"@, now);
    } else {
        let mid = after_status(logged, t.id, "failed"@, now);
        lemma_status_set_keeps(logged, t.id, "failed"@, now);
        lemma_same_but_status_keeps(logged, mid);
    }
}

/// A retry limit beyond 31 bits counts as negative: a task with a count of
/// retries that is not negative fails at its first failed verification.
pub proof fn law_huge_limit_allows_no_retry(
    db: DbView,
    t: TaskView,
    max_retries: u32,
    reason: Seq<char>,
    now: Seq<char>,
)
    requires
        db.wf(),
        has_task(db.tasks, t.id),
        db.tasks[pos(db.tasks, t.id)].status == "in_progress"@,
        max_retries > i32::MAX,
        t.retry_count >= 0,
    ensures
        ({
            let step = done_step(db, t, retry_limit(max_retries), Some((false, reason)), now);
            step.1 is Ok && step.1->Ok_0 == Settled::Exhausted
        }),
{
    lemma_status_names();
}

/// Two runs with different limits treat a failed verification of the same task
/// differently exactly where the task's count of retries lies between them.
pub proof fn law_limits_differ_between(
    db: DbView,
    t: TaskView,
    low: u32,
    high: u32,
    reason: Seq<char>,
    now: Seq<char>,
)
    requires
        db.wf(),
        has_task(db.tasks, t.id),
        db.tasks[pos(db.tasks, t.id)].status == "in_progress"@,
        db.tasks[pos(db.tasks, t.id)].retry_count < i32::MAX,
        low <= high <= i32::MAX,
    ensures
        ({
            let i = pos(db.tasks, t.id);
            let a = done_step(db, t, retry_limit(low), Some((false, reason)), now);
            let b = done_step(db, t, retry_limit(high), Some((false, reason)), now);
            &&& a.0.tasks[i].status != b.0.tasks[i].status <==> low <= t.retry_count < high
            &&& a.1 != b.1 <==> low <= t.retry_count < high
            &&& a.0.tasks[i].retry_count != b.0.tasks[i].retry_count <==> low <= t.retry_count
                < high
        }),
{
    lemma_status_names();
    law_failed_verification(db, t, low, Seq::empty(), reason, now);
    law_failed_verification(db, t, high, Seq::empty(), reason, now);
}

/// A task in progress that is reported as done, and whose verification passed or
/// was not asked for, is done and held by nobody; a passed verification is
/// recorded, and its count of retries stays.
pub proof fn law_report_completes(
    db: DbView,
    t: TaskView,
    limit: i32,
    agent: Seq<char>,
    verdict: Option<(bool, Seq<char>)>,
    now: Seq<char>,
)
    requires
        db.wf(),
        has_task(db.tasks, t.id),
        db.tasks[pos(db.tasks, t.id)].status == "in_progress"@,
        verdict is Some ==> (verdict->0).0,
    ensures
        ({
            let before = db.tasks[pos(db.tasks, t.id)];
            let step = settle_step(db, t, limit, agent, Reaction::Done, verdict, now);
            let after = step.0.tasks[pos(db.tasks, t.id)];
            &&& after.id == t.id
            &&& after.status == "done"@
            &&& after.claimed_by is None
            &&& after.retry_count == before.retry_count
            &&& after.verification_status == if verdict is Some {
                Some("passed"@)
            } else {
                before.verification_status
            }
            &&& step.0.logs == db.logs
            &&& step.1 is Ok
            &&& step.1->Ok_0 == if verdict is Some {
                Settled::Verified
            } else {
                Settled::Completed
            }
        }),
{
    lemma_status_names();
    lemma_pos_of(db.tasks, t.id);
    let mid = after_status(db, t.id, "done"@, now);
    lemma_status_set_keeps(db, t.id, "done"@, now);
    lemma_same_but_status_keeps(db, mid);
    let held = with_holder(mid, t.id, None);
    lemma_holder_keeps(mid, t.id, None);
}

/// A task in progress that the agent refused, or reports as failed, is failed and
/// held by nobody, and the log tells which of the two it was.
pub proof fn law_refusal_fails(
    db: DbView,
    t: TaskView,
    limit: i32,
    agent: Seq<char>,
    verdict: Option<(bool, Seq<char>)>,
    now: Seq<char>,
)
    requires
        db.wf(),
        has_task(db.tasks, t.id),
        db.tasks[pos(db.tasks, t.id)].status == "in_progress"@,
    ensures
        ({
            let i = pos(db.tasks, t.id);
            let refused = settle_step(db, t, limit, agent, Reaction::Refused, verdict, now);
            let failed = settle_step(db, t, limit, agent, Reaction::Failed, verdict, now);
            &&& refused.0.tasks == failed.0.tasks
            &&& failed.0.tasks[i].id == t.id
            &&& failed.0.tasks[i].status == "failed"@
            &&& failed.0.tasks[i].claimed_by is None
            &&& failed.0.tasks[i].retry_count == db.tasks[i].retry_count
            &&& failed.1 is Ok
            &&& failed.1->Ok_0 == Settled::Failed
            &&& refused.1 == failed.1
            &&& refused.0.logs == db.logs.push(
                LogView {
                    task_id: t.id,
                    message: "Agent refused the request"@,
                    timestamp: now,
                },
            )
            &&& failed.0.logs == db.logs.push(
                LogView {
                    task_id: t.id,
                    message: "Task marked failed by "@ + agent,
                    timestamp: now,
                },
            )
        }),
{
    lemma_status_names();
    lemma_pos_of(db.tasks, t.id);
    let mid = after_status(db, t.id, "failed"@, now);
    lemma_status_set_keeps(db, t.id, "failed"@, now);
    lemma_same_but_status_keeps(db, mid);
}

/// A task in progress whose agent stopped early, or reported nothing, is pending
/// again and held by nobody, and nothing else of the database changes. An answer
/// about another task, or one that gives up the run, changes nothing.
pub proof fn law_unsettled_answer_releases(
    db: DbView,
    t: TaskView,
    limit: i32,
    agent: Seq<char>,
    verdict: Option<(bool, Seq<char>)>,
    now: Seq<char>,
)
    requires
        db.wf(),
        has_task(db.tasks, t.id),
    ensures
        ({
            let i = pos(db.tasks, t.id);
            let early = settle_step(db, t, limit, agent, Reaction::Incomplete, verdict, now);
            let silent = settle_step(db, t, limit, agent, Reaction::Unreported, verdict, now);
            &&& early == silent
            &&& early.1 is Ok
            &&& early.1->Ok_0 == Settled::Released
            &&& db.tasks[i].status == "in_progress"@ ==> early.0 == (DbView {
                tasks: db.tasks.update(
                    i,
                    TaskView {
                        status: "pending"@,
                        claimed_by: None,
                        updated_at: now,
                        ..db.tasks[i]
                    },
                ),
                ..db
            })
            &&& db.tasks[i].status != "in_progress"@ ==> early.0 == db
        }),
        settle_step(db, t, limit, agent, Reaction::GiveUp, verdict, now).0 == db,
        settle_step(db, t, limit, agent, Reaction::WrongDone, verdict, now).0 == db,
        settle_step(db, t, limit, agent, Reaction::WrongFailed, verdict, now).0 == db,
{
    lemma_status_names();
    lemma_pos_of(db.tasks, t.id);
    let i = pos(db.tasks, t.id);
    if db.tasks[i].status == "in_progress"@ {
        let mid = after_status(db, t.id, "pending"@, now);
        lemma_status_set_keeps(db, t.id, "pending"@, now);
        lemma_same_but_status_keeps(db, mid);
        assert(with_holder(mid, t.id, None).tasks =~= db.tasks.update(
            i,
            TaskView { status: "pending"@, claimed_by: None, updated_at: now, ..db.tasks[i] },
        ));
    }
}

/// What an answer means. Unless the agent ended its turn, its text counts for
/// nothing: a refusal is a refusal, and anything else is an early stop. Where it
/// ended its turn, the failure promise counts before a report of success, and
/// that before a report of failure.
pub proof fn law_answer_means(id: Seq<char>, stop: StopReason, text: Seq<char>)
    ensures
        ({
            let s = counted_sigils(stop, text);
            let r = reaction(id, stop, s);
            let gives_up = contains(text, "<promise>FAILURE</promise>"@);
            &&& stop == StopReason::Refusal <==> r == Reaction::Refused
            &&& r == Reaction::Incomplete <==> stop != StopReason::Refusal && stop
                != StopReason::EndTurn
            &&& stop != StopReason::EndTurn ==> s.journal_notes is None
                && s.knowledge_entries.len() == 0 && s.next_model_hint is None && s.task_done is None
                && s.task_failed is None && !s.is_complete && !s.is_failure
            &&& stop == StopReason::EndTurn ==> {
                &&& s == crate::acp::sigils::sigils(text)
                &&& r == Reaction::GiveUp <==> gives_up
                &&& r == Reaction::Done <==> !gives_up && s.task_done == Some(id)
                &&& r == Reaction::WrongDone <==> !gives_up && s.task_done is Some && s.task_done
                    != Some(id)
                &&& r == Reaction::Failed <==> !gives_up && s.task_done is None && s.task_failed
                    == Some(id)
                &&& r == Reaction::WrongFailed <==> !gives_up && s.task_done is None
                    && s.task_failed is Some && s.task_failed != Some(id)
                &&& r == Reaction::Unreported <==> !gives_up && s.task_done is None
                    && s.task_failed is None
            }
        }),
{
}

/// The journal says of an iteration: "failed" of a refusal, "blocked" of an early
/// stop, "retried" where the task now has more retries than when it was given,
/// and else what was reported, or "blocked" where nothing was.
pub proof fn law_journal_outcome(db: DbView, t: TaskView, r: Reaction, s: SigilView, i: int)
    requires
        db.wf(),
        0 <= i < db.tasks.len(),
        db.tasks[i].id == t.id,
    ensures
        r == Reaction::Refused ==> journal_outcome(db, t, r, s) == "failed"@,
        r == Reaction::Incomplete ==> journal_outcome(db, t, r, s) == "blocked"@,
        r != Reaction::Refused && r != Reaction::Incomplete ==> {
            &&& db.tasks[i].retry_count > t.retry_count ==> journal_outcome(db, t, r, s)
                == "retried"@
            &&& db.tasks[i].retry_count <= t.retry_count ==> {
                &&& s.task_done is Some ==> journal_outcome(db, t, r, s) == "done"@
                &&& s.task_done is None && s.task_failed is Some ==> journal_outcome(db, t, r, s)
                    == "failed"@
                &&& s.task_done is None && s.task_failed is None ==> journal_outcome(db, t, r, s)
                    == "blocked"@
            }
        },
{
    crate::dag::model::lemma_pos(db.tasks, i);
}

/// The journal entry of an iteration tells the run, the iteration, the task, its
/// feature, the model and what was handed in; and it is put behind the others
/// under the next id, where the task and the feature that it names exist.
pub proof fn law_iteration_is_recorded(
    db: DbView,
    c: ConfigView,
    t: TaskView,
    outcome: Seq<char>,
    duration_secs: Seq<char>,
    files: Seq<Seq<char>>,
    notes: Option<Seq<char>>,
    now: Seq<char>,
)
    requires
        db.wf(),
        db.last_entry < i64::MAX,
        has_task(db.tasks, t.id),
        t.feature_id is Some ==> crate::dag::model::has_feature(db.features, t.feature_id->0),
    ensures
        ({
            let e = iteration_entry(c, t, outcome, duration_secs, files, notes, now);
            let after = recorded(db, e);
            let last = after.journal.last();
            &&& after.journal.len() == db.journal.len() + 1
            &&& after.journal.drop_last() == db.journal
            &&& last.id == db.last_entry + 1
            &&& last.run_id == c.run_id
            &&& last.iteration == c.iteration
            &&& last.task_id == Some(t.id)
            &&& last.feature_id == t.feature_id
            &&& last.outcome == outcome
            &&& last.model == Some(c.current_model)
            &&& last.duration_secs == duration_secs
            &&& last.files_modified == files
            &&& last.notes == notes
            &&& last.created_at == now
            &&& after.tasks == db.tasks && after.logs == db.logs && after.deps == db.deps
        }),
{
    let e = iteration_entry(c, t, outcome, duration_secs, files, notes, now);
    assert(recorded(db, e).journal.drop_last() =~= db.journal);
}

/// Feedback on a task is put behind its description and logged with its
/// iteration, and nothing else changes; without feedback nothing does.
pub proof fn law_feedback_is_recorded(
    db: DbView,
    t: TaskView,
    feedback: Seq<char>,
    iteration: u32,
    now: Seq<char>,
    k: int,
)
    requires
        db.wf(),
        has_task(db.tasks, t.id),
        0 <= k < db.tasks.len(),
    ensures
        ({
            let after = after_feedback(db, t, Some(feedback), iteration, now);
            &&& db.tasks[k].id != t.id ==> after.tasks[k] == db.tasks[k]
            &&& db.tasks[k].id == t.id ==> {
                &&& t.description.is_prefix_of(after.tasks[k].description)
                &&& contains(after.tasks[k].description, feedback)
                &&& after.tasks[k].status == db.tasks[k].status
                &&& after.tasks[k].title == db.tasks[k].title
                &&& after.tasks[k].retry_count == db.tasks[k].retry_count
            }
            &&& after.logs == db.logs.push(
                LogView {
                    task_id: t.id,
                    message: "User feedback (iteration "@ + decimal(iteration as nat) + "): "@
                        + feedback,
                    timestamp: now,
                },
            )
        }),
        after_feedback(db, t, None, iteration, now) == db,
{
    lemma_pos_of(db.tasks, t.id);
    crate::dag::model::lemma_pos(db.tasks, k);
    let told = with_feedback(t.description, feedback, iteration);
    crate::interrupt::law_feedback_stacks(t.description, feedback, iteration, feedback, iteration);
    let front = t.description + "\n\n---\n**User Guidance (iteration "@ + decimal(
        iteration as nat,
    ) + "):**\n"@;
    crate::review::lemma_part(front, feedback, "\n---"@);
}

/// The summary of a completed blocker is the message of one of its log entries,
/// and no entry of its log is later than that one; only a blocker without any
/// log entry is summarized by its description.
pub proof fn law_blocker_summary(db: DbView, t: TaskView)
    ensures
        ({
            let b = blocker_context(db, t);
            &&& b.task_id == t.id
            &&& b.title == t.title
            &&& (exists|k: int| 0 <= k < db.logs.len() && (#[trigger] db.logs[k]).task_id == t.id)
                ==> exists|k: int|
                0 <= k < db.logs.len() && (#[trigger] db.logs[k]).task_id == t.id
                    && db.logs[k].message == b.summary && forall|m: int|
                    0 <= m < db.logs.len() && (#[trigger] db.logs[m]).task_id == t.id ==> text_le(
                        db.logs[m].timestamp,
                        db.logs[k].timestamp,
                    )
            &&& (forall|k: int| 0 <= k < db.logs.len() ==> (#[trigger] db.logs[k]).task_id != t.id)
                ==> b.summary == t.description
        }),
{
    lemma_last_message(db, t.id);
}

/// The failure reason of a task is the message of one of its log entries, and no
/// entry of its log is later than that one; only a task without any log entry
/// has no reason recorded.
pub proof fn law_failure_reason(db: DbView, id: Seq<char>)
    ensures
        (exists|k: int| 0 <= k < db.logs.len() && (#[trigger] db.logs[k]).task_id == id)
            ==> exists|k: int|
            0 <= k < db.logs.len() && (#[trigger] db.logs[k]).task_id == id && db.logs[k].message
                == failure_reason(db, id) && forall|m: int|
                0 <= m < db.logs.len() && (#[trigger] db.logs[m]).task_id == id ==> text_le(
                    db.logs[m].timestamp,
                    db.logs[k].timestamp,
                ),
        (forall|k: int| 0 <= k < db.logs.len() ==> (#[trigger] db.logs[k]).task_id != id)
            ==> failure_reason(db, id) == "No failure reason recorded"@,
{
    lemma_last_message(db, id);
}

proof fn lemma_last_message(db: DbView, id: Seq<char>)
    ensures
        match last_message(db, id) {
            Some(m) => exists|k: int|
                0 <= k < db.logs.len() && (#[trigger] db.logs[k]).task_id == id
                    && db.logs[k].message == m && forall|n: int|
                    0 <= n < db.logs.len() && (#[trigger] db.logs[n]).task_id == id ==> text_le(
                        db.logs[n].timestamp,
                        db.logs[k].timestamp,
                    ),
            None => forall|k: int| 0 <= k < db.logs.len() ==> (#[trigger] db.logs[k]).task_id != id,
        },
{
    let l = logs_of(db, id);
    if l.len() == 0 {
        assert forall|k: int| 0 <= k < db.logs.len() implies (#[trigger] db.logs[k]).task_id
            != id by {
            law_task_log(db, id, db.logs[k], 0, 0);
            assert(db.logs.contains(db.logs[k]));
        }
    } else {
        let last = l.last();
        assert(l.contains(last));
        law_task_log(db, id, last, 0, 0);
        let k = choose|k: int| 0 <= k < db.logs.len() && db.logs[k] == last;
        assert forall|n: int| 0 <= n < db.logs.len() && (#[trigger] db.logs[n]).task_id
            == id implies text_le(db.logs[n].timestamp, db.logs[k].timestamp) by {
            assert(db.logs.contains(db.logs[n]));
            law_task_log(db, id, db.logs[n], 0, 0);
            let x = choose|x: int| 0 <= x < l.len() && l[x] == db.logs[n];
            if x < l.len() - 1 {
                law_task_log(db, id, last, x, l.len() - 1);
            } else {
                crate::order::lemma_text_le_total(last.timestamp, last.timestamp);
            }
        }
        assert(db.logs[k].task_id == id && db.logs[k].message == l.last().message);
    }
}

/// The completed blockers that the agent is told of are exactly the tasks that
/// are done and that a dependency names as blocking its task, each told of as
/// [`law_blocker_summary`] says.
pub proof fn law_completed_blockers(db: DbView, id: Seq<char>, b: BlockerView)
    requires
        db.wf(),
    ensures
        completed_contexts(db, blockers_of(db, id)).contains(b) <==> exists|t: TaskView|
            #[trigger] db.tasks.contains(t) && db.deps.contains((t.id, id)) && t.status == "done"@
                && b == blocker_context(db, t),
{
    let s = blockers_of(db, id);
    lemma_contexts(db, s, b);
    if completed_contexts(db, s).contains(b) {
        let t = choose|t: TaskView| #[trigger]
            s.contains(t) && t.status == "done"@ && b == blocker_context(db, t);
        law_blockers_and_blocked(db, id, t);
        assert(db.tasks.contains(t));
    }
    if exists|t: TaskView| #[trigger]
        db.tasks.contains(t) && db.deps.contains((t.id, id)) && t.status == "done"@ && b
            == blocker_context(db, t) {
        let t = choose|t: TaskView| #[trigger]
            db.tasks.contains(t) && db.deps.contains((t.id, id)) && t.status == "done"@ && b
                == blocker_context(db, t);
        law_blockers_and_blocked(db, id, t);
        assert(s.contains(t));
    }
}

proof fn lemma_contexts(db: DbView, s: Seq<TaskView>, b: BlockerView)
    ensures
        completed_contexts(db, s).contains(b) <==> exists|t: TaskView| #[trigger]
            s.contains(t) && t.status == "done"@ && b == blocker_context(db, t),
    decreases s.len(),
{
    if s.len() > 0 {
        let d = s.drop_last();
        let c = completed_contexts(db, d);
        lemma_contexts(db, d, b);
        assert(s =~= d.push(s.last()));
        if completed_contexts(db, s).contains(b) {
            if c.contains(b) {
                let t = choose|t: TaskView| #[trigger]
                    d.contains(t) && t.status == "done"@ && b == blocker_context(db, t);
                let i = choose|i: int| 0 <= i < d.len() && d[i] == t;
                assert(s[i] == t);
                assert(s.contains(t));
            } else {
                let i = choose|i: int|
                    0 <= i < completed_contexts(db, s).len() && completed_contexts(db, s)[i] == b;
                if i < c.len() {
                    assert(c[i] == b);
                }
                assert(s.contains(s.last()));
            }
        }
        if exists|t: TaskView| #[trigger]
            s.contains(t) && t.status == "done"@ && b == blocker_context(db, t) {
            let t = choose|t: TaskView| #[trigger]
                s.contains(t) && t.status == "done"@ && b == blocker_context(db, t);
            let i = choose|i: int| 0 <= i < s.len() && s[i] == t;
            let r = completed_contexts(db, s);
            if i < d.len() {
                assert(d[i] == t);
                assert(d.contains(t));
                let k = choose|k: int| 0 <= k < c.len() && c[k] == b;
                assert(r[k] == b);
            } else {
                assert(r[c.len() as int] == b);
            }
        }
    }
}

/// What the agent is told of its task: the row's own texts, the texts of the
/// parent's row where there is one, the contents handed in, and of a task that
/// is tried again which attempt it is, how many are allowed and why the last one
/// failed; of the journal the five latest entries of the run and those found;
/// and the knowledge that matches the task, the feature that the run names, and
/// the files of the last of those entries.
pub proof fn law_context_tells(
    db: DbView,
    t: TaskView,
    spec_content: Option<Seq<char>>,
    plan_content: Option<Seq<char>>,
    c: ConfigView,
    found: Seq<JournalView>,
    knowledge: Seq<EntryView>,
    j: int,
)
    requires
        db.wf(),
        t.retry_count < i32::MAX,
        c.max_retries <= i32::MAX,
    ensures
        ({
            let r = iteration_context(db, t, spec_content, plan_content, c, found, knowledge);
            &&& r.task.task_id == t.id
            &&& r.task.title == t.title
            &&& r.task.description == t.description
            &&& 0 <= j < db.tasks.len() && t.parent_id == Some(db.tasks[j].id) ==> r.task.parent
                == Some((db.tasks[j].title, db.tasks[j].description))
            &&& t.parent_id is None ==> r.task.parent is None
            &&& r.task.completed_blockers == completed_contexts(db, blockers_of(db, t.id))
            &&& r.spec_content == spec_content
            &&& r.plan_content == plan_content
            &&& r.run_id == c.run_id
            &&& r.retry_info is Some <==> t.retry_count >= 1
            &&& r.retry_info matches Some(info) ==> {
                &&& info.0 == t.retry_count + 1
                &&& info.1 == c.max_retries
                &&& info.2 == failure_reason(db, t.id)
            }
            &&& r.journal_context == journal_text(recent(db.journal, c.run_id, 5) + found)
            &&& r.knowledge_context == knowledge_text(
                entries_of_scored(
                    matched(
                        task_hints(
                            t.title,
                            t.description,
                            match c.run_target {
                                Some(RunTargetView::Feature(name)) => Some(name),
                                _ => None,
                            },
                            if found.len() > 0 {
                                found.last().files_modified
                            } else {
                                last_files(recent(db.journal, c.run_id, 5))
                            },
                        ),
                        knowledge,
                    ),
                ),
                None,
            )
        }),
{
    if 0 <= j < db.tasks.len() {
        crate::dag::model::lemma_pos(db.tasks, j);
    }
    let last = recent(db.journal, c.run_id, 5);
    if found.len() > 0 {
        assert((last + found).last() == found.last());
    } else {
        assert(last + found =~= last);
    }
}

/// The task that an iteration works on is one that the run is about, and none of
/// those that are ready has a lower priority number, or the same one and an
/// earlier time of creation.
pub proof fn law_most_urgent_first(
    db: DbView,
    target: Option<RunTargetView>,
    feature_id: Option<&str>,
    t: TaskView,
)
    requires
        scoped_ready(db, target, feature_id).contains(t),
    ensures
        scoped_ready(db, target, feature_id)[0].priority <= t.priority,
        scoped_ready(db, target, feature_id)[0].priority == t.priority ==> text_le(
            scoped_ready(db, target, feature_id)[0].created_at,
            t.created_at,
        ),
{
    let s = scoped_ready(db, target, feature_id);
    let y = choose|y: int| 0 <= y < s.len() && s[y] == t;
    crate::order::lemma_text_le_total(t.created_at, t.created_at);
    if y > 0 {
        match target {
            Some(RunTargetView::Feature(_)) => match feature_id {
                Some(f) => {
                    law_listing_order(db, Select::ReadyOf(f), 0, y);
                },
                None => {
                    law_listing_order(db, Select::Ready, 0, y);
                },
            },
            Some(RunTargetView::Task(id)) => {
                let r = lemma_filter_order(selected(db, Select::Ready), has_id(id), 0, y);
                law_listing_order(db, Select::Ready, r.0, r.1);
            },
            None => {
                law_listing_order(db, Select::Ready, 0, y);
            },
        }
    }
}

/// The run is about the ready tasks of the feature it names, about the one ready
/// task it names, or about all ready tasks, and no ready one of these is left
/// out.
pub proof fn law_scope(db: DbView, f: &str, name: Seq<char>, id: Seq<char>, t: TaskView)
    ensures
        scoped_ready(db, Some(RunTargetView::Feature(name)), Some(f)).contains(t) <==> selected(
            db,
            Select::Ready,
        ).contains(t) && t.feature_id == Some(f@),
        scoped_ready(db, Some(RunTargetView::Task(id)), None).contains(t) <==> selected(
            db,
            Select::Ready,
        ).contains(t) && t.id == id,
        scoped_ready(db, None, None).contains(t) <==> selected(db, Select::Ready).contains(t),
{
    law_selected_members(db, Select::Ready, t);
    law_selected_members(db, Select::ReadyOf(f), t);
    lemma_filter_members(selected(db, Select::Ready), has_id(id), t);
}

/// A run has nothing left exactly where no task is pending, in progress or
/// blocked.
pub proof fn law_resolved(db: DbView)
    requires
        db.wf(),
    ensures
        resolved(db) <==> forall|i: int|
            0 <= i < db.tasks.len() ==> (#[trigger] db.tasks[i]).status != "pending"@
                && db.tasks[i].status != "in_progress"@ && db.tasks[i].status != "blocked"@,
{
    lemma_status_names();
    assert forall|i: int| 0 <= i < db.tasks.len() implies is_task_status(
        (#[trigger] db.tasks[i]).status,
    ) by {
        assert(task_columns(db.tasks[i], db.features));
    }
}

/// Claiming a task puts its row in progress and names its holder, and touches
/// nothing else of the database.
pub proof fn law_claim_touches(db: DbView, id: Seq<char>, agent: Seq<char>, now: Seq<char>)
    requires
        db.wf(),
        has_task(db.tasks, id),
    ensures
        ({
            let i = pos(db.tasks, id);
            claimed(db, id, agent, now) == (DbView {
                tasks: db.tasks.update(
                    i,
                    TaskView {
                        status: "in_progress"@,
                        claimed_by: Some(agent),
                        updated_at: now,
                        ..db.tasks[i]
                    },
                ),
                ..db
            })
        }),
{
    lemma_status_names();
    lemma_pos_of(db.tasks, id);
    let i = pos(db.tasks, id);
    let mid = after_status(db, id, "in_progress"@, now);
    lemma_status_set_keeps(db, id, "in_progress"@, now);
    lemma_same_but_status_keeps(db, mid);
    assert(with_holder(mid, id, Some(agent)).tasks =~= db.tasks.update(
        i,
        TaskView {
            status: "in_progress"@,
            claimed_by: Some(agent),
            updated_at: now,
            ..db.tasks[i]
        },
    ));
}

proof fn lemma_log_keeps(db: DbView, id: Seq<char>, message: Seq<char>, now: Seq<char>)
    requires
        db.wf(),
        has_task(db.tasks, id),
    ensures
        with_log(db, id, message, now).wf(),
{
    let after = with_log(db, id, message, now);
    assert forall|k: int| 0 <= k < after.logs.len() implies has_task(
        after.tasks,
        (#[trigger] after.logs[k]).task_id,
    ) by {
        if k < db.logs.len() {
            assert(after.logs[k] == db.logs[k]);
        }
    }
}

proof fn lemma_holder_keeps(db: DbView, id: Seq<char>, who: Option<Seq<char>>)
    requires
        db.wf(),
        has_task(db.tasks, id),
    ensures
        has_task(with_holder(db, id, who).tasks, id),
        pos(with_holder(db, id, who).tasks, id) == pos(db.tasks, id),
{
    lemma_pos_of(db.tasks, id);
    let i = pos(db.tasks, id);
    assert(task_columns(db.tasks[i], db.features));
    lemma_row_replaced(db, i, TaskView { claimed_by: who, ..db.tasks[i] });
}

/// A run for a feature is about the feature of that name, and a run for a task
/// about the feature that its row names; a target that does not exist is refused.
pub proof fn law_feature_of_a_run(db: DbView, name: Seq<char>, id: Seq<char>, i: int)
    requires
        db.wf(),
    ensures
        run_feature(db, None) == Ok::<Option<FeatureView>, DagErrorView>(None),
        0 <= i < db.features.len() && db.features[i].feature.name == name ==> run_feature(
            db,
            Some(RunTargetView::Feature(name)),
        ) == Ok::<Option<FeatureView>, DagErrorView>(Some(db.features[i].feature)),
        (forall|k: int| 0 <= k < db.features.len() ==> (#[trigger] db.features[k]).feature.name != name)
            ==> run_feature(db, Some(RunTargetView::Feature(name))) is Err,
        0 <= i < db.tasks.len() && db.tasks[i].id == id ==> ({
            let r = run_feature(db, Some(RunTargetView::Task(id)));
            let fid = db.tasks[i].feature_id;
            &&& r is Ok
            &&& r->Ok_0 is Some <==> fid is Some
            &&& fid is Some ==> r->Ok_0->0.id == fid->0
        }),
        (forall|k: int| 0 <= k < db.tasks.len() ==> (#[trigger] db.tasks[k]).id != id)
            ==> run_feature(db, Some(RunTargetView::Task(id))) is Err,
{
    if 0 <= i < db.features.len() && db.features[i].feature.name == name {
        let j = name_pos(db.features, name);
        assert(0 <= j < db.features.len() && db.features[j].feature.name == name);
        assert(j == i);
    }
    if 0 <= i < db.tasks.len() && db.tasks[i].id == id {
        lemma_pos_of(db.tasks, id);
        assert(pos(db.tasks, id) == i);
        assert(task_columns(db.tasks[i], db.features));
        if db.tasks[i].feature_id is Some {
            let fid = db.tasks[i].feature_id->0;
            let j = feature_pos(db.features, fid);
            assert(0 <= j < db.features.len() && db.features[j].feature.id == fid);
        }
    }
}

/// Of an iteration that the agent ended, a warning comes exactly where the
/// journal does not take its entry.
pub proof fn law_lost_entry_is_told(db: DbView, e: JournalView, r: Reaction)
    requires
        db.last_entry <= i64::MAX,
    ensures
        journal_warning(db, e, r) is Some ==> recorded(db, e) == db,
        r != Reaction::Refused && r != Reaction::Incomplete && r != Reaction::GiveUp && recorded(
            db,
            e,
        ).journal.len() == db.journal.len() ==> journal_warning(db, e, r) is Some,
        r == Reaction::Refused || r == Reaction::Incomplete || r == Reaction::GiveUp
            ==> journal_warning(db, e, r) is None,
{
}

/// Only an answer that gives up ends the run, as a failure; what could not be
/// done with the task after any other answer is told.
pub proof fn law_giving_up_ends_the_run(r: Reaction, cause: DagErrorView)
    ensures
        ended_by(r) is Some <==> r == Reaction::GiveUp,
        ended_by(r) is Some ==> ended_by(r)->0 == Outcome::Failure,
        settle_text(SettleErrorView::Completing(cause)) == "Failed to complete task"@,
        settle_text(SettleErrorView::Retrying(cause)) == "Failed to retry task"@,
        settle_text(SettleErrorView::Failing(cause)) == "Failed to fail task"@,
        settle_text(SettleErrorView::Releasing(cause)) == "Failed to release task claim"@,
{
}

} // verus!
