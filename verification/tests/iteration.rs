//! One iteration of the loop, from the pick of a task to what becomes of it.

use ralph::acp::types::{StopReason, StreamingResult};
use ralph::agent::AgentNames;
use ralph::config::{Config, RunArgs, RunEnv, RunTarget};
use ralph::dag::model::{Db, JournalEntry, Task};
use ralph::interrupt::append_feedback_to_description;
use ralph::knowledge::entry::KnowledgeEntry;
use ralph::project::{ProjectConfig, RalphConfig};
use ralph::run_loop::context::signed_limit;
use ralph::run_loop::settle::{ends_run, read_answer, Next, Reaction, Reading, Settled, Verdict};
use ralph::run_loop::start::{Outcome, Start};

const T0: &str = "2024-01-01T00:00:00Z";
const T1: &str = "2024-01-01T00:00:01Z";
const T2: &str = "2024-01-01T00:00:02Z";

fn config(strategy: Option<&str>, limit: u32) -> Config {
    let args = RunArgs {
        prompt_file: None,
        once: false,
        no_sandbox: false,
        limit: Some(limit),
        allow: vec![],
        model_strategy: strategy.map(String::from),
        model: None,
        max_retries_override: None,
        skip_verify: false,
    };
    let project = ProjectConfig { root: "/p".to_string(), config: RalphConfig::default() };
    let env = RunEnv {
        agent: AgentNames {
            command: "agent-cli".to_string(),
            title: "Agent".to_string(),
            guide: "NOTES.md".to_string(),
        },
        iteration: None,
        total: None,
        agent_hash: 1,
        run_hash: 2,
    };
    Config::from_run_args(args, project, None, env).unwrap()
}

fn add(db: &mut Db, id: &str, title: &str) -> Task {
    let ids = vec![id.to_string()];
    db.add_task(title, Some("What to do"), None, None, 0, 3, &ids, T0).unwrap()
}

fn row(db: &Db, id: &str) -> Task {
    db.get_task(id).unwrap()
}

fn work(db: &mut Db) -> Task {
    match db.start_iteration(&None, None, "agent-1", T1) {
        Start::Work(t) => t,
        Start::Stop(o) => panic!("stopped with {:?}", o),
    }
}

fn answer(id: &str, text: &str, stop_reason: StopReason) -> Reading {
    let result = StreamingResult {
        full_text: text.to_string(),
        files_modified: vec![],
        duration_ms: 1500,
        stop_reason,
    };
    read_answer(id, &result)
}

fn settle(db: &mut Db, task: &Task, reading: &Reading, verdict: Option<&Verdict>) -> Settled {
    let files = vec!["src/a.rs".to_string()];
    let end = db.finish_iteration(&config(None, 0), task, reading, verdict, &files, "1.5", T2).unwrap();
    assert_eq!(end.warning, None);
    end.settled
}

#[test]
fn iterations_start_with_the_first_ready_task() {
    let mut db = Db::new();
    assert!(matches!(
        db.start_iteration(&None, None, "agent-1", T1),
        Start::Stop(Outcome::NoPlan)
    ));
    add(&mut db, "t-a", "A");
    add(&mut db, "t-b", "B");
    let t = work(&mut db);
    assert_eq!((t.id.as_str(), t.status.as_str()), ("t-a", "pending"));
    let held = row(&db, "t-a");
    assert_eq!((held.status.as_str(), held.claimed_by.as_deref()), ("in_progress", Some("agent-1")));
    let only = Some(RunTarget::Task("t-a".to_string()));
    assert!(matches!(
        db.start_iteration(&only, None, "agent-1", T1),
        Start::Stop(Outcome::Blocked)
    ));
    db.complete_task("t-a", T2).unwrap();
    assert_eq!(work(&mut db).id, "t-b");
    db.complete_task("t-b", T2).unwrap();
    assert!(matches!(
        db.start_iteration(&None, None, "agent-1", T1),
        Start::Stop(Outcome::Complete)
    ));
}

#[test]
fn the_feature_of_a_run() {
    let mut db = Db::new();
    db.create_feature("login", "f-1", T0).unwrap();
    add(&mut db, "t-a", "A");
    db.add_task("B", None, None, Some("f-1"), 0, 3, &vec!["t-b".to_string()], T0).unwrap();
    let named = |s: &str| Some(RunTarget::Feature(s.to_string()));
    let task = |s: &str| Some(RunTarget::Task(s.to_string()));
    assert_eq!(db.resolve_feature(&named("login")).unwrap().unwrap().id, "f-1");
    assert_eq!(db.resolve_feature(&task("t-b")).unwrap().unwrap().name, "login");
    assert!(db.resolve_feature(&task("t-a")).unwrap().is_none());
    assert!(db.resolve_feature(&None).unwrap().is_none());
    assert!(db.resolve_feature(&named("logout")).is_err());
    assert!(db.resolve_feature(&task("t-c")).is_err());
    let ready = db.get_scoped_ready_tasks(&named("login"), Some("f-1"));
    assert_eq!(ready.len(), 1);
    assert_eq!(ready[0].id, "t-b");
}

#[test]
fn answers_are_read_by_stop_reason_and_sigils() {
    let of = |text: &str, stop: StopReason| answer("t-a", text, stop).reaction;
    let end = StopReason::EndTurn;
    assert_eq!(of("<task-done>t-a</task-done>", end), Reaction::Done);
    assert_eq!(of("<task-done>t-b</task-done>", end), Reaction::WrongDone);
    assert_eq!(of("<task-failed>t-a</task-failed>", end), Reaction::Failed);
    assert_eq!(of("<task-failed>t-b</task-failed>", end), Reaction::WrongFailed);
    assert_eq!(of("Hm.", end), Reaction::Unreported);
    let both = "<task-done>t-a</task-done><promise>FAILURE</promise>";
    assert_eq!(of(both, end), Reaction::GiveUp);
    assert_eq!(of(both, StopReason::MaxTokens), Reaction::Incomplete);
    assert_eq!(of(both, StopReason::MaxTurnRequests), Reaction::Incomplete);
    assert_eq!(of(both, StopReason::Cancelled), Reaction::Incomplete);
    assert_eq!(of(both, StopReason::Refusal), Reaction::Refused);
    assert!(answer("t-a", both, StopReason::Refusal).sigils.task_done.is_none());
    assert_eq!(ends_run(Reaction::GiveUp), Some(Outcome::Failure));
    assert_eq!(ends_run(Reaction::Done), None);
}

#[test]
fn done_without_verification_completes_the_task() {
    let mut db = Db::new();
    add(&mut db, "t-a", "A");
    let t = work(&mut db);
    let reading = answer(
        "t-a",
        "<task-done>t-a</task-done><journal>Went well.</journal>",
        StopReason::EndTurn,
    );
    assert_eq!(settle(&mut db, &t, &reading, None), Settled::Completed);
    let after = row(&db, "t-a");
    assert_eq!((after.status.as_str(), after.claimed_by), ("done", None));
    let entry = &db.journal[0];
    assert_eq!(entry.id, 1);
    assert_eq!(entry.outcome, "done");
    assert_eq!(entry.notes.as_deref(), Some("Went well."));
    assert_eq!(entry.files_modified, ["src/a.rs"]);
    assert_eq!(entry.run_id, "run-00000002");
    assert_eq!((entry.duration_secs.as_str(), entry.cost_usd.as_str()), ("1.5", "0.0000"));
}

#[test]
fn verification_passes_or_costs_a_retry() {
    let mut db = Db::new();
    add(&mut db, "t-a", "A");
    let reading = answer("t-a", "<task-done>t-a</task-done>", StopReason::EndTurn);
    let failed = Verdict { passed: false, reason: "no tests".to_string() };
    for attempt in 1..=3 {
        let t = work(&mut db);
        assert_eq!(settle(&mut db, &t, &reading, Some(&failed)), Settled::Retried);
        let after = row(&db, "t-a");
        assert_eq!((after.status.as_str(), after.retry_count), ("pending", attempt));
        assert_eq!(after.verification_status.as_deref(), Some("failed"));
        assert_eq!(db.journal.last().unwrap().outcome, "retried");
    }
    let t = work(&mut db);
    assert_eq!(settle(&mut db, &t, &reading, Some(&failed)), Settled::Exhausted);
    assert_eq!(row(&db, "t-a").status, "failed");
    assert_eq!(
        db.get_last_failure_reason("t-a"),
        "Verification failed after 3 retries: no tests"
    );

    add(&mut db, "t-b", "B");
    let t = work(&mut db);
    let reading = answer("t-b", "<task-done>t-b</task-done>", StopReason::EndTurn);
    let passed = Verdict { passed: true, reason: String::new() };
    assert_eq!(settle(&mut db, &t, &reading, Some(&passed)), Settled::Verified);
    assert_eq!(row(&db, "t-b").verification_status.as_deref(), Some("passed"));
}

#[test]
fn other_answers_fail_or_release_the_task() {
    let mut db = Db::new();
    add(&mut db, "t-a", "A");
    let t = work(&mut db);
    let reading = answer("t-a", "Hm.", StopReason::EndTurn);
    assert_eq!(settle(&mut db, &t, &reading, None), Settled::Released);
    let after = row(&db, "t-a");
    assert_eq!((after.status.as_str(), after.claimed_by), ("pending", None));
    assert_eq!(db.journal.last().unwrap().outcome, "blocked");

    let t = work(&mut db);
    let reading = answer("t-a", "<task-done>t-z</task-done>", StopReason::EndTurn);
    assert_eq!(settle(&mut db, &t, &reading, None), Settled::Unchanged);
    assert_eq!(row(&db, "t-a").status, "in_progress");
    db.release_claim("t-a", T2).unwrap();

    let t = work(&mut db);
    let reading = answer("t-a", "", StopReason::Refusal);
    assert_eq!(settle(&mut db, &t, &reading, None), Settled::Failed);
    assert_eq!(db.get_last_failure_reason("t-a"), "Agent refused the request");
    assert_eq!(db.journal.last().unwrap().outcome, "failed");

    add(&mut db, "t-b", "B");
    let t = work(&mut db);
    let reading = answer("t-b", "<task-failed>t-b</task-failed>", StopReason::EndTurn);
    assert_eq!(settle(&mut db, &t, &reading, None), Settled::Failed);
    assert_eq!(db.get_last_failure_reason("t-b"), "Task marked failed by Agent");
}

#[test]
fn giving_up_leaves_no_journal_entry() {
    let mut db = Db::new();
    add(&mut db, "t-a", "A");
    let t = work(&mut db);
    let reading = answer("t-a", "<promise>FAILURE</promise>", StopReason::EndTurn);
    assert_eq!(settle(&mut db, &t, &reading, None), Settled::Unchanged);
    assert!(db.journal.is_empty());
}

#[test]
fn settling_an_unknown_task_is_an_error() {
    let mut db = Db::new();
    let t = add(&mut db, "t-a", "A");
    db.delete_task("t-a").unwrap();
    let reading = answer("t-a", "<task-done>t-a</task-done>", StopReason::EndTurn);
    let e = db
        .finish_iteration(&config(None, 0), &t, &reading, None, &vec![], "0.1", T2)
        .unwrap_err();
    assert_eq!(e.message(), "Failed to complete task");
    let reading = answer("t-a", "nothing", StopReason::EndTurn);
    let e = db
        .finish_iteration(&config(None, 0), &t, &reading, None, &vec![], "0.1", T2)
        .unwrap_err();
    assert_eq!(e.message(), "Failed to release task claim");
    let e = db.interrupt_iteration(&config(None, 0), &t, &None, T2).unwrap_err();
    assert_eq!(e.message(), "Failed to release task claim");
    let feedback = Some("Stop.".to_string());
    let e = db.interrupt_iteration(&config(None, 0), &t, &feedback, T2).unwrap_err();
    assert_eq!(e.message(), "Task 't-a' does not exist");
}

#[test]
fn each_step_names_itself_where_it_is_refused() {
    let mut db = Db::new();
    let t = add(&mut db, "t-a", "A");
    let c = config(None, 0);
    let failed = Verdict { passed: false, reason: "no tests".to_string() };
    let done = answer("t-a", "<task-done>t-a</task-done>", StopReason::EndTurn);
    let lost = answer("t-a", "<task-failed>t-a</task-failed>", StopReason::EndTurn);
    let end = |db: &mut Db, t: &Task, r: &Reading, v: Option<&Verdict>| {
        db.finish_iteration(&c, t, r, v, &vec![], "0.1", T2).unwrap_err().message()
    };
    assert_eq!(end(&mut db, &t, &done, None), "Failed to complete task");
    assert_eq!(end(&mut db, &t, &done, Some(&failed)), "Failed to retry task");
    assert_eq!(end(&mut db, &t, &lost, None), "Failed to fail task");
    let mut worn = row(&db, "t-a");
    worn.retry_count = 9;
    assert_eq!(end(&mut db, &worn, &done, Some(&failed)), "Failed to fail task");
    worn.id = "t-b".to_string();
    let other = answer("t-b", "<task-done>t-b</task-done>", StopReason::EndTurn);
    assert_eq!(end(&mut db, &worn, &other, Some(&failed)), "Task 't-b' does not exist");
}

#[test]
fn an_iteration_that_is_not_recorded_is_warned_of() {
    let mut db = Db::new();
    let t = add(&mut db, "t-a", "A");
    db.delete_task("t-a").unwrap();
    let reading = answer("t-a", "<task-done>t-b</task-done>", StopReason::EndTurn);
    let end = db
        .finish_iteration(&config(None, 0), &t, &reading, None, &vec![], "0.1", T2)
        .unwrap();
    assert_eq!(end.settled, Settled::Unchanged);
    assert_eq!(
        end.warning.as_deref(),
        Some("Warning: failed to write journal entry: FOREIGN KEY constraint failed")
    );
    assert!(db.journal.is_empty());
}

#[test]
fn an_interrupt_keeps_feedback_and_releases_the_task() {
    let mut db = Db::new();
    add(&mut db, "t-a", "A");
    let t = work(&mut db);
    let feedback = Some("Use the old parser.".to_string());
    db.interrupt_iteration(&config(None, 0), &t, &feedback, T2).unwrap();
    let after = row(&db, "t-a");
    assert_eq!((after.status.as_str(), after.claimed_by), ("pending", None));
    assert_eq!(
        after.description,
        append_feedback_to_description("What to do", "Use the old parser.", 1)
    );
    assert_eq!(
        db.get_last_failure_reason("t-a"),
        "User feedback (iteration 1): Use the old parser."
    );
    let entry = db.journal.last().unwrap();
    assert_eq!(entry.outcome, "interrupted");
    assert_eq!(entry.notes, feedback);
    assert_eq!(entry.duration_secs, "0.0");
}

#[test]
fn runs_advance_until_resolved_or_limited() {
    let mut db = Db::new();
    add(&mut db, "t-a", "A");
    let mut c = config(Some("escalate"), 2);
    assert_eq!(c.iteration, 1);
    match db.advance(&mut c, Some("opus"), "") {
        Next::Go(s) => {
            assert_eq!((s.model.as_str(), s.strategy_choice.as_str()), ("opus", "haiku"));
            assert!(s.was_overridden);
        }
        Next::Stop(o) => panic!("stopped with {:?}", o),
    }
    assert_eq!((c.iteration, c.current_model.as_str(), c.escalation_level), (2, "opus", 2));
    assert!(matches!(db.advance(&mut c, None, ""), Next::Stop(Outcome::LimitReached)));
    assert_eq!(c.iteration, 2);
    c.limit = 0;
    match db.advance(&mut c, None, "") {
        Next::Go(s) => assert_eq!((s.model.as_str(), s.was_overridden), ("opus", false)),
        Next::Stop(o) => panic!("stopped with {:?}", o),
    }
    db.claim_task("t-a", "agent-1", T1).unwrap();
    db.complete_task("t-a", T2).unwrap();
    assert!(matches!(db.advance(&mut c, None, ""), Next::Stop(Outcome::Complete)));
    assert_eq!(c.iteration, 3);
}

#[test]
fn the_context_tells_of_parents_blockers_retries_and_memory() {
    let mut db = Db::new();
    let parent = add(&mut db, "t-p", "Parent");
    let ids = vec!["t-a".to_string()];
    db.add_task("Write the parser", Some("Do it"), Some("t-p"), None, 0, 3, &ids, T0).unwrap();
    add(&mut db, "t-b", "Blocker");
    db.add_dependency("t-b", "t-a").unwrap();
    db.claim_task("t-b", "agent-1", T1).unwrap();
    db.complete_task("t-b", T2).unwrap();
    db.add_log("t-a", "Broke", T1).unwrap();
    let mut task = row(&db, "t-a");
    task.retry_count = 1;

    let c = config(None, 0);
    let past = JournalEntry {
        id: 0,
        run_id: c.run_id.clone(),
        iteration: 1,
        task_id: None,
        feature_id: None,
        outcome: "done".to_string(),
        model: None,
        duration_secs: "1.0".to_string(),
        cost_usd: "0.0000".to_string(),
        files_modified: vec!["src/lexer.rs".to_string()],
        notes: Some("Start with tokens.".to_string()),
        created_at: T1.to_string(),
    };
    db.insert_journal_entry(&past).unwrap();
    let entry = |title: &str, tag: &str| KnowledgeEntry {
        title: title.to_string(),
        tags: vec![tag.to_string()],
        feature: None,
        body: "Body.".to_string(),
        created_at: T0.to_string(),
        file_path: String::new(),
    };
    let known = vec![entry("Parsing", "parser"), entry("Tokens", "lexer"), entry("Css", "css")];
    let ctx = db.build_iteration_context(&task, Some("S"), None, &c, &vec![], &known);
    let told = ctx.task.parent.unwrap();
    assert_eq!((told.title.as_str(), told.description.as_str()), ("Parent", parent.description.as_str()));
    assert_eq!(ctx.task.completed_blockers.len(), 1);
    assert_eq!(ctx.task.completed_blockers[0].summary, "What to do");
    let retry = ctx.retry_info.unwrap();
    assert_eq!((retry.attempt, retry.max_retries), (2, 3));
    assert_eq!(retry.previous_failure_reason, "Broke");
    assert_eq!((ctx.spec_content.as_deref(), ctx.plan_content), (Some("S"), None));
    assert!(ctx.journal_context.contains("Start with tokens."));
    assert!(ctx.knowledge_context.contains("### Parsing"));
    assert!(ctx.knowledge_context.contains("### Tokens"));
    assert!(!ctx.knowledge_context.contains("### Css"));
}

#[test]
fn retry_limits_beyond_31_bits_wrap() {
    assert_eq!(signed_limit(3), 3);
    assert_eq!(signed_limit(u32::MAX), -1);
}
