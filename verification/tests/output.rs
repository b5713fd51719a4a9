//! Lines of a run, styles and log paths.

use ralph::acp::types::StopReason;
use ralph::agent::AgentNames;
use ralph::config::{Config, RunArgs, RunEnv};
use ralph::output::effect::{show_either, show_result_if_ui_active, show_unless_ui, Effect, UiEvent};
use ralph::output::formatter::{
    emit_iteration_divider, hyperlink, print_complete, print_dag_summary, print_error,
    print_failure, print_info, print_interrupted, print_iteration_info, print_limit_reached,
    print_log_location, print_max_retries_exhausted, print_retry, print_review_complete,
    print_review_max_rounds, print_review_result, print_review_round, print_review_start,
    print_separator, print_task_done, print_task_failed, print_task_incomplete,
    print_task_working, print_verification_failed, print_verification_passed,
    print_verification_start, print_warning, reaction_notice,
};
use ralph::output::logger::{joined_path, log_directory, setup_log_file};
use ralph::output::style::{dim_span, hued_span, plain_span, render, Hue, Span, Style};
use ralph::project::{ProjectConfig, RalphConfig};
use ralph::run_loop::settle::Reaction;

fn flat(spans: &[Span]) -> String {
    spans.iter().map(|s| s.text.as_str()).collect()
}

fn shown(effects: &[Effect]) -> Vec<String> {
    effects
        .iter()
        .map(|e| match e {
            Effect::Print(s) => format!("print: {}", flat(s)),
            Effect::Line(s) => format!("out: {}", flat(s)),
            Effect::ErrLine(s) => format!("err: {}", flat(s)),
            Effect::Flush => "flush".to_string(),
            Effect::Speak(s) => format!("say: {}", s),
            Effect::Ui(u) => format!("ui: {:?}", u),
            Effect::Explore(t, l) => format!("explore: {}: {}", t, l.join("|")),
        })
        .collect()
}

fn config(limit: Option<u32>) -> Config {
    let args = RunArgs {
        prompt_file: None,
        once: false,
        no_sandbox: false,
        limit,
        allow: vec![],
        model_strategy: None,
        model: None,
        max_retries_override: None,
        skip_verify: false,
    };
    let env = RunEnv {
        agent: AgentNames {
            command: "agent-cli".to_string(),
            title: "Agent".to_string(),
            guide: "NOTES.md".to_string(),
        },
        iteration: None,
        total: None,
        agent_hash: 0,
        run_hash: 0,
    };
    let project = ProjectConfig { root: "/p".to_string(), config: RalphConfig::default() };
    Config::from_run_args(args, project, None, env).unwrap()
}

#[test]
fn plain_notices() {
    assert_eq!(shown(&print_info(false, "m")), ["out: m"]);
    assert!(print_info(true, "m").is_empty());
    assert_eq!(shown(&print_warning(false, "m")), ["err: m"]);
    assert_eq!(shown(&print_error(false, "m")), ["err: m"]);
}

#[test]
fn task_lines_name_the_iteration() {
    let one = |e: Vec<Effect>| shown(&e).join("|");
    assert_eq!(one(print_task_done(false, 3, "t-1")), "out: [iter 3] Done: t-1");
    assert_eq!(one(print_task_failed(false, 3, "t-1")), "out: [iter 3] Failed: t-1");
    assert_eq!(
        one(print_task_incomplete(false, 3, "t-1")),
        "out: [iter 3] Incomplete (no sigil): t-1"
    );
    assert_eq!(
        one(print_task_working(false, 3, "t-1", "A")),
        "out: [iter 3] Working on: t-1 -- A"
    );
    assert_eq!(
        one(print_task_working(true, 3, "t-1", "A")),
        "ui: CurrentTask(\"Task: t-1 — A\")"
    );
    assert_eq!(one(print_verification_start(false, 3, "t-1")), "out: [iter 3] Verifying: t-1");
    assert_eq!(
        one(print_verification_passed(false, 3, "t-1")),
        "out: [iter 3] Done (verified): t-1"
    );
    assert_eq!(
        one(print_verification_failed(false, 3, "t-1", "no tests")),
        "out: [iter 3] Failed verification: t-1 — no tests"
    );
    assert_eq!(
        one(print_retry(false, 3, "t-1", 2, 3)),
        "out: [iter 3] Retrying t-1 (attempt 2/3)"
    );
    assert_eq!(
        one(print_max_retries_exhausted(false, 3, "t-1")),
        "out: [iter 3] Failed (max retries exhausted): t-1"
    );
    assert!(one(print_interrupted(false, 3, "t-1", "A")).contains("[iter 3] Interrupted t-1 — \"A\""));
}

#[test]
fn runs_are_summed_up() {
    assert_eq!(
        shown(&print_dag_summary(false, 4, 1, 2, 1)),
        ["out: DAG: 4 tasks, 1 ready, 2 done, 1 blocked"]
    );
    assert_eq!(
        shown(&print_dag_summary(true, 4, 1, 2, 1)),
        ["ui: DagSummary(\"DAG: 4 tasks, 1 ready, 2 done, 1 blocked\")"]
    );
    assert_eq!(shown(&print_complete(false))[0], "out: Tasks complete.");
    assert_eq!(
        shown(&print_failure(false)),
        [
            "err: Critical failure. See progress file for details.",
            "say: Ralph failed--critical failure.",
        ]
    );
    assert_eq!(shown(&print_limit_reached(false)), ["say: Ralph finished--limit hit."]);
}

#[test]
fn iterations_are_announced() {
    let line = |limit: Option<u32>| match &print_iteration_info(true, &config(limit))[0] {
        Effect::Ui(UiEvent::StatusLine(s)) => s.clone(),
        e => panic!("{:?}", e),
    };
    assert_eq!(line(None), "Iteration 1 (unlimited) | model=sonnet | strategy=cost-optimized");
    assert_eq!(line(Some(4)), "Iteration 1 of 4 | model=sonnet | strategy=cost-optimized");
    assert!(line(Some(1)).starts_with("Running once only"));
    let divider = |ui: bool| shown(&emit_iteration_divider(ui, 2));
    assert_eq!(divider(true), ["ui: IterationDivider(2)"]);
    assert!(divider(false).is_empty());
    assert_eq!(shown(&print_separator(false, 5)), ["out: -----"]);
}

#[test]
fn reviews_are_reported() {
    let one = |e: Vec<Effect>| shown(&e).join("|");
    assert!(one(print_review_start(false, "plan", "login")).contains("Reviewing plan for 'login'..."));
    assert!(one(print_review_round(false, 2, 5, "plan")).contains("plan review round 2/5"));
    assert!(one(print_review_result(false, true, "", "plan")).contains("no major issues found"));
    assert!(one(print_review_result(false, false, "Added tests", "plan")).contains("Added tests"));
    assert!(one(print_review_complete(false, "plan", "login", 1)).contains("finalized after 1 round."));
    assert!(one(print_review_complete(false, "plan", "login", 2)).contains("finalized after 2 rounds."));
    assert!(one(print_review_max_rounds(false, "plan", "login", 5))
        .contains("Review limit: 'login' plan stabilized after 5 rounds."));
}

#[test]
fn reactions_are_explained() {
    let say = |r: Reaction, s: StopReason| reaction_notice(r, s, "MaxTokens", "t-2", "t-1");
    assert_eq!(
        say(Reaction::Incomplete, StopReason::MaxTokens).unwrap(),
        "ralph: agent hit token/turn limit (MaxTokens), releasing task claim"
    );
    assert_eq!(
        say(Reaction::Incomplete, StopReason::Cancelled).unwrap(),
        "ralph: agent reported Cancelled stop reason (unexpected), releasing task claim"
    );
    assert!(say(Reaction::WrongDone, StopReason::EndTurn).unwrap().contains("t-2"));
    assert!(say(Reaction::Done, StopReason::EndTurn).is_none());
}

#[test]
fn styled_text_holds_its_text() {
    assert_eq!(render(&vec![plain_span("a"), plain_span("b")]), "ab");
    let text = render(&vec![hued_span(Hue::Red, "warm"), dim_span("far")]);
    assert!(text.contains("warm") && text.contains("far"));
    let bold = Span { style: Style::BoldYellow, text: "Stop".to_string() };
    assert!(render(&vec![bold]).contains("Stop"));
}

#[test]
fn effects_go_to_the_dashboard_or_the_terminal() {
    assert!(show_unless_ui(true, Effect::Flush).is_empty());
    assert_eq!(shown(&show_unless_ui(false, Effect::Flush)), ["flush"]);
    let event = || UiEvent::AgentText("x".to_string());
    assert_eq!(shown(&show_either(true, event(), Effect::Flush)), ["ui: AgentText(\"x\")"]);
    assert_eq!(shown(&show_either(false, event(), Effect::Flush)), ["flush"]);
    let lines = || vec!["a".to_string(), "b".to_string()];
    assert_eq!(shown(&show_result_if_ui_active(true, "T", lines())), ["explore: T: a|b"]);
    assert_eq!(shown(&show_result_if_ui_active(false, "T", lines())), ["out: a", "out: b"]);
}

#[test]
fn links_and_log_paths() {
    let link = "\x1b]8;;file:///l\x1b\\/l\x1b]8;;\x1b\\";
    assert!(shown(&hyperlink(false, "/l")).join("").contains(link));
    assert!(shown(&print_log_location(false, "Log", "/l")).join("").contains(link));
    assert_eq!(log_directory(Some("/t/"), Some("/r"), Some("p")), "/t/ralph/logs/p");
    assert_eq!(log_directory(None, Some("/r"), Some("p")), "/r/ralph/logs/p");
    assert_eq!(log_directory(None, None, None), "/tmp/ralph/logs/unknown");
    assert_eq!(setup_log_file("/l", "20240101"), "/l/20240101.log");
    assert_eq!(joined_path("/a", "/b"), "/b");
}
