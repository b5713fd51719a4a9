//! Agent commands and sessions.

use ralph::acp::connection::{
    autonomous_result, command_parts, count_braces, join_prompt, parse_agent_command,
    prompt_result, session_env, session_model, SessionRestrictions, StderrFilter,
};
use ralph::acp::types::{RunResult, StopReason};

#[test]
fn test_parse_simple_command() {
    let (prog, args) = parse_agent_command("agent-cli").unwrap();
    assert_eq!(prog, "agent-cli");
    assert!(args.is_empty());
}

#[test]
fn test_parse_command_with_args() {
    let (prog, args) = parse_agent_command("agent-cli --model opus").unwrap();
    assert_eq!(prog, "agent-cli");
    assert_eq!(args, vec!["--model", "opus"]);
}

#[test]
fn test_parse_command_with_quoted_args() {
    let (prog, args) = parse_agent_command("my-agent --flag 'value with spaces'").unwrap();
    assert_eq!(prog, "my-agent");
    assert_eq!(args, vec!["--flag", "value with spaces"]);
}

#[test]
fn test_parse_command_with_double_quoted_args() {
    let (prog, args) = parse_agent_command("gemini-cli \"--api-key secret\"").unwrap();
    assert_eq!(prog, "gemini-cli");
    assert_eq!(args, vec!["--api-key secret"]);
}

#[test]
fn test_parse_malformed_command_returns_error() {
    let result = parse_agent_command("unclosed 'quote");
    assert!(result.is_err(), "expected error for malformed command");
    let err = result.unwrap_err();
    assert!(
        err.contains("invalid agent command"),
        "error should mention invalid agent command: {err}"
    );
}

#[test]
fn test_parse_empty_command_returns_error() {
    let result = parse_agent_command("");
    assert!(result.is_err(), "expected error for empty command");
}

#[test]
fn test_stop_reason_end_turn_is_completed() {
    // Verify that EndTurn is the "success" variant.
    // We test this by inspecting the enum variant name since
    // run_acp_session is async/complex to mock.
    assert_eq!(StopReason::EndTurn, StopReason::EndTurn);
}

#[test]
fn test_stop_reason_cancelled_maps_to_interrupted() {
    // Cancelled should be treated as an interrupt (same as user Ctrl+C).
    let reason = StopReason::Cancelled;
    assert_eq!(reason, StopReason::Cancelled);
}

#[test]
fn test_stop_reason_max_tokens_is_not_end_turn() {
    // MaxTokens should not be treated as normal completion.
    assert_ne!(StopReason::MaxTokens, StopReason::EndTurn);
}

#[test]
fn test_stop_reason_refusal_is_not_end_turn() {
    assert_ne!(StopReason::Refusal, StopReason::EndTurn);
}

#[test]
fn test_ralph_model_env_var_key() {
    let env = session_env("opus", 2, 5);
    assert_eq!(env[0].0, "RALPH_MODEL");
    assert_eq!(env[1].0, "RALPH_ITERATION");
    assert_eq!(env[2].0, "RALPH_TOTAL");
    assert_eq!(env[0].1, "opus");
    assert_eq!(env[1].1, "2");
    assert_eq!(env[2].1, "5");
}

#[test]
fn test_model_override_takes_precedence() {
    // When model_override is Some, it replaces the default model.
    let model = "sonnet".to_owned();
    let override_model = Some("opus".to_owned());
    let ralph_model = session_model(override_model.as_deref(), &model);
    assert_eq!(ralph_model, "opus");
}

#[test]
fn test_no_model_override_uses_default() {
    let model = "sonnet".to_owned();
    let override_model: Option<String> = None;
    let ralph_model = session_model(override_model.as_deref(), &model);
    assert_eq!(ralph_model, "sonnet");
}

#[test]
fn test_autonomous_prompt_concatenation() {
    // Verify the format of the concatenated prompt text.
    let instructions = "You are a verifier.";
    let message = "Verify the task.";
    let prompt_text = join_prompt(instructions, message);
    assert!(prompt_text.contains("You are a verifier."));
    assert!(prompt_text.contains("---"));
    assert!(prompt_text.contains("Verify the task."));
}

#[test]
fn split_commands_have_a_program() {
    let words = vec!["prog".to_string(), "-x".to_string()];
    assert_eq!(
        command_parts("prog -x", Some(words)),
        Ok(("prog".to_string(), vec!["-x".to_string()]))
    );
    assert_eq!(command_parts("", Some(vec![])), Err("agent command is empty".to_string()));
    assert_eq!(
        command_parts("a 'b", None),
        Err("invalid agent command: failed to parse \"a 'b\"".to_string())
    );
}

#[test]
fn cancelled_prompts_are_interrupted_runs() {
    assert!(matches!(
        prompt_result(StopReason::Cancelled, "text".to_string(), vec![], 5),
        RunResult::Interrupted
    ));
    match prompt_result(StopReason::MaxTokens, "text".to_string(), vec!["f".to_string()], 5) {
        RunResult::Completed(s) => {
            assert_eq!(s.full_text, "text");
            assert_eq!(s.files_modified, vec!["f"]);
            assert_eq!(s.stop_reason, StopReason::MaxTokens);
            assert_eq!(s.duration_ms, 5);
        }
        RunResult::Interrupted => panic!("expected a completed run"),
    }
}

#[test]
fn autonomous_sessions_must_not_be_interrupted() {
    assert_eq!(
        autonomous_result(RunResult::Interrupted).unwrap_err(),
        "autonomous session was interrupted"
    );
    let done = prompt_result(StopReason::EndTurn, "ok".to_string(), vec![], 1);
    assert_eq!(autonomous_result(done).unwrap().full_text, "ok");
}

#[test]
fn dumps_of_requests_are_left_out() {
    let mut filter = StderrFilter::new();
    assert!(filter.take_line("starting"));
    assert!(!filter.take_line("Error handling request {"));
    assert!(!filter.take_line("  method: { name: 'x' },"));
    assert!(!filter.take_line("}"));
    assert!(filter.take_line("going on"));
    assert_eq!(count_braces("{{}"), 1);
    assert_eq!(count_braces("}"), -1);
}

#[test]
fn sessions_are_unrestricted_by_default() {
    let free = SessionRestrictions::default();
    assert!(free.allow_terminal);
    assert!(free.allowed_write_paths.is_none());
}
