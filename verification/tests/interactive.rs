//! Interactive sessions.

use ralph::acp::connection::join_prompt;
use ralph::acp::interactive::{
    next_action, MultilineInput, MultilineResult, SessionAction, SessionEvent,
};
use ralph::output::effect::Effect;

#[test]
fn test_first_prompt_concatenation() {
    let instructions = "You are a feature planner.";
    let initial_message = "Please help me plan this feature.";
    let prompt_text = join_prompt(instructions, initial_message);
    assert!(prompt_text.contains("You are a feature planner."));
    assert!(prompt_text.contains("---"));
    assert!(prompt_text.contains("Please help me plan this feature."));
    let sep_pos = prompt_text.find("---").unwrap();
    let instr_pos = prompt_text.find("You are a feature planner.").unwrap();
    assert!(instr_pos < sep_pos, "instructions should precede separator");
}

#[test]
fn test_multiline_result_variants_exist() {
    let _input = MultilineResult::Input("hello\nworld".to_string());
    let _exit = MultilineResult::Exit;
    let _interrupted = MultilineResult::Interrupted;
}

#[test]
fn lines_are_taken_until_an_empty_one() {
    let mut input = MultilineInput::new();
    assert!(input.take_line(Some("first\n")).is_none());
    assert!(input.take_line(Some("second\r\n")).is_none());
    match input.take_line(Some("\n")) {
        Some(MultilineResult::Input(text)) => assert_eq!(text, "first\nsecond"),
        _ => panic!("expected input"),
    }
}

#[test]
fn an_empty_first_line_leaves_the_session() {
    let mut input = MultilineInput::new();
    assert!(matches!(input.take_line(Some("\n")), Some(MultilineResult::Exit)));
    assert!(matches!(MultilineInput::new().take_line(None), Some(MultilineResult::Exit)));
}

#[test]
fn the_prompt_tells_first_lines_from_others() {
    let mut input = MultilineInput::new();
    let first = match input.prompt() {
        Effect::Print(spans) => spans.iter().map(|s| s.text.clone()).collect::<String>(),
        _ => panic!("expected a print"),
    };
    assert_eq!(first, "\n> ");
    input.take_line(Some("x\n"));
    let next = match input.prompt() {
        Effect::Print(spans) => spans.iter().map(|s| s.text.clone()).collect::<String>(),
        _ => panic!("expected a print"),
    };
    assert_eq!(next, "| ");
}

#[test]
fn sessions_end_when_the_agent_says_so() {
    let done = "ok <phase-complete>plan</phase-complete>".to_string();
    assert!(matches!(next_action(SessionEvent::Answered(done)), SessionAction::Finish));
    assert!(matches!(
        next_action(SessionEvent::Answered("more?".to_string())),
        SessionAction::Ask
    ));
    assert!(matches!(next_action(SessionEvent::Failed), SessionAction::Finish));
    assert!(matches!(next_action(SessionEvent::Interrupted), SessionAction::CancelAndFinish));
    let entered = SessionEvent::Entered(MultilineResult::Input("go".to_string()), false);
    match next_action(entered) {
        SessionAction::Send(text) => assert_eq!(text, "go"),
        _ => panic!("expected a prompt"),
    }
    assert!(matches!(
        next_action(SessionEvent::Entered(MultilineResult::Exit, false)),
        SessionAction::Finish
    ));
}
