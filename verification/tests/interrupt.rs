//! Interrupts and feedback.

use ralph::interrupt::{
    append_feedback_to_description, feedback_line, feedback_text, form_feedback, says_yes,
    should_continue, InterruptFlags, SHUTDOWN_CODE,
};

#[test]
fn append_feedback_single() {
    let desc = "Original task description.";
    let result = append_feedback_to_description(desc, "Focus on error handling", 3);
    assert!(result.starts_with("Original task description."));
    assert!(result.contains("**User Guidance (iteration 3):**"));
    assert!(result.contains("Focus on error handling"));
}

#[test]
fn append_feedback_stacks() {
    let desc = "Original.";
    let after_first = append_feedback_to_description(desc, "First feedback", 1);
    let after_second = append_feedback_to_description(&after_first, "Second feedback", 2);
    assert!(after_second.contains("**User Guidance (iteration 1):**"));
    assert!(after_second.contains("First feedback"));
    assert!(after_second.contains("**User Guidance (iteration 2):**"));
    assert!(after_second.contains("Second feedback"));
}

#[test]
fn is_interrupted_default_false() {
    let flags = InterruptFlags::new();
    assert!(!flags.is_interrupted());
}

#[test]
fn request_interrupt_sets_flag() {
    let mut flags = InterruptFlags::new();
    flags.clear_interrupt();
    flags.request_interrupt();
    assert!(flags.is_interrupted());
    flags.clear_interrupt();
}

#[test]
fn clear_interrupt_resets_signal_shutdown_flag() {
    let mut flags = InterruptFlags { interrupt: false, shutdown: true };
    flags.clear_interrupt();
    assert!(!flags.shutdown);
}

#[test]
fn a_second_signal_shuts_down() {
    let mut flags = InterruptFlags::new();
    assert_eq!(flags.on_signal(), None);
    assert!(flags.is_interrupted());
    assert_eq!(flags.on_signal(), Some(SHUTDOWN_CODE));
}

#[test]
fn a_signal_behind_a_requested_interrupt_does_not_shut_down() {
    let mut flags = InterruptFlags::new();
    flags.request_interrupt();
    assert_eq!(flags.on_signal(), None);
}

#[test]
fn feedback_ends_at_an_empty_line() {
    assert_eq!(feedback_line("keep going\n"), Some("keep going".to_string()));
    assert_eq!(feedback_line("\n"), None);
    assert_eq!(
        feedback_text(&vec!["one".to_string(), "two".to_string()]),
        Some("one\ntwo".to_string())
    );
    assert_eq!(feedback_text(&vec![]), None);
    assert_eq!(form_feedback("  ".to_string()), None);
}

#[test]
fn the_loop_goes_on_unless_told_not_to() {
    assert!(says_yes(""));
    assert!(says_yes("yes"));
    assert!(!says_yes("n"));
    assert!(should_continue("  Y\n"));
    assert!(should_continue("YES"));
    assert!(should_continue("\n"));
    assert!(!should_continue("n\n"));
}

#[test]
fn feedback_is_set_off_from_the_description() {
    let result = append_feedback_to_description("Do it.", "Carefully.", 12);
    assert_eq!(result, "Do it.\n\n---\n**User Guidance (iteration 12):**\nCarefully.\n---");
}
