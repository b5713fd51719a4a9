//! Document reviews.

use ralph::review::{
    build_review_args, build_review_prompt, parse_review_changes, parse_review_pass, read_review,
    review_document, DocumentKind, ReviewStep, MAX_REVIEW_ROUNDS,
};

#[test]
fn test_parse_review_pass() {
    assert!(parse_review_pass("All good <review-pass/> done"));
    assert!(!parse_review_pass("No pass sigil here"));
}

#[test]
fn test_parse_review_changes() {
    let text = "<review-changes>Added edge case handling section</review-changes>";
    assert_eq!(
        parse_review_changes(text),
        Some("Added edge case handling section".to_string())
    );
}

#[test]
fn test_parse_review_changes_empty() {
    assert_eq!(
        parse_review_changes("<review-changes></review-changes>"),
        None
    );
}

#[test]
fn test_parse_review_changes_absent() {
    assert_eq!(parse_review_changes("no sigil"), None);
}

#[test]
fn test_parse_review_changes_multiline() {
    let text =
        "<review-changes>\nAdded error handling.\nImproved data model.\n</review-changes>";
    let result = parse_review_changes(text).unwrap();
    assert!(result.contains("Added error handling."));
    assert!(result.contains("Improved data model."));
}

#[test]
fn test_document_kind_labels() {
    assert_eq!(DocumentKind::Spec.label(), "spec");
    assert_eq!(DocumentKind::Plan.label(), "plan");
}

#[test]
fn test_review_prompt_spec_criteria() {
    let prompt = build_review_prompt(&format!("/tmp/{}.md", DocumentKind::Spec.label()), DocumentKind::Spec, "test", None, "", 1, "NOTES.md");
    assert!(prompt.contains("Completeness"));
    assert!(prompt.contains("Testability"));
    assert!(prompt.contains("<review-pass/>"));
    assert!(prompt.contains("<review-changes>"));
}

#[test]
fn test_review_prompt_plan_criteria() {
    let prompt = build_review_prompt(
        "/tmp/plan.md",
        DocumentKind::Plan,
        "test",
        Some("Spec content here"),
        "",
        1, "NOTES.md");
    assert!(prompt.contains("Ordering"));
    assert!(prompt.contains("Task granularity"));
    assert!(prompt.contains("Spec content here"));
}

#[test]
fn test_review_prompt_round_note() {
    let r1 = build_review_prompt(&format!("/tmp/{}.md", DocumentKind::Spec.label()), DocumentKind::Spec, "test", None, "", 1, "NOTES.md");
    assert!(!r1.contains("review round"));

    let r2 = build_review_prompt(&format!("/tmp/{}.md", DocumentKind::Spec.label()), DocumentKind::Spec, "test", None, "", 2, "NOTES.md");
    assert!(r2.contains("review round 2"));
}

#[test]
fn test_review_prompt_includes_context() {
    let ctx = "## Project Context\n\nTest content";
    let prompt =
        build_review_prompt(&format!("/tmp/{}.md", DocumentKind::Spec.label()), DocumentKind::Spec, "test", None, ctx, 1, "NOTES.md");
    assert!(prompt.contains("Test content"));
}

#[test]
fn a_review_is_read_from_its_text() {
    let passed = read_review(Some("<review-pass/>"));
    assert!(passed.passed);
    let changed = read_review(Some("<review-changes>More detail</review-changes>"));
    assert!(!changed.passed);
    assert_eq!(changed.changes_summary, "More detail");
}

#[test]
fn a_review_goes_on_until_it_passes_or_rounds_run_out() {
    assert!(matches!(review_document(1, true), ReviewStep::Passed(1)));
    assert!(matches!(review_document(1, false), ReviewStep::Again(2)));
    assert!(matches!(review_document(MAX_REVIEW_ROUNDS, false), ReviewStep::Exhausted));
    assert!(matches!(review_document(MAX_REVIEW_ROUNDS, true), ReviewStep::Passed(_)));
}

#[test]
fn a_review_prompt_names_the_notes_for_agents() {
    let prompt = build_review_prompt("/d", DocumentKind::Spec, "f", None, "", 1, "NOTES.md");
    assert!(prompt.contains("conventions (check NOTES.md, existing code)?"));
}

#[test]
fn review_agents_get_the_prompt() {
    let args = build_review_args("the prompt", DocumentKind::Plan, "/tmp/plan.md");
    assert!(args.iter().any(|a| a.contains("the prompt")));
    assert!(args.iter().any(|a| a.contains("/tmp/plan.md")));
}
