//! Prompts of the feature workflow, and the ways a run can end.

use ralph::dag::ids::generate_feature_id;
use ralph::dag::model::Db;
use ralph::feature_prompts::{
    build_feature_plan_system_prompt, build_feature_spec_system_prompt, build_initial_message_plan,
    build_initial_message_spec, build_initial_message_task_new, build_task_new_system_prompt,
    truncate_context, MAX_CONTEXT_FILE_CHARS,
};
use ralph::review::DocumentKind;
use ralph::run_loop::start::Outcome;

#[test]
fn outcome_variants_exist() {
    let _complete = Outcome::Complete;
    let _failure = Outcome::Failure;
    let _limit = Outcome::LimitReached;
    let _blocked = Outcome::Blocked;
    let _noplan = Outcome::NoPlan;
    let _interrupted = Outcome::Interrupted;
}

#[test]
fn outcome_complete_vs_failure() {
    assert_ne!(Outcome::Complete, Outcome::Failure);
}

#[test]
fn outcome_blocked_vs_noplan() {
    assert_ne!(Outcome::Blocked, Outcome::NoPlan);
}

#[test]
fn test_truncate_under_limit() {
    let content = "Hello, world!";
    let result = truncate_context(content, 100, "test.md");
    assert_eq!(result, content);
}

#[test]
fn test_truncate_over_limit() {
    let content = "a".repeat(15_000);
    let result = truncate_context(&content, MAX_CONTEXT_FILE_CHARS, "test.md");
    assert!(result.contains("[Truncated -- full file at test.md]"));
    assert!(result.chars().count() > MAX_CONTEXT_FILE_CHARS);
    assert!(result.chars().count() < MAX_CONTEXT_FILE_CHARS + 100);
}

#[test]
fn test_truncate_unicode_safe() {
    // Create string with multi-byte unicode chars
    let content = "🎉".repeat(15_000);
    let result = truncate_context(&content, MAX_CONTEXT_FILE_CHARS, "test.md");
    // Should not panic, and should contain truncation notice
    assert!(result.contains("[Truncated"));
}

#[test]
fn test_gather_context_empty_project() {
    let db = Db::new();

    let context = db.gather_project_context("NOTES.md", None, None, false);
    assert!(context.contains("## Project Context"));
    assert!(context.contains("[Not found]"));
}

#[test]
fn test_gather_context_with_claude_md() {
    let db = Db::new();

    let notes = "This is test project context.";

    let context = db.gather_project_context("NOTES.md", Some(notes), None, false);
    assert!(context.contains("## Project Context"));
    assert!(context.contains(notes));
}

#[test]
fn test_gather_context_truncates_large_file() {
    let db = Db::new();

    let notes = "x".repeat(15_000);

    let context = db.gather_project_context("NOTES.md", Some(&notes), None, false);
    assert!(context.contains("[Truncated -- full file at NOTES.md]"));
}

#[test]
fn test_gather_context_with_features() {
    let mut db = Db::new();

    // Create features in the database with different statuses
    let _feat1 = db
        .create_feature("feature-one", &generate_feature_id(1, 1), "2024-01-01T00:00:01Z")
        .unwrap();
    let feat2 = db
        .create_feature("feature-two", &generate_feature_id(1, 2), "2024-01-01T00:00:02Z")
        .unwrap();

    // Update one feature to have spec and plan paths
    let spec_path = format!("{}.md", DocumentKind::Spec.label());
    db.update_feature_spec_path(&feat2.id, &spec_path, "2024-01-01T00:00:09Z");
    db.update_feature_plan_path(&feat2.id, "plan.md", "2024-01-01T00:00:09Z");
    db.update_feature_status(&feat2.id, "ready", "2024-01-01T00:00:09Z").unwrap();

    let context = db.gather_project_context("NOTES.md", None, None, false);

    // Verify the context contains the feature table
    assert!(context.contains("## Project Context"));
    assert!(context.contains("### Existing Features"));
    assert!(context.contains("| Name | Status | Has Spec | Has Plan |"));
    assert!(context.contains("feature-one"));
    assert!(context.contains("feature-two"));
    assert!(context.contains("draft"));
    assert!(context.contains("ready"));
    // Verify checkmarks for spec/plan
    assert!(context.contains("✓"));
}

#[test]
fn test_initial_message_spec_start() {
    let msg = build_initial_message_spec("my-feature", false);
    assert!(msg.contains("Start"));
    assert!(msg.contains("my-feature"));
    assert!(!msg.contains("Resume"));
}

#[test]
fn test_initial_message_spec_resume() {
    let msg = build_initial_message_spec("my-feature", true);
    assert!(msg.contains("Resume"));
    assert!(msg.contains("my-feature"));
    assert!(msg.contains("current spec draft"));
}

#[test]
fn test_initial_message_plan_start() {
    let msg = build_initial_message_plan("my-feature", false);
    assert!(msg.contains("Start"));
    assert!(msg.contains("my-feature"));
    assert!(msg.contains("spec is included"));
    assert!(
        msg.contains("Discuss"),
        "initial message should ask agent to discuss before writing"
    );
}

#[test]
fn test_initial_message_plan_resume() {
    let msg = build_initial_message_plan("my-feature", true);
    assert!(msg.contains("Resume"));
    assert!(msg.contains("my-feature"));
    assert!(msg.contains("current plan draft"));
}

#[test]
fn test_initial_message_task_new() {
    let msg = build_initial_message_task_new();
    assert!(msg.contains("Start the task creation interview"));
}

#[test]
fn test_system_prompt_includes_context() {
    let test_context = "## Project Context\n\n### Test Section\n\nThis is test context.";

    // Test feature spec prompt
    let spec_prompt =
        build_feature_spec_system_prompt("test-feature", &format!("/tmp/{}.md", DocumentKind::Spec.label()), test_context);
    assert!(spec_prompt.contains(test_context));
    assert!(spec_prompt.contains("## Guidelines"));
    assert!(spec_prompt.contains("## Output"));

    // Test feature plan prompt
    let plan_prompt = build_feature_plan_system_prompt(
        "test-feature",
        "Test spec content",
        "/tmp/plan.md",
        test_context,
    );
    assert!(plan_prompt.contains(test_context));
    assert!(plan_prompt.contains("## Guidelines"));
    assert!(plan_prompt.contains("## Output"));
    assert!(
        plan_prompt.contains("## Workflow"),
        "plan prompt should have explicit workflow steps"
    );
    assert!(
        plan_prompt.contains("Interview"),
        "plan prompt workflow should start with interview"
    );
    assert!(
        plan_prompt.contains("PLANNING session"),
        "plan prompt should identify as planning session"
    );

    // Test task new prompt
    let task_prompt = build_task_new_system_prompt(test_context);
    assert!(task_prompt.contains(test_context));
    assert!(task_prompt.contains("## Guidelines"));
    assert!(task_prompt.contains("## Creating the Task"));
}
