//! Sigils of the event stream.

use ralph::acp::sigils::extract_attribute;
use ralph::claude::events::{
    parse_journal_sigil, parse_knowledge_sigils, parse_next_model_hint, parse_task_done,
    parse_task_failed, ResultEvent,
};

#[test]
fn events_parse_hint_opus() {
    let text = "Some output here <next-model>opus</next-model> more text";
    assert_eq!(parse_next_model_hint(text), Some("opus".to_string()));
}

#[test]
fn events_parse_hint_sonnet() {
    let text = "<next-model>sonnet</next-model>";
    assert_eq!(parse_next_model_hint(text), Some("sonnet".to_string()));
}

#[test]
fn events_parse_hint_haiku() {
    let text = "Result text\n<next-model>haiku</next-model>\nDone.";
    assert_eq!(parse_next_model_hint(text), Some("haiku".to_string()));
}

#[test]
fn events_parse_hint_with_whitespace_inside_tags() {
    let text = "<next-model> opus </next-model>";
    assert_eq!(parse_next_model_hint(text), Some("opus".to_string()));
}

#[test]
fn events_parse_hint_absent_returns_none() {
    let text = "No sigil here, just regular output.";
    assert_eq!(parse_next_model_hint(text), None);
}

#[test]
fn events_parse_hint_empty_text_returns_none() {
    assert_eq!(parse_next_model_hint(""), None);
}

#[test]
fn events_parse_hint_invalid_model_returns_none() {
    let text = "<next-model>gpt-4</next-model>";
    assert_eq!(parse_next_model_hint(text), None);
}

#[test]
fn events_parse_hint_empty_model_returns_none() {
    let text = "<next-model></next-model>";
    assert_eq!(parse_next_model_hint(text), None);
}

#[test]
fn events_parse_hint_malformed_no_closing_tag_returns_none() {
    let text = "<next-model>opus";
    assert_eq!(parse_next_model_hint(text), None);
}

#[test]
fn events_parse_hint_malformed_no_opening_tag_returns_none() {
    let text = "opus</next-model>";
    assert_eq!(parse_next_model_hint(text), None);
}

#[test]
fn events_parse_hint_alongside_complete_sigil() {
    let text = "<promise>COMPLETE</promise>\n<next-model>haiku</next-model>";
    assert_eq!(parse_next_model_hint(text), Some("haiku".to_string()));
}

#[test]
fn events_parse_hint_first_occurrence_wins() {
    // If multiple sigils, the first valid one is used
    let text = "<next-model>opus</next-model> later <next-model>haiku</next-model>";
    assert_eq!(parse_next_model_hint(text), Some("opus".to_string()));
}

#[test]
fn events_result_event_default_has_no_hint() {
    let event = ResultEvent::default();
    assert!(event.next_model_hint.is_none());
}

#[test]
fn events_result_event_with_hint() {
    let event = ResultEvent {
        result: Some("done <next-model>opus</next-model>".to_string()),
        next_model_hint: Some("opus".to_string()),
        ..Default::default()
    };
    assert_eq!(event.next_model_hint, Some("opus".to_string()));
    assert!(!event.is_complete());
    assert!(!event.is_failure());
}

#[test]
fn events_parse_task_done_basic() {
    let text = "<task-done>t-abc123</task-done>";
    assert_eq!(parse_task_done(text), Some("t-abc123".to_string()));
}

#[test]
fn events_parse_task_done_with_context() {
    let text = "Task completed: <task-done>t-xyz789</task-done> successfully.";
    assert_eq!(parse_task_done(text), Some("t-xyz789".to_string()));
}

#[test]
fn events_parse_task_done_with_whitespace_inside_tags() {
    let text = "<task-done>  t-abc123  </task-done>";
    assert_eq!(parse_task_done(text), Some("t-abc123".to_string()));
}

#[test]
fn events_parse_task_done_no_sigil() {
    let text = "No task sigil here";
    assert_eq!(parse_task_done(text), None);
}

#[test]
fn events_parse_task_done_malformed_no_closing_tag() {
    let text = "<task-done>t-abc123";
    assert_eq!(parse_task_done(text), None);
}

#[test]
fn events_parse_task_done_empty_content() {
    let text = "<task-done></task-done>";
    assert_eq!(parse_task_done(text), None);
}

#[test]
fn events_parse_task_failed_basic() {
    let text = "<task-failed>t-def456</task-failed>";
    assert_eq!(parse_task_failed(text), Some("t-def456".to_string()));
}

#[test]
fn events_parse_task_failed_with_context() {
    let text = "Task failed: <task-failed>t-ghi012</task-failed> with errors.";
    assert_eq!(parse_task_failed(text), Some("t-ghi012".to_string()));
}

#[test]
fn events_parse_task_failed_with_whitespace_inside_tags() {
    let text = "<task-failed>  t-def456  </task-failed>";
    assert_eq!(parse_task_failed(text), Some("t-def456".to_string()));
}

#[test]
fn events_parse_task_failed_no_sigil() {
    let text = "No task sigil here";
    assert_eq!(parse_task_failed(text), None);
}

#[test]
fn events_parse_task_failed_malformed_no_closing_tag() {
    let text = "<task-failed>t-def456";
    assert_eq!(parse_task_failed(text), None);
}

#[test]
fn events_parse_task_failed_empty_content() {
    let text = "<task-failed></task-failed>";
    assert_eq!(parse_task_failed(text), None);
}

#[test]
fn events_both_task_sigils_task_done_wins() {
    let text = "<task-done>t-done</task-done> <task-failed>t-fail</task-failed>";
    assert_eq!(parse_task_done(text), Some("t-done".to_string()));
    assert_eq!(parse_task_failed(text), Some("t-fail".to_string()));
}

#[test]
fn events_task_sigil_with_model_hint() {
    let text = "<task-done>t-task123</task-done>\n<next-model>opus</next-model>";
    assert_eq!(parse_task_done(text), Some("t-task123".to_string()));
    assert_eq!(parse_next_model_hint(text), Some("opus".to_string()));
}

#[test]
fn events_test_parse_journal_sigil() {
    let text = "<journal>some notes</journal>";
    assert_eq!(parse_journal_sigil(text), Some("some notes".to_string()));
}

#[test]
fn events_test_parse_journal_sigil_multiline() {
    let text = "<journal>\nLine one.\nLine two.\nLine three.\n</journal>";
    let result = parse_journal_sigil(text).unwrap();
    assert!(result.contains("Line one."));
    assert!(result.contains("Line two."));
    assert!(result.contains("Line three."));
}

#[test]
fn events_test_parse_journal_sigil_absent() {
    let text = "No journal sigil here.";
    assert_eq!(parse_journal_sigil(text), None);
}

#[test]
fn events_test_parse_journal_sigil_empty() {
    let text = "<journal></journal>";
    assert_eq!(parse_journal_sigil(text), None);
}

#[test]
fn events_test_parse_journal_sigil_whitespace_only() {
    let text = "<journal>   \n   </journal>";
    assert_eq!(parse_journal_sigil(text), None);
}

#[test]
fn events_test_parse_journal_sigil_with_context() {
    let text =
        "Task done.\n<journal>Chose nom for parsing.</journal>\n<task-done>t-abc</task-done>";
    assert_eq!(
        parse_journal_sigil(text),
        Some("Chose nom for parsing.".to_string())
    );
}

#[test]
fn events_test_parse_knowledge_sigil() {
    let text = r#"<knowledge tags="testing,cargo" title="Cargo bench requires nightly">Run cargo bench with nightly toolchain.</knowledge>"#;
    let entries = parse_knowledge_sigils(text);
    assert_eq!(entries.len(), 1);
    assert_eq!(entries[0].title, "Cargo bench requires nightly");
    assert_eq!(entries[0].tags, vec!["testing", "cargo"]);
    assert_eq!(entries[0].body, "Run cargo bench with nightly toolchain.");
}

#[test]
fn events_test_parse_knowledge_sigils_multiple() {
    let text = &[
        r#"<knowledge tags="rust,testing" title="First entry">Body of first entry.</knowledge>"#,
        "\n",
        r#"<knowledge tags="database,sqlite" title="Second entry">Body of second entry.</knowledge>"#
    ].concat();
    let entries = parse_knowledge_sigils(text);
    assert_eq!(entries.len(), 2);
    assert_eq!(entries[0].title, "First entry");
    assert_eq!(entries[1].title, "Second entry");
    assert_eq!(entries[1].tags, vec!["database", "sqlite"]);
}

#[test]
fn events_test_parse_knowledge_sigil_missing_tags() {
    let text = r#"<knowledge title="No tags entry">Some body content here.</knowledge>"#;
    let entries = parse_knowledge_sigils(text);
    assert_eq!(entries.len(), 0);
}

#[test]
fn events_test_parse_knowledge_sigil_missing_title() {
    let text = r#"<knowledge tags="rust,testing">Some body content here.</knowledge>"#;
    let entries = parse_knowledge_sigils(text);
    assert_eq!(entries.len(), 0);
}

#[test]
fn events_test_parse_knowledge_sigil_empty_body() {
    let text = r#"<knowledge tags="rust" title="Empty body entry"></knowledge>"#;
    let entries = parse_knowledge_sigils(text);
    assert_eq!(entries.len(), 0);
}

#[test]
fn events_test_parse_knowledge_sigil_tags_normalized() {
    let text = r#"<knowledge tags="Rust, Testing, CARGO" title="Tag normalization">Body content.</knowledge>"#;
    let entries = parse_knowledge_sigils(text);
    assert_eq!(entries.len(), 1);
    assert_eq!(entries[0].tags, vec!["rust", "testing", "cargo"]);
}

#[test]
fn events_test_parse_knowledge_sigil_attributes_reversed_order() {
    // Attributes in reversed order (title before tags)
    let text = r#"<knowledge title="Reversed attrs" tags="foo,bar">Some body.</knowledge>"#;
    let entries = parse_knowledge_sigils(text);
    assert_eq!(entries.len(), 1);
    assert_eq!(entries[0].title, "Reversed attrs");
    assert_eq!(entries[0].tags, vec!["foo", "bar"]);
}

#[test]
fn events_test_extract_attribute() {
    let tag_content = r#"tags="foo,bar" title="My Title""#;
    assert_eq!(
        extract_attribute(tag_content, "tags"),
        Some("foo,bar".to_string())
    );
    assert_eq!(
        extract_attribute(tag_content, "title"),
        Some("My Title".to_string())
    );
}

#[test]
fn events_test_extract_attribute_missing() {
    let tag_content = r#"tags="foo,bar""#;
    assert_eq!(extract_attribute(tag_content, "title"), None);
}

#[test]
fn events_test_extract_attribute_empty_value() {
    let tag_content = r#"tags="" title="Some title""#;
    assert_eq!(extract_attribute(tag_content, "tags"), Some("".to_string()));
}
