//! Events of the agent's output stream.

use ralph::acp::summary::Field;
use ralph::claude::events::{ContentBlock, Event};
use ralph::claude::parser::{
    line_content, parse_content_block, parse_event, parse_tool_result, RawContentBlock, RawEvent,
    RawMessage,
};

fn text(s: &str) -> Option<String> {
    Some(s.to_string())
}

fn block(kind: &str) -> RawContentBlock {
    RawContentBlock {
        block_type: text(kind),
        text: text("T"),
        thinking: text("H"),
        id: text("c-1"),
        name: text("Bash"),
        input: None,
        tool_use_id: text("c-1"),
        content: text("no such file"),
        is_error: Some(true),
    }
}

fn event(kind: &str, blocks: Option<Vec<RawContentBlock>>) -> RawEvent {
    RawEvent {
        event_type: text(kind),
        message: Some(RawMessage { model: text("m"), content: blocks }),
        result: None,
        duration_ms: None,
        total_cost_usd: None,
    }
}

#[test]
fn blocks_are_read_by_type() {
    assert!(matches!(parse_content_block(block("text")), ContentBlock::Text { text } if text == "T"));
    assert!(matches!(
        parse_content_block(block("thinking")),
        ContentBlock::Thinking { thinking } if thinking == "H"
    ));
    let mut b = block("tool_use");
    b.input = Some(vec![Field { key: "command".to_string(), text: text("ls"), json: "\"ls\"".to_string() }]);
    match parse_content_block(b) {
        ContentBlock::ToolUse { id, name, input } => {
            assert_eq!((id.as_str(), name.as_str()), ("c-1", "Bash"));
            assert_eq!(input[0].key, "command");
        }
        other => panic!("{:?}", other),
    }
    assert!(matches!(parse_content_block(block("image")), ContentBlock::Unknown));
    let mut b = block("text");
    b.text = None;
    assert!(matches!(parse_content_block(b), ContentBlock::Text { text } if text.is_empty()));
}

#[test]
fn assistant_events_keep_the_order_of_blocks() {
    let blocks = vec![block("thinking"), block("text"), block("image")];
    match parse_event(event("assistant", Some(blocks))) {
        Event::Assistant(a) => {
            assert_eq!(a.model.as_deref(), Some("m"));
            assert!(matches!(a.content[0], ContentBlock::Thinking { .. }));
            assert!(matches!(a.content[1], ContentBlock::Text { .. }));
            assert!(matches!(a.content[2], ContentBlock::Unknown));
        }
        other => panic!("{:?}", other),
    }
}

#[test]
fn user_events_matter_for_tool_errors_only() {
    let mut fine = block("tool_result");
    fine.is_error = None;
    assert!(!parse_tool_result(fine).is_error);
    let mut fine = block("tool_result");
    fine.is_error = Some(false);
    match parse_event(event("user", Some(vec![fine, block("text"), block("tool_result")]))) {
        Event::ToolErrors(v) => {
            assert_eq!(v.len(), 1);
            assert_eq!(v[0].content, "no such file");
            assert!(v[0].is_error);
        }
        other => panic!("{:?}", other),
    }
    assert!(matches!(parse_event(event("user", Some(vec![block("text")]))), Event::Unknown));
    assert!(matches!(parse_event(event("user", None)), Event::Unknown));
    assert!(matches!(parse_event(event("system", None)), Event::Unknown));
}

#[test]
fn result_events_carry_their_sigils() {
    let mut raw = event("result", None);
    raw.result = text("<task-done>t-1</task-done><next-model>opus</next-model>");
    raw.duration_ms = Some(1200);
    match parse_event(raw) {
        Event::Result(r) => {
            assert_eq!(r.task_done.as_deref(), Some("t-1"));
            assert_eq!(r.next_model_hint.as_deref(), Some("opus"));
            assert_eq!(r.duration_ms, 1200);
            assert_eq!(r.total_cost_usd, "0");
            assert!(r.task_failed.is_none() && r.knowledge_entries.is_empty());
        }
        other => panic!("{:?}", other),
    }
    match parse_event(event("result", None)) {
        Event::Result(r) => assert!(r.result.is_none() && r.task_done.is_none()),
        other => panic!("{:?}", other),
    }
}

#[test]
fn blank_lines_are_skipped() {
    assert_eq!(line_content("  \t "), None);
    assert_eq!(line_content(" {} \n").as_deref(), Some("{}"));
}
