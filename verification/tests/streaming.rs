//! Rendering of the agent's output.

use ralph::acp::markdown::{format_inline_markdown, format_markdown_line};
use ralph::acp::streaming::{render_session_update, RenderState, SessionUpdateMsg};
use ralph::acp::summary::{
    format_tool_summary, has_useful_summary, shorten_path, tool_details, truncate_to_line,
};
use ralph::output::effect::{Effect, UiEvent};

fn text_of(effects: &Vec<Effect>) -> String {
    let mut out = String::new();
    for e in effects {
        match e {
            Effect::Print(spans) | Effect::ErrLine(spans) => {
                for s in spans {
                    out.push_str(&s.text);
                }
            }
            Effect::Line(spans) => {
                for s in spans {
                    out.push_str(&s.text);
                }
                out.push('\n');
            }
            _ => {}
        }
    }
    out
}

#[test]
fn test_plain_text_unchanged() {
    let mut in_code = false;
    let mut in_sigil = None;
    let result = format_markdown_line("hello world", &mut in_code, &mut in_sigil);
    assert_eq!(result, "hello world");
    assert!(!in_code);
}

#[test]
fn test_heading_h1_is_bold() {
    let mut in_code = false;
    let mut in_sigil = None;
    let result = format_markdown_line("# Heading", &mut in_code, &mut in_sigil);
    // Should contain ANSI bold escape.
    assert!(result.contains("Heading"));
    assert!(!in_code);
}

#[test]
fn test_heading_h2_is_bold() {
    let mut in_code = false;
    let mut in_sigil = None;
    let result = format_markdown_line("## Sub Heading", &mut in_code, &mut in_sigil);
    assert!(result.contains("Sub Heading"));
}

#[test]
fn test_heading_h3_is_bold() {
    let mut in_code = false;
    let mut in_sigil = None;
    let result = format_markdown_line("### Third", &mut in_code, &mut in_sigil);
    assert!(result.contains("Third"));
}

#[test]
fn test_code_block_toggle() {
    let mut in_code = false;
    let mut in_sigil = None;

    // Opening fence.
    let _ = format_markdown_line("```rust", &mut in_code, &mut in_sigil);
    assert!(in_code, "should be inside code block after opening fence");

    // Line inside code block.
    let inside = format_markdown_line("let x = 1;", &mut in_code, &mut in_sigil);
    assert!(in_code, "should still be inside code block");
    // Inside code block lines are bright_black (contain ANSI).
    assert!(inside.contains("let x = 1;"));

    // Closing fence.
    let _ = format_markdown_line("```", &mut in_code, &mut in_sigil);
    assert!(!in_code, "should be outside code block after closing fence");
}

#[test]
fn test_code_block_no_inline_formatting() {
    let mut in_code = true;
    let mut in_sigil = None;
    let result = format_markdown_line("**not bold** `not code`", &mut in_code, &mut in_sigil);
    // Should NOT contain inline formatting escapes — rendered as bright_black plain text.
    assert!(
        !result.contains("\x1b[1m"),
        "should not apply bold inside code block"
    );
    assert!(
        !result.contains("\x1b[36m"),
        "should not apply cyan inside code block"
    );
}

#[test]
fn test_inline_code() {
    let result = format_inline_markdown("use `foo` here");
    assert!(
        result.contains("\x1b[36m`foo`\x1b[0m"),
        "backtick code should be cyan: {result}"
    );
}

#[test]
fn test_inline_bold() {
    let result = format_inline_markdown("this is **bold** text");
    assert!(
        result.contains("\x1b[1m**bold**\x1b[22m"),
        "double asterisk should be bold: {result}"
    );
}

#[test]
fn test_inline_italic() {
    let result = format_inline_markdown("this is *italic* text");
    assert!(
        result.contains("\x1b[3m*italic*\x1b[23m"),
        "single asterisk should be italic: {result}"
    );
}

#[test]
fn test_unclosed_backtick_left_asis() {
    let result = format_inline_markdown("unclosed `backtick");
    assert_eq!(
        result, "unclosed `backtick",
        "unclosed delimiter should be literal"
    );
}

#[test]
fn test_unclosed_bold_left_asis() {
    let result = format_inline_markdown("unclosed **bold");
    assert_eq!(result, "unclosed **bold");
}

#[test]
fn test_unclosed_italic_left_asis() {
    let result = format_inline_markdown("unclosed *italic");
    assert_eq!(result, "unclosed *italic");
}

#[test]
fn test_mixed_inline() {
    let result = format_inline_markdown("`code` and **bold** and *italic*");
    assert!(result.contains("\x1b[36m`code`\x1b[0m"), "code: {result}");
    assert!(result.contains("\x1b[1m**bold**\x1b[22m"), "bold: {result}");
    assert!(
        result.contains("\x1b[3m*italic*\x1b[23m"),
        "italic: {result}"
    );
}

#[test]
fn test_empty_line() {
    let mut in_code = false;
    let mut in_sigil = None;
    let result = format_markdown_line("", &mut in_code, &mut in_sigil);
    assert_eq!(result, "");
}

#[test]
fn test_truncate_short() {
    assert_eq!(truncate_to_line("hello", 10), "hello");
}

#[test]
fn test_truncate_long() {
    assert_eq!(truncate_to_line("hello world", 5), "hello...");
}

#[test]
fn test_truncate_multiline() {
    assert_eq!(truncate_to_line("line1\nline2", 100), "line1");
}

#[test]
fn test_shorten_deep_path() {
    assert_eq!(
        shorten_path("/Users/rk/code/ralph/src/acp/streaming.rs"),
        "src/acp/streaming.rs"
    );
}

#[test]
fn test_shorten_short_path() {
    assert_eq!(shorten_path("src/main.rs"), "src/main.rs");
}

#[test]
fn test_shorten_just_filename() {
    assert_eq!(shorten_path("file.rs"), "file.rs");
}

#[test]
fn test_summary_from_locations() {
    let result = format_tool_summary(
        "Read File",
        "{}",
        &vec!["/Users/rk/code/ralph/src/main.rs".into()],
    );
    // shorten_path keeps last 3 segments: ralph/src/main.rs
    assert_eq!(result, "ralph/src/main.rs");
}

#[test]
fn test_summary_read_from_input() {
    let input = r#"{"file_path":"/Users/rk/code/ralph/src/acp/tools.rs"}"#;
    let result = format_tool_summary("Read File", input, &vec![]);
    assert_eq!(result, "src/acp/tools.rs");
}

#[test]
fn test_summary_bash_command() {
    let input = r#"{"command":"cargo test --lib"}"#;
    let result = format_tool_summary("Bash", input, &vec![]);
    assert_eq!(result, "cargo test --lib");
}

#[test]
fn test_summary_grep_pattern() {
    let input = r#"{"pattern":"raw_input","path":"/Users/rk/code/ralph/src"}"#;
    let result = format_tool_summary("Grep", input, &vec![]);
    assert_eq!(result, "/raw_input/ in code/ralph/src");
}

#[test]
fn test_summary_empty_input() {
    let result = format_tool_summary("Edit", "{}", &vec![]);
    assert!(result.is_empty());
}

#[test]
fn test_summary_edit_from_input() {
    let input = r#"{"file_path":"/Users/rk/code/ralph/src/main.rs","old_string":"foo","new_string":"bar"}"#;
    let result = format_tool_summary("Edit", input, &vec![]);
    // /Users/rk/code/ralph/src/main.rs → 3 segments from right: ralph/src/main.rs
    assert_eq!(result, "ralph/src/main.rs");
}

#[test]
fn test_useful_summary_with_locations() {
    assert!(has_useful_summary("", &vec!["/some/path".into()]));
}

#[test]
fn test_useful_summary_with_json_input() {
    assert!(has_useful_summary(r#"{"file_path":"src/main.rs"}"#, &vec![]));
}

#[test]
fn test_useful_summary_empty_input() {
    assert!(!has_useful_summary("", &vec![]));
}

#[test]
fn test_useful_summary_empty_json() {
    assert!(!has_useful_summary("{}", &vec![]));
}

#[test]
fn test_useful_summary_null() {
    assert!(!has_useful_summary("null", &vec![]));
}

#[test]
fn test_useful_summary_whitespace_only() {
    assert!(!has_useful_summary("   ", &vec![]));
}

#[test]
fn truncation_counts_characters() {
    assert_eq!(truncate_to_line("äöü", 3), "äöü");
    assert_eq!(truncate_to_line("äöüß", 3), "äöü...");
}

#[test]
fn lines_are_shown_once_they_are_complete() {
    let mut state = RenderState::new("opus".to_string());
    let first = SessionUpdateMsg::AgentText("  Hello, wo".to_string());
    assert_eq!(text_of(&render_session_update(false, &first, &mut state)), "\nopus -> ");
    assert_eq!(state.line_buffer, "Hello, wo");
    let second = SessionUpdateMsg::AgentText("rld\nmore".to_string());
    assert_eq!(text_of(&render_session_update(false, &second, &mut state)), "Hello, world\n");
    assert_eq!(state.line_buffer, "more");
    let finished = render_session_update(false, &SessionUpdateMsg::Finished, &mut state);
    assert_eq!(text_of(&finished), "more\n");
    assert_eq!(state.line_buffer, "");
}

#[test]
fn white_space_before_the_first_text_is_not_shown() {
    let mut state = RenderState::new("opus".to_string());
    let blank = SessionUpdateMsg::AgentText(" \n ".to_string());
    assert!(render_session_update(false, &blank, &mut state).is_empty());
    assert!(state.is_first_chunk);
}

#[test]
fn thoughts_are_cut_to_a_line() {
    let mut state = RenderState::new("opus".to_string());
    let thought = SessionUpdateMsg::AgentThought(format!("{}\nnext", "x".repeat(120)));
    let shown = text_of(&render_session_update(false, &thought, &mut state));
    assert_eq!(shown, format!("{}...", "x".repeat(100)));
}

#[test]
fn errors_of_tools_are_shown() {
    let mut state = RenderState::new("opus".to_string());
    let error = SessionUpdateMsg::ToolCallError {
        name: "Bash".to_string(),
        error: "exit 1".to_string(),
    };
    let shown = text_of(&render_session_update(false, &error, &mut state));
    assert_eq!(shown, "ERROR -> Bash: exit 1");
}

#[test]
fn the_dashboard_gets_events() {
    let mut state = RenderState::new("opus".to_string());
    let text = SessionUpdateMsg::AgentText("hi\n".to_string());
    let shown = render_session_update(true, &text, &mut state);
    assert_eq!(shown.len(), 1);
    match &shown[0] {
        Effect::Ui(UiEvent::AgentText(t)) => assert_eq!(t, "hi\n"),
        _ => panic!("expected an event"),
    }
}

#[test]
fn tool_details_come_from_the_input() {
    let input = r#"{"file_path":"src/main.rs","old_string":"foo","new_string":"bar"}"#;
    let details = tool_details("Edit", input);
    assert_eq!(details.len(), 2);
    assert!(details[0].contains("foo"));
    assert!(details[1].contains("bar"));
    assert!(tool_details("Edit", "not json").is_empty());
}

#[test]
fn sigils_span_lines() {
    let mut in_code = false;
    let mut in_sigil = None;
    let open = format_markdown_line("<journal>", &mut in_code, &mut in_sigil);
    assert!(open.contains("<journal>"));
    assert!(in_sigil.is_some());
    format_markdown_line("notes", &mut in_code, &mut in_sigil);
    assert!(in_sigil.is_some());
    format_markdown_line("</journal>", &mut in_code, &mut in_sigil);
    assert!(in_sigil.is_none());
}
