//! What a session allows, keeps and shows.

use ralph::acp::client::{
    decide_permission, is_write_kind, read_part, Notification, OptionKind, Permission,
    PermissionOption, RalphClient, ToolKind,
};
use ralph::acp::tools::{
    command_line, join_output, read_terminal_output, reported_exit, terminal_id,
    terminal_not_found, wait_for_exit, OutputBuffer, MAX_BUF_SIZE,
};
use ralph::output::effect::{Effect, UiEvent};

fn options(kinds: &[OptionKind]) -> Vec<PermissionOption> {
    kinds.iter().map(|k| PermissionOption { id: "o".to_string(), kind: *k }).collect()
}

fn client(read_only: bool) -> RalphClient {
    RalphClient::new("/p".to_string(), read_only, "sonnet".to_string())
}

#[test]
fn writes_are_edits_deletes_and_moves() {
    assert!(is_write_kind(ToolKind::Edit));
    assert!(is_write_kind(ToolKind::Delete));
    assert!(is_write_kind(ToolKind::Move));
    for kind in [
        ToolKind::Read,
        ToolKind::Search,
        ToolKind::Execute,
        ToolKind::Think,
        ToolKind::Fetch,
        ToolKind::Other,
    ] {
        assert!(!is_write_kind(kind));
    }
}

#[test]
fn requests_are_allowed_once_rather_than_always() {
    let both = options(&[OptionKind::RejectOnce, OptionKind::AllowAlways, OptionKind::AllowOnce]);
    let edit = Some(ToolKind::Edit);
    assert!(matches!(decide_permission(false, edit, &both), Permission::Selected(2)));
    let always = options(&[OptionKind::RejectOnce, OptionKind::AllowAlways]);
    assert!(matches!(decide_permission(false, edit, &always), Permission::Selected(1)));
    let none = options(&[OptionKind::RejectOnce, OptionKind::Other]);
    assert!(matches!(decide_permission(false, edit, &none), Permission::NoAllowOption));
}

#[test]
fn read_only_sessions_turn_writes_down() {
    let both = options(&[OptionKind::AllowOnce, OptionKind::RejectAlways]);
    let edit = Some(ToolKind::Edit);
    assert!(matches!(decide_permission(true, edit, &both), Permission::Selected(1)));
    assert!(matches!(decide_permission(true, Some(ToolKind::Read), &both), Permission::Selected(0)));
    assert!(matches!(decide_permission(true, None, &both), Permission::Selected(0)));
    let allow = options(&[OptionKind::AllowOnce]);
    assert!(matches!(decide_permission(true, edit, &allow), Permission::Cancelled));
}

#[test]
fn files_are_read_by_line() {
    let text = || "one\ntwo\nthree\n".to_string();
    assert_eq!(read_part(text(), None, None), "one\ntwo\nthree\n");
    assert_eq!(read_part(text(), Some(2), None), "two\nthree");
    assert_eq!(read_part(text(), Some(2), Some(1)), "two");
    assert_eq!(read_part(text(), None, Some(2)), "one\ntwo");
    assert_eq!(read_part(text(), Some(9), Some(2)), "");
    assert_eq!(read_part(text(), Some(0), Some(1)), "one");
}

#[test]
fn writes_are_checked_against_the_session() {
    assert_eq!(
        client(true).check_write("/p/a", &vec![]).unwrap_err(),
        "write_text_file is not allowed in read-only mode"
    );
    assert!(client(false).check_write("/p/a", &vec![]).is_ok());
    let narrow = client(false).with_allowed_write_paths(vec!["/p/a".to_string(), "/p/b".to_string()]);
    let canonical = vec!["/p/a".to_string(), "/p/b".to_string()];
    assert!(narrow.check_write("/p/b", &canonical).is_ok());
    assert_eq!(
        narrow.check_write("/p/c", &canonical).unwrap_err(),
        "write not allowed: this session can only write to /p/a, /p/b"
    );
}

#[test]
fn written_files_are_kept_relative_to_the_project() {
    let mut c = client(false);
    c.record_write("/p/src/a.rs");
    c.record_write("/tmp/b");
    assert_eq!(c.take_files_modified(), ["src/a.rs", "/tmp/b"]);
    assert!(c.take_files_modified().is_empty());
    assert_eq!(c.normalize_path("/p/x/y"), "x/y");
    assert_eq!(c.normalize_path("/pq/x"), "/pq/x");
}

#[test]
fn message_text_accumulates() {
    let mut c = client(false);
    let mut say = |c: &mut RalphClient, t: &str| {
        c.session_notification(true, Notification::MessageChunk(Some(t.to_string())))
    };
    say(&mut c, "Hello ");
    say(&mut c, "world\n");
    c.session_notification(true, Notification::MessageChunk(None));
    c.session_notification(true, Notification::ThoughtChunk(Some("hm".to_string())));
    assert_eq!(c.peek_accumulated_text(), "Hello world\n");
    assert_eq!(c.take_accumulated_text(), "Hello world\n");
    assert_eq!(c.take_accumulated_text(), "");
}

#[test]
fn details_of_a_tool_call_may_arrive_late() {
    let mut c = client(false);
    let call = |input: Option<&str>| Notification::ToolCall {
        id: "c-1".to_string(),
        title: "Bash".to_string(),
        raw_input: input.map(String::from),
        locations: vec![],
    };
    let update = || Notification::ToolCallUpdate {
        id: "c-1".to_string(),
        raw_input: Some(r#"{"command":"ls -l","description":"List"}"#.to_string()),
    };
    c.session_notification(true, call(None));
    let late = c.session_notification(true, update());
    assert!(late
        .iter()
        .any(|e| matches!(e, Effect::Ui(UiEvent::ToolDetail(d)) if d.contains("ls -l"))));
    assert!(c.session_notification(true, update()).is_empty());
    let unknown = Notification::ToolCallUpdate { id: "c-2".to_string(), raw_input: None };
    assert!(c.session_notification(true, unknown).is_empty());
    assert!(c.session_notification(true, Notification::Other).is_empty());
    assert_eq!(c.pending_tool_calls.len(), 1);
}

#[test]
fn output_buffers_keep_the_newest_bytes() {
    let mut b = OutputBuffer::new();
    b.push_bytes(&vec![1; 10]);
    b.push_bytes(&vec![2; MAX_BUF_SIZE - 5]);
    assert_eq!(b.bytes.len(), MAX_BUF_SIZE);
    assert_eq!((b.bytes[4], b.bytes[5]), (1, 2));
    b.push_bytes(&vec![3; MAX_BUF_SIZE + 1]);
    assert_eq!(b.bytes.len(), MAX_BUF_SIZE);
    assert_eq!(b.bytes[0], 3);
    assert_eq!(b.take_bytes().len(), MAX_BUF_SIZE);
    assert!(b.take_bytes().is_empty());
}

#[test]
fn terminal_output_is_read_once() {
    let mut out = OutputBuffer::new();
    let mut err = OutputBuffer::new();
    out.push_bytes(&b"caf\xc3\xa9\n".to_vec());
    err.push_bytes(&b"bad \xff".to_vec());
    assert_eq!(read_terminal_output(&mut out, &mut err), "café\nbad \u{fffd}");
    assert_eq!(read_terminal_output(&mut out, &mut err), "");
    assert_eq!(join_output("a", "b"), "ab");
}

#[test]
fn terminals_have_ids_commands_and_exit_codes() {
    assert_eq!(terminal_id(12), "terminal-12");
    assert_eq!(command_line("ls", &vec![]), "ls");
    assert_eq!(command_line("ls", &vec!["-l".to_string(), "a".to_string()]), "ls -l a");
    assert_eq!((wait_for_exit(Some(3)), wait_for_exit(None)), (3, -1));
    assert_eq!((reported_exit(3), reported_exit(-1)), (Some(3), None));
    assert_eq!(terminal_not_found("terminal-9"), "terminal not found: terminal-9");
}
