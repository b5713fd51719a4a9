//! Arguments of interactive and streaming sessions.

use ralph::claude::interactive::{build_interactive_command, build_streaming_command};

#[test]
fn test_build_interactive_command_basic() {
    let args = build_interactive_command("test prompt", "hello", None);

    assert_eq!(args, ["--system-prompt", "test prompt", "hello"]);
}

#[test]
fn test_build_interactive_command_with_model() {
    let args = build_interactive_command("test prompt", "hello", Some("opus"));

    assert_eq!(
        args,
        ["--system-prompt", "test prompt", "--model", "opus", "hello"]
    );
}

#[test]
fn streaming_sessions_print_events() {
    let args = build_streaming_command("the prompt", "go", Some("haiku"));
    assert!(args.contains(&"--print".to_string()));
    assert!(args.contains(&"stream-json".to_string()));
    assert!(args.contains(&"haiku".to_string()));
    assert_eq!(args[args.len() - 1], "go");
}
