use rusty_pi::out::{session_info_rows, session_list_rows, tool_error_message, OutputFormatter, SessionInfo, SessionSummary};
use rusty_pi::repl::{history_path_for_home, startup_banner};

#[test]
fn test_tool_end_contains_duration() {
    let fmt = OutputFormatter::new();
    let out = fmt.tool_end("bash", 1500);
    assert!(out.contains("1.5s"), "tool_end should contain formatted duration");
    assert!(out.contains("───"), "tool_end should have separator");
    assert!(out.contains("bash"), "tool_end should contain tool name");
}

#[test]
fn test_tool_end_zero_duration() {
    let fmt = OutputFormatter::new();
    let out = fmt.tool_end("read", 0);
    assert!(out.contains("0.0s"));
    assert!(out.contains("read"));
}

#[test]
fn tool_end_exact_text() {
    let fmt = OutputFormatter::default();
    assert_eq!(fmt.tool_end("edit", 61_999), "─── edit: 61.9s ───\n");
    assert_eq!(fmt.tool_end("x", 99), "─── x: 0.0s ───\n");
}

#[test]
fn banner_has_badges_and_session() {
    assert_eq!(
        startup_banner("openai", "gpt-x", "abc123"),
        "rusty-pi | [openai] | [gpt-x] | abc123"
    );
}

#[test]
fn history_path_handles_home() {
    assert_eq!(
        history_path_for_home("/home/user"),
        "/home/user/.pi/agent/repl-history.txt"
    );
}

#[test]
fn history_path_under_root_and_trailing_slash() {
    assert_eq!(history_path_for_home("/"), "/.pi/agent/repl-history.txt");
    assert_eq!(history_path_for_home("."), "./.pi/agent/repl-history.txt");
    assert_eq!(history_path_for_home("/home/u/"), "/home/u/.pi/agent/repl-history.txt");
}

#[test]
fn test_session_info_contains_id() {
    let fmt = OutputFormatter::new();
    let info = SessionInfo {
        id: "test-123".into(),
        model: "deepseek-v4-flash".into(),
        msg_count: 3,
        cwd: "/project".into(),
    };
    let out = fmt.session_info(&info);
    assert!(out.contains("test-123"), "output should contain session id");
    assert!(out.contains("deepseek-v4-flash"), "output should contain model");
    assert!(out.contains("3"), "output should contain message count");
    assert!(out.contains("/project"), "output should contain cwd");
}

#[test]
fn test_session_info_has_key_labels() {
    let fmt = OutputFormatter::new();
    let info = SessionInfo {
        id: "sess-1".into(),
        model: "mock".into(),
        msg_count: 0,
        cwd: "/".into(),
    };
    let out = fmt.session_info(&info);
    assert!(out.contains("Session"), "should have Session label");
    assert!(out.contains("Model"), "should have Model label");
    assert!(out.contains("Messages"), "should have Messages label");
    assert!(out.contains("CWD"), "should have CWD label");
}

#[test]
fn test_error_output_contains_message() {
    let fmt = OutputFormatter::new();
    let out = fmt.error("something broke");
    assert!(out.contains("something broke"), "error output should contain the message");
}

#[test]
fn test_error_output_is_alert_styled() {
    let fmt = OutputFormatter::new();
    let out = fmt.error("fail");
    assert!(out.contains('╭'), "error alert should have top-left corner");
    assert!(out.contains('╭'), "error alert should have top-left corner");
}

#[test]
fn test_session_info_empty_fields() {
    let fmt = OutputFormatter::new();
    let info = SessionInfo {
        id: "".into(),
        model: "".into(),
        msg_count: 0,
        cwd: "".into(),
    };
    let out = fmt.session_info(&info);
    assert!(!out.is_empty(), "should produce output even with empty fields");
}

#[test]
fn test_tool_start_contains_name() {
    let fmt = OutputFormatter::new();
    let out = fmt.tool_start("bash", "cargo test");
    assert!(out.contains("bash"), "tool_start should contain tool name");
    assert!(out.contains("cargo test"), "tool_start should contain args");
}

#[test]
fn test_tool_error_contains_tool_and_message() {
    let fmt = OutputFormatter::new();
    let out = fmt.tool_error("edit", "oldText not found");
    assert!(out.contains("edit"), "tool_error should contain tool name");
    assert!(out.contains("oldText not found"), "tool_error should contain error message");
}

#[test]
fn test_error_empty_message() {
    let fmt = OutputFormatter::new();
    let out = fmt.error("");
    assert!(!out.is_empty(), "should produce output even with empty message");
}

#[test]
fn test_session_list_empty() {
    let fmt = OutputFormatter::new();
    let out = fmt.session_list(&[]);
    assert!(out.contains("No sessions found"));
}

#[test]
fn test_session_list_contains_entries() {
    let fmt = OutputFormatter::new();
    let sessions = vec![SessionSummary {
        id: "sess-1".into(),
        model: "deepseek-v4-flash".into(),
        msg_count: 5,
        created: "2m ago".into(),
    }];
    let out = fmt.session_list(&sessions);
    assert!(out.contains("sess-1"), "should contain session id");
    assert!(out.contains("deepseek-v4-flash"), "should contain model");
    assert!(out.contains("5"), "should contain message count");
    assert!(out.contains("Session"), "should have column header");
}

#[test]
fn test_output_formatter_default() {
    let fmt = OutputFormatter::default();
    let out = fmt.error("default test");
    assert!(out.contains("default test"));
}

#[test]
fn interrupt_mentions_abort() {
    assert!(OutputFormatter::new().interrupt().contains("Aborted by user"));
}

#[test]
fn rows_handed_to_the_renderer() {
    let info = SessionInfo { id: "a".into(), model: "m".into(), msg_count: 12, cwd: "/w".into() };
    let rows = session_info_rows(&info);
    assert_eq!(
        rows,
        vec![
            ("Session".to_string(), "a".to_string()),
            ("Model".to_string(), "m".to_string()),
            ("Messages".to_string(), "12".to_string()),
            ("CWD".to_string(), "/w".to_string()),
        ]
    );
    let list = session_list_rows(&[SessionSummary { id: "s".into(), model: "m".into(), msg_count: 0, created: "now".into() }]);
    assert_eq!(list, vec![vec!["s".to_string(), "m".to_string(), "0".to_string(), "now".to_string()]]);
    assert_eq!(tool_error_message("edit", "bad"), "[edit] bad");
}

#[test]
fn formatter_blocks_end_with_a_newline() {
    let fmt = OutputFormatter::new();
    for out in [fmt.error("boom"), fmt.tool_error("edit", "bad"), fmt.interrupt()] {
        assert!(!out.is_empty());
        assert!(out.ends_with('\n'), "got {out:?}");
    }
    assert!(fmt.tool_start("bash", "ls -la").ends_with(" ls -la"));
}
