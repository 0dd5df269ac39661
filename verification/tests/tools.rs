use rusty_pi::bash::{bash_result, extract_cwd_marker, marked_command, BashEnd, BashParams};
use rusty_pi::print::Content;
use rusty_pi::edit::EditTool;
use rusty_pi::read::ReadTool;
use rusty_pi::write::{resolve_to_cwd, write_summary, WriteParams, WriteTool};
use std::path::PathBuf;
use std::sync::{Arc, RwLock};

#[test]
fn tools_share_the_working_directory() {
    let shared = Arc::new(RwLock::new(PathBuf::from("/work")));
    let read = ReadTool::new(shared.clone());
    let write = WriteTool::new(shared.clone());
    let edit = EditTool::new(shared.clone());
    assert_eq!(read.cwd(), "/work");
    *shared.write().unwrap() = PathBuf::from("/elsewhere");
    assert_eq!(write.cwd(), "/elsewhere");
    assert_eq!(edit.cwd(), "/elsewhere");
}

#[test]
fn write_resolves_relative_paths() {
    assert_eq!(resolve_to_cwd("a/b.txt", "/w"), "/w/a/b.txt");
    assert_eq!(resolve_to_cwd("a.txt", "/w/"), "/w/a.txt");
    assert_eq!(resolve_to_cwd("/abs.txt", "/w"), "/abs.txt");
    assert_eq!(resolve_to_cwd("a.txt", ""), "a.txt");
}

#[test]
fn write_summary_counts_bytes() {
    let params = WriteParams {
        path: "x.txt".into(),
        content: "héllo".into(),
    };
    assert_eq!(write_summary(&params), "Successfully wrote 6 bytes to x.txt");
}

#[test]
fn bash_marker_is_removed_and_directory_reported() {
    assert_eq!(marked_command("ls"), "ls; echo __RUSTY_PI_PWD__:$(pwd)");
    let (out, dir) = extract_cwd_marker("a\n__RUSTY_PI_PWD__:/old\nb\n  __RUSTY_PI_PWD__: /new \n");
    assert_eq!(out, "a\n__RUSTY_PI_PWD__:/old\nb");
    assert_eq!(dir, Some("/new".to_string()));
    let (out, dir) = extract_cwd_marker("plain\noutput\n");
    assert_eq!(out, "plain\noutput");
    assert_eq!(dir, None);
    let (out, dir) = extract_cwd_marker("x\n__RUSTY_PI_PWD__:   \n");
    assert_eq!(out, "x");
    assert_eq!(dir, None);
}

#[test]
fn bash_params_defaults_are_optional() {
    let params = BashParams {
        command: "echo hi".into(),
        timeout: None,
        max_lines: Some(10),
        max_bytes: None,
    };
    assert_eq!(params.clone(), params);
}

fn params(max_lines: Option<usize>, timeout: Option<u64>) -> BashParams {
    BashParams { command: "cmd".into(), timeout, max_lines, max_bytes: None }
}

fn text_of(result: &rusty_pi::print::AgentToolResult) -> String {
    match &result.content[..] {
        [Content::Text { text }] => text.clone(),
        _ => panic!("one text block expected"),
    }
}

#[test]
fn bash_result_cleans_marker_and_reports_directory() {
    let (result, cwd) = bash_result(&params(None, None), "hello\n__RUSTY_PI_PWD__:/tmp\n", BashEnd::Exited(Some(0)));
    assert_eq!(text_of(&result), "hello");
    assert_eq!(cwd.as_deref(), Some("/tmp"));
    assert!(!result.is_error);
    assert_eq!(result.exit_code, Some(0));
}

#[test]
fn bash_result_reports_exit_code_and_empty_output() {
    let (failed, _) = bash_result(&params(None, None), "", BashEnd::Exited(Some(2)));
    assert_eq!(text_of(&failed), "Command exited with code 2");
    assert!(failed.is_error);
    let (failed, _) = bash_result(&params(None, None), "oops\n", BashEnd::Exited(Some(-1)));
    assert_eq!(text_of(&failed), "oops\n\nCommand exited with code -1");
    let (quiet, _) = bash_result(&params(None, None), "  \n", BashEnd::Exited(None));
    assert_eq!(text_of(&quiet), "(no output)");
}

#[test]
fn bash_result_for_abort_and_timeout() {
    let (aborted, _) = bash_result(&params(None, Some(5)), "partial", BashEnd::Aborted);
    assert_eq!(text_of(&aborted), "Command aborted");
    assert!(aborted.aborted && aborted.is_error);
    let (timed, _) = bash_result(&params(None, Some(5)), "partial", BashEnd::TimedOut);
    assert_eq!(text_of(&timed), "Command timed out after 5 seconds");
    assert!(timed.timed_out && timed.is_error);
}

#[test]
fn bash_result_keeps_the_tail_with_a_note() {
    let (result, _) = bash_result(&params(Some(2), None), "a\nb\nc\nd\ne\n", BashEnd::Exited(Some(0)));
    assert_eq!(text_of(&result), "d\ne\n\n[Showing lines 4-5 of 5]\n");
}

#[test]
fn bash_failing_command() {
    let (r, _) = bash_result(&params(None, None), "", BashEnd::Exited(Some(42)));
    assert!(r.is_error);
    assert_eq!(r.exit_code, Some(42));
    assert_eq!(r.details, "{\"exit_code\":42}");
    assert_eq!(r.content, vec![Content::Text { text: "Command exited with code 42".into() }]);
    assert!(!r.timed_out && !r.aborted);
}

#[test]
fn bash_details_name_how_the_command_ended() {
    let (ok, _) = bash_result(&params(None, None), "x\n", BashEnd::Exited(Some(0)));
    assert_eq!(ok.details, "{\"exit_code\":0}");
    let (none, _) = bash_result(&params(None, None), "x\n", BashEnd::Exited(None));
    assert_eq!(none.details, "{\"exit_code\":null}");
    let (aborted, _) = bash_result(&params(None, Some(5)), "", BashEnd::Aborted);
    assert_eq!(aborted.details, "{\"aborted\":true}");
    let (timed, _) = bash_result(&params(None, Some(5)), "", BashEnd::TimedOut);
    assert_eq!(timed.details, "{\"timed_out\":true,\"timeout\":5}");
    let (untimed, _) = bash_result(&params(None, None), "", BashEnd::TimedOut);
    assert_eq!(untimed.details, "{\"timed_out\":true,\"timeout\":null}");
}
