use rusty_pi::command::{CommandHelpItem, CommandResult};
use rusty_pi::out::SessionSummary;
use rusty_pi::print::{
    is_terminal, terminal_outcome, truncate_chars, AgentEvent, AgentRunError, AgentRunPhase, AgentToolResult,
    Content, FailingOutput, FrontendOutput, MemoryOutput, PrintFrontend, PrintRun, PrintRunOutcome,
    ProviderError, StopReason, ToolOutputStream,
};
use rusty_pi::session_controller::RunId;

#[test]
fn memory_output_captures_stdout_and_stderr() {
    let mut out = MemoryOutput::new();
    out.write_stdout("hello").unwrap();
    out.write_stderr("world").unwrap();
    assert_eq!(out.stdout_str(), "hello");
    assert_eq!(out.stderr_str(), "world");
}

#[test]
fn memory_output_clear() {
    let mut out = MemoryOutput::new();
    out.write_stdout("a").unwrap();
    out.write_stderr("b").unwrap();
    out.clear();
    assert!(out.stdout.is_empty());
    assert!(out.stderr.is_empty());
}

#[test]
fn failing_output_returns_error() {
    let mut out = FailingOutput;
    assert!(out.write_stdout("x").is_err());
    assert!(out.write_stderr("x").is_err());
    assert!(out.flush_stdout().is_err());
    assert!(out.flush_stderr().is_err());
}

#[test]
fn print_frontend_text_delta_goes_to_stdout() {
    let mut frontend = PrintFrontend::with_output(MemoryOutput::new());
    frontend
        .handle_event(&AgentEvent::RunStarted { run_id: RunId::new(1) })
        .unwrap();
    frontend
        .handle_event(&AgentEvent::TextDelta {
            run_id: RunId::new(1),
            text: "hello".into(),
        })
        .unwrap();
    assert_eq!(frontend.output().stdout_str(), "hello");
    assert!(frontend.output().stderr.is_empty());
}

#[test]
fn print_frontend_tool_started_goes_to_stderr() {
    let mut frontend = PrintFrontend::with_output(MemoryOutput::new());
    frontend
        .handle_event(&AgentEvent::RunStarted { run_id: RunId::new(1) })
        .unwrap();
    frontend
        .handle_event(&AgentEvent::ToolStarted {
            run_id: RunId::new(1),
            tool_call_id: "tc_1".into(),
            name: "bash".into(),
            arguments: "{\"command\":\"ls\"}".to_string(),
        })
        .unwrap();
    assert!(frontend.output().stdout.is_empty());
    assert!(frontend.output().stderr_str().contains("bash"));
}

#[test]
fn print_frontend_tool_output_goes_to_stderr() {
    let mut frontend = PrintFrontend::with_output(MemoryOutput::new());
    frontend
        .handle_event(&AgentEvent::RunStarted { run_id: RunId::new(1) })
        .unwrap();
    frontend
        .handle_event(&AgentEvent::ToolStarted {
            run_id: RunId::new(1),
            tool_call_id: "tc_1".into(),
            name: "bash".into(),
            arguments: "{}".to_string(),
        })
        .unwrap();
    frontend
        .handle_event(&AgentEvent::ToolOutput {
            run_id: RunId::new(1),
            tool_call_id: "tc_1".into(),
            stream: ToolOutputStream::Stdout,
            chunk: "file.txt".into(),
        })
        .unwrap();
    frontend
        .handle_event(&AgentEvent::ToolOutput {
            run_id: RunId::new(1),
            tool_call_id: "tc_1".into(),
            stream: ToolOutputStream::Stderr,
            chunk: "warning".into(),
        })
        .unwrap();
    assert!(frontend.output().stdout.is_empty());
    assert!(frontend.output().stderr_str().contains("file.txt"));
    assert!(frontend.output().stderr_str().contains("warning"));
}

#[test]
fn print_frontend_tool_finished_no_streaming_shows_summary() {
    let mut frontend = PrintFrontend::with_output(MemoryOutput::new());
    frontend
        .handle_event(&AgentEvent::RunStarted { run_id: RunId::new(1) })
        .unwrap();
    frontend
        .handle_event(&AgentEvent::ToolStarted {
            run_id: RunId::new(1),
            tool_call_id: "tc_1".into(),
            name: "read".into(),
            arguments: "{}".to_string(),
        })
        .unwrap();
    frontend
        .handle_event(&AgentEvent::ToolFinished {
            run_id: RunId::new(1),
            tool_call_id: "tc_1".into(),
            name: "read".into(),
            result: AgentToolResult {
                content: vec![Content::Text {
                    text: "file contents here".into(),
                }],
                ..Default::default()
            },
        })
        .unwrap();
    let stderr = frontend.output().stderr_str();
    assert!(stderr.contains("✅"));
    assert!(stderr.contains("read"));
}

#[test]
fn print_frontend_tool_finished_with_streaming_shows_only_summary() {
    let mut frontend = PrintFrontend::with_output(MemoryOutput::new());
    frontend
        .handle_event(&AgentEvent::RunStarted { run_id: RunId::new(1) })
        .unwrap();
    frontend
        .handle_event(&AgentEvent::ToolStarted {
            run_id: RunId::new(1),
            tool_call_id: "tc_1".into(),
            name: "bash".into(),
            arguments: "{}".to_string(),
        })
        .unwrap();
    frontend
        .handle_event(&AgentEvent::ToolOutput {
            run_id: RunId::new(1),
            tool_call_id: "tc_1".into(),
            stream: ToolOutputStream::Stdout,
            chunk: "output data".into(),
        })
        .unwrap();
    frontend
        .handle_event(&AgentEvent::ToolFinished {
            run_id: RunId::new(1),
            tool_call_id: "tc_1".into(),
            name: "bash".into(),
            result: AgentToolResult {
                content: vec![Content::Text {
                    text: "output data".into(),
                }],
                ..Default::default()
            },
        })
        .unwrap();
    let stderr = frontend.output().stderr_str();
    // Should not repeat "output data" in the ToolFinished output
    // (only the streaming chunk should have been printed)
    assert!(stderr.contains("done"));
}

#[test]
fn print_frontend_provider_error_goes_to_stderr() {
    let mut frontend = PrintFrontend::with_output(MemoryOutput::new());
    frontend
        .handle_event(&AgentEvent::RunStarted { run_id: RunId::new(1) })
        .unwrap();
    frontend
        .handle_event(&AgentEvent::ProviderError {
            run_id: RunId::new(1),
            error: ProviderError {
                reason: StopReason::Error,
                message: "API limit".into(),
            },
        })
        .unwrap();
    assert!(frontend.output().stdout.is_empty());
    assert!(frontend.output().stderr_str().contains("Provider error"));
    assert!(frontend.output().stderr_str().contains("API limit"));
}

#[test]
fn print_frontend_run_aborted_once() {
    let mut frontend = PrintFrontend::with_output(MemoryOutput::new());
    frontend
        .handle_event(&AgentEvent::RunStarted { run_id: RunId::new(1) })
        .unwrap();
    frontend
        .handle_event(&AgentEvent::RunAborted { run_id: RunId::new(1) })
        .unwrap();
    frontend
        .handle_event(&AgentEvent::RunAborted { run_id: RunId::new(1) })
        .unwrap();
    let stderr = frontend.output().stderr_str();
    assert_eq!(stderr.matches("Run aborted").count(), 1);
}

#[test]
fn print_frontend_run_failed_includes_phase_and_message() {
    let mut frontend = PrintFrontend::with_output(MemoryOutput::new());
    frontend
        .handle_event(&AgentEvent::RunStarted { run_id: RunId::new(1) })
        .unwrap();
    frontend
        .handle_event(&AgentEvent::RunFailed {
            run_id: RunId::new(1),
            error: AgentRunError {
                phase: AgentRunPhase::ProviderStart,
                message: "connection refused".into(),
            },
        })
        .unwrap();
    let stderr = frontend.output().stderr_str();
    assert!(stderr.contains("provider start"));
    assert!(stderr.contains("connection refused"));
}

#[test]
fn print_frontend_stale_event_ignored() {
    let mut frontend = PrintFrontend::with_output(MemoryOutput::new());
    frontend
        .handle_event(&AgentEvent::RunStarted { run_id: RunId::new(2) })
        .unwrap();
    // Stale event from run 1
    frontend
        .handle_event(&AgentEvent::TextDelta {
            run_id: RunId::new(1),
            text: "old".into(),
        })
        .unwrap();
    assert!(frontend.output().stdout.is_empty());
}

#[test]
fn print_frontend_duplicate_tool_started_ignored() {
    let mut frontend = PrintFrontend::with_output(MemoryOutput::new());
    frontend
        .handle_event(&AgentEvent::RunStarted { run_id: RunId::new(1) })
        .unwrap();
    frontend
        .handle_event(&AgentEvent::ToolStarted {
            run_id: RunId::new(1),
            tool_call_id: "tc_1".into(),
            name: "bash".into(),
            arguments: "{}".to_string(),
        })
        .unwrap();
    frontend
        .handle_event(&AgentEvent::ToolStarted {
            run_id: RunId::new(1),
            tool_call_id: "tc_1".into(),
            name: "bash".into(),
            arguments: "{}".to_string(),
        })
        .unwrap();
    // Should only have one "bash" in stderr (the tool name)
    let count = frontend.output().stderr_str().matches("bash").count();
    assert_eq!(count, 1, "Should only have one tool name in stderr");
}

#[test]
fn print_frontend_run_finished_success_no_extra_output() {
    let mut frontend = PrintFrontend::with_output(MemoryOutput::new());
    frontend
        .handle_event(&AgentEvent::RunStarted { run_id: RunId::new(1) })
        .unwrap();
    frontend
        .handle_event(&AgentEvent::RunFinished {
            run_id: RunId::new(1),
            stop_reason: StopReason::Stop,
        })
        .unwrap();
    // Success run_finished should not produce any output
    assert!(frontend.output().stdout.is_empty());
    assert!(frontend.output().stderr.is_empty());
}

#[test]
fn print_frontend_run_finished_length_goes_to_stderr() {
    let mut frontend = PrintFrontend::with_output(MemoryOutput::new());
    frontend
        .handle_event(&AgentEvent::RunStarted { run_id: RunId::new(1) })
        .unwrap();
    frontend
        .handle_event(&AgentEvent::RunFinished {
            run_id: RunId::new(1),
            stop_reason: StopReason::Length,
        })
        .unwrap();
    assert!(frontend.output().stdout.is_empty());
    assert!(frontend.output().stderr_str().contains("truncated"));
}

#[test]
fn print_frontend_duplicate_terminal_event_suppressed() {
    let mut frontend = PrintFrontend::with_output(MemoryOutput::new());
    frontend
        .handle_event(&AgentEvent::RunStarted { run_id: RunId::new(1) })
        .unwrap();
    frontend
        .handle_event(&AgentEvent::RunAborted { run_id: RunId::new(1) })
        .unwrap();
    // Second RunAborted should be suppressed
    frontend
        .handle_event(&AgentEvent::RunAborted { run_id: RunId::new(1) })
        .unwrap();
    let count = frontend.output().stderr_str().matches("aborted").count();
    assert_eq!(count, 1);
}

#[test]
fn print_frontend_run_reset_on_new_run_started() {
    let mut frontend = PrintFrontend::with_output(MemoryOutput::new());
    // First run
    frontend
        .handle_event(&AgentEvent::RunStarted { run_id: RunId::new(1) })
        .unwrap();
    frontend
        .handle_event(&AgentEvent::RunAborted { run_id: RunId::new(1) })
        .unwrap();
    // Second run — state should be reset, new abort is legitimate
    frontend
        .handle_event(&AgentEvent::RunStarted { run_id: RunId::new(2) })
        .unwrap();
    frontend
        .handle_event(&AgentEvent::RunAborted { run_id: RunId::new(2) })
        .unwrap();
    // Both runs produce abort messages — that's correct behavior
    let count = frontend.output().stderr_str().matches("aborted").count();
    assert_eq!(count, 2);
    // But a duplicate RunAborted for run 2 should be suppressed
    frontend
        .handle_event(&AgentEvent::RunAborted { run_id: RunId::new(2) })
        .unwrap();
    let count = frontend.output().stderr_str().matches("aborted").count();
    assert_eq!(count, 2, "Duplicate terminal event should be suppressed");
}

#[test]
fn print_frontend_command_result_message_goes_to_stdout() {
    let mut frontend = PrintFrontend::with_output(MemoryOutput::new());
    frontend
        .handle_command_result(&CommandResult::Message("hello".into()))
        .unwrap();
    assert_eq!(frontend.output().stdout_str(), "hello\n");
    assert!(frontend.output().stderr.is_empty());
}

#[test]
fn print_frontend_command_result_error_goes_to_stderr() {
    let mut frontend = PrintFrontend::with_output(MemoryOutput::new());
    frontend
        .handle_command_result(&CommandResult::Error("oops".into()))
        .unwrap();
    assert!(frontend.output().stdout.is_empty());
    assert_eq!(frontend.output().stderr_str(), "oops\n");
}

#[test]
fn print_frontend_tool_error_with_exit_code() {
    let mut frontend = PrintFrontend::with_output(MemoryOutput::new());
    frontend
        .handle_event(&AgentEvent::RunStarted { run_id: RunId::new(1) })
        .unwrap();
    frontend
        .handle_event(&AgentEvent::ToolStarted {
            run_id: RunId::new(1),
            tool_call_id: "tc_1".into(),
            name: "bash".into(),
            arguments: "{}".to_string(),
        })
        .unwrap();
    frontend
        .handle_event(&AgentEvent::ToolFinished {
            run_id: RunId::new(1),
            tool_call_id: "tc_1".into(),
            name: "bash".into(),
            result: AgentToolResult {
                content: vec![Content::Text {
                    text: "command failed".into(),
                }],
                is_error: true,
                exit_code: Some(127),
                ..Default::default()
            },
        })
        .unwrap();
    let stderr = frontend.output().stderr_str();
    assert!(stderr.contains("127"));
    assert!(stderr.contains("command failed"));
}

#[test]
fn zero_exit_code_without_streaming_is_success() {
    let mut frontend = PrintFrontend::with_output(MemoryOutput::new());
    frontend
        .handle_event(&AgentEvent::RunStarted { run_id: RunId::new(1) })
        .unwrap();
    frontend
        .handle_event(&AgentEvent::ToolStarted {
            run_id: RunId::new(1),
            tool_call_id: "tc_zero".into(),
            name: "bash".into(),
            arguments: "{}".to_string(),
        })
        .unwrap();
    frontend
        .handle_event(&AgentEvent::ToolFinished {
            run_id: RunId::new(1),
            tool_call_id: "tc_zero".into(),
            name: "bash".into(),
            result: AgentToolResult {
                content: vec![Content::Text { text: "success".into() }],
                exit_code: Some(0),
                is_error: false,
                ..Default::default()
            },
        })
        .unwrap();

    let stderr = frontend.output().stderr_str();
    assert_eq!(stderr.matches("✅").count(), 1);
    assert!(!stderr.contains("❌"));
    assert!(!stderr.contains("exit code 0"));
    assert_eq!(stderr.matches("success").count(), 1);
}

#[test]
fn zero_exit_code_with_streaming_is_success() {
    let mut frontend = PrintFrontend::with_output(MemoryOutput::new());
    frontend
        .handle_event(&AgentEvent::RunStarted { run_id: RunId::new(1) })
        .unwrap();
    frontend
        .handle_event(&AgentEvent::ToolStarted {
            run_id: RunId::new(1),
            tool_call_id: "tc_zero_stream".into(),
            name: "bash".into(),
            arguments: "{}".to_string(),
        })
        .unwrap();
    frontend
        .handle_event(&AgentEvent::ToolOutput {
            run_id: RunId::new(1),
            tool_call_id: "tc_zero_stream".into(),
            stream: ToolOutputStream::Stdout,
            chunk: "streamed success".into(),
        })
        .unwrap();
    frontend
        .handle_event(&AgentEvent::ToolFinished {
            run_id: RunId::new(1),
            tool_call_id: "tc_zero_stream".into(),
            name: "bash".into(),
            result: AgentToolResult {
                content: vec![Content::Text {
                    text: "streamed success".into(),
                }],
                exit_code: Some(0),
                is_error: false,
                ..Default::default()
            },
        })
        .unwrap();

    let stderr = frontend.output().stderr_str();
    assert_eq!(stderr.matches("streamed success").count(), 1);
    assert!(stderr.contains("✅ bash done"));
    assert!(!stderr.contains("❌"));
    assert!(!stderr.contains("exit code 0"));
}

#[test]
fn nonzero_exit_code_is_failure() {
    let mut frontend = PrintFrontend::with_output(MemoryOutput::new());
    frontend
        .handle_event(&AgentEvent::RunStarted { run_id: RunId::new(1) })
        .unwrap();
    frontend
        .handle_event(&AgentEvent::ToolFinished {
            run_id: RunId::new(1),
            tool_call_id: "tc_nonzero".into(),
            name: "bash".into(),
            result: AgentToolResult {
                content: vec![Content::Text { text: "failed".into() }],
                exit_code: Some(2),
                is_error: true,
                ..Default::default()
            },
        })
        .unwrap();

    let stderr = frontend.output().stderr_str();
    assert!(stderr.contains("❌"));
    assert!(stderr.contains("exit code 2"));
    assert!(!stderr.contains("✅"));
}

#[test]
fn timeout_takes_priority_over_exit_code() {
    let mut frontend = PrintFrontend::with_output(MemoryOutput::new());
    frontend
        .handle_event(&AgentEvent::RunStarted { run_id: RunId::new(1) })
        .unwrap();
    frontend
        .handle_event(&AgentEvent::ToolFinished {
            run_id: RunId::new(1),
            tool_call_id: "tc_timeout_exit".into(),
            name: "bash".into(),
            result: AgentToolResult {
                content: vec![Content::Text {
                    text: "timed out".into(),
                }],
                exit_code: Some(124),
                timed_out: true,
                is_error: true,
                ..Default::default()
            },
        })
        .unwrap();

    let stderr = frontend.output().stderr_str();
    assert!(stderr.contains("timed out"));
    assert!(!stderr.contains("exit code 124"));
}

#[test]
fn abort_takes_priority_over_exit_code() {
    let mut frontend = PrintFrontend::with_output(MemoryOutput::new());
    frontend
        .handle_event(&AgentEvent::RunStarted { run_id: RunId::new(1) })
        .unwrap();
    frontend
        .handle_event(&AgentEvent::ToolFinished {
            run_id: RunId::new(1),
            tool_call_id: "tc_abort_exit".into(),
            name: "bash".into(),
            result: AgentToolResult {
                content: vec![Content::Text { text: "aborted".into() }],
                exit_code: Some(130),
                aborted: true,
                is_error: true,
                ..Default::default()
            },
        })
        .unwrap();

    let stderr = frontend.output().stderr_str();
    assert!(stderr.contains("aborted"));
    assert!(!stderr.contains("exit code 130"));
}

#[test]
fn generic_error_without_code_or_state_is_failure() {
    let mut frontend = PrintFrontend::with_output(MemoryOutput::new());
    frontend
        .handle_event(&AgentEvent::RunStarted { run_id: RunId::new(1) })
        .unwrap();
    frontend
        .handle_event(&AgentEvent::ToolFinished {
            run_id: RunId::new(1),
            tool_call_id: "tc_generic_error".into(),
            name: "bash".into(),
            result: AgentToolResult {
                content: vec![Content::Text {
                    text: "generic failure".into(),
                }],
                is_error: true,
                ..Default::default()
            },
        })
        .unwrap();

    let stderr = frontend.output().stderr_str();
    assert!(stderr.contains("❌ bash error"));
    assert!(stderr.contains("generic failure"));
    assert!(!stderr.contains("✅"));
}

#[test]
fn print_frontend_stdout_write_error_propagates() {
    let mut frontend = PrintFrontend::with_output(FailingOutput);
    frontend
        .handle_event(&AgentEvent::RunStarted { run_id: RunId::new(1) })
        .unwrap();
    let result = frontend.handle_event(&AgentEvent::TextDelta {
        run_id: RunId::new(1),
        text: "x".into(),
    });
    assert!(result.is_err());
}

#[test]
fn print_frontend_stderr_write_error_propagates() {
    let mut frontend = PrintFrontend::with_output(FailingOutput);
    frontend
        .handle_event(&AgentEvent::RunStarted { run_id: RunId::new(1) })
        .unwrap();
    let result = frontend.handle_event(&AgentEvent::ToolStarted {
        run_id: RunId::new(1),
        tool_call_id: "tc_1".into(),
        name: "bash".into(),
        arguments: "{}".to_string(),
    });
    assert!(result.is_err());
}

#[test]
fn print_frontend_report_run_error_uses_output_sink() {
    let mut frontend = PrintFrontend::with_output(MemoryOutput::new());
    frontend
        .report_run_error(&AgentRunError {
            phase: AgentRunPhase::AgentLoop,
            message: "internal failure".into(),
        })
        .unwrap();
    assert!(frontend.output().stdout.is_empty());
    assert!(frontend.output().stderr_str().contains("internal failure"));
}

#[test]
fn print_frontend_tool_finished_without_started_shows_summary() {
    let mut frontend = PrintFrontend::with_output(MemoryOutput::new());
    frontend
        .handle_event(&AgentEvent::RunStarted { run_id: RunId::new(1) })
        .unwrap();
    // ToolFinished without a preceding ToolStarted
    frontend
        .handle_event(&AgentEvent::ToolFinished {
            run_id: RunId::new(1),
            tool_call_id: "tc_orphan".into(),
            name: "read".into(),
            result: AgentToolResult {
                content: vec![Content::Text {
                    text: "file content".into(),
                }],
                ..Default::default()
            },
        })
        .unwrap();
    let stderr = frontend.output().stderr_str();
    assert!(stderr.contains("read"));
}

#[test]
fn duplicate_tool_finished_emits_one_summary() {
    let mut frontend = PrintFrontend::with_output(MemoryOutput::new());
    frontend
        .handle_event(&AgentEvent::RunStarted { run_id: RunId::new(1) })
        .unwrap();
    frontend
        .handle_event(&AgentEvent::ToolStarted {
            run_id: RunId::new(1),
            tool_call_id: "tc_duplicate".into(),
            name: "bash".into(),
            arguments: "{}".to_string(),
        })
        .unwrap();
    let finished = AgentEvent::ToolFinished {
        run_id: RunId::new(1),
        tool_call_id: "tc_duplicate".into(),
        name: "bash".into(),
        result: AgentToolResult::default(),
    };
    frontend.handle_event(&finished).unwrap();
    frontend.handle_event(&finished).unwrap();

    assert_eq!(frontend.output().stderr_str().matches("✅").count(), 1);
}

#[test]
fn tool_output_after_finished_is_ignored() {
    let mut frontend = PrintFrontend::with_output(MemoryOutput::new());
    frontend
        .handle_event(&AgentEvent::RunStarted { run_id: RunId::new(1) })
        .unwrap();
    frontend
        .handle_event(&AgentEvent::ToolStarted {
            run_id: RunId::new(1),
            tool_call_id: "tc_late".into(),
            name: "bash".into(),
            arguments: "{}".to_string(),
        })
        .unwrap();
    frontend
        .handle_event(&AgentEvent::ToolFinished {
            run_id: RunId::new(1),
            tool_call_id: "tc_late".into(),
            name: "bash".into(),
            result: AgentToolResult::default(),
        })
        .unwrap();
    frontend
        .handle_event(&AgentEvent::ToolOutput {
            run_id: RunId::new(1),
            tool_call_id: "tc_late".into(),
            stream: ToolOutputStream::Stdout,
            chunk: "late output must not render".into(),
        })
        .unwrap();

    assert!(!frontend.output().stderr_str().contains("late output"));
}

#[test]
fn two_different_tools_both_render_completion() {
    let mut frontend = PrintFrontend::with_output(MemoryOutput::new());
    frontend
        .handle_event(&AgentEvent::RunStarted { run_id: RunId::new(1) })
        .unwrap();
    for (id, name) in [("tc_a", "read"), ("tc_b", "bash")] {
        frontend
            .handle_event(&AgentEvent::ToolStarted {
                run_id: RunId::new(1),
                tool_call_id: id.into(),
                name: name.into(),
                arguments: "{}".to_string(),
            })
            .unwrap();
        frontend
            .handle_event(&AgentEvent::ToolFinished {
                run_id: RunId::new(1),
                tool_call_id: id.into(),
                name: name.into(),
                result: AgentToolResult::default(),
            })
            .unwrap();
    }

    assert_eq!(frontend.output().stderr_str().matches("✅").count(), 2);
    assert!(frontend.output().stderr_str().contains("read"));
    assert!(frontend.output().stderr_str().contains("bash"));
}

#[test]
fn streamed_error_content_is_not_repeated_in_completion() {
    let mut frontend = PrintFrontend::with_output(MemoryOutput::new());
    frontend
        .handle_event(&AgentEvent::RunStarted { run_id: RunId::new(1) })
        .unwrap();
    frontend
        .handle_event(&AgentEvent::ToolStarted {
            run_id: RunId::new(1),
            tool_call_id: "tc_error".into(),
            name: "bash".into(),
            arguments: "{}".to_string(),
        })
        .unwrap();
    frontend
        .handle_event(&AgentEvent::ToolOutput {
            run_id: RunId::new(1),
            tool_call_id: "tc_error".into(),
            stream: ToolOutputStream::Stderr,
            chunk: "streamed failure details".into(),
        })
        .unwrap();
    frontend
        .handle_event(&AgentEvent::ToolFinished {
            run_id: RunId::new(1),
            tool_call_id: "tc_error".into(),
            name: "bash".into(),
            result: AgentToolResult {
                content: vec![Content::Text {
                    text: "streamed failure details".into(),
                }],
                is_error: true,
                ..Default::default()
            },
        })
        .unwrap();

    let stderr = frontend.output().stderr_str();
    assert_eq!(stderr.matches("streamed failure details").count(), 1);
    assert!(stderr.contains("❌ bash error"));
}

#[test]
fn streamed_timeout_and_abort_render_status_without_repeating_content() {
    let mut frontend = PrintFrontend::with_output(MemoryOutput::new());
    frontend
        .handle_event(&AgentEvent::RunStarted { run_id: RunId::new(1) })
        .unwrap();
    for (id, content, timed_out, aborted) in [
        ("tc_timeout", "timeout details", true, false),
        ("tc_abort", "abort details", false, true),
    ] {
        frontend
            .handle_event(&AgentEvent::ToolStarted {
                run_id: RunId::new(1),
                tool_call_id: id.into(),
                name: "bash".into(),
                arguments: "{}".to_string(),
            })
            .unwrap();
        frontend
            .handle_event(&AgentEvent::ToolOutput {
                run_id: RunId::new(1),
                tool_call_id: id.into(),
                stream: ToolOutputStream::Stderr,
                chunk: format!("{content}\n"),
            })
            .unwrap();
        frontend
            .handle_event(&AgentEvent::ToolFinished {
                run_id: RunId::new(1),
                tool_call_id: id.into(),
                name: "bash".into(),
                result: AgentToolResult {
                    content: vec![Content::Text { text: content.into() }],
                    is_error: true,
                    timed_out,
                    aborted,
                    ..Default::default()
                },
            })
            .unwrap();
    }

    let stderr = frontend.output().stderr_str();
    assert_eq!(stderr.matches("timeout details").count(), 1);
    assert_eq!(stderr.matches("abort details").count(), 1);
    assert_eq!(stderr.matches("timed out").count(), 1);
    assert_eq!(stderr.matches("aborted").count(), 1);
}

#[test]
fn tool_finished_summary_truncates_unicode_safely() {
    let cases = [
        "这是一个很长的中文工具输出，用来验证摘要不会在 UTF-8 字节中间截断".repeat(4),
        "😀😃😄😁😆😅😂🤣😊😇".repeat(10),
        "ASCII 混合文本 😀 with multibyte characters".repeat(3),
    ];
    for text in cases {
        let mut frontend = PrintFrontend::with_output(MemoryOutput::new());
        frontend
            .handle_event(&AgentEvent::RunStarted { run_id: RunId::new(1) })
            .unwrap();
        frontend
            .handle_event(&AgentEvent::ToolFinished {
                run_id: RunId::new(1),
                tool_call_id: "tc_unicode".into(),
                name: "read".into(),
                result: AgentToolResult {
                    content: vec![Content::Text { text }],
                    ..Default::default()
                },
            })
            .unwrap();
        let stderr = frontend.output().stderr_str();
        let summary = stderr.lines().last().unwrap_or_default();
        assert!(summary.chars().count() <= 80 + "  ✅ read: ".chars().count());
        assert!(std::str::from_utf8(&frontend.output().stderr).is_ok());
    }
}

#[test]
fn truncate_chars_handles_boundaries_and_multibyte_text() {
    assert_eq!(truncate_chars("short", 80).as_str(), "short");
    assert_eq!(truncate_chars("exact", 5).as_str(), "exact");
    assert_eq!(truncate_chars("abcdef", 6).as_str(), "abcdef");
    assert_eq!(truncate_chars("abcdefg", 6).as_str(), "abc...");
    assert_eq!(truncate_chars(&"界".repeat(100), 80).chars().count(), 80);
    assert_eq!(truncate_chars(&"😀".repeat(100), 80).chars().count(), 80);
    assert!(truncate_chars(&"😀".repeat(100), 80).ends_with("..."));
}

fn started(run: u64) -> AgentEvent {
    AgentEvent::RunStarted { run_id: RunId::new(run) }
}

fn text_result(text: &str) -> AgentToolResult {
    AgentToolResult {
        content: vec![Content::Text { text: text.into() }],
        ..Default::default()
    }
}

#[test]
fn tool_started_line_shows_arguments_unless_empty() {
    let mut frontend = PrintFrontend::with_output(MemoryOutput::new());
    frontend.handle_event(&started(1)).unwrap();
    frontend
        .handle_event(&AgentEvent::ToolStarted {
            run_id: RunId::new(1),
            tool_call_id: "a".into(),
            name: "bash".into(),
            arguments: "{\"command\":\"ls\"}".into(),
        })
        .unwrap();
    frontend
        .handle_event(&AgentEvent::ToolStarted {
            run_id: RunId::new(1),
            tool_call_id: "b".into(),
            name: "read".into(),
            arguments: "{}".into(),
        })
        .unwrap();
    assert_eq!(
        frontend.output().stderr_str(),
        "\n⚙ bash {\"command\":\"ls\"}\n\n⚙ read\n"
    );
}

#[test]
fn finished_without_start_renders_exact_first_line() {
    let mut frontend = PrintFrontend::with_output(MemoryOutput::new());
    frontend.handle_event(&started(1)).unwrap();
    frontend
        .handle_event(&AgentEvent::ToolFinished {
            run_id: RunId::new(1),
            tool_call_id: "x".into(),
            name: "read".into(),
            result: text_result("line one\r\nline two"),
        })
        .unwrap();
    assert_eq!(frontend.output().stderr_str(), "  ✅ read: line one\n");
}

#[test]
fn finished_after_start_shows_elapsed_time() {
    let mut frontend = PrintFrontend::with_output(MemoryOutput::new());
    frontend.handle_event(&started(1)).unwrap();
    frontend
        .handle_event(&AgentEvent::ToolStarted {
            run_id: RunId::new(1),
            tool_call_id: "x".into(),
            name: "bash".into(),
            arguments: "{}".into(),
        })
        .unwrap();
    frontend
        .handle_event(&AgentEvent::ToolFinished {
            run_id: RunId::new(1),
            tool_call_id: "x".into(),
            name: "bash".into(),
            result: text_result("ok"),
        })
        .unwrap();
    let stderr = frontend.output().stderr_str();
    let last = stderr.lines().last().unwrap();
    assert!(last.starts_with("  ✅ bash in "));
    assert!(last.ends_with("s: ok"));
}

#[test]
fn summary_formula_exact_values() {
    let failed = AgentToolResult {
        content: vec![Content::Text { text: "boom\nmore".into() }],
        exit_code: Some(-1),
        ..Default::default()
    };
    assert_eq!(
        rusty_pi::print::tool_finished_summary("bash", &failed, false, ""),
        "  ❌ bash exit code -1 — boom\n"
    );
    assert_eq!(
        rusty_pi::print::tool_finished_summary("bash", &failed, true, " in 1.5s"),
        "  ❌ bash exit code -1 in 1.5s\n"
    );
    let bare_error = AgentToolResult { is_error: true, ..Default::default() };
    assert_eq!(
        rusty_pi::print::tool_finished_summary("bash", &bare_error, false, ""),
        "  ❌ bash error — unknown error\n"
    );
    assert_eq!(
        rusty_pi::print::tool_finished_summary("read", &AgentToolResult::default(), false, " in 0.2s"),
        "  ✅ read done in 0.2s\n"
    );
    let image_then_text = AgentToolResult {
        content: vec![
            Content::Image { data: "AAAA".into(), mime_type: "image/png".into() },
            Content::Text { text: "caption".into() },
        ],
        ..Default::default()
    };
    assert_eq!(
        rusty_pi::print::tool_finished_summary("read", &image_then_text, false, ""),
        "  ✅ read: caption\n"
    );
    let long = "x".repeat(100);
    let expected = format!("  ✅ read: {}...\n", "x".repeat(77));
    assert_eq!(
        rusty_pi::print::tool_finished_summary("read", &text_result(&long), false, ""),
        expected
    );
}

#[test]
fn ended_run_writes_nothing_more() {
    let mut frontend = PrintFrontend::with_output(MemoryOutput::new());
    frontend.handle_event(&started(1)).unwrap();
    frontend
        .handle_event(&AgentEvent::RunFinished { run_id: RunId::new(1), stop_reason: StopReason::Stop })
        .unwrap();
    frontend
        .handle_event(&AgentEvent::TextDelta { run_id: RunId::new(1), text: "late".into() })
        .unwrap();
    frontend
        .handle_event(&AgentEvent::RunAborted { run_id: RunId::new(1) })
        .unwrap();
    assert!(frontend.output().stdout.is_empty());
    assert!(frontend.output().stderr.is_empty());
}

#[test]
fn exact_notices_for_thinking_provider_error_and_failure() {
    let mut frontend = PrintFrontend::with_output(MemoryOutput::new());
    frontend.handle_event(&started(3)).unwrap();
    frontend
        .handle_event(&AgentEvent::ThinkingDelta { run_id: RunId::new(3), text: "hmm".into() })
        .unwrap();
    frontend
        .handle_event(&AgentEvent::ProviderError {
            run_id: RunId::new(3),
            error: ProviderError { reason: StopReason::Error, message: "rate".into() },
        })
        .unwrap();
    frontend
        .handle_event(&AgentEvent::RunFailed {
            run_id: RunId::new(3),
            error: AgentRunError { phase: AgentRunPhase::AgentLoop, message: "bad".into() },
        })
        .unwrap();
    assert_eq!(
        frontend.output().stderr_str(),
        "[thinking] hmm\n❌ Provider error: rate\n❌ Run failed [agent loop]: bad\n"
    );
}

#[test]
fn report_run_error_reports_once() {
    let mut frontend = PrintFrontend::with_output(MemoryOutput::new());
    let error = AgentRunError { phase: AgentRunPhase::ProviderStart, message: "down".into() };
    frontend.report_run_error(&error).unwrap();
    frontend.report_run_error(&error).unwrap();
    assert_eq!(frontend.output().stderr_str(), "\n❌ Run failed [provider start]: down\n");
}

#[test]
fn command_results_render_exactly() {
    let mut frontend = PrintFrontend::with_output(MemoryOutput::new());
    frontend
        .handle_command_result(&CommandResult::ModelChanged { model: "m1".into() })
        .unwrap();
    frontend
        .handle_command_result(&CommandResult::Sessions { sessions: vec![], skipped: 0 })
        .unwrap();
    frontend
        .handle_command_result(&CommandResult::Sessions {
            sessions: vec![SessionSummary {
                id: "s1".into(),
                model: "gpt".into(),
                msg_count: 12,
                created: "2024-01-01".into(),
            }],
            skipped: 0,
        })
        .unwrap();
    assert_eq!(
        frontend.output().stdout_str(),
        "Switched to m1\nNo sessions found.\nAvailable sessions:\n  s1 | model: gpt | msgs: 12 | created: 2024-01-01\n"
    );
    frontend.output_mut().clear();
    frontend
        .handle_command_result(&CommandResult::Help(vec![CommandHelpItem {
            name: "exit".into(),
            description: "Exit the REPL".into(),
        }]))
        .unwrap();
    let help = frontend.output().stdout_str();
    assert!(help.starts_with("\n  Commands:\n    /exit         Exit the REPL\n\n  Tips:\n"));
    assert!(frontend.output().stderr.is_empty());
}

#[test]
fn real_output_frontend_is_quiet_without_output_events() {
    let mut frontend = PrintFrontend::new();
    frontend.handle_event(&started(1)).unwrap();
    frontend
        .handle_event(&AgentEvent::RunFinished { run_id: RunId::new(1), stop_reason: StopReason::Stop })
        .unwrap();
}

#[test]
fn print_run_settles_on_announced_outcome() {
    let mut frontend = PrintFrontend::with_output(MemoryOutput::new());
    let mut run = PrintRun::new();
    assert!(!run.observe(&mut frontend, &started(1)));
    assert!(!run.observe(
        &mut frontend,
        &AgentEvent::RunFinished { run_id: RunId::new(1), stop_reason: StopReason::Length },
    ));
    let outcome = run.settle(&mut frontend, Some("ignored".into())).unwrap();
    assert_eq!(outcome, PrintRunOutcome::Finished(StopReason::Length));
    assert!(frontend.output().stderr_str().contains("truncated"));
}

#[test]
fn print_run_reports_agent_failure_without_terminal_event() {
    let mut frontend = PrintFrontend::with_output(MemoryOutput::new());
    let mut run = PrintRun::new();
    run.observe(&mut frontend, &started(1));
    let outcome = run.settle(&mut frontend, Some("crashed".into())).unwrap();
    assert_eq!(
        outcome,
        PrintRunOutcome::Failed(AgentRunError { phase: AgentRunPhase::AgentLoop, message: "crashed".into() })
    );
    assert_eq!(frontend.output().stderr_str(), "\n❌ Run failed [agent loop]: crashed\n");
    let mut quiet = PrintRun::new();
    quiet.observe(&mut frontend, &started(2));
    assert_eq!(quiet.settle(&mut frontend, None).unwrap(), PrintRunOutcome::Aborted);
}

#[test]
fn print_run_output_failure_cancels_and_is_returned() {
    let mut frontend = PrintFrontend::with_output(FailingOutput);
    let mut run = PrintRun::new();
    assert!(!run.observe(&mut frontend, &started(1)));
    assert!(run.observe(
        &mut frontend,
        &AgentEvent::TextDelta { run_id: RunId::new(1), text: "x".into() },
    ));
    assert!(!run.observe(
        &mut frontend,
        &AgentEvent::TextDelta { run_id: RunId::new(1), text: "y".into() },
    ));
    run.observe(&mut frontend, &AgentEvent::RunAborted { run_id: RunId::new(1) });
    assert!(run.settle(&mut frontend, None).is_err());
}

#[test]
fn terminal_outcome_and_phase_labels() {
    assert_eq!(terminal_outcome(&started(1)), None);
    assert_eq!(
        terminal_outcome(&AgentEvent::RunAborted { run_id: RunId::new(1) }),
        Some(PrintRunOutcome::Aborted)
    );
    assert_eq!(AgentRunPhase::ProviderStart.label(), "provider start");
    assert_eq!(AgentRunPhase::AgentLoop.label(), "agent loop");
}

#[test]
fn only_run_ends_are_terminal() {

    assert!(is_terminal(&AgentEvent::RunAborted { run_id: RunId::new(1) }));
    assert!(is_terminal(&AgentEvent::RunFinished { run_id: RunId::new(1), stop_reason: StopReason::Stop }));
    assert!(!is_terminal(&AgentEvent::TextDelta { run_id: RunId::new(1), text: "x".into() }));
}

#[test]
fn memory_sink_never_fails_a_report() {
    let mut frontend = PrintFrontend::with_output(MemoryOutput::new());
    assert!(frontend.handle_event(&AgentEvent::RunStarted { run_id: RunId::new(7) }).is_ok());
    assert!(frontend.handle_event(&AgentEvent::TextDelta { run_id: RunId::new(7), text: "é".into() }).is_ok());
    assert!(frontend.handle_command_result(&CommandResult::Message("m".into())).is_ok());
    assert_eq!(frontend.output().stdout_str(), "ém\n");
}
