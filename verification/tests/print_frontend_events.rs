use rusty_pi::print::{
    AgentEvent, AgentToolResult, Content, FrontendOutput, MemoryOutput, PrintFrontend, ProviderError, StopReason,
};
use rusty_pi::session_controller::RunId;

fn frontend() -> PrintFrontend<MemoryOutput> {
    let mut frontend = PrintFrontend::with_output(MemoryOutput::new());
    frontend.handle_event(&AgentEvent::RunStarted { run_id: RunId::new(1) }).unwrap();
    frontend
}

#[test]
fn print_frontend_handles_text_delta() {
    let mut frontend = frontend();
    frontend
        .handle_event(&AgentEvent::TextDelta { run_id: RunId::new(1), text: "hello".into() })
        .unwrap();
    assert_eq!(frontend.output().stdout_str(), "hello");
}

#[test]
fn print_frontend_handles_tool_started() {
    let mut frontend = frontend();
    frontend
        .handle_event(&AgentEvent::ToolStarted {
            run_id: RunId::new(1),
            tool_call_id: "tc_1".into(),
            name: "bash".into(),
            arguments: r#"{"command": "ls"}"#.into(),
        })
        .unwrap();
    assert!(frontend.output().stderr_str().contains("bash"));
}

#[test]
fn print_frontend_handles_tool_finished_ok() {
    let mut frontend = frontend();
    frontend
        .handle_event(&AgentEvent::ToolFinished {
            run_id: RunId::new(1),
            tool_call_id: "tc_1".into(),
            name: "bash".into(),
            result: AgentToolResult {
                content: vec![Content::Text { text: "file.txt".into() }],
                ..Default::default()
            },
        })
        .unwrap();
    assert!(frontend.output().stderr_str().contains("file.txt"));
}

#[test]
fn print_frontend_handles_tool_finished_error() {
    let mut frontend = frontend();
    frontend
        .handle_event(&AgentEvent::ToolFinished {
            run_id: RunId::new(1),
            tool_call_id: "tc_1".into(),
            name: "bash".into(),
            result: AgentToolResult {
                content: vec![Content::Text { text: "command not found".into() }],
                is_error: true,
                exit_code: Some(127),
                ..Default::default()
            },
        })
        .unwrap();
    assert!(frontend.output().stderr_str().contains("command not found"));
}

#[test]
fn print_frontend_handles_provider_error() {
    let mut frontend = frontend();
    frontend
        .handle_event(&AgentEvent::ProviderError {
            run_id: RunId::new(1),
            error: ProviderError { reason: StopReason::Error, message: "API limit exceeded".into() },
        })
        .unwrap();
    assert!(frontend.output().stderr_str().contains("API limit exceeded"));
}

#[test]
fn print_frontend_handles_run_aborted() {
    let mut frontend = frontend();
    frontend.handle_event(&AgentEvent::RunAborted { run_id: RunId::new(1) }).unwrap();
    assert!(!frontend.output().stderr_str().is_empty());
}

#[test]
fn print_frontend_handles_run_finished() {
    let mut frontend = frontend();
    frontend
        .handle_event(&AgentEvent::RunFinished { run_id: RunId::new(1), stop_reason: StopReason::Stop })
        .unwrap();
    assert_eq!(frontend.output().stdout_str(), "");
}
