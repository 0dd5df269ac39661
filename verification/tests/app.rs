use rusty_pi::command::{CommandControl, CommandOutcome, CommandResult};
use rusty_pi::print::{AgentEvent, AgentToolResult, Content, ProviderError, StopReason, ToolOutputStream};
use rusty_pi::session_controller::RunId;
use rusty_pi::transcript::{
    input_height, sanitize_message, transcript_to_blocks, Action, ActivityState, AppState, CommandDriveOutcome,
    Effect, Focus,
    KeyCode, KeyPress, ToolRunState, TranscriptBlock,
};

const OUTPUT_TRUNCATION_MARKER: &str = "… output truncated …";

fn key(code: KeyCode) -> KeyPress {
    KeyPress::new(code)
}

fn ctrl(character: char) -> KeyPress {
    KeyPress::ctrl(character)
}

fn run_started(state: &mut AppState) {
    state.update(Action::AgentEvent(AgentEvent::RunStarted { run_id: RunId::new(1) }));
}

fn tool_started(state: &mut AppState, id: &str) {
    state.update(Action::AgentEvent(AgentEvent::ToolStarted {
        run_id: RunId::new(1),
        tool_call_id: id.into(),
        name: "bash".into(),
        arguments: r#"{"command":"ls"}"#.into(),
    }));
}

/// The transcript's text as it is laid out for the screen.
fn render_state(state: &AppState) -> String {
    state.render_lines().into_iter().map(|line| line.text).collect::<Vec<_>>().join("\n")
}

#[test]
fn initial_state_uses_input_focus_and_follow_mode() {
    let state = AppState::new((80, 24));
    assert_eq!(state.focus, Focus::Input);
    assert!(state.scroll.follow_output);
    assert!(state.transcript.is_empty());
}

#[test]
fn multiline_unicode_editor_preserves_boundaries() {
    let mut state = AppState::new((80, 24));
    for character in "你好\nworld".chars() {
        state.update(Action::KeyInput(key(KeyCode::Char(character))));
    }
    state.update(Action::KeyInput(key(KeyCode::Up)));
    state.update(Action::KeyInput(key(KeyCode::Home)));
    state.update(Action::KeyInput(key(KeyCode::Delete)));
    assert_eq!(state.input.text, "好\nworld");
    assert!(state.input.text.is_char_boundary(state.input.cursor_byte));
}

#[test]
fn editor_supports_control_editing_and_paste() {
    let mut state = AppState::new((80, 24));
    state.update(Action::Paste("one two\n三".into()));
    state.update(Action::KeyInput(key(KeyCode::Up)));
    state.update(Action::KeyInput(ctrl('a')));
    state.update(Action::KeyInput(ctrl('k')));
    assert_eq!(state.input.text, "\n三");
    state.update(Action::KeyInput(ctrl('u')));
    assert_eq!(state.input.text, "\n三");
    state.update(Action::KeyInput(ctrl('w')));
    assert_eq!(state.input.text, "\n三");
}

#[test]
fn enter_submits_original_multiline_prompt_and_history() {
    let mut state = AppState::new((80, 24));
    state.update(Action::Paste("first\nsecond".into()));
    let effects = state.update(Action::KeyInput(key(KeyCode::Enter)));
    assert!(matches!(effects.as_slice(), [Effect::SubmitInput(prompt)] if prompt == "first\nsecond"));
    assert!(state.transcript.is_empty());
    assert_eq!(state.history.entries, vec!["first\nsecond"]);
    let effects = state.update(Action::AgentPromptStarted {
        original: "first\nsecond".into(),
        expanded: "expanded".into(),
    });
    assert!(matches!(effects.as_slice(), [Effect::RunAgent(prompt)] if prompt == "expanded"));
    assert!(matches!(&state.transcript[0], TranscriptBlock::User { text } if text == "first\nsecond"));
}

#[test]
fn empty_prompt_is_not_transcript_or_history() {
    let mut state = AppState::new((80, 24));
    state.update(Action::Paste(" \n ".into()));
    assert!(state.update(Action::Submit).is_empty());
    assert!(state.transcript.is_empty());
    assert!(state.history.entries.is_empty());
}

#[test]
fn history_deduplicates_and_restores_draft() {
    let mut state = AppState::new((80, 24));
    for prompt in ["one", "one", "two"] {
        state.input.set_text(prompt.into());
        state.update(Action::Submit);
        state.activity = ActivityState::Idle;
    }
    assert_eq!(state.history.entries, vec!["one", "two"]);
    state.input.set_text("draft 中文".into());
    state.update(Action::KeyInput(key(KeyCode::Up)));
    assert_eq!(state.input.text, "two");
    state.update(Action::KeyInput(key(KeyCode::Up)));
    assert_eq!(state.input.text, "one");
    state.update(Action::KeyInput(key(KeyCode::Down)));
    assert_eq!(state.input.text, "two");
    state.update(Action::KeyInput(key(KeyCode::Down)));
    assert_eq!(state.input.text, "draft 中文");
    assert_eq!(state.history.entries, vec!["one", "two"]);
}

#[test]
fn running_enter_is_rejected_but_draft_is_kept() {
    let mut state = AppState::new((80, 24));
    state.input.set_text("first".into());
    assert_eq!(state.update(Action::Submit).len(), 1);
    state.update(Action::AgentPromptStarted {
        original: "first".into(),
        expanded: "first".into(),
    });
    state.input.set_text("next".into());
    assert!(state.update(Action::KeyInput(key(KeyCode::Enter))).is_empty());
    assert_eq!(state.input.text, "next");
    assert!(state.status.contains("Enter unavailable"));
}

#[test]
fn command_lifecycle_never_creates_user_transcript() {
    let mut state = AppState::new((80, 24));
    state.input.set_text("/session".into());
    assert!(matches!(
        state.update(Action::Submit).as_slice(),
        [Effect::SubmitInput(input)] if input == "/session"
    ));
    assert!(state.transcript.is_empty());
    state.update(Action::CommandStarted { name: "session".into() });
    assert_eq!(state.activity, ActivityState::CommandRunning);
    state.update(Action::CommandCompleted(CommandOutcome {
        result: Some(CommandResult::Message("info".into())),
        control: CommandControl::Continue,
    }));
    assert_eq!(state.activity, ActivityState::Idle);
    assert!(matches!(state.transcript.as_slice(), [TranscriptBlock::System { message }] if message == "info"));
}

#[test]
fn command_ctrl_c_is_distinct_from_agent_cancellation() {
    let mut state = AppState::new((80, 24));
    state.update(Action::CommandStarted {
        name: "list-sessions".into(),
    });
    assert!(matches!(
        state.update(Action::KeyInput(ctrl('c'))).as_slice(),
        [Effect::CancelCommand]
    ));
    assert_eq!(state.activity, ActivityState::CommandCancelling);
    state.update(Action::CommandCancelled);
    state.update(Action::CommandCancelled);
    assert_eq!(
        state
            .transcript
            .iter()
            .filter(|block| matches!(block, TranscriptBlock::System { message } if message == "Command cancelled"))
            .count(),
        1
    );
    assert_eq!(state.activity, ActivityState::Idle);
}

#[test]
fn ctrl_c_clears_idle_draft_and_cancels_running() {
    let mut state = AppState::new((80, 24));
    state.input.set_text("draft".into());
    assert!(state.update(Action::KeyInput(ctrl('c'))).is_empty());
    assert!(state.input.text.is_empty());
    state.activity = ActivityState::AgentRunning;
    assert!(matches!(
        state.update(Action::KeyInput(ctrl('c'))).as_slice(),
        [Effect::CancelAgent]
    ));
    assert_eq!(state.activity, ActivityState::AgentCancelling);
}

#[test]
fn focus_routes_selection_without_toggling_non_expandable_blocks() {
    let mut state = AppState::new((80, 24));
    state.transcript.push(TranscriptBlock::User { text: "you".into() });
    state.transcript.push(TranscriptBlock::Thinking {
        text: "hmm".into(),
        expanded: false,
    });
    state
        .transcript
        .push(TranscriptBlock::tool("t".into(), "bash".into(), "{}".into()));
    state.update(Action::KeyInput(key(KeyCode::Tab)));
    assert_eq!(state.focus, Focus::Transcript);
    state.selection.selected_block = Some(0);
    state.update(Action::KeyInput(key(KeyCode::Enter)));
    assert!(matches!(state.transcript[0], TranscriptBlock::User { .. }));
    state.selection.selected_block = Some(1);
    state.update(Action::KeyInput(key(KeyCode::Char(' '))));
    assert!(matches!(
        state.transcript[1],
        TranscriptBlock::Thinking { expanded: true, .. }
    ));
}

#[test]
fn tool_expansion_is_independent_and_survives_output_and_finish() {
    let mut state = AppState::new((80, 24));
    run_started(&mut state);
    tool_started(&mut state, "a");
    tool_started(&mut state, "b");
    state.selection.selected_block = Some(0);
    state.focus = Focus::Transcript;
    state.update(Action::KeyInput(key(KeyCode::Char(' '))));
    state.update(Action::AgentEvent(AgentEvent::ToolOutput {
        run_id: RunId::new(1),
        tool_call_id: "a".into(),
        stream: ToolOutputStream::Stdout,
        chunk: "out".into(),
    }));
    state.update(Action::AgentEvent(AgentEvent::ToolFinished {
        run_id: RunId::new(1),
        tool_call_id: "a".into(),
        name: "bash".into(),
        result: AgentToolResult {
            exit_code: Some(0),
            content: vec![Content::Text { text: "out".into() }],
            ..Default::default()
        },
    }));
    assert!(matches!(
        state.transcript[0],
        TranscriptBlock::Tool {
            expanded: true,
            state: ToolRunState::Succeeded,
            ..
        }
    ));
    assert!(matches!(
        state.transcript[1],
        TranscriptBlock::Tool { expanded: false, .. }
    ));
}

#[test]
fn thinking_is_collapsed_with_summary_and_expands() {
    let mut state = AppState::new((80, 24));
    run_started(&mut state);
    state.update(Action::AgentEvent(AgentEvent::ThinkingDelta {
        run_id: RunId::new(1),
        text: "a\nb".into(),
    }));
    let collapsed = render_state(&state);
    assert!(collapsed.contains("Thinking… 2 lines"));
    assert!(!collapsed.contains("  a"));
    state.focus = Focus::Transcript;
    state.selection.selected_block = Some(0);
    state.update(Action::KeyInput(key(KeyCode::Char(' '))));
    assert!(render_state(&state).contains("  a"));
}

#[test]
fn assistant_deltas_merge_and_finish_without_empty_block() {
    let mut state = AppState::new((80, 24));
    run_started(&mut state);
    state.update(Action::AgentEvent(AgentEvent::TextDelta {
        run_id: RunId::new(1),
        text: "a".into(),
    }));
    state.update(Action::AgentEvent(AgentEvent::TextDelta {
        run_id: RunId::new(1),
        text: "b".into(),
    }));
    state.update(Action::AgentEvent(AgentEvent::RunFinished {
        run_id: RunId::new(1),
        stop_reason: StopReason::Stop,
    }));
    assert!(matches!(&state.transcript[0], TranscriptBlock::Assistant { text, streaming: false } if text == "ab"));
    assert_eq!(state.transcript.len(), 1);
}

#[test]
fn one_thousand_deltas_stay_in_one_assistant_block() {
    let mut state = AppState::new((80, 24));
    run_started(&mut state);
    for _ in 0..1_000 {
        state.update(Action::AgentEvent(AgentEvent::TextDelta {
            run_id: RunId::new(1),
            text: "x".into(),
        }));
    }
    assert!(
        matches!(&state.transcript[..], [TranscriptBlock::Assistant { text, streaming: true }] if text.len() == 1_000)
    );
}

#[test]
fn tool_streams_are_separate_and_unknown_id_is_safe() {
    let mut state = AppState::new((80, 24));
    run_started(&mut state);
    state.update(Action::AgentEvent(AgentEvent::ToolOutput {
        run_id: RunId::new(1),
        tool_call_id: "orphan".into(),
        stream: ToolOutputStream::Stdout,
        chunk: "out".into(),
    }));
    state.update(Action::AgentEvent(AgentEvent::ToolOutput {
        run_id: RunId::new(1),
        tool_call_id: "orphan".into(),
        stream: ToolOutputStream::Stderr,
        chunk: "err".into(),
    }));
    assert!(
        matches!(&state.transcript[0], TranscriptBlock::Tool { stdout, stderr, name, .. } if stdout == "out" && stderr == "err" && name == "unknown")
    );
}

#[test]
fn expanded_tool_render_has_arguments_and_separate_stream_labels() {
    let mut state = AppState::new((80, 24));
    run_started(&mut state);
    tool_started(&mut state, "render");
    state.update(Action::AgentEvent(AgentEvent::ToolOutput {
        run_id: RunId::new(1),
        tool_call_id: "render".into(),
        stream: ToolOutputStream::Stdout,
        chunk: "out".into(),
    }));
    state.update(Action::AgentEvent(AgentEvent::ToolOutput {
        run_id: RunId::new(1),
        tool_call_id: "render".into(),
        stream: ToolOutputStream::Stderr,
        chunk: "err".into(),
    }));
    state.focus = Focus::Transcript;
    state.selection.selected_block = Some(0);
    state.update(Action::KeyInput(key(KeyCode::Char(' '))));
    let rendered = render_state(&state);
    assert!(rendered.contains("Arguments:"));
    assert!(rendered.contains("stdout:"));
    assert!(rendered.contains("stderr:"));
    assert!(rendered.contains("out"));
    assert!(rendered.contains("err"));
}

#[test]
fn tool_states_include_exit_code_timeout_and_abort() {
    let mut state = AppState::new((80, 24));
    run_started(&mut state);
    for (id, result, expected) in [
        (
            "failed",
            AgentToolResult {
                is_error: true,
                exit_code: Some(42),
                ..Default::default()
            },
            ToolRunState::Failed,
        ),
        (
            "timeout",
            AgentToolResult {
                is_error: true,
                timed_out: true,
                ..Default::default()
            },
            ToolRunState::TimedOut,
        ),
        (
            "abort",
            AgentToolResult {
                is_error: true,
                aborted: true,
                ..Default::default()
            },
            ToolRunState::Aborted,
        ),
    ] {
        tool_started(&mut state, id);
        state.update(Action::AgentEvent(AgentEvent::ToolFinished {
            run_id: RunId::new(1),
            tool_call_id: id.into(),
            name: "bash".into(),
            result,
        }));
        assert!(matches!(state.transcript.last(), Some(TranscriptBlock::Tool { state, .. }) if *state == expected));
    }
}

#[test]
fn follow_mode_and_unread_counter() {
    let mut state = AppState::new((80, 24));
    for i in 0..30 {
        state.transcript.push(TranscriptBlock::System {
            message: format!("line {i}"),
        });
    }
    state.update(Action::KeyInput(key(KeyCode::PageUp)));
    assert!(!state.scroll.follow_output);
    state.update(Action::AgentEvent(AgentEvent::RunStarted { run_id: RunId::new(1) }));
    state.update(Action::AgentEvent(AgentEvent::TextDelta {
        run_id: RunId::new(1),
        text: "new output".into(),
    }));
    assert!(state.scroll.unread_lines > 0);
    state.update(Action::KeyInput(key(KeyCode::End)));
    assert!(state.scroll.follow_output);
    assert_eq!(state.scroll.unread_lines, 0);
}

#[test]
fn scroll_clamps_on_resize_and_empty_transcript() {
    let mut state = AppState::new((80, 24));
    state.scroll_to_start();
    state.update(Action::Resize(20, 8));
    assert!(state.scroll.offset_from_bottom <= state.total_transcript_lines());
    state.update(Action::Resize(20, 3));
    state.update(Action::KeyInput(key(KeyCode::PageDown)));
    assert!(state.scroll.offset_from_bottom <= state.total_transcript_lines());
    let _ = render_state(&state);
}

#[test]
fn output_is_utf8_safe_and_has_one_truncation_marker() {
    let mut state = AppState::new((80, 24));
    run_started(&mut state);
    tool_started(&mut state, "large");
    let chunk = "界".repeat(1024 * 1024);
    for _ in 0..1 {
        state.update(Action::AgentEvent(AgentEvent::ToolOutput {
            run_id: RunId::new(1),
            tool_call_id: "large".into(),
            stream: ToolOutputStream::Stdout,
            chunk: chunk.clone(),
        }));
    }
    let TranscriptBlock::Tool { stdout, .. } = &state.transcript[0] else {
        panic!("tool")
    };
    assert!(stdout.is_char_boundary(stdout.len()));
    assert_eq!(stdout.matches(OUTPUT_TRUNCATION_MARKER).count(), 1);
}

#[test]
fn provider_error_is_separate_and_sanitized() {
    let mut state = AppState::new((80, 24));
    run_started(&mut state);
    state.update(Action::AgentEvent(AgentEvent::ProviderError {
        run_id: RunId::new(1),
        error: ProviderError {
            reason: StopReason::Error,
            message: "Authorization: Bearer secret".into(),
        },
    }));
    assert!(matches!(&state.transcript[0], TranscriptBlock::Error { message } if !message.contains("secret")));
    assert!(!render_state(&state).contains("secret"));
}

#[test]
fn test_backend_renders_all_requested_sizes_and_unicode() {
    for size in [(120, 40), (80, 24), (60, 18), (40, 12), (20, 8)] {
        let mut state = AppState::new(size);
        state.input.set_text("你好\nworld".into());
        state.transcript.push(TranscriptBlock::User {
            text: "多行 prompt\n第二行".into(),
        });
        state.transcript.push(TranscriptBlock::Assistant {
            text: "response".into(),
            streaming: true,
        });
        assert!(!render_state(&state).is_empty());
        assert!(input_height(size.0, size.1, &state.input) >= 3);
    }
}

// ── Further cases ───────────────────────────────────────────────────────────

#[test]
fn stale_run_events_are_ignored() {
    let mut state = AppState::new((80, 24));
    run_started(&mut state);
    state.update(Action::AgentEvent(AgentEvent::TextDelta {
        run_id: RunId::new(2),
        text: "late".into(),
    }));
    assert!(state.transcript.is_empty());
}

#[test]
fn toggling_twice_restores_collapsed_tool() {
    let mut state = AppState::new((80, 24));
    run_started(&mut state);
    tool_started(&mut state, "t");
    state.focus = Focus::Transcript;
    state.selection.selected_block = Some(0);
    state.update(Action::KeyInput(key(KeyCode::Enter)));
    state.update(Action::KeyInput(key(KeyCode::Enter)));
    assert!(matches!(state.transcript[0], TranscriptBlock::Tool { expanded: false, .. }));
}

#[test]
fn tool_arguments_are_pretty_printed() {
    let block = TranscriptBlock::tool("t".into(), "bash".into(), r#"{"command":"ls"}"#.into());
    assert!(matches!(&block, TranscriptBlock::Tool { arguments_display, .. } if arguments_display == "{\n  \"command\": \"ls\"\n}"));
    let bad = TranscriptBlock::tool("t".into(), "bash".into(), "not json".into());
    assert!(matches!(&bad, TranscriptBlock::Tool { arguments_display, .. } if arguments_display == "<invalid arguments>"));
}

#[test]
fn quit_action_requests_quit() {
    let mut state = AppState::new((80, 24));
    assert_eq!(state.update(Action::Quit), vec![Effect::Quit]);
    assert!(state.quit);
}

#[test]
fn quit_command_ends_the_ui() {
    let mut state = AppState::new((80, 24));
    let effects = state.update(Action::CommandCompleted(CommandOutcome { result: None, control: CommandControl::Quit }));
    assert_eq!(effects, vec![Effect::Quit]);
    assert!(state.quit);
}

#[test]
fn command_error_is_shown_sanitized() {
    let mut state = AppState::new((80, 24));
    state.update(Action::CommandFailed("token=abc123".into()));
    assert!(matches!(&state.transcript[0], TranscriptBlock::Error { message } if !message.contains("abc123")));
    assert_eq!(state.status, "Command error");
    assert_eq!(state.error.as_deref(), Some(sanitize_message("token=abc123").as_str()));
}

#[test]
fn tab_selects_last_expandable_block_and_escape_returns() {
    let mut state = AppState::new((80, 24));
    state.transcript.push(TranscriptBlock::Thinking { text: "x".into(), expanded: false });
    state.transcript.push(TranscriptBlock::User { text: "u".into() });
    state.update(Action::KeyInput(key(KeyCode::Tab)));
    assert_eq!(state.selection.selected_block, Some(0));
    state.update(Action::KeyInput(key(KeyCode::Esc)));
    assert_eq!(state.focus, Focus::Input);
    assert_eq!(state.selection.selected_block, None);
}

#[test]
fn blocks_are_copied_for_display() {
    let blocks = vec![TranscriptBlock::User { text: "a".into() }, TranscriptBlock::System { message: "b".into() }];
    assert_eq!(transcript_to_blocks(&blocks), blocks);
}

#[test]
fn status_bar_text_follows_state() {
    let mut state = AppState::new((80, 24));
    assert_eq!(
        state.status_text(80),
        "mock/mock | Ready | Input · Tab transcript · PageUp/Down scroll · Ctrl+C cancel"
    );
    assert_eq!(state.status_text(30), "Ready · Tab focus · Enter submit");
    run_started(&mut state);
    tool_started(&mut state, "t");
    assert_eq!(
        state.status_text(80),
        "mock/mock | Agent running | tool: bash | Input · Tab transcript · PageUp/Down scroll · Ctrl+C cancel | Running bash"
    );
    assert_eq!(state.status_text(39), "Agent running · Ctrl+C cancel");
    assert_eq!(state.status_color(), rusty_pi::transcript::LineColor::Yellow);
}

#[test]
fn panel_titles_follow_scroll_and_activity() {
    let mut state = AppState::new((80, 24));
    assert_eq!(state.transcript_title(), "Transcript");
    assert_eq!(state.input_title(), "Input · Enter submit · Ctrl+J newline");
    state.scroll.follow_output = false;
    assert_eq!(state.transcript_title(), "Transcript · browsing history");
    state.scroll.unread_lines = 3;
    assert_eq!(state.transcript_title(), "Transcript · 3 new lines · End to follow");
    state.activity = ActivityState::AgentRunning;
    assert_eq!(state.input_title(), "Input · draft (Enter unavailable)");
}

#[test]
fn transcript_top_is_bottom_while_following() {
    let mut state = AppState::new((80, 24));
    for i in 0..10 {
        state.transcript.push(TranscriptBlock::System { message: format!("line {i}") });
    }
    // Ten blocks of a header, a body line and a blank line: 30 rows.
    assert_eq!(state.transcript_top(80, 12), 20);
    state.scroll.follow_output = false;
    state.scroll.offset_from_bottom = 5;
    assert_eq!(state.transcript_top(80, 12), 15);
    let (top, line, column) = state.input_layout(80, 3);
    assert_eq!((top, line, column), (0, 0, 0));
}

#[test]
fn command_drive_cancels_on_ctrl_c_and_settles_once() {
    let mut state = AppState::new((80, 24));
    state.update(Action::CommandStarted { name: "tree".into() });
    assert!(!state.command_drive_action(Action::KeyInput(key(KeyCode::Char('x')))));
    assert!(state.command_drive_action(Action::KeyInput(ctrl('c'))));
    assert_eq!(state.activity, ActivityState::CommandCancelling);
    let outcome = state.command_settled(true, Ok(CommandOutcome::message("late")));
    assert!(matches!(outcome, CommandDriveOutcome::Cancelled));
    assert!(matches!(state.transcript.as_slice(), [TranscriptBlock::System { message }] if message == "Command cancelled"));
}

#[test]
fn command_drive_reports_outcome_failure_and_quit() {
    let mut state = AppState::new((80, 24));
    state.update(Action::CommandStarted { name: "session".into() });
    let outcome = state.command_settled(false, Ok(CommandOutcome::message("info")));
    assert!(matches!(outcome, CommandDriveOutcome::Completed(CommandOutcome { result: Some(CommandResult::Message(m)), .. }) if m == "info"));
    state.update(Action::CommandStarted { name: "session".into() });
    let failed = state.command_settled(false, Err("boom".into()));
    assert!(matches!(failed, CommandDriveOutcome::Failed(m) if m == "boom"));
    assert_eq!(state.status, "Command error");
    state.update(Action::CommandStarted { name: "quit".into() });
    let quit = state.command_settled(false, Ok(CommandOutcome::quit()));
    assert!(matches!(quit, CommandDriveOutcome::Quit));
    assert!(state.quit);
    assert!(state.command_drive_action(Action::Quit));
}
