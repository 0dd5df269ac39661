use rusty_pi::command::{
    builtin_registry, resolve_input, truncate_preview, InputRoute, CommandControl, CommandHelpItem, CommandInteraction,
    CommandInvocation, CommandMatch, CommandOutcome, CommandRegistry, CommandResult,
    ExitCommand, FailingCommandInteraction, InputRequest, InteractionResult, LineReadError,
    LineReader, MockCommandInteraction, MockLineReader, QuitCommand, SelectRequest,
    UnavailableCommandInteraction, model_chosen, model_command_step, model_picker_help, model_picker_unavailable,
    context_added_message, ModelStep,
};
use std::path::Path;

#[test]
fn invocation_preserves_argument_whitespace() {
    let invocation = CommandInvocation::parse("/context   ./folder/file with spaces.md ").unwrap();
    assert_eq!(invocation.name, "context");
    assert_eq!(invocation.raw_args, "./folder/file with spaces.md ");
    assert_eq!(invocation.trimmed_args(), "./folder/file with spaces.md");
}

#[test]
fn registry_only_recognizes_commands() {
    let registry = builtin_registry();
    assert!(matches!(registry.resolve("hello"), CommandMatch::NotSlash));
    assert!(matches!(registry.resolve("/help"), CommandMatch::Known(_)));
    assert!(matches!(registry.resolve("/unknown"), CommandMatch::UnknownSlash(_)));
}

#[test]
fn truncate_preview_is_unicode_safe() {
    let result = truncate_preview("中文🙂文本", 4);
    assert!(result.is_char_boundary(result.len()));
    assert!(result.ends_with("..."));
}

#[test]
fn line_reader_is_still_testable() {
    let mut reader = MockLineReader::new(vec!["a".into()]);
    assert_eq!(reader.readline("> ").unwrap(), "a");
    reader.add_history_entry("a");
    assert_eq!(reader.history, vec!["a"]);
    assert!(Path::new("/tmp").exists());
}

#[test]
fn invocation_without_arguments_is_detected() {
    let invocation = CommandInvocation::parse("/help").unwrap();
    assert_eq!(invocation.name, "help");
    assert!(!invocation.has_args());
}

#[test]
fn invocation_name_never_contains_slash() {
    let invocation = CommandInvocation::parse("/tree now").unwrap();
    assert_eq!(invocation.name, "tree");
    assert!(!invocation.name.contains('/'));
}

#[test]
fn registry_non_slash_is_not_a_command() {
    assert_eq!(builtin_registry().resolve("hello"), CommandMatch::NotSlash);
}

#[test]
fn registry_empty_input_is_not_a_command() {
    assert_eq!(builtin_registry().resolve(""), CommandMatch::NotSlash);
}

#[test]
fn help_contains_tips_and_all_builtins() {
    let text = builtin_registry().help_text();
    assert!(text.contains("Commands:"));
    assert!(text.contains("/help"));
    assert!(text.contains("/list-sessions"));
    assert!(text.contains("Ctrl+C"));
}

#[test]
fn outcome_helpers_separate_result_and_control() {
    assert_eq!(CommandOutcome::message("ok").control, CommandControl::Continue);
    assert_eq!(CommandOutcome::none().result, None);
    assert_eq!(CommandOutcome::quit().result, None);
}

#[test]
fn command_help_items_are_value_equal() {
    let left = CommandHelpItem {
        name: "x".into(),
        description: "X".into(),
    };
    let right = CommandHelpItem {
        name: "x".into(),
        description: "X".into(),
    };
    assert_eq!(left, right);
}

#[test]
fn command_result_variants_are_distinct() {
    assert_ne!(CommandResult::Message("a".into()), CommandResult::Error("a".into()));
    assert_ne!(
        CommandResult::ModelChanged { model: "a".into() },
        CommandResult::Message("a".into())
    );
}

// ── Further cases ───────────────────────────────────────────────────────────

#[test]
fn parse_rejects_non_slash_and_bare_slash() {
    assert_eq!(CommandInvocation::parse("hello"), None);
    assert_eq!(CommandInvocation::parse("/"), None);
    assert_eq!(CommandInvocation::parse("/ help"), None);
    assert_eq!(CommandInvocation::parse(""), None);
}

#[test]
fn parse_ignores_leading_whitespace_and_splits_on_tabs() {
    let invocation = CommandInvocation::parse("  \t/model\tcodex  ").unwrap();
    assert_eq!(invocation.name, "model");
    assert_eq!(invocation.raw_args, "codex  ");
    assert!(invocation.has_args());
    assert_eq!(invocation.trimmed_args(), "codex");
}

#[test]
fn new_keeps_name_and_arguments() {
    let invocation = CommandInvocation::new("model", " a ");
    assert_eq!(invocation.name, "model");
    assert_eq!(invocation.raw_args, " a ");
    assert!(invocation.has_args());
    assert!(!CommandInvocation::new("model", "  \t").has_args());
}

#[test]
fn truncate_preview_exact_values() {
    assert_eq!(truncate_preview("hello", 10), "hello");
    assert_eq!(truncate_preview("hello", 5), "hello");
    assert_eq!(truncate_preview("hello world", 8), "hello...");
    assert_eq!(truncate_preview("hello", 3), "hel");
    assert_eq!(truncate_preview("hello", 0), "");
    assert_eq!(truncate_preview("中文🙂文本", 4), "中...");
}

#[test]
fn registry_register_replaces_same_name_in_place() {
    let mut registry = CommandRegistry::new();
    registry.register("a", "first");
    registry.register("b", "second");
    registry.register("a", "replaced");
    let items = registry.help_items();
    assert_eq!(items.len(), 2);
    assert_eq!(items[0].name, "a");
    assert_eq!(items[0].description, "replaced");
    assert_eq!(items[1].name, "b");
    assert!(matches!(registry.resolve("/help"), CommandMatch::UnknownSlash(_)));
    registry.register_help();
    assert!(matches!(registry.resolve("/help me"), CommandMatch::Known(_)));
    assert_eq!(registry.help_items()[0].name, "help");
}

#[test]
fn builtin_help_lists_commands_in_order_with_padding() {
    let text = builtin_registry().help_text();
    assert!(text.starts_with("\n  Commands:\n    /help         Show this help message\n"));
    assert!(text.contains("    /exit         Exit the REPL\n"));
    assert!(text.contains("    /list-sessions Show") == false);
    assert!(text.contains("    /list-sessions List all saved sessions\n"));
    assert!(text.ends_with("    - Type any text to chat with the agent\n"));
}

#[test]
fn exit_and_quit_execute_to_quit_control() {
    let outcome = ExitCommand.execute();
    assert_eq!(outcome.result, None);
    assert_eq!(outcome.control, CommandControl::Quit);
    assert_eq!(QuitCommand.execute(), CommandOutcome::quit());
}

#[test]
fn unavailable_interaction_returns_help_or_default_message() {
    let mut interaction = UnavailableCommandInteraction;
    assert!(!interaction.is_available());
    let result = interaction
        .select(SelectRequest {
            prompt: "pick".into(),
            options: vec![],
            help: Some("use /model <id>".into()),
        })
        .unwrap();
    assert_eq!(
        result,
        InteractionResult::Unavailable {
            message: "use /model <id>".into()
        }
    );
    let result = interaction
        .input(InputRequest {
            prompt: "path".into(),
            default: None,
            help: None,
        })
        .unwrap();
    assert_eq!(
        result,
        InteractionResult::Unavailable {
            message: "Interactive input is not available yet.".into()
        }
    );
}

#[test]
fn mock_interaction_pops_last_result_and_records_requests() {
    let mut interaction = MockCommandInteraction::new(
        vec![
            InteractionResult::Value("first".into()),
            InteractionResult::Value("second".into()),
        ],
        vec![],
    );
    let request = SelectRequest {
        prompt: "pick".into(),
        options: vec!["a".into()],
        help: None,
    };
    assert_eq!(
        interaction.select(request.clone()).unwrap(),
        InteractionResult::Value("second".into())
    );
    assert_eq!(interaction.select_requests, vec![request]);
    let error = interaction
        .input(InputRequest {
            prompt: "path".into(),
            default: None,
            help: None,
        })
        .unwrap_err();
    assert_eq!(error, "MockCommandInteraction: no input result");
    assert_eq!(interaction.input_requests.len(), 1);
}

#[test]
fn failing_interaction_reports_its_message() {
    let mut interaction = FailingCommandInteraction::new("terminal failed");
    let error = interaction
        .select(SelectRequest {
            prompt: "pick".into(),
            options: vec![],
            help: None,
        })
        .unwrap_err();
    assert_eq!(error, "terminal failed");
}

#[test]
fn mock_line_reader_ends_with_eof() {
    let mut reader = MockLineReader::new(vec!["one".into(), "two".into()]);
    assert_eq!(reader.readline("> ").unwrap(), "one");
    assert_eq!(reader.readline("> ").unwrap(), "two");
    assert_eq!(reader.readline("> "), Err(LineReadError::Eof));
    assert_eq!(reader.readline("> "), Err(LineReadError::Eof));
}

#[test]
fn input_routes_to_commands_prompts_or_unknown() {
    let registry = builtin_registry();
    assert!(matches!(
        resolve_input("hello there", &registry, None),
        InputRoute::AgentPrompt { original, expanded } if original == "hello there" && expanded == "hello there"
    ));
    assert!(matches!(
        resolve_input("/tree", &registry, Some("ignored".into())),
        InputRoute::Command(invocation) if invocation.name == "tree"
    ));
    assert!(matches!(
        resolve_input("/greet Alice", &registry, Some("Hello, Alice!".into())),
        InputRoute::AgentPrompt { original, expanded } if original == "/greet Alice" && expanded == "Hello, Alice!"
    ));
    assert!(matches!(
        resolve_input("/not-known", &registry, None),
        InputRoute::UnknownSlash { name } if name == "not-known"
    ));
    assert!(matches!(
        resolve_input("/skill:not-known", &registry, None),
        InputRoute::UnknownSlash { name } if name == "skill:not-known"
    ));
}

fn model_ids() -> Vec<String> {
    vec!["mock".to_string(), "codex".to_string()]
}

#[test]
fn model_argument_matches_exactly() {
    match model_command_step(&model_ids(), "mock", " codex ", false, false) {
        ModelStep::Chosen(m) => assert_eq!(m, "codex"),
        _ => panic!("expected a chosen model"),
    }
    let outcome = model_chosen("codex", "mock");
    assert_eq!(outcome.result, Some(CommandResult::ModelChanged { model: "codex".into() }));
}

#[test]
fn unknown_model_lists_available_ids() {
    match model_command_step(&model_ids(), "mock", "missing", true, false) {
        ModelStep::Answer(CommandResult::Error(m)) => {
            assert_eq!(m, "Model 'missing' not found. Available models: mock, codex")
        }
        _ => panic!("expected an error"),
    }
}

#[test]
fn model_without_argument_asks_or_explains() {
    assert!(matches!(model_command_step(&model_ids(), "mock", "", true, false), ModelStep::Ask));
    assert!(matches!(model_command_step(&model_ids(), "mock", "  ", true, true), ModelStep::Nothing));
    match model_command_step(&[], "mock", "", true, false) {
        ModelStep::Answer(CommandResult::Message(m)) => {
            assert_eq!(m, "Current model: mock. This provider doesn't support runtime model switching.")
        }
        _ => panic!("expected a message"),
    }
    match model_command_step(&[], "mock", "", false, false) {
        ModelStep::Answer(CommandResult::Message(m)) => assert!(m.contains("Use: /model <model-id>")),
        _ => panic!("expected a message"),
    }
}

#[test]
fn model_picker_texts() {
    assert_eq!(
        model_picker_help(&model_ids()),
        "TUI model picker is not available yet.\nUse: /model <model-id>\n\nAvailable models:\n  mock\n  codex"
    );
    let outcome = model_picker_unavailable("No terminal", &model_ids());
    assert_eq!(
        outcome.result,
        Some(CommandResult::Message("No terminal\n\nAvailable models:\n  mock\n  codex".into()))
    );
    assert_eq!(model_chosen("mock", "mock").result, Some(CommandResult::Message("Already using mock".into())));
}

#[test]
fn context_report_counts_whole_kilobytes() {
    let outcome = context_added_message("notes.md", 2047);
    assert_eq!(outcome.result, Some(CommandResult::Message("Added notes.md (1KB) to system prompt".into())));
}
