use rusty_pi::session_controller::{
    classify_prompt, CancelResult, ControllerActivity, ControllerOperation, ControllerRequestError,
    ModelSummary, PromptRejection, PromptSubmission, RunId, SessionController,
    SessionControllerEvent, SnapshotData,
};

fn model(id: &str) -> ModelSummary {
    ModelSummary {
        id: id.into(),
        api: "mock".into(),
    }
}

fn cache() -> SnapshotData {
    SnapshotData {
        session_id: Some("s1".into()),
        model: model("mock"),
        message_count: 0,
        context_files: vec![],
        skill_names: vec![],
        template_names: vec![],
        agent_dir: "/tmp/.pi/agent".into(),
        cwd: "/tmp".into(),
        models: vec![model("mock"), model("codex")],
    }
}

#[test]
fn classification_of_prompts() {
    assert_eq!(classify_prompt("  \n", None), Err(PromptRejection::Empty));
    assert_eq!(
        classify_prompt("  /help me", None),
        Err(PromptRejection::ReservedCommand { name: "help".into() })
    );
    assert_eq!(
        classify_prompt("/not-a-command", None),
        Err(PromptRejection::UnknownSlash {
            name: "not-a-command".into()
        })
    );
    assert_eq!(
        classify_prompt("/review src/", Some("Review src/".into())),
        Ok("Review src/".into())
    );
    assert_eq!(classify_prompt("  hello ", None), Ok("  hello ".into()));
}

#[test]
fn rejection_messages() {
    assert_eq!(PromptRejection::Empty.message(), "Prompt is empty");
    assert_eq!(
        PromptRejection::UnknownSlash { name: "x".into() }.message(),
        "Unknown command '/x'. Type '/help' for available commands."
    );
    assert_eq!(
        PromptRejection::ReservedCommand { name: "tree".into() }.message(),
        "'/tree' is a built-in command and must be routed through the command registry"
    );
}

#[test]
fn prompt_lifecycle_busy_cancel_settle() {
    let mut controller = SessionController::new(cache());
    assert_eq!(controller.activity_now(), ControllerActivity::Idle);
    let request_id = controller.open_prompt().unwrap();
    assert_eq!(request_id.get(), 1);
    let (submission, events) = controller.start_run::<()>(request_id, RunId(7), "hi");
    assert!(matches!(submission, PromptSubmission::Accepted { original, .. } if original == "hi"));
    assert_eq!(events.len(), 2);
    let running = ControllerActivity::Running {
        request_id,
        run_id: RunId(7),
    };
    assert!(matches!(events[1], SessionControllerEvent::StateChanged(a) if a == running));
    let snapshot = controller.snapshot();
    assert_eq!(snapshot.current_run_id, Some(RunId(7)));
    assert_eq!(snapshot.message_count, 1);

    assert_eq!(controller.open_prompt(), Err(ControllerRequestError::Busy(running)));
    assert_eq!(controller.add_context("x"), Err(ControllerRequestError::Busy(running)));
    assert_eq!(controller.switch_model("codex", true), Err(ControllerRequestError::Busy(running)));
    assert!(controller.list_models().is_err());
    assert_eq!(controller.snapshot().current_run_id, Some(RunId(7)));

    let (first, _) = controller.cancel_current::<()>();
    assert_eq!(
        first,
        CancelResult::CancellationRequested {
            request_id,
            run_id: RunId(7)
        }
    );
    let (second, events) = controller.cancel_current::<()>();
    assert_eq!(
        second,
        CancelResult::AlreadyCancelling {
            request_id,
            run_id: RunId(7)
        }
    );
    assert!(events.is_empty());

    let event = controller.agent_event("finished", true).unwrap();
    assert!(matches!(event, SessionControllerEvent::Agent { request_id: r, event: "finished" } if r == request_id));
    let events = controller.run_settled::<()>(Some("aborted".into()), cache());
    assert_eq!(events.len(), 1);
    assert!(matches!(events[0], SessionControllerEvent::StateChanged(ControllerActivity::Idle)));
    assert_eq!(controller.cancel_current::<()>().0, CancelResult::NothingRunning);
    assert_eq!(controller.open_prompt().unwrap().get(), 2);
}

#[test]
fn failure_without_final_event_is_reported() {
    let mut controller = SessionController::new(cache());
    let request_id = controller.open_prompt().unwrap();
    controller.start_run::<()>(request_id, RunId(1), "go");
    let events = controller.run_settled::<()>(Some("boom".into()), cache());
    assert_eq!(events.len(), 2);
    assert!(matches!(&events[0], SessionControllerEvent::ControllerError { operation: ControllerOperation::RunSettlement, message } if message == "boom"));
}

#[test]
fn rejected_prompt_does_not_run() {
    let mut controller = SessionController::new(cache());
    let request_id = controller.open_prompt().unwrap();
    let (submission, event) =
        controller.reject_prompt::<()>(request_id, PromptRejection::UnknownSlash { name: "x".into() });
    assert!(matches!(submission, PromptSubmission::Rejected { .. }));
    assert!(matches!(event, SessionControllerEvent::PromptRejected { .. }));
    assert_eq!(controller.activity_now(), ControllerActivity::Idle);
    assert_eq!(controller.snapshot().current_run_id, None);
}

#[test]
fn idle_model_switch_and_context() {
    let mut controller = SessionController::new(cache());
    assert!(matches!(
        controller.switch_model("missing", true),
        Err(ControllerRequestError::InvalidModel(m)) if m == "missing"
    ));
    let same = controller.switch_model("mock", true).unwrap();
    assert!(!same.changed);
    assert!(matches!(
        controller.switch_model("codex", false),
        Err(ControllerRequestError::InvalidModel(m)) if m == "codex"
    ));
    let changed = controller.switch_model("codex", true).unwrap();
    assert!(changed.changed);
    assert_eq!(controller.snapshot().model.id, "codex");
    let added = controller.add_context("context.md").unwrap();
    assert_eq!(added.path, "context.md");
    assert_eq!(controller.snapshot().context_files, vec!["context.md".to_string()]);
    assert_eq!(controller.list_models().unwrap().len(), 2);
}

#[test]
fn shutdown_during_run_cancels_then_stops() {
    let mut controller = SessionController::new(cache());
    let request_id = controller.open_prompt().unwrap();
    controller.start_run::<()>(request_id, RunId(3), "long");
    let events = controller.request_shutdown::<()>().unwrap();
    assert!(matches!(events[0], SessionControllerEvent::StateChanged(ControllerActivity::ShuttingDown)));
    assert_eq!(
        controller.cancel_current::<()>().0,
        CancelResult::AlreadyCancelling {
            request_id,
            run_id: RunId(3)
        }
    );
    let events = controller.run_settled::<()>(None, cache());
    assert!(events.is_empty());
    assert_eq!(controller.activity_now(), ControllerActivity::ShuttingDown);
    let events = controller.finish::<()>();
    assert_eq!(events.len(), 2);
    assert_eq!(controller.activity_now(), ControllerActivity::Stopped);
    assert_eq!(
        controller.request_shutdown::<()>().unwrap_err(),
        ControllerRequestError::Stopped
    );
    assert_eq!(controller.open_prompt(), Err(ControllerRequestError::Stopped));
}
