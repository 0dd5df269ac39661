use rusty_pi::prompt_session::PromptSession;
use rusty_pi::prompt_templates::{PromptTemplate, ResourceScope};
use rusty_pi::session_controller::ModelSummary;
use rusty_pi::skills::{Skill, SkillSourceInfo};
use rusty_pi::system_prompt::ContextFile;

fn mock_model() -> ModelSummary {
    ModelSummary {
        id: "mock".into(),
        api: "mock".into(),
    }
}

fn create_test_session() -> PromptSession {
    let greet = PromptTemplate {
        name: "greet".into(),
        description: "Greeting".into(),
        argument_hint: None,
        content: "Hello, $1!".into(),
        source: "test".into(),
        scope: ResourceScope::Path,
        file_path: "/fake/greet.md".into(),
    };
    PromptSession::new(
        mock_model(),
        vec![],
        "/tmp".into(),
        "/tmp/.pi/agent".into(),
        vec![greet],
        vec![],
        false,
        vec![],
    )
}

fn prompt_tools() -> Vec<(String, String)> {
    vec![
        ("bash".into(), "run shell commands".into()),
        ("read".into(), "read files".into()),
        ("write".into(), "write files".into()),
        ("edit".into(), "edit files".into()),
    ]
}

fn session_with_tools(skills: Vec<Skill>, context_files: Vec<ContextFile>) -> PromptSession {
    PromptSession::new(
        mock_model(),
        prompt_tools(),
        "/tmp".into(),
        "/tmp/.pi/agent".into(),
        vec![],
        skills,
        false,
        context_files,
    )
}

fn review_skill(description: &str) -> Skill {
    Skill {
        name: "review".into(),
        description: description.into(),
        file_path: "/s/review/SKILL.md".into(),
        base_dir: "/s/review".into(),
        source_info: SkillSourceInfo {
            source: "path".into(),
            scope: None,
            base_dir: "/s/review".into(),
        },
        disable_model_invocation: false,
    }
}

#[test]
fn expand_template_in_prompt() {
    let session = create_test_session();
    let result = session.expand("/greet Alice", None);
    assert_eq!(result, "Hello, Alice!");
}

#[test]
fn expand_regular_text_passes_through() {
    let session = create_test_session();
    let result = session.expand("Hello, world!", None);
    assert_eq!(result, "Hello, world!");
}

#[test]
fn new_system_prompt_contains_all_enabled_tools() {
    let session = session_with_tools(vec![], vec![]);
    let prompt = session.system_prompt();
    for tool in ["bash", "read", "write", "edit"] {
        assert!(prompt.contains(&format!("- {tool}:")), "missing {tool}: {prompt}");
    }
}

#[test]
fn initial_context_files_are_accumulated() {
    let session = session_with_tools(
        vec![],
        vec![
            ContextFile {
                path: "first.md".into(),
                content: "first context".into(),
            },
            ContextFile {
                path: "second.md".into(),
                content: "second context".into(),
            },
        ],
    );
    assert!(session.system_prompt().contains("first context"));
    assert!(session.system_prompt().contains("second context"));
}

#[test]
fn adding_context_preserves_existing_state() {
    let initial = ContextFile {
        path: "initial.md".into(),
        content: "initial context".into(),
    };
    let mut session = session_with_tools(vec![review_skill("review skill")], vec![initial]);

    session.add_context_file("added-one.md".into(), "added one".into());
    session.add_context_file("added-two.md".into(), "added two".into());

    let prompt = session.system_prompt();
    assert!(prompt.contains("initial context"));
    assert!(prompt.contains("added one"));
    assert!(prompt.contains("added two"));
    assert!(prompt.contains("review skill"));
    assert!(prompt.contains("- bash: run shell commands"));
    assert!(prompt.contains("- read: read files"));
}

#[test]
fn reload_resources_rebuilds_prompt_without_dropping_state() {
    let mut session = session_with_tools(
        vec![review_skill("old description")],
        vec![ContextFile {
            path: "context.md".into(),
            content: "persistent context".into(),
        }],
    );
    assert!(session.system_prompt().contains("old description"));

    session.reload_resources(vec![], vec![review_skill("new description")]);

    let prompt = session.system_prompt();
    assert!(prompt.contains("new description"));
    assert!(prompt.contains("persistent context"));
    assert!(prompt.contains("- edit: edit files"));
    assert!(!prompt.contains("old description"));
}

#[test]
fn skill_command_expands_before_templates() {
    let session = session_with_tools(vec![review_skill("review skill")], vec![]);
    let expanded = session.expand("/skill:review now", Some("---\ndescription: x\n---\nSteps"));
    assert!(expanded.starts_with("<skill name=\"review\""));
    assert!(expanded.ends_with("Steps\n</skill>\n\nnow"));
    assert_eq!(session.expand("/skill:review now", None), "/skill:review now");
    assert_eq!(session.expand("/unknown x", None), "/unknown x");
}

#[test]
fn model_switch_and_accessors() {
    let mut session = create_test_session();
    assert_eq!(session.model().id, "mock");
    session.switch_model(ModelSummary {
        id: "codex".into(),
        api: "mock".into(),
    });
    assert_eq!(session.model().id, "codex");
    assert_eq!(session.agent_dir(), "/tmp/.pi/agent");
    assert_eq!(session.cwd(), "/tmp");
    assert_eq!(session.templates().len(), 1);
    assert!(session.skills().is_empty());
    assert!(!session.uses_default_locations());
}
