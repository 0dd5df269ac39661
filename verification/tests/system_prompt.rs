use rusty_pi::skills::{Skill, SkillSourceInfo};
use rusty_pi::system_prompt::{build_system_prompt, BuildSystemPromptOptions, ContextFile};

fn make_skill(name: &str, desc: &str) -> Skill {
    Skill {
        name: name.into(),
        description: desc.into(),
        file_path: format!("/skills/{}/SKILL.md", name),
        base_dir: format!("/skills/{}", name),
        source_info: SkillSourceInfo {
            source: "test".into(),
            scope: None,
            base_dir: "/skills".into(),
        },
        disable_model_invocation: false,
    }
}

#[test]
fn default_prompt_contains_tools() {
    let prompt = build_system_prompt(BuildSystemPromptOptions {
        selected_tools: vec!["read".into(), "bash".into()],
        tool_snippets: vec![
            ("read".into(), "Read file contents".into()),
            ("bash".into(), "Execute bash commands".into()),
        ],
        cwd: "/test".into(),
        ..Default::default()
    });

    assert!(prompt.contains("Available tools:"));
    assert!(prompt.contains("read: Read file contents"));
    assert!(prompt.contains("bash: Execute bash commands"));
    assert!(prompt.contains("Current working directory: /test"));
}

#[test]
fn default_prompt_no_tools() {
    let prompt = build_system_prompt(BuildSystemPromptOptions {
        cwd: "/test".into(),
        ..Default::default()
    });

    assert!(prompt.contains("(none)"));
}

#[test]
fn custom_prompt_used_directly() {
    let prompt = build_system_prompt(BuildSystemPromptOptions {
        custom_prompt: Some("You are a specialized code inspector.".into()),
        cwd: "/test".into(),
        ..Default::default()
    });

    assert!(prompt.starts_with("You are a specialized code inspector."));
    assert!(prompt.contains("Current working directory: /test"));
}

#[test]
fn custom_prompt_with_skills() {
    let skills = vec![make_skill("review", "Code review skill")];
    let prompt = build_system_prompt(BuildSystemPromptOptions {
        custom_prompt: Some("Custom prompt".into()),
        selected_tools: vec!["read".into()],
        skills,
        cwd: "/test".into(),
        ..Default::default()
    });

    assert!(prompt.contains("<available_skills>"));
    assert!(prompt.contains("review"));
}

#[test]
fn append_system_prompt_text() {
    let prompt = build_system_prompt(BuildSystemPromptOptions {
        append_system_prompt: Some("# Additional Notes\n\nExtra content.".into()),
        cwd: "/test".into(),
        ..Default::default()
    });

    assert!(prompt.contains("# Additional Notes"));
    assert!(prompt.contains("Extra content."));
}

#[test]
fn context_files_included() {
    let prompt = build_system_prompt(BuildSystemPromptOptions {
        context_files: vec![ContextFile {
            path: "AGENTS.md".into(),
            content: "## Rules\n\nBe nice.".into(),
        }],
        cwd: "/test".into(),
        ..Default::default()
    });

    assert!(prompt.contains("<project_context>"));
    assert!(prompt.contains("<project_instructions path=\"AGENTS.md\">"));
    assert!(prompt.contains("Be nice."));
}

#[test]
fn bash_without_grep_has_file_guideline() {
    let prompt = build_system_prompt(BuildSystemPromptOptions {
        selected_tools: vec!["bash".into(), "read".into()],
        tool_snippets: vec![("bash".into(), "Run commands".into()), ("read".into(), "Read files".into())],
        cwd: "/test".into(),
        ..Default::default()
    });

    assert!(prompt.contains("Use bash for file operations like ls, rg, find"));
}

#[test]
fn bash_with_grep_omits_file_guideline() {
    let prompt = build_system_prompt(BuildSystemPromptOptions {
        selected_tools: vec!["bash".into(), "grep".into(), "find".into(), "read".into()],
        tool_snippets: vec![
            ("bash".into(), "Run commands".into()),
            ("grep".into(), "Grep files".into()),
            ("find".into(), "Find files".into()),
            ("read".into(), "Read files".into()),
        ],
        cwd: "/test".into(),
        ..Default::default()
    });

    assert!(!prompt.contains("Use bash for file operations"));
}

#[test]
fn prompt_guidelines_included() {
    let prompt = build_system_prompt(BuildSystemPromptOptions {
        selected_tools: vec!["read".into()],
        tool_snippets: vec![("read".into(), "Read files".into())],
        prompt_guidelines: vec!["Always format code with rustfmt.".into()],
        cwd: "/test".into(),
        ..Default::default()
    });

    assert!(prompt.contains("Always format code with rustfmt."));
}

// ── Further cases ───────────────────────────────────────────────────────────

#[test]
fn custom_prompt_exact_layout() {
    let prompt = build_system_prompt(BuildSystemPromptOptions {
        custom_prompt: Some("P".into()),
        append_system_prompt: Some("A".into()),
        context_files: vec![ContextFile {
            path: "c.md".into(),
            content: "C".into(),
        }],
        cwd: "C:\\work\\dir".into(),
        ..Default::default()
    });
    assert_eq!(
        prompt,
        "P\n\nA\n\n<project_context>\n\nProject-specific instructions and guidelines:\n\n<project_instructions path=\"c.md\">\nC\n</project_instructions>\n\n</project_context>\n\nCurrent working directory: C:/work/dir"
    );
}

#[test]
fn tools_without_snippet_and_blank_guidelines_are_left_out() {
    let prompt = build_system_prompt(BuildSystemPromptOptions {
        selected_tools: vec!["write".into(), "bash".into()],
        tool_snippets: vec![("bash".into(), "Run".into()), ("bash".into(), "Other".into())],
        prompt_guidelines: vec!["   ".into(), "  Keep it short  ".into()],
        cwd: "/w".into(),
        ..Default::default()
    });
    assert!(prompt.contains("Available tools:\n- bash: Run\n\nIn addition"));
    assert!(prompt.contains(
        "Guidelines:\n- Use bash for file operations like ls, rg, find\n- Keep it short\n- Be concise in your responses\n- Show file paths clearly when working with files\n\nPi documentation"
    ));
    assert!(prompt.ends_with("\nCurrent working directory: /w"));
}

#[test]
fn skills_left_out_without_read_tool() {
    let prompt = build_system_prompt(BuildSystemPromptOptions {
        selected_tools: vec!["bash".into()],
        skills: vec![make_skill("review", "Code review skill")],
        cwd: "/w".into(),
        ..Default::default()
    });
    assert!(!prompt.contains("<available_skills>"));
    assert!(prompt.contains("Available tools:\n(none)\n"));
}
