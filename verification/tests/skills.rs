use rusty_pi::skills::{
    expand_skill_command, format_skills_for_prompt, skill_command_target, skill_from_markdown,
    validate_description, validate_name, DiagnosticLevel, ResourceDiagnostic, Skill,
    SkillSourceInfo,
};

#[test]
fn valid_name_passes() {
    let errors = validate_name("my-skill");
    assert!(errors.is_empty());
}

#[test]
fn valid_name_with_numbers() {
    let errors = validate_name("skill-42");
    assert!(errors.is_empty());
}

#[test]
fn name_too_long() {
    let long = "a".repeat(64 + 1);
    let errors = validate_name(&long);
    assert!(errors.iter().any(|e| e.contains("exceeds")));
}

#[test]
fn name_with_uppercase_fails() {
    let errors = validate_name("MySkill");
    assert!(errors.iter().any(|e| e.contains("invalid characters")));
}

#[test]
fn name_starting_with_hyphen_fails() {
    let errors = validate_name("-skill");
    assert!(errors.iter().any(|e| e.contains("start or end")));
}

#[test]
fn name_with_consecutive_hyphens_fails() {
    let errors = validate_name("my--skill");
    assert!(errors.iter().any(|e| e.contains("consecutive hyphens")));
}

#[test]
fn valid_description_passes() {
    let errors = validate_description(Some("A useful skill"));
    assert!(errors.is_empty());
}

#[test]
fn missing_description_fails() {
    let errors = validate_description(None);
    assert!(errors.iter().any(|e| e.contains("required")));
}

#[test]
fn empty_description_fails() {
    let errors = validate_description(Some(""));
    assert!(errors.iter().any(|e| e.contains("required")));
}

#[test]
fn description_too_long() {
    let long = "a".repeat(1024 + 1);
    let errors = validate_description(Some(&long));
    assert!(errors.iter().any(|e| e.contains("exceeds")));
}

fn make_skill(name: &str, desc: &str, disabled: bool) -> Skill {
    Skill {
        name: name.into(),
        description: desc.into(),
        file_path: format!("/skills/{}/SKILL.md", name),
        base_dir: format!("/skills/{}", name),
        source_info: SkillSourceInfo {
            source: "test".into(),
            scope: None,
            base_dir: "/skills".into(),
        },
        disable_model_invocation: disabled,
    }
}

#[test]
fn format_no_skills() {
    let result = format_skills_for_prompt(&[]);
    assert_eq!(result, "");
}

#[test]
fn format_single_skill() {
    let skills = vec![make_skill("test-skill", "A test skill", false)];
    let result = format_skills_for_prompt(&skills);
    assert!(result.contains("<available_skills>"));
    assert!(result.contains("<name>test-skill</name>"));
    assert!(result.contains("<description>A test skill</description>"));
    assert!(result.contains("</available_skills>"));
    assert!(result.contains("The following skills provide specialized instructions"));
}

#[test]
fn format_excludes_disabled_skills() {
    let skills = vec![
        make_skill("visible", "I am visible", false),
        make_skill("hidden", "I am hidden", true),
    ];
    let result = format_skills_for_prompt(&skills);
    assert!(result.contains("visible"));
    assert!(!result.contains("hidden"));
}

#[test]
fn xml_escapes_special_chars() {
    let skills = vec![make_skill("test&skill", "description with < & > \" '", false)];
    let result = format_skills_for_prompt(&skills);
    assert!(result.contains("test&amp;skill"));
    assert!(result.contains("&lt;"));
    assert!(result.contains("&gt;"));
    assert!(result.contains("&quot;"));
    assert!(result.contains("&apos;"));
}

#[test]
fn expand_skill_command_unknown_passes_through() {
    let result = expand_skill_command("/skill:unknown args", &[], None);
    assert_eq!(result, "/skill:unknown args");
}

#[test]
fn expand_skill_command_non_skill_passes_through() {
    let result = expand_skill_command("just regular text", &[], None);
    assert_eq!(result, "just regular text");
}

// ── Further cases ───────────────────────────────────────────────────────────

#[test]
fn validation_messages_are_exact_and_ordered() {
    assert_eq!(
        validate_name("-Bad--Name-"),
        vec![
            "name contains invalid characters (must be lowercase a-z, 0-9, hyphens only)",
            "name must not start or end with a hyphen",
            "name must not contain consecutive hyphens",
        ]
    );
    let long = "é".repeat(33);
    assert_eq!(
        validate_name(&long),
        vec![
            "name exceeds 64 characters (66)",
            "name contains invalid characters (must be lowercase a-z, 0-9, hyphens only)",
        ]
    );
    assert_eq!(
        validate_description(Some(&"a".repeat(1025))),
        vec!["description exceeds 1024 characters (1025)"]
    );
    assert!(validate_description(Some(&"a".repeat(1024))).is_empty());
}

#[test]
fn format_exact_text_for_one_skill() {
    let skills = vec![make_skill("a", "b<c", false)];
    let expected = "\nThe following skills provide specialized instructions for specific tasks.\n\
Use the read tool to load a skill's file when the task matches its description.\n\
When a skill file references a relative path, resolve it against the skill directory (parent of SKILL.md / dirname of the path) and use that absolute path in tool commands.\n\
\n<available_skills>\n  <skill>\n    <name>a</name>\n    <description>b&lt;c</description>\n    <location>/skills/a/SKILL.md</location>\n  </skill>\n</available_skills>";
    assert_eq!(format_skills_for_prompt(&skills), expected);
    assert_eq!(format_skills_for_prompt(&[make_skill("x", "y", true)]), "");
}

#[test]
fn skill_from_markdown_with_valid_frontmatter() {
    let raw = "---\nname: my-skill\ndescription: A test skill for testing\n---\n\n## Usage\nDo something cool\n";
    let (skill, diags) = skill_from_markdown(raw, "/d/my-skill/SKILL.md", "my-skill", "test", "/d/my-skill");
    assert!(diags.is_empty());
    let skill = skill.expect("should load successfully");
    assert_eq!(skill.name, "my-skill");
    assert_eq!(skill.description, "A test skill for testing");
    assert_eq!(skill.file_path, "/d/my-skill/SKILL.md");
    assert_eq!(skill.source_info.source, "test");
    assert!(!skill.disable_model_invocation);
}

#[test]
fn skill_from_markdown_without_frontmatter_warns_and_skips() {
    let (skill, diags) = skill_from_markdown("Just content, no frontmatter", "/d/SKILL.md", "d", "test", "/d");
    assert!(skill.is_none());
    assert_eq!(diags.len(), 1);
    assert_eq!(diags[0].message, "description is required");
    assert!(matches!(diags[0].level, DiagnosticLevel::Warning));
    assert_eq!(diags[0].path, "/d/SKILL.md");
}

#[test]
fn skill_from_markdown_reads_flag_and_falls_back_to_directory_name() {
    let raw = "---\ndescription: A hidden skill\ndisable-model-invocation: true\n---\n\nHidden content\n";
    let (skill, diags) = skill_from_markdown(raw, "/d/Hidden/SKILL.md", "Hidden", "test", "/d/Hidden");
    let skill = skill.unwrap();
    assert!(skill.disable_model_invocation);
    assert_eq!(skill.name, "Hidden");
    assert_eq!(diags.len(), 1);
    assert!(diags[0].message.contains("invalid characters"));
}

#[test]
fn diagnostics_constructors() {
    let w = ResourceDiagnostic::warning("w", "/p");
    let c = ResourceDiagnostic::collision("c", "/q");
    assert!(matches!(w.level, DiagnosticLevel::Warning));
    assert!(matches!(c.level, DiagnosticLevel::Collision));
    assert_eq!(c.message, "c");
    assert_eq!(c.path, "/q");
}

#[test]
fn expand_skill_command_known_skill_with_content() {
    let skills = vec![make_skill("my-skill", "A test skill", false)];
    let text = "/skill:my-skill do this ";
    assert_eq!(skill_command_target(text, &skills), Some(0));
    let content = "---\ndescription: A test skill\n---\n\n## Instructions\nDo the thing\n";
    let result = expand_skill_command(text, &skills, Some(content));
    assert_eq!(
        result,
        "<skill name=\"my-skill\" location=\"/skills/my-skill/SKILL.md\">\nReferences are relative to /skills/my-skill.\n\n## Instructions\nDo the thing\n</skill>\n\ndo this"
    );
    assert_eq!(expand_skill_command(text, &skills, None), text);
    let bare = expand_skill_command("/skill:my-skill", &skills, Some("body"));
    assert!(bare.ends_with("\n\nbody\n</skill>"));
    assert_eq!(skill_command_target("/skill:other", &skills), None);
}
