use rusty_pi::skill_discovery::{
    classify_entry, glob_match, is_under_root, skill_file_index, skill_path_kind, skill_path_source,
    skill_path_warning, EntryAction, IgnoreMatcher, LoadSkillsOptions, SkillCollector, SkillPathKind,
};
use rusty_pi::skills::{DiagnosticLevel, ResourceDiagnostic, Skill, SkillSourceInfo};

fn skill_at(name: &str, path: &str) -> Skill {
    Skill {
        name: name.into(),
        description: "d".into(),
        file_path: path.into(),
        base_dir: "/skills".into(),
        source_info: SkillSourceInfo { source: "user".into(), scope: None, base_dir: "/skills".into() },
        disable_model_invocation: false,
    }
}

#[test]
fn glob_exact_star_and_double_star_patterns() {
    assert!(glob_match("notes.md", "notes.md"));
    assert!(!glob_match("notes.md", "notes.txt"));
    assert!(glob_match("draft.md", "*.md"));
    assert!(!glob_match("dir/draft.md", "*.md"));
    assert!(glob_match("a.bXYZ", "a.b*"));
    assert!(!glob_match("aXbc", "a.b*"));
    assert!(glob_match("deep/nested/tmp", "**/tmp"));
    assert!(glob_match("tmp", "**/tmp"));
    assert!(glob_match("build/x/out.log", "build/**/out.log"));
    assert!(!glob_match("src/x/out.log", "build/**/out.log"));
}

#[test]
fn ignore_rules_first_match_decides() {
    let mut matcher = IgnoreMatcher::new();
    matcher.add_ignore_content("# comment\n\n!keep.md\n*.md\n/build/\n", "");
    assert!(!matcher.is_ignored("keep.md"));
    assert!(matcher.is_ignored("drop.md"));
    assert!(matcher.is_ignored("build/"));
    assert!(!matcher.is_ignored("build"));
    assert!(!matcher.is_ignored("notes.txt"));
}

#[test]
fn ignore_rules_are_placed_under_their_directory() {
    let mut matcher = IgnoreMatcher::new();
    matcher.add_ignore_content("secret.md\n", "team");
    assert!(matcher.is_ignored("team/secret.md"));
    assert!(!matcher.is_ignored("secret.md"));
    assert!(!IgnoreMatcher::new().is_ignored("anything"));
}

#[test]
fn entries_are_classified() {
    let mut matcher = IgnoreMatcher::new();
    matcher.add_ignore_content("ignored/\n", "");
    assert_eq!(classify_entry(".hidden", ".hidden", true, false, true, &matcher), EntryAction::Skip);
    assert_eq!(classify_entry("node_modules", "node_modules", true, false, true, &matcher), EntryAction::Skip);
    assert_eq!(classify_entry("ignored", "ignored", true, false, true, &matcher), EntryAction::Skip);
    assert_eq!(classify_entry("tools", "tools", true, false, false, &matcher), EntryAction::Descend);
    assert_eq!(classify_entry("a.md", "a.md", false, true, true, &matcher), EntryAction::LoadFile);
    assert_eq!(classify_entry("a.md", "x/a.md", false, true, false, &matcher), EntryAction::Skip);
    assert_eq!(classify_entry("a.txt", "a.txt", false, true, true, &matcher), EntryAction::Skip);
}

#[test]
fn collector_drops_duplicates_and_reports_collisions() {
    let mut collector = SkillCollector::new();
    collector.add_skill(skill_at("alpha", "/u/alpha/SKILL.md"), "/real/alpha");
    collector.add_skill(skill_at("alpha", "/link/alpha/SKILL.md"), "/real/alpha");
    collector.add_skill(skill_at("alpha", "/p/alpha/SKILL.md"), "/real/other-alpha");
    collector.add_skill(skill_at("beta", "/u/beta/SKILL.md"), "/real/beta");
    let result = collector.finish();
    let names: Vec<&str> = result.skills.iter().map(|s| s.name.as_str()).collect();
    assert_eq!(names, vec!["alpha", "beta"]);
    assert_eq!(result.skills[0].file_path, "/u/alpha/SKILL.md");
    assert_eq!(result.diagnostics.len(), 1);
    assert!(matches!(result.diagnostics[0].level, DiagnosticLevel::Collision));
    assert_eq!(result.diagnostics[0].message, "name \"alpha\" collision");
    assert_eq!(result.diagnostics[0].path, "/p/alpha/SKILL.md");
}

#[test]
fn collector_keeps_loading_diagnostics_before_collisions() {
    let mut collector = SkillCollector::new();
    collector.add_skill(skill_at("a", "/1"), "/1");
    collector.add_skill(skill_at("a", "/2"), "/2");
    collector.add_diagnostics(vec![ResourceDiagnostic::warning("skill path does not exist", "/missing")]);
    let result = collector.finish();
    assert_eq!(result.diagnostics.len(), 2);
    assert_eq!(result.diagnostics[0].message, "skill path does not exist");
    assert_eq!(result.diagnostics[1].message, "name \"a\" collision");
}

#[test]
fn path_sources_and_roots() {
    assert!(is_under_root("/a/b", "/a/b"));
    assert!(is_under_root("/a/b/c", "/a/b"));
    assert!(!is_under_root("/a/bc", "/a/b"));
    assert_eq!(skill_path_source(false, true, false), "user");
    assert_eq!(skill_path_source(false, false, true), "project");
    assert_eq!(skill_path_source(true, true, true), "path");
    assert_eq!(skill_path_source(false, false, false), "path");
    let options = LoadSkillsOptions::default();
    assert!(!options.include_defaults && options.skill_paths.is_empty());
}

#[test]
fn configured_skill_paths_are_classified() {
    assert_eq!(skill_path_kind(false, false, false, None), SkillPathKind::Missing);
    assert_eq!(skill_path_kind(true, true, false, None), SkillPathKind::Directory);
    assert_eq!(skill_path_kind(true, false, true, Some("md")), SkillPathKind::MarkdownFile);
    assert_eq!(skill_path_kind(true, false, true, Some("txt")), SkillPathKind::NotMarkdown);
    let missing = skill_path_warning(SkillPathKind::Missing, "/x").unwrap();
    assert_eq!(missing.message, "skill path does not exist");
    assert_eq!(missing.path, "/x");
    assert!(matches!(missing.level, DiagnosticLevel::Warning));
    let other = skill_path_warning(SkillPathKind::NotMarkdown, "/y.txt").unwrap();
    assert_eq!(other.message, "skill path is not a markdown file");
    assert!(skill_path_warning(SkillPathKind::Directory, "/d").is_none());
}

#[test]
fn skill_file_comes_first() {
    let names: Vec<String> = vec!["a.md".into(), "SKILL.md".into(), "SKILL.md".into()];
    assert_eq!(skill_file_index(&names), Some(1));
    assert_eq!(skill_file_index(&["skill.md".to_string()]), None);
}
