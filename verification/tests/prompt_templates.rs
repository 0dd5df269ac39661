use rusty_pi::frontmatter::parse_frontmatter;
use rusty_pi::prompt_templates::{
    expand_prompt_template, is_under_dir, parse_command_args, selects_template, substitute_args,
    template_from_markdown, template_path_scope,
    PromptTemplate, ResourceScope,
};

// ── parse_command_args ──────────────────────────────────────────────────────

#[test]
fn parse_empty_string() {
    assert_eq!(parse_command_args(""), Vec::<String>::new());
}

#[test]
fn parse_single_word() {
    assert_eq!(parse_command_args("hello"), vec!["hello"]);
}

#[test]
fn parse_multiple_words() {
    assert_eq!(parse_command_args("hello world"), vec!["hello", "world"]);
}

#[test]
fn parse_quoted_string() {
    assert_eq!(parse_command_args("\"hello world\" foo"), vec!["hello world", "foo"]);
}

#[test]
fn parse_single_quoted() {
    assert_eq!(parse_command_args("'hello world' foo"), vec!["hello world", "foo"]);
}

#[test]
fn parse_mixed_quotes() {
    assert_eq!(parse_command_args("foo \"bar baz\" 'qux'"), vec!["foo", "bar baz", "qux"]);
}

#[test]
fn parse_trailing_whitespace() {
    assert_eq!(parse_command_args("  hello   world  "), vec!["hello", "world"]);
}

// ── substitute_args ─────────────────────────────────────────────────────────

#[test]
fn sub_positional_args() {
    let result = substitute_args("Hello $1, your $2 is ready", &["Alice".into(), "report".into()]);
    assert_eq!(result, "Hello Alice, your report is ready");
}

#[test]
fn sub_all_args() {
    let result = substitute_args("Args: $@", &["a".into(), "b".into(), "c".into()]);
    assert_eq!(result, "Args: a b c");
}

#[test]
fn sub_arguments_variable() {
    let result = substitute_args("Args: $ARGUMENTS", &["x".into(), "y".into()]);
    assert_eq!(result, "Args: x y");
}

#[test]
fn sub_default_value_when_arg_missing() {
    let result = substitute_args("${1:-default}", &[] as &[String]);
    assert_eq!(result, "default");
}

#[test]
fn sub_default_value_when_arg_empty() {
    let result = substitute_args("${1:-default}", &["".into()]);
    assert_eq!(result, "default");
}

#[test]
fn sub_default_value_not_used_when_arg_present() {
    let result = substitute_args("${1:-default}", &["real".into()]);
    assert_eq!(result, "real");
}

#[test]
fn sub_default_all_args_empty() {
    let result = substitute_args("${@:-nothing}", &[] as &[String]);
    assert_eq!(result, "nothing");
}

#[test]
fn sub_default_all_args_present() {
    let result = substitute_args("${@:-nothing}", &["something".into()]);
    assert_eq!(result, "something");
}

#[test]
fn sub_slice_from_n() {
    let result = substitute_args("${@:2}", &["a".into(), "b".into(), "c".into()]);
    assert_eq!(result, "b c");
}

#[test]
fn sub_slice_n_to_l() {
    let result = substitute_args("${@:2:2}", &["a".into(), "b".into(), "c".into(), "d".into()]);
    assert_eq!(result, "b c");
}

#[test]
fn sub_no_args_returns_empty() {
    let result = substitute_args("$1", &[] as &[String]);
    assert_eq!(result, "");
}

#[test]
fn sub_zero_index_treated_as_one() {
    let result = substitute_args("${@:0}", &["a".into(), "b".into()]);
    assert_eq!(result, "a b");
}

#[test]
fn sub_missing_arg_returns_empty() {
    let result = substitute_args("$5", &["a".into(), "b".into()]);
    assert_eq!(result, "");
}

#[test]
fn sub_dollar_sign_not_followed_by_pattern() {
    let result = substitute_args("not a $ pattern", &[] as &[String]);
    assert_eq!(result, "not a $ pattern");
}

#[test]
fn sub_empty_template() {
    let result = substitute_args("", &["a".into(), "b".into()]);
    assert_eq!(result, "");
}

#[test]
fn sub_unrecognized_brace_kept_literally() {
    assert_eq!(substitute_args("a ${foo} b", &["x".into()]), "a ${foo} b");
}

#[test]
fn sub_unclosed_brace_kept() {
    assert_eq!(substitute_args("a ${1 b", &["x".into()]), "a ${1 b");
}

#[test]
fn sub_arguments_followed_by_letter_is_literal() {
    assert_eq!(substitute_args("$ARGUMENTSX", &["x".into()]), "$ARGUMENTSX");
}

#[test]
fn sub_slice_with_bad_length_uses_all() {
    assert_eq!(substitute_args("${@:2:x}", &["a".into(), "b".into(), "c".into()]), "a b c");
}

#[test]
fn sub_slice_beyond_end_is_empty() {
    assert_eq!(substitute_args("[${@:5}]", &["a".into()]), "[]");
}

#[test]
fn sub_plus_sign_index() {
    assert_eq!(substitute_args("${+2:-d}", &["a".into(), "b".into()]), "b");
}

#[test]
fn sub_keeps_unknown_placeholder_after_multibyte_text() {
    assert_eq!(substitute_args("é${x}", &[]), "é${x}");
    assert_eq!(substitute_args("é ${x}", &[]), "é ${x}");
    assert_eq!(substitute_args("e ${x}", &[]), "e ${x}");
    assert_eq!(substitute_args("日本${x} $1", &["a".into()]), "日本${x} a");
}

// ── parse_frontmatter ───────────────────────────────────────────────────────

#[test]
fn frontmatter_no_frontmatter() {
    let (map, body) = parse_frontmatter("just body text");
    assert!(map.is_empty());
    assert_eq!(body, "just body text");
}

#[test]
fn frontmatter_basic() {
    let raw = "---\nname: test\ndescription: A test template\n---\n\nTemplate body here";
    let (map, body) = parse_frontmatter(raw);
    assert_eq!(map.get("name").map(|s| s.as_str()), Some("test"));
    assert_eq!(map.get("description").map(|s| s.as_str()), Some("A test template"));
    assert!(body.contains("Template body here"));
}

#[test]
fn frontmatter_missing_closing_delim() {
    let raw = "---\nname: test\nbody text";
    let (map, _body) = parse_frontmatter(raw);
    assert!(map.is_empty());
}

#[test]
fn frontmatter_crlf_and_repeated_keys() {
    let raw = "---\r\nkey: one\r\nkey: two\r\n: no key\r\n---\r\nbody";
    let (map, body) = parse_frontmatter(raw);
    assert_eq!(map.get("key").map(|s| s.as_str()), Some("two"));
    assert_eq!(map.len(), 2);
    assert_eq!(body, "\r\nbody");
}

// ── templates ───────────────────────────────────────────────────────────────

#[test]
fn template_from_markdown_with_frontmatter() {
    let raw = "---\ndescription: My custom template\nargument-hint: <file> <message>\n---\n\nProcess file $1 with context: $2\n";
    let template = template_from_markdown("my-template", raw, "test", ResourceScope::Path, "/t/my-template.md");
    assert_eq!(template.name, "my-template");
    assert_eq!(template.description, "My custom template");
    assert_eq!(template.argument_hint.as_deref(), Some("<file> <message>"));
    assert!(template.content.contains("$1"));
}

#[test]
fn template_from_markdown_no_frontmatter() {
    let template = template_from_markdown("simple", "Just some content", "test", ResourceScope::Path, "/t/simple.md");
    assert_eq!(template.name, "simple");
    assert_eq!(template.description, "Just some content");
    assert!(template.argument_hint.is_none());
}

#[test]
fn template_description_is_cut_to_sixty_characters() {
    let line = "x".repeat(70);
    let template = template_from_markdown("t", &format!("\n  \n{}\n", line), "s", ResourceScope::User, "t.md");
    assert_eq!(template.description, format!("{}...", "x".repeat(60)));
}

#[test]
fn resource_scope_names() {
    assert_eq!(ResourceScope::User.as_str(), "user");
    assert_eq!(ResourceScope::Project.as_str(), "project");
    assert_eq!(ResourceScope::Path.as_str(), "path");
}

fn greet() -> PromptTemplate {
    PromptTemplate {
        name: "greet".into(),
        description: "Greeting template".into(),
        argument_hint: None,
        content: "Hello, $1!".into(),
        source: "test".into(),
        scope: ResourceScope::Path,
        file_path: String::from("/fake/greet.md"),
    }
}

#[test]
fn expand_known_template() {
    let templates = vec![greet()];
    let result = expand_prompt_template("/greet Alice", &templates);
    assert_eq!(result, "Hello, Alice!");
}

#[test]
fn expand_unknown_template_returns_original() {
    let templates = vec![];
    let result = expand_prompt_template("/unknown foo bar", &templates);
    assert_eq!(result, "/unknown foo bar");
}

#[test]
fn expand_non_slash_text_returns_original() {
    let templates = vec![];
    let result = expand_prompt_template("just text", &templates);
    assert_eq!(result, "just text");
}

#[test]
fn expand_skill_command_passes_through() {
    let templates = vec![];
    let result = expand_prompt_template("/skill:code-audit origin/main", &templates);
    assert_eq!(result, "/skill:code-audit origin/main");
}

#[test]
fn expand_quoted_arguments() {
    let templates = vec![greet()];
    assert_eq!(expand_prompt_template("/greet \"Ada Lovelace\" x", &templates), "Hello, Ada Lovelace!");
    assert_eq!(expand_prompt_template("/greet", &templates), "Hello, !");
}

#[test]
fn template_selection_and_guarded_expansion() {
    let templates = vec![greet()];
    assert!(selects_template("/greet Alice", &templates));
    assert!(selects_template("/greet", &templates));
    assert!(!selects_template("/other", &templates));
    assert!(!selects_template("greet", &templates));
    assert!(!selects_template("/skill:greet", &templates));
    assert_eq!(expand_prompt_template("plain", &templates), "plain".to_string());
}

#[test]
fn configured_template_paths_keep_their_scope() {
    assert!(is_under_dir("/a/prompts/x.md", "/a/prompts"));
    assert!(is_under_dir("/a/prompts", "/a/prompts"));
    assert!(!is_under_dir("/a/promptsx", "/a/prompts"));
    assert!(is_under_dir("/x", "/"));
    assert_eq!(template_path_scope(true, true), ResourceScope::User);
    assert_eq!(template_path_scope(false, true), ResourceScope::Project);
    assert_eq!(template_path_scope(false, false), ResourceScope::Path);
}
