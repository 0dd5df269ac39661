use rusty_pi::edit::{
    apply_edits_to_normalized_content, detect_line_ending, get_duplicate_error,
    get_empty_old_text_error, get_no_change_error, get_not_found_error,
    normalize_for_fuzzy_match, normalize_to_lf, prepare_edit_arguments, restore_line_endings, strip_bom, Edit,
    EditParams,
};

fn edit(old: &str, new: &str) -> Edit {
    Edit { old_text: old.into(), new_text: new.into() }
}

#[test]
fn normalize_fuzzy_handles_smart_quotes() {
    let input = "hello\u{2018}world\u{201D}";
    let result = normalize_for_fuzzy_match(input);
    assert_eq!(result, "hello'world\"");
}

#[test]
fn normalize_fuzzy_handles_dashes() {
    let input = "a\u{2013}b\u{2014}c";
    let result = normalize_for_fuzzy_match(input);
    assert_eq!(result, "a-b-c");
}

#[test]
fn normalize_fuzzy_trims_trailing_whitespace() {
    let input = "hello   \nworld  \n";
    let result = normalize_for_fuzzy_match(input);
    assert_eq!(result, "hello\nworld\n");
}

#[test]
fn strip_bom_removes_bom() {
    let (bom, text) = strip_bom("\u{FEFF}hello");
    assert_eq!(bom, "\u{FEFF}");
    assert_eq!(text, "hello");
}

#[test]
fn strip_bom_no_bom() {
    let (bom, text) = strip_bom("hello");
    assert_eq!(bom, "");
    assert_eq!(text, "hello");
}

#[test]
fn detect_line_ending_crlf() {
    assert_eq!(detect_line_ending("hello\r\nworld\r\n"), "\r\n");
}

#[test]
fn detect_line_ending_lf() {
    assert_eq!(detect_line_ending("hello\nworld\n"), "\n");
}

#[test]
fn normalize_to_lf_converts_crlf() {
    assert_eq!(normalize_to_lf("hello\r\nworld\r\n"), "hello\nworld\n");
}

#[test]
fn restore_line_endings_to_crlf() {
    assert_eq!(restore_line_endings("hello\nworld\n", "\r\n"), "hello\r\nworld\r\n");
}

#[test]
fn restore_line_endings_keeps_lf() {
    assert_eq!(restore_line_endings("hello\nworld\n", "\n"), "hello\nworld\n");
}

#[test]
fn normalize_to_lf_converts_lone_cr() {
    assert_eq!(normalize_to_lf("a\rb\r\nc"), "a\nb\nc");
}

#[test]
fn lf_roundtrip_of_crlf_text() {
    let original = "hello\r\nworld\r\n";
    let ending = detect_line_ending(original);
    assert_eq!(restore_line_endings(&normalize_to_lf(original), ending), original);
}

#[test]
fn normalize_fuzzy_special_spaces() {
    assert_eq!(normalize_for_fuzzy_match("a\u{00A0}b\u{3000}c"), "a b c");
}

#[test]
fn apply_single_replacement() {
    let applied =
        apply_edits_to_normalized_content("hello world\nfoo bar\n", &[edit("foo bar", "baz qux")], "test.txt")
            .unwrap();
    assert_eq!(applied.base_content, "hello world\nfoo bar\n");
    assert_eq!(applied.new_content, "hello world\nbaz qux\n");
}

#[test]
fn apply_multiple_disjoint_replacements() {
    let applied = apply_edits_to_normalized_content(
        "line one\nline two\nline three\n",
        &[edit("line one", "changed one"), edit("line three", "changed three")],
        "multi.txt",
    )
    .unwrap();
    assert_eq!(applied.new_content, "changed one\nline two\nchanged three\n");
}

#[test]
fn apply_not_found() {
    let err = apply_edits_to_normalized_content("existing content\n", &[edit("nonexistent text", "x")], "nope.txt")
        .err()
        .unwrap();
    assert!(err.contains("Could not find"), "Got: {}", err);
    assert_eq!(err, get_not_found_error("nope.txt", 0, 1));
}

#[test]
fn apply_duplicate_old_text() {
    let err = apply_edits_to_normalized_content("repeat\nother\nrepeat\n", &[edit("repeat", "changed")], "dup.txt")
        .err()
        .unwrap();
    assert!(err.contains("Found 2 occurrences"), "Got: {}", err);
}

#[test]
fn apply_fuzzy_match_smart_quotes() {
    let applied =
        apply_edits_to_normalized_content("it\u{2019}s fine\n", &[edit("it's fine", "it's changed")], "fuzzy.txt")
            .unwrap();
    assert_eq!(applied.new_content, "it's changed\n");
}

#[test]
fn apply_overlapping_edits_error() {
    let err = apply_edits_to_normalized_content(
        "hello world fine\n",
        &[edit("hello world", "hi"), edit("world fine", "earth")],
        "overlap.txt",
    )
    .err()
    .unwrap();
    assert!(err.contains("overlap"), "Got: {}", err);
    assert_eq!(
        err,
        "edits[0] and edits[1] overlap in overlap.txt. Merge them into one edit or target disjoint regions."
    );
}

#[test]
fn apply_empty_edit_list() {
    let err = apply_edits_to_normalized_content("x", &[], "a.txt").err().unwrap();
    assert_eq!(err, "edits must contain at least one replacement.");
}

#[test]
fn apply_empty_old_text() {
    let err = apply_edits_to_normalized_content("x", &[edit("", "y")], "a.txt").err().unwrap();
    assert_eq!(err, "oldText must not be empty in a.txt.");
    let err = apply_edits_to_normalized_content("x", &[edit("x", "y"), edit("", "z")], "a.txt").err().unwrap();
    assert_eq!(err, "edits[1].oldText must not be empty in a.txt.");
}

#[test]
fn apply_no_change() {
    let err = apply_edits_to_normalized_content("same\n", &[edit("same", "same")], "s.txt").err().unwrap();
    assert_eq!(err, get_no_change_error("s.txt", 1));
    assert!(err.starts_with("No changes made to s.txt. The replacement produced identical content."));
}

#[test]
fn apply_crlf_edit_text_is_normalized() {
    let applied = apply_edits_to_normalized_content("a\nb\nc\n", &[edit("a\r\nb", "x\r\ny")], "c.txt").unwrap();
    assert_eq!(applied.new_content, "x\ny\nc\n");
}

#[test]
fn error_messages_match_format() {
    assert_eq!(
        get_not_found_error("f", 2, 3),
        "Could not find edits[2] in f. The oldText must match exactly including all whitespace and newlines."
    );
    assert_eq!(
        get_duplicate_error("f", 1, 2, 3),
        "Found 3 occurrences of edits[1] in f. Each oldText must be unique. Please provide more context to make it unique."
    );
    assert_eq!(
        get_duplicate_error("f", 0, 1, 12),
        "Found 12 occurrences of the text in f. The text must be unique. Please provide more context to make it unique."
    );
    assert_eq!(get_empty_old_text_error("f", 4, 5), "edits[4].oldText must not be empty in f.");
    assert_eq!(get_no_change_error("f", 2), "No changes made to f. The replacements produced identical content.");
}

#[test]
fn prepare_edit_arguments_legacy() {
    let result = prepare_edit_arguments(None, Some("test.txt".into()), Some("old".into()), Some("new".into())).unwrap();
    assert_eq!(result.path, "test.txt");
    assert_eq!(result.edits.len(), 1);
    assert_eq!(result.edits[0].old_text, "old");
    assert_eq!(result.edits[0].new_text, "new");
}

#[test]
fn prepare_edit_arguments_edits_string() {
    let parsed = EditParams {
        path: "test.txt".into(),
        edits: vec![Edit { old_text: "a".into(), new_text: "b".into() }],
    };
    let result = prepare_edit_arguments(Some(parsed), Some("test.txt".into()), None, None).unwrap();
    assert_eq!(result.path, "test.txt");
    assert_eq!(result.edits.len(), 1);
    assert_eq!(result.edits[0].old_text, "a");
    assert_eq!(result.edits[0].new_text, "b");
}

#[test]
fn prepare_edit_arguments_refuses_empty_edits_without_legacy_fields() {
    let empty = EditParams { path: "p".into(), edits: vec![] };
    let err = prepare_edit_arguments(Some(empty), None, Some("only old".into()), None).err().unwrap();
    assert_eq!(err, "Invalid edit parameters: must have 'edits' array or legacy 'oldText'/'newText' fields.");
    let legacy = prepare_edit_arguments(None, None, Some("x".into()), Some("y".into())).unwrap();
    assert_eq!(legacy.path, "");
}

#[test]
fn lf_normalization_is_idempotent_and_counts_line_feeds() {
    let text = "a\r\nb\rc\n\r\n";
    let once = normalize_to_lf(text);
    assert_eq!(normalize_to_lf(&once), once);
    // 3 CR + 3 LF - 2 CRLF pairs
    assert_eq!(once.matches('\n').count(), 4);
    assert_eq!(normalize_to_lf("no returns\n"), "no returns\n");
}

#[test]
fn fuzzy_normal_form_is_a_fixed_point() {
    let text = "x \u{2014} \u{201C}y\u{201D}  \n\tz\u{00A0}\n";
    let once = normalize_for_fuzzy_match(text);
    assert_eq!(once, "x - \"y\"\n\tz\n");
    assert_eq!(normalize_for_fuzzy_match(&once), once);
    assert_eq!(once.matches('\n').count(), text.matches('\n').count());
}

#[test]
fn whitespace_only_edits_on_empty_content_insert_in_reverse_order() {
    let applied = apply_edits_to_normalized_content("", &[edit(" ", "a"), edit("  ", "b")], "e.txt").unwrap();
    assert_eq!(applied.base_content, "");
    assert_eq!(applied.new_content, "ba");
}

#[test]
fn whitespace_only_edit_on_text_is_not_unique() {
    let err = apply_edits_to_normalized_content("abc", &[edit("  ", "x")], "w.txt").err().unwrap();
    assert_eq!(err, get_duplicate_error("w.txt", 0, 1, 4));
}
