use rusty_pi::diff::{generate_diff_string, generate_unified_patch};
use rusty_pi::edit::{edit_file_content, edit_summary, Edit};

fn edit(old: &str, new: &str) -> Edit {
    Edit {
        old_text: old.into(),
        new_text: new.into(),
    }
}

#[test]
fn edit_single_replacement() {
    let edits = vec![edit("foo bar", "baz qux")];
    let edited = edit_file_content("hello world\nfoo bar\n", &edits, "test.txt").unwrap();
    let text = edit_summary(edits.len(), "test.txt");
    assert!(text.contains("Successfully replaced"), "Got: {}", text);
    assert_eq!(edited.content, "hello world\nbaz qux\n");
}

#[test]
fn edit_multiple_disjoint_replacements() {
    let edits = vec![edit("line one", "changed one"), edit("line three", "changed three")];
    let edited = edit_file_content("line one\nline two\nline three\n", &edits, "multi.txt").unwrap();
    let text = edit_summary(edits.len(), "multi.txt");
    assert!(text.contains("2 block(s)"), "Got: {}", text);
    assert_eq!(edited.content, "changed one\nline two\nchanged three\n");
}

#[test]
fn edit_not_found() {
    let edits = vec![edit("nonexistent text", "replacement")];
    let result = edit_file_content("existing content\n", &edits, "nope.txt");
    assert!(result.is_err(), "Should error when oldText not found");
    let msg = result.err().unwrap();
    assert!(msg.contains("Could not find"), "Got: {}", msg);
}

#[test]
fn edit_duplicate_old_text() {
    let edits = vec![edit("repeat", "changed")];
    let result = edit_file_content("repeat\nother\nrepeat\n", &edits, "dup.txt");
    assert!(result.is_err(), "Should error on duplicate oldText");
    let msg = result.err().unwrap();
    assert!(msg.contains("Found 2 occurrences"), "Got: {}", msg);
}

#[test]
fn edit_crlf_preserved() {
    let edits = vec![edit("world", "mars")];
    let edited = edit_file_content("hello\r\nworld\r\n", &edits, "crlf.txt").unwrap();
    assert_eq!(edited.content, "hello\r\nmars\r\n", "CRLF should be preserved, got {:?}", edited.content);
    assert_eq!(edited.base_content, "hello\nworld\n");
    assert_eq!(edited.new_content, "hello\nmars\n");
}

#[test]
fn edit_bom_preserved() {
    let edits = vec![edit("hello world", "goodbye")];
    let edited = edit_file_content("\u{FEFF}hello world\n", &edits, "bom.txt").unwrap();
    assert!(edited.content.starts_with('\u{FEFF}'), "BOM should be preserved");
    assert!(edited.content.contains("goodbye"), "Content should be updated");
    assert_eq!(edited.content, "\u{FEFF}goodbye\n");
}

#[test]
fn edit_fuzzy_match_smart_quotes() {
    let edits = vec![edit("it's fine", "it's changed")];
    let result = edit_file_content("it\u{2019}s fine\n", &edits, "fuzzy.txt");
    assert!(result.is_ok(), "Fuzzy matching should handle smart quotes");
    assert_eq!(result.unwrap().content, "it's changed\n");
}

#[test]
fn edit_overlapping_edits_error() {
    let edits = vec![edit("hello world", "hi"), edit("world fine", "earth")];
    let result = edit_file_content("hello world fine\n", &edits, "overlap.txt");
    assert!(result.is_err(), "Should error on overlapping edits");
    let msg = result.err().unwrap();
    assert!(msg.contains("overlap"), "Got: {}", msg);
}

#[test]
fn edit_with_diff_output() {
    let edits = vec![edit("BBB", "XXX")];
    let edited = edit_file_content("AAA\nBBB\nCCC\n", &edits, "diff_test.txt").unwrap();
    let (diff, first) = generate_diff_string(&edited.base_content, &edited.new_content);
    assert!(diff.contains("-2 BBB"), "Diff should show removed line, got: {}", diff);
    assert!(diff.contains("+2 XXX"), "Diff should show added line, got: {}", diff);
    assert_eq!(diff, " 1 AAA\n-2 BBB\n+2 XXX\n 3 CCC");
    assert_eq!(first, Some(2));
    let patch = generate_unified_patch("diff_test.txt", &edited.base_content, &edited.new_content).unwrap();
    assert_eq!(
        patch,
        "--- diff_test.txt\n+++ diff_test.txt\n@@ -1,3 +1,3 @@\n AAA\n-BBB\n+XXX\n CCC\n"
    );
}

#[test]
fn edit_errors_come_in_check_order() {
    let result = edit_file_content("abc\n", &[], "f.txt");
    assert!(result.is_err());
    let result = edit_file_content("abc\n", &[edit("", "x")], "f.txt");
    assert!(result.err().unwrap().contains("must not be empty"));
    let result = edit_file_content("abc\n", &[edit("abc", "abc")], "f.txt");
    assert!(result.err().unwrap().contains("No changes made to f.txt"));
}

#[test]
fn diff_numbers_are_aligned_to_the_longest_text() {
    let old = "1\n2\n3\n4\n5\n6\n7\n8\n9\n10\n";
    let new = "1\n2\n3\n4\n5\n6\n7\n8\n9\nten\n";
    let (diff, first) = generate_diff_string(old, new);
    assert!(diff.contains("\n-10 10\n+10 ten"), "got {diff}");
    assert!(diff.starts_with("  1 1\n"), "got {diff}");
    assert_eq!(first, Some(10));
    let (same, none) = generate_diff_string("a\n", "a\n");
    assert_eq!(same, " 1 a");
    assert_eq!(none, None);
}

#[test]
fn patch_has_context_of_four_lines() {
    let old: String = (1..=20).map(|i| format!("{i}\n")).collect();
    let new = old.replace("10\n", "X\n");
    let patch = generate_unified_patch("p", &old, &new).unwrap();
    assert!(patch.starts_with("--- p\n+++ p\n@@ -6,9 +6,9 @@\n 6\n"), "got {patch}");
    assert!(patch.contains("-10\n+X\n"));
    assert_eq!(generate_unified_patch("p", "same\n", "same\n").unwrap(), "--- p\n+++ p\n");
}
