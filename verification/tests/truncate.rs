use rusty_pi::truncate::{truncate_head, truncate_tail, DEFAULT_MAX_BYTES, DEFAULT_MAX_LINES};

#[test]
fn head_no_truncation_needed() {
    let result = truncate_head("hello\nworld", 100, 99999);
    assert!(!result.truncated);
    assert_eq!(result.content, "hello\nworld");
    assert_eq!(result.total_lines, 2);
    assert_eq!(result.output_lines, 2);
}

#[test]
fn head_truncated_by_lines() {
    let input = (1..=100).map(|i| i.to_string()).collect::<Vec<_>>().join("\n");
    let result = truncate_head(&input, 10, 99999);
    assert!(result.truncated);
    assert_eq!(result.truncated_by, "lines");
    assert_eq!(result.output_lines, 10);
    assert_eq!(result.total_lines, 100);
    assert!(result.content.starts_with("1"), "content: {:?}", result.content);
    assert!(result.content.ends_with("10"), "content: {:?}", result.content);
}

#[test]
fn head_truncated_by_bytes() {
    let input = "short\n".to_owned() + &"a".repeat(100);
    let result = truncate_head(&input, 9999, 20);
    assert!(result.truncated);
    assert_eq!(result.truncated_by, "bytes");
    assert_eq!(result.content, "short");
}

#[test]
fn head_first_line_exceeds_limit() {
    let long_line = "x".repeat(5000);
    let result = truncate_head(&long_line, 9999, 100);
    assert!(result.truncated);
    assert!(result.first_line_exceeds_limit);
    assert_eq!(result.content, "");
    assert_eq!(result.output_lines, 0);
}

#[test]
fn head_empty_content() {
    let result = truncate_head("", 100, 99999);
    assert!(!result.truncated);
    assert_eq!(result.content, "");
    assert_eq!(result.total_lines, 0);
}

#[test]
fn head_exact_line_limit() {
    let input = (1..=10).map(|i| i.to_string()).collect::<Vec<_>>().join("\n");
    let result = truncate_head(&input, 10, 99999);
    assert!(!result.truncated, "Should NOT truncate when exactly at limit");
    assert_eq!(result.content, input);
}

#[test]
fn tail_no_truncation_needed() {
    let result = truncate_tail("hello\nworld", 100, 99999);
    assert!(!result.truncated);
    assert_eq!(result.content, "hello\nworld");
}

#[test]
fn tail_truncated_by_lines() {
    let input = (1..=100).map(|i| i.to_string()).collect::<Vec<_>>().join("\n");
    let result = truncate_tail(&input, 10, 99999);
    assert!(result.truncated);
    assert_eq!(result.truncated_by, "lines");
    assert_eq!(result.output_lines, 10);
    assert_eq!(result.total_lines, 100);
    assert!(result.content.starts_with("91"), "content: {:?}", result.content);
    assert!(result.content.ends_with("100"), "content: {:?}", result.content);
}

#[test]
fn tail_truncated_by_bytes() {
    let input = "short\n".to_owned() + &"a".repeat(5000);
    let result = truncate_tail(&input, 9999, 100);
    assert!(result.truncated);
    assert_eq!(result.truncated_by, "bytes");
    assert!(result.content.len() <= 100 + 1, "output too large: {}", result.content.len());
}

#[test]
fn tail_empty_content() {
    let result = truncate_tail("", 100, 99999);
    assert!(!result.truncated);
    assert_eq!(result.content, "");
    assert_eq!(result.total_lines, 0);
}

// ── Further cases ───────────────────────────────────────────────────────────

#[test]
fn head_counts_bytes_not_characters() {
    // "é" is two bytes: three lines of "éé" are 4 + 1 + 4 + 1 + 4 = 14 bytes.
    let result = truncate_head("éé\néé\néé", 9999, 9);
    assert!(result.truncated);
    assert_eq!(result.truncated_by, "bytes");
    assert_eq!(result.content, "éé\néé");
    assert_eq!(result.output_bytes, 9);
    assert_eq!(result.total_bytes, 14);
}

#[test]
fn head_trailing_newline_is_not_a_line() {
    let result = truncate_head("a\nb\n", 1, 99999);
    assert_eq!(result.total_lines, 2);
    assert_eq!(result.content, "a");
    assert_eq!(result.output_lines, 1);
}

#[test]
fn head_fits_in_lines_but_not_bytes_keeps_all_lines() {
    // Two bytes in total with the trailing newline, one line of one byte.
    let result = truncate_head("a\n", 5, 1);
    assert!(result.truncated);
    assert_eq!(result.truncated_by, "bytes");
    assert_eq!(result.content, "a");
    assert_eq!(result.output_lines, 1);
}

#[test]
fn tail_last_line_too_long_gives_empty_output() {
    let input = "short\n".to_owned() + &"b".repeat(200);
    let result = truncate_tail(&input, 9999, 100);
    assert!(result.truncated);
    assert_eq!(result.truncated_by, "bytes");
    assert_eq!(result.content, "");
    assert_eq!(result.output_lines, 0);
    assert!(!result.first_line_exceeds_limit);
}

#[test]
fn default_limits() {
    assert_eq!(DEFAULT_MAX_LINES, 2000);
    assert_eq!(DEFAULT_MAX_BYTES, 51200);
    let result = truncate_tail("x", DEFAULT_MAX_LINES, DEFAULT_MAX_BYTES);
    assert_eq!(result.max_lines, 2000);
    assert_eq!(result.max_bytes, 51200);
}

#[test]
fn truncation_names_the_byte_limit_when_all_lines_fit() {
    let head = truncate_head("a\n", 10, 1);
    assert!(head.truncated);
    assert_eq!(head.content, "a");
    assert_eq!(head.output_lines, 1);
    assert_eq!(head.total_lines, 1);
    assert_eq!(head.total_bytes, 2);
    assert_eq!(head.truncated_by, "bytes");
    let tail = truncate_tail("a\n", 10, 1);
    assert_eq!(tail.content, "a");
    assert_eq!(tail.truncated_by, "bytes");
}
