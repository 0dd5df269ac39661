use rusty_pi::print::Content;
use rusty_pi::read::image_content;
use rusty_pi::read::{read_path_candidates, try_am_pm_variant, try_curly_quote_variant, try_nfd_variant, ReadParams};

#[test]
fn try_nfd_variant_unicode() {
    let nfc = "\u{00E9}";
    let nfd = try_nfd_variant(nfc);
    assert_eq!(nfd, "\u{0065}\u{0301}", "NFD should decompose é to e + combining acute");
}

#[test]
fn try_am_pm_variant_replaces_space() {
    let input = "screenshot 2024 AM.png";
    let result = try_am_pm_variant(input);
    assert!(result.contains('\u{202F}'), "Should contain NNBSP: {:?}", result);
    assert!(!result.contains(" AM."), "Should not contain original AM");
}

#[test]
fn try_curly_quote_variant_replaces_apostrophe() {
    let input = "Capture d'ecran.png";
    let result = try_curly_quote_variant(input);
    assert!(result.contains('\u{2019}'), "Should contain right single quote: {:?}", result);
}

#[test]
fn am_pm_variant_exact() {
    assert_eq!(
        try_am_pm_variant("/tmp/Shot 9.41.00 PM.png and 1 AM.x"),
        "/tmp/Shot 9.41.00\u{202F}PM.png and 1\u{202F}AM.x"
    );
    assert_eq!(try_am_pm_variant("plain.txt"), "plain.txt");
}

#[test]
fn candidates_skip_unchanged_spellings() {
    assert!(read_path_candidates("/tmp/plain.txt").is_empty());
    let candidates = read_path_candidates("/tmp/d'\u{00E9}t\u{00E9} AM.png");
    assert_eq!(candidates.len(), 4);
    assert_eq!(candidates[0], "/tmp/d'\u{00E9}t\u{00E9}\u{202F}AM.png");
    assert_eq!(candidates[1], "/tmp/d'e\u{0301}te\u{0301} AM.png");
    assert_eq!(candidates[2], "/tmp/d\u{2019}\u{00E9}t\u{00E9} AM.png");
    assert_eq!(candidates[3], "/tmp/d\u{2019}e\u{0301}te\u{0301} AM.png");
}

#[test]
fn read_params_hold_offset_and_limit() {
    let params = ReadParams {
        path: "a.txt".into(),
        offset: Some(2),
        limit: None,
    };
    assert_eq!(params.clone(), params);
}

use rusty_pi::read::{read_text_window, render_read_result, ReadHint};

fn numbered(n: usize) -> String {
    (1..=n).map(|i| format!("line {i}\n")).collect()
}

#[test]
fn window_of_whole_file_is_complete() {
    let w = read_text_window("a\nb\n", None, None).unwrap();
    assert_eq!(w.total_lines, 3);
    assert_eq!(w.hint, ReadHint::Complete);
    assert_eq!(render_read_result(&w, "f.txt", "50.0KB", ""), "a\nb\n");
}

#[test]
fn window_with_offset_and_limit_reports_more_lines() {
    let content = numbered(10);
    let w = read_text_window(&content, Some(3), Some(2)).unwrap();
    assert_eq!(w.hint, ReadHint::MoreLines { remaining: 7, next: 5 });
    assert_eq!(
        render_read_result(&w, "f.txt", "50.0KB", ""),
        "line 3\nline 4\n\n[7 more lines in file. Use offset=5 to continue.]"
    );
    let w = read_text_window(&content, Some(0), Some(100)).unwrap();
    assert_eq!(w.hint, ReadHint::Complete);
}

#[test]
fn window_offset_beyond_end_is_an_error() {
    let result = read_text_window("a\nb", Some(3), None);
    assert_eq!(result.err().unwrap(), "Offset 3 is beyond end of file (2 lines total)");
    assert!(read_text_window("a\nb", Some(2), None).is_ok());
}

#[test]
fn window_cut_at_line_limit_points_to_next_offset() {
    let content = numbered(2500);
    let w = read_text_window(&content, None, None).unwrap();
    assert_eq!(
        w.hint,
        ReadHint::ShowingLines {
            first: 1,
            last: 2000,
            total: 2501,
            next: 2001
        }
    );
    let text = render_read_result(&w, "big.txt", "50.0KB", "");
    assert!(text.ends_with("line 2000\n\n[Showing lines 1-2000 of 2501. Use offset=2001 to continue.]"));
}

#[test]
fn window_with_overlong_first_line_gives_advice() {
    let content = format!("{}\nshort\n", "x".repeat(60_000));
    let w = read_text_window(&content, None, None).unwrap();
    assert_eq!(w.hint, ReadHint::FirstLineTooLong { line: 1, size: 60_000 });
    assert_eq!(
        render_read_result(&w, "wide.txt", "50.0KB", "58.6KB"),
        "[Line 1 is 58.6KB, exceeds 50.0KB limit. Use bash: sed -n '1p' wide.txt | head -c 51200]"
    );
}

#[test]
fn window_cut_at_byte_limit() {
    let content: String = (0..100).map(|_| format!("{}\n", "y".repeat(1000))).collect();
    let w = read_text_window(&content, Some(2), None).unwrap();
    assert_eq!(
        w.hint,
        ReadHint::ShowingBytes {
            first: 2,
            last: 52,
            total: 101,
            next: 53
        }
    );
}

#[test]
fn image_content_sniffs_type_and_encodes() {
    let png = [0x89u8, 0x50, 0x4E, 0x47, 0x0D, 0x0A, 0x1A, 0x0A];
    assert_eq!(
        image_content(&png),
        Content::Image { data: "iVBORw0KGgo=".into(), mime_type: "image/png".into() }
    );
    assert_eq!(
        image_content(b"abc"),
        Content::Image { data: "YWJj".into(), mime_type: "image/jpeg".into() }
    );
    assert_eq!(image_content(b""), Content::Image { data: "".into(), mime_type: "image/jpeg".into() });
}

#[test]
fn resolve_read_path_absolute() {
    assert_eq!(rusty_pi::write::resolve_to_cwd("/tmp", "/some/dir"), "/tmp");
    assert!(read_path_candidates("/tmp").is_empty());
}
