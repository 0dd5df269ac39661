use rusty_pi::tui::{InputHistory, InputState};

fn editor(text: &str) -> InputState {
    let mut input = InputState::default();
    input.set_text(text.into());
    input
}

#[test]
fn insert_then_backspace_restores_text() {
    let mut input = editor("ab");
    input.move_left();
    input.insert_char('界');
    assert_eq!(input.text, "a界b");
    assert_eq!(input.cursor_byte, 4);
    input.backspace();
    assert_eq!(input.text, "ab");
    assert_eq!(input.cursor_byte, 1);
}

#[test]
fn move_right_needs_two_following_characters() {
    let mut input = editor("abc");
    input.move_home();
    input.move_right();
    assert_eq!(input.cursor_byte, 1);
    input.move_right();
    assert_eq!(input.cursor_byte, 2);
    input.move_right();
    assert_eq!(input.cursor_byte, 2);
}

#[test]
fn delete_needs_two_following_characters() {
    let mut input = editor("ab");
    input.move_home();
    input.delete();
    assert_eq!(input.text, "b");
    input.delete();
    assert_eq!(input.text, "b");
}

#[test]
fn vertical_moves_keep_the_column() {
    let mut input = editor("abcd\nx\nabcd");
    input.move_vertical(-1);
    assert_eq!(input.current_line(), 1);
    assert_eq!(input.cursor_byte, 6);
    input.move_vertical(-1);
    assert_eq!(input.current_line(), 0);
    assert_eq!(input.cursor_byte, 4);
    input.move_vertical(-1);
    assert_eq!(input.cursor_byte, 4);
}

#[test]
fn delete_previous_word_takes_trailing_space() {
    let mut input = editor("one two  ");
    input.delete_previous_word();
    assert_eq!(input.text, "one ");
}

#[test]
fn line_deletions_stop_at_line_feeds() {
    let mut input = editor("ab\ncd\nef");
    input.move_vertical(-1);
    input.move_left();
    input.delete_to_line_end();
    assert_eq!(input.text, "ab\nc\nef");
    input.delete_to_line_start();
    assert_eq!(input.text, "ab\n\nef");
}

#[test]
fn insert_text_moves_past_it() {
    let mut input = editor("ad");
    input.move_left();
    input.insert_text("bc");
    assert_eq!(input.text, "abcd");
    assert_eq!(input.cursor_byte, 3);
    input.insert_text("");
    assert_eq!(input.text, "abcd");
}

#[test]
fn cursor_position_wraps_wide_characters() {
    let input = editor("界界界");
    assert_eq!(input.cursor_visual_position(4), (1, 2));
    let input = editor("ab\nc");
    assert_eq!(input.cursor_visual_position(10), (1, 1));
}

#[test]
fn history_round_trip_gives_draft_back() {
    let mut history = InputHistory::default();
    history.record("first");
    history.record("first");
    history.record("  ");
    assert_eq!(history.entries, vec!["first"]);
    let mut input = editor("draft");
    history.previous(&mut input);
    assert_eq!(input.text, "first");
    history.next(&mut input);
    assert_eq!(input.text, "draft");
    assert_eq!(history.cursor, None);
}
