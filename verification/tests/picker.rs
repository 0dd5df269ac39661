use rusty_pi::picker::{MockPicker, Picker};

#[test]
fn mock_picker_returns_select_values_in_order() {
    let mut picker = MockPicker::new(vec!["model-a".into(), "model-b".into()], vec![]);
    assert_eq!(picker.select("pick", vec!["a".into(), "b".into()]).unwrap(), "model-a");
    assert_eq!(picker.select("pick", vec!["a".into(), "b".into()]).unwrap(), "model-b");
}

#[test]
fn mock_picker_returns_text_values() {
    let mut picker = MockPicker::new(vec![], vec!["/path/to/file".into()]);
    assert_eq!(picker.text("path?", None, None).unwrap(), "/path/to/file");
}

#[test]
fn mock_picker_errors_when_exhausted() {
    let mut picker = MockPicker::new(vec![], vec![]);
    assert!(picker.select("pick", vec!["a".into()]).is_err());
}

#[test]
fn mock_picker_counts_select_and_text_separately() {
    let mut picker = MockPicker::new(vec!["s".into()], vec!["t".into()]);
    assert_eq!(picker.text("?", Some("d"), Some("h")).unwrap(), "t");
    assert_eq!(picker.select("?", vec![]).unwrap(), "s");
    assert_eq!(
        picker.text("?", None, None).unwrap_err(),
        "MockPicker: no more text values"
    );
    assert_eq!(
        picker.select("?", vec![]).unwrap_err(),
        "MockPicker: no more select values"
    );
}
