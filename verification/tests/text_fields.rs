use rayslash_module_host::text::{valid_text, validate_command, validate_delay, ResultError};

fn strings(items: &[&str]) -> Vec<String> {
    items.iter().map(|s| s.to_string()).collect()
}

#[test]
fn text_length_counts_characters() {
    assert!(valid_text("title", "ééé", 3, 3).is_ok());
    assert!(valid_text("title", "ééé", 4, 10).is_err());
    assert!(valid_text("title", "", 0, 0).is_ok());
    assert!(valid_text("title", "", 1, 5).is_err());
    assert!(valid_text("title", &"x".repeat(512), 1, 512).is_ok());
}

#[test]
fn text_refuses_control_characters() {
    assert!(valid_text("body", "tab\there", 0, 100).is_err());
    assert!(valid_text("body", "del\u{7f}", 0, 100).is_err());
    assert!(valid_text("body", "next\u{85}line", 0, 100).is_err());
    assert!(valid_text("body", "nbsp\u{a0}ok", 0, 100).is_ok());
    assert!(valid_text("body", "emoji 😀", 0, 100).is_ok());
}

#[test]
fn text_errors_name_their_field() {
    let error = valid_text("result title", "", 1, 512).unwrap_err();
    assert_eq!(error.message(), "invalid result title");
    assert!(matches!(error, ResultError::InvalidText { label } if label == "result title"));
}

#[test]
fn commands_are_bounded() {
    assert!(validate_command(&strings(&["ls", ""])).is_ok());
    let error = validate_command(&strings(&["", "x"])).unwrap_err();
    assert_eq!(error.message(), "invalid command argument");
    let long: Vec<String> = (0..33).map(|i| i.to_string()).collect();
    let error = validate_command(&long).unwrap_err();
    assert_eq!(error.message(), "invalid command action");
    let most: Vec<String> = (0..32).map(|i| i.to_string()).collect();
    assert!(validate_command(&most).is_ok());
    assert!(validate_command(&strings(&["echo", &"y".repeat(4097)])).is_err());
    assert!(validate_command(&strings(&["echo", "a\nb"])).is_err());
}

#[test]
fn delays_are_bounded() {
    assert!(validate_delay(0).is_ok());
    let error = validate_delay(u64::MAX).unwrap_err();
    assert_eq!(error.message(), "scheduled action delay exceeds one year");
}
