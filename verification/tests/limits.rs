use rayslash_module_host::cache::valid_cache_key;
use rayslash_module_host::origin::https_origin;
use rayslash_module_host::text::{valid_text, validate_command, validate_delay};

#[test]
fn origins_are_exact() {
    assert_eq!(
        https_origin("https://example.com/a"),
        Some("https://example.com")
    );
    assert_eq!(https_origin("http://example.com"), None);
}

#[test]
fn cache_keys_reject_paths() {
    assert!(valid_cache_key("rates-v1.json"));
    assert!(!valid_cache_key("../rates"));
    assert!(!valid_cache_key("a/b"));
}

#[test]
fn guest_text_and_actions_are_bounded() {
    assert!(valid_text("title", "Result", 1, 512).is_ok());
    assert!(valid_text("title", "bad\nvalue", 1, 512).is_err());
    assert!(valid_text("title", &"x".repeat(513), 1, 512).is_err());
    assert!(validate_command(&["systemctl".into(), "reboot".into()]).is_ok());
    assert!(validate_command(&[]).is_err());
    assert!(validate_delay(31_536_000).is_ok());
    assert!(validate_delay(31_536_001).is_err());
}
