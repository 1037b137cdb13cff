use rayslash_module_host::origin::https_origin;
use rayslash_module_host::startup::{check_network_origins, exact_origin};

#[test]
fn origin_of_an_origin_is_itself() {
    let origin = https_origin("https://example.com/a/b?c#d").unwrap();
    assert_eq!(origin, "https://example.com");
    assert_eq!(https_origin(origin), Some(origin));
    assert!(exact_origin(origin));
}

#[test]
fn origin_followed_by_a_path_keeps_the_origin() {
    assert_eq!(https_origin("https://api.example.org:8443"), Some("https://api.example.org:8443"));
    assert_eq!(
        https_origin("https://api.example.org:8443/"),
        Some("https://api.example.org:8443")
    );
    assert_eq!(
        https_origin("https://api.example.org:8443/v1/rates"),
        Some("https://api.example.org:8443")
    );
}

#[test]
fn origins_refuse_other_schemes_and_odd_authorities() {
    assert_eq!(https_origin(""), None);
    assert_eq!(https_origin("https:/"), None);
    assert_eq!(https_origin("https://"), None);
    assert_eq!(https_origin("https:///path"), None);
    assert_eq!(https_origin("HTTPS://example.com"), None);
    assert_eq!(https_origin("ftp://example.com"), None);
    assert_eq!(https_origin("https://user@example.com/"), None);
    assert_eq!(https_origin("https://example.com?q=1"), None);
    assert_eq!(https_origin("https://example.com#top"), None);
    assert_eq!(https_origin("https://example.com/a@b"), Some("https://example.com"));
}

#[test]
fn origins_keep_non_ascii_hosts_whole() {
    assert_eq!(https_origin("https://bücher.example/x"), Some("https://bücher.example"));
}

#[test]
fn granted_origins_must_be_exact() {
    let exact = vec!["https://example.com".to_string(), "https://a.b:1".to_string()];
    assert!(check_network_origins(&exact).is_ok());
    let with_path = vec!["https://example.com".to_string(), "https://example.com/".to_string()];
    let error = check_network_origins(&with_path).unwrap_err();
    assert_eq!(
        error.message(),
        "network origin must be an exact HTTPS origin: https://example.com/"
    );
    let plain = vec!["http://example.com".to_string()];
    assert!(check_network_origins(&plain).is_err());
    assert!(!exact_origin("https://example.com/"));
}
