use rayslash_module_host::result::{map_result, map_results, Action, Icon, ResultItem};

fn item(icon: Icon, action: Action) -> ResultItem {
    ResultItem {
        id: "r1".to_string(),
        title: "Result".to_string(),
        subtitle: String::new(),
        icon,
        score: Some(3),
        action,
    }
}

fn message_of(item: ResultItem) -> String {
    match map_result(item) {
        Ok(_) => String::new(),
        Err(error) => error.message(),
    }
}

fn path_icon(path: &str) -> String {
    message_of(item(Icon::PackagePath(path.to_string()), Action::NoAction))
}

#[test]
fn valid_results_are_handed_back_unchanged() {
    let accepted = map_result(item(
        Icon::Text("🙂".to_string()),
        Action::Notify("Hi".to_string(), "there".to_string()),
    ))
    .unwrap();
    assert_eq!(accepted.id, "r1");
    assert_eq!(accepted.title, "Result");
    assert_eq!(accepted.score, Some(3));
    assert!(matches!(accepted.icon, Icon::Text(t) if t == "🙂"));
    assert!(matches!(accepted.action, Action::Notify(t, b) if t == "Hi" && b == "there"));
}

#[test]
fn result_fields_are_checked_in_order() {
    let mut bad = item(Icon::NoIcon, Action::NoAction);
    bad.id = String::new();
    bad.title = String::new();
    assert_eq!(message_of(bad), "invalid result ID");
    let mut bad = item(Icon::NoIcon, Action::NoAction);
    bad.title = "x".repeat(513);
    assert_eq!(message_of(bad), "invalid result title");
    let mut bad = item(Icon::NoIcon, Action::NoAction);
    bad.subtitle = "a\u{1b}b".to_string();
    assert_eq!(message_of(bad), "invalid result subtitle");
    let bad = item(Icon::Text(String::new()), Action::CopyText("\n".to_string()));
    assert_eq!(message_of(bad), "invalid text icon");
}

#[test]
fn package_icon_paths_are_plain_relative_paths() {
    assert_eq!(path_icon("icons/app.png"), "");
    assert_eq!(path_icon("icons//app.png"), "");
    assert_eq!(path_icon("icons/./app.png"), "");
    assert_eq!(path_icon("icons/"), "");
    assert_eq!(path_icon("..app"), "");
    assert_eq!(path_icon("app.."), "");
    assert_eq!(path_icon("/etc/passwd"), "invalid package icon path");
    assert_eq!(path_icon("./app.png"), "invalid package icon path");
    assert_eq!(path_icon("."), "invalid package icon path");
    assert_eq!(path_icon(".."), "invalid package icon path");
    assert_eq!(path_icon("icons/../../secret"), "invalid package icon path");
    assert_eq!(path_icon("icons/.."), "invalid package icon path");
    assert_eq!(path_icon(""), "invalid package icon path");
    assert_eq!(path_icon(&"a".repeat(513)), "invalid package icon path");
    assert_eq!(path_icon(&"a".repeat(512)), "");
}

#[test]
fn actions_are_bounded() {
    let cases = vec![
        (Action::CopyText("x".repeat(65536)), ""),
        (Action::CopyText("x".repeat(65537)), "invalid copy action"),
        (Action::OpenUrl("https://example.com/docs".to_string()), ""),
        (Action::OpenUrl("http://example.com".to_string()), "invalid open URL action"),
        (
            Action::OpenUrl(format!("https://example.com/{}", "p".repeat(4096))),
            "invalid open URL action",
        ),
        (Action::OpenPath(String::new()), "invalid open path action"),
        (Action::ShowMessage("a\u{0}".to_string()), "invalid message action"),
        (Action::Notify(String::new(), String::new()), "invalid notification title"),
        (Action::Notify("t".to_string(), "\u{7}".to_string()), "invalid notification body"),
        (Action::RunApprovedCommand(Vec::new()), "invalid command action"),
        (
            Action::ScheduleNotification(31_536_001, String::new(), String::new()),
            "scheduled action delay exceeds one year",
        ),
        (
            Action::ScheduleNotification(60, String::new(), String::new()),
            "invalid notification title",
        ),
        (
            Action::ScheduleCommand(31_536_000, vec!["".to_string()]),
            "invalid command argument",
        ),
        (Action::ScheduleCommand(5, vec!["true".to_string()]), ""),
        (Action::NoAction, ""),
    ];
    for (action, expected) in cases {
        assert_eq!(message_of(item(Icon::NoIcon, action)), expected);
    }
}

#[test]
fn query_results_are_cut_to_the_limit() {
    let items: Vec<ResultItem> = (0..5)
        .map(|i| {
            let mut it = item(Icon::NoIcon, Action::NoAction);
            it.id = format!("r{i}");
            it
        })
        .collect();
    let kept = map_results(items, 3).unwrap();
    let ids: Vec<&str> = kept.iter().map(|r| r.id.as_str()).collect();
    assert_eq!(ids, vec!["r0", "r1", "r2"]);
}

#[test]
fn only_kept_results_are_checked() {
    let mut items: Vec<ResultItem> = (0..3).map(|_| item(Icon::NoIcon, Action::NoAction)).collect();
    items[2].title = String::new();
    assert_eq!(map_results(items, 2).unwrap().len(), 2);
    let mut items: Vec<ResultItem> = (0..3).map(|_| item(Icon::NoIcon, Action::NoAction)).collect();
    items[1].title = String::new();
    items[2].id = String::new();
    let error = map_results(items, 3).unwrap_err();
    assert_eq!(error.message(), "invalid result title");
}
