use rayslash_module_host::protocol::{
    default_settings_json, dispatch_request, finish_query, request_line_fits, write_error,
    Dispatch, ModuleOutcome, QueryReply, QueryResult, Request, RequestError,
};
use rayslash_module_host::result::{Action, Icon, ResultItem};

fn query(query: &str, max_results: u32, settings_json: &str) -> Option<Request> {
    Some(Request::Query {
        id: 9,
        query: query.to_string(),
        max_results,
        locale: None,
        settings_json: settings_json.to_string(),
    })
}

fn rejection(dispatch: Dispatch) -> Option<(Option<u64>, RequestError)> {
    match dispatch {
        Dispatch::Reject { reply_to, error } => Some((reply_to, error)),
        _ => None,
    }
}

#[test]
fn settings_default_to_an_empty_object() {
    assert_eq!(default_settings_json(), "{}");
}

#[test]
fn error_replies_are_json_lines() {
    let mut out = Vec::new();
    write_error(&mut out, Some(7), "invalid query limits").unwrap();
    write_error(&mut out, None, "say \"hi\"\n").unwrap();
    write_error(&mut out, Some(18446744073709551615), "").unwrap();
    assert_eq!(
        String::from_utf8(out).unwrap(),
        "{\"type\":\"error\",\"id\":7,\"error\":\"invalid query limits\"}\n\
         {\"type\":\"error\",\"error\":\"say \\\"hi\\\"\\n\"}\n\
         {\"type\":\"error\",\"id\":18446744073709551615,\"error\":\"\"}\n"
    );
}

#[test]
fn error_messages_are_escaped_as_json_strings() {
    let mut out = Vec::new();
    write_error(&mut out, None, "a\u{1}b\u{1f}c\u{7f}d\\e\t\r\u{8}\u{c}é/").unwrap();
    assert_eq!(
        String::from_utf8(out).unwrap(),
        "{\"type\":\"error\",\"error\":\"a\\u0001b\\u001fc\u{7f}d\\\\e\\t\\r\\b\\fé/\"}\n"
    );
}

#[test]
fn error_replies_append_to_what_is_there() {
    let mut out = b"kept".to_vec();
    write_error(&mut out, Some(0), "x").unwrap();
    assert_eq!(out, b"kept{\"type\":\"error\",\"id\":0,\"error\":\"x\"}\n".to_vec());
}

#[test]
fn request_lines_are_bounded() {
    assert!(request_line_fits(&"x".repeat(262144)));
    assert!(!request_line_fits(&"x".repeat(262145)));
    assert_eq!(RequestError::RequestTooLarge.message(), "request exceeds limit");
}

#[test]
fn handshakes_must_name_the_protocol() {
    assert!(matches!(dispatch_request(Some(Request::Handshake { protocol: 1 })), Dispatch::Handshake));
    assert_eq!(
        rejection(dispatch_request(Some(Request::Handshake { protocol: 2 }))),
        Some((None, RequestError::UnsupportedProtocol))
    );
    assert_eq!(
        rejection(dispatch_request(None)),
        Some((None, RequestError::InvalidRequest))
    );
    assert_eq!(RequestError::UnsupportedProtocol.message(), "unsupported protocol");
    assert_eq!(RequestError::InvalidRequest.message(), "invalid request");
}

#[test]
fn queries_must_be_within_limits() {
    match dispatch_request(query("weather", 100, "{}")) {
        Dispatch::Query { id, context } => {
            assert_eq!(id, 9);
            assert_eq!(context.query, "weather");
            assert_eq!(context.max_results, 100);
            assert_eq!(context.settings_json, "{}");
        }
        _ => panic!("query refused"),
    }
    assert!(matches!(dispatch_request(query(&"é".repeat(4096), 1, "{}")), Dispatch::Query { .. }));
    for bad in [
        query(&"é".repeat(4097), 1, "{}"),
        query("q", 0, "{}"),
        query("q", 101, "{}"),
        query("q", 5, &"x".repeat(262145)),
    ] {
        assert_eq!(
            rejection(dispatch_request(bad)),
            Some((Some(9), RequestError::InvalidQueryLimits))
        );
    }
    assert_eq!(RequestError::InvalidQueryLimits.message(), "invalid query limits");
}

fn result(id: &str) -> ResultItem {
    ResultItem {
        id: id.to_string(),
        title: "t".to_string(),
        subtitle: String::new(),
        icon: Icon::NoIcon,
        score: None,
        action: Action::NoAction,
    }
}

#[test]
fn query_outcomes_become_replies() {
    let answered = ModuleOutcome::Answered(QueryResult {
        results: vec![result("a"), result("b")],
        exclusive: true,
    });
    match finish_query(1, answered).unwrap() {
        QueryReply::Value { results, exclusive } => {
            assert_eq!(results.len(), 1);
            assert_eq!(results[0].id, "a");
            assert!(exclusive);
        }
        QueryReply::Error(_) => panic!("expected results"),
    }
    match finish_query(5, ModuleOutcome::Trapped("out of fuel".to_string())).unwrap() {
        QueryReply::Error(message) => assert_eq!(message, "module trapped: out of fuel"),
        _ => panic!("expected an error"),
    }
    match finish_query(5, ModuleOutcome::Refused("Unavailable(\"x\")".to_string())).unwrap() {
        QueryReply::Error(message) => assert_eq!(message, "Unavailable(\"x\")"),
        _ => panic!("expected an error"),
    }
    let bad = ModuleOutcome::Answered(QueryResult { results: vec![result("")], exclusive: false });
    assert_eq!(finish_query(5, bad).err().unwrap().message(), "invalid result ID");
}
