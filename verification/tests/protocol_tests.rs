use devbrowsers::bidi;
use devbrowsers::cdp;
use devbrowsers::json::{
    answers_exec, as_u64, empty_object, get, is_reply_to_first, request, request_text,
    str_member_of, JsonNumber, JsonValue,
};

#[test]
fn request_text_is_compact_json() {
    assert_eq!(cdp::targets_request_text(), "{\"id\":1,\"method\":\"Target.getTargets\",\"params\":{}}");
    assert_eq!(bidi::tree_request_text(), "{\"id\":1,\"method\":\"browsingContext.getTree\",\"params\":{}}");
    let params = cdp::expression_params("alert('x')");
    assert_eq!(
        cdp::command_request_text("Runtime.evaluate", params),
        "{\"id\":1,\"method\":\"Runtime.evaluate\",\"params\":{\"expression\":\"alert('x')\"}}"
    );
    assert_eq!(
        bidi::evaluate_request_text("ctx-1", "1+1"),
        "{\"id\":1,\"method\":\"script.evaluate\",\"params\":{\"awaitPromise\":false,\"expression\":\"1+1\",\"target\":{\"context\":\"ctx-1\"}}}"
    );
    assert_eq!(request_text(&request("m", empty_object())), "{\"id\":1,\"method\":\"m\",\"params\":{}}");
}

#[test]
fn replies_are_recognised_by_their_number() {
    assert!(is_reply_to_first("{\"id\":1,\"result\":{}}"));
    assert!(!is_reply_to_first("{\"id\":2,\"result\":{}}"));
    assert!(!is_reply_to_first("{\"method\":\"Target.targetCreated\"}"));
    assert!(!is_reply_to_first("{\"id\":\"1\"}"));
    assert!(!is_reply_to_first("{\"id\":1.0}"));
    assert!(!is_reply_to_first("not json"));
    assert!(!is_reply_to_first("[1]"));
}

#[test]
fn reading_documents() {
    let mut m = Vec::new();
    m.push(("id".to_string(), JsonValue::Number(JsonNumber::Unsigned(7))));
    m.push(("name".to_string(), JsonValue::Str("x".to_string())));
    let v = JsonValue::Object(m);
    assert!(answers_exec(&v, 7));
    assert!(!answers_exec(&v, 1));
    assert_eq!(as_u64(get(&v, "id").unwrap()), Some(7));
    assert!(get(&v, "missing").is_none());
    assert_eq!(str_member_of(&v, "name"), "x");
    assert_eq!(str_member_of(&v, "id"), "");
    assert_eq!(as_u64(&JsonValue::Number(JsonNumber::Negative(-3))), None);
    assert_eq!(as_u64(&JsonValue::Number(JsonNumber::Negative(3))), Some(3));
}

#[test]
fn cdp_targets_are_read_from_the_reply() {
    let reply = "{\"id\":1,\"result\":{\"targetInfos\":[{\"targetId\":\"AB12\",\"type\":\"page\",\"title\":\"Login\",\"url\":\"https://site.com/\",\"attached\":false},{\"targetId\":\"CD34\",\"type\":\"service_worker\",\"url\":\"https://sw/\"}]}}";
    let ts = cdp::targets_from_message(reply, 9223).unwrap();
    assert_eq!(ts.len(), 2);
    assert_eq!(ts[0].id, "AB12");
    assert_eq!(ts[0].target_type, "page");
    assert_eq!(ts[0].title, "Login");
    assert_eq!(ts[0].url, "https://site.com/");
    assert_eq!(ts[0].web_socket_debugger_url, Some("ws://127.0.0.1:9223/devtools/page/AB12".to_string()));
    assert_eq!(ts[1].title, "");
    assert_eq!(ts[1].web_socket_debugger_url, Some("ws://127.0.0.1:9223/devtools/page/CD34".to_string()));
}

#[test]
fn cdp_other_messages_are_not_the_reply() {
    assert!(cdp::targets_from_message("{\"id\":3,\"result\":{}}", 1).is_none());
    assert!(cdp::targets_from_message("garbage", 1).is_none());
    let ts = cdp::targets_from_message("{\"id\":1,\"result\":{}}", 1).unwrap();
    assert!(ts.is_empty());
    let ts = cdp::targets_from_message("{\"id\":1,\"result\":{\"targetInfos\":{}}}", 1).unwrap();
    assert!(ts.is_empty());
}

#[test]
fn cdp_addresses() {
    assert_eq!(cdp::host_port("ws://127.0.0.1:9222/devtools/browser/abc"), "127.0.0.1:9222");
    assert_eq!(cdp::host_port("wss://host:1/x"), "host:1");
    assert_eq!(cdp::local_address("ws://localhost:9222/x"), "ws://127.0.0.1:9222/x");
    assert_eq!(cdp::page_socket(9222, "P"), "ws://127.0.0.1:9222/devtools/page/P");
    assert_eq!(
        cdp::missing_socket_error(""),
        Some("URL do WebSocket não capturada no lançamento".to_string())
    );
    assert_eq!(cdp::missing_socket_error("ws://x"), None);
}

#[test]
fn bidi_endpoint() {
    assert_eq!(bidi::host(9223), "127.0.0.1:9223");
    assert_eq!(bidi::version_url(9223), "http://127.0.0.1:9223/json/version");
    assert_eq!(
        bidi::socket_from_version("{\"Browser\":\"Firefox\",\"webSocketDebuggerUrl\":\"ws://localhost:9223/session\"}"),
        Ok("ws://127.0.0.1:9223/session".to_string())
    );
    assert_eq!(
        bidi::socket_from_version("{\"Browser\":\"Firefox\"}"),
        Err("webSocketDebuggerUrl ausente".to_string())
    );
    assert_eq!(
        bidi::socket_from_version("{\"webSocketDebuggerUrl\":5}"),
        Err("webSocketDebuggerUrl ausente".to_string())
    );
    let err = bidi::socket_from_version("{oops").unwrap_err();
    assert_eq!(err, serde_json::from_str::<serde_json::Value>("{oops").unwrap_err().to_string());
}

#[test]
fn bidi_tree_lists_contexts_and_children() {
    let reply = "{\"type\":\"success\",\"id\":1,\"result\":{\"contexts\":[{\"context\":\"A\",\"url\":\"https://a/\",\"children\":[{\"context\":\"A1\",\"url\":\"https://a/frame\",\"children\":[]}]},{\"context\":\"B\",\"url\":\"about:blank\",\"children\":null}]}}";
    let ts = bidi::tree_from_message(reply).unwrap();
    let got: Vec<(String, String)> = ts.into_iter().map(|t| (t.id, t.url)).collect();
    assert_eq!(
        got,
        vec![
            ("A".to_string(), "https://a/".to_string()),
            ("A1".to_string(), "https://a/frame".to_string()),
            ("B".to_string(), "about:blank".to_string()),
        ]
    );
    assert!(bidi::tree_from_message("{\"id\":2}").is_none());
    assert!(bidi::tree_from_message("{\"id\":1}").unwrap().is_empty());
}
