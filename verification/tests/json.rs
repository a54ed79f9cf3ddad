use mcp_wrapper_rs::json::{parse, to_pretty_text, to_text, Json};
use mcp_wrapper_rs::transport::{
    build_error_response, build_notification, build_request, build_response, classify, decode_line,
    encode_line, sort_line, JsonRpcMessage, Line,
};

fn json(text: &str) -> Json {
    parse(text).expect("valid JSON")
}

#[test]
fn texts_are_parsed_and_written_compactly() {
    let text = r#" { "b" : [1, -2, 2.5, true, null], "a" : "x\n\"é" } "#;
    let value = json(text);
    assert_eq!(to_text(&value), r#"{"a":"x\n\"é","b":[1,-2,2.5,true,null]}"#);
    assert_eq!(json(&to_text(&value)), value);
    assert_eq!(
        to_pretty_text(&json(r#"{"a": [1]}"#)),
        "{\n  \"a\": [\n    1\n  ]\n}"
    );
    assert_eq!(to_text(&json("18446744073709551615")), "18446744073709551615");
    assert_eq!(to_text(&json("-9223372036854775808")), "-9223372036854775808");
}

#[test]
fn what_is_no_json_is_refused() {
    for text in ["", "{", "[1,]", "nul", "'a'", "{\"a\":1} x", "01"] {
        assert_eq!(parse(text), None, "{text}");
    }
    let deep = format!("{}{}", "[".repeat(128), "]".repeat(128));
    assert_eq!(parse(&deep), None);
    let shallow = format!("{}{}", "[".repeat(127), "]".repeat(127));
    assert!(parse(&shallow).is_some());
}

#[test]
fn later_entries_win() {
    let value = json(r#"{"a": 1, "a": 2}"#);
    assert_eq!(value.get("a"), Some(&json("2")));
    assert_eq!(to_text(&value), r#"{"a":2}"#);

    let built = Json::Object(vec![
        ("b".to_string(), Json::Null),
        ("a".to_string(), Json::UInt(1)),
        ("a".to_string(), Json::UInt(2)),
        ("b".to_string(), Json::Bool(true)),
        ("a".to_string(), Json::UInt(3)),
    ]);
    assert_eq!(built.get("a"), Some(&Json::UInt(3)));
    assert_eq!(to_text(&built), r#"{"a":3,"b":true}"#);
    assert_eq!(built, json(r#"{"a": 3, "b": true}"#));
}

#[test]
fn fractional_zeros_are_equal_and_keep_their_sign() {
    for (a, b) in [
        ("0.0", "-0.0"),
        ("-0", "0.0"),
        ("[1, {\"x\": -0.0}]", "[1, {\"x\": 0.0}]"),
        ("-0.0", "0"),
        ("0.0", "0"),
        ("-1.5", "1.5"),
        ("1e2", "100.0"),
        ("[0.0]", "0.0"),
    ] {
        let outside: bool = serde_json::from_str::<serde_json::Value>(a).unwrap()
            == serde_json::from_str::<serde_json::Value>(b).unwrap();
        assert_eq!(json(a) == json(b), outside, "{a} and {b}");
    }
    assert_eq!(json("0.0"), json("-0.0"));
    assert_eq!(to_text(&json("-0.0")), "-0.0");
    assert_eq!(to_text(&json("0.0")), "0.0");
}

#[test]
fn values_are_compared_by_what_they_hold() {
    assert_eq!(json(r#"{"a": 1, "b": 2}"#), json(r#"{"b": 2, "a": 1}"#));
    assert_ne!(json("1"), json("\"1\""));
    assert_ne!(json("1"), json("1.0"));
    assert_eq!(json("2.5"), json("2.50"));
    assert_eq!(Json::UInt(7), Json::Int(7));
    assert_ne!(json("[1, 2]"), json("[2, 1]"));
    assert_ne!(json("{}"), json("[]"));
    assert_ne!(json("null"), json("false"));
}

#[test]
fn fields_are_set_and_read() {
    let mut value = Json::object();
    value.set("a", Json::Bool(true));
    value.set("a", Json::text("now"));
    value.set("b", Json::Null);
    assert_eq!(to_text(&value), r#"{"a":"now","b":null}"#);
    assert_eq!(value.get("a").unwrap().as_str(), Some("now"));
    assert!(value.get("b").unwrap().is_null());
    assert!(value.get("c").is_none());
    assert_eq!(json("true").as_bool(), Some(true));
    assert_eq!(json("1").as_bool(), None);
    assert_eq!(json("[1]").as_array().unwrap().len(), 1);
    assert!(json("{}").as_array().is_none());
    assert!(json("\"x\"").is_string());
    assert!(json("false").is_boolean());
    assert_eq!(Json::array(), json("[]"));
    let mut null = Json::Null;
    null.set("k", Json::UInt(1));
    assert_eq!(null, json(r#"{"k": 1}"#));
}

#[test]
fn messages_are_sorted_by_role() {
    match classify(&json(r#"{"id": 1, "method": "m", "params": [1]}"#)) {
        JsonRpcMessage::Request { id, method, params } => {
            assert_eq!(id, json("1"));
            assert_eq!(method, "m");
            assert_eq!(params, Some(json("[1]")));
        }
        _ => panic!("a request"),
    }
    match classify(&json(r#"{"id": "x", "result": 3}"#)) {
        JsonRpcMessage::Response { id, result, error } => {
            assert_eq!(id, Json::text("x"));
            assert_eq!(result, Some(json("3")));
            assert_eq!(error, None);
        }
        _ => panic!("a response"),
    }
    match classify(&json(r#"{"method": "n"}"#)) {
        JsonRpcMessage::Notification { method, params } => {
            assert_eq!(method, "n");
            assert_eq!(params, None);
        }
        _ => panic!("a notification"),
    }
    for text in ["{}", "[]", "1", r#"{"method": 5}"#] {
        match classify(&json(text)) {
            JsonRpcMessage::Notification { method, .. } => assert_eq!(method, ""),
            _ => panic!("a notification without a method"),
        }
    }
}

#[test]
fn jsonrpc_response_envelope_conforms() {
    assert_eq!(
        build_response(
            json("1"),
            json(
                r#"{"protocolVersion": "2025-03-26", "capabilities": {},
                    "serverInfo": {"name": "t", "version": "0.1"}}"#
            )
        ),
        json(
            r#"{
        "jsonrpc": "2.0",
        "id": 1,
        "result": {"protocolVersion": "2025-03-26", "capabilities": {}, "serverInfo": {"name": "t", "version": "0.1"}}
    }"#
        )
    );
}

#[test]
fn jsonrpc_error_envelope_conforms() {
    assert_eq!(
        build_error_response(json("1"), -32603, "internal error", None),
        json(
            r#"{
        "jsonrpc": "2.0",
        "id": 1,
        "error": {"code": -32603, "message": "internal error"}
    }"#
        )
    );
}

#[test]
fn jsonrpc_error_with_data_conforms() {
    assert_eq!(
        build_error_response(
            json("1"),
            -32601,
            "method not found",
            Some(json(r#"{"detail": "unknown"}"#))
        ),
        json(
            r#"{
        "jsonrpc": "2.0",
        "id": 1,
        "error": {"code": -32601, "message": "method not found", "data": {"detail": "unknown"}}
    }"#
        )
    );
}

#[test]
fn built_messages_keep_their_role() {
    assert!(matches!(
        classify(&build_request(json("1"), "m", Some(json("{}")))),
        JsonRpcMessage::Request { .. }
    ));
    assert!(matches!(
        classify(&build_notification("m", None)),
        JsonRpcMessage::Notification { .. }
    ));
    assert!(matches!(
        classify(&build_response(json("1"), Json::Null)),
        JsonRpcMessage::Response { .. }
    ));
}

#[test]
fn lines_carry_one_message_each() {
    let message = build_request(json("1"), "tools/call", Some(json(r#"{"text": "a\nb"}"#)));
    let line = encode_line(&message);
    assert_eq!(
        line,
        "{\"id\":1,\"jsonrpc\":\"2.0\",\"method\":\"tools/call\",\"params\":{\"text\":\"a\\nb\"}}\n"
    );
    match decode_line(&line) {
        Line::Message(read) => assert_eq!(read, message),
        _ => panic!("a message"),
    }
    assert!(matches!(decode_line(" \t\r\n"), Line::Blank));
    assert!(matches!(decode_line("{oops}\n"), Line::Malformed));
    assert!(matches!(sort_line("", Some(Json::Null)), Line::Blank));
    assert!(matches!(sort_line("x", None), Line::Malformed));
}
