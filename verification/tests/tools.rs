use mcp_wrapper_rs::backend_manager::BackendSlot;
use mcp_wrapper_rs::json::{parse, to_pretty_text, Json};
use mcp_wrapper_rs::mcp_interface::WrapperControlMethod;
use mcp_wrapper_rs::mcp_manager::Cache;
use mcp_wrapper_rs::tools::backend::{
    after_refresh, after_restart, after_stop, control_answer, envelope_for,
    handle_wrapper_control, invoke, tool_answer, ControlStep, InvocationContext, ToolCall,
};
use mcp_wrapper_rs::tools::schema::{
    error_envelope, ok_envelope, parse_invocation, to_call_tool_result, ToolAction,
};
use mcp_wrapper_rs::tools::wrapper::{
    is_wrapper_tool_call, merge_initialize_result, merge_tools_list, tool_descriptor,
};

fn json(text: &str) -> Json {
    parse(text).expect("valid JSON")
}

fn at(value: &Json, path: &[&str]) -> Json {
    let mut here = value;
    for key in path {
        here = here.get(key).expect("field");
    }
    here.copy()
}

fn named<'a>(tools: &'a [Json], name: &str) -> Vec<&'a Json> {
    tools
        .iter()
        .filter(|tool| tool.get("name") == Some(&Json::text(name)))
        .collect()
}

#[test]
fn merge_initialize_result_adds_tools_capability() {
    let result = merge_initialize_result(json(
        r#"{
        "protocolVersion": "2025-03-26",
        "capabilities": {},
        "serverInfo": {"name": "fixture", "version": "0.0.1"}
    }"#,
    ));

    assert!(at(&result, &["capabilities", "tools"]).is_object());
}

#[test]
fn merge_tools_list_reserves_mcp_wrapper_name() {
    let result = merge_tools_list(json(
        r#"{
        "tools": [
            {"name": "echo"},
            {"name": "mcp.wrapper"}
        ]
    }"#,
    ));

    let tools = result.get("tools").unwrap().as_array().unwrap();
    assert_eq!(tools.len(), 2);
    assert_eq!(named(tools, "mcp.wrapper").len(), 1);
    assert_eq!(named(tools, "echo").len(), 1);
}

#[test]
fn merge_tools_list_wrapper_descriptor_wins_collision() {
    let result = merge_tools_list(json(
        r#"{
        "tools": [
            {"name": "echo"},
            {"name": "mcp.wrapper", "description": "backend impostor"}
        ]
    }"#,
    ));
    let tools = result.get("tools").unwrap().as_array().unwrap();
    let wrapper = named(tools, "mcp.wrapper");
    assert_eq!(wrapper.len(), 1, "exactly one mcp.wrapper survives");
    let required = at(wrapper[0], &["inputSchema", "required"]);
    assert!(
        required
            .as_array()
            .unwrap()
            .iter()
            .any(|v| *v == Json::text("action")),
        "surviving mcp.wrapper is the wrapper descriptor, not the backend one"
    );
    assert_ne!(
        wrapper[0].get("description"),
        Some(&Json::text("backend impostor"))
    );
    assert_eq!(*wrapper[0], tool_descriptor());
}

#[test]
fn merging_twice_changes_nothing() {
    let once = merge_tools_list(json(r#"{"tools": [{"name": "echo"}], "x": 1}"#));
    let twice = merge_tools_list(once.copy());
    assert_eq!(once, twice);
    assert_eq!(once.get("x"), Some(&json("1")));
    let from_nothing = merge_tools_list(json("{}"));
    assert_eq!(
        from_nothing.get("tools").unwrap().as_array().unwrap().len(),
        1
    );
}

#[test]
fn calls_of_the_tool_are_recognised() {
    assert!(is_wrapper_tool_call(&json(
        r#"{"method": "tools/call", "params": {"name": "mcp.wrapper"}}"#
    )));
    assert!(!is_wrapper_tool_call(&json(
        r#"{"method": "tools/call", "params": {"name": "echo"}}"#
    )));
}

#[test]
fn envelopes_have_their_form() {
    assert_eq!(
        ok_envelope("backend.ping", "default", json(r#"{"ok": true}"#)),
        json(
            r#"{"ok": true, "action": "backend.ping", "target": "default",
                "result": {"ok": true}, "error": null, "evidence": {}}"#
        )
    );
    assert_eq!(
        error_envelope("backend.stop", "default", "activeCalls", "busy"),
        json(
            r#"{"ok": false, "action": "backend.stop", "target": "default", "result": null,
                "error": {"code": "activeCalls", "message": "busy"}, "evidence": {}}"#
        )
    );
}

#[test]
fn an_envelope_is_shown_indented() {
    let envelope = ok_envelope("backend.ping", "default", json("1"));
    let text = to_pretty_text(&envelope);
    assert!(text.contains("\n  \"action\": \"backend.ping\""));
    let result = to_call_tool_result(envelope.copy());
    assert_eq!(result.get("isError"), Some(&Json::Bool(false)));
    let content = result.get("content").unwrap().as_array().unwrap();
    assert_eq!(content[0].get("type"), Some(&Json::text("text")));
    assert_eq!(content[0].get("text"), Some(&Json::text(&text)));
    assert_eq!(at(&result, &["_meta", "mcpWrapper"]), envelope);
    let failed = to_call_tool_result(error_envelope("a", "b", "c", "d"));
    assert_eq!(failed.get("isError"), Some(&Json::Bool(true)));
}

fn fault(arguments: Option<&str>) -> (Json, Json, Json) {
    let arguments = arguments.map(json);
    let envelope = parse_invocation(arguments.as_ref()).expect_err("a fault");
    (
        envelope.get("action").unwrap().copy(),
        at(&envelope, &["error", "code"]),
        at(&envelope, &["error", "message"]),
    )
}

#[test]
fn wrong_arguments_are_named() {
    assert_eq!(fault(None).1, Json::text("invalidParams"));
    assert_eq!(
        fault(Some("{}")),
        (
            Json::text("unknown"),
            Json::text("invalidParams"),
            Json::text("`action` is required")
        )
    );
    assert_eq!(
        fault(Some(r#"{"action": "backend.bounce"}"#)).2,
        Json::text("unsupported mcp.wrapper action")
    );
    assert_eq!(
        fault(Some(
            r#"{"action": "backend.restart", "params": {"force": "yes"}}"#
        ))
        .1,
        Json::text("invalidParams")
    );
    let good = json(r#"{"action": "backend.restart", "params": {"force": true}}"#);
    let call = parse_invocation(Some(&good)).unwrap();
    assert_eq!(call.action, ToolAction::BackendRestart);
    assert_eq!(call.target, "default");
}

fn cold_cache() -> Cache {
    let info = json(r#"{"capabilities": {}}"#);
    let mut sweep = Cache::begin_discovery(&info);
    assert!(!sweep.advance());
    Cache::from_discovery(info, sweep, 0)
}

#[test]
fn actions_are_answered_refused_or_begun() {
    let cache = cold_cache();
    let slot = BackendSlot::from_backend(1);
    let context = |alive: bool, active_calls: usize| InvocationContext {
        cache: &cache,
        backend_slot: &slot,
        alive,
        active_calls,
    };
    let step = |method, params: &str, alive, active| {
        handle_wrapper_control(method, &json(params), &context(alive, active))
    };
    match step(WrapperControlMethod::BackendPing, "{}", true, 0) {
        ControlStep::Answer(result) => assert_eq!(result.get("ok"), Some(&Json::Bool(true))),
        _ => panic!("a ping is answered"),
    }
    match step(WrapperControlMethod::BackendStatus, "{}", false, 0) {
        ControlStep::Answer(result) => {
            assert_eq!(at(&result, &["backend", "alive"]), Json::Bool(false));
            assert_eq!(at(&result, &["mcp", "cacheEpoch"]), json("1"));
        }
        _ => panic!("a status is answered"),
    }
    match step(WrapperControlMethod::BackendRefresh, "{}", false, 0) {
        ControlStep::Refuse { code, message } => {
            assert_eq!(code, "backendUnavailable");
            assert_eq!(message, "backend unavailable for refresh");
        }
        _ => panic!("there is no live backend"),
    }
    assert!(matches!(
        step(WrapperControlMethod::BackendRefresh, "{}", true, 0),
        ControlStep::Refresh
    ));
    match step(WrapperControlMethod::BackendRestart, "{}", true, 1) {
        ControlStep::Refuse { code, message } => {
            assert_eq!(code, "activeCalls");
            assert_eq!(message, "backend restart rejected while calls are active");
        }
        _ => panic!("a call is running"),
    }
    assert!(matches!(
        step(
            WrapperControlMethod::BackendRestart,
            r#"{"params": {"force": true}}"#,
            true,
            1
        ),
        ControlStep::Restart { force: true }
    ));
    match step(WrapperControlMethod::BackendStop, "{}", true, 1) {
        ControlStep::Refuse { code, message } => {
            assert_eq!(code, "activeCalls");
            assert_eq!(message, "backend stop rejected while calls are active");
        }
        _ => panic!("a call is running"),
    }
    assert!(matches!(
        step(WrapperControlMethod::BackendStop, "{}", true, 0),
        ControlStep::Stop
    ));
}

#[test]
fn actions_end_after_what_they_asked_for() {
    match after_restart(Err("no such file".to_string()), false) {
        ControlStep::Refuse { code, message } => {
            assert_eq!(code, "backendRestart");
            assert_eq!(message, "no such file");
        }
        _ => panic!("the restart failed"),
    }
    match after_restart(Ok(()), false) {
        ControlStep::Refuse { message, .. } => {
            assert_eq!(message, "backend unavailable after restart")
        }
        _ => panic!("the backend is gone again"),
    }
    assert!(matches!(after_restart(Ok(()), true), ControlStep::Refresh));
    match after_refresh(Err("deadline".to_string())) {
        ControlStep::Refuse { message, .. } => assert_eq!(message, "deadline"),
        _ => panic!("the refresh failed"),
    }
    let mut slot = BackendSlot::from_backend(1);
    slot.stop();
    match after_stop(&slot.snapshot(false)) {
        ControlStep::Answer(result) => {
            assert_eq!(result.get("state"), Some(&Json::text("stopped")))
        }
        _ => panic!("the backend is stopped"),
    }
}

#[test]
fn answers_are_wrapped_for_both_callers() {
    let cache = cold_cache();
    let slot = BackendSlot::new_empty();
    let context = InvocationContext {
        cache: &cache,
        backend_slot: &slot,
        alive: false,
        active_calls: 0,
    };
    let raw = json(
        r#"{"id": 3, "method": "tools/call",
            "params": {"name": "mcp.wrapper", "arguments": {"action": "backend.ping"}}}"#,
    );
    let (invocation, step) = match invoke(&raw, &context) {
        ToolCall::Started(invocation, step) => (invocation, step),
        ToolCall::Invalid(_) => panic!("the call is valid"),
    };
    let envelope = envelope_for(&invocation, &step).expect("an end");
    let answer = tool_answer(json("3"), envelope.copy());
    assert_eq!(at(&answer, &["result", "_meta", "mcpWrapper"]), envelope);
    assert_eq!(at(&envelope, &["result", "ok"]), Json::Bool(false));
    let direct = control_answer(json("4"), &step).expect("an end");
    assert_eq!(at(&direct, &["result", "backend", "state"]), Json::text("cold"));
    let refused = control_answer(
        json("5"),
        &ControlStep::Refuse {
            code: "activeCalls",
            message: "busy".to_string(),
        },
    )
    .expect("an end");
    assert_eq!(
        refused,
        json(r#"{"jsonrpc": "2.0", "id": 5, "error": {"code": -32603, "message": "busy"}}"#)
    );
    assert!(control_answer(json("6"), &ControlStep::Refresh).is_none());
}

#[test]
fn action_names_lead_back() {
    for action in [
        ToolAction::BackendStatus,
        ToolAction::BackendPing,
        ToolAction::BackendRefresh,
        ToolAction::BackendRestart,
        ToolAction::BackendStop,
    ] {
        assert_eq!(ToolAction::from_name(action.name()), Some(action));
    }
    assert_eq!(ToolAction::from_name("backend.bounce"), None);
    assert!(ToolAction::BackendRestart
        .validate_params(&json(r#"{"force": 1}"#))
        .is_err());
    assert!(ToolAction::BackendStop
        .validate_params(&json(r#"{"force": 1}"#))
        .is_ok());
}
