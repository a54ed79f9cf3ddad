use mcp_wrapper_rs::admin_cli::{
    backend_control, broker_list, broker_report, broker_request, doctor, exit_code, may_start,
    print_text, status, target_value, BrokerReply,
};
use mcp_wrapper_rs::cli::{AdminAction, CommandTarget};
use mcp_wrapper_rs::daemon_manager::{broker_status, daemon_paths, BrokerFacts, BrokerStatus};
use mcp_wrapper_rs::event_plane::is_wrapper_tool_request;
use mcp_wrapper_rs::json::{parse, Json};
use mcp_wrapper_rs::logging::cmd_hash;
use mcp_wrapper_rs::mcp_interface::build_response;
use mcp_wrapper_rs::tools::schema::{
    error_envelope, ok_envelope, parse_invocation, to_call_tool_result, ToolAction,
};

fn json(text: &str) -> Json {
    parse(text).expect("valid JSON")
}

fn at(value: &Json, path: &[&str]) -> Json {
    let mut here = value;
    for key in path {
        here = here.get(key).expect("field");
    }
    here.copy()
}

fn target() -> CommandTarget {
    CommandTarget {
        cmd: "python3".to_string(),
        args: vec!["server.py".to_string()],
    }
}

fn state(pid: Option<u32>) -> BrokerStatus {
    let paths = daemon_paths("/run/x", "python3", &["server.py".to_string()]);
    broker_status(
        &paths,
        BrokerFacts {
            pid,
            socket_exists: pid.is_some(),
            lock_exists: true,
            meta_text: None,
            current_exe: None,
        },
    )
}

#[test]
fn cli_admin_status_without_spawn() {
    let report = status(&target(), &state(None), None);
    assert_eq!(at(&report, &["ok"]), Json::Bool(true));
    assert_eq!(at(&report, &["action"]), Json::text("status"));
    assert_eq!(at(&report, &["broker", "running"]), Json::Bool(false));
    assert_eq!(at(&report, &["result"]), Json::Null);
    assert_eq!(exit_code(&report), 0);
}

#[test]
fn status_shows_what_the_broker_answers() {
    let answered = status(
        &target(),
        &state(Some(4)),
        Some(Ok(json(r#"{"id": 1, "result": {"backend": {"alive": true}}}"#))),
    );
    assert_eq!(
        at(&answered, &["result", "backend", "alive"]),
        Json::Bool(true)
    );
    let silent = status(
        &target(),
        &state(Some(4)),
        Some(Err("broker closed without response".to_string())),
    );
    assert_eq!(
        at(&silent, &["result"]),
        json(r#"{"backendError": "broker closed without response"}"#)
    );
    let strange = status(&target(), &state(Some(4)), Some(Ok(json("{}"))));
    assert_eq!(at(&strange, &["result"]), Json::Null);
}

#[test]
fn commands_about_the_backend_call_the_tool() {
    assert_eq!(
        broker_request(AdminAction::BackendRestart, true),
        Some(json(
            r#"{"jsonrpc": "2.0", "id": 1, "method": "tools/call", "params": {
                "name": "mcp.wrapper",
                "arguments": {"action": "backend.restart", "params": {"force": true}}}}"#
        ))
    );
    assert_eq!(
        broker_request(AdminAction::BackendStop, false),
        Some(json(
            r#"{"jsonrpc": "2.0", "id": 1, "method": "tools/call", "params": {
                "name": "mcp.wrapper", "arguments": {"action": "backend.stop"}}}"#
        ))
    );
    assert_eq!(
        broker_request(AdminAction::Status, false),
        Some(json(
            r#"{"jsonrpc": "2.0", "id": 1, "method": "mcp-wrapper/backend/status"}"#
        ))
    );
    assert_eq!(
        broker_request(AdminAction::Doctor, false),
        Some(json(
            r#"{"jsonrpc": "2.0", "id": 1, "method": "mcp-wrapper/backend/ping"}"#
        ))
    );
    assert_eq!(broker_request(AdminAction::BrokerStop, false), None);
}

fn refused(action: AdminAction, name: &str) -> Json {
    let envelope = error_envelope(name, "default", "activeCalls", "calls are active");
    backend_control(
        action,
        &target(),
        &state(Some(4)),
        BrokerReply::Answer(build_response(json("1"), to_call_tool_result(envelope))),
    )
}

#[test]
fn cli_admin_backend_stop_rejects_active_daemon_call() {
    let stopped = refused(AdminAction::BackendStop, "backend.stop");
    assert_ne!(exit_code(&stopped), 0);
    assert_eq!(at(&stopped, &["ok"]), Json::Bool(false));
    assert_eq!(at(&stopped, &["error", "code"]), Json::text("activeCalls"));
}

#[test]
fn cli_admin_backend_restart_rejects_active_daemon_call() {
    let restarted = refused(AdminAction::BackendRestart, "backend.restart");
    assert_ne!(exit_code(&restarted), 0);
    assert_eq!(at(&restarted, &["ok"]), Json::Bool(false));
    assert_eq!(at(&restarted, &["error", "code"]), Json::text("activeCalls"));
    assert!(restarted.get("result").is_none());
}

#[test]
fn answers_of_the_backend_are_reported() {
    let envelope = ok_envelope("backend.ping", "default", json(r#"{"ok": true}"#));
    let report = backend_control(
        AdminAction::BackendPing,
        &target(),
        &state(Some(4)),
        BrokerReply::Answer(build_response(json("1"), to_call_tool_result(envelope))),
    );
    assert_eq!(at(&report, &["ok"]), Json::Bool(true));
    assert_eq!(at(&report, &["action"]), Json::text("backend.ping"));
    assert_eq!(at(&report, &["result", "ok"]), Json::Bool(true));
    assert_eq!(at(&report, &["broker", "running"]), Json::Bool(true));
    assert_eq!(exit_code(&report), 0);

    let reply = |reply| backend_control(AdminAction::BackendPing, &target(), &state(None), reply);
    let absent = reply(BrokerReply::Unreachable("connect: refused".to_string()));
    assert_eq!(
        at(&absent, &["error"]),
        json(r#"{"code": "broker.notRunning", "message": "connect: refused"}"#)
    );
    let failed = reply(BrokerReply::Failed("write broker request: x".to_string()));
    assert_eq!(
        at(&failed, &["error", "code"]),
        Json::text("backend.control")
    );
    let protocol = reply(BrokerReply::Answer(json(
        r#"{"id": 1, "error": {"code": -32603, "message": "no"}}"#,
    )));
    assert_eq!(at(&protocol, &["error", "code"]), json("-32603"));
    assert_eq!(exit_code(&protocol), 1);
    let plain = reply(BrokerReply::Answer(json(r#"{"id": 1, "result": 5}"#)));
    assert_eq!(at(&plain, &["result"]), json("5"));
}

#[test]
fn brokers_are_reported() {
    let listed = broker_list(Ok(vec![state(Some(4)), state(None)]));
    let brokers = at(&listed, &["result", "brokers"]);
    assert_eq!(brokers.as_array().unwrap().len(), 2);
    let hash = cmd_hash("python3", &["server.py".to_string()]);
    let expected = json(&format!(
        r#"{{"hash": "{hash}", "running": true, "pid": 4, "socketExists": true,
            "lockExists": true, "socket": "/run/x/{hash}.sock", "lock": "/run/x/{hash}.lock",
            "pidPath": "/run/x/{hash}.pid", "metaPath": "/run/x/{hash}.meta.json",
            "meta": null, "metaMatchesCurrentExe": false}}"#
    ));
    assert_eq!(brokers.as_array().unwrap()[0], expected);
    let failed = broker_list(Err("denied".to_string()));
    assert_eq!(at(&failed, &["error", "code"]), Json::text("broker.list"));

    let stopped = broker_report(AdminAction::BrokerStop, &target(), Ok(()), &state(None));
    assert_eq!(at(&stopped, &["ok"]), Json::Bool(true));
    assert_eq!(at(&stopped, &["broker", "running"]), Json::Bool(false));
    assert_eq!(at(&stopped, &["result"]), Json::Null);
    let restarted = broker_report(
        AdminAction::BrokerRestart,
        &target(),
        Err("late".to_string()),
        &state(None),
    );
    assert_eq!(
        at(&restarted, &["error"]),
        json(r#"{"code": "broker.restart", "message": "late"}"#)
    );
    assert_eq!(
        target_value(&target()),
        json(&format!(
            r#"{{"cmd": "python3", "args": ["server.py"], "hash": "{hash}"}}"#
        ))
    );
}

#[test]
fn doctor_shows_the_identity_and_the_ping() {
    let hash = cmd_hash("python3", &["server.py".to_string()]);
    let report = doctor(
        &target(),
        &state(Some(4)),
        Some(json(r#"{"id": 1, "result": {"ok": true}}"#)),
    );
    assert_eq!(at(&report, &["result", "targetHash"]), Json::text(&hash));
    assert_eq!(at(&report, &["result", "backendPing", "ok"]), Json::Bool(true));
    let alone = doctor(&target(), &state(None), None);
    assert_eq!(at(&alone, &["result", "backendPing"]), Json::Null);
}

#[test]
fn reports_are_put_in_words() {
    let fine = status(&target(), &state(Some(4)), None);
    assert_eq!(
        print_text(&fine),
        vec!["status: ok".to_string(), "broker.running: true".to_string()]
    );
    let failed = broker_list(Err("denied".to_string()));
    assert_eq!(
        print_text(&failed),
        vec![
            "broker.list: failed".to_string(),
            "error: denied".to_string()
        ]
    );
    assert_eq!(print_text(&json("{}")), vec!["admin: failed".to_string()]);
}

#[test]
fn cli_admin_broker_list_status_stop_json() {
    let restarted = broker_report(AdminAction::BrokerRestart, &target(), Ok(()), &state(Some(4)));
    assert_eq!(at(&restarted, &["ok"]), Json::Bool(true));
    assert_eq!(at(&restarted, &["broker", "running"]), Json::Bool(true));
    let hash = at(&restarted, &["broker", "hash"]);

    let list = broker_list(Ok(vec![state(Some(4))]));
    let brokers = at(&list, &["result", "brokers"]);
    assert!(brokers
        .as_array()
        .unwrap()
        .iter()
        .any(|broker| broker.get("hash") == Some(&hash)));

    let status = broker_report(AdminAction::BrokerStatus, &target(), Ok(()), &state(Some(4)));
    assert_eq!(at(&status, &["broker", "running"]), Json::Bool(true));

    let stopped = broker_report(AdminAction::BrokerStop, &target(), Ok(()), &state(None));
    assert_eq!(at(&stopped, &["ok"]), Json::Bool(true));
    assert_eq!(at(&stopped, &["broker", "running"]), Json::Bool(false));

    let status_after = broker_report(AdminAction::BrokerStatus, &target(), Ok(()), &state(None));
    assert_eq!(at(&status_after, &["broker", "running"]), Json::Bool(false));
}

#[test]
fn what_is_asked_of_the_broker_is_a_valid_call() {
    for (action, expected) in [
        (AdminAction::BackendStatus, ToolAction::BackendStatus),
        (AdminAction::BackendPing, ToolAction::BackendPing),
        (AdminAction::BackendRefresh, ToolAction::BackendRefresh),
        (AdminAction::BackendRestart, ToolAction::BackendRestart),
        (AdminAction::BackendStop, ToolAction::BackendStop),
    ] {
        for force in [false, true] {
            let raw = broker_request(action, force).unwrap();
            assert!(is_wrapper_tool_request(&raw));
            let arguments = at(&raw, &["params", "arguments"]);
            let call = parse_invocation(Some(&arguments)).unwrap();
            assert_eq!(call.action, expected);
            assert_eq!(call.target, "default");
            assert_eq!(
                call.params.get("force").is_some_and(|f| *f == Json::Bool(true)),
                force
            );
        }
    }
}

#[test]
fn brokers_are_started_only_where_asked_for() {
    for action in [
        AdminAction::Status,
        AdminAction::BackendStatus,
        AdminAction::BackendPing,
        AdminAction::BackendRefresh,
        AdminAction::BackendRestart,
        AdminAction::BackendStop,
    ] {
        assert!(may_start(action, true));
        assert!(!may_start(action, false));
    }
    for action in [
        AdminAction::Doctor,
        AdminAction::BrokerList,
        AdminAction::BrokerStatus,
        AdminAction::BrokerStop,
        AdminAction::BrokerRestart,
    ] {
        assert!(!may_start(action, true));
        assert!(!may_start(action, false));
    }
}
