//! Sessions that share one backend, without processes.

use mcp_wrapper_rs::backend_manager::{Backend, BackendEvent, BackendSlot, Incoming, RequestFailure};
use mcp_wrapper_rs::broker_manager::{
    after_respawn_refresh, after_session_ensure, broker_exits, finish_session_request,
    flag_without_command, is_announced, notify_clients_list_changed,
    on_broker_event, on_session_message, parse_broker_args, send_queued, BrokerAction, IdleWatch,
    Sessions, NANOS_PER_SEC,
};
use mcp_wrapper_rs::json::{parse, Json};
use mcp_wrapper_rs::lifetime::RequestLifetime;
use mcp_wrapper_rs::mcp_interface::{build_response, WrapperControlMethod};
use mcp_wrapper_rs::daemon_manager::build_broker_args;
use mcp_wrapper_rs::mcp_manager::{Cache, RefreshReport};
use mcp_wrapper_rs::runtime_manager::{
    after_announced_refresh, CallStep, ClientAction, Forwarded, PassThroughEnd,
};
use mcp_wrapper_rs::tools::backend::{
    control_answer, envelope_for, handle_wrapper_control, invoke, ControlStep, InvocationContext,
    ToolCall,
};
use mcp_wrapper_rs::tools::schema::ToolAction;

fn json(text: &str) -> Json {
    parse(text).expect("valid JSON")
}

fn at(value: &Json, path: &[&str]) -> Json {
    let mut here = value;
    for key in path {
        here = here.get(key).expect("field");
    }
    here.copy()
}

fn strings(words: &[&str]) -> Vec<String> {
    words.iter().map(|w| w.to_string()).collect()
}

struct Broker {
    lifetime: RequestLifetime,
    backend: Backend,
    cache: Cache,
    slot: BackendSlot,
    sessions: Sessions,
}

/// A call of a session that is at the backend.
struct Running {
    session: u64,
    id: Json,
    listed: bool,
    forwarded: Forwarded,
}

impl Broker {
    fn new() -> Broker {
        let info = json(r#"{"capabilities": {"tools": {}}, "serverInfo": {"name": "echo-server"}}"#);
        let mut sweep = Cache::begin_discovery(&info);
        while sweep.advance() {
            sweep
                .on_page(&json(r#"{"result": {"tools": [{"name": "echo"}]}}"#))
                .unwrap();
        }
        Broker {
            lifetime: RequestLifetime::new(),
            backend: Backend::new(),
            cache: Cache::from_discovery(info, sweep, 1),
            slot: BackendSlot::from_backend(1),
            sessions: Sessions::new(),
        }
    }

    fn say(&mut self, session: u64, text: &str) -> (ClientAction, bool) {
        on_session_message(
            &mut self.lifetime,
            &mut self.backend,
            &self.cache,
            session,
            true,
            json(text),
        )
    }

    fn call(&mut self, session: u64, text: &str) -> Running {
        let (id, raw, listed) = match self.say(session, text) {
            (ClientAction::PassThrough { id, raw }, listed) => (id, raw, listed),
            _ => panic!("the backend is to be asked"),
        };
        let forwarded = send_queued(
            &mut self.lifetime,
            &mut self.backend,
            session,
            &id,
            listed,
            raw,
        )
        .expect("nobody cancelled it");
        self.backend
            .begin_request(&forwarded.message, session)
            .unwrap();
        Running {
            session,
            id,
            listed,
            forwarded,
        }
    }

    fn end(&mut self, call: Running, result: Result<Json, RequestFailure>) -> PassThroughEnd {
        finish_session_request(
            &mut self.lifetime,
            &self.backend,
            call.session,
            call.id,
            call.listed,
            &call.forwarded.backend_id,
            result,
        )
    }

    fn event(&mut self, text: &str) -> BrokerAction {
        match self.backend.on_message(json(text)) {
            Incoming::Event(event) => {
                on_broker_event(&mut self.lifetime, &mut self.backend, true, event)
            }
            _ => panic!("an event"),
        }
    }

    fn context(&self) -> InvocationContext<'_> {
        InvocationContext {
            cache: &self.cache,
            backend_slot: &self.slot,
            alive: self.backend.is_alive(),
            active_calls: self.lifetime.active_count(),
        }
    }

    fn tool(&self, action: &str) -> Json {
        let raw = json(&format!(
            r#"{{"id": 20, "method": "tools/call",
                "params": {{"name": "mcp.wrapper", "arguments": {{"action": "{action}"}}}}}}"#
        ));
        match invoke(&raw, &self.context()) {
            ToolCall::Started(invocation, step) => envelope_for(&invocation, &step).unwrap(),
            ToolCall::Invalid(envelope) => envelope,
        }
    }
}

const CALL: &str = r#"{"jsonrpc": "2.0", "id": 10, "method": "tools/call",
    "params": {"name": "echo", "arguments": {"msg": "x"}, "_meta": {"progressToken": "t"}}}"#;

#[test]
fn daemon_basic_flow() {
    let mut b = Broker::new();
    let s = b.sessions.open();
    match b.say(s, r#"{"jsonrpc": "2.0", "id": 1, "method": "initialize"}"#).0 {
        ClientAction::Respond(answer) => assert_eq!(
            at(&answer, &["result", "serverInfo", "name"]),
            Json::text("echo-server")
        ),
        _ => panic!("from the cache"),
    }
    match b.say(s, r#"{"jsonrpc": "2.0", "id": 2, "method": "tools/list", "params": {}}"#).0 {
        ClientAction::Respond(answer) => {
            let tools = at(&answer, &["result", "tools"]);
            let tools = tools.as_array().unwrap();
            assert_eq!(tools.len(), 2);
            assert!(tools
                .iter()
                .any(|tool| tool.get("name") == Some(&Json::text("mcp.wrapper"))));
        }
        _ => panic!("from the cache"),
    }
    let call = b.call(s, CALL);
    assert_ne!(call.forwarded.backend_id, json("10"));
    let reply = build_response(call.forwarded.backend_id.copy(), json(r#"{"text": "daemon-test"}"#));
    match b.end(call, Ok(reply)) {
        PassThroughEnd::Respond(answer) => {
            assert_eq!(at(&answer, &["id"]), json("10"));
            assert_eq!(at(&answer, &["result", "text"]), Json::text("daemon-test"));
        }
        _ => panic!("an answer"),
    }
    assert_eq!(b.lifetime.active_count(), 0);
}

#[test]
fn daemon_ping_local() {
    let mut b = Broker::new();
    let s = b.sessions.open();
    match b.say(s, r#"{"jsonrpc": "2.0", "id": 2, "method": "ping"}"#).0 {
        ClientAction::Respond(answer) => {
            assert!(answer.get("result").is_some());
            assert!(answer.get("error").is_none());
        }
        _ => panic!("a local answer"),
    }
}

#[test]
fn daemon_two_clients_share_broker() {
    let mut b = Broker::new();
    let (s1, s2) = (b.sessions.open(), b.sessions.open());
    assert_ne!(s1, s2);
    let c1 = b.call(s1, CALL);
    let c2 = b.call(s2, CALL);
    assert_ne!(c1.forwarded.backend_id, c2.forwarded.backend_id);
    assert_eq!(b.lifetime.active_count(), 2);
    for (call, text) in [(c1, "from-w1"), (c2, "from-w2")] {
        let reply = build_response(call.forwarded.backend_id.copy(), Json::text(text));
        match b.end(call, Ok(reply)) {
            PassThroughEnd::Respond(answer) => {
                assert_eq!(at(&answer, &["id"]), json("10"));
                assert_eq!(at(&answer, &["result"]), Json::text(text));
            }
            _ => panic!("an answer"),
        }
    }
}

#[test]
fn daemon_wrapper_tool_restart_rejects_active_call() {
    let mut b = Broker::new();
    let s = b.sessions.open();
    let _call = b.call(s, CALL);
    let envelope = b.tool("backend.restart");
    assert_eq!(at(&envelope, &["ok"]), Json::Bool(false));
    assert_eq!(at(&envelope, &["error", "code"]), Json::text("activeCalls"));
}

#[test]
fn daemon_wrapper_tool_stop_rejects_active_call() {
    let mut b = Broker::new();
    let s = b.sessions.open();
    let _call = b.call(s, CALL);
    let envelope = b.tool("backend.stop");
    assert_eq!(at(&envelope, &["ok"]), Json::Bool(false));
    assert_eq!(at(&envelope, &["error", "code"]), Json::text("activeCalls"));
}

#[test]
fn daemon_legacy_restart_rejects_active_call() {
    let mut b = Broker::new();
    let s = b.sessions.open();
    let _call = b.call(s, CALL);
    let step = handle_wrapper_control(
        WrapperControlMethod::BackendRestart,
        &json(r#"{"params": {}}"#),
        &b.context(),
    );
    let rejected = control_answer(json("20"), &step).unwrap();
    assert_eq!(at(&rejected, &["error", "code"]), json("-32603"));
    assert_eq!(
        at(&rejected, &["error", "message"]),
        Json::text("backend restart rejected while calls are active")
    );
}

#[test]
fn daemon_client_cancel_translates_request_id_and_discards_late_response() {
    let mut b = Broker::new();
    let (s, other) = (b.sessions.open(), b.sessions.open());
    let call = b.call(s, CALL);
    let theirs = b.call(other, CALL);
    let cancel = r#"{"jsonrpc": "2.0", "method": "notifications/cancelled",
        "params": {"requestId": 10, "reason": "test cancel"}}"#;
    match b.say(s, cancel).0 {
        ClientAction::CancelCall(cancelled) => {
            assert_eq!(cancelled.waiter, s);
            assert_eq!(
                at(&cancelled.notice, &["params", "requestId"]),
                call.forwarded.backend_id
            );
        }
        _ => panic!("the call is cancelled"),
    }
    assert!(b
        .lifetime
        .contains_client_for_session(other, &theirs.id));
    let late = build_response(call.forwarded.backend_id.copy(), Json::object());
    assert!(matches!(
        b.end(call, Err(RequestFailure::Closed)),
        PassThroughEnd::Silent
    ));
    assert!(matches!(b.backend.on_message(late), Incoming::Discard));
}

#[test]
fn a_queued_call_that_is_cancelled_is_not_sent() {
    let mut b = Broker::new();
    let s = b.sessions.open();
    let (id, raw, listed) = match b.say(s, CALL) {
        (ClientAction::PassThrough { id, raw }, listed) => (id, raw, listed),
        _ => panic!("the backend is to be asked"),
    };
    assert!(listed);
    assert_eq!(b.lifetime.active_count_for_session(s), 1);
    let cancel = r#"{"method": "notifications/cancelled", "params": {"requestId": 10}}"#;
    assert!(matches!(b.say(s, cancel).0, ClientAction::Ignore));
    assert!(send_queued(&mut b.lifetime, &mut b.backend, s, &id, listed, raw).is_none());
    assert_eq!(b.lifetime.active_count(), 0);
}

#[test]
fn a_second_call_with_a_running_id_has_no_row() {
    let mut b = Broker::new();
    let s = b.sessions.open();
    let first = b.call(s, CALL);
    let second = b.call(s, CALL);
    assert!(first.listed);
    assert!(!second.listed);
    assert_eq!(b.lifetime.active_count(), 1);
    let reply = build_response(json("2"), Json::Null);
    assert!(matches!(b.end(second, Ok(reply)), PassThroughEnd::Respond(_)));
    assert_eq!(b.lifetime.active_count(), 1);
}

#[test]
fn daemon_mcp_timeout_env_times_out_pass_through() {
    let mut b = Broker::new();
    let s = b.sessions.open();
    let call = b.call(s, CALL);
    match b.end(call, Err(RequestFailure::TimedOut)) {
        PassThroughEnd::Respond(answer) => {
            assert_eq!(at(&answer, &["id"]), json("10"));
            assert!(at(&answer, &["error", "message"])
                .as_str()
                .unwrap()
                .contains("timed out"));
        }
        _ => panic!("an answer"),
    }
}

#[test]
fn a_failed_backend_is_dropped() {
    let mut b = Broker::new();
    let s = b.sessions.open();
    b.backend.push_stderr(b"noise");
    let call = b.call(s, CALL);
    match b.end(call, Err(RequestFailure::Closed)) {
        PassThroughEnd::RespondAndDropBackend(answer) => assert_eq!(
            at(&answer, &["error", "message"]),
            Json::text("backend closed before response")
        ),
        _ => panic!("the backend failed"),
    }
}

#[test]
fn daemon_backend_progress_requires_active_progress_token() {
    let mut b = Broker::new();
    let s = b.sessions.open();
    let _call = b.call(s, CALL);
    let progress = r#"{"method": "notifications/progress", "params": {"progressToken": "t"}}"#;
    assert!(matches!(b.event(progress), BrokerAction::ToSession(to, _) if to == s));
    let unknown = r#"{"method": "notifications/progress", "params": {"progressToken": "u"}}"#;
    assert!(matches!(b.event(unknown), BrokerAction::Ignore));
}

#[test]
fn daemon_server_request_roundtrip() {
    let mut b = Broker::new();
    let (s, other) = (b.sessions.open(), b.sessions.open());
    let _call = b.call(s, CALL);
    let ask = r#"{"id": "server-ask-1", "method": "sampling/createMessage", "params": {}}"#;
    assert!(matches!(b.event(ask), BrokerAction::ToSession(to, _) if to == s));
    let answer = r#"{"jsonrpc": "2.0", "id": "server-ask-1", "result": {}}"#;
    assert!(matches!(b.say(other, answer).0, ClientAction::Ignore));
    assert!(matches!(b.say(s, answer).0, ClientAction::SendToBackend(_)));
    assert!(matches!(b.say(s, answer).0, ClientAction::Ignore));
}

#[test]
fn daemon_client_progress_for_backend_peer_request_is_forwarded() {
    let mut b = Broker::new();
    let s = b.sessions.open();
    let _call = b.call(s, CALL);
    b.event(
        r#"{"id": 1, "method": "sampling/createMessage",
            "params": {"_meta": {"progressToken": "peer-progress-token-1"}}}"#,
    );
    let progress = r#"{"method": "notifications/progress",
        "params": {"progressToken": "peer-progress-token-1", "progress": 1}}"#;
    assert!(matches!(b.say(s, progress).0, ClientAction::SendToBackend(_)));
    assert!(matches!(b.say(s + 1, progress).0, ClientAction::Ignore));
}

#[test]
fn daemon_server_request_id_collision_roundtrip() {
    let mut b = Broker::new();
    let s = b.sessions.open();
    let call = b.call(s, CALL);
    let mut ask = json(r#"{"method": "sampling/createMessage"}"#);
    ask.set("id", call.forwarded.backend_id.copy());
    let event = match b.backend.on_message(ask) {
        Incoming::Event(event) => event,
        _ => panic!("a request of the backend"),
    };
    let action = on_broker_event(&mut b.lifetime, &mut b.backend, true, event);
    assert!(matches!(action, BrokerAction::ToSession(to, _) if to == s));
    let answer = build_response(call.forwarded.backend_id.copy(), Json::Null);
    assert!(matches!(
        b.say(s, &mcp_wrapper_rs::json::to_text(&answer)).0,
        ClientAction::SendToBackend(_)
    ));
    assert!(matches!(b.backend.on_message(answer), Incoming::Deliver(waiter, _) if waiter == s));
}

#[test]
fn requests_of_the_backend_that_nobody_can_answer_are_refused() {
    let mut b = Broker::new();
    let ask = r#"{"jsonrpc": "2.0", "id": 5, "method": "roots/list"}"#;
    match b.event(ask) {
        BrokerAction::ToBackend(refusal) => assert_eq!(
            refusal,
            json(
                r#"{"jsonrpc": "2.0", "id": 5, "error": {"code": -32603,
                    "message": "no active client session for server request"}}"#
            )
        ),
        _ => panic!("a refusal"),
    }
    let (s1, s2) = (b.sessions.open(), b.sessions.open());
    let _c1 = b.call(s1, CALL);
    let _c2 = b.call(s2, CALL);
    assert!(matches!(b.event(ask), BrokerAction::ToBackend(_)));
}

#[test]
fn other_messages_of_the_backend_go_to_all() {
    let mut b = Broker::new();
    assert!(matches!(
        b.event(r#"{"method": "notifications/message", "params": {}}"#),
        BrokerAction::ToAll(_)
    ));
    assert!(matches!(
        b.event(r#"{"id": 99, "result": {}}"#),
        BrokerAction::ToAll(_)
    ));
    match b.event(r#"{"method": "notifications/resources/list_changed"}"#) {
        BrokerAction::RefreshThenToAll { keys, .. } => assert_eq!(keys.len(), 2),
        _ => panic!("the lists are stale"),
    }
    let action = on_broker_event(
        &mut b.lifetime,
        &mut b.backend,
        true,
        BackendEvent::ProcessExit,
    );
    assert!(matches!(action, BrokerAction::Ignore));
}

#[test]
fn a_cancellation_of_the_backend_goes_to_its_session() {
    let mut b = Broker::new();
    let s = b.sessions.open();
    let _call = b.call(s, CALL);
    let cancel = r#"{"method": "notifications/cancelled", "params": {"requestId": 1}}"#;
    match b.event(cancel) {
        BrokerAction::Cancelled {
            session,
            message,
            waiter,
        } => {
            assert_eq!(session, Some(s));
            assert_eq!(waiter, Some(s));
            assert_eq!(at(&message, &["params", "requestId"]), json("10"));
        }
        _ => panic!("the client is told"),
    }
    assert!(matches!(b.event(cancel), BrokerAction::Ignore));
}

#[test]
fn daemon_wrapper_tool_mutations_notify_peers_after_success_only() {
    let done = ControlStep::Answer(Json::object());
    let refused = ControlStep::Refuse {
        code: "activeCalls",
        message: String::new(),
    };
    assert!(is_announced(ToolAction::BackendRefresh, &done));
    assert!(is_announced(ToolAction::BackendRestart, &done));
    assert!(!is_announced(ToolAction::BackendRestart, &refused));
    assert!(!is_announced(ToolAction::BackendStatus, &done));
    let mut methods: Vec<String> = notify_clients_list_changed()
        .iter()
        .map(|n| n.get("method").unwrap().as_str().unwrap().to_string())
        .collect();
    methods.sort();
    assert_eq!(
        methods,
        strings(&[
            "notifications/prompts/list_changed",
            "notifications/resources/list_changed",
            "notifications/tools/list_changed",
        ])
    );
}

#[test]
fn a_call_without_a_backend_is_over() {
    let mut b = Broker::new();
    let s = b.sessions.open();
    let (id, listed) = match b.say(s, CALL) {
        (ClientAction::PassThrough { id, .. }, listed) => (id, listed),
        _ => panic!("the backend is to be asked"),
    };
    let mut ensure = |ensured, present| {
        after_session_ensure(&mut b.lifetime, s, &id, listed, ensured, present)
    };
    assert!(matches!(ensure(Ok(false), true), CallStep::Send));
    assert!(matches!(ensure(Ok(true), true), CallStep::RefreshThenSend));
    match ensure(Err("no such file".to_string()), false) {
        CallStep::End(answer) => {
            assert_eq!(at(&answer, &["id"]), json("10"));
            assert_eq!(at(&answer, &["error", "message"]), Json::text("no such file"));
        }
        _ => panic!("there is no backend"),
    }
    assert_eq!(b.lifetime.active_count(), 0);
}

#[test]
fn sessions_are_numbered_and_closed() {
    let mut sessions = Sessions::new();
    assert!(sessions.is_empty());
    assert!(!sessions.ever_had_session());
    assert_eq!(sessions.open(), 1);
    assert_eq!(sessions.open(), 2);
    assert_eq!(*sessions.ids(), vec![1, 2]);
    sessions.close(1);
    assert_eq!(*sessions.ids(), vec![2]);
    sessions.close(1);
    sessions.close(2);
    assert!(sessions.is_empty());
    assert!(sessions.ever_had_session());
}

#[test]
fn an_idle_broker_exits() {
    let secs = |n: u64| n * NANOS_PER_SEC;
    let mut watch = IdleWatch::new(0);
    assert!(!watch.idle_check(secs(120), false, false));
    assert!(watch.idle_check(secs(120) + 1, false, false));
    assert!(!watch.idle_check(secs(200), true, true));
    assert!(!watch.idle_check(secs(260), false, true));
    assert!(watch.idle_check(secs(260) + 1, false, true));
    assert!(broker_exits(&mut watch, false, secs(260) + 1, false, true));
    assert!(!broker_exits(&mut watch, false, secs(300), true, true));
    assert!(!broker_exits(&mut watch, false, secs(360), false, true));
    assert!(broker_exits(&mut watch, false, secs(360) + 1, false, true));
}

#[test]
fn a_broker_of_daemon_mode_never_exits_for_being_idle() {
    let line = build_broker_args("python3", &strings(&["server.py"]), 30);
    let parsed = parse_broker_args(&line[1..].to_vec()).unwrap();
    assert!(parsed.no_idle_timeout);
    let mut watch = IdleWatch::new(0);
    for now in [0, 120 * NANOS_PER_SEC + 1, u64::MAX] {
        for ever in [false, true] {
            assert!(!broker_exits(&mut watch, parsed.no_idle_timeout, now, false, ever));
        }
    }
}

#[test]
fn a_failed_refresh_is_announced_to_nobody() {
    let notification = json(r#"{"method": "notifications/tools/list_changed"}"#);
    let report = || RefreshReport {
        old_cache_epoch: 1,
        new_cache_epoch: 2,
        old_discovery_hash: "a".to_string(),
        new_discovery_hash: "b".to_string(),
        changed: true,
    };
    assert_eq!(
        after_announced_refresh(Ok(report()), notification.copy()),
        Some(notification.copy())
    );
    assert_eq!(
        after_announced_refresh(Err("list query failed".to_string()), notification),
        None
    );
    assert_eq!(after_respawn_refresh(Ok(report())), notify_clients_list_changed());
    assert!(after_respawn_refresh(Err("list query failed".to_string())).is_empty());
}

#[test]
fn broker_command_lines_are_read() {
    let read = |words: &[&str]| parse_broker_args(&strings(words));
    let plain = read(&["python3", "s.py"]).unwrap();
    assert_eq!(plain.init_timeout_secs, 30);
    assert!(!plain.no_idle_timeout);
    assert_eq!(plain.cmd, "python3");
    assert_eq!(plain.args, strings(&["s.py"]));
    assert_eq!(read(&["--init-timeout", "0", "x"]).unwrap().init_timeout_secs, 1);
    assert_eq!(
        read(&["--init-timeout", "abc", "x"]).unwrap().init_timeout_secs,
        30
    );
    assert!(flag_without_command(&strings(&["--no-idle-timeout"])));
    assert!(!flag_without_command(&strings(&["--no-idle-timeout", "x"])));
    assert!(!flag_without_command(&strings(&["x"])));
    assert!(read(&[]).is_none());
    assert!(read(&["--init-timeout", "5"]).is_none());
    let kept = read(&["--init-timeout", "5", "--no-idle-timeout", "x", "y"]).unwrap();
    assert!(kept.no_idle_timeout);
    assert_eq!(kept.cmd, "x");
    assert_eq!(kept.args, strings(&["y"]));
}
