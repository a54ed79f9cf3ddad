//! Whole exchanges between a client, the proxy and a server, without processes: the
//! decisions of the library are carried out by hand against a server made of a
//! function.

use std::collections::VecDeque;

use mcp_wrapper_rs::backend_manager::{
    Backend, BackendEvent, BackendSlot, EnsureNext, EnsureStart, Incoming, RequestFailure,
    RestartStart,
};
use mcp_wrapper_rs::json::{parse, Json};
use mcp_wrapper_rs::lifetime::RequestLifetime;
use mcp_wrapper_rs::mcp_interface::{build_response, McpDataKey};
use mcp_wrapper_rs::mcp_manager::{
    build_initialize_request, discovery_data_keys, handshake_outcome, protocol_version_for_unix_days,
    Cache, HandshakeReply, ListSweep, RefreshReport,
};
use mcp_wrapper_rs::runtime_manager::{
    after_ensure, finish_request, forward_request, is_drained, is_idle, on_backend_event,
    on_client_message, CallStep, ClientAction, EventAction, PassThroughEnd,
};
use mcp_wrapper_rs::timeouts::PassThroughRequestTimeout;
use mcp_wrapper_rs::tools::backend::{
    after_refresh, after_restart, after_stop, control_answer, envelope_for, handle_wrapper_control,
    invoke, tool_answer, ControlStep, InvocationContext, ToolCall,
};
use mcp_wrapper_rs::transport::{decode_line, encode_line, Line};

fn json(text: &str) -> Json {
    parse(text).expect("valid JSON")
}

fn at(value: &Json, path: &[&str]) -> Json {
    let mut here = value;
    for key in path {
        here = match key.parse::<usize>() {
            Ok(i) => &here.as_array().expect("array")[i],
            Err(_) => here.get(key).expect("field"),
        };
    }
    here.copy()
}

fn number(value: &Json) -> u64 {
    match value {
        Json::UInt(n) => *n,
        _ => panic!("a number"),
    }
}

/// A server with an echo tool.
#[derive(Clone)]
struct Server {
    version: String,
    pages: bool,
    broken: bool,
    wrong_token: bool,
    slow: bool,
    seen: Vec<String>,
}

impl Server {
    fn new() -> Server {
        Server {
            version: "0.1.0".to_string(),
            pages: false,
            broken: false,
            wrong_token: false,
            slow: false,
            seen: Vec::new(),
        }
    }

    fn text_result(text: &str) -> Json {
        let mut item = Json::object();
        item.set("type", Json::text("text"));
        item.set("text", Json::text(text));
        let mut result = Json::object();
        result.set("content", Json::from_items(vec![item]));
        result
    }

    fn handle(&mut self, message: &Json) -> Vec<Json> {
        self.seen.push(encode_line(message));
        let id = match message.get("id") {
            Some(id) => id.copy(),
            None => return Vec::new(),
        };
        let method = match message.get("method") {
            Some(method) => method.as_str().unwrap().to_string(),
            None => {
                let text = at(message, &["result", "content", "text"]);
                let answer = Server::text_result(text.as_str().unwrap());
                return vec![build_response(json("1"), answer)];
            }
        };
        let result = match method.as_str() {
            "initialize" => json(&format!(
                r#"{{"protocolVersion": "2025-03-26", "capabilities": {{"tools": {{}}}},
                    "serverInfo": {{"name": "echo-server", "version": "{}"}}}}"#,
                self.version
            )),
            "tools/list" if self.pages && message.get("params").is_none() => {
                json(r#"{"tools": [{"name": "echo"}], "nextCursor": "page-2"}"#)
            }
            "tools/list" if self.pages => json(r#"{"tools": [{"name": "paged"}]}"#),
            "tools/list" => json(r#"{"tools": [{"name": "echo"}]}"#),
            "tools/call" => return self.call(id, message),
            _ => json("{}"),
        };
        vec![build_response(id, result)]
    }

    fn call(&mut self, id: Json, message: &Json) -> Vec<Json> {
        let text = match message.get("params").unwrap().get("arguments").unwrap().get("msg") {
            Some(text) => text.as_str().unwrap().to_string(),
            None => String::new(),
        };
        let name = at(message, &["params", "name"]);
        match name.as_str().unwrap() {
            "wait-cancel" => Vec::new(),
            "ask-client" => vec![json(
                r#"{"jsonrpc": "2.0", "id": "server-ask-1", "method": "sampling/createMessage",
                    "params": {"_meta": {"progressToken": "peer-progress-token-1"}}}"#,
            )],
            "progress" => {
                let token = if self.wrong_token {
                    Json::text("wrong")
                } else {
                    at(message, &["params", "_meta", "progressToken"])
                };
                let mut note = json(
                    r#"{"jsonrpc": "2.0", "method": "notifications/progress",
                        "params": {"progress": 1}}"#,
                );
                let mut params = at(&note, &["params"]);
                params.set("progressToken", token);
                note.set("params", params);
                vec![note, build_response(id, Server::text_result(&text))]
            }
            _ if self.slow => Vec::new(),
            _ => vec![build_response(id, Server::text_result(&text))],
        }
    }
}

fn sweep_lists(sweep: &mut ListSweep, server: &mut Server) -> Result<(), String> {
    let mut id = 100;
    while sweep.advance() {
        id += 1;
        let reply = server.handle(&sweep.request(Json::UInt(id))).remove(0);
        sweep.on_page(&reply)?;
    }
    Ok(())
}

/// The proxy with one client.
struct Wrapper {
    cache: Cache,
    slot: BackendSlot,
    backend: Backend,
    lifetime: RequestLifetime,
    server: Server,
    running: Vec<(u64, Json, Json)>,
    next_waiter: u64,
    now: u64,
    out: VecDeque<Json>,
}

impl Wrapper {
    fn spawn_with(server: Server) -> Wrapper {
        let mut server = server;
        let today = protocol_version_for_unix_days(20_626);
        let reply = server
            .handle(&build_initialize_request(json("1"), &today))
            .remove(0);
        let info = handshake_outcome(HandshakeReply::Answer(reply)).unwrap();
        let mut sweep = Cache::begin_discovery(&info);
        sweep_lists(&mut sweep, &mut server).unwrap();
        Wrapper {
            cache: Cache::from_discovery(info, sweep, 0),
            slot: BackendSlot::new_empty(),
            backend: Backend::new(),
            lifetime: RequestLifetime::new(),
            server,
            running: Vec::new(),
            next_waiter: 0,
            now: 1_000_000,
            out: VecDeque::new(),
        }
    }

    fn spawn() -> Wrapper {
        Wrapper::spawn_with(Server::new())
    }

    fn live(&self) -> bool {
        self.slot.live(self.backend.is_alive())
    }

    fn start_backend(&mut self) -> Result<(), String> {
        if self.server.broken {
            return Err("initialize handshake timeout".to_string());
        }
        self.backend = Backend::new();
        let request = build_initialize_request(self.backend.next_request_id(), "2026-06-22");
        let reply = self.server.handle(&request).remove(0);
        let info = handshake_outcome(HandshakeReply::Answer(reply))?;
        self.backend.set_server_info(info);
        Ok(())
    }

    fn refresh(&mut self, keys: Vec<McpDataKey>) -> Result<RefreshReport, String> {
        let mut refresh = self.cache.begin_refresh(
            self.live(),
            self.slot.generation(),
            self.backend.server_info_snapshot(),
            keys,
        )?;
        sweep_lists(refresh.sweep(), &mut self.server)?;
        self.cache.commit_refresh(refresh, self.slot.generation())
    }

    fn ensure(&mut self) -> Result<bool, String> {
        let mut run = match self.slot.begin_ensure(self.backend.is_alive(), self.now) {
            EnsureStart::Reuse => return Ok(false),
            EnsureStart::Rejected(message) => return Err(message),
            EnsureStart::Spawn(run) => run,
        };
        loop {
            match self.start_backend() {
                Ok(()) => {
                    self.slot.ensure_spawned(run, self.now);
                    return Ok(run.replaces);
                }
                Err(e) => match self.slot.ensure_failed(run, e, self.now) {
                    EnsureNext::Retry { run: again, .. } => run = again,
                    EnsureNext::GaveUp { message, .. } => return Err(message),
                },
            }
        }
    }

    fn restart(&mut self, force: bool) -> Result<(), String> {
        match self.slot.begin_restart(force, self.now) {
            RestartStart::Rejected(message) => Err(message),
            RestartStart::Spawn {
                next_generation, ..
            } => match self.start_backend() {
                Ok(()) => {
                    self.slot.restart_spawned(next_generation, self.now);
                    Ok(())
                }
                Err(e) => {
                    self.slot.restart_failed(e.clone(), self.now);
                    Err(e)
                }
            },
        }
    }

    fn carry_out(&mut self, step: ControlStep) -> ControlStep {
        let mut step = step;
        loop {
            step = match step {
                ControlStep::Refresh => after_refresh(self.refresh(discovery_data_keys())),
                ControlStep::Restart { force } => {
                    let result = self.restart(force);
                    after_restart(result, self.live())
                }
                ControlStep::Stop => {
                    self.slot.stop();
                    self.backend.on_exit();
                    after_stop(&self.slot.snapshot(false))
                }
                end => return end,
            };
        }
    }

    fn deliver(&mut self, messages: Vec<Json>) {
        for message in messages {
            let incoming = self.backend.on_message(message);
            match incoming {
                Incoming::Discard => {}
                Incoming::Deliver(waiter, response) => self.finish(waiter, Ok(response)),
                Incoming::Event(event) => self.event(event),
            }
        }
    }

    fn event(&mut self, event: BackendEvent) {
        let action = on_backend_event(&mut self.lifetime, &mut self.backend, true, event);
        match action {
            EventAction::Ignore => {}
            EventAction::ToClient(message) => self.out.push_back(message),
            EventAction::Cancelled { message, waiter } => {
                self.out.push_back(message);
                if let Some(waiter) = waiter {
                    self.finish(waiter, Err(RequestFailure::Closed));
                }
            }
            EventAction::RefreshThenForward { keys, notification } => {
                if self.refresh(keys).is_ok() {
                    self.out.push_back(notification);
                }
            }
        }
    }

    fn finish(&mut self, waiter: u64, result: Result<Json, RequestFailure>) {
        let i = self
            .running
            .iter()
            .position(|(w, _, _)| *w == waiter)
            .expect("a running call");
        let (_, client_id, backend_id) = self.running.remove(i);
        match finish_request(
            &mut self.lifetime,
            &self.backend,
            client_id,
            &backend_id,
            result,
        ) {
            PassThroughEnd::Respond(answer) => self.out.push_back(answer),
            PassThroughEnd::Silent => {}
            PassThroughEnd::RespondAndDropBackend(answer) => {
                self.slot.take_backend();
                self.out.push_back(answer);
            }
        }
    }

    fn time_out(&mut self) {
        let (waiter, _, backend_id) = {
            let call = &self.running[0];
            (call.0, (), call.2.copy())
        };
        self.backend.discard_pending_response(&backend_id);
        self.finish(waiter, Err(RequestFailure::TimedOut));
    }

    fn send(&mut self, text: &str) {
        let raw = match decode_line(&encode_line(&json(text))) {
            Line::Message(raw) => raw,
            _ => panic!("a message"),
        };
        let live = self.live();
        let action = on_client_message(
            &mut self.lifetime,
            &mut self.backend,
            &self.cache,
            true,
            None,
            live,
            raw,
        );
        match action {
            ClientAction::Ignore => {}
            ClientAction::Respond(answer) => self.out.push_back(answer),
            ClientAction::SendToBackend(message) => {
                let replies = self.server.handle(&message);
                self.deliver(replies);
            }
            ClientAction::CancelCall(call) => {
                self.server.handle(&call.notice);
                self.finish(call.waiter, Err(RequestFailure::Closed));
            }
            ClientAction::Control { id, method, raw } => {
                let step = handle_wrapper_control(
                    method,
                    &raw,
                    &InvocationContext {
                        cache: &self.cache,
                        backend_slot: &self.slot,
                        alive: self.backend.is_alive(),
                        active_calls: self.running.len(),
                    },
                );
                let end = self.carry_out(step);
                self.out.push_back(control_answer(id, &end).unwrap());
            }
            ClientAction::InvokeTool { id, raw } => {
                let call = invoke(
                    &raw,
                    &InvocationContext {
                        cache: &self.cache,
                        backend_slot: &self.slot,
                        alive: self.backend.is_alive(),
                        active_calls: self.running.len(),
                    },
                );
                let envelope = match call {
                    ToolCall::Invalid(envelope) => envelope,
                    ToolCall::Started(invocation, step) => {
                        let end = self.carry_out(step);
                        envelope_for(&invocation, &end).unwrap()
                    }
                };
                self.out.push_back(tool_answer(id, envelope));
            }
            ClientAction::PassThrough { id, raw } => {
                let ensured = self.ensure();
                match after_ensure(&id, ensured, self.live()) {
                    CallStep::End(answer) => return self.out.push_back(answer),
                    CallStep::RefreshThenSend => {
                        self.refresh(discovery_data_keys()).unwrap();
                    }
                    CallStep::Send => {}
                }
                let forwarded = forward_request(&mut self.lifetime, &mut self.backend, &id, raw);
                let waiter = self.next_waiter;
                self.next_waiter += 1;
                self.running
                    .push((waiter, id, forwarded.backend_id.copy()));
                self.backend
                    .begin_request(&forwarded.message, waiter)
                    .unwrap();
                let replies = self.server.handle(&forwarded.message);
                self.deliver(replies);
            }
        }
    }

    fn recv(&mut self) -> Json {
        self.out.pop_front().expect("a message for the client")
    }

    fn ask(&mut self, text: &str) -> Json {
        self.send(text);
        self.recv()
    }

    fn handshake(&mut self) -> Json {
        let answer = self.ask(
            r#"{"jsonrpc": "2.0", "id": 1, "method": "initialize",
                "params": {"protocolVersion": "2025-03-26", "capabilities": {},
                    "clientInfo": {"name": "test", "version": "0.0.1"}}}"#,
        );
        assert_eq!(at(&answer, &["id"]), json("1"));
        self.send(r#"{"jsonrpc": "2.0", "method": "notifications/initialized"}"#);
        answer
    }

    fn call_echo(&mut self, id: u64, msg: &str) -> Json {
        self.ask(&format!(
            r#"{{"jsonrpc": "2.0", "id": {id}, "method": "tools/call",
                "params": {{"name": "echo", "arguments": {{"msg": "{msg}"}}}}}}"#
        ))
    }

    fn control(&mut self, id: u64, method: &str) -> Json {
        self.ask(&format!(
            r#"{{"jsonrpc": "2.0", "id": {id}, "method": "mcp-wrapper/backend/{method}"}}"#
        ))
    }
}

fn has_tool(list: &Json, name: &str) -> bool {
    at(list, &["result", "tools"])
        .as_array()
        .unwrap()
        .iter()
        .any(|tool| tool.get("name") == Some(&Json::text(name)))
}

fn envelope(answer: &Json) -> Json {
    at(answer, &["result", "_meta", "mcpWrapper"])
}

#[test]
fn basic_flow() {
    let mut w = Wrapper::spawn();

    let init = w.handshake();
    assert_eq!(
        at(&init, &["result", "serverInfo", "name"]),
        Json::text("echo-server")
    );

    let tools = w.ask(r#"{"jsonrpc": "2.0", "id": 2, "method": "tools/list", "params": {}}"#);
    assert_eq!(at(&tools, &["result", "tools"]).as_array().unwrap().len(), 2);
    assert!(has_tool(&tools, "echo"));
    assert!(has_tool(&tools, "mcp.wrapper"));

    let call = w.call_echo(3, "hello world");
    assert_eq!(at(&call, &["id"]), json("3"));
    assert_eq!(at(&call, &["result", "content", "0", "type"]), Json::text("text"));
    assert_eq!(
        at(&call, &["result", "content", "0", "text"]),
        Json::text("hello world")
    );
    assert!(is_drained(true, w.running.len(), w.out.is_empty()));
}

#[test]
fn tools_list_cache_drains_backend_pages_and_rejects_frontend_cursor() {
    let mut server = Server::new();
    server.pages = true;
    let mut w = Wrapper::spawn_with(server);
    w.handshake();

    let tools = w.ask(r#"{"jsonrpc": "2.0", "id": 2, "method": "tools/list", "params": {}}"#);
    assert!(at(&tools, &["result"]).get("nextCursor").is_none());
    assert!(has_tool(&tools, "echo"));
    assert!(has_tool(&tools, "paged"));
    assert!(has_tool(&tools, "mcp.wrapper"));

    let cursor = w.ask(
        r#"{"jsonrpc": "2.0", "id": 3, "method": "tools/list", "params": {"cursor": "page-2"}}"#,
    );
    assert_eq!(at(&cursor, &["error", "code"]), json("-32602"));
    assert_eq!(
        at(&cursor, &["error", "message"]),
        Json::text("cursor is not valid for cached list view")
    );

    let null = w.ask(
        r#"{"jsonrpc": "2.0", "id": 4, "method": "tools/list", "params": {"cursor": null}}"#,
    );
    assert!(null.get("result").is_some());
}

#[test]
fn mcp_timeout_env_times_out_pass_through_and_discards_late_response() {
    let timeout = PassThroughRequestTimeout::from_mcp_timeout_value(Some("200")).unwrap();
    assert_eq!(
        timeout.duration(),
        Some(std::time::Duration::from_millis(200))
    );
    let mut server = Server::new();
    server.slow = true;
    let mut w = Wrapper::spawn_with(server);
    w.handshake();
    w.send(
        r#"{"jsonrpc": "2.0", "id": 2, "method": "tools/call",
            "params": {"name": "echo", "arguments": {"msg": "too slow"}}}"#,
    );
    assert!(w.out.is_empty());
    w.time_out();
    let answer = w.recv();
    assert_eq!(at(&answer, &["id"]), json("2"));
    assert!(at(&answer, &["error", "message"])
        .as_str()
        .unwrap()
        .contains("timed out"));
    w.deliver(vec![json(r#"{"jsonrpc": "2.0", "id": 2, "result": {}}"#)]);
    assert!(w.out.is_empty(), "late backend response should be discarded");
}

#[test]
fn client_cancel_translates_request_id_and_discards_late_response() {
    let mut w = Wrapper::spawn();
    w.handshake();
    w.send(
        r#"{"jsonrpc": "2.0", "id": "client-cancel-1", "method": "tools/call",
            "params": {"name": "wait-cancel", "arguments": {}}}"#,
    );
    let backend_id = w.running[0].2.copy();
    assert_ne!(backend_id, Json::text("client-cancel-1"));
    w.send(
        r#"{"jsonrpc": "2.0", "method": "notifications/cancelled",
            "params": {"requestId": "client-cancel-1", "reason": "test cancel"}}"#,
    );
    let notice = json(w.server.seen.last().unwrap());
    assert_eq!(at(&notice, &["method"]), Json::text("notifications/cancelled"));
    assert_eq!(at(&notice, &["params", "requestId"]), backend_id);
    w.deliver(vec![build_response(backend_id, Json::object())]);
    assert!(w.out.is_empty());
    assert_eq!(w.lifetime.active_count(), 0);
}

#[test]
fn backend_progress_requires_active_progress_token() {
    let mut w = Wrapper::spawn();
    w.handshake();
    let progress = w.ask(
        r#"{"jsonrpc": "2.0", "id": 2, "method": "tools/call",
            "params": {"name": "progress", "arguments": {"msg": "done"},
                "_meta": {"progressToken": "progress-token-1"}}}"#,
    );
    assert_eq!(at(&progress, &["method"]), Json::text("notifications/progress"));
    assert_eq!(
        at(&progress, &["params", "progressToken"]),
        Json::text("progress-token-1")
    );
    let response = w.recv();
    assert_eq!(at(&response, &["id"]), json("2"));
    assert_eq!(
        at(&response, &["result", "content", "0", "text"]),
        Json::text("done")
    );
}

#[test]
fn backend_progress_with_wrong_token_is_dropped() {
    let mut server = Server::new();
    server.wrong_token = true;
    let mut w = Wrapper::spawn_with(server);
    w.handshake();
    let response = w.ask(
        r#"{"jsonrpc": "2.0", "id": 2, "method": "tools/call",
            "params": {"name": "progress", "arguments": {"msg": "done"},
                "_meta": {"progressToken": "progress-token-1"}}}"#,
    );
    assert_eq!(at(&response, &["id"]), json("2"));
    assert_eq!(
        at(&response, &["result", "content", "0", "text"]),
        Json::text("done")
    );
}

#[test]
fn initialized_notification_is_not_reforwarded_to_live_backend() {
    let mut w = Wrapper::spawn();
    w.handshake();
    let first = w.call_echo(2, "first");
    assert_eq!(
        at(&first, &["result", "content", "0", "text"]),
        Json::text("first")
    );
    let seen = w.server.seen.len();
    w.send(r#"{"jsonrpc": "2.0", "method": "notifications/initialized"}"#);
    assert_eq!(w.server.seen.len(), seen);
    w.send(r#"{"jsonrpc": "2.0", "method": "notifications/roots/list_changed"}"#);
    assert_eq!(w.server.seen.len(), seen + 1);
}

#[test]
fn wrapper_tool_status_is_injected_and_local() {
    let mut w = Wrapper::spawn();
    w.handshake();
    let tools = w.ask(r#"{"jsonrpc": "2.0", "id": 2, "method": "tools/list", "params": {}}"#);
    let list = at(&tools, &["result", "tools"]);
    let wrapper_tool = list
        .as_array()
        .unwrap()
        .iter()
        .find(|tool| tool.get("name") == Some(&Json::text("mcp.wrapper")))
        .expect("mcp.wrapper tool");
    assert_eq!(
        at(wrapper_tool, &["inputSchema", "required", "0"]),
        Json::text("action")
    );

    let status = w.ask(
        r#"{"jsonrpc": "2.0", "id": 3, "method": "tools/call",
            "params": {"name": "mcp.wrapper", "arguments": {"action": "backend.status"}}}"#,
    );
    let found = envelope(&status);
    assert_eq!(at(&found, &["ok"]), Json::Bool(true));
    assert_eq!(at(&found, &["action"]), Json::text("backend.status"));
    assert_eq!(at(&found, &["target"]), Json::text("default"));
    assert_eq!(at(&found, &["result", "backend", "state"]), Json::text("cold"));
    assert_eq!(at(&found, &["result", "backend", "alive"]), Json::Bool(false));
    assert_eq!(at(&status, &["result", "isError"]), Json::Bool(false));
}

#[test]
fn wrapper_tool_restart_keeps_transport_alive() {
    let mut w = Wrapper::spawn();
    w.handshake();
    let before = w.call_echo(2, "before-restart");
    assert_eq!(
        at(&before, &["result", "content", "0", "text"]),
        Json::text("before-restart")
    );
    let restart = w.ask(
        r#"{"jsonrpc": "2.0", "id": 3, "method": "tools/call",
            "params": {"name": "mcp.wrapper",
                "arguments": {"action": "backend.restart", "params": {"force": true}}}}"#,
    );
    let found = envelope(&restart);
    assert_eq!(at(&found, &["ok"]), Json::Bool(true));
    assert_eq!(at(&found, &["action"]), Json::text("backend.restart"));
    assert!(number(&at(&found, &["result", "newCacheEpoch"])) >= 1);
    let after = w.call_echo(4, "after-restart");
    assert_eq!(
        at(&after, &["result", "content", "0", "text"]),
        Json::text("after-restart")
    );
}

#[test]
fn ping_returns_empty_result() {
    let mut w = Wrapper::spawn();
    w.handshake();
    let answer = w.ask(r#"{"jsonrpc": "2.0", "id": 2, "method": "ping"}"#);
    assert_eq!(answer.get("result"), Some(&json("{}")));
    assert!(answer.get("error").is_none(), "ping should not return error");
}

#[test]
fn consecutive_calls_reuse_backend() {
    let mut w = Wrapper::spawn();
    w.handshake();
    let r1 = w.call_echo(2, "first");
    assert_eq!(
        at(&r1, &["result", "content", "0", "text"]),
        Json::text("first")
    );
    let r2 = w.call_echo(3, "second");
    assert_eq!(
        at(&r2, &["result", "content", "0", "text"]),
        Json::text("second")
    );
    assert_eq!(w.slot.generation(), 1);
}

#[test]
fn prompts_list_from_cache() {
    let mut w = Wrapper::spawn();
    w.handshake();
    let answer = w.ask(r#"{"jsonrpc": "2.0", "id": 2, "method": "prompts/list", "params": {}}"#);
    assert!(at(&answer, &["result", "prompts"]).as_array().unwrap().is_empty());
}

#[test]
fn resources_list_from_cache() {
    let mut w = Wrapper::spawn();
    w.handshake();
    let answer = w.ask(r#"{"jsonrpc": "2.0", "id": 2, "method": "resources/list", "params": {}}"#);
    assert!(at(&answer, &["result", "resources"])
        .as_array()
        .unwrap()
        .is_empty());
}

#[test]
fn call_tool_with_empty_args() {
    let mut w = Wrapper::spawn();
    w.handshake();
    let answer = w.ask(
        r#"{"jsonrpc": "2.0", "id": 2, "method": "tools/call",
            "params": {"name": "echo", "arguments": {}}}"#,
    );
    assert_eq!(at(&answer, &["result", "content", "0", "text"]), Json::text(""));
}

#[test]
fn server_request_roundtrip() {
    let mut w = Wrapper::spawn();
    w.handshake();
    // Ids at the backend begin with the handshake; the call gets the next one, which
    // the fixture answers to once it has the client's answer.
    let request = w.ask(
        r#"{"jsonrpc": "2.0", "id": 2, "method": "tools/call",
            "params": {"name": "ask-client", "arguments": {}}}"#,
    );
    assert_eq!(at(&request, &["method"]), Json::text("sampling/createMessage"));
    assert_eq!(at(&request, &["id"]), Json::text("server-ask-1"));
    let backend_id = w.running[0].2.copy();
    let seen = w.server.seen.len();
    w.send(
        r#"{"jsonrpc": "2.0", "id": "server-ask-1",
            "result": {"content": {"type": "text", "text": "client-answer"}}}"#,
    );
    assert_eq!(w.server.seen.len(), seen + 1);
    w.out.clear();
    w.deliver(vec![build_response(
        backend_id,
        Server::text_result("client-answer"),
    )]);
    let call = w.recv();
    assert_eq!(at(&call, &["id"]), json("2"));
    assert_eq!(
        at(&call, &["result", "content", "0", "text"]),
        Json::text("client-answer")
    );
}

#[test]
fn unmatched_client_response_is_not_forwarded_to_backend() {
    let mut w = Wrapper::spawn();
    w.handshake();
    let call = w.call_echo(2, "backend-live");
    assert_eq!(
        at(&call, &["result", "content", "0", "text"]),
        Json::text("backend-live")
    );
    let seen = w.server.seen.len();
    w.send(
        r#"{"jsonrpc": "2.0", "id": "not-an-active-peer-request",
            "result": {"content": {"type": "text", "text": "stray"}}}"#,
    );
    assert_eq!(w.server.seen.len(), seen);
    assert!(w.out.is_empty());
}

#[test]
fn client_progress_for_backend_peer_request_is_forwarded() {
    let mut w = Wrapper::spawn();
    w.handshake();
    let request = w.ask(
        r#"{"jsonrpc": "2.0", "id": 2, "method": "tools/call",
            "params": {"name": "ask-client", "arguments": {}}}"#,
    );
    assert_eq!(at(&request, &["method"]), Json::text("sampling/createMessage"));
    assert_eq!(
        at(&request, &["params", "_meta", "progressToken"]),
        Json::text("peer-progress-token-1")
    );
    w.send(
        r#"{"jsonrpc": "2.0", "method": "notifications/progress",
            "params": {"progressToken": "peer-progress-token-1", "progress": 1}}"#,
    );
    let note = json(w.server.seen.last().unwrap());
    assert_eq!(
        at(&note, &["params", "progressToken"]),
        Json::text("peer-progress-token-1")
    );
    let seen = w.server.seen.len();
    w.send(
        r#"{"jsonrpc": "2.0", "method": "notifications/progress",
            "params": {"progressToken": "other", "progress": 1}}"#,
    );
    assert_eq!(w.server.seen.len(), seen, "an unknown token is dropped");
}

#[test]
fn a_failed_backend_is_reported_with_its_error_output() {
    let mut server = Server::new();
    server.slow = true;
    let mut w = Wrapper::spawn_with(server);
    w.handshake();
    w.send(
        r#"{"jsonrpc": "2.0", "id": 2, "method": "tools/call",
            "params": {"name": "echo", "arguments": {}}}"#,
    );
    w.backend.push_stderr(b" traceback \n");
    for waiter in w.backend.on_exit() {
        w.finish(waiter, Err(RequestFailure::Closed));
    }
    let answer = w.recv();
    assert_eq!(at(&answer, &["error", "code"]), json("-32603"));
    assert_eq!(
        at(&answer, &["error", "message"]),
        Json::text("backend closed before response\nstderr: traceback")
    );
    assert!(!w.live());
    w.event(BackendEvent::ProcessExit);
    assert!(w.out.is_empty());
}

#[test]
fn a_cancellation_of_the_backend_is_translated_for_the_client() {
    let mut w = Wrapper::spawn();
    w.handshake();
    w.send(
        r#"{"jsonrpc": "2.0", "id": "mine", "method": "tools/call",
            "params": {"name": "wait-cancel", "arguments": {}}}"#,
    );
    let backend_id = w.running[0].2.copy();
    let mut params = Json::object();
    params.set("requestId", backend_id);
    let mut note = json(r#"{"jsonrpc": "2.0", "method": "notifications/cancelled"}"#);
    note.set("params", params);
    w.deliver(vec![note]);
    let told = w.recv();
    assert_eq!(at(&told, &["params", "requestId"]), Json::text("mine"));
    assert!(w.out.is_empty(), "the call itself ends without an answer");
}

#[test]
fn changed_lists_are_read_before_the_client_is_told() {
    let mut w = Wrapper::spawn();
    w.handshake();
    w.call_echo(2, "up");
    w.server.pages = true;
    w.deliver(vec![json(
        r#"{"jsonrpc": "2.0", "method": "notifications/tools/list_changed"}"#,
    )]);
    assert_eq!(
        at(&w.recv(), &["method"]),
        Json::text("notifications/tools/list_changed")
    );
    let tools = w.ask(r#"{"jsonrpc": "2.0", "id": 3, "method": "tools/list"}"#);
    assert!(has_tool(&tools, "paged"));
}

#[test]
fn a_call_waits_for_its_backend() {
    let id = json("1");
    match after_ensure(&id, Ok(false), false) {
        CallStep::End(answer) => assert_eq!(
            at(&answer, &["error", "message"]),
            Json::text("backend unavailable")
        ),
        _ => panic!("there is no backend"),
    }
    assert!(matches!(after_ensure(&id, Ok(false), true), CallStep::Send));
}

#[test]
fn idleness_is_measured_without_running_calls() {
    assert!(is_idle(60_000, 0, 0));
    assert!(!is_idle(59_999, 0, 0));
    assert!(!is_idle(60_000, 0, 1));
    assert!(!is_idle(5, 10, 0));
    assert!(!is_drained(true, 1, true));
    assert!(!is_drained(false, 0, true));
    assert!(!is_drained(true, 0, false));
}

#[test]
fn backend_status_reports_generation() {
    let mut w = Wrapper::spawn();
    w.handshake();
    let cold = w.control(2, "status");
    assert_eq!(at(&cold, &["result", "backend", "state"]), Json::text("cold"));
    assert_eq!(at(&cold, &["result", "backend", "alive"]), Json::Bool(false));
    assert_eq!(at(&cold, &["result", "backend", "generation"]), json("0"));
    assert_eq!(at(&cold, &["result", "mcp", "cacheEpoch"]), json("1"));
    let capabilities = at(&cold, &["result", "mcp", "capabilitiesHash"]);
    assert!(capabilities.as_str().unwrap().len() >= 8);
    let discovery = at(&cold, &["result", "mcp", "discoveryHash"]);
    assert!(discovery.as_str().unwrap().len() >= 8);

    let call = w.call_echo(3, "status-ready");
    assert_eq!(
        at(&call, &["result", "content", "0", "text"]),
        Json::text("status-ready")
    );
    let ready = w.control(4, "status");
    assert_eq!(at(&ready, &["result", "backend", "state"]), Json::text("ready"));
    assert_eq!(at(&ready, &["result", "backend", "alive"]), Json::Bool(true));
    assert_eq!(at(&ready, &["result", "backend", "generation"]), json("1"));
    assert_eq!(at(&ready, &["result", "backend", "restartCount"]), json("0"));
}

#[test]
fn backend_refresh_notifies_only_on_discovery_change() {
    let mut w = Wrapper::spawn();
    w.handshake();
    let unavailable = w.control(2, "refresh");
    assert_eq!(
        at(&unavailable, &["error", "message"]),
        Json::text("backend unavailable for refresh")
    );
    w.call_echo(3, "refresh-ready");
    let status = w.control(4, "status");
    let old_epoch = number(&at(&status, &["result", "mcp", "cacheEpoch"]));
    let old_hash = at(&status, &["result", "mcp", "discoveryHash"]);

    let first = w.control(5, "refresh");
    assert_eq!(at(&first, &["result", "changed"]), Json::Bool(true));
    assert_eq!(number(&at(&first, &["result", "oldCacheEpoch"])), old_epoch);
    assert_eq!(
        number(&at(&first, &["result", "newCacheEpoch"])),
        old_epoch + 1
    );
    assert_eq!(at(&first, &["result", "oldDiscoveryHash"]), old_hash);
    assert_eq!(at(&first, &["result", "newDiscoveryHash"]), old_hash);

    let second = w.control(6, "refresh");
    assert_eq!(at(&second, &["result", "changed"]), Json::Bool(false));
    assert_eq!(
        at(&second, &["result", "oldCacheEpoch"]),
        at(&first, &["result", "newCacheEpoch"])
    );
    assert_eq!(
        at(&second, &["result", "newCacheEpoch"]),
        at(&first, &["result", "newCacheEpoch"])
    );
}

#[test]
fn backend_restart_refreshes_cache_epoch() {
    let mut w = Wrapper::spawn();
    w.handshake();
    w.call_echo(2, "restart-ready");
    let before = w.control(3, "status");
    let old_epoch = number(&at(&before, &["result", "mcp", "cacheEpoch"]));
    assert_eq!(at(&before, &["result", "backend", "generation"]), json("1"));

    let restart = w.control(4, "restart");
    assert_eq!(number(&at(&restart, &["result", "oldCacheEpoch"])), old_epoch);
    assert_eq!(
        number(&at(&restart, &["result", "newCacheEpoch"])),
        old_epoch + 1
    );
    assert_eq!(at(&restart, &["result", "changed"]), Json::Bool(true));

    let after = w.control(5, "status");
    assert_eq!(at(&after, &["result", "backend", "state"]), Json::text("ready"));
    assert_eq!(at(&after, &["result", "backend", "alive"]), Json::Bool(true));
    assert_eq!(at(&after, &["result", "backend", "generation"]), json("2"));
    assert_eq!(at(&after, &["result", "backend", "restartCount"]), json("1"));
    assert_eq!(at(&after, &["result", "mcp", "backendGeneration"]), json("2"));
}

#[test]
fn backend_restart_refreshes_server_info_from_new_backend() {
    let mut w = Wrapper::spawn();
    w.handshake();
    w.call_echo(2, "version-ready");
    let before = w.control(3, "status");
    assert_eq!(
        at(&before, &["result", "mcp", "serverInfo", "serverInfo", "version"]),
        Json::text("0.1.0")
    );
    w.server.version = "0.2.0".to_string();
    let restart = w.control(4, "restart");
    assert!(restart.get("result").is_some());
    let after = w.control(5, "status");
    assert_eq!(
        at(&after, &["result", "mcp", "serverInfo", "serverInfo", "version"]),
        Json::text("0.2.0")
    );
}

#[test]
fn normal_respawn_refreshes_server_info() {
    let mut w = Wrapper::spawn();
    w.handshake();
    w.call_echo(2, "first");
    assert!(w.backend.on_exit().is_empty());
    w.server.version = "0.2.0".to_string();
    let second = w.call_echo(3, "second");
    assert_eq!(
        at(&second, &["result", "content", "0", "text"]),
        Json::text("second")
    );
    let after = w.control(4, "status");
    assert_eq!(
        at(&after, &["result", "mcp", "serverInfo", "serverInfo", "version"]),
        Json::text("0.2.0")
    );
}

#[test]
fn backend_stop_and_ping_hooks_are_implemented() {
    let mut w = Wrapper::spawn();
    w.handshake();
    let cold_ping = w.control(2, "ping");
    assert_eq!(at(&cold_ping, &["result", "ok"]), Json::Bool(false));

    w.call_echo(3, "hook-ready");
    let ready_ping = w.control(4, "ping");
    assert_eq!(at(&ready_ping, &["result", "ok"]), Json::Bool(true));
    assert_eq!(
        at(&ready_ping, &["result", "backend", "state"]),
        Json::text("ready")
    );

    let stopped = w.control(5, "stop");
    assert_eq!(at(&stopped, &["result", "state"]), Json::text("stopped"));
    assert_eq!(at(&stopped, &["result", "alive"]), Json::Bool(false));

    let after_stop = w.control(6, "ping");
    assert_eq!(at(&after_stop, &["result", "ok"]), Json::Bool(false));
    assert_eq!(
        at(&after_stop, &["result", "backend", "state"]),
        Json::text("stopped")
    );
}

#[test]
fn backend_circuit_breaker_rejects_spawn_storm_until_force_restart() {
    let mut w = Wrapper::spawn();
    w.handshake();
    w.server.broken = true;
    let first = w.call_echo(2, "will-fail");
    assert!(at(&first, &["error", "message"])
        .as_str()
        .unwrap()
        .contains("backend spawn failed after 3 attempts"));

    let degraded = w.control(3, "status");
    assert_eq!(
        at(&degraded, &["result", "backend", "state"]),
        Json::text("degraded")
    );
    assert!(
        number(&at(
            &degraded,
            &["result", "backend", "consecutiveSpawnFailures"]
        )) >= 3
    );
    number(&at(&degraded, &["result", "backend", "cooldownUntilMs"]));

    let seen = w.server.seen.len();
    let second = w.call_echo(4, "should-not-spawn");
    assert_eq!(w.server.seen.len(), seen);
    assert!(at(&second, &["error", "message"])
        .as_str()
        .unwrap()
        .contains("backend temporarily degraded"));

    let restart = w.control(5, "restart");
    assert!(at(&restart, &["error", "message"])
        .as_str()
        .unwrap()
        .contains("restart rejected during cooldown"));

    w.server.broken = false;
    let forced = w.ask(
        r#"{"jsonrpc": "2.0", "id": 6, "method": "mcp-wrapper/backend/restart",
            "params": {"force": true}}"#,
    );
    assert!(forced.get("result").is_some());
    let ready = w.control(7, "status");
    assert_eq!(at(&ready, &["result", "backend", "state"]), Json::text("ready"));
    assert_eq!(
        at(&ready, &["result", "backend", "consecutiveSpawnFailures"]),
        json("0")
    );
    assert!(at(&ready, &["result", "backend", "cooldownUntilMs"]).is_null());
}
