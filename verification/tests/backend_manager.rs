use mcp_wrapper_rs::backend_manager::{
    retain_utf8_tail, Backend, BackendEvent, BackendSlot, EnsureNext, EnsureStart, Incoming,
    RequestFailure, RestartStart,
};
use mcp_wrapper_rs::json::{parse, Json};
use mcp_wrapper_rs::mcp_interface::build_request;

fn json(text: &str) -> Json {
    parse(text).expect("valid JSON")
}

#[test]
fn stderr_tail_truncation_preserves_utf8_boundaries() {
    let mut text = format!("{}—中文🔥tail", "a".repeat(111));

    retain_utf8_tail(&mut text, 12);

    assert_eq!(text, "文🔥tail");
    assert!(text.len() <= 12);
}

#[test]
fn stderr_tail_truncation_keeps_short_text_unchanged() {
    let mut text = "火星文".to_string();

    retain_utf8_tail(&mut text, 64);

    assert_eq!(text, "火星文");
}

#[test]
fn stderr_tail_is_empty_where_no_character_fits() {
    let mut text = "abc🔥".to_string();
    retain_utf8_tail(&mut text, 3);
    assert_eq!(text, "");
    let mut text = "abc".to_string();
    retain_utf8_tail(&mut text, 0);
    assert_eq!(text, "");
    let mut text = "abc".to_string();
    retain_utf8_tail(&mut text, 3);
    assert_eq!(text, "abc");
}

#[test]
fn late_response_after_cancel_is_discarded_and_tombstone_is_cleared() {
    let mut backend = Backend::new();
    let id = json("1");
    let request = build_request(
        id.copy(),
        "tools/call",
        Some(json(r#"{"name": "wait-cancel", "arguments": {}}"#)),
    );
    assert!(matches!(backend.begin_request(&request, 7), Ok(None)));

    let call = backend
        .cancel_pending_request(&id, "test cancel")
        .expect("a call was pending");
    assert_eq!(call.waiter, 7);
    assert_eq!(
        call.notice,
        json(
            r#"{"jsonrpc": "2.0", "method": "notifications/cancelled",
                "params": {"requestId": 1, "reason": "test cancel"}}"#
        )
    );
    assert_eq!(backend.discarded_response_count(), 1);

    let late = backend.on_message(json(r#"{"jsonrpc": "2.0", "id": 1, "result": {}}"#));
    assert!(
        matches!(late, Incoming::Discard),
        "late cancelled response must not be unmatched"
    );
    assert_eq!(backend.discarded_response_count(), 0);

    let again = backend.on_message(json(r#"{"jsonrpc": "2.0", "id": 1, "result": {}}"#));
    assert!(matches!(
        again,
        Incoming::Event(BackendEvent::UnmatchedResponse(_))
    ));
}

#[test]
fn process_exit_drains_pending_request_without_request_timeout() {
    let mut backend = Backend::new();
    let request = build_request(json("1"), "ping", None);
    assert!(backend.begin_request(&request, 3).is_ok());

    let waiters = backend.on_exit();
    assert_eq!(waiters, vec![3]);
    assert_eq!(backend.pending_response_count(), 0);
    assert!(!backend.is_alive());
    assert_eq!(
        RequestFailure::Closed.message(),
        "backend closed before response"
    );
    assert!(matches!(
        backend.begin_request(&request, 4),
        Err(RequestFailure::Closed)
    ));
}

#[test]
fn backend_reader_does_not_wait_for_progress_consumer_before_response() {
    let mut backend = Backend::new();
    let request = build_request(json("1"), "ping", None);
    assert!(backend.begin_request(&request, 9).is_ok());
    let progress = backend.on_message(json(
        r#"{"jsonrpc":"2.0","method":"notifications/progress",
            "params":{"progressToken":"p","progress":1}}"#,
    ));
    match progress {
        Incoming::Event(BackendEvent::Notification(_)) => {}
        _ => panic!("progress notification should be emitted"),
    }
    match backend.on_message(json(r#"{"jsonrpc":"2.0","id":1,"result":{}}"#)) {
        Incoming::Deliver(waiter, response) => {
            assert_eq!(waiter, 9);
            assert_eq!(response.get("id"), Some(&json("1")));
        }
        _ => panic!("the response should reach its waiter"),
    }
}

#[test]
fn discarded_response_suppression_is_not_evicted_by_volume() {
    let mut backend = Backend::new();
    for id in 0..1_100 {
        backend.mark_discarding(Json::UInt(id));
    }
    assert_eq!(backend.discarded_response_count(), 1_100);
    assert!(backend.is_discarding_response(&json("0")));
    assert!(backend.is_discarding_response(&json("1099")));
}

#[test]
fn messages_of_the_backend_are_sorted() {
    let mut backend = Backend::new();
    assert!(matches!(
        backend.on_message(json(r#"{"id": "s-1", "method": "sampling/createMessage"}"#)),
        Incoming::Event(BackendEvent::PeerRequest(_))
    ));
    assert!(matches!(
        backend.on_message(json(r#"{"method": "notifications/message"}"#)),
        Incoming::Event(BackendEvent::Notification(_))
    ));
    assert!(matches!(
        backend.on_message(json(r#"{"id": 77, "result": {}}"#)),
        Incoming::Event(BackendEvent::UnmatchedResponse(_))
    ));
    assert!(matches!(
        backend.on_message(json("{}")),
        Incoming::Event(BackendEvent::Notification(_))
    ));
}

#[test]
fn requests_without_an_id_are_refused() {
    let mut backend = Backend::new();
    let failure = backend
        .begin_request(&json(r#"{"method": "ping"}"#), 1)
        .expect_err("no id");
    assert!(matches!(failure, RequestFailure::MissingId));
    assert_eq!(failure.message(), "request missing id");
    assert_eq!(RequestFailure::TimedOut.message(), "request timed out");
    assert_eq!(
        RequestFailure::Io("broken pipe".to_string()).message(),
        "broken pipe"
    );
}

#[test]
fn request_ids_count_up() {
    let mut backend = Backend::new();
    assert_eq!(backend.next_request_id(), json("1"));
    assert_eq!(backend.next_request_id(), json("2"));
    assert_eq!(backend.next_request_id(), json("3"));
}

#[test]
fn a_request_that_was_not_written_is_taken_back() {
    let mut backend = Backend::new();
    let request = build_request(json("5"), "ping", None);
    assert!(backend.begin_request(&request, 8).is_ok());
    assert_eq!(backend.abandon_request(&json("5")), Some(8));
    assert_eq!(backend.abandon_request(&json("5")), None);
    assert_eq!(backend.pending_response_count(), 0);
}

#[test]
fn a_request_that_timed_out_is_given_up() {
    let mut backend = Backend::new();
    let request = build_request(json("5"), "ping", None);
    assert!(backend.begin_request(&request, 8).is_ok());
    assert_eq!(backend.discard_pending_response(&json("5")), Some(8));
    assert!(backend.is_discarding_response(&json("5")));
    assert!(matches!(
        backend.on_message(json(r#"{"id": 5, "result": {}}"#)),
        Incoming::Discard
    ));
}

#[test]
fn error_output_is_kept_as_text() {
    let mut backend = Backend::new();
    backend.push_stderr("warning: 火\n".as_bytes());
    assert_eq!(backend.stderr_snapshot(), "warning: 火\n");
    backend.push_stderr(&[0xff, b'!']);
    assert_eq!(backend.stderr_snapshot(), "warning: 火\n\u{fffd}!");
    let long = "x".repeat(5000);
    backend.push_stderr(long.as_bytes());
    assert_eq!(backend.stderr_snapshot(), "x".repeat(4096));

    let text = "é火🔥z".repeat(700);
    let mut at_once = Backend::new();
    at_once.push_stderr(text.as_bytes());
    let mut in_chunks = Backend::new();
    for c in text.chars() {
        in_chunks.push_stderr(c.to_string().as_bytes());
    }
    assert_eq!(in_chunks.stderr_snapshot(), at_once.stderr_snapshot());
}

#[test]
fn server_info_is_remembered() {
    let mut backend = Backend::new();
    assert_eq!(backend.server_info_snapshot(), None);
    backend.set_server_info(json(r#"{"serverInfo": {"name": "echo"}}"#));
    assert_eq!(
        backend.server_info_snapshot(),
        Some(json(r#"{"serverInfo": {"name": "echo"}}"#))
    );
}

#[test]
fn three_failed_attempts_start_the_cooldown() {
    let mut slot = BackendSlot::new_empty();
    let mut run = match slot.begin_ensure(false, 1_000) {
        EnsureStart::Spawn(run) => run,
        _ => panic!("a backend is to be started"),
    };
    assert_eq!(run.next_generation, 1);
    for expected in [1, 2] {
        run = match slot.ensure_failed(run, "no such file".to_string(), 1_000) {
            EnsureNext::Retry { run, delay_secs } => {
                assert_eq!(delay_secs, expected);
                run
            }
            _ => panic!("two more attempts are left"),
        };
    }
    match slot.ensure_failed(run, "no such file".to_string(), 2_000) {
        EnsureNext::GaveUp { message, kill_old } => {
            assert_eq!(message, "backend spawn failed after 3 attempts: no such file");
            assert!(!kill_old);
        }
        _ => panic!("the third attempt was the last"),
    }
    let snapshot = slot.snapshot(false).to_value();
    assert_eq!(snapshot.get("state"), Some(&Json::text("degraded")));
    assert_eq!(snapshot.get("consecutiveSpawnFailures"), Some(&json("3")));
    assert_eq!(snapshot.get("lastSpawnError"), Some(&Json::text("no such file")));
    let until = match snapshot.get("cooldownUntilMs") {
        Some(Json::UInt(until)) => *until,
        _ => panic!("there is a cooldown"),
    };
    match slot.begin_ensure(false, until - 1) {
        EnsureStart::Rejected(message) => {
            assert_eq!(message, "backend temporarily degraded; retry after 1ms")
        }
        _ => panic!("the cooldown is not over"),
    }
    match slot.begin_restart(false, until - 1) {
        RestartStart::Rejected(message) => assert_eq!(
            message,
            "backend restart rejected during cooldown: backend temporarily degraded; retry after 1ms"
        ),
        _ => panic!("the cooldown is not over"),
    }
    match slot.begin_restart(true, until - 1) {
        RestartStart::Spawn {
            next_generation,
            kill_old,
        } => {
            assert_eq!(next_generation, 1);
            assert!(!kill_old);
        }
        _ => panic!("a forced restart ends the cooldown"),
    }
    slot.restart_spawned(1, until);
    let snapshot = slot.snapshot(true).to_value();
    assert_eq!(snapshot.get("state"), Some(&Json::text("ready")));
    assert_eq!(snapshot.get("alive"), Some(&Json::Bool(true)));
    assert_eq!(snapshot.get("consecutiveSpawnFailures"), Some(&json("0")));
    assert_eq!(snapshot.get("cooldownUntilMs"), Some(&Json::Null));
}

#[test]
fn a_dead_backend_is_replaced_and_counted() {
    let mut slot = BackendSlot::from_backend(5);
    assert!(matches!(slot.begin_ensure(true, 6), EnsureStart::Reuse));
    let run = match slot.begin_ensure(false, 6) {
        EnsureStart::Spawn(run) => run,
        _ => panic!("the backend is dead"),
    };
    assert!(run.replaces);
    assert!(slot.ensure_spawned(run, 7));
    assert_eq!(slot.generation(), 2);
    let snapshot = slot.snapshot(true).to_value();
    assert_eq!(snapshot.get("restartCount"), Some(&json("1")));
    assert_eq!(snapshot.get("lastStartedAtMs"), Some(&json("7")));
    assert!(slot.take_backend());
    assert!(!slot.live(true));
    assert!(!slot.stop());
    let snapshot = slot.snapshot(false).to_value();
    assert_eq!(snapshot.get("state"), Some(&Json::text("stopped")));
}

#[test]
fn a_restart_that_fails_degrades_the_slot() {
    let mut slot = BackendSlot::from_backend(5);
    match slot.begin_restart(false, 10) {
        RestartStart::Spawn {
            next_generation,
            kill_old,
        } => {
            assert_eq!(next_generation, 2);
            assert!(kill_old);
        }
        _ => panic!("there is no cooldown"),
    }
    slot.restart_failed("handshake".to_string(), 10);
    let snapshot = slot.snapshot(false).to_value();
    assert_eq!(snapshot.get("state"), Some(&Json::text("degraded")));
    assert_eq!(snapshot.get("generation"), Some(&json("1")));
}

#[test]
fn active_calls_block_stop_and_restart() {
    assert!(BackendSlot::restart_blocked_by_active_calls(1, false));
    assert!(!BackendSlot::restart_blocked_by_active_calls(1, true));
    assert!(!BackendSlot::restart_blocked_by_active_calls(0, false));
    assert!(BackendSlot::stop_blocked_by_active_calls(1));
    assert!(!BackendSlot::stop_blocked_by_active_calls(0));
}
