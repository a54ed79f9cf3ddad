use mcp_wrapper_rs::backend_manager::Backend;
use mcp_wrapper_rs::json::{parse, Json};
use mcp_wrapper_rs::lifetime::{
    notification_progress_token, notification_request_id, translate_cancel_message,
    RequestLifetime,
};
use mcp_wrapper_rs::mcp_interface::build_request;

fn json(text: &str) -> Json {
    parse(text).expect("valid JSON")
}

fn at(value: &Json, path: &[&str]) -> Json {
    let mut here = value;
    for key in path {
        here = here.get(key).expect("field");
    }
    here.copy()
}

#[test]
fn peer_cancel_requires_exact_session_owner() {
    let mut lifetime = RequestLifetime::new();
    let peer_request = json(
        r#"{
        "jsonrpc": "2.0",
        "id": "peer-1",
        "method": "sampling/createMessage",
        "params": {
            "_meta": {"progressToken": "peer-token"}
        }
    }"#,
    );
    lifetime.insert_peer_request(Some(7), &peer_request);

    let cancel = json(
        r#"{
        "jsonrpc": "2.0",
        "method": "notifications/cancelled",
        "params": {"requestId": "peer-1"}
    }"#,
    );

    assert!(!lifetime.client_cancel_peer_request(&cancel));
    assert!(!lifetime.client_cancel_peer_request_for_session(8, &cancel));
    assert!(lifetime.client_cancel_peer_request_for_session(7, &cancel));
}

#[test]
fn peer_response_requires_exact_session_owner() {
    let mut lifetime = RequestLifetime::new();
    let peer_request = json(
        r#"{
        "jsonrpc": "2.0",
        "id": "peer-2",
        "method": "sampling/createMessage",
        "params": {
            "_meta": {"progressToken": "peer-token-2"}
        }
    }"#,
    );
    lifetime.insert_peer_request(Some(9), &peer_request);

    let response = json(
        r#"{
        "jsonrpc": "2.0",
        "id": "peer-2",
        "result": {"content": {"type": "text", "text": "ok"}}
    }"#,
    );

    assert!(!lifetime.take_peer_response(&response));
    assert!(!lifetime.take_peer_response_for_session(8, &response));
    assert!(lifetime.take_peer_response_for_session(9, &response));
    assert!(!lifetime.take_peer_response_for_session(9, &response));
}

#[test]
fn equal_peer_ids_and_tokens_are_independent_per_session() {
    let mut lifetime = RequestLifetime::new();
    for session_id in [11, 22] {
        lifetime.insert_peer_request(
            Some(session_id),
            &json(
                r#"{
                    "jsonrpc": "2.0",
                    "id": 1,
                    "method": "sampling/createMessage",
                    "params": {"_meta": {"progressToken": "same-token"}}
                }"#,
            ),
        );
    }

    let progress = json(
        r#"{
        "jsonrpc": "2.0",
        "method": "notifications/progress",
        "params": {"progressToken": "same-token", "progress": 1}
    }"#,
    );
    assert!(lifetime.client_progress_is_active_for_session(11, &progress));
    assert!(lifetime.client_progress_is_active_for_session(22, &progress));
    assert_eq!(lifetime.peer_index_counts(), (2, 2));

    let response = json(r#"{"jsonrpc": "2.0", "id": 1, "result": {}}"#);
    assert!(lifetime.take_peer_response_for_session(22, &response));
    assert!(lifetime.client_progress_is_active_for_session(11, &progress));
    assert!(!lifetime.client_progress_is_active_for_session(22, &progress));
    assert_eq!(lifetime.peer_index_counts(), (1, 1));
}

#[test]
fn equal_raw_client_ids_are_owned_and_removed_per_session() {
    let mut lifetime = RequestLifetime::new();
    let raw_id = json("1");
    lifetime.insert_with_session(
        Some(10),
        raw_id.copy(),
        json("100"),
        &json(r#"{"params": {"_meta": {"progressToken": "token-a"}}}"#),
    );
    lifetime.insert_with_session(
        Some(20),
        raw_id.copy(),
        json("200"),
        &json(r#"{"params": {"_meta": {"progressToken": "token-b"}}}"#),
    );

    lifetime.remove_client_for_session(20, &raw_id);

    assert!(lifetime.contains_client_for_session(10, &raw_id));
    assert!(!lifetime.contains_client_for_session(20, &raw_id));
    assert_eq!(lifetime.client_index_counts(), (1, 1, 1));

    lifetime.timeout_client_for_session(10, &raw_id);
    assert_eq!(lifetime.client_index_counts(), (0, 0, 0));
}

#[test]
fn numeric_and_string_client_ids_remain_distinct_within_a_session() {
    let mut lifetime = RequestLifetime::new();
    let request = json(r#"{"params": {}}"#);
    lifetime.insert_with_session(Some(7), json("1"), json("11"), &request);
    lifetime.insert_with_session(Some(7), json("\"1\""), json("12"), &request);

    lifetime.remove_client_for_session(7, &json("1"));

    assert!(!lifetime.contains_client_for_session(7, &json("1")));
    assert!(lifetime.contains_client_for_session(7, &json("\"1\"")));
    assert_eq!(lifetime.client_index_counts(), (1, 1, 0));
}

#[test]
fn active_request_queries_are_derived_from_rows() {
    let mut lifetime = RequestLifetime::new();
    let request = json(r#"{"params": {}}"#);
    lifetime.insert_with_session(Some(1), json("1"), json("101"), &request);
    lifetime.insert_with_session(Some(1), json("2"), json("102"), &request);

    assert_eq!(lifetime.active_count(), 2);
    assert_eq!(lifetime.active_count_for_session(1), 2);
    assert_eq!(lifetime.active_count_for_session(2), 0);
    assert_eq!(lifetime.unique_bound_session(), Some(1));

    assert!(lifetime.admit_with_session(Some(2), json("1"), &request));
    assert_eq!(lifetime.active_count(), 3);
    assert_eq!(lifetime.unique_bound_session(), Some(1));

    lifetime.bind_backend(Some(2), &json("1"), json("201"));
    assert_eq!(lifetime.active_count(), 3);
    assert_eq!(lifetime.unique_bound_session(), None);

    lifetime.remove_client_for_session(2, &json("1"));
    assert_eq!(lifetime.unique_bound_session(), Some(1));
}

#[test]
fn daemon_cancel_uses_session_and_raw_id_without_fallback() {
    let mut lifetime = RequestLifetime::new();
    let mut backend = Backend::new();
    let raw_id = json("1");
    let request = json(r#"{"params": {}}"#);
    lifetime.insert_with_session(Some(30), raw_id.copy(), json("300"), &request);
    lifetime.insert_with_session(Some(40), raw_id.copy(), json("400"), &request);
    let cancel = json(
        r#"{
        "jsonrpc": "2.0",
        "method": "notifications/cancelled",
        "params": {"requestId": 1, "reason": "session-local cancel"}
    }"#,
    );

    assert!(
        !lifetime
            .cancel_client_request_for_session(50, &cancel, &mut backend)
            .accepted
    );
    assert!(lifetime.contains_client_for_session(30, &raw_id));
    assert!(lifetime.contains_client_for_session(40, &raw_id));

    // Nobody waits at the backend in this fixture, so nothing is forwarded after
    // the exact row of the session is removed.
    assert!(
        !lifetime
            .cancel_client_request_for_session(40, &cancel, &mut backend)
            .accepted
    );
    assert!(lifetime.contains_client_for_session(30, &raw_id));
    assert!(!lifetime.contains_client_for_session(40, &raw_id));
    assert_eq!(lifetime.client_index_counts(), (1, 1, 0));

    assert!(lifetime.admit_with_session(Some(50), json("2"), &request));
    let queued_cancel = json(
        r#"{
        "jsonrpc": "2.0",
        "method": "notifications/cancelled",
        "params": {"requestId": 2, "reason": "cancel before backend bind"}
    }"#,
    );
    assert!(
        lifetime
            .cancel_client_request_for_session(50, &queued_cancel, &mut backend)
            .accepted
    );
    assert!(!lifetime.contains_client_for_session(50, &json("2")));
}

#[test]
fn cancel_translation_requires_object_params() {
    let malformed = json(
        r#"{
        "jsonrpc": "2.0",
        "method": "notifications/cancelled",
        "params": []
    }"#,
    );
    assert!(translate_cancel_message(&malformed, json("1")).is_none());

    let valid = json(
        r#"{
        "jsonrpc": "2.0",
        "method": "notifications/cancelled",
        "params": {"requestId": "backend-id", "reason": "stop"}
    }"#,
    );
    let translated = translate_cancel_message(&valid, Json::text("client-id")).unwrap();
    assert_eq!(at(&translated, &["params", "requestId"]), Json::text("client-id"));
    assert_eq!(at(&translated, &["params", "reason"]), Json::text("stop"));
}

#[test]
fn a_client_cancellation_reaches_the_backend_under_the_backend_id() {
    let mut lifetime = RequestLifetime::new();
    let mut backend = Backend::new();
    let backend_id = backend.next_request_id();
    let request = build_request(backend_id.copy(), "tools/call", None);
    assert!(backend.begin_request(&request, 4).is_ok());
    lifetime.insert(Json::text("mine"), backend_id, &request);
    let outcome = lifetime.cancel_client_request(
        &json(r#"{"method": "notifications/cancelled", "params": {"requestId": "mine"}}"#),
        &mut backend,
    );
    assert!(outcome.accepted);
    let call = outcome.call.expect("the backend is told");
    assert_eq!(call.waiter, 4);
    assert_eq!(at(&call.notice, &["params", "requestId"]), json("1"));
    assert_eq!(lifetime.active_count(), 0);
    assert!(backend.is_discarding_response(&json("1")));
}

#[test]
fn a_cancellation_of_the_backend_reaches_the_client_under_its_own_id() {
    let mut lifetime = RequestLifetime::new();
    let mut backend = Backend::new();
    let request = build_request(
        json("1"),
        "tools/call",
        Some(json(r#"{"_meta": {"progressToken": "t"}}"#)),
    );
    assert!(backend.begin_request(&request, 4).is_ok());
    lifetime.insert_with_session(Some(3), json("\"mine\""), json("1"), &request);
    let progress = json(
        r#"{"method": "notifications/progress", "params": {"progressToken": "t"}}"#,
    );
    assert!(lifetime.backend_progress_is_active(&progress));
    assert_eq!(lifetime.session_for_backend_progress(&progress), Some(3));

    let cancel = json(r#"{"method": "notifications/cancelled", "params": {"requestId": 1}}"#);
    let outcome = lifetime.translate_backend_cancel(&cancel, &mut backend);
    assert_eq!(outcome.waiter, Some(4));
    let translated = outcome.translated.expect("the client is told");
    assert_eq!(translated.session_id, Some(3));
    assert_eq!(
        at(&translated.message, &["params", "requestId"]),
        Json::text("mine")
    );
    assert_eq!(lifetime.client_index_counts(), (0, 0, 0));
    assert!(!lifetime.backend_progress_is_active(&progress));
    assert!(lifetime
        .translate_backend_cancel(&cancel, &mut backend)
        .translated
        .is_none());
}

#[test]
fn a_second_request_with_a_running_id_is_not_taken_up() {
    let mut lifetime = RequestLifetime::new();
    let request = json(r#"{"params": {}}"#);
    lifetime.insert(json("1"), json("10"), &request);
    lifetime.insert(json("1"), json("11"), &request);
    assert_eq!(lifetime.client_index_counts(), (1, 1, 0));
    assert!(!lifetime.admit_with_session(None, json("1"), &request));
    lifetime.remove_client(&json("1"));
    lifetime.timeout_client(&json("1"));
    assert_eq!(lifetime.client_index_counts(), (0, 0, 0));
}

#[test]
fn the_exit_of_the_backend_ends_its_requests() {
    let mut lifetime = RequestLifetime::new();
    lifetime.insert_peer_request(None, &json(r#"{"id": 1, "method": "roots/list"}"#));
    lifetime.insert_peer_request(None, &json(r#"{"method": "no id"}"#));
    assert_eq!(lifetime.peer_index_counts(), (1, 0));
    lifetime.clear_peer_requests();
    assert_eq!(lifetime.peer_index_counts(), (0, 0));
    assert!(!lifetime.client_progress_is_active(&json(
        r#"{"params": {"progressToken": "gone"}}"#
    )));
}

#[test]
fn parts_of_notifications_are_found() {
    let raw = json(r#"{"params": {"requestId": 4, "progressToken": "p"}}"#);
    assert_eq!(notification_request_id(&raw), Some(json("4")));
    assert_eq!(notification_progress_token(&raw), Some(Json::text("p")));
    assert_eq!(notification_request_id(&json(r#"{"params": 3}"#)), None);
    assert_eq!(notification_progress_token(&json("[]")), None);
}

#[test]
fn ids_that_are_fractional_zeros_are_one_id() {
    let mut lifetime = RequestLifetime::new();
    let mut backend = Backend::new();
    let request = json(
        r#"{"id": -0.0, "method": "tools/call", "params": {"_meta": {"progressToken": 0.0}}}"#,
    );
    let backend_id = backend.next_request_id();
    let mut sent = request.copy();
    sent.set("id", backend_id.copy());
    assert!(matches!(backend.begin_request(&sent, 3), Ok(None)));
    lifetime.insert(json("-0.0"), backend_id, &request);
    assert!(!lifetime.admit_with_session(None, json("0.0"), &request));
    assert!(lifetime.backend_progress_is_active(&json(r#"{"params": {"progressToken": -0.0}}"#)));

    let outcome = lifetime.translate_backend_cancel(
        &json(r#"{"method": "notifications/cancelled", "params": {"requestId": 1}}"#),
        &mut backend,
    );
    let message = outcome.translated.unwrap().message;
    assert_eq!(
        mcp_wrapper_rs::json::to_text(&at(&message, &["params", "requestId"])),
        "-0.0"
    );
    assert_eq!(lifetime.client_index_counts(), (0, 0, 0));

    assert!(matches!(
        backend.begin_request(&json(r#"{"id": 0.0, "method": "x"}"#), 4),
        Ok(None)
    ));
    assert_eq!(
        backend.discard_pending_response(&json("-0.0")),
        Some(4)
    );
    assert!(backend.is_discarding_response(&json("0.0")));
}
