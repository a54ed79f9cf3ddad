//! The decisions of the running proxy: what becomes of each message of a client
//! and of each event of the backend, how a request is passed through, and when the
//! backend is idle.

use vstd::prelude::*;
use vstd::string::*;

use crate::backend_manager::{
    Backend, BackendEvent, BackendView, CancelledCall, RequestFailure,
};
use crate::error_codes::{INTERNAL_ERROR, INVALID_PARAMS};
use crate::event_plane::{
    is_wrapper_tool_request, list_changed_data_keys, notification_program, notification_program_of,
    should_drop_client_notification, stale_keys, wrapper_call, Dir, EventProgramId,
};
use crate::json::{
    empty_object, field, identity, opt_field, opt_view, str_of, with_field, Json, JsonView,
    NumberView,
};
use crate::lifetime::{
    cancel_from_backend, cancelled_by_client, cancelled_id, key_identity, peer_progress,
    progressed_token, requested_token, LifetimeView, RequestLifetime,
};
use crate::mcp_interface::{
    data_method, law_data_method_routes_back, lemma_method_literals, route, route_of, McpDataKey,
    Route, WrapperControlMethod,
};
use crate::mcp_manager::{
    asks_for_page, cached_list_request_has_cursor, served, Cache, CacheView, RefreshReport,
};
use crate::text::{join3, trim, trimmed};
use crate::timeouts::NORMAL_IDLE_REAPER_SECS;
use crate::transport::{
    build_error_response, build_response, classified, classify, error_response_view, field_text,
    response_view, JsonRpcMessage, MessageView,
};

verus! {

/// What becomes of a message of a client.
#[derive(Debug)]
pub enum ClientAction {
    /// Nothing.
    Ignore,
    /// This answer goes back.
    Respond(Json),
    /// The proxy's own tool is called.
    InvokeTool { id: Json, raw: Json },
    /// A control method is called.
    Control { id: Json, method: WrapperControlMethod, raw: Json },
    /// The backend is asked.
    PassThrough { id: Json, raw: Json },
    /// This message goes to the backend.
    SendToBackend(Json),
    /// A call at the backend was cancelled.
    CancelCall(CancelledCall),
}

/// The value of a `ClientAction`.
#[verifier::ext_equal]
pub enum ActionView {
    Ignore,
    Respond(JsonView),
    InvokeTool { id: JsonView, raw: JsonView },
    Control { id: JsonView, method: WrapperControlMethod, raw: JsonView },
    PassThrough { id: JsonView, raw: JsonView },
    SendToBackend(JsonView),
    CancelCall(u64, JsonView),
}

impl View for ClientAction {
    type V = ActionView;

    open spec fn view(&self) -> ActionView {
        match self {
            ClientAction::Ignore => ActionView::Ignore,
            ClientAction::Respond(j) => ActionView::Respond(j@),
            ClientAction::InvokeTool { id, raw } => ActionView::InvokeTool { id: id@, raw: raw@ },
            ClientAction::Control { id, method, raw } => ActionView::Control {
                id: id@,
                method: *method,
                raw: raw@,
            },
            ClientAction::PassThrough { id, raw } => ActionView::PassThrough { id: id@, raw: raw@ },
            ClientAction::SendToBackend(j) => ActionView::SendToBackend(j@),
            ClientAction::CancelCall(call) => ActionView::CancelCall(call.waiter, call.notice@),
        }
    }
}

/// An answer from the cache.
pub open spec fn cached_answer(cache: CacheView, key: McpDataKey, id: JsonView) -> JsonView {
    match served(cache, key) {
        Some(result) => response_view(id, result),
        None => error_response_view(id, INTERNAL_ERROR as int, "cache miss"@, None),
    }
}

/// Answers from the cache.
pub fn answer_from_cache(cache: &Cache, key: &McpDataKey, id: Json) -> (j: Json)
    requires
        cache.wf(),
    ensures
        j@ == cached_answer(cache@, *key, id@),
{
    match cache.lookup(key) {
        Some(result) => build_response(id, result),
        None => build_error_response(id, INTERNAL_ERROR, "cache miss", None),
    }
}

/// What becomes of a request. `whole_lists`: asking for a page of a cached list is
/// an error.
pub open spec fn request_plan(
    cache: CacheView,
    whole_lists: bool,
    id: JsonView,
    method: Seq<char>,
    raw: JsonView,
) -> ActionView {
    if wrapper_call(raw) {
        ActionView::InvokeTool { id, raw }
    } else {
        match route_of(method) {
            Route::McpData(key) => ActionView::Respond(
                if whole_lists && asks_for_page(key, raw) {
                    error_response_view(
                        id,
                        INVALID_PARAMS as int,
                        "cursor is not valid for cached list view"@,
                        None,
                    )
                } else {
                    cached_answer(cache, key, id)
                },
            ),
            Route::Local => ActionView::Respond(response_view(id, empty_object())),
            Route::WrapperControl(method) => ActionView::Control { id, method, raw },
            Route::PassThrough => ActionView::PassThrough { id, raw },
        }
    }
}

/// Decides what becomes of a request.
pub fn handle_request(cache: &Cache, whole_lists: bool, id: Json, method: &str, raw: Json) -> (action:
    ClientAction)
    requires
        cache.wf(),
    ensures
        action@ == request_plan(cache@, whole_lists, id@, method@, raw@),
{
    if is_wrapper_tool_request(&raw) {
        return ClientAction::InvokeTool { id, raw };
    }
    match route(method) {
        Route::McpData(key) => if whole_lists && cached_list_request_has_cursor(&key, &raw) {
            ClientAction::Respond(
                build_error_response(
                    id,
                    INVALID_PARAMS,
                    "cursor is not valid for cached list view",
                    None,
                ),
            )
        } else {
            ClientAction::Respond(answer_from_cache(cache, &key, id))
        },
        Route::Local => ClientAction::Respond(build_response(id, Json::object())),
        Route::WrapperControl(method) => ClientAction::Control { id, method, raw },
        Route::PassThrough => ClientAction::PassThrough { id, raw },
    }
}

/// What a message of a client leads to.
#[verifier::ext_equal]
pub struct ClientStep {
    pub lifetime: LifetimeView,
    pub backend: BackendView,
    pub action: ActionView,
}

/// What becomes of a notification of a client; `live`: there is a live backend.
/// A cancellation is for a request of that client, or else for a request of the
/// backend that it works on; progress is forwarded while such a request lasts; the
/// end of the handshake stays here; everything else is forwarded.
pub open spec fn notification_step(
    l: LifetimeView,
    b: BackendView,
    session: Option<u64>,
    live: bool,
    method: Seq<char>,
    raw: JsonView,
) -> ClientStep {
    let nothing = ClientStep { lifetime: l, backend: b, action: ActionView::Ignore };
    let forward = ClientStep { action: ActionView::SendToBackend(raw), ..nothing };
    if method.len() == 0 || method == "notifications/initialized"@ || !live {
        nothing
    } else {
        match notification_program_of(Dir::ClientToServer, method) {
            Some(EventProgramId::CancelRequest) => {
                let own = cancelled_by_client(l, b, session, raw);
                if own.accepted {
                    ClientStep {
                        lifetime: own.lifetime,
                        backend: own.backend,
                        action: match own.call {
                            Some((waiter, notice)) => ActionView::CancelCall(waiter, notice),
                            None => ActionView::Ignore,
                        },
                    }
                } else {
                    match cancelled_id(raw) {
                        Some(id) => {
                            let key = (session, id);
                            ClientStep {
                                lifetime: own.lifetime.peer_released(key),
                                backend: own.backend,
                                action: if own.lifetime.has_peer(key) {
                                    ActionView::SendToBackend(raw)
                                } else {
                                    ActionView::Ignore
                                },
                            }
                        },
                        None => nothing,
                    }
                }
            },
            Some(EventProgramId::ProgressRequest) => if peer_progress(l, session, raw) {
                forward
            } else {
                nothing
            },
            _ => forward,
        }
    }
}

/// Handles a notification of a client.
pub fn on_client_notification(
    lifetime: &mut RequestLifetime,
    backend: &mut Backend,
    session: Option<u64>,
    live: bool,
    method: &str,
    raw: Json,
) -> (action: ClientAction)
    requires
        old(lifetime)@.indexes_live_rows(),
    ensures
        final(lifetime)@.indexes_live_rows(),
        notification_step(old(lifetime)@, old(backend)@, session, live, method@, raw@) == (
        ClientStep {
            lifetime: final(lifetime)@,
            backend: final(backend)@,
            action: action@,
        }),
{
    if method.is_empty() || should_drop_client_notification(method) || !live {
        return ClientAction::Ignore;
    }
    match notification_program(Dir::ClientToServer, method) {
        Some(EventProgramId::CancelRequest) => {
            let outcome = match session {
                Some(s) => lifetime.cancel_client_request_for_session(s, &raw, backend),
                None => lifetime.cancel_client_request(&raw, backend),
            };
            if outcome.accepted {
                return match outcome.call {
                    Some(call) => ClientAction::CancelCall(call),
                    None => ClientAction::Ignore,
                };
            }
            let known = match session {
                Some(s) => lifetime.client_cancel_peer_request_for_session(s, &raw),
                None => lifetime.client_cancel_peer_request(&raw),
            };
            if known {
                ClientAction::SendToBackend(raw)
            } else {
                ClientAction::Ignore
            }
        },
        Some(EventProgramId::ProgressRequest) => {
            let active = match session {
                Some(s) => lifetime.client_progress_is_active_for_session(s, &raw),
                None => lifetime.client_progress_is_active(&raw),
            };
            if active {
                ClientAction::SendToBackend(raw)
            } else {
                ClientAction::Ignore
            }
        },
        _ => ClientAction::SendToBackend(raw),
    }
}

/// What becomes of a client's answer to the backend: it is forwarded where that
/// client works on such a request, and the backend lives.
pub open spec fn response_step(
    l: LifetimeView,
    b: BackendView,
    session: Option<u64>,
    live: bool,
    raw: JsonView,
) -> ClientStep {
    match field(raw, "id"@) {
        Some(id) => ClientStep {
            lifetime: l.peer_released((session, id)),
            backend: b,
            action: if l.has_peer((session, id)) && live {
                ActionView::SendToBackend(raw)
            } else {
                ActionView::Ignore
            },
        },
        None => ClientStep { lifetime: l, backend: b, action: ActionView::Ignore },
    }
}

/// What is left to be answered after a client's answer, and what becomes of the answer.
pub open spec fn answer_step(
    l: LifetimeView,
    session: Option<u64>,
    live: bool,
    raw: JsonView,
) -> (LifetimeView, ActionView) {
    match field(raw, "id"@) {
        Some(id) => (
            l.peer_released((session, id)),
            if l.has_peer((session, id)) && live {
                ActionView::SendToBackend(raw)
            } else {
                ActionView::Ignore
            },
        ),
        None => (l, ActionView::Ignore),
    }
}

/// Handles a client's answer to the backend.
pub fn on_client_response(
    lifetime: &mut RequestLifetime,
    session: Option<u64>,
    live: bool,
    raw: Json,
) -> (action: ClientAction)
    requires
        old(lifetime)@.indexes_live_rows(),
    ensures
        final(lifetime)@.indexes_live_rows(),
        answer_step(old(lifetime)@, session, live, raw@) == (final(lifetime)@, action@),
        forall|b: BackendView| #[trigger]
            response_step(old(lifetime)@, b, session, live, raw@) == (ClientStep {
                lifetime: final(lifetime)@,
                backend: b,
                action: action@,
            }),
{
    let known = match session {
        Some(s) => lifetime.take_peer_response_for_session(s, &raw),
        None => lifetime.take_peer_response(&raw),
    };
    if known && live {
        ClientAction::SendToBackend(raw)
    } else {
        ClientAction::Ignore
    }
}

/// What becomes of a message of a client.
pub open spec fn client_step(
    l: LifetimeView,
    b: BackendView,
    cache: CacheView,
    whole_lists: bool,
    session: Option<u64>,
    live: bool,
    raw: JsonView,
) -> ClientStep {
    match classified(raw) {
        MessageView::Request { id, method, .. } => ClientStep {
            lifetime: l,
            backend: b,
            action: request_plan(cache, whole_lists, id, method, raw),
        },
        MessageView::Notification { method, .. } => notification_step(
            l,
            b,
            session,
            live,
            method,
            raw,
        ),
        MessageView::Response { .. } => response_step(l, b, session, live, raw),
    }
}

/// Handles a message of a client.
pub fn on_client_message(
    lifetime: &mut RequestLifetime,
    backend: &mut Backend,
    cache: &Cache,
    whole_lists: bool,
    session: Option<u64>,
    live: bool,
    raw: Json,
) -> (action: ClientAction)
    requires
        old(lifetime)@.indexes_live_rows(),
        cache.wf(),
    ensures
        final(lifetime)@.indexes_live_rows(),
        client_step(
            old(lifetime)@,
            old(backend)@,
            cache@,
            whole_lists,
            session,
            live,
            raw@,
        ) == (ClientStep {
            lifetime: final(lifetime)@,
            backend: final(backend)@,
            action: action@,
        }),
{
    match classify(&raw) {
        JsonRpcMessage::Request { id, method, .. } => handle_request(
            cache,
            whole_lists,
            id,
            method.as_str(),
            raw,
        ),
        JsonRpcMessage::Notification { method, .. } => on_client_notification(
            lifetime,
            backend,
            session,
            live,
            method.as_str(),
            raw,
        ),
        JsonRpcMessage::Response { .. } => {
            let action = on_client_response(lifetime, session, live, raw);
            assert(response_step(old(lifetime)@, backend@, session, live, raw@).backend
                == backend@);
            action
        },
    }
}

/// What becomes of an event of the backend.
#[derive(Debug)]
pub enum EventAction {
    /// Nothing.
    Ignore,
    /// This message goes to the client.
    ToClient(Json),
    /// This notification tells the client that its request was cancelled; who
    /// waited for the answer waits no more.
    Cancelled { message: Json, waiter: Option<u64> },
    /// The lists are to be read again; the notification goes to the client once
    /// they are.
    RefreshThenForward { keys: Vec<McpDataKey>, notification: Json },
}

/// The value of an `EventAction`.
#[verifier::ext_equal]
pub enum EventActionView {
    Ignore,
    ToClient(JsonView),
    Cancelled { message: JsonView, waiter: Option<u64> },
    RefreshThenForward { keys: Seq<McpDataKey>, notification: JsonView },
}

impl View for EventAction {
    type V = EventActionView;

    open spec fn view(&self) -> EventActionView {
        match self {
            EventAction::Ignore => EventActionView::Ignore,
            EventAction::ToClient(j) => EventActionView::ToClient(j@),
            EventAction::Cancelled { message, waiter } => EventActionView::Cancelled {
                message: message@,
                waiter: *waiter,
            },
            EventAction::RefreshThenForward { keys, notification } => {
                EventActionView::RefreshThenForward { keys: keys@, notification: notification@ }
            },
        }
    }
}

/// What an event of the backend leads to.
#[verifier::ext_equal]
pub struct EventStep {
    pub lifetime: LifetimeView,
    pub backend: BackendView,
    pub action: EventActionView,
}

/// The method of a message, or nothing.
pub open spec fn method_or_empty(raw: JsonView) -> Seq<char> {
    match str_of(field(raw, "method"@)) {
        Some(method) => method,
        None => Seq::empty(),
    }
}

/// What becomes of an event of the backend where there is one client; `occupied`:
/// the backend is still in its slot. Progress is forwarded only for a live token, a
/// cancellation is translated, changed lists are read again first, and the rest is
/// forwarded.
pub open spec fn event_step(
    l: LifetimeView,
    b: BackendView,
    occupied: bool,
    event: BackendEvent,
) -> EventStep {
    let nothing = EventStep { lifetime: l, backend: b, action: EventActionView::Ignore };
    match event {
        BackendEvent::Notification(n) => {
            let method = method_or_empty(n@);
            match notification_program_of(Dir::ServerToClient, method) {
                Some(EventProgramId::ProgressRequest) => if progressed_token(n@) matches Some(t)
                    && l.has_token(t) {
                    EventStep { action: EventActionView::ToClient(n@), ..nothing }
                } else {
                    nothing
                },
                Some(EventProgramId::CancelRequest) => if !occupied {
                    nothing
                } else {
                    let cancel = cancel_from_backend(l, b, n@);
                    EventStep {
                        lifetime: cancel.lifetime,
                        backend: cancel.backend,
                        action: match cancel.translated {
                            Some((_, message)) => EventActionView::Cancelled {
                                message,
                                waiter: cancel.waiter,
                            },
                            None => EventActionView::Ignore,
                        },
                    }
                },
                _ => EventStep {
                    action: if stale_keys(method).len() > 0 {
                        EventActionView::RefreshThenForward {
                            keys: stale_keys(method),
                            notification: n@,
                        }
                    } else {
                        EventActionView::ToClient(n@)
                    },
                    ..nothing
                },
            }
        },
        BackendEvent::PeerRequest(req) => EventStep {
            lifetime: match field(req@, "id"@) {
                Some(id) => l.peer_admitted((None, id), requested_token(req@)),
                None => l,
            },
            backend: b,
            action: EventActionView::ToClient(req@),
        },
        BackendEvent::UnmatchedResponse(resp) => EventStep {
            action: EventActionView::ToClient(resp@),
            ..nothing
        },
        BackendEvent::ProcessExit => EventStep {
            lifetime: LifetimeView {
                peer_by_id: Map::empty(),
                peer_by_token: Map::empty(),
                ..l
            },
            ..nothing
        },
    }
}

/// Handles an event of the backend where there is one client.
pub fn on_backend_event(
    lifetime: &mut RequestLifetime,
    backend: &mut Backend,
    occupied: bool,
    event: BackendEvent,
) -> (action: EventAction)
    requires
        old(lifetime)@.indexes_live_rows(),
    ensures
        final(lifetime)@.indexes_live_rows(),
        event_step(old(lifetime)@, old(backend)@, occupied, event) == (EventStep {
            lifetime: final(lifetime)@,
            backend: final(backend)@,
            action: action@,
        }),
{
    match event {
        BackendEvent::Notification(n) => {
            let method = match field_text(n.get("method")) {
                Some(method) => method.to_owned(),
                None => String::new(),
            };
            match notification_program(Dir::ServerToClient, method.as_str()) {
                Some(EventProgramId::ProgressRequest) => {
                    if lifetime.backend_progress_is_active(&n) {
                        EventAction::ToClient(n)
                    } else {
                        EventAction::Ignore
                    }
                },
                Some(EventProgramId::CancelRequest) => {
                    if !occupied {
                        return EventAction::Ignore;
                    }
                    let outcome = lifetime.translate_backend_cancel(&n, backend);
                    match outcome.translated {
                        Some(t) => EventAction::Cancelled {
                            message: t.message,
                            waiter: outcome.waiter,
                        },
                        None => EventAction::Ignore,
                    }
                },
                _ => {
                    let keys = list_changed_data_keys(method.as_str());
                    if keys.len() > 0 {
                        EventAction::RefreshThenForward { keys, notification: n }
                    } else {
                        EventAction::ToClient(n)
                    }
                },
            }
        },
        BackendEvent::PeerRequest(req) => {
            lifetime.insert_peer_request(None, &req);
            EventAction::ToClient(req)
        },
        BackendEvent::UnmatchedResponse(resp) => EventAction::ToClient(resp),
        BackendEvent::ProcessExit => {
            lifetime.clear_peer_requests();
            EventAction::Ignore
        },
    }
}

/// What goes to the clients once the lists that a notification announces as changed
/// have been read: that notification, or nothing where reading them failed.
pub fn after_announced_refresh(result: Result<RefreshReport, String>, notification: Json) -> (out:
    Option<Json>)
    ensures
        opt_view(out) == if result is Ok {
            Some(notification@)
        } else {
            None
        },
{
    match result {
        Ok(_) => Some(notification),
        Err(_) => None,
    }
}

/// A request on its way to the backend, under an id of its own there.
#[derive(Debug)]
pub struct Forwarded {
    pub backend_id: Json,
    pub message: Json,
}

/// What giving a request an id at the backend leads to.
#[verifier::ext_equal]
pub struct ForwardView {
    pub lifetime: LifetimeView,
    pub backend: BackendView,
    pub backend_id: JsonView,
    pub message: JsonView,
}

/// A request gets the next id at the backend and is taken up under it, unless one with
/// its id is under way.
pub open spec fn forward_step(
    l: LifetimeView,
    b: BackendView,
    client_id: JsonView,
    raw: JsonView,
) -> ForwardView {
    let key = (None::<u64>, client_id);
    let backend_id = JsonView::Num(NumberView::Int(b.next_id as int));
    let message = with_field(raw, "id"@, backend_id);
    ForwardView {
        lifetime: if l.has_client(key) {
            l
        } else {
            l.admitted(key, requested_token(message)).bound(key, backend_id)
        },
        backend: BackendView { next_id: b.next_id.wrapping_add(1), ..b },
        backend_id,
        message,
    }
}

/// Gives a request an id at the backend and takes it up.
pub fn forward_request(
    lifetime: &mut RequestLifetime,
    backend: &mut Backend,
    client_id: &Json,
    raw: Json,
) -> (forwarded: Forwarded)
    requires
        old(lifetime)@.indexes_live_rows(),
    ensures
        final(lifetime)@.indexes_live_rows(),
        forward_step(old(lifetime)@, old(backend)@, client_id@, raw@) == (ForwardView {
            lifetime: final(lifetime)@,
            backend: final(backend)@,
            backend_id: forwarded.backend_id@,
            message: forwarded.message@,
        }),
{
    let backend_id = backend.next_request_id();
    let mut message = raw;
    message.set("id", backend_id.copy());
    lifetime.insert(client_id.copy(), backend_id.copy(), &message);
    Forwarded { backend_id, message }
}

/// How a request that was passed through ends.
#[derive(Debug)]
pub enum PassThroughEnd {
    /// With this answer.
    Respond(Json),
    /// Without an answer: it was cancelled.
    Silent,
    /// With this answer; the backend failed and is to be killed.
    RespondAndDropBackend(Json),
}

/// The value of a `PassThroughEnd`.
#[verifier::ext_equal]
pub enum EndView {
    Respond(JsonView),
    Silent,
    RespondAndDropBackend(JsonView),
}

impl View for PassThroughEnd {
    type V = EndView;

    open spec fn view(&self) -> EndView {
        match self {
            PassThroughEnd::Respond(j) => EndView::Respond(j@),
            PassThroughEnd::Silent => EndView::Silent,
            PassThroughEnd::RespondAndDropBackend(j) => EndView::RespondAndDropBackend(j@),
        }
    }
}

/// What a client is told of a failed backend: the failure and, where there is any,
/// the end of its error output.
pub open spec fn failure_detail(failure: Seq<char>, stderr: Seq<char>) -> Seq<char> {
    if stderr.len() == 0 {
        failure
    } else {
        failure + "\nstderr: "@ + trimmed(stderr)
    }
}

/// How a request ends, given what came of it at the backend. `detailed`: the client
/// is shown the error output of a backend that failed.
pub open spec fn pass_through_end(
    b: BackendView,
    client_id: JsonView,
    backend_id: JsonView,
    result: Result<Json, RequestFailure>,
    detailed: bool,
) -> EndView {
    match result {
        Ok(response) => EndView::Respond(with_field(response@, "id"@, client_id)),
        Err(RequestFailure::TimedOut) => EndView::Respond(
            error_response_view(client_id, INTERNAL_ERROR as int, "request timed out"@, None),
        ),
        Err(failure) => if b.discarding.contains_key(identity(backend_id)) {
            EndView::Silent
        } else {
            EndView::RespondAndDropBackend(
                error_response_view(
                    client_id,
                    INTERNAL_ERROR as int,
                    if detailed {
                        failure_detail(failure.text(), b.stderr)
                    } else {
                        failure.text()
                    },
                    None,
                ),
            )
        },
    }
}

/// The answer to a request, given what came of it at the backend.
pub fn end_of_request(
    backend: &Backend,
    client_id: Json,
    backend_id: &Json,
    result: Result<Json, RequestFailure>,
    detailed: bool,
) -> (end: PassThroughEnd)
    ensures
        end@ == pass_through_end(backend@, client_id@, backend_id@, result, detailed),
{
    match result {
        Ok(response) => {
            let mut response = response;
            response.set("id", client_id);
            PassThroughEnd::Respond(response)
        },
        Err(RequestFailure::TimedOut) => PassThroughEnd::Respond(
            build_error_response(client_id, INTERNAL_ERROR, "request timed out", None),
        ),
        Err(failure) => {
            if backend.is_discarding_response(backend_id) {
                return PassThroughEnd::Silent;
            }
            let text = failure.message();
            let stderr = backend.stderr_snapshot();
            let detail = if !detailed || stderr.as_str().is_empty() {
                text
            } else {
                join3(text.as_str(), "\nstderr: ", trim(stderr.as_str()).as_str())
            };
            PassThroughEnd::RespondAndDropBackend(
                build_error_response(client_id, INTERNAL_ERROR, detail.as_str(), None),
            )
        },
    }
}

/// What the end of a request leads to: the request is over, and how it ends.
pub open spec fn finish_step(
    l: LifetimeView,
    b: BackendView,
    client_id: JsonView,
    backend_id: JsonView,
    result: Result<Json, RequestFailure>,
) -> (LifetimeView, EndView) {
    (
        l.released((None, client_id)),
        pass_through_end(b, client_id, backend_id, result, true),
    )
}

/// Ends a request: it is over, and this is its answer.
pub fn finish_request(
    lifetime: &mut RequestLifetime,
    backend: &Backend,
    client_id: Json,
    backend_id: &Json,
    result: Result<Json, RequestFailure>,
) -> (end: PassThroughEnd)
    requires
        old(lifetime)@.indexes_live_rows(),
    ensures
        final(lifetime)@.indexes_live_rows(),
        finish_step(old(lifetime)@, backend@, client_id@, backend_id@, result) == (
            final(lifetime)@,
            end@,
        ),
{
    match &result {
        Err(RequestFailure::TimedOut) => lifetime.timeout_client(&client_id),
        _ => lifetime.remove_client(&client_id),
    }
    end_of_request(backend, client_id, backend_id, result, true)
}

/// How a request goes on once a backend was asked for.
#[derive(Debug)]
pub enum CallStep {
    /// Read the lists again, then send it: the backend replaced another one.
    RefreshThenSend,
    /// Send it.
    Send,
    /// It ends with this answer.
    End(Json),
}

/// The value of a `CallStep`.
#[verifier::ext_equal]
pub enum CallStepView {
    RefreshThenSend,
    Send,
    End(JsonView),
}

impl View for CallStep {
    type V = CallStepView;

    open spec fn view(&self) -> CallStepView {
        match self {
            CallStep::RefreshThenSend => CallStepView::RefreshThenSend,
            CallStep::Send => CallStepView::Send,
            CallStep::End(j) => CallStepView::End(j@),
        }
    }
}

/// How a request goes on once a backend was asked for; `ensured`: whether the backend
/// replaced one that was known before, or why there is none; `present`: it is in its
/// slot.
pub open spec fn call_step(
    client_id: JsonView,
    ensured: Result<bool, String>,
    present: bool,
) -> CallStepView {
    match ensured {
        Err(message) => CallStepView::End(
            error_response_view(client_id, INTERNAL_ERROR as int, message@, None),
        ),
        Ok(replaced) => if !present {
            CallStepView::End(
                error_response_view(
                    client_id,
                    INTERNAL_ERROR as int,
                    "backend unavailable"@,
                    None,
                ),
            )
        } else if replaced {
            CallStepView::RefreshThenSend
        } else {
            CallStepView::Send
        },
    }
}

/// Decides how a request goes on once a backend was asked for.
pub fn after_ensure(client_id: &Json, ensured: Result<bool, String>, present: bool) -> (step:
    CallStep)
    ensures
        step@ == call_step(client_id@, ensured, present),
{
    match ensured {
        Err(message) => CallStep::End(spawn_failure_answer(client_id.copy(), message.as_str())),
        Ok(replaced) => if !present {
            CallStep::End(spawn_failure_answer(client_id.copy(), "backend unavailable"))
        } else if replaced {
            CallStep::RefreshThenSend
        } else {
            CallStep::Send
        },
    }
}

/// The answer to a request for which no backend could be brought up.
pub fn spawn_failure_answer(client_id: Json, message: &str) -> (j: Json)
    ensures
        j@ == error_response_view(client_id@, INTERNAL_ERROR as int, message@, None),
{
    build_error_response(client_id, INTERNAL_ERROR, message, None)
}

/// Whether the loop is done: the client has closed its side, and nothing is left
/// to do or to write.
pub fn is_drained(input_closed: bool, active_calls: usize, output_empty: bool) -> (b: bool)
    ensures
        b == (input_closed && active_calls == 0 && output_empty),
{
    input_closed && active_calls == 0 && output_empty
}

/// Whether the backend has been idle long enough to be shut down.
pub fn is_idle(now_ms: u64, last_activity_ms: u64, active_calls: usize) -> (b: bool)
    ensures
        b == (now_ms - last_activity_ms >= NORMAL_IDLE_REAPER_SECS * 1000 && active_calls == 0),
{
    now_ms >= last_activity_ms && now_ms - last_activity_ms >= NORMAL_IDLE_REAPER_SECS * 1000
        && active_calls == 0
}

/// A request that is passed through gets its own answer back under the id that the
/// client gave it, whatever id it had at the backend.
pub proof fn law_client_id_is_restored(
    b: BackendView,
    client_id: JsonView,
    backend_id: JsonView,
    response: Json,
    detailed: bool,
)
    ensures
        pass_through_end(b, client_id, backend_id, Ok(response), detailed) matches EndView::Respond(answer)
            && field(answer, "id"@) == Some(client_id) && forall|key: Seq<char>|
            key != "id"@ && response@ is Obj ==> #[trigger] field(answer, key) == field(
                response@,
                key,
            ),
{
}

/// A request whose client cancelled it gets no answer.
pub proof fn law_cancelled_request_is_silent(
    b: BackendView,
    client_id: JsonView,
    backend_id: JsonView,
    failure: RequestFailure,
    detailed: bool,
)
    requires
        b.pending.contains_key(identity(backend_id)),
        !(failure is TimedOut),
    ensures
        pass_through_end(
            crate::backend_manager::given_up(b, backend_id),
            client_id,
            backend_id,
            Err(failure),
            detailed,
        ) == EndView::Silent,
{
}

/// Only the backend is asked for what nobody here answers: a request goes there
/// exactly where it is no call of the proxy's tool and its method is neither
/// cached, local nor a control method.
pub proof fn law_only_unknown_requests_pass_through(
    cache: CacheView,
    whole_lists: bool,
    id: JsonView,
    method: Seq<char>,
    raw: JsonView,
)
    ensures
        request_plan(cache, whole_lists, id, method, raw) is PassThrough <==> !wrapper_call(raw)
            && route_of(method) == Route::PassThrough,
{
}

/// Discovery is answered from the cache, without the backend.
pub proof fn law_discovery_is_answered_from_cache(
    cache: CacheView,
    whole_lists: bool,
    key: McpDataKey,
    id: JsonView,
    raw: JsonView,
)
    requires
        !wrapper_call(raw),
        !(whole_lists && asks_for_page(key, raw)),
        served(cache, key) is Some,
    ensures
        request_plan(cache, whole_lists, id, data_method(key), raw) == ActionView::Respond(
            response_view(id, served(cache, key)->0),
        ),
{
    law_data_method_routes_back(key);
}

// ── What the proxy is for ───────────────────────────────────────────

/// The methods of notifications, letter by letter.
proof fn lemma_notification_literals()
    ensures
        "notifications/cancelled"@.len() == 23,
        "notifications/progress"@.len() == 22,
        "notifications/tools/list_changed"@.len() == 32,
        "notifications/prompts/list_changed"@.len() == 34,
        "notifications/resources/list_changed"@.len() == 36,
        "notifications/initialized"@.len() == 25,
        "notifications/"@ + "tools"@ + "/list_changed"@ == "notifications/tools/list_changed"@,
        "notifications/"@ + "prompts"@ + "/list_changed"@
            == "notifications/prompts/list_changed"@,
        "notifications/"@ + "resources"@ + "/list_changed"@
            == "notifications/resources/list_changed"@,
{
    reveal_strlit("notifications/cancelled");
    reveal_strlit("notifications/progress");
    reveal_strlit("notifications/tools/list_changed");
    reveal_strlit("notifications/prompts/list_changed");
    reveal_strlit("notifications/resources/list_changed");
    reveal_strlit("notifications/initialized");
    assert("notifications/cancelled"@.len() == 23);
    assert("notifications/progress"@.len() == 22);
    assert("notifications/tools/list_changed"@.len() == 32);
    assert("notifications/prompts/list_changed"@.len() == 34);
    assert("notifications/resources/list_changed"@.len() == 36);
    assert("notifications/initialized"@.len() == 25);
    reveal_strlit("notifications/");
    reveal_strlit("tools");
    reveal_strlit("prompts");
    reveal_strlit("resources");
    reveal_strlit("/list_changed");
    assert("notifications/"@.len() == 14);
    assert("tools"@.len() == 5);
    assert("prompts"@.len() == 7);
    assert("resources"@.len() == 9);
    assert("/list_changed"@.len() == 13);
    assert("notifications/"@ + "tools"@ + "/list_changed"@ =~= "notifications/tools/list_changed"@);
    assert("notifications/"@ + "prompts"@ + "/list_changed"@
        =~= "notifications/prompts/list_changed"@);
    assert("notifications/"@ + "resources"@ + "/list_changed"@
        =~= "notifications/resources/list_changed"@);
}

/// A notification of the backend that is neither progress nor a cancellation and changes
/// no list reaches the client as it is, and changes nothing here.
pub proof fn law_other_notifications_reach_the_client(
    l: LifetimeView,
    b: BackendView,
    occupied: bool,
    n: Json,
)
    requires
        str_of(field(n@, "method"@)) != Some("notifications/progress"@),
        str_of(field(n@, "method"@)) != Some("notifications/cancelled"@),
        str_of(field(n@, "method"@)) != Some("notifications/tools/list_changed"@),
        str_of(field(n@, "method"@)) != Some("notifications/prompts/list_changed"@),
        str_of(field(n@, "method"@)) != Some("notifications/resources/list_changed"@),
    ensures
        event_step(l, b, occupied, BackendEvent::Notification(n)) == (EventStep {
            lifetime: l,
            backend: b,
            action: EventActionView::ToClient(n@),
        }),
{
    lemma_notification_literals();
}

/// A notification that a list has changed has exactly the lists read again whose methods
/// begin with its name, and reaches the client after that.
pub proof fn law_changed_lists_are_read_again(
    l: LifetimeView,
    b: BackendView,
    occupied: bool,
    n: Json,
    name: Seq<char>,
    key: McpDataKey,
)
    requires
        name == "tools"@ || name == "prompts"@ || name == "resources"@,
        str_of(field(n@, "method"@)) == Some("notifications/"@ + name + "/list_changed"@),
    ensures
        ({
            let step = event_step(l, b, occupied, BackendEvent::Notification(n));
            &&& step.lifetime == l
            &&& step.backend == b
            &&& step.action matches EventActionView::RefreshThenForward { keys, notification } && {
                &&& notification == n@
                &&& keys.no_duplicates()
                &&& keys.contains(key) <==> (name + "/"@).is_prefix_of(data_method(key))
            }
        }),
{
    lemma_notification_literals();
    reveal_strlit("tools");
    reveal_strlit("prompts");
    reveal_strlit("resources");
    reveal_strlit("/");
    reveal_strlit("initialize");
    reveal_strlit("tools/list");
    reveal_strlit("prompts/list");
    reveal_strlit("resources/list");
    reveal_strlit("resources/templates/list");
    assert("tools"@.len() == 5);
    assert("prompts"@.len() == 7);
    assert("resources"@.len() == 9);
    assert("/"@.len() == 1);
    assert("initialize"@.len() == 10);
    assert("tools/list"@.len() == 10);
    assert("prompts/list"@.len() == 12);
    assert("resources/list"@.len() == 14);
    assert("resources/templates/list"@.len() == 24);
    assert("initialize"@[0] != "tools/list"@[0]);
    let keys = stale_keys("notifications/"@ + name + "/list_changed"@);
    assert("tools/list"@.subrange(0, 6) =~= "tools"@ + "/"@);
    assert("prompts/list"@.subrange(0, 8) =~= "prompts"@ + "/"@);
    assert("resources/list"@.subrange(0, 10) =~= "resources"@ + "/"@);
    assert("resources/templates/list"@.subrange(0, 10) =~= "resources"@ + "/"@);
    assert((name + "/"@)[0] == name[0]);
    let m = data_method(key);
    if (name + "/"@).is_prefix_of(m) {
        assert(m.subrange(0, (name + "/"@).len() as int)[0] == m[0]);
        assert(m[0] == name[0]);
        assert(m.subrange(0, (name + "/"@).len() as int)[1] == m[1]);
        assert((name + "/"@)[1] == name[1]);
    }
    if name == "tools"@ {
        assert(keys == seq![McpDataKey::ToolsList]);
        assert(keys[0] == McpDataKey::ToolsList);
    } else if name == "prompts"@ {
        assert(keys == seq![McpDataKey::PromptsList]);
        assert(keys[0] == McpDataKey::PromptsList);
    } else {
        assert(keys == seq![McpDataKey::ResourcesList, McpDataKey::ResourceTemplatesList]);
        assert(keys[0] == McpDataKey::ResourcesList);
        assert(keys[1] == McpDataKey::ResourceTemplatesList);
    }
}

/// Where reading the changed lists failed, the clients are told nothing; else they are
/// told what the backend said.
pub proof fn law_announcement_follows_a_refresh(
    result: Result<RefreshReport, String>,
    notification: Json,
    out: Option<Json>,
)
    requires
        call_ensures(after_announced_refresh, (result, notification), out),
    ensures
        result is Ok <==> out is Some,
        out matches Some(told) ==> told@ == notification@,
{
}

/// Progress reaches the client while the request that asked for it lasts, and not once
/// it is over; it changes nothing.
pub proof fn law_progress_reaches_a_live_request(
    l: LifetimeView,
    b: BackendView,
    occupied: bool,
    n: Json,
    id: JsonView,
    backend_id: JsonView,
    token: JsonView,
)
    requires
        l.indexes_live_rows(),
        !l.has_client((None, id)),
        str_of(field(n@, "method"@)) == Some("notifications/progress"@),
        opt_field(field(n@, "params"@), "progressToken"@) == Some(token),
    ensures
        ({
            let taken = l.admitted((None, id), Some(token)).bound((None, id), backend_id);
            let over = taken.released((None, id));
            &&& event_step(taken, b, occupied, BackendEvent::Notification(n)) == (EventStep {
                lifetime: taken,
                backend: b,
                action: EventActionView::ToClient(n@),
            })
            &&& event_step(over, b, occupied, BackendEvent::Notification(n)) == (EventStep {
                lifetime: over,
                backend: b,
                action: EventActionView::Ignore,
            })
        }),
{
    lemma_notification_literals();
}

/// Progress with a token that no request asked for, or with none, reaches nobody.
pub proof fn law_unknown_progress_is_dropped(
    l: LifetimeView,
    b: BackendView,
    occupied: bool,
    n: Json,
)
    requires
        str_of(field(n@, "method"@)) == Some("notifications/progress"@),
        opt_field(field(n@, "params"@), "progressToken"@) matches Some(t)
            ==> !l.client_by_token.contains_key(identity(t)),
    ensures
        event_step(l, b, occupied, BackendEvent::Notification(n)) == (EventStep {
            lifetime: l,
            backend: b,
            action: EventActionView::Ignore,
        }),
{
    lemma_notification_literals();
}

/// A cancellation by the backend of a request that was passed on reaches the client
/// under the id that the client knows, with the other fields as they are; who waited is
/// told, and the request is over. Where there is no backend, it reaches nobody.
pub proof fn law_cancellation_reaches_the_client(
    l: LifetimeView,
    b: BackendView,
    n: Json,
    params: Map<Seq<char>, JsonView>,
    id: JsonView,
    backend_id: JsonView,
    token: Option<JsonView>,
    waiter: u64,
    other: Seq<char>,
)
    requires
        l.indexes_live_rows(),
        !l.has_client((None, id)),
        b.pending.contains_key(identity(backend_id)),
        b.pending[identity(backend_id)] == waiter,
        str_of(field(n@, "method"@)) == Some("notifications/cancelled"@),
        field(n@, "params"@) == Some(JsonView::Obj(params)),
        params.contains_key("requestId"@),
        params["requestId"@] == backend_id,
        other != "requestId"@,
    ensures
        ({
            let taken = l.admitted((None, id), token).bound((None, id), backend_id);
            let step = event_step(taken, b, true, BackendEvent::Notification(n));
            &&& step.action matches EventActionView::Cancelled { message, waiter: told } && {
                &&& told == Some(waiter)
                &&& opt_field(field(message, "params"@), "requestId"@) == Some(id)
                &&& opt_field(field(message, "params"@), other) == opt_field(
                    field(n@, "params"@),
                    other,
                )
                &&& other != "params"@ ==> field(message, other) == field(n@, other)
            }
            &&& !step.lifetime.has_client((None, id))
            &&& !step.lifetime.has_backend_id(backend_id)
            &&& !step.backend.pending.contains_key(identity(backend_id))
            &&& step.backend.discarding.contains_key(identity(backend_id))
            &&& step.backend.next_id == b.next_id
            &&& event_step(taken, b, false, BackendEvent::Notification(n)) == (EventStep {
                lifetime: taken,
                backend: b,
                action: EventActionView::Ignore,
            })
        }),
{
    lemma_notification_literals();
}

/// A cancellation by the backend of a request that nobody knows changes nothing and
/// reaches nobody.
pub proof fn law_unknown_cancellation_is_dropped(
    l: LifetimeView,
    b: BackendView,
    occupied: bool,
    n: Json,
)
    requires
        str_of(field(n@, "method"@)) == Some("notifications/cancelled"@),
        opt_field(field(n@, "params"@), "requestId"@) matches Some(id)
            ==> !l.client_by_backend.contains_key(identity(id)),
    ensures
        event_step(l, b, occupied, BackendEvent::Notification(n)) == (EventStep {
            lifetime: l,
            backend: b,
            action: EventActionView::Ignore,
        }),
{
    lemma_notification_literals();
}

/// A request of the backend reaches the client as it is. The client's answer under the
/// same id reaches the backend as it is, once, while the backend lives.
pub proof fn law_request_of_the_backend_is_answered_once(
    l: LifetimeView,
    b: BackendView,
    occupied: bool,
    request: Json,
    id: JsonView,
    answer: JsonView,
)
    requires
        field(request@, "id"@) == Some(id),
        field(answer, "id"@) == Some(id),
    ensures
        ({
            let asked = event_step(l, b, occupied, BackendEvent::PeerRequest(request));
            let told = response_step(asked.lifetime, b, None, true, answer);
            &&& asked.action == EventActionView::ToClient(request@)
            &&& asked.backend == b
            &&& asked.lifetime.by_client == l.by_client
            &&& asked.lifetime.client_by_backend == l.client_by_backend
            &&& asked.lifetime.client_by_token == l.client_by_token
            &&& told.action == ActionView::SendToBackend(answer)
            &&& told.backend == b
            &&& response_step(told.lifetime, b, None, true, answer).action == ActionView::Ignore
            &&& response_step(asked.lifetime, b, None, false, answer).action == ActionView::Ignore
        }),
{
}

/// An answer that the backend did not ask for, or one without an id, goes nowhere and
/// changes nothing.
pub proof fn law_unasked_answer_is_dropped(
    l: LifetimeView,
    b: BackendView,
    session: Option<u64>,
    live: bool,
    answer: JsonView,
)
    requires
        field(answer, "id"@) matches Some(id) ==> !l.peer_by_id.contains_key(
            (session, identity(id)),
        ),
    ensures
        response_step(l, b, session, live, answer) == (ClientStep {
            lifetime: l,
            backend: b,
            action: ActionView::Ignore,
        }),
{
}

/// A request of the backend without an id still reaches the client, and changes nothing;
/// so does an answer that nobody waits for.
pub proof fn law_other_messages_reach_the_client(
    l: LifetimeView,
    b: BackendView,
    occupied: bool,
    message: Json,
)
    ensures
        field(message@, "id"@) is None ==> event_step(
            l,
            b,
            occupied,
            BackendEvent::PeerRequest(message),
        ) == (EventStep {
            lifetime: l,
            backend: b,
            action: EventActionView::ToClient(message@),
        }),
        event_step(l, b, occupied, BackendEvent::UnmatchedResponse(message)) == (EventStep {
            lifetime: l,
            backend: b,
            action: EventActionView::ToClient(message@),
        }),
{
}

/// Once the backend has exited, no answer to it and no progress for it goes anywhere;
/// the requests of the client are not touched.
pub proof fn law_exit_ends_requests_of_the_backend(
    l: LifetimeView,
    b: BackendView,
    occupied: bool,
    session: Option<u64>,
    raw: JsonView,
)
    ensures
        ({
            let step = event_step(l, b, occupied, BackendEvent::ProcessExit);
            &&& step.action == EventActionView::Ignore
            &&& step.backend == b
            &&& step.lifetime.by_client == l.by_client
            &&& step.lifetime.client_by_backend == l.client_by_backend
            &&& step.lifetime.client_by_token == l.client_by_token
            &&& response_step(step.lifetime, b, session, true, raw).action == ActionView::Ignore
            &&& notification_step(
                step.lifetime,
                b,
                session,
                true,
                "notifications/progress"@,
                raw,
            ).action == ActionView::Ignore
        }),
{
    lemma_notification_literals();
}

/// A notification of a client that is neither progress nor a cancellation nor the end of
/// the handshake reaches a live backend as it is, and changes nothing. The end of the
/// handshake, and any notification without a live backend, goes nowhere.
pub proof fn law_client_notifications_reach_the_backend(
    l: LifetimeView,
    b: BackendView,
    session: Option<u64>,
    live: bool,
    method: Seq<char>,
    raw: JsonView,
)
    ensures
        live && method.len() > 0 && method != "notifications/initialized"@ && method
            != "notifications/cancelled"@ && method != "notifications/progress"@
            ==> notification_step(l, b, session, live, method, raw) == (ClientStep {
            lifetime: l,
            backend: b,
            action: ActionView::SendToBackend(raw),
        }),
        !live || method == "notifications/initialized"@ || method.len() == 0 ==> notification_step(
            l,
            b,
            session,
            live,
            method,
            raw,
        ) == (ClientStep { lifetime: l, backend: b, action: ActionView::Ignore }),
{
    lemma_notification_literals();
}

/// Progress of a client reaches the backend while the request of the backend that asked
/// for it lasts, from the client that it was asked of and no other.
pub proof fn law_client_progress_reaches_the_backend(
    l: LifetimeView,
    b: BackendView,
    session: Option<u64>,
    other: Option<u64>,
    id: JsonView,
    token: JsonView,
    raw: JsonView,
)
    requires
        opt_field(field(raw, "params"@), "progressToken"@) == Some(token),
        other != session,
        !l.peer_by_token.contains_key((other, identity(token))),
    ensures
        ({
            let asked = l.peer_admitted((session, id), Some(token));
            let over = asked.peer_released((session, id));
            let progress = "notifications/progress"@;
            &&& notification_step(asked, b, session, true, progress, raw) == (ClientStep {
                lifetime: asked,
                backend: b,
                action: ActionView::SendToBackend(raw),
            })
            &&& notification_step(over, b, session, true, progress, raw).action
                == ActionView::Ignore
            &&& notification_step(asked, b, other, true, progress, raw).action
                == ActionView::Ignore
        }),
{
    lemma_notification_literals();
}

/// A cancellation by a client of a request that is at the backend ends it: who waited is
/// told, and the backend gets a cancellation under the id that it knows, with the reason
/// that the client gave. A second one goes nowhere, unless the backend asked under that
/// id.
pub proof fn law_client_cancellation_reaches_the_backend(
    l: LifetimeView,
    b: BackendView,
    session: Option<u64>,
    id: JsonView,
    backend_id: JsonView,
    token: Option<JsonView>,
    waiter: u64,
    raw: JsonView,
)
    requires
        l.indexes_live_rows(),
        !l.has_client((session, id)),
        b.pending.contains_key(identity(backend_id)),
        b.pending[identity(backend_id)] == waiter,
        opt_field(field(raw, "params"@), "requestId"@) == Some(id),
        !l.has_peer((session, id)),
    ensures
        ({
            let taken = l.admitted((session, id), token).bound((session, id), backend_id);
            let step = notification_step(
                taken,
                b,
                session,
                true,
                "notifications/cancelled"@,
                raw,
            );
            let again = notification_step(
                step.lifetime,
                step.backend,
                session,
                true,
                "notifications/cancelled"@,
                raw,
            );
            &&& step.action matches ActionView::CancelCall(told, notice) && {
                &&& told == waiter
                &&& field(notice, "method"@) == Some(JsonView::Str("notifications/cancelled"@))
                &&& field(notice, "id"@) is None
                &&& opt_field(field(notice, "params"@), "requestId"@) == Some(backend_id)
                &&& opt_field(field(notice, "params"@), "reason"@) == Some(
                    JsonView::Str(
                        match str_of(opt_field(field(raw, "params"@), "reason"@)) {
                            Some(reason) => reason,
                            None => "request cancelled"@,
                        },
                    ),
                )
            }
            &&& !step.lifetime.has_client((session, id))
            &&& !step.lifetime.has_backend_id(backend_id)
            &&& !step.backend.pending.contains_key(identity(backend_id))
            &&& step.backend.discarding.contains_key(identity(backend_id))
            &&& again.action == ActionView::Ignore
            &&& again.backend == step.backend
        }),
{
    lemma_notification_literals();
    reveal_strlit("method");
    reveal_strlit("jsonrpc");
    reveal_strlit("params");
    reveal_strlit("id");
    assert("method"@.len() == 6);
    assert("jsonrpc"@.len() == 7);
    assert("params"@.len() == 6);
    assert("id"@.len() == 2);
    assert("method"@[0] != "params"@[0]);
    reveal_strlit("requestId");
    reveal_strlit("reason");
    assert("requestId"@.len() == 9);
    assert("reason"@.len() == 6);
}

/// A cancellation by a client of a request of the backend that it works on reaches the
/// backend as it is, once; one of anything else changes nothing and goes nowhere.
pub proof fn law_client_gives_up_a_request_of_the_backend(
    l: LifetimeView,
    b: BackendView,
    session: Option<u64>,
    id: JsonView,
    token: Option<JsonView>,
    raw: JsonView,
)
    requires
        opt_field(field(raw, "params"@), "requestId"@) == Some(id),
        !l.by_client.contains_key((session, identity(id))),
    ensures
        ({
            let cancelled = "notifications/cancelled"@;
            let asked = l.peer_admitted((session, id), token);
            let step = notification_step(asked, b, session, true, cancelled, raw);
            &&& step.action == ActionView::SendToBackend(raw)
            &&& step.backend == b
            &&& notification_step(step.lifetime, b, session, true, cancelled, raw).action
                == ActionView::Ignore
            &&& !l.peer_by_id.contains_key((session, identity(id))) ==> notification_step(
                l,
                b,
                session,
                true,
                cancelled,
                raw,
            ) == (ClientStep { lifetime: l, backend: b, action: ActionView::Ignore })
        }),
{
    lemma_notification_literals();
}

/// A message of a client is a request where it has a method and an id, a notification
/// where it has a method alone, and an answer where it has an id alone. A request
/// changes nothing here until it is carried out.
pub proof fn law_client_messages_by_their_fields(
    l: LifetimeView,
    b: BackendView,
    cache: CacheView,
    whole_lists: bool,
    session: Option<u64>,
    live: bool,
    raw: JsonView,
)
    ensures
        ({
            let step = client_step(l, b, cache, whole_lists, session, live, raw);
            match (str_of(field(raw, "method"@)), field(raw, "id"@)) {
                (Some(method), Some(id)) => step == (ClientStep {
                    lifetime: l,
                    backend: b,
                    action: request_plan(cache, whole_lists, id, method, raw),
                }),
                (Some(method), None) => step == notification_step(
                    l,
                    b,
                    session,
                    live,
                    method,
                    raw,
                ),
                (None, Some(_)) => step == response_step(l, b, session, live, raw),
                (None, None) => step == (ClientStep {
                    lifetime: l,
                    backend: b,
                    action: ActionView::Ignore,
                }),
            }
        }),
{
}

/// The code of an error answer.
pub open spec fn error_code(answer: JsonView) -> Option<JsonView> {
    opt_field(field(answer, "error"@), "code"@)
}

/// The message of an error answer.
pub open spec fn error_text(answer: JsonView) -> Option<Seq<char>> {
    str_of(opt_field(field(answer, "error"@), "message"@))
}

proof fn lemma_answer_fields()
    ensures
        "id"@ != "error"@ && "id"@ != "result"@ && "id"@ != "jsonrpc"@ && "error"@ != "result"@,
        "error"@ != "jsonrpc"@ && "result"@ != "jsonrpc"@,
        "code"@ != "message"@ && "code"@ != "data"@ && "message"@ != "data"@,
{
    reveal_strlit("id");
    reveal_strlit("error");
    reveal_strlit("result");
    reveal_strlit("jsonrpc");
    assert("id"@.len() == 2);
    assert("error"@.len() == 5);
    assert("result"@.len() == 6);
    assert("jsonrpc"@.len() == 7);
    reveal_strlit("code");
    reveal_strlit("message");
    reveal_strlit("data");
    assert("code"@.len() == 4);
    assert("message"@.len() == 7);
    assert("data"@.len() == 4);
    assert("code"@[0] != "data"@[0]);
}

/// A call of the proxy's own tool is carried out here, whatever tools the server has.
pub proof fn law_calls_of_the_own_tool_stay_here(
    cache: CacheView,
    whole_lists: bool,
    id: JsonView,
    raw: JsonView,
)
    requires
        field(raw, "method"@) == Some(JsonView::Str("tools/call"@)),
        opt_field(field(raw, "params"@), "name"@) == Some(JsonView::Str("mcp.wrapper"@)),
    ensures
        request_plan(cache, whole_lists, id, "tools/call"@, raw) == (ActionView::InvokeTool {
            id,
            raw,
        }),
{
}

/// A ping of a client is answered here, with nothing in the answer.
pub proof fn law_ping_is_answered_here(
    cache: CacheView,
    whole_lists: bool,
    id: JsonView,
    raw: JsonView,
)
    requires
        str_of(field(raw, "method"@)) == Some("ping"@),
    ensures
        request_plan(cache, whole_lists, id, "ping"@, raw) matches ActionView::Respond(answer) && {
            &&& field(answer, "id"@) == Some(id)
            &&& field(answer, "result"@) == Some(JsonView::Obj(Map::empty()))
            &&& field(answer, "error"@) is None
        },
{
    lemma_answer_fields();
    lemma_method_literals();
    reveal_strlit("ping");
    reveal_strlit("tools/call");
    assert("ping"@.len() == 4);
    assert("tools/call"@.len() == 10);
}

/// A control method is carried out here, and it is the one that the request names.
pub proof fn law_control_methods_stay_here(
    cache: CacheView,
    whole_lists: bool,
    id: JsonView,
    method: WrapperControlMethod,
    raw: JsonView,
)
    requires
        str_of(field(raw, "method"@)) == Some(crate::mcp_interface::control_method(method)),
    ensures
        request_plan(
            cache,
            whole_lists,
            id,
            crate::mcp_interface::control_method(method),
            raw,
        ) == (ActionView::Control { id, method, raw }),
{
    lemma_method_literals();
    reveal_strlit("tools/call");
    assert("tools/call"@.len() == 10);
}

/// What the cache holds is answered from it under the id of the request, what it does not
/// hold is an error; and where lists are served whole, asking for a page of one is an
/// error of the caller.
pub proof fn law_cached_answers(
    cache: CacheView,
    whole_lists: bool,
    key: McpDataKey,
    id: JsonView,
    raw: JsonView,
)
    requires
        str_of(field(raw, "method"@)) == Some(data_method(key)),
    ensures
        ({
            let paged = whole_lists && key != McpDataKey::Initialize && opt_field(
                field(raw, "params"@),
                "cursor"@,
            ) is Some && opt_field(field(raw, "params"@), "cursor"@) != Some(JsonView::Null);
            request_plan(cache, whole_lists, id, data_method(key), raw) matches ActionView::Respond(
                answer,
            ) && {
                &&& field(answer, "id"@) == Some(id)
                &&& paged ==> field(answer, "result"@) is None && error_code(answer) == Some(
                    JsonView::Num(NumberView::Int(-32602)),
                )
                &&& !paged && served(cache, key) is Some ==> field(answer, "result"@) == served(
                    cache,
                    key,
                ) && field(answer, "error"@) is None
                &&& !paged && served(cache, key) is None ==> field(answer, "result"@) is None
                    && error_code(answer) == Some(JsonView::Num(NumberView::Int(-32603)))
            }
        }),
{
    lemma_answer_fields();
    lemma_method_literals();
    law_data_method_routes_back(key);
    reveal_strlit("initialize");
    reveal_strlit("tools/list");
    reveal_strlit("prompts/list");
    reveal_strlit("resources/list");
    reveal_strlit("resources/templates/list");
    reveal_strlit("tools/call");
    assert("initialize"@.len() == 10);
    assert("tools/list"@.len() == 10);
    assert("prompts/list"@.len() == 12);
    assert("resources/list"@.len() == 14);
    assert("resources/templates/list"@.len() == 24);
    assert("tools/call"@.len() == 10);
    assert("initialize"@[0] != "tools/list"@[0]);
    assert("initialize"@[0] != "tools/call"@[0]);
    assert("tools/list"@[6] != "tools/call"@[6]);
}

/// Every other request is passed to the backend, under its id and as it is.
pub proof fn law_other_requests_are_passed_on(
    cache: CacheView,
    whole_lists: bool,
    id: JsonView,
    method: Seq<char>,
    raw: JsonView,
)
    requires
        str_of(field(raw, "method"@)) == Some(method),
        method != "tools/call"@ || str_of(opt_field(field(raw, "params"@), "name"@)) != Some(
            "mcp.wrapper"@,
        ),
        method != "ping"@,
        forall|key: McpDataKey| #[trigger] data_method(key) != method,
        forall|control: WrapperControlMethod| #[trigger]
            crate::mcp_interface::control_method(control) != method,
    ensures
        request_plan(cache, whole_lists, id, method, raw) == (ActionView::PassThrough { id, raw }),
{
    assert(data_method(McpDataKey::Initialize) != method);
    assert(data_method(McpDataKey::ToolsList) != method);
    assert(data_method(McpDataKey::PromptsList) != method);
    assert(data_method(McpDataKey::ResourcesList) != method);
    assert(data_method(McpDataKey::ResourceTemplatesList) != method);
    assert(crate::mcp_interface::control_method(WrapperControlMethod::BackendStatus) != method);
    assert(crate::mcp_interface::control_method(WrapperControlMethod::BackendRefresh) != method);
    assert(crate::mcp_interface::control_method(WrapperControlMethod::BackendRestart) != method);
    assert(crate::mcp_interface::control_method(WrapperControlMethod::BackendStop) != method);
    assert(crate::mcp_interface::control_method(WrapperControlMethod::BackendPing) != method);
}

/// A request that is passed on differs from what the client sent in its id alone, and
/// that is the next one at the backend. Until it ends, that id and its token lead to the
/// client's request.
pub proof fn law_forwarded_request_differs_in_its_id_alone(
    l: LifetimeView,
    b: BackendView,
    client_id: JsonView,
    raw: JsonView,
    other: Seq<char>,
)
    requires
        raw is Obj,
        other != "id"@,
    ensures
        ({
            let f = forward_step(l, b, client_id, raw);
            let key = (None::<u64>, client_id);
            &&& f.backend_id == JsonView::Num(NumberView::Int(b.next_id as int))
            &&& field(f.message, "id"@) == Some(f.backend_id)
            &&& field(f.message, other) == field(raw, other)
            &&& f.backend.pending == b.pending
            &&& f.backend.discarding == b.discarding
            &&& f.backend.stderr == b.stderr
            &&& f.backend.alive == b.alive
            &&& f.backend.server_info == b.server_info
            &&& b.next_id < u64::MAX ==> f.backend.next_id == b.next_id + 1
            &&& l.has_client(key) ==> f.lifetime == l
            &&& !l.has_client(key) ==> {
                &&& f.lifetime.has_client(key)
                &&& f.lifetime.client_row(key).backend_id == Some(f.backend_id)
                &&& f.lifetime.has_backend_id(f.backend_id)
                &&& f.lifetime.owner_of(f.backend_id) == key
                &&& f.lifetime.peer_by_id == l.peer_by_id
                &&& (opt_field(
                    opt_field(field(raw, "params"@), "_meta"@),
                    "progressToken"@,
                ) matches Some(token) ==> f.lifetime.has_token(token) && key_identity(
                    f.lifetime.client_by_token[identity(token)],
                ) == key_identity(key))
            }
        }),
{
    reveal_strlit("id");
    reveal_strlit("params");
    assert("id"@.len() == 2);
    assert("params"@.len() == 6);
}

/// Two requests that are passed on one after the other have different ids at the
/// backend.
pub proof fn law_forwarded_requests_have_their_own_ids(
    l: LifetimeView,
    b: BackendView,
    first: JsonView,
    first_raw: JsonView,
    second: JsonView,
    second_raw: JsonView,
)
    ensures
        ({
            let one = forward_step(l, b, first, first_raw);
            let two = forward_step(one.lifetime, one.backend, second, second_raw);
            one.backend_id != two.backend_id
        }),
{
}

/// A request without an answer in time ends with an error that says so. One whose
/// backend failed ends with that failure and the end of the backend, and where details
/// are shown the end of its error output is in the message; one that was cancelled ends
/// in silence.
pub proof fn law_failed_requests_are_answered(
    b: BackendView,
    client_id: JsonView,
    backend_id: JsonView,
    failure: RequestFailure,
    detailed: bool,
)
    ensures
        ({
            let end = pass_through_end(b, client_id, backend_id, Err(failure), detailed);
            &&& failure is TimedOut ==> (end matches EndView::Respond(answer) && {
                &&& field(answer, "id"@) == Some(client_id)
                &&& field(answer, "result"@) is None
                &&& error_code(answer) == Some(JsonView::Num(NumberView::Int(-32603)))
                &&& error_text(answer) == Some("request timed out"@)
            })
            &&& !(failure is TimedOut) && b.discarding.contains_key(identity(backend_id)) ==> end
                == EndView::Silent
            &&& !(failure is TimedOut) && !b.discarding.contains_key(identity(backend_id)) ==> (end
                matches EndView::RespondAndDropBackend(answer) && {
                &&& field(answer, "id"@) == Some(client_id)
                &&& field(answer, "result"@) is None
                &&& error_code(answer) == Some(JsonView::Num(NumberView::Int(-32603)))
                &&& error_text(answer) matches Some(text) && {
                    &&& failure.text().is_prefix_of(text)
                    &&& !detailed || b.stderr.len() == 0 ==> text == failure.text()
                    &&& detailed && b.stderr.len() > 0 ==> trimmed(b.stderr).is_suffix_of(text)
                        && text.len() > failure.text().len() + trimmed(b.stderr).len()
                }
            })
            &&& failure is Closed ==> failure.text() == "backend closed before response"@
            &&& failure is MissingId ==> failure.text() == "request missing id"@
            &&& (failure matches RequestFailure::Io(why) ==> failure.text() == why@)
        }),
{
    lemma_answer_fields();
    reveal_strlit("\nstderr: ");
    let text = failure_detail(failure.text(), b.stderr);
    assert(text.subrange(0, failure.text().len() as int) =~= failure.text());
    if b.stderr.len() > 0 {
        let tail = trimmed(b.stderr);
        assert(text.subrange(text.len() - tail.len(), text.len() as int) =~= tail);
    }
}

/// Where no backend can be had, a request ends with an error that says why; where there
/// is one, the request is sent, and the lists are read again first exactly where the
/// backend replaced another one.
pub proof fn law_requests_need_a_backend(client_id: JsonView, why: String, replaced: bool)
    ensures
        call_step(client_id, Err(why), true) matches CallStepView::End(answer) && field(
            answer,
            "id"@,
        ) == Some(client_id) && error_text(answer) == Some(why@) && error_code(answer) == Some(
            JsonView::Num(NumberView::Int(-32603)),
        ),
        call_step(client_id, Err(why), false) == call_step(client_id, Err(why), true),
        call_step(client_id, Ok(replaced), false) matches CallStepView::End(answer) && field(
            answer,
            "id"@,
        ) == Some(client_id) && error_text(answer) == Some("backend unavailable"@) && error_code(
            answer,
        ) == Some(JsonView::Num(NumberView::Int(-32603))),
        call_step(client_id, Ok(true), true) == CallStepView::RefreshThenSend,
        call_step(client_id, Ok(false), true) == CallStepView::Send,
{
    lemma_answer_fields();
}

/// A backend is idle once nothing has happened for a minute and no call is under way.
pub proof fn law_idle_after_a_minute(now_ms: u64, last_ms: u64, calls: usize, idle: bool)
    requires
        call_ensures(is_idle, (now_ms, last_ms, calls), idle),
    ensures
        calls > 0 ==> !idle,
        calls == 0 ==> idle == (now_ms >= last_ms + 60_000),
{
}

/// The loop ends once the client has closed its side and nothing is left to do.
pub proof fn law_loop_ends_once_drained(closed: bool, calls: usize, empty: bool, done: bool)
    requires
        call_ensures(is_drained, (closed, calls, empty), done),
    ensures
        done ==> closed && calls == 0 && empty,
        closed && calls == 0 && empty ==> done,
{
}

/// A request that was passed on and has ended is forgotten: its id, its id at the
/// backend and its token lead nowhere, and the same id may be used again. An answer
/// comes back as it is but for the id, which is the client's.
pub proof fn law_ended_request_is_forgotten(
    l: LifetimeView,
    b: BackendView,
    client_id: JsonView,
    raw: JsonView,
    answer: Json,
    other: Seq<char>,
)
    requires
        l.indexes_live_rows(),
        !l.has_client((None, client_id)),
        raw is Obj,
        answer@ is Obj,
        other != "id"@,
    ensures
        ({
            let f = forward_step(l, b, client_id, raw);
            let (after, end) = finish_step(
                f.lifetime,
                f.backend,
                client_id,
                f.backend_id,
                Ok(answer),
            );
            &&& end matches EndView::Respond(told) && field(told, "id"@) == Some(client_id)
                && field(told, other) == field(answer@, other)
            &&& !after.has_client((None, client_id))
            &&& !after.has_backend_id(f.backend_id)
            &&& (opt_field(
                opt_field(field(raw, "params"@), "_meta"@),
                "progressToken"@,
            ) matches Some(token) ==> !after.has_token(token))
            &&& after.peer_by_id == l.peer_by_id
        }),
{
    reveal_strlit("id");
    reveal_strlit("params");
    assert("id"@.len() == 2);
    assert("params"@.len() == 6);
}

/// A request whose backend failed is over, and its client is shown the failure and the
/// error output of the backend.
pub proof fn law_finished_request_shows_details(
    l: LifetimeView,
    b: BackendView,
    client_id: JsonView,
    backend_id: JsonView,
    why: String,
)
    requires
        !b.discarding.contains_key(identity(backend_id)),
        b.stderr.len() > 0,
    ensures
        ({
            let (after, end) = finish_step(
                l,
                b,
                client_id,
                backend_id,
                Err(RequestFailure::Io(why)),
            );
            &&& !after.has_client((None, client_id))
            &&& end matches EndView::RespondAndDropBackend(answer) && error_text(
                answer,
            ) matches Some(text) && why@.is_prefix_of(text) && trimmed(b.stderr).is_suffix_of(text)
        }),
{
    law_failed_requests_are_answered(b, client_id, backend_id, RequestFailure::Io(why), true);
}

// ── The same, of the functions that callers use ─────────────────────

/// A notification of the backend that is neither progress nor a cancellation and changes
/// no list goes to the client as it is, and nothing else happens.
pub proof fn law_handled_notifications_reach_the_client(
    l: &mut RequestLifetime,
    b: &mut Backend,
    occupied: bool,
    n: Json,
    action: EventAction,
)
    requires
        call_ensures(on_backend_event, (l, b, occupied, BackendEvent::Notification(n)), action),
        str_of(field(n@, "method"@)) != Some("notifications/progress"@),
        str_of(field(n@, "method"@)) != Some("notifications/cancelled"@),
        str_of(field(n@, "method"@)) != Some("notifications/tools/list_changed"@),
        str_of(field(n@, "method"@)) != Some("notifications/prompts/list_changed"@),
        str_of(field(n@, "method"@)) != Some("notifications/resources/list_changed"@),
    ensures
        action@ == EventActionView::ToClient(n@),
        final(l)@ == old(l)@,
        final(b)@ == old(b)@,
{
    law_other_notifications_reach_the_client(old(l)@, old(b)@, occupied, n);
}

/// Events of the backend, and what is said by a client, are handled step by step as laid
/// down, whatever they are.
pub proof fn law_events_are_handled_by_their_steps(
    l: &mut RequestLifetime,
    b: &mut Backend,
    occupied: bool,
    event: BackendEvent,
    action: EventAction,
)
    requires
        call_ensures(on_backend_event, (l, b, occupied, event), action),
    ensures
        event_step(old(l)@, old(b)@, occupied, event) == (EventStep {
            lifetime: final(l)@,
            backend: final(b)@,
            action: action@,
        }),
{
}

/// A request of a client is answered, carried out or passed on by its method alone; it
/// changes nothing here until it is carried out.
pub proof fn law_handled_requests(
    l: &mut RequestLifetime,
    b: &mut Backend,
    cache: &Cache,
    whole_lists: bool,
    session: Option<u64>,
    live: bool,
    raw: Json,
    action: ClientAction,
    id: JsonView,
    method: Seq<char>,
    planned: ClientAction,
    name: &str,
    given: Json,
)
    requires
        call_ensures(on_client_message, (l, b, cache, whole_lists, session, live, raw), action),
        call_ensures(handle_request, (cache, whole_lists, given, name, raw), planned),
        field(raw@, "method"@) == Some(JsonView::Str(method)),
        field(raw@, "id"@) == Some(id),
        name@ == method,
        given@ == id,
    ensures
        final(l)@ == old(l)@,
        final(b)@ == old(b)@,
        action@ == planned@,
        action@ == request_plan(cache@, whole_lists, id, method, raw@),
{
}

/// A notification or an answer of a client is handled as such, whichever way it comes in.
pub proof fn law_handled_notifications_and_answers(
    l: &mut RequestLifetime,
    b: &mut Backend,
    cache: &Cache,
    whole_lists: bool,
    session: Option<u64>,
    live: bool,
    raw: Json,
    action: ClientAction,
)
    requires
        call_ensures(on_client_message, (l, b, cache, whole_lists, session, live, raw), action),
        str_of(field(raw@, "method"@)) is None || field(raw@, "id"@) is None,
    ensures
        ({
            let step = ClientStep {
                lifetime: final(l)@,
                backend: final(b)@,
                action: action@,
            };
            match (str_of(field(raw@, "method"@)), field(raw@, "id"@)) {
                (Some(method), _) => step == notification_step(
                    old(l)@,
                    old(b)@,
                    session,
                    live,
                    method,
                    raw@,
                ),
                (None, Some(_)) => step == response_step(old(l)@, old(b)@, session, live, raw@),
                (None, None) => action@ == ActionView::Ignore && final(l)@ == old(l)@ && final(
                    b)@ == old(b)@,
            }
        }),
{
    law_client_messages_by_their_fields(
        old(l)@,
        old(b)@,
        cache@,
        whole_lists,
        session,
        live,
        raw@,
    );
}

/// A notification of a client to a live backend, other than those that are about requests
/// and the end of the handshake, is sent as it is, and nothing else happens.
pub proof fn law_handled_client_notifications(
    l: &mut RequestLifetime,
    b: &mut Backend,
    session: Option<u64>,
    method: &str,
    raw: Json,
    action: ClientAction,
)
    requires
        call_ensures(on_client_notification, (l, b, session, true, method, raw), action),
        method@.len() > 0,
        method@ != "notifications/initialized"@,
        method@ != "notifications/cancelled"@,
        method@ != "notifications/progress"@,
    ensures
        action@ == ActionView::SendToBackend(raw@),
        final(l)@ == old(l)@,
        final(b)@ == old(b)@,
{
    law_client_notifications_reach_the_backend(
        old(l)@,
        old(b)@,
        session,
        true,
        method@,
        raw@,
    );
}

/// An answer of a client goes to a live backend exactly where the client works on that
/// request, and ends it.
pub proof fn law_handled_client_answers(
    l: &mut RequestLifetime,
    session: Option<u64>,
    live: bool,
    raw: Json,
    action: ClientAction,
)
    requires
        call_ensures(on_client_response, (l, session, live, raw), action),
    ensures
        ({
            let known = field(raw@, "id"@) matches Some(id) && old(l)@.peer_by_id.contains_key(
                (session, identity(id)),
            );
            &&& known && live ==> action@ == ActionView::SendToBackend(raw@)
            &&& !(known && live) ==> action@ == ActionView::Ignore
            &&& !known ==> final(l)@ == old(l)@
            &&& known ==> !final(l)@.has_peer((session, field(raw@, "id"@)->0))
            &&& final(l)@.by_client == old(l)@.by_client
        }),
{
}

/// An answer from the cache is what is served under the id of the request, and an error
/// where nothing is.
pub proof fn law_answers_from_the_cache(cache: &Cache, key: &McpDataKey, id: Json, j: Json)
    requires
        call_ensures(answer_from_cache, (cache, key, id), j),
    ensures
        field(j@, "id"@) == Some(id@),
        (served(cache@, *key) matches Some(result) ==> field(j@, "result"@) == Some(result)
            && field(j@, "error"@) is None),
        served(cache@, *key) is None ==> field(j@, "result"@) is None && error_code(j@) == Some(
            JsonView::Num(NumberView::Int(-32603)),
        ),
{
    lemma_answer_fields();
}

/// A request that is passed on differs from what the client sent in its id alone, and is
/// under way until it ends; two that follow one another have different ids.
pub proof fn law_forwarding_changes_the_id_alone(
    l: &mut RequestLifetime,
    b: &mut Backend,
    client_id: &Json,
    raw: Json,
    f: Forwarded,
    other: Seq<char>,
)
    requires
        call_ensures(forward_request, (l, b, client_id, raw), f),
        raw@ is Obj,
        other != "id"@,
    ensures
        f.backend_id@ == JsonView::Num(NumberView::Int(old(b)@.next_id as int)),
        field(f.message@, "id"@) == Some(f.backend_id@),
        field(f.message@, other) == field(raw@, other),
        final(b)@.next_id != old(b)@.next_id,
        final(b)@.pending == old(b)@.pending,
        final(l)@.has_client((None, client_id@)),
        !old(l)@.has_client((None, client_id@)) ==> final(l)@.has_backend_id(f.backend_id@)
            && final(l)@.owner_of(f.backend_id@) == (None::<u64>, client_id@),
{
    law_forwarded_request_differs_in_its_id_alone(
        old(l)@,
        old(b)@,
        client_id@,
        raw@,
        other,
    );
}

/// A request that ends is over; it ends with the answer of the backend under the client's
/// id, or as its failure demands.
pub proof fn law_finishing_ends_the_request(
    l: &mut RequestLifetime,
    b: &Backend,
    client_id: Json,
    backend_id: &Json,
    result: Result<Json, RequestFailure>,
    end: PassThroughEnd,
    detailed: bool,
    plain: PassThroughEnd,
    other: Seq<char>,
)
    requires
        call_ensures(finish_request, (l, b, client_id, backend_id, result), end),
        call_ensures(end_of_request, (b, client_id, backend_id, result, detailed), plain),
        other != "id"@,
    ensures
        !final(l)@.has_client((None, client_id@)),
        end@ == pass_through_end(b@, client_id@, backend_id@, result, true),
        plain@ == pass_through_end(b@, client_id@, backend_id@, result, detailed),
        (result matches Ok(answer) ==> end@ matches EndView::Respond(told) && field(told, "id"@)
            == Some(client_id@) && (answer@ is Obj ==> field(told, other) == field(
            answer@,
            other,
        ))),
{
}

/// Where no backend can be had a request ends with an error that says why, and else it is
/// sent.
pub proof fn law_asking_for_a_backend(
    client_id: &Json,
    why: String,
    replaced: bool,
    without: CallStep,
    gone: CallStep,
    with: CallStep,
)
    requires
        call_ensures(after_ensure, (client_id, Err(why), true), without),
        call_ensures(after_ensure, (client_id, Ok(replaced), false), gone),
        call_ensures(after_ensure, (client_id, Ok(replaced), true), with),
    ensures
        without@ matches CallStepView::End(answer) && field(answer, "id"@) == Some(client_id@)
            && error_text(answer) == Some(why@),
        gone@ matches CallStepView::End(answer) && field(answer, "id"@) == Some(client_id@)
            && error_text(answer) == Some("backend unavailable"@),
        with@ == if replaced {
            CallStepView::RefreshThenSend
        } else {
            CallStepView::Send
        },
{
    law_requests_need_a_backend(client_id@, why, replaced);
}

} // verus!
