//! Requests that are under way: who owns them, which id they have at the backend,
//! and which progress tokens are live.

use vstd::prelude::*;

use crate::backend_manager::{
    cancel_notice, given_up, waiter_of, Backend, BackendView, CancelledCall,
};
use crate::json::{
    field, identity, lemma_identity_kind, opt_field, opt_view, str_of, with_field, Json, JsonView,
    NumberView,
};
use crate::table::{distinct_keys, lemma_row_counts, lemma_row_of_key, rows_map, Table, TableKey};
use crate::transport::{copied, field_text, subfield};

verus! {

/// An id or token together with the session it belongs to.
#[derive(Debug)]
pub struct OwnedKey {
    pub session_id: Option<u64>,
    pub raw: Json,
}

impl View for OwnedKey {
    type V = (Option<u64>, JsonView);

    open spec fn view(&self) -> (Option<u64>, JsonView) {
        (self.session_id, self.raw@)
    }
}

impl TableKey for OwnedKey {
    type Key = KeyView;

    open spec fn key(&self) -> KeyView {
        key_identity(self@)
    }

    fn same_key(&self, other: &OwnedKey) -> (same: bool) {
        let same_session = match (self.session_id, other.session_id) {
            (Some(a), Some(b)) => a == b,
            (None, None) => true,
            _ => false,
        };
        same_session && self.raw.same(&other.raw)
    }

    fn copy_key(&self) -> (copy: OwnedKey) {
        OwnedKey { session_id: self.session_id, raw: self.raw.copy() }
    }
}

/// A request of a client that is under way.
#[derive(Debug)]
pub struct ActiveRequest {
    pub backend_id: Option<Json>,
    pub progress_token: Option<Json>,
}

/// The value of an `ActiveRequest`.
#[verifier::ext_equal]
pub struct ActiveView {
    pub backend_id: Option<JsonView>,
    pub progress_token: Option<JsonView>,
}

impl View for ActiveRequest {
    type V = ActiveView;

    open spec fn view(&self) -> ActiveView {
        ActiveView {
            backend_id: opt_view(self.backend_id),
            progress_token: opt_view(self.progress_token),
        }
    }
}

/// A request of the backend that a client works on.
#[derive(Debug)]
pub struct PeerRequest {
    pub progress_token: Option<Json>,
}

impl View for PeerRequest {
    type V = Option<JsonView>;

    open spec fn view(&self) -> Option<JsonView> {
        opt_view(self.progress_token)
    }
}

/// A notification of the backend in the terms of the client it is for.
#[derive(Debug)]
pub struct TranslatedNotification {
    pub session_id: Option<u64>,
    pub message: Json,
}

/// What a cancellation by a client led to.
#[derive(Debug)]
pub struct CancelOutcome {
    /// Whether the cancellation was for a request of that client.
    pub accepted: bool,
    /// The call at the backend that was cancelled with it.
    pub call: Option<CancelledCall>,
}

/// What a cancellation by the backend led to.
#[derive(Debug)]
pub struct BackendCancelOutcome {
    /// The notification for the client, if the request was known.
    pub translated: Option<TranslatedNotification>,
    /// Who waited for the answer and waits no more.
    pub waiter: Option<u64>,
}

/// The requests under way, in both directions.
pub struct RequestLifetime {
    by_client: Table<OwnedKey, ActiveRequest>,
    client_by_backend: Table<Json, OwnedKey>,
    client_by_progress_token: Table<Json, OwnedKey>,
    peer_by_id: Table<OwnedKey, PeerRequest>,
    peer_by_progress_token: Table<OwnedKey, OwnedKey>,
}

pub type KeyView = (Option<u64>, JsonView);

/// What an id or token of a session is told apart by.
pub open spec fn key_identity(key: KeyView) -> KeyView {
    (key.0, identity(key.1))
}

/// What an id or token, if there is one, is told apart by.
pub open spec fn identity_of(v: Option<JsonView>) -> Option<JsonView> {
    match v {
        Some(v) => Some(identity(v)),
        None => None,
    }
}

/// The value of a `RequestLifetime`. Ids and tokens are told apart by their identity;
/// the rows and the owners hold them as they were given.
#[verifier::ext_equal]
pub struct LifetimeView {
    pub by_client: Map<KeyView, ActiveView>,
    pub client_by_backend: Map<JsonView, KeyView>,
    pub client_by_token: Map<JsonView, KeyView>,
    pub peer_by_id: Map<KeyView, Option<JsonView>>,
    pub peer_by_token: Map<KeyView, KeyView>,
}

impl View for RequestLifetime {
    type V = LifetimeView;

    closed spec fn view(&self) -> LifetimeView {
        LifetimeView {
            by_client: self.by_client@,
            client_by_backend: self.client_by_backend@,
            client_by_token: self.client_by_progress_token@,
            peer_by_id: self.peer_by_id@,
            peer_by_token: self.peer_by_progress_token@,
        }
    }
}

pub open spec fn no_requests() -> LifetimeView {
    LifetimeView {
        by_client: Map::empty(),
        client_by_backend: Map::empty(),
        client_by_token: Map::empty(),
        peer_by_id: Map::empty(),
        peer_by_token: Map::empty(),
    }
}

impl LifetimeView {
    /// Every index entry points to the row it was made for.
    pub open spec fn indexes_live_rows(self) -> bool {
        &&& forall|b: JsonView| #[trigger]
            self.client_by_backend.contains_key(b) ==> {
                let key = key_identity(self.client_by_backend[b]);
                &&& self.by_client.contains_key(key)
                &&& identity_of(self.by_client[key].backend_id) == Some(b)
            }
        &&& forall|t: JsonView| #[trigger]
            self.client_by_token.contains_key(t) ==> {
                let key = key_identity(self.client_by_token[t]);
                &&& self.by_client.contains_key(key)
                &&& identity_of(self.by_client[key].progress_token) == Some(t)
            }
        &&& forall|pt: KeyView| #[trigger]
            self.peer_by_token.contains_key(pt) ==> {
                let key = key_identity(self.peer_by_token[pt]);
                &&& self.peer_by_id.contains_key(key)
                &&& identity_of(self.peer_by_id[key]) == Some(pt.1)
                &&& key.0 == pt.0
            }
    }

    /// Whether a request of a client is under way.
    pub open spec fn has_client(self, key: KeyView) -> bool {
        self.by_client.contains_key(key_identity(key))
    }

    /// The row of a request of a client.
    pub open spec fn client_row(self, key: KeyView) -> ActiveView {
        self.by_client[key_identity(key)]
    }

    /// Whether a client works on a request of the backend.
    pub open spec fn has_peer(self, key: KeyView) -> bool {
        self.peer_by_id.contains_key(key_identity(key))
    }

    /// Whether an id at the backend is bound.
    pub open spec fn has_backend_id(self, backend_id: JsonView) -> bool {
        self.client_by_backend.contains_key(identity(backend_id))
    }

    /// The request that an id at the backend is bound to.
    pub open spec fn owner_of(self, backend_id: JsonView) -> KeyView {
        self.client_by_backend[identity(backend_id)]
    }

    /// Whether a token of a client is live.
    pub open spec fn has_token(self, token: JsonView) -> bool {
        self.client_by_token.contains_key(identity(token))
    }

    /// A request of a client is taken up, unless one with its id is under way.
    pub open spec fn admitted(self, key: KeyView, token: Option<JsonView>) -> LifetimeView {
        if self.has_client(key) {
            self
        } else {
            LifetimeView {
                by_client: self.by_client.insert(
                    key_identity(key),
                    ActiveView { backend_id: None, progress_token: token },
                ),
                ..self
            }
        }
    }

    /// A request gets its id at the backend; from then on its token is live.
    pub open spec fn bound(self, key: KeyView, backend_id: JsonView) -> LifetimeView {
        if !self.has_client(key) {
            self
        } else {
            let row = self.client_row(key);
            let freed = match row.backend_id {
                Some(previous) => self.client_by_backend.remove(identity(previous)),
                None => self.client_by_backend,
            };
            LifetimeView {
                by_client: self.by_client.insert(
                    key_identity(key),
                    ActiveView { backend_id: Some(backend_id), ..row },
                ),
                client_by_backend: freed.insert(identity(backend_id), key),
                client_by_token: match row.progress_token {
                    Some(token) => self.client_by_token.insert(identity(token), key),
                    None => self.client_by_token,
                },
                ..self
            }
        }
    }

    /// The tokens without the one of a request, where it is still the owner.
    pub open spec fn tokens_without(self, key: KeyView, token: Option<JsonView>) -> Map<
        JsonView,
        KeyView,
    > {
        match token {
            Some(t) => if self.has_token(t) && key_identity(self.client_by_token[identity(t)])
                == key_identity(key) {
                self.client_by_token.remove(identity(t))
            } else {
                self.client_by_token
            },
            None => self.client_by_token,
        }
    }

    /// A request is over: its row and its index entries go.
    pub open spec fn released(self, key: KeyView) -> LifetimeView {
        if !self.has_client(key) {
            self
        } else {
            let row = self.client_row(key);
            LifetimeView {
                by_client: self.by_client.remove(key_identity(key)),
                client_by_backend: match row.backend_id {
                    Some(b) => self.client_by_backend.remove(identity(b)),
                    None => self.client_by_backend,
                },
                client_by_token: self.tokens_without(key, row.progress_token),
                ..self
            }
        }
    }

    /// The backend cancels the request with its id `backend_id`.
    pub open spec fn cancelled_by_backend(self, backend_id: JsonView) -> LifetimeView {
        if !self.has_backend_id(backend_id) {
            self
        } else {
            let key = self.owner_of(backend_id);
            LifetimeView {
                by_client: self.by_client.remove(key_identity(key)),
                client_by_backend: self.client_by_backend.remove(identity(backend_id)),
                client_by_token: if self.has_client(key) {
                    self.tokens_without(key, self.client_row(key).progress_token)
                } else {
                    self.client_by_token
                },
                ..self
            }
        }
    }

    /// A request of the backend is no longer worked on.
    pub open spec fn peer_released(self, key: KeyView) -> LifetimeView {
        if !self.has_peer(key) {
            self
        } else {
            LifetimeView {
                peer_by_id: self.peer_by_id.remove(key_identity(key)),
                peer_by_token: match self.peer_by_id[key_identity(key)] {
                    Some(t) => self.peer_by_token.remove(key_identity((key.0, t))),
                    None => self.peer_by_token,
                },
                ..self
            }
        }
    }

    /// A client takes up a request of the backend; one with the same id gives way.
    pub open spec fn peer_admitted(self, key: KeyView, token: Option<JsonView>) -> LifetimeView {
        let freed = self.peer_released(key);
        LifetimeView {
            peer_by_id: freed.peer_by_id.insert(key_identity(key), token),
            peer_by_token: match token {
                Some(t) => freed.peer_by_token.insert(key_identity((key.0, t)), key),
                None => freed.peer_by_token,
            },
            ..self
        }
    }
}

/// The id in the params of a cancellation.
pub open spec fn cancelled_id(raw: JsonView) -> Option<JsonView> {
    opt_field(field(raw, "params"@), "requestId"@)
}

/// The token in the params of a progress notification.
pub open spec fn progressed_token(raw: JsonView) -> Option<JsonView> {
    opt_field(field(raw, "params"@), "progressToken"@)
}

/// The token that a request asks progress for.
pub open spec fn requested_token(raw: JsonView) -> Option<JsonView> {
    opt_field(opt_field(field(raw, "params"@), "_meta"@), "progressToken"@)
}

/// The reason that a cancellation gives.
pub open spec fn cancel_reason(raw: JsonView) -> Seq<char> {
    match str_of(opt_field(field(raw, "params"@), "reason"@)) {
        Some(reason) => reason,
        None => "request cancelled"@,
    }
}

/// A cancellation with another request id in it.
pub open spec fn translated_cancel(raw: JsonView, client_id: JsonView) -> Option<JsonView> {
    match field(raw, "params"@) {
        Some(JsonView::Obj(params)) => Some(
            with_field(raw, "params"@, JsonView::Obj(params.insert("requestId"@, client_id))),
        ),
        _ => None,
    }
}

/// The id in the params of a cancellation.
pub fn notification_request_id(raw: &Json) -> (id: Option<Json>)
    ensures
        opt_view(id) == cancelled_id(raw@),
{
    copied(subfield(raw.get("params"), "requestId"))
}

/// A cancellation with another request id in it; `None` where the params are no
/// object.
pub fn translate_cancel_message(raw: &Json, client_id: Json) -> (message: Option<Json>)
    ensures
        opt_view(message) == translated_cancel(raw@, client_id@),
{
    match raw.get("params") {
        Some(params) => {
            if !params.is_object() {
                return None;
            }
            let mut params = params.copy();
            params.set("requestId", client_id);
            let mut message = raw.copy();
            message.set("params", params);
            Some(message)
        },
        None => None,
    }
}

/// The token in the params of a progress notification.
pub fn notification_progress_token(raw: &Json) -> (token: Option<Json>)
    ensures
        opt_view(token) == progressed_token(raw@),
{
    copied(subfield(raw.get("params"), "progressToken"))
}

fn progress_token_from_request(raw: &Json) -> (token: Option<Json>)
    ensures
        opt_view(token) == requested_token(raw@),
{
    copied(subfield(subfield(raw.get("params"), "_meta"), "progressToken"))
}

/// The session that all bound requests with a session share, if there is exactly
/// one such session.
pub open spec fn unique_session(by_client: Map<KeyView, ActiveView>, session: u64) -> bool {
    &&& exists|key: KeyView|
        by_client.contains_key(key) && key.0 == Some(session) && (
        #[trigger] by_client[key]).backend_id is Some
    &&& forall|key: KeyView|
        by_client.contains_key(key) && key.0 is Some && (
        #[trigger] by_client[key]).backend_id is Some ==> key.0 == Some(session)
}

impl RequestLifetime {
    pub fn new() -> (l: RequestLifetime)
        ensures
            l@ == no_requests(),
            l@.indexes_live_rows(),
    {
        RequestLifetime {
            by_client: Table::new(),
            client_by_backend: Table::new(),
            client_by_progress_token: Table::new(),
            peer_by_id: Table::new(),
            peer_by_progress_token: Table::new(),
        }
    }

    /// Takes up and binds a request of the one client there is.
    pub fn insert(&mut self, client_id: Json, backend_id: Json, request: &Json)
        requires
            old(self)@.indexes_live_rows(),
        ensures
            final(self)@.indexes_live_rows(),
            ({
                let key = (None::<u64>, client_id@);
                final(self)@ == if old(self)@.has_client(key) {
                    old(self)@
                } else {
                    old(self)@.admitted(key, requested_token(request@)).bound(key, backend_id@)
                }
            }),
    {
        self.insert_with_session(None, client_id, backend_id, request);
    }

    /// Takes up a request and binds it to its id at the backend, unless a request
    /// with its id is under way in that session.
    pub fn insert_with_session(
        &mut self,
        session_id: Option<u64>,
        client_id: Json,
        backend_id: Json,
        request: &Json,
    )
        requires
            old(self)@.indexes_live_rows(),
        ensures
            final(self)@.indexes_live_rows(),
            ({
                let key = (session_id, client_id@);
                final(self)@ == if old(self)@.has_client(key) {
                    old(self)@
                } else {
                    old(self)@.admitted(key, requested_token(request@)).bound(key, backend_id@)
                }
            }),
    {
        if self.admit_with_session(session_id, client_id.copy(), request) {
            self.bind_backend(session_id, &client_id, backend_id);
        }
    }

    /// Takes up a request; `false` where one with its id is under way.
    pub fn admit_with_session(
        &mut self,
        session_id: Option<u64>,
        client_id: Json,
        request: &Json,
    ) -> (admitted: bool)
        requires
            old(self)@.indexes_live_rows(),
        ensures
            final(self)@.indexes_live_rows(),
            admitted == !old(self)@.has_client((session_id, client_id@)),
            final(self)@ == old(self)@.admitted(
                (session_id, client_id@),
                requested_token(request@),
            ),
    {
        let key = OwnedKey { session_id, raw: client_id };
        if self.by_client.contains(&key) {
            return false;
        }
        let progress_token = progress_token_from_request(request);
        self.by_client.insert(key, ActiveRequest { backend_id: None, progress_token });
        true
    }

    /// Binds a request to its id at the backend.
    pub fn bind_backend(&mut self, session_id: Option<u64>, client_id: &Json, backend_id: Json)
        requires
            old(self)@.indexes_live_rows(),
        ensures
            final(self)@.indexes_live_rows(),
            final(self)@ == old(self)@.bound((session_id, client_id@), backend_id@),
    {
        let key = OwnedKey { session_id, raw: client_id.copy() };
        let (previous, token) = match self.by_client.get(&key) {
            Some(active) => (
                copied(active.backend_id.as_ref()),
                copied(active.progress_token.as_ref()),
            ),
            None => {
                return ;
            },
        };
        if let Some(previous) = &previous {
            self.client_by_backend.remove(previous);
        }
        self.client_by_backend.insert(backend_id.copy(), key.copy_key());
        if let Some(token) = &token {
            self.client_by_progress_token.insert(token.copy(), key.copy_key());
        }
        self.by_client.insert(
            key,
            ActiveRequest { backend_id: Some(backend_id), progress_token: token },
        );
    }

    /// The request of the one client there is, is over.
    pub fn remove_client(&mut self, client_id: &Json)
        requires
            old(self)@.indexes_live_rows(),
        ensures
            final(self)@.indexes_live_rows(),
            final(self)@ == old(self)@.released((None, client_id@)),
    {
        self.release(None, client_id);
    }

    /// A request of a session is over.
    pub fn remove_client_for_session(&mut self, session_id: u64, client_id: &Json)
        requires
            old(self)@.indexes_live_rows(),
        ensures
            final(self)@.indexes_live_rows(),
            final(self)@ == old(self)@.released((Some(session_id), client_id@)),
    {
        self.release(Some(session_id), client_id);
    }

    /// Takes a request out. Returns its row.
    fn release(&mut self, session_id: Option<u64>, client_id: &Json) -> (row: Option<ActiveRequest>)
        requires
            old(self)@.indexes_live_rows(),
        ensures
            final(self)@.indexes_live_rows(),
            final(self)@ == old(self)@.released((session_id, client_id@)),
            match row {
                Some(row) => {
                    &&& old(self)@.has_client((session_id, client_id@))
                    &&& old(self)@.client_row((session_id, client_id@)) == row@
                },
                None => !old(self)@.has_client((session_id, client_id@)),
            },
    {
        let key = OwnedKey { session_id, raw: client_id.copy() };
        match self.by_client.remove(&key) {
            Some(row) => {
                if let Some(backend_id) = &row.backend_id {
                    self.client_by_backend.remove(backend_id);
                }
                self.release_token(&key, &row.progress_token);
                Some(row)
            },
            None => {
                assert(self@.by_client =~= old(self)@.by_client);
                None
            },
        }
    }

    /// Ends the life of a token, where the request is still its owner.
    fn release_token(&mut self, key: &OwnedKey, token: &Option<Json>)
        ensures
            final(self)@ == (LifetimeView {
                client_by_token: old(self)@.tokens_without(key@, opt_view(*token)),
                ..old(self)@
            }),
    {
        if let Some(token) = token {
            let owned = match self.client_by_progress_token.get(token) {
                Some(owner) => owner.same_key(key),
                None => false,
            };
            if owned {
                self.client_by_progress_token.remove(token);
            }
        }
    }

    /// A request of the one client there is timed out.
    pub fn timeout_client(&mut self, client_id: &Json)
        requires
            old(self)@.indexes_live_rows(),
        ensures
            final(self)@.indexes_live_rows(),
            final(self)@ == old(self)@.released((None, client_id@)),
    {
        self.remove_client(client_id);
    }

    /// A request of a session timed out.
    pub fn timeout_client_for_session(&mut self, session_id: u64, client_id: &Json)
        requires
            old(self)@.indexes_live_rows(),
        ensures
            final(self)@.indexes_live_rows(),
            final(self)@ == old(self)@.released((Some(session_id), client_id@)),
    {
        self.remove_client_for_session(session_id, client_id);
    }

    /// A client takes up a request of the backend. A message without an id is no
    /// request.
    pub fn insert_peer_request(&mut self, session_id: Option<u64>, request: &Json)
        requires
            old(self)@.indexes_live_rows(),
        ensures
            final(self)@.indexes_live_rows(),
            final(self)@ == (match field(request@, "id"@) {
                Some(id) => old(self)@.peer_admitted((session_id, id), requested_token(request@)),
                None => old(self)@,
            }),
    {
        let id = match request.get("id") {
            Some(id) => id.copy(),
            None => {
                return ;
            },
        };
        let progress_token = progress_token_from_request(request);
        let key = OwnedKey { session_id, raw: id };
        self.release_peer(&key);
        if let Some(token) = &progress_token {
            self.peer_by_progress_token.insert(
                OwnedKey { session_id, raw: token.copy() },
                key.copy_key(),
            );
        }
        self.peer_by_id.insert(key, PeerRequest { progress_token });
    }

    /// Takes a request of the backend out; `false` where it is not known.
    fn release_peer(&mut self, key: &OwnedKey) -> (known: bool)
        requires
            old(self)@.indexes_live_rows(),
        ensures
            final(self)@.indexes_live_rows(),
            final(self)@ == old(self)@.peer_released(key@),
            known == old(self)@.has_peer(key@),
    {
        match self.peer_by_id.remove(key) {
            Some(peer) => {
                if let Some(token) = peer.progress_token {
                    self.peer_by_progress_token.remove(
                        &OwnedKey { session_id: key.session_id, raw: token },
                    );
                }
                true
            },
            None => {
                assert(self@.peer_by_id =~= old(self)@.peer_by_id);
                false
            },
        }
    }

    /// The one client there is answers a request of the backend; `false` where no
    /// such request is known.
    pub fn take_peer_response(&mut self, raw: &Json) -> (known: bool)
        requires
            old(self)@.indexes_live_rows(),
        ensures
            final(self)@.indexes_live_rows(),
            peer_answer(old(self)@, None, field(raw@, "id"@), final(self)@, known),
    {
        self.take_peer_response_for_owner(None, raw)
    }

    /// A session answers a request of the backend; `false` where that session has
    /// no such request.
    pub fn take_peer_response_for_session(&mut self, session_id: u64, raw: &Json) -> (known: bool)
        requires
            old(self)@.indexes_live_rows(),
        ensures
            final(self)@.indexes_live_rows(),
            peer_answer(old(self)@, Some(session_id), field(raw@, "id"@), final(self)@, known),
    {
        self.take_peer_response_for_owner(Some(session_id), raw)
    }

    fn take_peer_response_for_owner(&mut self, session_id: Option<u64>, raw: &Json) -> (known: bool)
        requires
            old(self)@.indexes_live_rows(),
        ensures
            final(self)@.indexes_live_rows(),
            peer_answer(old(self)@, session_id, field(raw@, "id"@), final(self)@, known),
    {
        match raw.get("id") {
            Some(id) => {
                let key = OwnedKey { session_id, raw: id.copy() };
                self.release_peer(&key)
            },
            None => false,
        }
    }

    /// The one client there is cancels a request of its own.
    pub fn cancel_client_request(&mut self, raw: &Json, backend: &mut Backend) -> (outcome:
        CancelOutcome)
        requires
            old(self)@.indexes_live_rows(),
        ensures
            final(self)@.indexes_live_rows(),
            client_cancel(
                old(self)@,
                old(backend)@,
                None,
                raw@,
                final(self)@,
                final(backend)@,
                outcome,
            ),
    {
        self.cancel_client_request_for_owner(None, raw, backend)
    }

    /// A session cancels a request of its own.
    pub fn cancel_client_request_for_session(
        &mut self,
        session_id: u64,
        raw: &Json,
        backend: &mut Backend,
    ) -> (outcome: CancelOutcome)
        requires
            old(self)@.indexes_live_rows(),
        ensures
            final(self)@.indexes_live_rows(),
            client_cancel(
                old(self)@,
                old(backend)@,
                Some(session_id),
                raw@,
                final(self)@,
                final(backend)@,
                outcome,
            ),
    {
        self.cancel_client_request_for_owner(Some(session_id), raw, backend)
    }

    fn cancel_client_request_for_owner(
        &mut self,
        session_id: Option<u64>,
        raw: &Json,
        backend: &mut Backend,
    ) -> (outcome: CancelOutcome)
        requires
            old(self)@.indexes_live_rows(),
        ensures
            final(self)@.indexes_live_rows(),
            client_cancel(
                old(self)@,
                old(backend)@,
                session_id,
                raw@,
                final(self)@,
                final(backend)@,
                outcome,
            ),
    {
        let client_id = match notification_request_id(raw) {
            Some(id) => id,
            None => {
                return CancelOutcome { accepted: false, call: None };
            },
        };
        let row = match self.release(session_id, &client_id) {
            Some(row) => row,
            None => {
                return CancelOutcome { accepted: false, call: None };
            },
        };
        let reason = match field_text(subfield(raw.get("params"), "reason")) {
            Some(reason) => reason,
            None => "request cancelled",
        };
        match row.backend_id {
            None => CancelOutcome { accepted: true, call: None },
            Some(backend_id) => {
                let call = backend.cancel_pending_request(&backend_id, reason);
                CancelOutcome { accepted: call.is_some(), call }
            },
        }
    }

    /// The backend cancels a request: the client is told, in its own terms.
    pub fn translate_backend_cancel(&mut self, raw: &Json, backend: &mut Backend) -> (outcome:
        BackendCancelOutcome)
        requires
            old(self)@.indexes_live_rows(),
        ensures
            final(self)@.indexes_live_rows(),
            backend_cancel(
                old(self)@,
                old(backend)@,
                raw@,
                final(self)@,
                final(backend)@,
                outcome,
            ),
    {
        let backend_id = match notification_request_id(raw) {
            Some(id) => id,
            None => {
                return BackendCancelOutcome { translated: None, waiter: None };
            },
        };
        let client_key = match self.client_by_backend.remove(&backend_id) {
            Some(key) => key,
            None => {
                assert(self@.client_by_backend =~= old(self)@.client_by_backend);
                return BackendCancelOutcome { translated: None, waiter: None };
            },
        };
        match self.by_client.remove(&client_key) {
            Some(row) => {
                self.release_token(&client_key, &row.progress_token);
            },
            None => {
                assert(self@.by_client =~= old(self)@.by_client);
            },
        }
        let waiter = backend.discard_pending_response(&backend_id);
        let OwnedKey { session_id, raw: client_id } = client_key;
        match translate_cancel_message(raw, client_id) {
            Some(message) => BackendCancelOutcome {
                translated: Some(TranslatedNotification { session_id, message }),
                waiter,
            },
            None => BackendCancelOutcome { translated: None, waiter },
        }
    }

    /// Whether a progress notification of the backend is for a live token.
    pub fn backend_progress_is_active(&self, raw: &Json) -> (b: bool)
        ensures
            b == (match progressed_token(raw@) {
                Some(t) => self@.has_token(t),
                None => false,
            }),
    {
        match subfield(raw.get("params"), "progressToken") {
            Some(token) => self.client_by_progress_token.contains(token),
            None => false,
        }
    }

    /// Whether a progress notification of the one client there is, is for a
    /// request of the backend that it works on.
    pub fn client_progress_is_active(&self, raw: &Json) -> (b: bool)
        requires
            self@.indexes_live_rows(),
        ensures
            b == peer_progress(self@, None, raw@),
    {
        self.client_progress_is_active_for_owner(None, raw)
    }

    /// Whether a progress notification of a session is for a request of the
    /// backend that this session works on.
    pub fn client_progress_is_active_for_session(&self, session_id: u64, raw: &Json) -> (b: bool)
        requires
            self@.indexes_live_rows(),
        ensures
            b == peer_progress(self@, Some(session_id), raw@),
    {
        self.client_progress_is_active_for_owner(Some(session_id), raw)
    }

    fn client_progress_is_active_for_owner(&self, session_id: Option<u64>, raw: &Json) -> (b: bool)
        requires
            self@.indexes_live_rows(),
        ensures
            b == peer_progress(self@, session_id, raw@),
    {
        let token = match notification_progress_token(raw) {
            Some(token) => token,
            None => {
                return false;
            },
        };
        match self.peer_by_progress_token.get(&OwnedKey { session_id, raw: token }) {
            Some(peer_key) => self.peer_by_id.contains(peer_key),
            None => false,
        }
    }

    /// The one client there is cancels its work on a request of the backend;
    /// `false` where no such request is known.
    pub fn client_cancel_peer_request(&mut self, raw: &Json) -> (known: bool)
        requires
            old(self)@.indexes_live_rows(),
        ensures
            final(self)@.indexes_live_rows(),
            peer_answer(old(self)@, None, cancelled_id(raw@), final(self)@, known),
    {
        self.client_cancel_peer_request_for_owner(None, raw)
    }

    /// A session cancels its work on a request of the backend; `false` where that
    /// session has no such request.
    pub fn client_cancel_peer_request_for_session(&mut self, session_id: u64, raw: &Json) -> (known:
        bool)
        requires
            old(self)@.indexes_live_rows(),
        ensures
            final(self)@.indexes_live_rows(),
            peer_answer(old(self)@, Some(session_id), cancelled_id(raw@), final(self)@, known),
    {
        self.client_cancel_peer_request_for_owner(Some(session_id), raw)
    }

    fn client_cancel_peer_request_for_owner(&mut self, session_id: Option<u64>, raw: &Json) -> (known:
        bool)
        requires
            old(self)@.indexes_live_rows(),
        ensures
            final(self)@.indexes_live_rows(),
            peer_answer(old(self)@, session_id, cancelled_id(raw@), final(self)@, known),
    {
        match notification_request_id(raw) {
            Some(id) => self.release_peer(&OwnedKey { session_id, raw: id }),
            None => false,
        }
    }

    /// Forgets the requests of a backend that is gone.
    pub fn clear_peer_requests(&mut self)
        requires
            old(self)@.indexes_live_rows(),
        ensures
            final(self)@.indexes_live_rows(),
            final(self)@ == (LifetimeView {
                peer_by_id: Map::empty(),
                peer_by_token: Map::empty(),
                ..old(self)@
            }),
    {
        self.peer_by_id.clear();
        self.peer_by_progress_token.clear();
    }

    /// The session that a progress notification of the backend is for.
    pub fn session_for_backend_progress(&self, raw: &Json) -> (session: Option<u64>)
        requires
            self@.indexes_live_rows(),
        ensures
            session == (match progressed_token(raw@) {
                Some(t) => if self@.has_token(t) {
                    self@.client_by_token[identity(t)].0
                } else {
                    None
                },
                None => None,
            }),
    {
        let token = match subfield(raw.get("params"), "progressToken") {
            Some(token) => token,
            None => {
                return None;
            },
        };
        match self.client_by_progress_token.get(token) {
            Some(key) => {
                assert(self@.client_by_token.contains_key(identity(token@)));
                if self.by_client.contains(key) {
                    key.session_id
                } else {
                    None
                }
            },
            None => None,
        }
    }

    /// The number of requests of clients that are under way.
    pub fn active_count(&self) -> (n: usize)
        ensures
            n == self@.by_client.dom().len(),
    {
        self.by_client.len()
    }

    /// The number of requests of a session that are under way.
    pub fn active_count_for_session(&self, session_id: u64) -> (n: usize)
        ensures
            n == self@.by_client.dom().filter(|key: KeyView| key.0 == Some(session_id)).len(),
    {
        let total = self.by_client.len();
        let ghost rows = self.by_client.row_views();
        let ghost owned = |key: KeyView| key.0 == Some(session_id);
        let mut count: usize = 0;
        let mut i: usize = 0;
        proof {
            assert(rows.take(0) =~= Seq::empty());
            assert(rows_map(rows.take(0)).dom().filter(owned) =~= Set::empty());
        }
        while i < total
            invariant
                i <= total,
                total == rows.len(),
                rows == self.by_client.row_views(),
                distinct_keys(rows),
                owned == (|key: KeyView| key.0 == Some(session_id)),
                count <= i,
                rows_map(rows.take(i as int)).dom().filter(owned).finite(),
                count == rows_map(rows.take(i as int)).dom().filter(owned).len(),
            decreases total - i,
        {
            let key = self.by_client.key_at(i);
            let mine = match key.session_id {
                Some(s) => s == session_id,
                None => false,
            };
            proof {
                let before = rows.take(i as int);
                let after = rows.take(i + 1);
                assert(after.drop_last() =~= before);
                assert(after.last() == rows[i as int]);
                let k = rows[i as int].0;
                if rows_map(before).contains_key(k) {
                    lemma_row_of_key(before, k);
                    let j = choose|j: int| 0 <= j < before.len() && (#[trigger] before[j]).0 == k;
                    assert(rows[j].0 == rows[i as int].0);
                    assert(false);
                }
                let old_set = rows_map(before).dom().filter(owned);
                let new_set = rows_map(after).dom().filter(owned);
                if owned(k) {
                    assert(new_set =~= old_set.insert(k));
                } else {
                    assert(new_set =~= old_set);
                }
            }
            if mine {
                count = count + 1;
            }
            i = i + 1;
        }
        assert(rows.take(rows.len() as int) =~= rows);
        count
    }

    /// The session that all bound requests belong to; `None` where there is none
    /// or more than one. Requests without a session do not count.
    pub fn unique_bound_session(&self) -> (session: Option<u64>)
        ensures
            match session {
                Some(s) => unique_session(self@.by_client, s),
                None => forall|s: u64| !unique_session(self@.by_client, s),
            },
    {
        let total = self.by_client.len();
        let ghost rows = self.by_client.row_views();
        let ghost map = self@.by_client;
        let mut selected: Option<u64> = None;
        let mut i: usize = 0;
        let ghost mut witness: int = 0;
        while i < total
            invariant
                i <= total,
                total == rows.len(),
                rows == self.by_client.row_views(),
                map == self@.by_client,
                map == rows_map(rows),
                distinct_keys(rows),
                match selected {
                    Some(s) => {
                        &&& 0 <= witness < i
                        &&& rows[witness].0.0 == Some(s)
                        &&& rows[witness].1.backend_id is Some
                        &&& forall|j: int|
                            0 <= j < i && (#[trigger] rows[j]).1.backend_id is Some
                                && rows[j].0.0 is Some ==> rows[j].0.0 == Some(s)
                    },
                    None => forall|j: int|
                        0 <= j < i ==> (#[trigger] rows[j]).1.backend_id is None
                            || rows[j].0.0 is None,
                },
            decreases total - i,
        {
            let bound = self.by_client.value_at(i).backend_id.is_some();
            assert(bound == (rows[i as int].1.backend_id is Some));
            let owner = self.by_client.key_at(i).session_id;
            assert(owner == rows[i as int].0.0);
            if bound {
                if let Some(session_id) = owner {
                    match selected {
                        None => {
                            selected = Some(session_id);
                            proof {
                                witness = i as int;
                            }
                        },
                        Some(current) => {
                            if current != session_id {
                                proof {
                                    lemma_row_counts(rows, witness);
                                    lemma_row_counts(rows, i as int);
                                    let a = rows[witness].0;
                                    let b = rows[i as int].0;
                                    assert(map[a].backend_id is Some);
                                    assert(map[b].backend_id is Some);
                                    assert forall|s: u64| !unique_session(map, s) by {
                                        assert(a.0 == Some(current) && b.0 == Some(session_id));
                                        if unique_session(map, s) {
                                            assert(map.contains_key(a) && a.0 is Some
                                                && map[a].backend_id is Some);
                                            assert(map.contains_key(b) && b.0 is Some
                                                && map[b].backend_id is Some);
                                        }
                                    }
                                }
                                return None;
                            }
                        },
                    }
                }
            }
            i = i + 1;
        }
        proof {
            assert forall|key: KeyView| #[trigger] map.contains_key(key) implies exists|j: int|
                0 <= j < rows.len() && (#[trigger] rows[j]).0 == key && rows[j].1 == map[key] by {
                lemma_row_of_key(rows, key);
                let j = choose|j: int| 0 <= j < rows.len() && (#[trigger] rows[j]).0 == key;
                lemma_row_counts(rows, j);
            }
            match selected {
                Some(s) => {
                    lemma_row_counts(rows, witness);
                    assert(map[rows[witness].0].backend_id is Some);
                    assert forall|key: KeyView|
                        map.contains_key(key) && key.0 is Some && (
                        #[trigger] map[key]).backend_id is Some implies key.0 == Some(s) by {
                        assert(map.contains_key(key));
                    }
                },
                None => {
                    assert forall|s: u64| !unique_session(map, s) by {
                        if unique_session(map, s) {
                            let key = choose|key: KeyView|
                                map.contains_key(key) && key.0 == Some(s) && (
                                #[trigger] map[key]).backend_id is Some;
                            assert(map.contains_key(key));
                        }
                    }
                },
            }
        }
        selected
    }

    /// Whether a request of a session is under way.
    pub fn contains_client_for_session(&self, session_id: u64, client_id: &Json) -> (b: bool)
        ensures
            b == self@.has_client((Some(session_id), client_id@)),
    {
        self.by_client.contains(&OwnedKey { session_id: Some(session_id), raw: client_id.copy() })
    }

    /// The sizes of the client tables: rows, backend ids, live tokens.
    pub fn client_index_counts(&self) -> (counts: (usize, usize, usize))
        ensures
            counts.0 == self@.by_client.dom().len(),
            counts.1 == self@.client_by_backend.dom().len(),
            counts.2 == self@.client_by_token.dom().len(),
    {
        (self.by_client.len(), self.client_by_backend.len(), self.client_by_progress_token.len())
    }

    /// The sizes of the peer tables: rows, live tokens.
    pub fn peer_index_counts(&self) -> (counts: (usize, usize))
        ensures
            counts.0 == self@.peer_by_id.dom().len(),
            counts.1 == self@.peer_by_token.dom().len(),
    {
        (self.peer_by_id.len(), self.peer_by_progress_token.len())
    }
}

/// What answering, or cancelling, a request of the backend with an id does.
pub open spec fn peer_answer(
    before: LifetimeView,
    session: Option<u64>,
    id: Option<JsonView>,
    after: LifetimeView,
    known: bool,
) -> bool {
    match id {
        Some(id) => {
            &&& known == before.has_peer((session, id))
            &&& after == before.peer_released((session, id))
        },
        None => !known && after == before,
    }
}

/// Whether a token belongs to a request of the backend that a session works on.
pub open spec fn peer_progress(l: LifetimeView, session: Option<u64>, raw: JsonView) -> bool {
    match progressed_token(raw) {
        Some(t) => l.peer_by_token.contains_key(key_identity((session, t))),
        None => false,
    }
}

/// What a cancellation leads to.
#[verifier::ext_equal]
pub struct CancelView {
    pub lifetime: LifetimeView,
    pub backend: BackendView,
    /// Whether it was for a request of that client.
    pub accepted: bool,
    /// The call at the backend that was cancelled: who waited, and the notice.
    pub call: Option<(u64, JsonView)>,
}

pub open spec fn call_view(call: Option<CancelledCall>) -> Option<(u64, JsonView)> {
    match call {
        Some(call) => Some((call.waiter, call.notice@)),
        None => None,
    }
}

/// What a cancellation by a client does: a request that is its own ends, and the
/// backend is told where somebody waits there.
pub open spec fn cancelled_by_client(
    l: LifetimeView,
    b: BackendView,
    session: Option<u64>,
    raw: JsonView,
) -> CancelView {
    let nothing = CancelView { lifetime: l, backend: b, accepted: false, call: None };
    match cancelled_id(raw) {
        None => nothing,
        Some(id) => {
            let key = (session, id);
            if !l.has_client(key) {
                nothing
            } else {
                match l.client_row(key).backend_id {
                    None => CancelView { lifetime: l.released(key), accepted: true, ..nothing },
                    Some(backend_id) => CancelView {
                        lifetime: l.released(key),
                        backend: given_up(b, backend_id),
                        accepted: waiter_of(b, backend_id) is Some,
                        call: match waiter_of(b, backend_id) {
                            Some(waiter) => Some(
                                (waiter, cancel_notice(backend_id, cancel_reason(raw))),
                            ),
                            None => None,
                        },
                    },
                }
            }
        },
    }
}

/// Whether the outcome of a cancellation is that one.
pub open spec fn client_cancel(
    before: LifetimeView,
    backend_before: BackendView,
    session: Option<u64>,
    raw: JsonView,
    after: LifetimeView,
    backend_after: BackendView,
    outcome: CancelOutcome,
) -> bool {
    cancelled_by_client(before, backend_before, session, raw) == (CancelView {
        lifetime: after,
        backend: backend_after,
        accepted: outcome.accepted,
        call: call_view(outcome.call),
    })
}

/// What a cancellation by the backend leads to.
#[verifier::ext_equal]
pub struct BackendCancelView {
    pub lifetime: LifetimeView,
    pub backend: BackendView,
    /// The session and the notification it gets, where the request was known.
    pub translated: Option<(Option<u64>, JsonView)>,
    pub waiter: Option<u64>,
}

/// What a cancellation by the backend does: the request it is for ends, and its
/// client is told, in its own terms.
pub open spec fn cancel_from_backend(l: LifetimeView, b: BackendView, raw: JsonView) -> BackendCancelView {
    let nothing = BackendCancelView { lifetime: l, backend: b, translated: None, waiter: None };
    match cancelled_id(raw) {
        None => nothing,
        Some(backend_id) => if !l.has_backend_id(backend_id) {
            nothing
        } else {
            let key = l.owner_of(backend_id);
            BackendCancelView {
                lifetime: l.cancelled_by_backend(backend_id),
                backend: given_up(b, backend_id),
                translated: match translated_cancel(raw, key.1) {
                    Some(message) => Some((key.0, message)),
                    None => None,
                },
                waiter: waiter_of(b, backend_id),
            }
        },
    }
}

pub open spec fn translated_view(t: Option<TranslatedNotification>) -> Option<
    (Option<u64>, JsonView),
> {
    match t {
        Some(t) => Some((t.session_id, t.message@)),
        None => None,
    }
}

/// Whether the outcome of a cancellation by the backend is that one.
pub open spec fn backend_cancel(
    before: LifetimeView,
    backend_before: BackendView,
    raw: JsonView,
    after: LifetimeView,
    backend_after: BackendView,
    outcome: BackendCancelOutcome,
) -> bool {
    cancel_from_backend(before, backend_before, raw) == (BackendCancelView {
        lifetime: after,
        backend: backend_after,
        translated: translated_view(outcome.translated),
        waiter: outcome.waiter,
    })
}

/// A cancellation by the backend of a request that is known always reaches its
/// client.
pub proof fn law_known_backend_cancel_is_translated(l: LifetimeView, b: BackendView, raw: JsonView)
    requires
        cancelled_id(raw) matches Some(id) && l.has_backend_id(id),
    ensures
        cancel_from_backend(l, b, raw).translated matches Some((session, message))
            && session == l.owner_of(cancelled_id(raw)->0).0 && cancelled_id(message) == Some(
            l.owner_of(cancelled_id(raw)->0).1,
        ),
{
}

/// A request that was taken up, bound and released leaves nothing behind, where
/// its id, its id at the backend and its token were not in use.
pub proof fn law_release_undoes_a_request(
    l: LifetimeView,
    key: KeyView,
    backend_id: JsonView,
    token: Option<JsonView>,
)
    requires
        !l.has_client(key),
        !l.has_backend_id(backend_id),
        token matches Some(t) ==> !l.has_token(t),
    ensures
        l.admitted(key, token).bound(key, backend_id).released(key) == l,
{
    let end = l.admitted(key, token).bound(key, backend_id).released(key);
    assert(end.by_client =~= l.by_client);
    assert(end.client_by_backend =~= l.client_by_backend);
    assert(end.client_by_token =~= l.client_by_token);
}

/// Whatever a session does with a request of its own, the requests of the other
/// sessions stay as they are, even under the same raw id.
pub proof fn law_sessions_are_independent(
    l: LifetimeView,
    key: KeyView,
    backend_id: JsonView,
    token: Option<JsonView>,
    other: KeyView,
)
    requires
        other.0 != key.0,
    ensures
        same_client_row(l, l.admitted(key, token), other),
        same_client_row(l, l.bound(key, backend_id), other),
        same_client_row(l, l.released(key), other),
        same_peer_row(l, l.peer_admitted(key, token), other),
        same_peer_row(l, l.peer_released(key), other),
{
}

/// A request of a client is, or is not, under way in both states alike.
pub open spec fn same_client_row(a: LifetimeView, b: LifetimeView, key: KeyView) -> bool {
    &&& a.has_client(key) == b.has_client(key)
    &&& a.has_client(key) ==> a.client_row(key) == b.client_row(key)
}

/// A request of the backend is, or is not, worked on in both states alike.
pub open spec fn same_peer_row(a: LifetimeView, b: LifetimeView, key: KeyView) -> bool {
    &&& a.has_peer(key) == b.has_peer(key)
    &&& a.has_peer(key) ==> a.peer_by_id[key_identity(key)] == b.peer_by_id[key_identity(key)]
}

/// Once a request is over, no id at the backend and no token leads to it.
pub proof fn law_released_request_is_unreachable(l: LifetimeView, key: KeyView)
    requires
        l.indexes_live_rows(),
    ensures
        ({
            let after = l.released(key);
            &&& after.indexes_live_rows()
            &&& !after.has_client(key)
            &&& forall|b: JsonView| #[trigger]
                after.client_by_backend.contains_key(b) ==> key_identity(after.client_by_backend[b])
                    != key_identity(key)
            &&& forall|t: JsonView| #[trigger]
                after.client_by_token.contains_key(t) ==> key_identity(after.client_by_token[t])
                    != key_identity(key)
        }),
{
}

/// A cancellation by the backend ends exactly the request that has that id there.
pub proof fn law_backend_cancel_releases_its_request(l: LifetimeView, backend_id: JsonView)
    requires
        l.indexes_live_rows(),
        l.has_backend_id(backend_id),
    ensures
        l.cancelled_by_backend(backend_id) == l.released(l.owner_of(backend_id)),
{
}

/// A request of the backend that was taken up and answered leaves nothing behind,
/// where its id and its token were not in use in that session.
pub proof fn law_answer_undoes_a_peer_request(
    l: LifetimeView,
    key: KeyView,
    token: Option<JsonView>,
)
    requires
        !l.has_peer(key),
        token matches Some(t) ==> !l.peer_by_token.contains_key(key_identity((key.0, t))),
    ensures
        l.peer_admitted(key, token).peer_released(key) == l,
{
    let end = l.peer_admitted(key, token).peer_released(key);
    assert(end.peer_by_id =~= l.peer_by_id);
    assert(end.peer_by_token =~= l.peer_by_token);
}

/// A number and the string of its digits are different ids.
pub proof fn law_numeric_and_string_ids_differ(session: Option<u64>, n: int, s: Seq<char>)
    ensures
        key_identity((session, JsonView::Num(NumberView::Int(n)))) != key_identity(
            (session, JsonView::Str(s)),
        ),
{
    lemma_identity_kind(JsonView::Num(NumberView::Int(n)));
    lemma_identity_kind(JsonView::Str(s));
}

// ── What the bookkeeping is for ─────────────────────────────────────

/// A request that is taken up is under way, with the token that it asks progress for and
/// no id at the backend yet; no other request changes. One whose id is in use is not
/// taken up, and changes nothing.
pub proof fn law_request_is_taken_up(
    l: &mut RequestLifetime,
    session: Option<u64>,
    id: Json,
    request: &Json,
    taken: bool,
    other: KeyView,
)
    requires
        call_ensures(RequestLifetime::admit_with_session, (l, session, id, request), taken),
        key_identity(other) != key_identity((session, id@)),
    ensures
        taken <==> !old(l)@.has_client((session, id@)),
        !taken ==> final(l)@ == old(l)@,
        taken ==> {
            &&& final(l)@.has_client((session, id@))
            &&& final(l)@.client_row((session, id@)).backend_id is None
            &&& final(l)@.client_row((session, id@)).progress_token == opt_field(
                opt_field(field(request@, "params"@), "_meta"@),
                "progressToken"@,
            )
        },
        same_client_row(old(l)@, final(l)@, other),
        final(l)@.client_by_backend == old(l)@.client_by_backend,
        final(l)@.client_by_token == old(l)@.client_by_token,
        final(l)@.peer_by_id == old(l)@.peer_by_id,
        final(l)@.peer_by_token == old(l)@.peer_by_token,
{
}

/// A request that gets its id at the backend is found by that id, and from then on by its
/// token; no other request changes, and one that is not under way gets none.
pub proof fn law_request_is_bound(
    l: &mut RequestLifetime,
    session: Option<u64>,
    id: &Json,
    backend_id: Json,
    unit: (),
    other: KeyView,
)
    requires
        call_ensures(RequestLifetime::bind_backend, (l, session, id, backend_id), unit),
        key_identity(other) != key_identity((session, id@)),
    ensures
        !old(l)@.has_client((session, id@)) ==> final(l)@ == old(l)@,
        old(l)@.has_client((session, id@)) ==> {
            let row = old(l)@.client_row((session, id@));
            &&& final(l)@.has_client((session, id@))
            &&& final(l)@.client_row((session, id@)).backend_id == Some(backend_id@)
            &&& final(l)@.client_row((session, id@)).progress_token == row.progress_token
            &&& final(l)@.has_backend_id(backend_id@)
            &&& key_identity(final(l)@.owner_of(backend_id@)) == key_identity((session, id@))
            &&& (row.progress_token matches Some(token) ==> final(l)@.has_token(token)
                && key_identity(final(l)@.client_by_token[identity(token)]) == key_identity(
                (session, id@),
            ))
            &&& (row.backend_id matches Some(before) ==> identity(before) != identity(
                backend_id@,
            ) ==> !final(l)@.has_backend_id(before))
        },
        same_client_row(old(l)@, final(l)@, other),
        final(l)@.peer_by_id == old(l)@.peer_by_id,
        final(l)@.peer_by_token == old(l)@.peer_by_token,
{
}

/// A request that is over, by its answer or by its time limit, is under way no more; its
/// id at the backend and its token are free, and no other request changes.
pub proof fn law_request_is_over(
    ended: &mut RequestLifetime,
    late: &mut RequestLifetime,
    session: u64,
    id: &Json,
    unit: (),
    other: KeyView,
)
    requires
        old(ended)@.indexes_live_rows(),
        call_ensures(RequestLifetime::remove_client_for_session, (ended, session, id), unit),
        call_ensures(RequestLifetime::timeout_client_for_session, (late, session, id), unit),
        key_identity(other) != key_identity((Some(session), id@)),
    ensures
        !final(ended)@.has_client((Some(session), id@)),
        !final(late)@.has_client((Some(session), id@)),
        old(ended)@.has_client((Some(session), id@)) ==> (old(ended)@.client_row(
            (Some(session), id@),
        ).backend_id matches Some(backend_id) ==> !final(ended)@.has_backend_id(backend_id)),
        same_client_row(old(ended)@, final(ended)@, other),
        same_client_row(old(late)@, final(late)@, other),
        final(ended)@.peer_by_id == old(ended)@.peer_by_id,
        final(ended)@.peer_by_token == old(ended)@.peer_by_token,
        old(late)@ == old(ended)@ ==> final(late)@ == final(ended)@,
{
}

/// The same of a client without a session.
pub proof fn law_request_of_the_one_client_is_over(
    ended: &mut RequestLifetime,
    late: &mut RequestLifetime,
    id: &Json,
    unit: (),
    other: KeyView,
)
    requires
        call_ensures(RequestLifetime::remove_client, (ended, id), unit),
        call_ensures(RequestLifetime::timeout_client, (late, id), unit),
        key_identity(other) != key_identity((None, id@)),
    ensures
        !final(ended)@.has_client((None, id@)),
        !final(late)@.has_client((None, id@)),
        same_client_row(old(ended)@, final(ended)@, other),
        same_client_row(old(late)@, final(late)@, other),
        final(ended)@.peer_by_id == old(ended)@.peer_by_id,
        old(late)@ == old(ended)@ ==> final(late)@ == final(ended)@,
{
}

/// A request that is taken up and bound at once is found by its id, by its id at the
/// backend and by its token.
pub proof fn law_inserted_request_is_found(
    l: &mut RequestLifetime,
    session: Option<u64>,
    id: Json,
    backend_id: Json,
    request: &Json,
    unit: (),
)
    requires
        !old(l)@.has_client((session, id@)),
        call_ensures(
            RequestLifetime::insert_with_session,
            (l, session, id, backend_id, request),
            unit,
        ),
    ensures
        final(l)@.has_client((session, id@)),
        final(l)@.has_backend_id(backend_id@),
        final(l)@.owner_of(backend_id@) == (session, id@),
        (opt_field(
            opt_field(field(request@, "params"@), "_meta"@),
            "progressToken"@,
        ) matches Some(token) ==> final(l)@.has_token(token) && final(
            l)@.client_by_token[identity(token)] == (session, id@)),
{
}

/// A request of the backend that a session takes up is worked on there, with its token;
/// nothing else changes. Without an id nothing is taken up.
pub proof fn law_request_of_the_backend_is_taken_up(
    l: &mut RequestLifetime,
    session: Option<u64>,
    request: &Json,
    unit: (),
    other: KeyView,
)
    requires
        call_ensures(RequestLifetime::insert_peer_request, (l, session, request), unit),
    ensures
        field(request@, "id"@) is None ==> final(l)@ == old(l)@,
        (field(request@, "id"@) matches Some(id) ==> {
            &&& final(l)@.has_peer((session, id))
            &&& final(l)@.peer_by_id[key_identity((session, id))] == opt_field(
                opt_field(field(request@, "params"@), "_meta"@),
                "progressToken"@,
            )
            &&& (opt_field(
                opt_field(field(request@, "params"@), "_meta"@),
                "progressToken"@,
            ) matches Some(token) ==> final(l)@.peer_by_token.contains_key(
                key_identity((session, token)),
            ))
            &&& key_identity(other) != key_identity((session, id)) ==> same_peer_row(
                old(l)@,
                final(l)@,
                other,
            )
        }),
        final(l)@.by_client == old(l)@.by_client,
        final(l)@.client_by_backend == old(l)@.client_by_backend,
        final(l)@.client_by_token == old(l)@.client_by_token,
{
}

/// An answer of a session is known exactly where that session works on the request, and
/// ends it; nothing else changes.
pub proof fn law_answer_ends_a_request_of_the_backend(
    l: &mut RequestLifetime,
    session: u64,
    raw: &Json,
    known: bool,
    other: KeyView,
)
    requires
        call_ensures(RequestLifetime::take_peer_response_for_session, (l, session, raw), known),
    ensures
        known <==> (field(raw@, "id"@) matches Some(id) && old(l)@.peer_by_id.contains_key(
            (Some(session), identity(id)),
        )),
        !known ==> final(l)@ == old(l)@,
        (field(raw@, "id"@) matches Some(id) ==> !final(l)@.has_peer((Some(session), id))
            && (key_identity(other) != key_identity((Some(session), id)) ==> same_peer_row(
            old(l)@,
            final(l)@,
            other,
        ))),
        final(l)@.by_client == old(l)@.by_client,
{
}

/// The same where there is one client, without a session.
pub proof fn law_answer_of_the_one_client(l: &mut RequestLifetime, raw: &Json, known: bool)
    requires
        call_ensures(RequestLifetime::take_peer_response, (l, raw), known),
    ensures
        known <==> (field(raw@, "id"@) matches Some(id) && old(l)@.peer_by_id.contains_key(
            (None::<u64>, identity(id)),
        )),
        !known ==> final(l)@ == old(l)@,
        (field(raw@, "id"@) matches Some(id) ==> !final(l)@.has_peer((None, id))),
        final(l)@.by_client == old(l)@.by_client,
{
}

/// A client gives up a request of the backend that it works on, and no other.
pub proof fn law_client_gives_up_a_request_of_the_backend(
    own: &mut RequestLifetime,
    by_session: &mut RequestLifetime,
    session: u64,
    raw: &Json,
    known: bool,
    known_there: bool,
)
    requires
        call_ensures(RequestLifetime::client_cancel_peer_request, (own, raw), known),
        call_ensures(
            RequestLifetime::client_cancel_peer_request_for_session,
            (by_session, session, raw),
            known_there,
        ),
    ensures
        ({
            let id = opt_field(field(raw@, "params"@), "requestId"@);
            &&& known <==> id is Some && old(own)@.peer_by_id.contains_key(
                (None::<u64>, identity(id->0)),
            )
            &&& known_there <==> id is Some && old(by_session)@.peer_by_id.contains_key(
                (Some(session), identity(id->0)),
            )
            &&& !known ==> final(own)@ == old(own)@
            &&& !known_there ==> final(by_session)@ == old(by_session)@
            &&& id is Some ==> !final(own)@.has_peer((None, id->0)) && !final(
                by_session)@.has_peer((Some(session), id->0))
        }),
{
}

/// Once the backend is gone no request of it is worked on; the requests of clients stay.
pub proof fn law_requests_of_the_backend_are_cleared(
    l: &mut RequestLifetime,
    unit: (),
    key: KeyView,
)
    requires
        call_ensures(RequestLifetime::clear_peer_requests, (l,), unit),
    ensures
        !final(l)@.has_peer(key),
        final(l)@.peer_by_token.dom() == Set::<KeyView>::empty(),
        final(l)@.by_client == old(l)@.by_client,
        final(l)@.client_by_backend == old(l)@.client_by_backend,
        final(l)@.client_by_token == old(l)@.client_by_token,
{
    assert(final(l)@.peer_by_token.dom() =~= Set::<KeyView>::empty());
}

/// Progress of the backend is for a live token, and for the session that owns it.
pub proof fn law_progress_finds_its_owner(
    l: RequestLifetime,
    raw: &Json,
    live: bool,
    session: Option<u64>,
)
    requires
        call_ensures(RequestLifetime::backend_progress_is_active, (&l, raw), live),
        call_ensures(RequestLifetime::session_for_backend_progress, (&l, raw), session),
    ensures
        ({
            let token = opt_field(field(raw@, "params"@), "progressToken"@);
            &&& live <==> token is Some && l@.client_by_token.contains_key(identity(token->0))
            &&& live ==> session == l@.client_by_token[identity(token->0)].0
            &&& !live ==> session is None
        }),
{
}

/// Progress of a client is for a token of a request of the backend that it works on.
pub proof fn law_client_progress_finds_its_request(
    l: RequestLifetime,
    session: u64,
    raw: &Json,
    own: bool,
    there: bool,
)
    requires
        call_ensures(RequestLifetime::client_progress_is_active, (&l, raw), own),
        call_ensures(
            RequestLifetime::client_progress_is_active_for_session,
            (&l, session, raw),
            there,
        ),
    ensures
        ({
            let token = opt_field(field(raw@, "params"@), "progressToken"@);
            &&& own <==> token is Some && l@.peer_by_token.contains_key(
                (None::<u64>, identity(token->0)),
            )
            &&& there <==> token is Some && l@.peer_by_token.contains_key(
                (Some(session), identity(token->0)),
            )
        }),
{
}

/// The counts are those of what is under way.
pub proof fn law_counts_of_requests(
    l: RequestLifetime,
    session: u64,
    id: &Json,
    n: usize,
    mine: usize,
    found: bool,
    clients: (usize, usize, usize),
    peers: (usize, usize),
    fresh: RequestLifetime,
)
    requires
        call_ensures(RequestLifetime::active_count, (&l,), n),
        call_ensures(RequestLifetime::active_count_for_session, (&l, session), mine),
        call_ensures(RequestLifetime::contains_client_for_session, (&l, session, id), found),
        call_ensures(RequestLifetime::client_index_counts, (&l,), clients),
        call_ensures(RequestLifetime::peer_index_counts, (&l,), peers),
        call_ensures(RequestLifetime::new, (), fresh),
    ensures
        n == l@.by_client.dom().len(),
        mine == l@.by_client.dom().filter(|key: KeyView| key.0 == Some(session)).len(),
        found <==> l@.by_client.contains_key((Some(session), identity(id@))),
        clients.0 == n,
        clients.1 == l@.client_by_backend.dom().len(),
        clients.2 == l@.client_by_token.dom().len(),
        peers.0 == l@.peer_by_id.dom().len(),
        peers.1 == l@.peer_by_token.dom().len(),
        !fresh@.has_client((Some(session), id@)) && !fresh@.has_client((None, id@)),
        !fresh@.has_peer((Some(session), id@)) && !fresh@.has_peer((None, id@)),
        !fresh@.has_backend_id(id@) && !fresh@.has_token(id@),
{
}

/// The ids and tokens of notifications are those in their params; a cancellation gets
/// another id and keeps everything else.
pub proof fn law_parts_of_notifications(
    raw: &Json,
    id: Option<Json>,
    token: Option<Json>,
    other_id: Json,
    message: Option<Json>,
    other: Seq<char>,
)
    requires
        call_ensures(notification_request_id, (raw,), id),
        call_ensures(notification_progress_token, (raw,), token),
        call_ensures(translate_cancel_message, (raw, other_id), message),
        other != "requestId"@,
    ensures
        opt_view(id) == opt_field(field(raw@, "params"@), "requestId"@),
        opt_view(token) == opt_field(field(raw@, "params"@), "progressToken"@),
        message is Some <==> (field(raw@, "params"@) matches Some(params) && params is Obj),
        (message matches Some(told) ==> {
            &&& opt_field(field(told@, "params"@), "requestId"@) == Some(other_id@)
            &&& opt_field(field(told@, "params"@), other) == opt_field(field(raw@, "params"@), other)
            &&& other != "params"@ ==> field(told@, other) == field(raw@, other)
        }),
{
}

/// A cancellation by a client ends its own request, and the backend is told where somebody
/// waits there, under the id that the backend knows; one for a request that is not its
/// own changes nothing.
pub proof fn law_client_cancels_its_own_request(
    l: &mut RequestLifetime,
    b: &mut Backend,
    session: u64,
    raw: &Json,
    outcome: CancelOutcome,
    id: JsonView,
)
    requires
        call_ensures(
            RequestLifetime::cancel_client_request_for_session,
            (l, session, raw, b),
            outcome,
        ),
        opt_field(field(raw@, "params"@), "requestId"@) == Some(id),
    ensures
        ({
            let key = (Some(session), id);
            let row = old(l)@.client_row(key);
            &&& !old(l)@.has_client(key) ==> !outcome.accepted && outcome.call is None && final(
                l)@ == old(l)@ && final(b)@ == old(b)@
            &&& old(l)@.has_client(key) ==> !final(l)@.has_client(key)
            &&& old(l)@.has_client(key) && row.backend_id is None ==> outcome.accepted
                && outcome.call is None && final(b)@ == old(b)@
            &&& old(l)@.has_client(key) ==> (row.backend_id matches Some(backend_id) ==> {
                &&& outcome.accepted <==> old(b)@.pending.contains_key(identity(backend_id))
                &&& outcome.call is Some <==> outcome.accepted
                &&& (outcome.call matches Some(call) ==> call.waiter == old(
                    b)@.pending[identity(backend_id)] && opt_field(
                    field(call.notice@, "params"@),
                    "requestId"@,
                ) == Some(backend_id))
                &&& !final(b)@.pending.contains_key(identity(backend_id))
            })
        }),
{
    reveal_strlit("method");
    reveal_strlit("jsonrpc");
    reveal_strlit("params");
    assert("method"@.len() == 6);
    assert("jsonrpc"@.len() == 7);
    assert("params"@.len() == 6);
    assert("method"@[0] != "params"@[0]);
    reveal_strlit("requestId");
    reveal_strlit("reason");
    assert("requestId"@.len() == 9);
    assert("reason"@.len() == 6);
}

/// A cancellation by the backend ends the request that it knows under that id, and the
/// client that asked is told under its own; one for an id that nobody has changes
/// nothing.
pub proof fn law_backend_cancels_a_request(
    l: &mut RequestLifetime,
    b: &mut Backend,
    raw: &Json,
    outcome: BackendCancelOutcome,
    backend_id: JsonView,
)
    requires
        old(l)@.indexes_live_rows(),
        call_ensures(RequestLifetime::translate_backend_cancel, (l, raw, b), outcome),
        opt_field(field(raw@, "params"@), "requestId"@) == Some(backend_id),
    ensures
        !old(l)@.has_backend_id(backend_id) ==> outcome.translated is None && outcome.waiter is None
            && final(l)@ == old(l)@ && final(b)@ == old(b)@,
        old(l)@.has_backend_id(backend_id) ==> {
            let key = old(l)@.owner_of(backend_id);
            &&& outcome.translated matches Some(told) && told.session_id == key.0 && opt_field(
                field(told.message@, "params"@),
                "requestId"@,
            ) == Some(key.1)
            &&& !final(l)@.has_client(key)
            &&& !final(l)@.has_backend_id(backend_id)
            &&& outcome.waiter is Some <==> old(b)@.pending.contains_key(identity(backend_id))
            &&& !final(b)@.pending.contains_key(identity(backend_id))
        },
{
}

/// A request that is over leaves the tokens and the ids at the backend of all other
/// requests as they are, also where it had asked with a token that another one took
/// over.
pub proof fn law_over_request_leaves_others_reachable(
    l: LifetimeView,
    key: KeyView,
    token: JsonView,
    backend_id: JsonView,
)
    requires
        l.indexes_live_rows(),
    ensures
        l.has_token(token) && key_identity(l.client_by_token[identity(token)]) != key_identity(
            key,
        ) ==> l.released(key).has_token(token) && l.released(key).client_by_token[identity(token)]
            == l.client_by_token[identity(token)],
        l.has_backend_id(backend_id) && l.has_client(key) && identity_of(
            l.client_row(key).backend_id,
        ) != Some(identity(backend_id)) ==> l.released(key).has_backend_id(backend_id)
            && l.released(key).owner_of(backend_id) == l.owner_of(backend_id),
        !l.has_client(key) ==> l.released(key) == l,
{
}

/// A request of the backend that is over leaves the others, and their tokens, as they
/// are; its own token is free.
pub proof fn law_over_request_of_the_backend_leaves_others(
    l: LifetimeView,
    key: KeyView,
    other: KeyView,
    token: KeyView,
)
    requires
        l.indexes_live_rows(),
        key_identity(other) != key_identity(key),
    ensures
        !l.peer_released(key).has_peer(key),
        same_peer_row(l, l.peer_released(key), other),
        l.has_peer(key) && l.peer_by_id[key_identity(key)] is Some ==> !l.peer_released(
            key,
        ).peer_by_token.contains_key(
            key_identity((key.0, l.peer_by_id[key_identity(key)]->0)),
        ),
        l.has_peer(key) && l.peer_by_token.contains_key(token) && (l.peer_by_id[key_identity(key)]
            is Some ==> token != key_identity((key.0, l.peer_by_id[key_identity(key)]->0)))
            ==> l.peer_released(key).peer_by_token.contains_key(token),
        l.peer_released(key).by_client == l.by_client,
        l.peer_released(key).client_by_token == l.client_by_token,
{
}

/// Where there is one client, a request is taken up and bound in one step, and cancelled
/// without a session.
pub proof fn law_requests_of_the_one_client(
    l: &mut RequestLifetime,
    id: Json,
    backend_id: Json,
    request: &Json,
    unit: (),
    cancelled: &mut RequestLifetime,
    b: &mut Backend,
    raw: &Json,
    outcome: CancelOutcome,
)
    requires
        call_ensures(RequestLifetime::insert, (l, id, backend_id, request), unit),
        call_ensures(RequestLifetime::cancel_client_request, (cancelled, raw, b), outcome),
    ensures
        final(l)@.has_client((None, id@)),
        !old(l)@.has_client((None, id@)) ==> final(l)@.has_backend_id(backend_id@) && final(
            l)@.owner_of(backend_id@) == (None::<u64>, id@),
        old(l)@.has_client((None, id@)) ==> final(l)@ == old(l)@,
        (opt_field(field(raw@, "params"@), "requestId"@) matches Some(target) ==> {
            &&& !final(cancelled)@.has_client((None, target))
            &&& !old(cancelled)@.has_client((None, target)) ==> !outcome.accepted
                && outcome.call is None && final(b)@ == old(b)@ && final(cancelled)@ == old(
                cancelled)@
        }),
        opt_field(field(raw@, "params"@), "requestId"@) is None ==> !outcome.accepted && final(
            cancelled)@ == old(cancelled)@ && final(b)@ == old(b)@,
{
}

/// The session that requests of the backend go to is the only one that has a request
/// there.
pub proof fn law_one_session_has_requests_there(
    l: RequestLifetime,
    session: Option<u64>,
    key: KeyView,
)
    requires
        call_ensures(RequestLifetime::unique_bound_session, (&l,), session),
        l@.by_client.contains_key(key),
        key.0 is Some,
        l@.by_client[key].backend_id is Some,
    ensures
        session matches Some(s) ==> key.0 == Some(s),
{
}

} // verus!
