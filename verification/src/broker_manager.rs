//! The broker: one backend and one cache, shared by many client sessions.
//!
//! What a session says is handled as in the running proxy, with its session in the
//! key of each of its requests. What the backend says goes to the session it is
//! for, or to all of them.

use vstd::prelude::*;
use vstd::string::*;

use crate::backend_manager::{Backend, BackendEvent, BackendView, RequestFailure, SlotView};
use crate::cli::texts;
use crate::error_codes::INTERNAL_ERROR;
use crate::event_plane::{
    list_changed_data_keys, list_changed_methods, list_changed_notification_methods,
    notification_program, notification_program_of, stale_keys, strs_view, Dir, EventProgramId,
};
use crate::json::{
    field, identity, items_view, opt_field, str_of, with_field, Json, JsonView, NumberView,
};
use crate::lifetime::{
    cancel_from_backend, cancelled_by_client, cancelled_id, identity_of, key_identity,
    progressed_token, requested_token, same_client_row, same_peer_row, unique_session, ActiveView,
    KeyView, LifetimeView, RequestLifetime,
};
use crate::mcp_interface::{data_method, McpDataKey};
use crate::mcp_manager::{Cache, CacheView, RefreshReport};
use crate::runtime_manager::{
    after_ensure, call_step, client_step, end_of_request, error_code, error_text,
    law_client_messages_by_their_fields, law_failed_requests_are_answered, method_or_empty,
    on_client_message, pass_through_end, request_plan, response_step, ActionView, CallStep,
    CallStepView, ClientAction, ClientStep, EndView, Forwarded, PassThroughEnd,
};
use crate::text::{parse_unsigned, text_eq, unsigned_value};
use crate::timeouts::{BROKER_IDLE_SECS, DEFAULT_INIT_TIMEOUT_SECS};
use crate::tools::backend::{first_step, ControlStep};
use crate::tools::schema::ToolAction;
use crate::transport::{
    build_error_response, build_notification, error_response_view, field_text, notification_view,
};

verus! {

/// Seconds after which the broker exits if no session was ever opened.
pub const ORPHAN_TIMEOUT_SECS: u64 = 120;

/// What the broker is started with.
#[derive(Debug)]
pub struct BrokerArgs {
    pub init_timeout_secs: u64,
    pub no_idle_timeout: bool,
    pub cmd: String,
    pub args: Vec<String>,
}

/// The value of `BrokerArgs`.
#[verifier::ext_equal]
pub struct BrokerArgsView {
    pub init_timeout_secs: u64,
    pub no_idle_timeout: bool,
    pub cmd: Seq<char>,
    pub args: Seq<Seq<char>>,
}

impl View for BrokerArgs {
    type V = BrokerArgsView;

    open spec fn view(&self) -> BrokerArgsView {
        BrokerArgsView {
            init_timeout_secs: self.init_timeout_secs,
            no_idle_timeout: self.no_idle_timeout,
            cmd: self.cmd@,
            args: texts(self.args@),
        }
    }
}

/// The seconds that a text stands for: at least one, and the default where it is no
/// number.
pub open spec fn timeout_secs(s: Seq<char>) -> u64 {
    match unsigned_value(s, u64::MAX as nat) {
        Some(n) => if n >= 1 {
            n as u64
        } else {
            1
        },
        None => DEFAULT_INIT_TIMEOUT_SECS,
    }
}

/// Whether a command line begins with a time limit.
pub open spec fn has_timeout(args: Seq<Seq<char>>) -> bool {
    args.len() >= 2 && args[0] == "--init-timeout"@
}

/// Where the command begins, but for the flag before it.
pub open spec fn command_start(args: Seq<Seq<char>>) -> int {
    if has_timeout(args) {
        2
    } else {
        0
    }
}

/// Whether the flag that keeps an idle broker running stands anywhere behind the
/// time limit.
pub open spec fn keeps_running(args: Seq<Seq<char>>) -> bool {
    args.subrange(command_start(args), args.len() as int).contains("--no-idle-timeout"@)
}

/// What a broker command line says. With the flag, the word before the command is
/// skipped; the command line must go on behind it.
pub open spec fn broker_args_view(args: Seq<Seq<char>>) -> Option<BrokerArgsView> {
    let start = command_start(args);
    let at = if keeps_running(args) {
        start + 1
    } else {
        start
    };
    if args.len() <= start {
        None
    } else {
        Some(
            BrokerArgsView {
                init_timeout_secs: if has_timeout(args) {
                    timeout_secs(args[1])
                } else {
                    DEFAULT_INIT_TIMEOUT_SECS
                },
                no_idle_timeout: keeps_running(args),
                cmd: args[at],
                args: args.subrange(at + 1, args.len() as int),
            },
        )
    }
}

/// Whether the flag is the last word and no command follows.
pub open spec fn ends_in_flag(args: Seq<Seq<char>>) -> bool {
    args.len() == command_start(args) + 1 && keeps_running(args)
}

/// Whether the flag is the last word and no command follows.
pub fn flag_without_command(args: &Vec<String>) -> (b: bool)
    ensures
        b == ends_in_flag(texts(args@)),
{
    let ghost words = texts(args@);
    let start: usize = if args.len() >= 2 && text_eq(args[0].as_str(), "--init-timeout") {
        2
    } else {
        0
    };
    assert(args@.len() >= 2 ==> words[0] == args@[0]@);
    assert(start == command_start(words));
    if args.len() != start + 1 {
        return false;
    }
    let ghost rest = words.subrange(start as int, words.len() as int);
    assert(rest[0] == args@[start as int]@);
    let flag = text_eq(args[start].as_str(), "--no-idle-timeout");
    assert(flag == rest.contains("--no-idle-timeout"@)) by {
        if flag {
            assert(rest.contains(rest[0]));
        }
    }
    flag
}

/// Parses a broker command line: `[--init-timeout N] <command> [args...]`. Where
/// `--no-idle-timeout` stands anywhere behind the time limit, the broker keeps running,
/// and the first word behind the time limit is skipped, whichever word that is: the
/// command begins with the next one. `None` where nothing stands behind the time limit.
pub fn parse_broker_args(args: &Vec<String>) -> (r: Option<BrokerArgs>)
    requires
        !ends_in_flag(texts(args@)),
    ensures
        match r {
            Some(parsed) => broker_args_view(texts(args@)) == Some(parsed@),
            None => broker_args_view(texts(args@)) is None,
        },
{
    let ghost words = texts(args@);
    let mut init_timeout_secs: u64 = DEFAULT_INIT_TIMEOUT_SECS;
    let mut start: usize = 0;
    if args.len() >= 2 && text_eq(args[0].as_str(), "--init-timeout") {
        assert(words[0] == args@[0]@);
        assert(words[1] == args@[1]@);
        init_timeout_secs =
        match parse_unsigned(args[1].as_str(), u64::MAX) {
            Some(n) => if n >= 1 {
                n
            } else {
                1
            },
            None => DEFAULT_INIT_TIMEOUT_SECS,
        };
        start = 2;
    } else {
        assert(args@.len() >= 2 ==> words[0] == args@[0]@);
    }
    assert(start == command_start(words));
    if args.len() <= start {
        return None;
    }
    let ghost rest = words.subrange(start as int, words.len() as int);
    let mut no_idle_timeout = false;
    let mut i: usize = start;
    while i < args.len()
        invariant
            start <= i <= args@.len(),
            words == texts(args@),
            rest == words.subrange(start as int, words.len() as int),
            no_idle_timeout == exists|k: int|
                0 <= k < i - start && #[trigger] rest[k] == "--no-idle-timeout"@,
        decreases args@.len() - i,
    {
        let here = text_eq(args[i].as_str(), "--no-idle-timeout");
        assert(rest[i - start] == args@[i as int]@);
        if here {
            no_idle_timeout = true;
        }
        i = i + 1;
    }
    assert(no_idle_timeout == keeps_running(words)) by {
        if no_idle_timeout {
            let k = choose|k: int|
                0 <= k < i - start && #[trigger] rest[k] == "--no-idle-timeout"@;
            assert(rest.contains(rest[k]));
        }
        if keeps_running(words) {
            let k = choose|k: int| 0 <= k < rest.len() && rest[k] == "--no-idle-timeout"@;
            assert(rest[k] == "--no-idle-timeout"@);
        }
    }
    let at: usize = if no_idle_timeout {
        start + 1
    } else {
        start
    };
    let cmd = args[at].clone();
    let mut cmd_args: Vec<String> = Vec::new();
    let mut j: usize = at + 1;
    while j < args.len()
        invariant
            at < j <= args@.len(),
            words == texts(args@),
            texts(cmd_args@) == words.subrange(at + 1, j as int),
        decreases args@.len() - j,
    {
        let ghost before = cmd_args@;
        cmd_args.push(args[j].clone());
        assert(texts(cmd_args@) =~= texts(before).push(words[j as int]));
        assert(words.subrange(at + 1, j + 1) =~= words.subrange(at + 1, j as int).push(
            words[j as int],
        ));
        j = j + 1;
    }
    Some(BrokerArgs { init_timeout_secs, no_idle_timeout, cmd, args: cmd_args })
}

/// Filtering keeps what passes, and keeps it distinct.
proof fn lemma_filtered(s: Seq<u64>, keep: spec_fn(u64) -> bool)
    requires
        s.no_duplicates(),
    ensures
        s.filter(keep).no_duplicates(),
        forall|x: u64| #[trigger] s.filter(keep).contains(x) <==> s.contains(x) && keep(x),
    decreases s.len(),
{
    reveal(Seq::filter);
    if s.len() > 0 {
        let front = s.drop_last();
        let last = s.last();
        lemma_filtered(front, keep);
        let kept = front.filter(keep);
        let out = s.filter(keep);
        assert(!front.contains(last)) by {
            if front.contains(last) {
                let k = choose|k: int| 0 <= k < front.len() && front[k] == last;
                assert(s[k] == s[s.len() - 1]);
            }
        }
        assert(s =~= front.push(last));
        assert forall|x: u64| #[trigger] out.contains(x) implies s.contains(x) && keep(x) by {
            let k = choose|k: int| 0 <= k < out.len() && out[k] == x;
            if k < kept.len() {
                assert(kept.contains(kept[k]));
                assert(front.contains(x));
                let j = choose|j: int| 0 <= j < front.len() && front[j] == x;
                assert(s[j] == x);
            }
        }
        assert forall|x: u64| s.contains(x) && keep(x) implies #[trigger] out.contains(x) by {
            let k = choose|k: int| 0 <= k < s.len() && s[k] == x;
            if k < front.len() {
                assert(front[k] == x);
                assert(kept.contains(x));
                let j = choose|j: int| 0 <= j < kept.len() && kept[j] == x;
                assert(out[j] == x);
            } else {
                assert(out[out.len() - 1] == x);
            }
        }
        assert(forall|k: int| 0 <= k < kept.len() ==> kept.contains(#[trigger] kept[k]));
    }
}

/// The open sessions, and the number that the next one gets.
#[derive(Debug)]
pub struct Sessions {
    open: Vec<u64>,
    next: u64,
}

/// The value of `Sessions`.
#[verifier::ext_equal]
pub struct SessionsView {
    pub open: Seq<u64>,
    pub next: u64,
}

impl View for Sessions {
    type V = SessionsView;

    closed spec fn view(&self) -> SessionsView {
        SessionsView { open: self.open@, next: self.next }
    }
}

/// All sessions but one.
pub open spec fn other_than(session: u64) -> spec_fn(u64) -> bool {
    |s: u64| s != session
}

impl SessionsView {
    /// No session is listed twice.
    pub open spec fn distinct(self) -> bool {
        self.open.no_duplicates()
    }

    /// A session with the next number is open.
    pub open spec fn opened(self) -> SessionsView {
        SessionsView {
            open: self.closed(self.next).open.push(self.next),
            next: self.next.wrapping_add(1),
        }
    }

    /// A session is closed.
    pub open spec fn closed(self, session: u64) -> SessionsView {
        SessionsView { open: self.open.filter(other_than(session)), ..self }
    }
}

impl Sessions {
    pub fn new() -> (s: Sessions)
        ensures
            s@ == (SessionsView { open: Seq::empty(), next: 1 }),
            s@.distinct(),
    {
        Sessions { open: Vec::new(), next: 1 }
    }

    /// Opens a session. Returns its number.
    pub fn open(&mut self) -> (session: u64)
        requires
            old(self)@.distinct(),
        ensures
            session == old(self)@.next,
            final(self)@ == old(self)@.opened(),
            final(self)@.distinct(),
    {
        let session: u64 = self.next;
        self.close(session);
        let ghost before = self.open@;
        self.open.push(session);
        self.next = session.wrapping_add(1);
        assert(forall|k: int| 0 <= k < before.len() ==> before.contains(#[trigger] before[k]));
        session
    }

    /// Closes a session.
    pub fn close(&mut self, session: u64)
        requires
            old(self)@.distinct(),
        ensures
            final(self)@ == old(self)@.closed(session),
            final(self)@.distinct(),
            !final(self)@.open.contains(session),
    {
        let ghost keep = other_than(session);
        let mut open: Vec<u64> = Vec::new();
        let mut i: usize = 0;
        assert(self.open@.take(0) =~= Seq::empty());
        assert(Seq::<u64>::empty().filter(keep) =~= Seq::empty()) by {
            reveal(Seq::filter);
        }
        while i < self.open.len()
            invariant
                *self == *old(self),
                i <= self.open@.len(),
                keep == other_than(session),
                open@ == self.open@.take(i as int).filter(keep),
            decreases self.open@.len() - i,
        {
            proof {
                let upto = self.open@.take(i + 1);
                assert(upto.drop_last() =~= self.open@.take(i as int));
                assert(upto.last() == self.open@[i as int]);
                reveal(Seq::filter);
            }
            if self.open[i] != session {
                open.push(self.open[i]);
            }
            i = i + 1;
        }
        assert(self.open@.take(i as int) =~= self.open@);
        proof {
            lemma_filtered(self.open@, keep);
        }
        self.open = open;
    }

    /// Whether no session is open.
    pub fn is_empty(&self) -> (b: bool)
        ensures
            b == (self@.open.len() == 0),
    {
        self.open.len() == 0
    }

    /// Whether a session was ever opened.
    pub fn ever_had_session(&self) -> (b: bool)
        ensures
            b == (self@.next > 1),
    {
        self.next > 1
    }

    /// The open sessions.
    pub fn ids(&self) -> (ids: &Vec<u64>)
        ensures
            ids@ == self@.open,
    {
        &self.open
    }
}

/// What a message of a session leads to, and whether its request got a row of its
/// own.
#[verifier::ext_equal]
pub struct SessionStep {
    pub step: ClientStep,
    pub listed: bool,
}

/// What becomes of a message of a session. It is handled as a message of a client;
/// a request for the backend is taken up at once, so that it counts as running and
/// can be cancelled while it waits its turn. A second request with an id that is
/// under way gets no row.
pub open spec fn session_step(
    l: LifetimeView,
    b: BackendView,
    cache: CacheView,
    session: u64,
    live: bool,
    raw: JsonView,
) -> SessionStep {
    let step = client_step(l, b, cache, false, Some(session), live, raw);
    match step.action {
        ActionView::PassThrough { id, raw } => SessionStep {
            step: ClientStep {
                lifetime: step.lifetime.admitted((Some(session), id), requested_token(raw)),
                ..step
            },
            listed: !step.lifetime.has_client((Some(session), id)),
        },
        _ => SessionStep { step, listed: false },
    }
}

/// Handles a message of a session.
pub fn on_session_message(
    lifetime: &mut RequestLifetime,
    backend: &mut Backend,
    cache: &Cache,
    session: u64,
    live: bool,
    raw: Json,
) -> (r: (ClientAction, bool))
    requires
        old(lifetime)@.indexes_live_rows(),
        cache.wf(),
    ensures
        final(lifetime)@.indexes_live_rows(),
        session_step(old(lifetime)@, old(backend)@, cache@, session, live, raw@) == (SessionStep {
            step: ClientStep {
                lifetime: final(lifetime)@,
                backend: final(backend)@,
                action: r.0@,
            },
            listed: r.1,
        }),
{
    let action = on_client_message(lifetime, backend, cache, false, Some(session), live, raw);
    let listed = match &action {
        ClientAction::PassThrough { id, raw } => lifetime.admit_with_session(
            Some(session),
            id.copy(),
            raw,
        ),
        _ => false,
    };
    (action, listed)
}

/// What the turn of a waiting request leads to: what is sent, and under which id.
#[verifier::ext_equal]
pub struct QueuedView {
    pub lifetime: LifetimeView,
    pub backend: BackendView,
    pub forwarded: Option<(JsonView, JsonView)>,
}

/// The turn of a waiting request: one that was cancelled meanwhile is not sent, any
/// other gets the next id at the backend.
pub open spec fn queued_step(
    l: LifetimeView,
    b: BackendView,
    session: u64,
    client_id: JsonView,
    listed: bool,
    raw: JsonView,
) -> QueuedView {
    let key = (Some(session), client_id);
    let backend_id = JsonView::Num(NumberView::Int(b.next_id as int));
    if listed && !l.has_client(key) {
        QueuedView { lifetime: l, backend: b, forwarded: None }
    } else {
        QueuedView {
            lifetime: if listed {
                l.bound(key, backend_id)
            } else {
                l
            },
            backend: BackendView { next_id: b.next_id.wrapping_add(1), ..b },
            forwarded: Some((backend_id, with_field(raw, "id"@, backend_id))),
        }
    }
}

/// The turn of a waiting request has come: it gets an id at the backend and is
/// bound to it. `None` where it was cancelled meanwhile.
pub fn send_queued(
    lifetime: &mut RequestLifetime,
    backend: &mut Backend,
    session: u64,
    client_id: &Json,
    listed: bool,
    raw: Json,
) -> (forwarded: Option<Forwarded>)
    requires
        old(lifetime)@.indexes_live_rows(),
    ensures
        final(lifetime)@.indexes_live_rows(),
        queued_step(old(lifetime)@, old(backend)@, session, client_id@, listed, raw@) == (
        QueuedView {
            lifetime: final(lifetime)@,
            backend: final(backend)@,
            forwarded: match forwarded {
                Some(f) => Some((f.backend_id@, f.message@)),
                None => None,
            },
        }),
{
    if listed && !lifetime.contains_client_for_session(session, client_id) {
        return None;
    }
    let backend_id = backend.next_request_id();
    let mut message = raw;
    message.set("id", backend_id.copy());
    if listed {
        lifetime.bind_backend(Some(session), client_id, backend_id.copy());
    }
    Some(Forwarded { backend_id, message })
}

/// What the end of a request of a session leads to: a request with a row is over, and
/// how it ends.
pub open spec fn session_finish_step(
    l: LifetimeView,
    b: BackendView,
    session: u64,
    client_id: JsonView,
    listed: bool,
    backend_id: JsonView,
    result: Result<Json, RequestFailure>,
) -> (LifetimeView, EndView) {
    (
        if listed {
            l.released((Some(session), client_id))
        } else {
            l
        },
        pass_through_end(b, client_id, backend_id, result, false),
    )
}

/// Ends a request of a session: it is over, and this is its answer.
pub fn finish_session_request(
    lifetime: &mut RequestLifetime,
    backend: &Backend,
    session: u64,
    client_id: Json,
    listed: bool,
    backend_id: &Json,
    result: Result<Json, RequestFailure>,
) -> (end: PassThroughEnd)
    requires
        old(lifetime)@.indexes_live_rows(),
    ensures
        final(lifetime)@.indexes_live_rows(),
        session_finish_step(
            old(lifetime)@,
            backend@,
            session,
            client_id@,
            listed,
            backend_id@,
            result,
        ) == (final(lifetime)@, end@),
{
    if listed {
        match &result {
            Err(RequestFailure::TimedOut) => lifetime.timeout_client_for_session(
                session,
                &client_id,
            ),
            _ => lifetime.remove_client_for_session(session, &client_id),
        }
    }
    end_of_request(backend, client_id, backend_id, result, false)
}

/// How a request of a session goes on once a backend was asked for, and what is under
/// way from there on.
pub open spec fn session_call_step(
    l: LifetimeView,
    session: u64,
    client_id: JsonView,
    listed: bool,
    ensured: Result<bool, String>,
    present: bool,
) -> (LifetimeView, CallStepView) {
    let step = call_step(client_id, ensured, present);
    (
        if listed && step is End {
            l.released((Some(session), client_id))
        } else {
            l
        },
        step,
    )
}

/// Decides how a request of a session goes on once a backend was asked for. Where it
/// ends here, it is over.
pub fn after_session_ensure(
    lifetime: &mut RequestLifetime,
    session: u64,
    client_id: &Json,
    listed: bool,
    ensured: Result<bool, String>,
    present: bool,
) -> (step: CallStep)
    requires
        old(lifetime)@.indexes_live_rows(),
    ensures
        final(lifetime)@.indexes_live_rows(),
        session_call_step(
            old(lifetime)@,
            session,
            client_id@,
            listed,
            ensured,
            present,
        ) == (final(lifetime)@, step@),
{
    let step = after_ensure(client_id, ensured, present);
    if let CallStep::End(_) = &step {
        if listed {
            lifetime.remove_client_for_session(session, client_id);
        }
    }
    step
}

/// What becomes of an event of the shared backend.
#[derive(Debug)]
pub enum BrokerAction {
    /// Nothing.
    Ignore,
    /// This message goes to one session.
    ToSession(u64, Json),
    /// This message goes to every session.
    ToAll(Json),
    /// This notification tells a session that its request was cancelled; who waited
    /// for the answer waits no more.
    Cancelled { session: Option<u64>, message: Json, waiter: Option<u64> },
    /// The lists are to be read again; the notification goes to every session once
    /// they are.
    RefreshThenToAll { keys: Vec<McpDataKey>, notification: Json },
    /// This refusal goes back to the backend.
    ToBackend(Json),
}

/// The value of a `BrokerAction`.
#[verifier::ext_equal]
pub enum BrokerActionView {
    Ignore,
    ToSession(u64, JsonView),
    ToAll(JsonView),
    Cancelled { session: Option<u64>, message: JsonView, waiter: Option<u64> },
    RefreshThenToAll { keys: Seq<McpDataKey>, notification: JsonView },
    ToBackend(JsonView),
}

impl View for BrokerAction {
    type V = BrokerActionView;

    open spec fn view(&self) -> BrokerActionView {
        match self {
            BrokerAction::Ignore => BrokerActionView::Ignore,
            BrokerAction::ToSession(s, j) => BrokerActionView::ToSession(*s, j@),
            BrokerAction::ToAll(j) => BrokerActionView::ToAll(j@),
            BrokerAction::Cancelled { session, message, waiter } => BrokerActionView::Cancelled {
                session: *session,
                message: message@,
                waiter: *waiter,
            },
            BrokerAction::RefreshThenToAll { keys, notification } => {
                BrokerActionView::RefreshThenToAll { keys: keys@, notification: notification@ }
            },
            BrokerAction::ToBackend(j) => BrokerActionView::ToBackend(j@),
        }
    }
}

/// The one session whose requests are at the backend, if there is exactly one.
pub open spec fn bound_session(by_client: Map<KeyView, ActiveView>) -> Option<u64> {
    if exists|s: u64| unique_session(by_client, s) {
        Some(choose|s: u64| unique_session(by_client, s))
    } else {
        None
    }
}

proof fn lemma_bound_session(by_client: Map<KeyView, ActiveView>, session: Option<u64>)
    requires
        match session {
            Some(s) => unique_session(by_client, s),
            None => forall|s: u64| !unique_session(by_client, s),
        },
    ensures
        session == bound_session(by_client),
{
    if let Some(s) = session {
        let t = choose|t: u64| unique_session(by_client, t);
        assert(unique_session(by_client, t));
        let key = choose|key: KeyView|
            by_client.contains_key(key) && key.0 == Some(t) && (
            #[trigger] by_client[key]).backend_id is Some;
        assert(by_client[key].backend_id is Some);
    }
}

/// What an event of the shared backend leads to.
#[verifier::ext_equal]
pub struct BrokerStep {
    pub lifetime: LifetimeView,
    pub backend: BackendView,
    pub action: BrokerActionView,
}

/// The refusal of a request of the backend that no session is there to answer.
pub open spec fn refusal(req: JsonView) -> BrokerActionView {
    match field(req, "id"@) {
        Some(id) => BrokerActionView::ToBackend(
            error_response_view(
                id,
                INTERNAL_ERROR as int,
                "no active client session for server request"@,
                None,
            ),
        ),
        None => BrokerActionView::Ignore,
    }
}

/// What becomes of an event of the shared backend; `occupied`: the backend is still
/// in its slot. Progress and cancellations go to the session whose request they are
/// about, a request of the backend to the one session that has calls there, and
/// everything else to all sessions.
pub open spec fn broker_step(
    l: LifetimeView,
    b: BackendView,
    occupied: bool,
    event: BackendEvent,
) -> BrokerStep {
    let nothing = BrokerStep { lifetime: l, backend: b, action: BrokerActionView::Ignore };
    match event {
        BackendEvent::Notification(n) => {
            let method = method_or_empty(n@);
            match notification_program_of(Dir::ServerToClient, method) {
                Some(EventProgramId::ProgressRequest) => match progressed_token(n@) {
                    Some(t) => if l.has_token(t) {
                        match l.client_by_token[identity(t)].0 {
                            Some(s) => BrokerStep {
                                action: BrokerActionView::ToSession(s, n@),
                                ..nothing
                            },
                            None => nothing,
                        }
                    } else {
                        nothing
                    },
                    None => nothing,
                },
                Some(EventProgramId::CancelRequest) => if !occupied {
                    nothing
                } else {
                    let cancel = cancel_from_backend(l, b, n@);
                    BrokerStep {
                        lifetime: cancel.lifetime,
                        backend: cancel.backend,
                        action: match cancel.translated {
                            Some((session, message)) => BrokerActionView::Cancelled {
                                session,
                                message,
                                waiter: cancel.waiter,
                            },
                            None => BrokerActionView::Ignore,
                        },
                    }
                },
                _ => BrokerStep {
                    action: if stale_keys(method).len() > 0 {
                        BrokerActionView::RefreshThenToAll {
                            keys: stale_keys(method),
                            notification: n@,
                        }
                    } else {
                        BrokerActionView::ToAll(n@)
                    },
                    ..nothing
                },
            }
        },
        BackendEvent::PeerRequest(req) => match bound_session(l.by_client) {
            Some(s) => BrokerStep {
                lifetime: match field(req@, "id"@) {
                    Some(id) => l.peer_admitted((Some(s), id), requested_token(req@)),
                    None => l,
                },
                backend: b,
                action: BrokerActionView::ToSession(s, req@),
            },
            None => BrokerStep { action: refusal(req@), ..nothing },
        },
        BackendEvent::UnmatchedResponse(resp) => BrokerStep {
            action: BrokerActionView::ToAll(resp@),
            ..nothing
        },
        BackendEvent::ProcessExit => BrokerStep {
            lifetime: LifetimeView {
                peer_by_id: Map::empty(),
                peer_by_token: Map::empty(),
                ..l
            },
            ..nothing
        },
    }
}

/// Passes a request of the backend to the one session that has calls there, or
/// refuses it.
pub fn forward_peer_request(lifetime: &mut RequestLifetime, req: Json) -> (action: BrokerAction)
    requires
        old(lifetime)@.indexes_live_rows(),
    ensures
        final(lifetime)@.indexes_live_rows(),
        match bound_session(old(lifetime)@.by_client) {
            Some(s) => {
                &&& action@ == BrokerActionView::ToSession(s, req@)
                &&& final(lifetime)@ == match field(req@, "id"@) {
                    Some(id) => old(lifetime)@.peer_admitted(
                        (Some(s), id),
                        requested_token(req@),
                    ),
                    None => old(lifetime)@,
                }
            },
            None => {
                &&& action@ == refusal(req@)
                &&& final(lifetime)@ == old(lifetime)@
            },
        },
{
    let session = lifetime.unique_bound_session();
    proof {
        lemma_bound_session(lifetime@.by_client, session);
    }
    match session {
        Some(s) => {
            lifetime.insert_peer_request(Some(s), &req);
            BrokerAction::ToSession(s, req)
        },
        None => match req.get("id") {
            Some(id) => BrokerAction::ToBackend(
                build_error_response(
                    id.copy(),
                    INTERNAL_ERROR,
                    "no active client session for server request",
                    None,
                ),
            ),
            None => BrokerAction::Ignore,
        },
    }
}

/// Handles an event of the shared backend.
pub fn on_broker_event(
    lifetime: &mut RequestLifetime,
    backend: &mut Backend,
    occupied: bool,
    event: BackendEvent,
) -> (action: BrokerAction)
    requires
        old(lifetime)@.indexes_live_rows(),
    ensures
        final(lifetime)@.indexes_live_rows(),
        broker_step(old(lifetime)@, old(backend)@, occupied, event) == (BrokerStep {
            lifetime: final(lifetime)@,
            backend: final(backend)@,
            action: action@,
        }),
{
    match event {
        BackendEvent::Notification(n) => {
            let method = match field_text(n.get("method")) {
                Some(method) => method.to_owned(),
                None => String::new(),
            };
            match notification_program(Dir::ServerToClient, method.as_str()) {
                Some(EventProgramId::ProgressRequest) => {
                    match lifetime.session_for_backend_progress(&n) {
                        Some(s) => BrokerAction::ToSession(s, n),
                        None => BrokerAction::Ignore,
                    }
                },
                Some(EventProgramId::CancelRequest) => {
                    if !occupied {
                        return BrokerAction::Ignore;
                    }
                    let outcome = lifetime.translate_backend_cancel(&n, backend);
                    match outcome.translated {
                        Some(t) => BrokerAction::Cancelled {
                            session: t.session_id,
                            message: t.message,
                            waiter: outcome.waiter,
                        },
                        None => BrokerAction::Ignore,
                    }
                },
                _ => {
                    let keys = list_changed_data_keys(method.as_str());
                    if keys.len() > 0 {
                        BrokerAction::RefreshThenToAll { keys, notification: n }
                    } else {
                        BrokerAction::ToAll(n)
                    }
                },
            }
        },
        BackendEvent::PeerRequest(req) => forward_peer_request(lifetime, req),
        BackendEvent::UnmatchedResponse(resp) => BrokerAction::ToAll(resp),
        BackendEvent::ProcessExit => {
            lifetime.clear_peer_requests();
            BrokerAction::Ignore
        },
    }
}

/// The notifications that tell a client to read its lists again.
pub open spec fn announcements() -> Seq<JsonView> {
    Seq::new(
        list_changed_methods().len(),
        |i: int| notification_view(list_changed_methods()[i], None),
    )
}

/// Builds the notifications that tell a client to read its lists again.
pub fn notify_clients_list_changed() -> (notifications: Vec<Json>)
    ensures
        items_view(notifications@) == announcements(),
{
    let methods = list_changed_notification_methods();
    let mut notifications: Vec<Json> = Vec::new();
    let mut i: usize = 0;
    while i < methods.len()
        invariant
            i <= methods@.len(),
            strs_view(methods@) == list_changed_methods(),
            notifications@.len() == i,
            forall|k: int|
                0 <= k < i ==> (#[trigger] notifications@[k])@ == notification_view(
                    list_changed_methods()[k],
                    None,
                ),
        decreases methods@.len() - i,
    {
        assert(strs_view(methods@)[i as int] == methods@[i as int]@);
        notifications.push(build_notification(methods[i], None));
        i = i + 1;
    }
    assert(items_view(notifications@) =~= announcements());
    notifications
}

/// What the clients are told once the lists of a backend that was started anew have
/// been read: that their lists changed, or nothing where reading them failed.
pub fn after_respawn_refresh(result: Result<RefreshReport, String>) -> (notifications: Vec<Json>)
    ensures
        items_view(notifications@) == if result is Ok {
            announcements()
        } else {
            Seq::empty()
        },
{
    match result {
        Ok(_) => notify_clients_list_changed(),
        Err(_) => {
            let none: Vec<Json> = Vec::new();
            assert(items_view(none@) =~= Seq::empty());
            none
        },
    }
}

/// Whether the clients are to be told of changed lists once an action has come to
/// this step: a refresh or a restart that succeeded.
pub fn is_announced(action: ToolAction, step: &ControlStep) -> (b: bool)
    ensures
        b == ((action is BackendRefresh || action is BackendRestart) && step@ is Answer),
{
    let mutation = match action {
        ToolAction::BackendRefresh | ToolAction::BackendRestart => true,
        _ => false,
    };
    let answered = match step {
        ControlStep::Answer(_) => true,
        _ => false,
    };
    mutation && answered
}

/// Nanoseconds in a second.
pub const NANOS_PER_SEC: u64 = 1_000_000_000;

/// When the broker was started and when it last had a session, in nanoseconds of a
/// clock that does not go back.
#[derive(Debug, Clone, Copy)]
pub struct IdleWatch {
    pub spawned_at: u64,
    pub last_active: u64,
}

/// Whether an idle broker exits.
pub open spec fn idles_out(
    watch: IdleWatch,
    now: u64,
    any_session: bool,
    ever_had_session: bool,
) -> bool {
    &&& !any_session
    &&& if ever_had_session {
        now - watch.last_active > BROKER_IDLE_SECS * NANOS_PER_SEC
    } else {
        now - watch.spawned_at > ORPHAN_TIMEOUT_SECS * NANOS_PER_SEC
    }
}

impl IdleWatch {
    pub fn new(now: u64) -> (watch: IdleWatch)
        ensures
            watch == (IdleWatch { spawned_at: now, last_active: now }),
    {
        IdleWatch { spawned_at: now, last_active: now }
    }

    /// Looks at the clock. Returns whether the broker is to exit: no session was ever
    /// opened, or all are gone, for too long.
    pub fn idle_check(&mut self, now: u64, any_session: bool, ever_had_session: bool) -> (exit:
        bool)
        ensures
            exit == idles_out(*old(self), now, any_session, ever_had_session),
            *final(self) == watched(*old(self), false, now, any_session),
    {
        if any_session {
            self.last_active = now;
            return false;
        }
        if ever_had_session {
            now > self.last_active && now - self.last_active > BROKER_IDLE_SECS * NANOS_PER_SEC
        } else {
            now > self.spawned_at && now - self.spawned_at > ORPHAN_TIMEOUT_SECS * NANOS_PER_SEC
        }
    }
}

/// Whether a broker exits for being idle: never, where it is to keep running.
pub open spec fn broker_idles_out(
    watch: IdleWatch,
    no_idle_timeout: bool,
    now: u64,
    any_session: bool,
    ever_had_session: bool,
) -> bool {
    !no_idle_timeout && idles_out(watch, now, any_session, ever_had_session)
}

/// The watch after a look at the clock: an open session counts as activity, where the
/// broker watches the clock at all.
pub open spec fn watched(
    watch: IdleWatch,
    no_idle_timeout: bool,
    now: u64,
    any_session: bool,
) -> IdleWatch {
    if any_session && !no_idle_timeout {
        IdleWatch { last_active: now, ..watch }
    } else {
        watch
    }
}

/// Looks at the clock. Returns whether the broker is to exit for being idle. A broker
/// that is to keep running does not watch the clock.
pub fn broker_exits(
    watch: &mut IdleWatch,
    no_idle_timeout: bool,
    now: u64,
    any_session: bool,
    ever_had_session: bool,
) -> (exit: bool)
    ensures
        exit == broker_idles_out(*old(watch), no_idle_timeout, now, any_session, ever_had_session),
        *final(watch) == watched(*old(watch), no_idle_timeout, now, any_session),
{
    if no_idle_timeout {
        return false;
    }
    watch.idle_check(now, any_session, ever_had_session)
}

/// A broker with an open session does not exit for being idle.
pub proof fn law_open_session_keeps_broker(watch: IdleWatch, now: u64, ever_had_session: bool)
    ensures
        !idles_out(watch, now, true, ever_had_session),
{
}

/// A waiting request that its session cancels never reaches the backend: its row is
/// gone when its turn comes.
pub proof fn law_cancelled_in_queue(
    l: LifetimeView,
    b: BackendView,
    session: u64,
    id: JsonView,
    raw: JsonView,
)
    requires
        cancelled_id(raw) == Some(id),
        l.has_client((Some(session), id)),
        l.client_row((Some(session), id)).backend_id is None,
    ensures
        ({
            let cancel = cancelled_by_client(l, b, Some(session), raw);
            &&& cancel.accepted
            &&& cancel.call is None
            &&& cancel.backend == b
            &&& !cancel.lifetime.has_client((Some(session), id))
        }),
{
}

/// What one session says leaves the requests of every other session as they are.
pub proof fn law_sessions_do_not_meet(
    l: LifetimeView,
    b: BackendView,
    cache: CacheView,
    session: u64,
    other: u64,
    id: JsonView,
    live: bool,
    raw: JsonView,
)
    requires
        session != other,
    ensures
        ({
            let after = session_step(l, b, cache, session, live, raw).step.lifetime;
            let key = (Some(other), id);
            &&& same_client_row(l, after, key)
            &&& same_peer_row(l, after, key)
        }),
{
}

/// A call at the backend that a message of a session ends was a call of that
/// session.
pub proof fn law_session_cancels_only_its_own(
    l: LifetimeView,
    b: BackendView,
    cache: CacheView,
    session: u64,
    live: bool,
    raw: JsonView,
    backend_id: JsonView,
)
    requires
        b.pending.contains_key(identity(backend_id)),
        !session_step(l, b, cache, session, live, raw).step.backend.pending.contains_key(
            identity(backend_id),
        ),
    ensures
        exists|id: JsonView|
            l.has_client((Some(session), id)) && identity_of(
                (#[trigger] l.client_row((Some(session), id))).backend_id,
            ) == Some(identity(backend_id)),
{
    let id = cancelled_id(raw)->0;
    assert(identity_of(l.client_row((Some(session), id)).backend_id) == Some(identity(backend_id)));
}

/// While any session has a request under way, no session can stop the backend, nor
/// restart it without force.
pub proof fn law_work_of_any_session_protects_the_backend(
    l: LifetimeView,
    key: KeyView,
    slot: SlotView,
    alive: bool,
    cache: CacheView,
)
    requires
        l.by_client.dom().finite(),
        l.has_client(key),
    ensures
        ({
            let active = l.by_client.dom().len();
            &&& first_step(ToolAction::BackendStop, false, slot, alive, cache, active) is Refuse
            &&& first_step(ToolAction::BackendRestart, false, slot, alive, cache, active) is Refuse
        }),
{
    assert(l.by_client.dom().contains(key_identity(key)));
    if l.by_client.dom().len() == 0 {
        l.by_client.dom().lemma_len0_is_empty();
    }
}

// ── What the broker is for ──────────────────────────────────────────

/// The methods of notifications, letter by letter.
proof fn lemma_notification_literals()
    ensures
        "notifications/cancelled"@.len() == 23,
        "notifications/progress"@.len() == 22,
        "notifications/tools/list_changed"@.len() == 32,
        "notifications/prompts/list_changed"@.len() == 34,
        "notifications/resources/list_changed"@.len() == 36,
        "notifications/"@ + "tools"@ + "/list_changed"@ == "notifications/tools/list_changed"@,
        "notifications/"@ + "prompts"@ + "/list_changed"@
            == "notifications/prompts/list_changed"@,
        "notifications/"@ + "resources"@ + "/list_changed"@
            == "notifications/resources/list_changed"@,
{
    reveal_strlit("notifications/cancelled");
    reveal_strlit("notifications/progress");
    reveal_strlit("notifications/tools/list_changed");
    reveal_strlit("notifications/prompts/list_changed");
    reveal_strlit("notifications/resources/list_changed");
    assert("notifications/cancelled"@.len() == 23);
    assert("notifications/progress"@.len() == 22);
    assert("notifications/tools/list_changed"@.len() == 32);
    assert("notifications/prompts/list_changed"@.len() == 34);
    assert("notifications/resources/list_changed"@.len() == 36);
    reveal_strlit("notifications/");
    reveal_strlit("tools");
    reveal_strlit("prompts");
    reveal_strlit("resources");
    reveal_strlit("/list_changed");
    assert("notifications/"@.len() == 14);
    assert("tools"@.len() == 5);
    assert("prompts"@.len() == 7);
    assert("resources"@.len() == 9);
    assert("/list_changed"@.len() == 13);
    assert("notifications/"@ + "tools"@ + "/list_changed"@ =~= "notifications/tools/list_changed"@);
    assert("notifications/"@ + "prompts"@ + "/list_changed"@
        =~= "notifications/prompts/list_changed"@);
    assert("notifications/"@ + "resources"@ + "/list_changed"@
        =~= "notifications/resources/list_changed"@);
}

/// A notification of the shared backend that is neither progress nor a cancellation and
/// changes no list reaches every session as it is, and changes nothing here. So does an
/// answer that nobody waits for.
pub proof fn law_other_notifications_reach_every_session(
    l: LifetimeView,
    b: BackendView,
    occupied: bool,
    n: Json,
)
    requires
        str_of(field(n@, "method"@)) != Some("notifications/progress"@),
        str_of(field(n@, "method"@)) != Some("notifications/cancelled"@),
        str_of(field(n@, "method"@)) != Some("notifications/tools/list_changed"@),
        str_of(field(n@, "method"@)) != Some("notifications/prompts/list_changed"@),
        str_of(field(n@, "method"@)) != Some("notifications/resources/list_changed"@),
    ensures
        broker_step(l, b, occupied, BackendEvent::Notification(n)) == (BrokerStep {
            lifetime: l,
            backend: b,
            action: BrokerActionView::ToAll(n@),
        }),
        broker_step(l, b, occupied, BackendEvent::UnmatchedResponse(n)) == (BrokerStep {
            lifetime: l,
            backend: b,
            action: BrokerActionView::ToAll(n@),
        }),
{
    lemma_notification_literals();
}

/// A notification that a list has changed has exactly the lists read again whose methods
/// begin with its name, and reaches every session after that.
pub proof fn law_changed_lists_are_read_again(
    l: LifetimeView,
    b: BackendView,
    occupied: bool,
    n: Json,
    name: Seq<char>,
    key: McpDataKey,
)
    requires
        name == "tools"@ || name == "prompts"@ || name == "resources"@,
        str_of(field(n@, "method"@)) == Some("notifications/"@ + name + "/list_changed"@),
    ensures
        ({
            let step = broker_step(l, b, occupied, BackendEvent::Notification(n));
            &&& step.lifetime == l
            &&& step.backend == b
            &&& step.action matches BrokerActionView::RefreshThenToAll { keys, notification } && {
                &&& notification == n@
                &&& keys.no_duplicates()
                &&& keys.contains(key) <==> (name + "/"@).is_prefix_of(data_method(key))
            }
        }),
{
    lemma_notification_literals();
    crate::runtime_manager::law_changed_lists_are_read_again(l, b, occupied, n, name, key);
}

/// Progress reaches the session whose request asked for it, and no other, while that
/// request lasts; it changes nothing.
pub proof fn law_progress_reaches_its_session(
    l: LifetimeView,
    b: BackendView,
    occupied: bool,
    n: Json,
    session: u64,
    id: JsonView,
    backend_id: JsonView,
    token: JsonView,
)
    requires
        l.indexes_live_rows(),
        !l.has_client((Some(session), id)),
        str_of(field(n@, "method"@)) == Some("notifications/progress"@),
        opt_field(field(n@, "params"@), "progressToken"@) == Some(token),
    ensures
        ({
            let key = (Some(session), id);
            let taken = l.admitted(key, Some(token)).bound(key, backend_id);
            let over = taken.released(key);
            &&& broker_step(taken, b, occupied, BackendEvent::Notification(n)) == (BrokerStep {
                lifetime: taken,
                backend: b,
                action: BrokerActionView::ToSession(session, n@),
            })
            &&& broker_step(over, b, occupied, BackendEvent::Notification(n)) == (BrokerStep {
                lifetime: over,
                backend: b,
                action: BrokerActionView::Ignore,
            })
        }),
{
    lemma_notification_literals();
}

/// Progress with a token that no request asked for, or with none, reaches nobody.
pub proof fn law_unknown_progress_is_dropped(
    l: LifetimeView,
    b: BackendView,
    occupied: bool,
    n: Json,
)
    requires
        str_of(field(n@, "method"@)) == Some("notifications/progress"@),
        opt_field(field(n@, "params"@), "progressToken"@) matches Some(t)
            ==> !l.client_by_token.contains_key(identity(t)),
    ensures
        broker_step(l, b, occupied, BackendEvent::Notification(n)) == (BrokerStep {
            lifetime: l,
            backend: b,
            action: BrokerActionView::Ignore,
        }),
{
    lemma_notification_literals();
}

/// A cancellation by the backend reaches the session whose request it is about, under
/// the id that this session knows; who waited is told, and the request is over. Where
/// there is no backend, or nobody knows the request, it reaches nobody.
pub proof fn law_cancellation_reaches_its_session(
    l: LifetimeView,
    b: BackendView,
    n: Json,
    params: Map<Seq<char>, JsonView>,
    session: u64,
    id: JsonView,
    backend_id: JsonView,
    token: Option<JsonView>,
    waiter: u64,
    other: Seq<char>,
)
    requires
        l.indexes_live_rows(),
        !l.has_client((Some(session), id)),
        b.pending.contains_key(identity(backend_id)),
        b.pending[identity(backend_id)] == waiter,
        str_of(field(n@, "method"@)) == Some("notifications/cancelled"@),
        field(n@, "params"@) == Some(JsonView::Obj(params)),
        params.contains_key("requestId"@),
        params["requestId"@] == backend_id,
        other != "requestId"@,
    ensures
        ({
            let key = (Some(session), id);
            let taken = l.admitted(key, token).bound(key, backend_id);
            let step = broker_step(taken, b, true, BackendEvent::Notification(n));
            &&& step.action matches BrokerActionView::Cancelled {
                session: to,
                message,
                waiter: told,
            } && {
                &&& to == Some(session)
                &&& told == Some(waiter)
                &&& opt_field(field(message, "params"@), "requestId"@) == Some(id)
                &&& opt_field(field(message, "params"@), other) == opt_field(
                    field(n@, "params"@),
                    other,
                )
                &&& other != "params"@ ==> field(message, other) == field(n@, other)
            }
            &&& !step.lifetime.has_client(key)
            &&& !step.lifetime.has_backend_id(backend_id)
            &&& !step.backend.pending.contains_key(identity(backend_id))
            &&& step.backend.discarding.contains_key(identity(backend_id))
            &&& broker_step(taken, b, false, BackendEvent::Notification(n)) == (BrokerStep {
                lifetime: taken,
                backend: b,
                action: BrokerActionView::Ignore,
            })
            &&& !l.has_backend_id(backend_id) ==> broker_step(
                l,
                b,
                true,
                BackendEvent::Notification(n),
            ) == (BrokerStep { lifetime: l, backend: b, action: BrokerActionView::Ignore })
        }),
{
    lemma_notification_literals();
}

/// A request of the backend goes to the one session that has requests there, as it is.
/// That session's answer under the same id reaches the backend, once; an answer of
/// another session does not.
pub proof fn law_request_of_the_backend_goes_to_one_session(
    l: LifetimeView,
    b: BackendView,
    occupied: bool,
    request: Json,
    session: u64,
    other: u64,
    id: JsonView,
    answer: JsonView,
)
    requires
        unique_session(l.by_client, session),
        field(request@, "id"@) == Some(id),
        field(answer, "id"@) == Some(id),
        other != session,
        !l.peer_by_id.contains_key((Some(other), identity(id))),
    ensures
        ({
            let asked = broker_step(l, b, occupied, BackendEvent::PeerRequest(request));
            let told = response_step(asked.lifetime, b, Some(session), true, answer);
            &&& asked.action == BrokerActionView::ToSession(session, request@)
            &&& asked.backend == b
            &&& asked.lifetime.by_client == l.by_client
            &&& told.action == ActionView::SendToBackend(answer)
            &&& response_step(told.lifetime, b, Some(session), true, answer).action
                == ActionView::Ignore
            &&& response_step(asked.lifetime, b, Some(other), true, answer).action
                == ActionView::Ignore
        }),
{
    lemma_bound_session(l.by_client, Some(session));
}

/// Where no session, or more than one, has requests at the backend, its request is
/// refused: it is told so under the id of its request, and no session hears of it.
pub proof fn law_request_of_the_backend_is_refused_without_one_session(
    l: LifetimeView,
    b: BackendView,
    occupied: bool,
    request: Json,
)
    requires
        forall|s: u64| !unique_session(l.by_client, s),
    ensures
        ({
            let step = broker_step(l, b, occupied, BackendEvent::PeerRequest(request));
            &&& step.lifetime == l
            &&& step.backend == b
            &&& (field(request@, "id"@) matches Some(id) ==> (step.action
                matches BrokerActionView::ToBackend(answer) && {
                &&& field(answer, "id"@) == Some(id)
                &&& field(answer, "result"@) is None
                &&& error_code(answer) == Some(JsonView::Num(NumberView::Int(-32603)))
                &&& error_text(answer) == Some("no active client session for server request"@)
            }))
            &&& field(request@, "id"@) is None ==> step.action == BrokerActionView::Ignore
        }),
{
    lemma_bound_session(l.by_client, None);
    reveal_strlit("id");
    reveal_strlit("error");
    reveal_strlit("result");
    reveal_strlit("jsonrpc");
    assert("id"@.len() == 2);
    assert("error"@.len() == 5);
    assert("result"@.len() == 6);
    assert("jsonrpc"@.len() == 7);
    reveal_strlit("code");
    reveal_strlit("message");
    reveal_strlit("data");
    assert("code"@.len() == 4);
    assert("message"@.len() == 7);
    assert("data"@.len() == 4);
    assert("code"@[0] != "data"@[0]);
}

/// Once the backend has exited, no answer to it goes anywhere; the requests of the
/// sessions are not touched.
pub proof fn law_exit_ends_requests_of_the_backend(
    l: LifetimeView,
    b: BackendView,
    occupied: bool,
    session: Option<u64>,
    raw: JsonView,
)
    ensures
        ({
            let step = broker_step(l, b, occupied, BackendEvent::ProcessExit);
            &&& step.action == BrokerActionView::Ignore
            &&& step.backend == b
            &&& step.lifetime.by_client == l.by_client
            &&& step.lifetime.client_by_backend == l.client_by_backend
            &&& step.lifetime.client_by_token == l.client_by_token
            &&& response_step(step.lifetime, b, session, true, raw).action == ActionView::Ignore
        }),
{
}

/// A request of a session that is for the backend is under way at once, with the token
/// that it asks progress for; any other message is handled as one of a client whose
/// lists come as they are.
pub proof fn law_session_requests_wait_their_turn(
    l: LifetimeView,
    b: BackendView,
    cache: CacheView,
    session: u64,
    live: bool,
    id: JsonView,
    method: Seq<char>,
    raw: JsonView,
)
    requires
        field(raw, "method"@) == Some(JsonView::Str(method)),
        field(raw, "id"@) == Some(id),
    ensures
        ({
            let s = session_step(l, b, cache, session, live, raw);
            let key = (Some(session), id);
            &&& s.step.backend == b
            &&& s.step.action == request_plan(cache, false, id, method, raw)
            &&& s.step.action is PassThrough ==> {
                &&& s.listed == !l.has_client(key)
                &&& s.step.lifetime.has_client(key)
                &&& s.listed ==> s.step.lifetime.client_row(key).backend_id is None
                    && s.step.lifetime.client_row(key).progress_token == opt_field(
                    opt_field(field(raw, "params"@), "_meta"@),
                    "progressToken"@,
                )
                &&& !s.listed ==> s.step.lifetime == l
            }
            &&& !(s.step.action is PassThrough) ==> s.step.lifetime == l && !s.listed
        }),
{
    law_client_messages_by_their_fields(l, b, cache, false, Some(session), live, raw);
}

/// Notifications and answers of a session are handled as those of a client.
pub proof fn law_session_messages_are_handled_as_of_a_client(
    l: LifetimeView,
    b: BackendView,
    cache: CacheView,
    session: u64,
    live: bool,
    raw: JsonView,
)
    requires
        str_of(field(raw, "method"@)) is None || field(raw, "id"@) is None,
    ensures
        session_step(l, b, cache, session, live, raw) == (SessionStep {
            step: client_step(l, b, cache, false, Some(session), live, raw),
            listed: false,
        }),
{
    law_client_messages_by_their_fields(l, b, cache, false, Some(session), live, raw);
}

/// A waiting request whose turn has come is sent, with its id changed to the next one at
/// the backend and nothing else, unless it was cancelled meanwhile; that id leads to it.
pub proof fn law_waiting_request_is_sent_once(
    l: LifetimeView,
    b: BackendView,
    session: u64,
    client_id: JsonView,
    listed: bool,
    raw: JsonView,
    other: Seq<char>,
)
    requires
        raw is Obj,
        other != "id"@,
    ensures
        ({
            let q = queued_step(l, b, session, client_id, listed, raw);
            let key = (Some(session), client_id);
            &&& q.forwarded is None <==> listed && !l.has_client(key)
            &&& q.forwarded is None ==> q.lifetime == l && q.backend == b
            &&& (q.forwarded matches Some((backend_id, message)) ==> {
                &&& backend_id == JsonView::Num(NumberView::Int(b.next_id as int))
                &&& field(message, "id"@) == Some(backend_id)
                &&& field(message, other) == field(raw, other)
                &&& b.next_id < u64::MAX ==> q.backend.next_id == b.next_id + 1
                &&& q.backend.pending == b.pending
                &&& q.backend.discarding == b.discarding
                &&& q.backend.stderr == b.stderr
                &&& q.backend.alive == b.alive
                &&& !listed ==> q.lifetime == l
                &&& listed ==> {
                    &&& q.lifetime.has_client(key)
                    &&& q.lifetime.client_row(key).backend_id == Some(backend_id)
                    &&& q.lifetime.has_backend_id(backend_id)
                    &&& q.lifetime.owner_of(backend_id) == key
                    &&& (l.client_row(key).progress_token matches Some(token)
                        ==> q.lifetime.has_token(token))
                    &&& q.lifetime.peer_by_id == l.peer_by_id
                }
            })
        }),
{
}

/// The end of a request of a session: its row is gone, its client gets the answer under
/// its own id, or the failure without the error output of the backend, which other
/// sessions share.
pub proof fn law_session_request_ends(
    l: LifetimeView,
    b: BackendView,
    session: u64,
    client_id: JsonView,
    listed: bool,
    backend_id: JsonView,
    answer: Json,
    why: String,
    other: Seq<char>,
)
    requires
        l.indexes_live_rows(),
        answer@ is Obj,
        other != "id"@,
        !b.discarding.contains_key(identity(backend_id)),
    ensures
        ({
            let (after, end) = session_finish_step(
                l,
                b,
                session,
                client_id,
                listed,
                backend_id,
                Ok(answer),
            );
            let (failed, failure) = session_finish_step(
                l,
                b,
                session,
                client_id,
                listed,
                backend_id,
                Err(RequestFailure::Io(why)),
            );
            &&& end matches EndView::Respond(told) && field(told, "id"@) == Some(client_id)
                && field(told, other) == field(answer@, other)
            &&& failure matches EndView::RespondAndDropBackend(told) && field(told, "id"@) == Some(
                client_id,
            ) && error_text(told) == Some(why@)
            &&& after == failed
            &&& listed ==> !after.has_client((Some(session), client_id))
            &&& !listed ==> after == l
        }),
{
    law_failed_requests_are_answered(b, client_id, backend_id, RequestFailure::Io(why), false);
}

/// A request of a session that cannot be sent is over; one that can is still under way.
pub proof fn law_session_request_needs_a_backend(
    l: LifetimeView,
    session: u64,
    client_id: JsonView,
    listed: bool,
    why: String,
    replaced: bool,
)
    ensures
        ({
            let (after, step) = session_call_step(l, session, client_id, listed, Err(why), true);
            &&& step matches CallStepView::End(answer) && field(answer, "id"@) == Some(client_id)
                && error_text(answer) == Some(why@)
            &&& listed ==> !after.has_client((Some(session), client_id))
            &&& !listed ==> after == l
        }),
        ({
            let (after, step) = session_call_step(
                l,
                session,
                client_id,
                listed,
                Ok(replaced),
                false,
            );
            &&& step is End
            &&& listed ==> !after.has_client((Some(session), client_id))
        }),
        ({
            let (after, step) = session_call_step(
                l,
                session,
                client_id,
                listed,
                Ok(replaced),
                true,
            );
            &&& after == l
            &&& step == if replaced {
                CallStepView::RefreshThenSend
            } else {
                CallStepView::Send
            }
        }),
{
    crate::runtime_manager::law_requests_need_a_backend(client_id, why, replaced);
}

/// The clients are told of every list that the proxy keeps, in notifications of their
/// own.
pub proof fn law_announcements_cover_every_list(name: Seq<char>)
    requires
        name == "tools"@ || name == "prompts"@ || name == "resources"@,
    ensures
        exists|i: int|
            0 <= i < announcements().len() && field(#[trigger] announcements()[i], "method"@)
                == Some(JsonView::Str("notifications/"@ + name + "/list_changed"@)) && field(
                announcements()[i],
                "id"@,
            ) is None,
        announcements().len() == 3,
{
    lemma_notification_literals();
    reveal_strlit("method");
    reveal_strlit("jsonrpc");
    reveal_strlit("params");
    reveal_strlit("id");
    assert("method"@.len() == 6);
    assert("jsonrpc"@.len() == 7);
    assert("params"@.len() == 6);
    assert("id"@.len() == 2);
    assert("method"@[0] != "params"@[0]);
    let i: int = if name == "tools"@ {
        0
    } else if name == "prompts"@ {
        1
    } else {
        2
    };
    reveal_strlit("tools");
    reveal_strlit("prompts");
    reveal_strlit("resources");
    assert("tools"@.len() == 5);
    assert("prompts"@.len() == 7);
    assert("resources"@.len() == 9);
    assert(field(announcements()[i], "method"@) == Some(
        JsonView::Str("notifications/"@ + name + "/list_changed"@),
    ));
}

/// A backend that was started anew is announced exactly where its lists could be read.
pub proof fn law_respawn_is_announced(result: Result<RefreshReport, String>, out: Vec<Json>)
    requires
        call_ensures(after_respawn_refresh, (result,), out),
    ensures
        result is Ok ==> items_view(out@) == announcements() && out@.len() == 3,
        result is Err ==> out@.len() == 0,
{
    assert(items_view(out@).len() == out@.len());
}

/// A refresh or a restart that an action brought to an answer is announced, and nothing
/// else is.
pub proof fn law_successful_changes_are_announced(
    action: ToolAction,
    step: ControlStep,
    told: bool,
)
    requires
        call_ensures(is_announced, (action, &step), told),
    ensures
        told ==> step is Answer,
        step is Answer ==> (told <==> action == ToolAction::BackendRefresh || action
            == ToolAction::BackendRestart),
{
}

/// A broker without sessions exits once a minute has passed since it last had one, or two
/// minutes since its start where it never had one; with a session, or where it is to
/// keep running, it does not exit.
pub proof fn law_broker_exits_when_idle(watch: IdleWatch, now: u64, ever_had_session: bool)
    ensures
        broker_idles_out(watch, false, now, false, true) <==> now > watch.last_active
            + 60_000_000_000,
        broker_idles_out(watch, false, now, false, false) <==> now > watch.spawned_at
            + 120_000_000_000,
        !broker_idles_out(watch, false, now, true, ever_had_session),
        !broker_idles_out(watch, true, now, false, ever_had_session),
        !broker_idles_out(watch, true, now, true, ever_had_session),
{
}

/// An open session counts as activity at each look at the clock, and the time of the
/// start is kept; so a broker stays for a minute after its last session.
pub proof fn law_sessions_count_as_activity(watch: IdleWatch, now: u64, later: u64)
    ensures
        watched(watch, false, now, true).last_active == now,
        watched(watch, false, now, true).spawned_at == watch.spawned_at,
        watched(watch, false, now, false) == watch,
        broker_idles_out(watched(watch, false, now, true), false, later, false, true) <==> later
            > now + 60_000_000_000,
{
}

/// A session that is opened is open under the next number, and all others stay open; one
/// that is closed is not, and all others stay open.
pub proof fn law_sessions_open_and_close(s: SessionsView, session: u64, other: u64)
    requires
        s.distinct(),
    ensures
        s.opened().open.contains(other) <==> other == s.next || s.open.contains(other),
        s.opened().distinct(),
        s.next < u64::MAX ==> s.opened().next == s.next + 1,
        s.closed(session).open.contains(other) <==> other != session && s.open.contains(other),
        s.closed(session).next == s.next,
        s.closed(session).distinct(),
{
    lemma_filtered(s.open, other_than(s.next));
    lemma_filtered(s.open, other_than(session));
    let kept = s.closed(s.next).open;
    let all = s.opened().open;
    assert(all[all.len() - 1] == s.next);
    assert forall|k: int| 0 <= k < kept.len() implies kept.contains(#[trigger] kept[k]) by {}
    if kept.contains(other) {
        let k = choose|k: int| 0 <= k < kept.len() && kept[k] == other;
        assert(all[k] == other);
    }
    if all.contains(other) && other != s.next {
        let k = choose|k: int| 0 <= k < all.len() && all[k] == other;
        assert(kept[k] == other);
    }
    assert forall|i: int, j: int| 0 <= i < j < all.len() implies all[i] != all[j] by {
        if j == all.len() - 1 {
            assert(kept.contains(kept[i]));
        } else {
            assert(kept[i] != kept[j]);
        }
    }
}

/// What the sessions say of themselves.
pub proof fn law_sessions_tell(
    s: Sessions,
    none: bool,
    ever: bool,
    fresh: Sessions,
    ids: &Vec<u64>,
)
    requires
        call_ensures(Sessions::is_empty, (&s,), none),
        call_ensures(Sessions::ever_had_session, (&s,), ever),
        call_ensures(Sessions::ids, (&s,), ids),
        call_ensures(Sessions::new, (), fresh),
    ensures
        none <==> s@.open.len() == 0,
        ids@ == s@.open,
        fresh@.open.len() == 0,
        s@.next == fresh@.next ==> !ever,
        s@.next == fresh@.opened().next ==> ever,
        fresh@.next != 0,
{
}

/// A broker line of a time limit, the flag that keeps the broker running, and a command
/// with its arguments is read as that; without a time limit thirty seconds are allowed,
/// and a limit of no seconds counts as one.
pub proof fn law_broker_line_is_read(
    limit: Option<Seq<char>>,
    secs: nat,
    keep: bool,
    cmd: Seq<char>,
    args: Seq<Seq<char>>,
)
    requires
        cmd != "--init-timeout"@,
        cmd != "--no-idle-timeout"@,
        !args.contains("--no-idle-timeout"@),
        limit matches Some(text) ==> unsigned_value(text, u64::MAX as nat) == Some(secs),
        limit is None ==> secs == 30,
    ensures
        ({
            let front = match limit {
                Some(text) => seq!["--init-timeout"@, text],
                None => Seq::empty(),
            };
            let flag = if keep {
                seq!["--no-idle-timeout"@]
            } else {
                Seq::empty()
            };
            broker_args_view(front + flag + seq![cmd] + args) matches Some(read) && {
                &&& read.init_timeout_secs == if secs == 0 {
                    1nat
                } else {
                    secs
                }
                &&& read.no_idle_timeout == keep
                &&& read.cmd == cmd
                &&& read.args == args
            }
        }),
{
    reveal_strlit("--init-timeout");
    reveal_strlit("--no-idle-timeout");
    assert("--init-timeout"@.len() == 14);
    assert("--no-idle-timeout"@.len() == 17);
    let front = match limit {
        Some(text) => seq!["--init-timeout"@, text],
        None => Seq::empty(),
    };
    let flag = if keep {
        seq!["--no-idle-timeout"@]
    } else {
        Seq::empty()
    };
    let line = front + flag + seq![cmd] + args;
    let start = front.len() as int;
    assert(command_start(line) == start);
    let tail = line.subrange(start, line.len() as int);
    assert(tail =~= flag + seq![cmd] + args);
    if keep {
        assert(tail[0] == "--no-idle-timeout"@);
    } else if tail.contains("--no-idle-timeout"@) {
        let k = choose|k: int| 0 <= k < tail.len() && tail[k] == "--no-idle-timeout"@;
        if k > 0 {
            assert(args[k - 1] == "--no-idle-timeout"@);
        }
    }
    assert(keeps_running(line) == keep);
    let at = start + flag.len();
    assert(line[at] == cmd);
    assert(line.subrange(at + 1, line.len() as int) =~= args);
}

/// A broker line without a command is refused.
pub proof fn law_broker_line_needs_a_command(text: Seq<char>)
    ensures
        broker_args_view(Seq::empty()) is None,
        broker_args_view(seq!["--init-timeout"@, text]) is None,
        ends_in_flag(seq!["--no-idle-timeout"@]),
{
    reveal_strlit("--init-timeout");
    reveal_strlit("--no-idle-timeout");
    assert("--init-timeout"@.len() == 14);
    assert("--no-idle-timeout"@.len() == 17);
    let line = seq!["--no-idle-timeout"@];
    assert(line.subrange(0, 1)[0] == "--no-idle-timeout"@);
}

// ── The same, of the functions that callers use ─────────────────────

/// A notification of the shared backend that is neither progress nor a cancellation and
/// changes no list goes to every session as it is, and nothing else happens.
pub proof fn law_handled_notifications_reach_every_session(
    l: &mut RequestLifetime,
    b: &mut Backend,
    occupied: bool,
    n: Json,
    action: BrokerAction,
)
    requires
        call_ensures(on_broker_event, (l, b, occupied, BackendEvent::Notification(n)), action),
        str_of(field(n@, "method"@)) != Some("notifications/progress"@),
        str_of(field(n@, "method"@)) != Some("notifications/cancelled"@),
        str_of(field(n@, "method"@)) != Some("notifications/tools/list_changed"@),
        str_of(field(n@, "method"@)) != Some("notifications/prompts/list_changed"@),
        str_of(field(n@, "method"@)) != Some("notifications/resources/list_changed"@),
    ensures
        action@ == BrokerActionView::ToAll(n@),
        final(l)@ == old(l)@,
        final(b)@ == old(b)@,
{
    law_other_notifications_reach_every_session(old(l)@, old(b)@, occupied, n);
}

/// Events of the shared backend are handled step by step as laid down, whatever they are.
pub proof fn law_events_are_handled_by_their_steps(
    l: &mut RequestLifetime,
    b: &mut Backend,
    occupied: bool,
    event: BackendEvent,
    action: BrokerAction,
)
    requires
        call_ensures(on_broker_event, (l, b, occupied, event), action),
    ensures
        broker_step(old(l)@, old(b)@, occupied, event) == (BrokerStep {
            lifetime: final(l)@,
            backend: final(b)@,
            action: action@,
        }),
{
}

/// A request of the backend goes to the one session that has requests there, and is
/// refused where there is no such session.
pub proof fn law_handled_requests_of_the_backend(
    l: &mut RequestLifetime,
    request: Json,
    action: BrokerAction,
    session: u64,
)
    requires
        call_ensures(forward_peer_request, (l, request), action),
    ensures
        unique_session(old(l)@.by_client, session) ==> action@ == BrokerActionView::ToSession(
            session,
            request@,
        ) && (field(request@, "id"@) matches Some(id) ==> final(l)@.has_peer((Some(session), id))),
        (forall|s: u64| !unique_session(old(l)@.by_client, s)) ==> final(l)@ == old(l)@ && (field(
            request@,
            "id"@,
        ) matches Some(id) ==> (action@ matches BrokerActionView::ToBackend(answer) && field(
            answer,
            "id"@,
        ) == Some(id) && error_code(answer) == Some(JsonView::Num(NumberView::Int(-32603))))),
        final(l)@.by_client == old(l)@.by_client,
{
    if unique_session(old(l)@.by_client, session) {
        lemma_bound_session(old(l)@.by_client, Some(session));
    }
    if forall|s: u64| !unique_session(old(l)@.by_client, s) {
        lemma_bound_session(old(l)@.by_client, None);
    }
    reveal_strlit("id");
    reveal_strlit("error");
    reveal_strlit("result");
    reveal_strlit("jsonrpc");
    assert("id"@.len() == 2);
    assert("error"@.len() == 5);
    assert("result"@.len() == 6);
    assert("jsonrpc"@.len() == 7);
    reveal_strlit("code");
    reveal_strlit("message");
    reveal_strlit("data");
    assert("code"@.len() == 4);
    assert("message"@.len() == 7);
    assert("data"@.len() == 4);
    assert("code"@[0] != "data"@[0]);
}

/// What a session says is handled as what a client says; a request for the backend is
/// under way at once.
pub proof fn law_handled_session_messages(
    l: &mut RequestLifetime,
    b: &mut Backend,
    cache: &Cache,
    session: u64,
    live: bool,
    raw: Json,
    r: (ClientAction, bool),
)
    requires
        call_ensures(on_session_message, (l, b, cache, session, live, raw), r),
    ensures
        ({
            let step = client_step(old(l)@, old(b)@, cache@, false, Some(session), live, raw@);
            &&& r.0@ == step.action
            &&& final(b)@ == step.backend
            &&& (step.action matches ActionView::PassThrough { id, raw: message } ==> final(
                l)@.has_client((Some(session), id)) && r.1 == !step.lifetime.has_client(
                (Some(session), id),
            ))
            &&& !(step.action is PassThrough) ==> final(l)@ == step.lifetime && !r.1
        }),
{
}

/// A waiting request whose turn has come is sent with its id changed alone, and not sent
/// where it was cancelled meanwhile.
pub proof fn law_sent_requests(
    l: &mut RequestLifetime,
    b: &mut Backend,
    session: u64,
    client_id: &Json,
    listed: bool,
    raw: Json,
    f: Option<Forwarded>,
    other: Seq<char>,
)
    requires
        call_ensures(send_queued, (l, b, session, client_id, listed, raw), f),
        raw@ is Obj,
        other != "id"@,
    ensures
        f is None <==> listed && !old(l)@.has_client((Some(session), client_id@)),
        f is None ==> final(l)@ == old(l)@ && final(b)@ == old(b)@,
        (f matches Some(sent) ==> {
            &&& sent.backend_id@ == JsonView::Num(NumberView::Int(old(b)@.next_id as int))
            &&& field(sent.message@, "id"@) == Some(sent.backend_id@)
            &&& field(sent.message@, other) == field(raw@, other)
            &&& final(b)@.next_id != old(b)@.next_id
            &&& final(b)@.pending == old(b)@.pending
            &&& listed ==> final(l)@.has_backend_id(sent.backend_id@) && final(l)@.owner_of(
                sent.backend_id@,
            ) == (Some(session), client_id@)
            &&& !listed ==> final(l)@ == old(l)@
        }),
{
    law_waiting_request_is_sent_once(
        old(l)@,
        old(b)@,
        session,
        client_id@,
        listed,
        raw@,
        other,
    );
}

/// A request of a session that ends is over where it had a row of its own; its answer has
/// the id that the session gave it.
pub proof fn law_finished_session_requests(
    l: &mut RequestLifetime,
    b: &Backend,
    session: u64,
    client_id: Json,
    listed: bool,
    backend_id: &Json,
    result: Result<Json, RequestFailure>,
    end: PassThroughEnd,
    asked: &mut RequestLifetime,
    ensured: Result<bool, String>,
    present: bool,
    step: CallStep,
)
    requires
        call_ensures(
            finish_session_request,
            (l, b, session, client_id, listed, backend_id, result),
            end,
        ),
        call_ensures(
            after_session_ensure,
            (asked, session, &client_id, listed, ensured, present),
            step,
        ),
    ensures
        listed ==> !final(l)@.has_client((Some(session), client_id@)),
        !listed ==> final(l)@ == old(l)@ && final(asked)@ == old(asked)@,
        end@ == pass_through_end(b@, client_id@, backend_id@, result, false),
        (result matches Ok(answer) ==> end@ matches EndView::Respond(told) && field(told, "id"@)
            == Some(client_id@)),
        step@ == call_step(client_id@, ensured, present),
        step@ is End && listed ==> !final(asked)@.has_client((Some(session), client_id@)),
        !(step@ is End) ==> final(asked)@ == old(asked)@,
        step@ is End <==> ensured is Err || !present,
{
}

/// The clock of a broker: with a session, or where it is to keep running, it does not
/// exit; without, it exits a minute after its last session or two minutes after its
/// start; and a session counts as activity.
pub proof fn law_clock_of_a_broker(
    watch: &mut IdleWatch,
    keep: bool,
    now: u64,
    any: bool,
    ever: bool,
    exit: bool,
    checked: &mut IdleWatch,
    out: bool,
    fresh: IdleWatch,
)
    requires
        call_ensures(broker_exits, (watch, keep, now, any, ever), exit),
        call_ensures(IdleWatch::idle_check, (checked, now, any, ever), out),
        call_ensures(IdleWatch::new, (now,), fresh),
    ensures
        keep || any ==> !exit,
        !keep && !any && ever ==> exit == (now > old(watch).last_active + 60_000_000_000),
        !keep && !any && !ever ==> exit == (now > old(watch).spawned_at + 120_000_000_000),
        any ==> !out && final(checked).last_active == now,
        !any && ever ==> out == (now > old(checked).last_active + 60_000_000_000),
        !any && !ever ==> out == (now > old(checked).spawned_at + 120_000_000_000),
        final(checked).spawned_at == old(checked).spawned_at,
        !any ==> *final(checked) == *old(checked),
        any && !keep ==> final(watch).last_active == now,
        !any || keep ==> *final(watch) == *old(watch),
        fresh.spawned_at == now && fresh.last_active == now,
{
}

/// Sessions have their own numbers; opening one gives the next number, and closing one
/// leaves the others open.
pub proof fn law_handled_sessions(
    opened: &mut Sessions,
    session: u64,
    closed: &mut Sessions,
    gone: u64,
    unit: (),
    other: u64,
)
    requires
        old(opened)@.distinct(),
        old(closed)@.distinct(),
        call_ensures(Sessions::open, (opened,), session),
        call_ensures(Sessions::close, (closed, gone), unit),
    ensures
        session == old(opened)@.next,
        final(opened)@.next != old(opened)@.next,
        final(opened)@.open.contains(other) <==> other == session || old(
            opened)@.open.contains(other),
        final(closed)@.open.contains(other) <==> other != gone && old(
            closed)@.open.contains(other),
        final(closed)@.next == old(closed)@.next,
{
    law_sessions_open_and_close(old(opened)@, session, other);
    law_sessions_open_and_close(old(closed)@, gone, other);
}

/// A broker line is parsed as it is read, and a flag without a command is told apart.
pub proof fn law_parsed_broker_lines(
    args: &Vec<String>,
    r: Option<BrokerArgs>,
    flag: bool,
    limit: Option<Seq<char>>,
    secs: nat,
    keep: bool,
    cmd: Seq<char>,
    rest: Seq<Seq<char>>,
)
    requires
        call_ensures(parse_broker_args, (args,), r),
        call_ensures(flag_without_command, (args,), flag),
        cmd != "--init-timeout"@,
        cmd != "--no-idle-timeout"@,
        !rest.contains("--no-idle-timeout"@),
        limit matches Some(text) ==> unsigned_value(text, u64::MAX as nat) == Some(secs),
        limit is None ==> secs == 30,
        texts(args@) == (match limit {
            Some(text) => seq!["--init-timeout"@, text],
            None => Seq::empty(),
        }) + (if keep {
            seq!["--no-idle-timeout"@]
        } else {
            Seq::empty()
        }) + seq![cmd] + rest,
    ensures
        r matches Some(read) && read.init_timeout_secs == (if secs == 0 {
            1nat
        } else {
            secs
        }) && read.no_idle_timeout == keep && read.cmd@ == cmd && texts(read.args@) == rest,
{
    law_broker_line_is_read(limit, secs, keep, cmd, rest);
}

/// The clients are told of the three kinds of lists, in this order, with nothing but the
/// method in each notification.
pub proof fn law_clients_are_told_of_every_list(notifications: Vec<Json>, i: int)
    requires
        call_ensures(notify_clients_list_changed, (), notifications),
        0 <= i < 3,
    ensures
        notifications@.len() == 3,
        field(notifications@[i]@, "method"@) == Some(
            JsonView::Str(
                if i == 0 {
                    "notifications/tools/list_changed"@
                } else if i == 1 {
                    "notifications/prompts/list_changed"@
                } else {
                    "notifications/resources/list_changed"@
                },
            ),
        ),
        field(notifications@[i]@, "id"@) is None,
        field(notifications@[i]@, "params"@) is None,
{
    reveal_strlit("method");
    reveal_strlit("jsonrpc");
    reveal_strlit("params");
    reveal_strlit("id");
    assert("method"@.len() == 6);
    assert("jsonrpc"@.len() == 7);
    assert("params"@.len() == 6);
    assert("id"@.len() == 2);
    assert("method"@[0] != "params"@[0]);
    assert(items_view(notifications@).len() == 3);
    assert(items_view(notifications@)[i] == notifications@[i]@);
    assert(announcements()[i] == notification_view(list_changed_methods()[i], None));
}

} // verus!
