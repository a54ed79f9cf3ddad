//! The backend: which answers are awaited, what its output means, and the
//! lifecycle of the slot that holds it.

use vstd::prelude::*;
use vstd::string::*;
use vstd::utf8::{decode_utf8, encode_scalar, encode_utf8, valid_utf8};

use crate::json::{field, identity, opt_view, Json, JsonView, NumberView};
use crate::table::Table;
use crate::text::{chars_of, decimal, decimal_text, join, join3, string_of};
use crate::transport::{build_notification, notification_view};

verus! {

/// How much of the backend's error output is kept, in bytes.
pub const STDERR_TAIL_BYTES: usize = 4096;

/// The longest end of a text that fits in `max` bytes of UTF-8.
pub open spec fn tail_within(s: Seq<char>, max: nat) -> Seq<char>
    decreases s.len(),
{
    if encode_utf8(s).len() <= max || s.len() == 0 {
        s
    } else {
        tail_within(s.drop_first(), max)
    }
}

proof fn lemma_encode_step(s: Seq<char>)
    requires
        s.len() > 0,
    ensures
        encode_utf8(s).len() == encode_scalar(s[0] as u32).len() + encode_utf8(
            s.drop_first(),
        ).len(),
        1 <= encode_scalar(s[0] as u32).len() <= 4,
{
    vstd::utf8::char_is_scalar(s[0]);
}

proof fn lemma_encode_grows(s: Seq<char>, i: int, j: int)
    requires
        0 <= i <= j <= s.len(),
    ensures
        encode_utf8(s.skip(j)).len() <= encode_utf8(s.skip(i)).len(),
    decreases j - i,
{
    if i < j {
        lemma_encode_step(s.skip(i));
        assert(s.skip(i).drop_first() =~= s.skip(i + 1));
        lemma_encode_grows(s, i + 1, j);
    }
}

proof fn lemma_tail_at(s: Seq<char>, i: int, at: int, max: nat)
    requires
        0 <= i <= at <= s.len(),
        encode_utf8(s.skip(at)).len() <= max,
        at > 0 ==> encode_utf8(s.skip(at - 1)).len() > max,
    ensures
        tail_within(s.skip(i), max) == s.skip(at),
    decreases at - i,
{
    if i < at {
        lemma_encode_grows(s, i, at - 1);
        assert(s.skip(i).drop_first() =~= s.skip(i + 1));
        lemma_tail_at(s, i + 1, at, max);
    }
}

proof fn lemma_encode_of_front(a: Seq<char>, b: Seq<char>)
    ensures
        encode_utf8(a).len() <= encode_utf8(a + b).len(),
    decreases a.len(),
{
    if a.len() > 0 {
        lemma_encode_step(a);
        lemma_encode_step(a + b);
        assert((a + b).drop_first() =~= a.drop_first() + b);
        lemma_encode_of_front(a.drop_first(), b);
    }
}

/// The number of bytes that a character takes.
fn char_width(c: char) -> (w: usize)
    ensures
        w == encode_scalar(c as u32).len(),
        1 <= w <= 4,
{
    proof {
        vstd::utf8::char_is_scalar(c);
    }
    let code: u32 = c as u32;
    if code <= 0x7f {
        1
    } else if code <= 0x7ff {
        2
    } else if code <= 0xffff {
        3
    } else {
        4
    }
}

/// Keeps the longest end of a text that fits in `max_bytes`, cut between
/// characters.
pub fn retain_utf8_tail(text: &mut String, max_bytes: usize)
    ensures
        final(text)@ == tail_within(old(text)@, max_bytes as nat),
{
    let chars = chars_of(text.as_str());
    let ghost s = chars@;
    let mut start: usize = chars.len();
    let mut size: usize = 0;
    assert(s.skip(s.len() as int) =~= Seq::empty());
    let mut more = true;
    while more && start > 0
        invariant
            start <= s.len(),
            s == chars@,
            size == encode_utf8(s.skip(start as int)).len(),
            size <= max_bytes,
            !more ==> start > 0 && encode_utf8(s.skip(start - 1)).len() > max_bytes,
        decreases start, (if more { 1int } else { 0int }),
    {
        let width: usize = char_width(chars[start - 1]);
        proof {
            lemma_encode_step(s.skip(start - 1));
            assert(s.skip(start - 1).drop_first() =~= s.skip(start as int));
            assert(s.skip(start - 1)[0] == s[start - 1]);
        }
        if width <= max_bytes - size {
            size = size + width;
            start = start - 1;
        } else {
            more = false;
        }
    }
    proof {
        lemma_tail_at(s, 0, start as int, max_bytes as nat);
        assert(s.skip(0) =~= s);
    }
    if start > 0 {
        let mut tail: Vec<char> = Vec::new();
        let mut i: usize = start;
        while i < chars.len()
            invariant
                start <= i <= chars@.len(),
                s == chars@,
                tail@ == s.subrange(start as int, i as int),
            decreases chars@.len() - i,
        {
            tail.push(chars[i]);
            i = i + 1;
            assert(tail@ =~= s.subrange(start as int, i as int));
        }
        assert(tail@ =~= s.skip(start as int));
        *text = string_of(&tail);
    }
}

/// What is kept is an end of the text, fits in the limit, cannot be extended, and
/// is the whole text where that fits.
pub proof fn law_tail_is_longest_fitting_end(s: Seq<char>, max: nat)
    ensures
        encode_utf8(tail_within(s, max)).len() <= max,
        tail_within(s, max).len() <= s.len(),
        tail_within(s, max) == s.skip(s.len() - tail_within(s, max).len()),
        encode_utf8(s).len() <= max ==> tail_within(s, max) == s,
        forall|i: int|
            0 <= i < s.len() - tail_within(s, max).len() ==> encode_utf8(
                #[trigger] s.skip(i),
            ).len() > max,
    decreases s.len(),
{
    if encode_utf8(s).len() <= max || s.len() == 0 {
        assert(s.skip(0) =~= s);
    } else {
        let t = s.drop_first();
        law_tail_is_longest_fitting_end(t, max);
        assert forall|i: int| 0 <= i <= t.len() implies t.skip(i) == #[trigger] s.skip(i + 1) by {
            assert(t.skip(i) =~= s.skip(i + 1));
        }
        let kept = tail_within(s, max);
        assert(kept == s.skip(s.len() - kept.len())) by {
            assert(t.skip(t.len() - kept.len()) == s.skip(t.len() - kept.len() + 1));
        }
        assert forall|i: int| 0 <= i < s.len() - kept.len() implies encode_utf8(
            #[trigger] s.skip(i),
        ).len() > max by {
            if i == 0 {
                assert(s.skip(0) =~= s);
            } else {
                assert(t.skip(i - 1) == s.skip(i - 1 + 1));
            }
        }
    }
}

/// Output that comes in chunks leaves the same behind as output that comes at once:
/// cutting what is kept after each chunk loses nothing that would be kept in the end.
pub proof fn law_tails_of_chunks_compose(s: Seq<char>, chunk: Seq<char>, max: nat)
    ensures
        tail_within(tail_within(s, max) + chunk, max) == tail_within(s + chunk, max),
    decreases s.len(),
{
    if encode_utf8(s).len() > max && s.len() > 0 {
        let rest = s.drop_first();
        law_tails_of_chunks_compose(rest, chunk, max);
        lemma_encode_of_front(s, chunk);
        assert((s + chunk).drop_first() =~= rest + chunk);
    }
}

/// What the backend sends that no request of ours waits for.
#[derive(Debug)]
pub enum BackendEvent {
    Notification(Json),
    PeerRequest(Json),
    UnmatchedResponse(Json),
    ProcessExit,
}

/// What to do with a message of the backend.
#[derive(Debug)]
pub enum Incoming {
    /// Hand the answer to the request that waits under this number.
    Deliver(u64, Json),
    /// Drop the late answer of a request that was given up.
    Discard,
    /// Announce it.
    Event(BackendEvent),
}

/// The value of an `Incoming`.
#[verifier::ext_equal]
pub enum IncomingView {
    Deliver(u64, JsonView),
    Discard,
    Notification(JsonView),
    PeerRequest(JsonView),
    UnmatchedResponse(JsonView),
    ProcessExit,
}

impl View for Incoming {
    type V = IncomingView;

    open spec fn view(&self) -> IncomingView {
        match self {
            Incoming::Deliver(waiter, msg) => IncomingView::Deliver(*waiter, msg@),
            Incoming::Discard => IncomingView::Discard,
            Incoming::Event(BackendEvent::Notification(msg)) => IncomingView::Notification(msg@),
            Incoming::Event(BackendEvent::PeerRequest(msg)) => IncomingView::PeerRequest(msg@),
            Incoming::Event(BackendEvent::UnmatchedResponse(msg)) => {
                IncomingView::UnmatchedResponse(msg@)
            },
            Incoming::Event(BackendEvent::ProcessExit) => IncomingView::ProcessExit,
        }
    }
}

/// Why a request to the backend came to nothing.
#[derive(Debug)]
pub enum RequestFailure {
    /// The message has no id to wait for.
    MissingId,
    /// The backend is gone.
    Closed,
    /// No answer came in time.
    TimedOut,
    /// Reading or writing failed.
    Io(String),
}

impl RequestFailure {
    pub open spec fn text(&self) -> Seq<char> {
        match self {
            RequestFailure::MissingId => "request missing id"@,
            RequestFailure::Closed => "backend closed before response"@,
            RequestFailure::TimedOut => "request timed out"@,
            RequestFailure::Io(text) => text@,
        }
    }

    /// The failure in words.
    pub fn message(&self) -> (text: String)
        ensures
            text@ == self.text(),
    {
        match self {
            RequestFailure::MissingId => "request missing id".to_owned(),
            RequestFailure::Closed => "backend closed before response".to_owned(),
            RequestFailure::TimedOut => "request timed out".to_owned(),
            RequestFailure::Io(text) => text.clone(),
        }
    }
}

/// The bookkeeping of one backend process: who waits for which answer, which late
/// answers are to be dropped, and what is known about the process.
pub struct Backend {
    pending: Table<Json, u64>,
    discarding: Table<Json, ()>,
    next_id: u64,
    alive: bool,
    stderr: String,
    server_info: Option<Json>,
}

/// The value of a `Backend`.
#[verifier::ext_equal]
pub struct BackendView {
    /// The request that waits for the answer with a given id.
    pub pending: Map<JsonView, u64>,
    /// The ids whose late answers are dropped.
    pub discarding: Map<JsonView, ()>,
    pub next_id: u64,
    pub alive: bool,
    pub stderr: Seq<char>,
    pub server_info: Option<JsonView>,
}

impl View for Backend {
    type V = BackendView;

    closed spec fn view(&self) -> BackendView {
        BackendView {
            pending: self.pending@,
            discarding: self.discarding@,
            next_id: self.next_id,
            alive: self.alive,
            stderr: self.stderr@,
            server_info: opt_view(self.server_info),
        }
    }
}

/// The text of bytes, with replacement characters where they are no UTF-8.
pub uninterp spec fn lossy_text(bytes: Seq<u8>) -> Seq<char>;

/// `String::from_utf8_lossy`: bytes that are UTF-8 stand for their text.
#[verifier::external_body]
fn lossy(bytes: &[u8]) -> (text: String)
    ensures
        text@ == lossy_text(bytes@),
        valid_utf8(bytes@) ==> text@ == decode_utf8(bytes@),
{
    String::from_utf8_lossy(bytes).into_owned()
}

/// What to do with a message, given who waits and what is dropped.
pub open spec fn incoming_of(b: BackendView, msg: JsonView) -> IncomingView {
    match (field(msg, "method"@), field(msg, "id"@)) {
        (Some(_), Some(_)) => IncomingView::PeerRequest(msg),
        (Some(_), None) => IncomingView::Notification(msg),
        (None, Some(id)) => if b.pending.contains_key(identity(id)) {
            IncomingView::Deliver(b.pending[identity(id)], msg)
        } else if b.discarding.contains_key(identity(id)) {
            IncomingView::Discard
        } else {
            IncomingView::UnmatchedResponse(msg)
        },
        (None, None) => IncomingView::Notification(msg),
    }
}

/// The bookkeeping after a message: an answer ends the wait for it, and a late
/// answer ends its suppression.
pub open spec fn after_message(b: BackendView, msg: JsonView) -> BackendView {
    match (field(msg, "method"@), field(msg, "id"@)) {
        (None, Some(id)) => if b.pending.contains_key(identity(id)) {
            BackendView { pending: b.pending.remove(identity(id)), ..b }
        } else {
            BackendView { discarding: b.discarding.remove(identity(id)), ..b }
        },
        _ => b,
    }
}

/// The bookkeeping once a waiting request is given up: nobody waits any more, and
/// a late answer will be dropped.
pub open spec fn given_up(b: BackendView, id: JsonView) -> BackendView {
    if b.pending.contains_key(identity(id)) {
        BackendView {
            pending: b.pending.remove(identity(id)),
            discarding: b.discarding.insert(identity(id), ()),
            ..b
        }
    } else {
        b
    }
}

/// The request that waits under an id.
pub open spec fn waiter_of(b: BackendView, id: JsonView) -> Option<u64> {
    if b.pending.contains_key(identity(id)) {
        Some(b.pending[identity(id)])
    } else {
        None
    }
}

/// The notification that tells the backend to stop working on a request.
pub open spec fn cancel_notice(id: JsonView, reason: Seq<char>) -> JsonView {
    notification_view(
        "notifications/cancelled"@,
        Some(
            crate::json::with_field(
                crate::json::with_field(crate::json::empty_object(), "requestId"@, id),
                "reason"@,
                JsonView::Str(reason),
            ),
        ),
    )
}

/// A request that was cancelled: who waited for it, and what the backend is told.
#[derive(Debug)]
pub struct CancelledCall {
    pub waiter: u64,
    pub notice: Json,
}

impl Backend {
    /// A backend that has just been started.
    pub fn new() -> (b: Backend)
        ensures
            b@ == (BackendView {
                pending: Map::empty(),
                discarding: Map::empty(),
                next_id: 1,
                alive: true,
                stderr: Seq::empty(),
                server_info: None,
            }),
    {
        Backend {
            pending: Table::new(),
            discarding: Table::new(),
            next_id: 1,
            alive: true,
            stderr: String::new(),
            server_info: None,
        }
    }

    /// A fresh id for a request to the backend.
    pub fn next_request_id(&mut self) -> (id: Json)
        ensures
            id@ == JsonView::Num(NumberView::Int(old(self)@.next_id as int)),
            final(self)@ == (BackendView {
                next_id: old(self)@.next_id.wrapping_add(1),
                ..old(self)@
            }),
    {
        let id = self.next_id;
        self.next_id = id.wrapping_add(1);
        Json::UInt(id)
    }

    /// Registers a request that is about to be written: `waiter` gets the answer.
    /// A request that waited under the same id is returned: it waits no more.
    pub fn begin_request(&mut self, msg: &Json, waiter: u64) -> (r: Result<
        Option<u64>,
        RequestFailure,
    >)
        ensures
            match (field(msg@, "id"@), r) {
                (None, Err(RequestFailure::MissingId)) => final(self)@ == old(self)@,
                (Some(_), Err(RequestFailure::Closed)) => {
                    &&& !old(self)@.alive
                    &&& final(self)@ == old(self)@
                },
                (Some(id), Ok(replaced)) => {
                    &&& old(self)@.alive
                    &&& replaced == waiter_of(old(self)@, id)
                    &&& final(self)@ == (BackendView {
                        pending: old(self)@.pending.insert(identity(id), waiter),
                        ..old(self)@
                    })
                },
                _ => false,
            },
    {
        match msg.get("id") {
            None => Err(RequestFailure::MissingId),
            Some(id) => {
                if !self.alive {
                    return Err(RequestFailure::Closed);
                }
                let replaced = match self.pending.get(id) {
                    Some(w) => Some(*w),
                    None => None,
                };
                self.pending.insert(id.copy(), waiter);
                Ok(replaced)
            },
        }
    }

    /// Takes back a request that could not be written.
    pub fn abandon_request(&mut self, id: &Json) -> (waiter: Option<u64>)
        ensures
            waiter == waiter_of(old(self)@, id@),
            final(self)@ == (BackendView {
                pending: old(self)@.pending.remove(identity(id@)),
                ..old(self)@
            }),
    {
        self.pending.remove(id)
    }

    /// Sorts a message of the backend.
    pub fn on_message(&mut self, msg: Json) -> (incoming: Incoming)
        ensures
            incoming@ == incoming_of(old(self)@, msg@),
            final(self)@ == after_message(old(self)@, msg@),
    {
        let has_method = msg.get("method").is_some();
        let id = match msg.get("id") {
            Some(id) => id.copy(),
            None => {
                return Incoming::Event(BackendEvent::Notification(msg));
            },
        };
        if has_method {
            return Incoming::Event(BackendEvent::PeerRequest(msg));
        }
        match self.pending.remove(&id) {
            Some(waiter) => Incoming::Deliver(waiter, msg),
            None => {
                assert(self@.pending =~= old(self)@.pending);
                match self.discarding.remove(&id) {
                    Some(_) => Incoming::Discard,
                    None => Incoming::Event(BackendEvent::UnmatchedResponse(msg)),
                }
            },
        }
    }

    /// Gives up a waiting request: its late answer will be dropped.
    pub fn discard_pending_response(&mut self, id: &Json) -> (waiter: Option<u64>)
        ensures
            waiter == waiter_of(old(self)@, id@),
            final(self)@ == given_up(old(self)@, id@),
    {
        match self.pending.remove(id) {
            Some(waiter) => {
                self.discarding.insert(id.copy(), ());
                Some(waiter)
            },
            None => {
                assert(self@.pending =~= old(self)@.pending);
                None
            },
        }
    }

    /// Cancels a waiting request: its late answer will be dropped, and the backend
    /// is told to stop. `None` where nobody waits under that id.
    pub fn cancel_pending_request(&mut self, id: &Json, reason: &str) -> (call: Option<
        CancelledCall,
    >)
        ensures
            match call {
                Some(call) => {
                    &&& waiter_of(old(self)@, id@) == Some(call.waiter)
                    &&& call.notice@ == cancel_notice(id@, reason@)
                },
                None => waiter_of(old(self)@, id@) is None,
            },
            final(self)@ == given_up(old(self)@, id@),
    {
        match self.discard_pending_response(id) {
            Some(waiter) => {
                let mut params = Json::object();
                params.set("requestId", id.copy());
                params.set("reason", Json::text(reason));
                Some(
                    CancelledCall {
                        waiter,
                        notice: build_notification("notifications/cancelled", Some(params)),
                    },
                )
            },
            None => None,
        }
    }

    /// Marks an id whose late answer is to be dropped.
    pub fn mark_discarding(&mut self, id: Json)
        ensures
            final(self)@ == (BackendView {
                discarding: old(self)@.discarding.insert(identity(id@), ()),
                ..old(self)@
            }),
    {
        self.discarding.insert(id, ());
    }

    /// Whether a late answer with this id will be dropped.
    pub fn is_discarding_response(&self, id: &Json) -> (b: bool)
        ensures
            b == self@.discarding.contains_key(identity(id@)),
    {
        self.discarding.contains(id)
    }

    pub fn discarded_response_count(&self) -> (n: usize)
        ensures
            n == self@.discarding.dom().len(),
    {
        self.discarding.len()
    }

    pub fn pending_response_count(&self) -> (n: usize)
        ensures
            n == self@.pending.dom().len(),
    {
        self.pending.len()
    }

    /// The process is gone: nobody waits any more. Returns those who waited.
    pub fn on_exit(&mut self) -> (waiters: Vec<u64>)
        ensures
            final(self)@ == (BackendView {
                pending: Map::empty(),
                alive: false,
                ..old(self)@
            }),
            forall|w: u64| #[trigger]
                waiters@.contains(w) <==> exists|id: JsonView|
                    old(self)@.pending.contains_key(id) && #[trigger] old(self)@.pending[id] == w,
            waiters@.len() == old(self)@.pending.dom().len(),
    {
        let count = self.pending.len();
        let ghost rows = self.pending.row_views();
        let mut waiters: Vec<u64> = Vec::new();
        let mut i: usize = 0;
        while i < count
            invariant
                i <= count,
                count == rows.len(),
                rows == self.pending.row_views(),
                waiters@.len() == i,
                forall|j: int| 0 <= j < i ==> #[trigger] waiters@[j] == rows[j].1,
                *self == *old(self),
            decreases count - i,
        {
            waiters.push(*self.pending.value_at(i));
            i = i + 1;
        }
        proof {
            let pending = self@.pending;
            assert forall|w: u64| #[trigger] waiters@.contains(w) implies exists|id: JsonView|
                pending.contains_key(id) && #[trigger] pending[id] == w by {
                let j = choose|j: int| 0 <= j < waiters@.len() && waiters@[j] == w;
                crate::table::lemma_row_counts(rows, j);
                assert(pending[rows[j].0] == w);
            }
            assert forall|w: u64|
                (exists|id: JsonView|
                    pending.contains_key(id) && #[trigger] pending[id] == w) implies #[trigger] waiters@.contains(w) by {
                let id = choose|id: JsonView|
                    pending.contains_key(id) && #[trigger] pending[id] == w;
                crate::table::lemma_row_of_key(rows, id);
                let j = choose|j: int| 0 <= j < rows.len() && (#[trigger] rows[j]).0 == id;
                crate::table::lemma_row_counts(rows, j);
                assert(waiters@[j] == w);
            }
        }
        self.pending.clear();
        self.alive = false;
        waiters
    }

    pub fn is_alive(&self) -> (b: bool)
        ensures
            b == self@.alive,
    {
        self.alive
    }

    /// Takes in what the backend wrote to its error output; the last bytes of it
    /// are kept.
    pub fn push_stderr(&mut self, bytes: &[u8])
        ensures
            final(self)@ == (BackendView {
                stderr: tail_within(
                    old(self)@.stderr + lossy_text(bytes@),
                    STDERR_TAIL_BYTES as nat,
                ),
                ..old(self)@
            }),
            valid_utf8(bytes@) ==> final(self)@.stderr == tail_within(
                old(self)@.stderr + decode_utf8(bytes@),
                STDERR_TAIL_BYTES as nat,
            ),
    {
        let chunk = lossy(bytes);
        self.stderr.append(chunk.as_str());
        retain_utf8_tail(&mut self.stderr, STDERR_TAIL_BYTES);
    }

    /// What is kept of the backend's error output.
    pub fn stderr_snapshot(&self) -> (text: String)
        ensures
            text@ == self@.stderr,
    {
        self.stderr.clone()
    }

    /// Remembers what the backend said of itself in the handshake.
    pub fn set_server_info(&mut self, server_info: Json)
        ensures
            final(self)@ == (BackendView { server_info: Some(server_info@), ..old(self)@ }),
    {
        self.server_info = Some(server_info);
    }

    pub fn server_info_snapshot(&self) -> (info: Option<Json>)
        ensures
            opt_view(info) == self@.server_info,
    {
        match &self.server_info {
            Some(info) => Some(info.copy()),
            None => None,
        }
    }
}

/// A response with an id, or one equal to it, and no method.
pub open spec fn is_response_to(msg: JsonView, id: JsonView) -> bool {
    &&& field(msg, "method"@) is None
    &&& field(msg, "id"@) matches Some(given) && identity(given) == identity(id)
}

/// The answer to a request that was given up is dropped, once: it reaches nobody,
/// ends the suppression, and a second answer counts as unmatched.
pub proof fn law_late_answer_is_dropped_once(b: BackendView, id: JsonView, msg: JsonView)
    requires
        b.pending.contains_key(identity(id)),
        is_response_to(msg, id),
    ensures
        ({
            let gone = given_up(b, id);
            let after = after_message(gone, msg);
            &&& incoming_of(gone, msg) == IncomingView::Discard
            &&& !after.discarding.contains_key(identity(id))
            &&& incoming_of(after, msg) == IncomingView::UnmatchedResponse(msg)
        }),
{
}

/// Giving up other requests, however many, never ends the suppression of an id,
/// and neither does any message but the answer itself.
pub proof fn law_suppression_is_kept(b: BackendView, id: JsonView, other: JsonView, msg: JsonView)
    requires
        b.discarding.contains_key(identity(id)),
    ensures
        given_up(b, other).discarding.contains_key(identity(id)),
        !is_response_to(msg, id) ==> after_message(b, msg).discarding.contains_key(identity(id)),
{
}

/// An answer reaches the request that waits for it, and no other.
pub proof fn law_answer_reaches_its_waiter(b: BackendView, id: JsonView, waiter: u64, msg: JsonView)
    requires
        is_response_to(msg, id),
    ensures
        ({
            let waiting = BackendView { pending: b.pending.insert(identity(id), waiter), ..b };
            let after = after_message(waiting, msg);
            &&& incoming_of(waiting, msg) == IncomingView::Deliver(waiter, msg)
            &&& !after.pending.contains_key(identity(id))
            &&& forall|other: JsonView|
                other != identity(id) ==> (#[trigger] after.pending.contains_key(other)
                    == b.pending.contains_key(other)) && (b.pending.contains_key(other)
                    ==> after.pending[other] == b.pending[other])
        }),
{
}

/// Where the backend is in its life.
#[derive(Debug)]
pub enum BackendState {
    Cold,
    Starting { generation: u64 },
    Ready { generation: u64 },
    Degraded { generation: u64, last_error: String },
    Stopped,
}

/// The value of a `BackendState`.
#[verifier::ext_equal]
pub enum StateView {
    Cold,
    Starting { generation: u64 },
    Ready { generation: u64 },
    Degraded { generation: u64, last_error: Seq<char> },
    Stopped,
}

impl View for BackendState {
    type V = StateView;

    open spec fn view(&self) -> StateView {
        match self {
            BackendState::Cold => StateView::Cold,
            BackendState::Starting { generation } => StateView::Starting { generation: *generation },
            BackendState::Ready { generation } => StateView::Ready { generation: *generation },
            BackendState::Degraded { generation, last_error } => StateView::Degraded {
                generation: *generation,
                last_error: last_error@,
            },
            BackendState::Stopped => StateView::Stopped,
        }
    }
}

pub open spec fn state_label(state: StateView) -> Seq<char> {
    match state {
        StateView::Cold => "cold"@,
        StateView::Starting { .. } => "starting"@,
        StateView::Ready { .. } => "ready"@,
        StateView::Degraded { .. } => "degraded"@,
        StateView::Stopped => "stopped"@,
    }
}

impl BackendState {
    pub fn label(&self) -> (label: &'static str)
        ensures
            label@ == state_label(self@),
    {
        match self {
            BackendState::Cold => "cold",
            BackendState::Starting { .. } => "starting",
            BackendState::Ready { .. } => "ready",
            BackendState::Degraded { .. } => "degraded",
            BackendState::Stopped => "stopped",
        }
    }
}

/// What is told about the backend.
#[derive(Debug)]
pub struct BackendSnapshot {
    pub state: String,
    pub generation: u64,
    pub alive: bool,
    pub last_spawn_error: Option<String>,
    pub last_started_at_ms: Option<u64>,
    pub restart_count: u64,
    pub consecutive_spawn_failures: u64,
    pub cooldown_until_ms: Option<u64>,
}

pub open spec fn opt_text(v: Option<String>) -> Option<Seq<char>> {
    match v {
        Some(s) => Some(s@),
        None => None,
    }
}

/// The value of a `BackendSnapshot`.
#[verifier::ext_equal]
pub struct SnapshotView {
    pub state: Seq<char>,
    pub generation: u64,
    pub alive: bool,
    pub last_spawn_error: Option<Seq<char>>,
    pub last_started_at_ms: Option<u64>,
    pub restart_count: u64,
    pub consecutive_spawn_failures: u64,
    pub cooldown_until_ms: Option<u64>,
}

impl View for BackendSnapshot {
    type V = SnapshotView;

    open spec fn view(&self) -> SnapshotView {
        SnapshotView {
            state: self.state@,
            generation: self.generation,
            alive: self.alive,
            last_spawn_error: opt_text(self.last_spawn_error),
            last_started_at_ms: self.last_started_at_ms,
            restart_count: self.restart_count,
            consecutive_spawn_failures: self.consecutive_spawn_failures,
            cooldown_until_ms: self.cooldown_until_ms,
        }
    }
}

pub open spec fn uint_view(n: u64) -> JsonView {
    JsonView::Num(NumberView::Int(n as int))
}

pub open spec fn opt_uint_view(n: Option<u64>) -> JsonView {
    match n {
        Some(n) => uint_view(n),
        None => JsonView::Null,
    }
}

pub open spec fn opt_text_view(s: Option<Seq<char>>) -> JsonView {
    match s {
        Some(s) => JsonView::Str(s),
        None => JsonView::Null,
    }
}

fn opt_uint(n: Option<u64>) -> (j: Json)
    ensures
        j@ == opt_uint_view(n),
{
    match n {
        Some(n) => Json::UInt(n),
        None => Json::Null,
    }
}

fn opt_string(s: &Option<String>) -> (j: Json)
    ensures
        j@ == opt_text_view(opt_text(*s)),
{
    match s {
        Some(s) => Json::Str(s.clone()),
        None => Json::Null,
    }
}

pub open spec fn snapshot_json(s: SnapshotView) -> JsonView {
    JsonView::Obj(
        map![
            "state"@ => JsonView::Str(s.state),
            "generation"@ => uint_view(s.generation),
            "alive"@ => JsonView::Bool(s.alive),
            "lastSpawnError"@ => opt_text_view(s.last_spawn_error),
            "lastStartedAtMs"@ => opt_uint_view(s.last_started_at_ms),
            "restartCount"@ => uint_view(s.restart_count),
            "consecutiveSpawnFailures"@ => uint_view(s.consecutive_spawn_failures),
            "cooldownUntilMs"@ => opt_uint_view(s.cooldown_until_ms),
        ],
    )
}

impl BackendSnapshot {
    pub fn to_value(&self) -> (j: Json)
        ensures
            j@ == snapshot_json(self@),
    {
        let mut j = Json::object();
        j.set("state", Json::Str(self.state.clone()));
        j.set("generation", Json::UInt(self.generation));
        j.set("alive", Json::Bool(self.alive));
        j.set("lastSpawnError", opt_string(&self.last_spawn_error));
        j.set("lastStartedAtMs", opt_uint(self.last_started_at_ms));
        j.set("restartCount", Json::UInt(self.restart_count));
        j.set("consecutiveSpawnFailures", Json::UInt(self.consecutive_spawn_failures));
        j.set("cooldownUntilMs", opt_uint(self.cooldown_until_ms));
        j
    }
}

/// How long no backend is started after it failed to start.
pub const BACKEND_COOLDOWN_MS: u64 = 30_000;

/// How often starting a backend is tried.
pub const SPAWN_ATTEMPTS: u64 = 3;

/// The place of the backend: whether there is one, which generation it is, and
/// how starting it went. The process itself is held elsewhere.
pub struct BackendSlot {
    occupied: bool,
    generation: u64,
    restart_count: u64,
    state: BackendState,
    last_spawn_error: Option<String>,
    last_started_at_ms: u64,
    consecutive_spawn_failures: u64,
    cooldown_until_ms: u64,
}

/// The value of a `BackendSlot`.
#[verifier::ext_equal]
pub struct SlotView {
    pub occupied: bool,
    pub generation: u64,
    pub restart_count: u64,
    pub state: StateView,
    pub last_spawn_error: Option<Seq<char>>,
    pub last_started_at_ms: u64,
    pub consecutive_spawn_failures: u64,
    pub cooldown_until_ms: u64,
}

impl View for BackendSlot {
    type V = SlotView;

    closed spec fn view(&self) -> SlotView {
        SlotView {
            occupied: self.occupied,
            generation: self.generation,
            restart_count: self.restart_count,
            state: self.state@,
            last_spawn_error: opt_text(self.last_spawn_error),
            last_started_at_ms: self.last_started_at_ms,
            consecutive_spawn_failures: self.consecutive_spawn_failures,
            cooldown_until_ms: self.cooldown_until_ms,
        }
    }
}

/// A run of attempts to bring a backend up.
#[derive(Debug, Clone, Copy, PartialEq, Eq, Structural)]
pub struct EnsureRun {
    pub next_generation: u64,
    pub attempt: u64,
    pub replaces: bool,
}

/// How ensuring a backend begins.
#[derive(Debug)]
pub enum EnsureStart {
    /// The backend is alive: use it.
    Reuse,
    /// No attempt is made now; this is why.
    Rejected(String),
    /// Start a backend.
    Spawn(EnsureRun),
}

/// How ensuring a backend goes on after a failed attempt.
#[derive(Debug)]
pub enum EnsureNext {
    /// Wait that many seconds, then try again.
    Retry { run: EnsureRun, delay_secs: u64 },
    /// Give up. Where there was a dead backend it is to be killed.
    GaveUp { message: String, kill_old: bool },
}

/// How a restart begins.
#[derive(Debug)]
pub enum RestartStart {
    Rejected(String),
    /// Kill the old backend if there is one, then start the new one.
    Spawn { next_generation: u64, kill_old: bool },
}

pub open spec fn cooldown_message(until: u64, now: u64) -> Option<Seq<char>> {
    if until > now {
        Some(
            "backend temporarily degraded; retry after "@ + decimal((until - now) as nat) + "ms"@,
        )
    } else {
        None
    }
}

/// The slot while the next generation is being started.
pub open spec fn starting(s: SlotView) -> SlotView {
    SlotView {
        state: StateView::Starting { generation: (s.generation + 1) as u64 },
        ..s
    }
}

/// The slot with a backend that came up.
pub open spec fn ready(s: SlotView, generation: u64, counts: bool, now: u64) -> SlotView {
    SlotView {
        occupied: true,
        generation,
        restart_count: if counts {
            s.restart_count.wrapping_add(1)
        } else {
            s.restart_count
        },
        state: StateView::Ready { generation },
        last_spawn_error: None,
        last_started_at_ms: now,
        consecutive_spawn_failures: 0,
        cooldown_until_ms: 0,
    }
}

/// The slot after an attempt that failed.
pub open spec fn failed_once(s: SlotView, error: Seq<char>) -> SlotView {
    SlotView {
        consecutive_spawn_failures: s.consecutive_spawn_failures.wrapping_add(1),
        last_spawn_error: Some(error),
        ..s
    }
}

/// The slot once starting a backend was given up.
pub open spec fn degraded(s: SlotView, error: Seq<char>, now: u64) -> SlotView {
    SlotView {
        occupied: false,
        cooldown_until_ms: (now + BACKEND_COOLDOWN_MS) as u64,
        state: StateView::Degraded { generation: s.generation, last_error: error },
        ..s
    }
}

/// Seconds to wait after a failed attempt.
pub open spec fn backoff_secs(attempt: u64) -> u64 {
    if attempt == 0 {
        1
    } else {
        2
    }
}

impl BackendSlot {
    /// A slot without a backend.
    pub fn new_empty() -> (slot: BackendSlot)
        ensures
            slot@ == (SlotView {
                occupied: false,
                generation: 0,
                restart_count: 0,
                state: StateView::Cold,
                last_spawn_error: None,
                last_started_at_ms: 0,
                consecutive_spawn_failures: 0,
                cooldown_until_ms: 0,
            }),
    {
        BackendSlot {
            occupied: false,
            generation: 0,
            restart_count: 0,
            state: BackendState::Cold,
            last_spawn_error: None,
            last_started_at_ms: 0,
            consecutive_spawn_failures: 0,
            cooldown_until_ms: 0,
        }
    }

    /// A slot with a backend that is up already.
    pub fn from_backend(now: u64) -> (slot: BackendSlot)
        ensures
            slot@ == (SlotView {
                occupied: true,
                generation: 1,
                restart_count: 0,
                state: StateView::Ready { generation: 1 },
                last_spawn_error: None,
                last_started_at_ms: now,
                consecutive_spawn_failures: 0,
                cooldown_until_ms: 0,
            }),
    {
        BackendSlot {
            occupied: true,
            generation: 1,
            restart_count: 0,
            state: BackendState::Ready { generation: 1 },
            last_spawn_error: None,
            last_started_at_ms: now,
            consecutive_spawn_failures: 0,
            cooldown_until_ms: 0,
        }
    }

    /// Whether there is a backend and it lives; `alive` is about the process.
    pub fn live(&self, alive: bool) -> (b: bool)
        ensures
            b == (self@.occupied && alive),
    {
        self.occupied && alive
    }

    pub fn generation(&self) -> (generation: u64)
        ensures
            generation == self@.generation,
    {
        self.generation
    }

    /// A restart has to wait for running calls, unless it is forced.
    pub fn restart_blocked_by_active_calls(active: usize, force: bool) -> (b: bool)
        ensures
            b == (active > 0 && !force),
    {
        active > 0 && !force
    }

    /// A stop has to wait for running calls.
    pub fn stop_blocked_by_active_calls(active: usize) -> (b: bool)
        ensures
            b == (active > 0),
    {
        active > 0
    }

    fn cooldown_error(&self, now: u64) -> (message: Option<String>)
        ensures
            opt_text(message) == cooldown_message(self@.cooldown_until_ms, now),
    {
        if self.cooldown_until_ms > now {
            let left = decimal_text(self.cooldown_until_ms - now);
            Some(join3("backend temporarily degraded; retry after ", left.as_str(), "ms"))
        } else {
            None
        }
    }

    /// Begins to make sure that there is a live backend.
    pub fn begin_ensure(&mut self, alive: bool, now: u64) -> (start: EnsureStart)
        requires
            old(self)@.generation < u64::MAX,
        ensures
            match start {
                EnsureStart::Reuse => {
                    &&& old(self)@.occupied && alive
                    &&& final(self)@ == old(self)@
                },
                EnsureStart::Rejected(message) => {
                    &&& !(old(self)@.occupied && alive)
                    &&& cooldown_message(old(self)@.cooldown_until_ms, now) == Some(message@)
                    &&& final(self)@ == old(self)@
                },
                EnsureStart::Spawn(run) => {
                    &&& !(old(self)@.occupied && alive)
                    &&& cooldown_message(old(self)@.cooldown_until_ms, now) is None
                    &&& run == (EnsureRun {
                        next_generation: (old(self)@.generation + 1) as u64,
                        attempt: 0,
                        replaces: old(self)@.occupied,
                    })
                    &&& final(self)@ == starting(old(self)@)
                },
            },
    {
        if self.occupied && alive {
            return EnsureStart::Reuse;
        }
        match self.cooldown_error(now) {
            Some(message) => EnsureStart::Rejected(message),
            None => {
                let next_generation = self.generation + 1;
                self.state = BackendState::Starting { generation: next_generation };
                EnsureStart::Spawn(
                    EnsureRun { next_generation, attempt: 0, replaces: self.occupied },
                )
            },
        }
    }

    /// The backend came up. Returns whether an old one is still to be killed; the
    /// new one replaces a backend that was known before where `run.replaces` says
    /// so.
    pub fn ensure_spawned(&mut self, run: EnsureRun, now: u64) -> (kill_old: bool)
        ensures
            kill_old == old(self)@.occupied,
            final(self)@ == ready(old(self)@, run.next_generation, run.replaces, now),
    {
        let kill_old = self.occupied;
        self.become_ready(run.next_generation, run.replaces, now);
        kill_old
    }

    /// An attempt failed: wait and try again, or give up after the last one.
    pub fn ensure_failed(&mut self, run: EnsureRun, error: String, now: u64) -> (next: EnsureNext)
        requires
            now <= u64::MAX - BACKEND_COOLDOWN_MS,
            run.attempt < SPAWN_ATTEMPTS,
        ensures
            match next {
                EnsureNext::Retry { run: again, delay_secs } => {
                    &&& run.attempt + 1 < SPAWN_ATTEMPTS
                    &&& again == (EnsureRun { attempt: (run.attempt + 1) as u64, ..run })
                    &&& delay_secs == backoff_secs(run.attempt)
                    &&& final(self)@ == failed_once(old(self)@, error@)
                },
                EnsureNext::GaveUp { message, kill_old } => {
                    &&& run.attempt + 1 == SPAWN_ATTEMPTS
                    &&& message@ == "backend spawn failed after 3 attempts: "@ + error@
                    &&& kill_old == old(self)@.occupied
                    &&& final(self)@ == degraded(failed_once(old(self)@, error@), error@, now)
                },
            },
    {
        self.consecutive_spawn_failures = self.consecutive_spawn_failures.wrapping_add(1);
        self.last_spawn_error = Some(error.clone());
        if run.attempt + 1 < SPAWN_ATTEMPTS {
            return EnsureNext::Retry {
                run: EnsureRun { attempt: run.attempt + 1, ..run },
                delay_secs: if run.attempt == 0 {
                    1
                } else {
                    2
                },
            };
        }
        let kill_old = self.occupied;
        let message = join("backend spawn failed after 3 attempts: ", error.as_str());
        self.degrade(error, now);
        EnsureNext::GaveUp { message, kill_old }
    }

    /// Begins a restart. During the cooldown it is rejected, unless it is forced:
    /// that ends the cooldown.
    pub fn begin_restart(&mut self, force: bool, now: u64) -> (start: RestartStart)
        requires
            old(self)@.generation < u64::MAX,
        ensures
            match start {
                RestartStart::Rejected(message) => {
                    &&& !force
                    &&& cooldown_message(old(self)@.cooldown_until_ms, now) matches Some(why)
                    &&& message@ == "backend restart rejected during cooldown: "@ + why
                    &&& final(self)@ == old(self)@
                },
                RestartStart::Spawn { next_generation, kill_old } => {
                    &&& force || cooldown_message(old(self)@.cooldown_until_ms, now) is None
                    &&& next_generation == old(self)@.generation + 1
                    &&& kill_old == old(self)@.occupied
                    &&& final(self)@ == (SlotView {
                        occupied: false,
                        cooldown_until_ms: if force {
                            0
                        } else {
                            old(self)@.cooldown_until_ms
                        },
                        ..starting(old(self)@)
                    })
                },
            },
    {
        if force {
            self.cooldown_until_ms = 0;
        } else {
            match self.cooldown_error(now) {
                Some(why) => {
                    return RestartStart::Rejected(
                        join("backend restart rejected during cooldown: ", why.as_str()),
                    );
                },
                None => {},
            }
        }
        let next_generation = self.generation + 1;
        self.state = BackendState::Starting { generation: next_generation };
        let kill_old = self.occupied;
        self.occupied = false;
        RestartStart::Spawn { next_generation, kill_old }
    }

    /// The restarted backend came up.
    pub fn restart_spawned(&mut self, next_generation: u64, now: u64)
        ensures
            final(self)@ == ready(old(self)@, next_generation, true, now),
    {
        self.become_ready(next_generation, true, now);
    }

    /// The restarted backend did not come up.
    pub fn restart_failed(&mut self, error: String, now: u64)
        requires
            now <= u64::MAX - BACKEND_COOLDOWN_MS,
        ensures
            final(self)@ == degraded(failed_once(old(self)@, error@), error@, now),
    {
        self.consecutive_spawn_failures = self.consecutive_spawn_failures.wrapping_add(1);
        self.last_spawn_error = Some(error.clone());
        self.degrade(error, now);
    }

    fn become_ready(&mut self, generation: u64, counts: bool, now: u64)
        ensures
            final(self)@ == ready(old(self)@, generation, counts, now),
    {
        self.occupied = true;
        self.generation = generation;
        if counts {
            self.restart_count = self.restart_count.wrapping_add(1);
        }
        self.consecutive_spawn_failures = 0;
        self.cooldown_until_ms = 0;
        self.last_spawn_error = None;
        self.last_started_at_ms = now;
        self.state = BackendState::Ready { generation };
    }

    fn degrade(&mut self, error: String, now: u64)
        requires
            now <= u64::MAX - BACKEND_COOLDOWN_MS,
        ensures
            final(self)@ == degraded(old(self)@, error@, now),
    {
        self.occupied = false;
        self.cooldown_until_ms = now + BACKEND_COOLDOWN_MS;
        self.state = BackendState::Degraded { generation: self.generation, last_error: error };
    }

    /// Stops the backend. Returns whether there is one to be killed.
    pub fn stop(&mut self) -> (kill_old: bool)
        ensures
            kill_old == old(self)@.occupied,
            final(self)@ == (SlotView { occupied: false, state: StateView::Stopped, ..old(self)@ }),
    {
        let kill_old = self.occupied;
        self.occupied = false;
        self.state = BackendState::Stopped;
        kill_old
    }

    /// Takes the backend out of the slot, after it failed or was idle too long.
    /// Returns whether there is one to be killed.
    pub fn take_backend(&mut self) -> (kill_old: bool)
        ensures
            kill_old == old(self)@.occupied,
            final(self)@ == (SlotView { occupied: false, ..old(self)@ }),
    {
        let kill_old = self.occupied;
        self.occupied = false;
        kill_old
    }

    /// What is told about the backend; `alive` is about the process.
    pub fn snapshot(&self, alive: bool) -> (snapshot: BackendSnapshot)
        ensures
            snapshot@ == slot_snapshot(self@, alive),
    {
        BackendSnapshot {
            state: self.state.label().to_owned(),
            generation: self.generation,
            alive: self.occupied && alive,
            last_spawn_error: match &self.last_spawn_error {
                Some(e) => Some(e.clone()),
                None => None,
            },
            last_started_at_ms: if self.last_started_at_ms == 0 {
                None
            } else {
                Some(self.last_started_at_ms)
            },
            restart_count: self.restart_count,
            consecutive_spawn_failures: self.consecutive_spawn_failures,
            cooldown_until_ms: if self.cooldown_until_ms == 0 {
                None
            } else {
                Some(self.cooldown_until_ms)
            },
        }
    }
}

pub open spec fn slot_snapshot(s: SlotView, alive: bool) -> SnapshotView {
    SnapshotView {
        state: state_label(s.state),
        generation: s.generation,
        alive: s.occupied && alive,
        last_spawn_error: s.last_spawn_error,
        last_started_at_ms: if s.last_started_at_ms == 0 {
            None
        } else {
            Some(s.last_started_at_ms)
        },
        restart_count: s.restart_count,
        consecutive_spawn_failures: s.consecutive_spawn_failures,
        cooldown_until_ms: if s.cooldown_until_ms == 0 {
            None
        } else {
            Some(s.cooldown_until_ms)
        },
    }
}

/// Three failed attempts in a row leave the slot empty and degraded, at the
/// generation it had, with the cooldown running: until it ends no unforced start
/// is made.
pub proof fn law_three_failures_start_the_cooldown(
    s: SlotView,
    first: Seq<char>,
    second: Seq<char>,
    third: Seq<char>,
    now: u64,
    later: u64,
)
    requires
        now <= u64::MAX - BACKEND_COOLDOWN_MS,
        s.consecutive_spawn_failures <= u64::MAX - 3,
    ensures
        ({
            let end = degraded(
                failed_once(failed_once(failed_once(starting(s), first), second), third),
                third,
                now,
            );
            &&& !end.occupied
            &&& end.generation == s.generation
            &&& end.state == (StateView::Degraded { generation: s.generation, last_error: third })
            &&& end.last_spawn_error == Some(third)
            &&& end.consecutive_spawn_failures == s.consecutive_spawn_failures + 3
            &&& later < now + BACKEND_COOLDOWN_MS <==> cooldown_message(
                end.cooldown_until_ms,
                later,
            ) is Some
        }),
{
}

/// A backend that comes up has the next generation and clears every trace of
/// failed attempts.
pub proof fn law_success_clears_the_circuit(s: SlotView, counts: bool, now: u64, later: u64)
    requires
        s.generation < u64::MAX,
    ensures
        ({
            let up = ready(s, (s.generation + 1) as u64, counts, now);
            &&& up.generation == s.generation + 1
            &&& up.state == (StateView::Ready { generation: up.generation })
            &&& up.consecutive_spawn_failures == 0
            &&& up.last_spawn_error is None
            &&& cooldown_message(up.cooldown_until_ms, later) is None
        }),
{
}

// ── What the bookkeeping of a backend is for ────────────────────────

/// Ids for requests are numbers that go up by one, and taking one changes nothing else.
pub proof fn law_ids_go_up(b: &mut Backend, id: Json)
    requires
        call_ensures(Backend::next_request_id, (b,), id),
    ensures
        id@ == JsonView::Num(NumberView::Int(old(b)@.next_id as int)),
        old(b)@.next_id < u64::MAX ==> final(b)@.next_id == old(b)@.next_id + 1,
        final(b)@.next_id != old(b)@.next_id,
        final(b)@.pending == old(b)@.pending,
        final(b)@.discarding == old(b)@.discarding,
        final(b)@.alive == old(b)@.alive,
        final(b)@.stderr == old(b)@.stderr,
        final(b)@.server_info == old(b)@.server_info,
{
}

/// A backend that has just been started lives, and nobody waits for it.
pub proof fn law_new_backend_is_idle(b: Backend, id: JsonView)
    requires
        call_ensures(Backend::new, (), b),
    ensures
        b@.alive,
        !b@.pending.contains_key(id),
        !b@.discarding.contains_key(id),
        b@.next_id == 1,
        b@.stderr.len() == 0,
        b@.server_info is None,
{
}

/// A request with an id is registered where the backend lives: the answer under that id
/// then reaches who waits for it, and answers to others go where they went. A request
/// without an id is refused, and so is every one once the backend is gone; that changes
/// nothing.
pub proof fn law_registered_request_gets_its_answer(
    b: &mut Backend,
    msg: &Json,
    waiter: u64,
    r: Result<Option<u64>, RequestFailure>,
    answer: JsonView,
    other: JsonView,
)
    requires
        call_ensures(Backend::begin_request, (b, msg, waiter), r),
    ensures
        r is Ok <==> old(b)@.alive && field(msg@, "id"@) is Some,
        field(msg@, "id"@) is None ==> r == Err::<Option<u64>, RequestFailure>(
            RequestFailure::MissingId,
        ),
        field(msg@, "id"@) is Some && !old(b)@.alive ==> r == Err::<Option<u64>, RequestFailure>(
            RequestFailure::Closed,
        ),
        r is Err ==> final(b)@ == old(b)@,
        r is Ok ==> {
            let id = field(msg@, "id"@)->0;
            &&& is_response_to(answer, id) ==> incoming_of(final(b)@, answer)
                == IncomingView::Deliver(waiter, answer)
            &&& !is_response_to(answer, id) ==> incoming_of(final(b)@, answer) == incoming_of(
                old(b)@,
                answer,
            )
            &&& r->Ok_0 is Some <==> old(b)@.pending.contains_key(identity(id))
            &&& r->Ok_0 is Some ==> r->Ok_0->0 == old(b)@.pending[identity(id)]
            &&& final(b)@.next_id == old(b)@.next_id
            &&& final(b)@.discarding == old(b)@.discarding
            &&& final(b)@.alive == old(b)@.alive
            &&& final(b)@.stderr == old(b)@.stderr
            &&& final(b)@.server_info == old(b)@.server_info
        },
{
}

/// A request that is taken back waits no more, whoever else waits goes on waiting, and
/// its answer is not dropped for it.
pub proof fn law_abandoned_request_waits_no_more(
    b: &mut Backend,
    id: &Json,
    waiter: Option<u64>,
    other: JsonView,
)
    requires
        call_ensures(Backend::abandon_request, (b, id), waiter),
    ensures
        !final(b)@.pending.contains_key(identity(id@)),
        waiter is Some <==> old(b)@.pending.contains_key(identity(id@)),
        waiter is Some ==> waiter->0 == old(b)@.pending[identity(id@)],
        other != identity(id@) ==> final(b)@.pending.contains_key(other)
            == old(b)@.pending.contains_key(other),
        other != identity(id@) && old(b)@.pending.contains_key(other) ==> final(b)@.pending[other]
            == old(b)@.pending[other],
        final(b)@.discarding == old(b)@.discarding,
        final(b)@.next_id == old(b)@.next_id,
{
}

/// A message of the backend with a method is a request where it has an id, and else a
/// notification; one with an id alone is an answer, which ends the wait for it or is
/// dropped where the request was given up; one with neither is a notification. Nothing
/// else changes.
pub proof fn law_messages_are_sorted_by_their_fields(
    b: &mut Backend,
    msg: Json,
    incoming: Incoming,
    other: JsonView,
)
    requires
        call_ensures(Backend::on_message, (b, msg), incoming),
    ensures
        field(msg@, "method"@) is Some && field(msg@, "id"@) is Some ==> incoming@
            == IncomingView::PeerRequest(msg@) && final(b)@ == old(b)@,
        field(msg@, "id"@) is None ==> incoming@ == IncomingView::Notification(msg@) && final(b)@
            == old(b)@,
        field(msg@, "method"@) is None && field(msg@, "id"@) is Some ==> {
            let id = identity(field(msg@, "id"@)->0);
            &&& old(b)@.pending.contains_key(id) ==> incoming@ == IncomingView::Deliver(
                old(b)@.pending[id],
                msg@,
            )
            &&& !old(b)@.pending.contains_key(id) && old(b)@.discarding.contains_key(id)
                ==> incoming@ == IncomingView::Discard
            &&& !old(b)@.pending.contains_key(id) && !old(b)@.discarding.contains_key(id)
                ==> incoming@ == IncomingView::UnmatchedResponse(msg@)
            &&& !final(b)@.pending.contains_key(id)
            &&& other != id ==> final(b)@.pending.contains_key(other)
                == old(b)@.pending.contains_key(other) && final(b)@.discarding.contains_key(other)
                == old(b)@.discarding.contains_key(other)
            &&& old(b)@.pending.contains_key(id) ==> final(b)@.discarding == old(b)@.discarding
            &&& final(b)@.next_id == old(b)@.next_id
            &&& final(b)@.alive == old(b)@.alive
        },
{
}

/// A request that is cancelled waits no more, its late answer will be dropped, and the
/// backend is told in a notification that names it and the reason. Where nobody waits
/// under the id, nothing happens.
pub proof fn law_cancelled_request_waits_no_more(
    b: &mut Backend,
    id: &Json,
    reason: &str,
    call: Option<CancelledCall>,
    other: JsonView,
)
    requires
        call_ensures(Backend::cancel_pending_request, (b, id, reason), call),
    ensures
        call is Some <==> old(b)@.pending.contains_key(identity(id@)),
        call is None ==> final(b)@ == old(b)@,
        (call matches Some(call) ==> {
            &&& call.waiter == old(b)@.pending[identity(id@)]
            &&& field(call.notice@, "method"@) == Some(JsonView::Str("notifications/cancelled"@))
            &&& field(call.notice@, "id"@) is None
            &&& crate::json::opt_field(field(call.notice@, "params"@), "requestId"@) == Some(id@)
            &&& crate::json::opt_field(field(call.notice@, "params"@), "reason"@) == Some(
                JsonView::Str(reason@),
            )
            &&& !final(b)@.pending.contains_key(identity(id@))
            &&& final(b)@.discarding.contains_key(identity(id@))
        }),
        other != identity(id@) ==> final(b)@.pending.contains_key(other)
            == old(b)@.pending.contains_key(other) && final(b)@.discarding.contains_key(other)
            == old(b)@.discarding.contains_key(other),
{
    reveal_strlit("method");
    reveal_strlit("jsonrpc");
    reveal_strlit("params");
    reveal_strlit("id");
    assert("method"@.len() == 6);
    assert("jsonrpc"@.len() == 7);
    assert("params"@.len() == 6);
    assert("id"@.len() == 2);
    assert("method"@[0] != "params"@[0]);
    reveal_strlit("requestId");
    reveal_strlit("reason");
    assert("requestId"@.len() == 9);
    assert("reason"@.len() == 6);
}

/// A request that is given up waits no more, and its late answer will be dropped; an id
/// that is marked is one whose late answer will be dropped.
pub proof fn law_given_up_request_waits_no_more(
    b: &mut Backend,
    id: &Json,
    waiter: Option<u64>,
    marked: &mut Backend,
    mark: Json,
    unit: (),
    other: JsonView,
)
    requires
        call_ensures(Backend::discard_pending_response, (b, id), waiter),
        call_ensures(Backend::mark_discarding, (marked, mark), unit),
    ensures
        waiter is Some <==> old(b)@.pending.contains_key(identity(id@)),
        waiter is Some ==> waiter->0 == old(b)@.pending[identity(id@)] && final(b)@.discarding.contains_key(identity(id@)),
        waiter is None ==> final(b)@ == old(b)@,
        !final(b)@.pending.contains_key(identity(id@)),
        final(marked)@.discarding.contains_key(identity(mark@)),
        final(marked)@.pending == old(marked)@.pending,
        other != identity(mark@) ==> final(marked)@.discarding.contains_key(other)
            == old(marked)@.discarding.contains_key(other),
{
}

/// Once the process is gone, nobody waits, every one who waited is told, and no request
/// is taken any more.
pub proof fn law_exit_tells_everyone_who_waits(
    b: &mut Backend,
    waiters: Vec<u64>,
    id: JsonView,
)
    requires
        call_ensures(Backend::on_exit, (b,), waiters),
    ensures
        !final(b)@.alive,
        !final(b)@.pending.contains_key(id),
        old(b)@.pending.contains_key(id) ==> waiters@.contains(old(b)@.pending[id]),
        final(b)@.discarding == old(b)@.discarding,
        final(b)@.next_id == old(b)@.next_id,
        final(b)@.stderr == old(b)@.stderr,
{
}

/// Of the error output the last 4096 bytes are kept, cut between characters.
pub proof fn law_error_output_is_kept_to_a_limit(b: &mut Backend, bytes: &[u8], unit: ())
    requires
        call_ensures(Backend::push_stderr, (b, bytes), unit),
        valid_utf8(bytes@),
    ensures
        ({
            let all = old(b)@.stderr + decode_utf8(bytes@);
            let kept = final(b)@.stderr;
            &&& encode_utf8(kept).len() <= 4096
            &&& kept.is_suffix_of(all)
            &&& encode_utf8(all).len() <= 4096 ==> kept == all
            &&& kept.len() < all.len() ==> encode_utf8(
                all.skip(all.len() - kept.len() - 1),
            ).len() > 4096
            &&& final(b)@.pending == old(b)@.pending
            &&& final(b)@.alive == old(b)@.alive
        }),
{
    let all = old(b)@.stderr + decode_utf8(bytes@);
    law_tail_is_longest_fitting_end(all, 4096);
    let kept = tail_within(all, 4096);
    assert(all.skip(all.len() - kept.len()) =~= all.subrange(
        all.len() - kept.len(),
        all.len() as int,
    ));
    if kept.len() < all.len() {
        assert(encode_utf8(all.skip(all.len() - kept.len() - 1)).len() > 4096);
    }
}

/// What is asked of a backend is what it was told: its handshake, whether it lives, its
/// error output, how many wait and how many answers will be dropped.
pub proof fn law_backend_tells_its_state(
    b: Backend,
    id: &Json,
    alive: bool,
    stderr: String,
    info: Option<Json>,
    waiting: usize,
    dropped: usize,
    drops: bool,
)
    requires
        call_ensures(Backend::is_alive, (&b,), alive),
        call_ensures(Backend::stderr_snapshot, (&b,), stderr),
        call_ensures(Backend::server_info_snapshot, (&b,), info),
        call_ensures(Backend::pending_response_count, (&b,), waiting),
        call_ensures(Backend::discarded_response_count, (&b,), dropped),
        call_ensures(Backend::is_discarding_response, (&b, id), drops),
    ensures
        alive == b@.alive,
        stderr@ == b@.stderr,
        info is Some == b@.server_info is Some,
        info is Some ==> info->0@ == b@.server_info->0,
        waiting == b@.pending.dom().len(),
        dropped == b@.discarding.dom().len(),
        drops == b@.discarding.contains_key(identity(id@)),
{
}

/// The handshake that a backend was told is the one that it remembers.
pub proof fn law_handshake_is_remembered(b: &mut Backend, told: Json, unit: ())
    requires
        call_ensures(Backend::set_server_info, (b, told), unit),
    ensures
        final(b)@.server_info == Some(told@),
        final(b)@.pending == old(b)@.pending,
        final(b)@.discarding == old(b)@.discarding,
        final(b)@.next_id == old(b)@.next_id,
        final(b)@.alive == old(b)@.alive,
        final(b)@.stderr == old(b)@.stderr,
{
}

/// Whether a start is held back: the time until which nothing is started lies ahead.
pub open spec fn held_back(s: SlotView, now: u64) -> bool {
    s.cooldown_until_ms > now
}

/// A live backend is used again, and nothing changes. Else, while nothing may be
/// started, a request is refused with the time that is left; and else the next
/// generation is started, in the place of a backend that was there.
pub proof fn law_live_backend_is_used_again(
    slot: &mut BackendSlot,
    alive: bool,
    now: u64,
    start: EnsureStart,
)
    requires
        old(slot)@.generation < u64::MAX,
        call_ensures(BackendSlot::begin_ensure, (slot, alive, now), start),
    ensures
        start is Reuse <==> old(slot)@.occupied && alive,
        start is Rejected <==> !(old(slot)@.occupied && alive) && held_back(old(slot)@, now),
        start is Spawn <==> !(old(slot)@.occupied && alive) && !held_back(old(slot)@, now),
        start is Reuse || start is Rejected ==> final(slot)@ == old(slot)@,
        (start matches EnsureStart::Rejected(why) ==> decimal(
            (old(slot)@.cooldown_until_ms - now) as nat,
        ).is_prefix_of(why@.skip(42)) && why@.len() > 42),
        (start matches EnsureStart::Spawn(run) ==> {
            &&& run.next_generation == old(slot)@.generation + 1
            &&& run.attempt == 0
            &&& run.replaces == old(slot)@.occupied
            &&& final(slot)@.state == (StateView::Starting { generation: run.next_generation })
            &&& final(slot)@.generation == old(slot)@.generation
            &&& final(slot)@.occupied == old(slot)@.occupied
            &&& final(slot)@.restart_count == old(slot)@.restart_count
            &&& final(slot)@.consecutive_spawn_failures == old(slot)@.consecutive_spawn_failures
            &&& final(slot)@.cooldown_until_ms == old(slot)@.cooldown_until_ms
            &&& final(slot)@.last_spawn_error == old(slot)@.last_spawn_error
        }),
{
    reveal_strlit("backend temporarily degraded; retry after ");
    reveal_strlit("ms");
    assert("backend temporarily degraded; retry after "@.len() == 42);
    assert("ms"@.len() == 2);
    if let EnsureStart::Rejected(why) = start {
        let left = decimal((old(slot)@.cooldown_until_ms - now) as nat);
        assert(why@.skip(42).subrange(0, left.len() as int) =~= left);
    }
}

/// A backend that comes up is ready in the generation that was started, and no failure
/// is remembered; it counts as a restart exactly where it replaces one, and a dead one
/// in its place is killed.
pub proof fn law_started_backend_is_ready(
    slot: &mut BackendSlot,
    run: EnsureRun,
    now: u64,
    kill_old: bool,
    later: u64,
)
    requires
        call_ensures(BackendSlot::ensure_spawned, (slot, run, now), kill_old),
        old(slot)@.restart_count < u64::MAX,
    ensures
        kill_old == old(slot)@.occupied,
        final(slot)@.occupied,
        final(slot)@.generation == run.next_generation,
        final(slot)@.state == (StateView::Ready { generation: run.next_generation }),
        final(slot)@.restart_count == old(slot)@.restart_count + if run.replaces {
            1int
        } else {
            0int
        },
        final(slot)@.last_spawn_error is None,
        final(slot)@.consecutive_spawn_failures == 0,
        final(slot)@.last_started_at_ms == now,
        !held_back(final(slot)@, later),
{
}

/// A start is tried three times, with a second and then two seconds between. After the
/// third failure it is given up: the slot is empty and degraded with that failure, and
/// for thirty seconds nothing is started.
pub proof fn law_start_is_tried_three_times(
    slot: &mut BackendSlot,
    run: EnsureRun,
    error: String,
    now: u64,
    next: EnsureNext,
    later: u64,
)
    requires
        now <= u64::MAX - 30_000,
        run.attempt < 3,
        old(slot)@.consecutive_spawn_failures < u64::MAX,
        call_ensures(BackendSlot::ensure_failed, (slot, run, error, now), next),
    ensures
        final(slot)@.last_spawn_error == Some(error@),
        final(slot)@.consecutive_spawn_failures == old(slot)@.consecutive_spawn_failures + 1,
        final(slot)@.generation == old(slot)@.generation,
        final(slot)@.restart_count == old(slot)@.restart_count,
        next is Retry <==> run.attempt < 2,
        (next matches EnsureNext::Retry { run: again, delay_secs } ==> {
            &&& again.attempt == run.attempt + 1
            &&& again.next_generation == run.next_generation
            &&& again.replaces == run.replaces
            &&& delay_secs == run.attempt + 1
            &&& final(slot)@.occupied == old(slot)@.occupied
            &&& final(slot)@.state == old(slot)@.state
            &&& final(slot)@.cooldown_until_ms == old(slot)@.cooldown_until_ms
        }),
        (next matches EnsureNext::GaveUp { message, kill_old } ==> {
            &&& error@.is_suffix_of(message@)
            &&& kill_old == old(slot)@.occupied
            &&& !final(slot)@.occupied
            &&& final(slot)@.state == (StateView::Degraded {
                generation: old(slot)@.generation,
                last_error: error@,
            })
            &&& held_back(final(slot)@, later) <==> later < now + 30_000
        }),
{
    if let EnsureNext::GaveUp { message, kill_old } = next {
        assert(message@.subrange(message@.len() - error@.len(), message@.len() as int)
            =~= error@);
    }
}

/// A restart is refused exactly where nothing may be started and it is not forced. Else
/// the backend that was there is killed, the next generation is started, and a forced
/// restart ends the wait.
pub proof fn law_restart_starts_the_next_generation(
    slot: &mut BackendSlot,
    force: bool,
    now: u64,
    start: RestartStart,
    later: u64,
)
    requires
        old(slot)@.generation < u64::MAX,
        call_ensures(BackendSlot::begin_restart, (slot, force, now), start),
    ensures
        start is Rejected <==> !force && held_back(old(slot)@, now),
        start is Rejected ==> final(slot)@ == old(slot)@,
        (start matches RestartStart::Spawn { next_generation, kill_old } ==> {
            &&& next_generation == old(slot)@.generation + 1
            &&& kill_old == old(slot)@.occupied
            &&& !final(slot)@.occupied
            &&& final(slot)@.state == (StateView::Starting { generation: next_generation })
            &&& final(slot)@.generation == old(slot)@.generation
            &&& final(slot)@.restart_count == old(slot)@.restart_count
            &&& force ==> !held_back(final(slot)@, later)
            &&& !force ==> final(slot)@.cooldown_until_ms == old(slot)@.cooldown_until_ms
        }),
{
}

/// A restarted backend that comes up is ready and counts as a restart; one that does not
/// leaves the slot empty and degraded, and for thirty seconds nothing is started.
pub proof fn law_restart_ends(
    up: &mut BackendSlot,
    next_generation: u64,
    down: &mut BackendSlot,
    error: String,
    now: u64,
    unit: (),
    later: u64,
)
    requires
        call_ensures(BackendSlot::restart_spawned, (up, next_generation, now), unit),
        call_ensures(BackendSlot::restart_failed, (down, error, now), unit),
        now <= u64::MAX - 30_000,
        old(up)@.restart_count < u64::MAX,
        old(down)@.consecutive_spawn_failures < u64::MAX,
    ensures
        final(up)@.occupied,
        final(up)@.generation == next_generation,
        final(up)@.state == (StateView::Ready { generation: next_generation }),
        final(up)@.restart_count == old(up)@.restart_count + 1,
        final(up)@.last_spawn_error is None,
        final(up)@.consecutive_spawn_failures == 0,
        final(up)@.last_started_at_ms == now,
        !held_back(final(up)@, later),
        !final(down)@.occupied,
        final(down)@.generation == old(down)@.generation,
        final(down)@.restart_count == old(down)@.restart_count,
        final(down)@.last_spawn_error == Some(error@),
        final(down)@.consecutive_spawn_failures == old(down)@.consecutive_spawn_failures + 1,
        final(down)@.state == (StateView::Degraded {
            generation: old(down)@.generation,
            last_error: error@,
        }),
        held_back(final(down)@, later) <==> later < now + 30_000,
{
}

/// A backend that is stopped or taken out is killed where there is one, and the slot is
/// empty; its generation and its counts stay.
pub proof fn law_stopped_slot_is_empty(
    stopped: &mut BackendSlot,
    taken: &mut BackendSlot,
    kill: bool,
    take: bool,
)
    requires
        call_ensures(BackendSlot::stop, (stopped,), kill),
        call_ensures(BackendSlot::take_backend, (taken,), take),
    ensures
        kill == old(stopped)@.occupied,
        !final(stopped)@.occupied,
        final(stopped)@.state == StateView::Stopped,
        final(stopped)@.generation == old(stopped)@.generation,
        final(stopped)@.restart_count == old(stopped)@.restart_count,
        final(stopped)@.cooldown_until_ms == old(stopped)@.cooldown_until_ms,
        take == old(taken)@.occupied,
        !final(taken)@.occupied,
        final(taken)@.state == old(taken)@.state,
        final(taken)@.generation == old(taken)@.generation,
        final(taken)@.restart_count == old(taken)@.restart_count,
        final(taken)@.cooldown_until_ms == old(taken)@.cooldown_until_ms,
{
}

/// A slot begins without a backend, or with one of the first generation that is ready.
pub proof fn law_slots_begin(empty: BackendSlot, filled: BackendSlot, now: u64)
    requires
        call_ensures(BackendSlot::new_empty, (), empty),
        call_ensures(BackendSlot::from_backend, (now,), filled),
    ensures
        !empty@.occupied,
        empty@.generation == 0,
        empty@.state == StateView::Cold,
        filled@.occupied,
        filled@.generation == 1,
        filled@.state == (StateView::Ready { generation: 1 }),
        filled@.last_started_at_ms == now,
        empty@.restart_count == 0 && filled@.restart_count == 0,
        empty@.consecutive_spawn_failures == 0 && filled@.consecutive_spawn_failures == 0,
        empty@.last_spawn_error is None && filled@.last_spawn_error is None,
        !held_back(empty@, now) && !held_back(filled@, now),
{
}

/// What a slot tells of itself.
pub proof fn law_slot_tells_its_state(
    slot: BackendSlot,
    alive: bool,
    live: bool,
    generation: u64,
)
    requires
        call_ensures(BackendSlot::live, (&slot, alive), live),
        call_ensures(BackendSlot::generation, (&slot,), generation),
    ensures
        live <==> slot@.occupied && alive,
        generation == slot@.generation,
{
}

/// Running calls hold back a stop, and a restart unless it is forced.
pub proof fn law_running_calls_hold_back(active: usize, force: bool, restart: bool, stop: bool)
    requires
        call_ensures(BackendSlot::restart_blocked_by_active_calls, (active, force), restart),
        call_ensures(BackendSlot::stop_blocked_by_active_calls, (active,), stop),
    ensures
        active == 0 ==> !restart && !stop,
        active > 0 ==> stop && restart == !force,
{
}

/// What is told about a backend is what its slot holds, under the names that clients
/// know; a time of zero is told as none.
pub proof fn law_snapshot_tells_the_slot(s: SlotView, alive: bool)
    ensures
        ({
            let j = snapshot_json(slot_snapshot(s, alive));
            &&& field(j, "state"@) == Some(
                JsonView::Str(
                    match s.state {
                        StateView::Cold => "cold"@,
                        StateView::Starting { generation } => "starting"@,
                        StateView::Ready { generation } => "ready"@,
                        StateView::Degraded { generation, last_error } => "degraded"@,
                        StateView::Stopped => "stopped"@,
                    },
                ),
            )
            &&& field(j, "generation"@) == Some(JsonView::Num(NumberView::Int(s.generation as int)))
            &&& field(j, "alive"@) == Some(JsonView::Bool(s.occupied && alive))
            &&& field(j, "lastSpawnError"@) == Some(
                match s.last_spawn_error {
                    Some(error) => JsonView::Str(error),
                    None => JsonView::Null,
                },
            )
            &&& field(j, "lastStartedAtMs"@) == Some(
                if s.last_started_at_ms == 0 {
                    JsonView::Null
                } else {
                    JsonView::Num(NumberView::Int(s.last_started_at_ms as int))
                },
            )
            &&& field(j, "restartCount"@) == Some(
                JsonView::Num(NumberView::Int(s.restart_count as int)),
            )
            &&& field(j, "consecutiveSpawnFailures"@) == Some(
                JsonView::Num(NumberView::Int(s.consecutive_spawn_failures as int)),
            )
            &&& field(j, "cooldownUntilMs"@) == Some(
                if s.cooldown_until_ms == 0 {
                    JsonView::Null
                } else {
                    JsonView::Num(NumberView::Int(s.cooldown_until_ms as int))
                },
            )
        }),
{
    reveal_strlit("state");
    reveal_strlit("generation");
    reveal_strlit("alive");
    reveal_strlit("lastSpawnError");
    reveal_strlit("lastStartedAtMs");
    reveal_strlit("restartCount");
    reveal_strlit("consecutiveSpawnFailures");
    reveal_strlit("cooldownUntilMs");
    assert("state"@.len() == 5);
    assert("generation"@.len() == 10);
    assert("alive"@.len() == 5);
    assert("lastSpawnError"@.len() == 14);
    assert("lastStartedAtMs"@.len() == 15);
    assert("restartCount"@.len() == 12);
    assert("consecutiveSpawnFailures"@.len() == 24);
    assert("cooldownUntilMs"@.len() == 15);
    assert("state"@[0] != "alive"@[0]);
    assert("lastStartedAtMs"@[0] != "cooldownUntilMs"@[0]);
}

/// A failure is told in words, and a state by its name.
pub proof fn law_failures_and_states_in_words(
    failure: RequestFailure,
    text: String,
    state: BackendState,
    label: &'static str,
    slot: BackendSlot,
    alive: bool,
    snapshot: BackendSnapshot,
    told: Json,
)
    requires
        call_ensures(RequestFailure::message, (&failure,), text),
        call_ensures(BackendState::label, (&state,), label),
        call_ensures(BackendSlot::snapshot, (&slot, alive), snapshot),
        call_ensures(BackendSnapshot::to_value, (&snapshot,), told),
    ensures
        failure is Closed ==> text@ == "backend closed before response"@,
        failure is MissingId ==> text@ == "request missing id"@,
        failure is TimedOut ==> text@ == "request timed out"@,
        (failure matches RequestFailure::Io(why) ==> text@ == why@),
        label@ == match state {
            BackendState::Cold => "cold"@,
            BackendState::Starting { generation } => "starting"@,
            BackendState::Ready { generation } => "ready"@,
            BackendState::Degraded { generation, last_error } => "degraded"@,
            BackendState::Stopped => "stopped"@,
        },
        told@ == snapshot_json(slot_snapshot(slot@, alive)),
        snapshot.alive == (slot@.occupied && alive),
        snapshot.generation == slot@.generation,
        snapshot.restart_count == slot@.restart_count,
{
}

} // verus!
