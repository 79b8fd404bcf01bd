//! The table of outstanding calls and the rules by which a call ends.
//!
//! A call ends in exactly one of three ways: its response arrives, its
//! timeout runs out, or the connection is lost. Each of the three takes the
//! call out of the table, and an identifier is never handed out twice, so
//! no call can end a second time.

use crate::error::{outcome_view, Failure, NetworkError};
use crate::transport::frame::{encode_request, parsed, request_frame, Frame, FrameView};
use crate::wire::{items_content, Wire, WireValue};
use vstd::prelude::*;

verus! {

/// Where a connection stands.
///
/// `Disconnected`, then `Connecting`, then `Connected`; from there `Faulted`
/// when the stream ends by itself, or `Closed` on shutdown.
#[derive(Clone, Copy, Debug, PartialEq, Eq, Structural)]
pub enum ConnectionState {
    Disconnected,
    Connecting,
    Connected,
    Faulted,
    Closed,
}

/// One outstanding call, mathematically.
pub struct Call {
    pub id: u64,
    pub method: Seq<char>,
}

/// What a connection is, mathematically: the view of [`Connection`].
///
/// The calls stand in the order in which they were issued.
pub struct Engine {
    pub state: ConnectionState,
    pub next_id: u64,
    pub calls: Seq<Call>,
}

/// What became of a frame, mathematically: the view of [`Delivery`].
pub enum DeliveryView {
    Resolved { request_id: u64, outcome: Result<Wire, Failure> },
    Dropped { request_id: u64 },
    Ignored,
}

/// What a call yields once its response is there: the result where the
/// error slot is nil, the error under the method's name where it is not.
pub open spec fn outcome_of(method: Seq<char>, error: Wire, result: Wire) -> Result<
    Wire,
    Failure,
> {
    if error is Nil {
        Ok(result)
    } else {
        Err(Failure::Rpc { method, payload: error })
    }
}

impl Engine {
    /// Identifiers rise along the table, each is below the next one to be
    /// handed out, and only a connected engine has calls outstanding.
    pub open spec fn wf(self) -> bool {
        &&& forall|i: int, j: int|
            0 <= i < j < self.calls.len() ==> self.calls[i].id < self.calls[j].id
        &&& forall|i: int| 0 <= i < self.calls.len() ==> self.calls[i].id < self.next_id
        &&& self.state != ConnectionState::Connected ==> self.calls.len() == 0
    }

    /// Whether place `i` of the table holds the call `id`.
    pub open spec fn holds(self, i: int, id: u64) -> bool {
        0 <= i < self.calls.len() && self.calls[i].id == id
    }

    /// Whether the call `id` is outstanding.
    pub open spec fn is_pending(self, id: u64) -> bool {
        exists|i: int| self.holds(i, id)
    }

    /// Whether place `i` is the first that holds the call `id`.
    pub open spec fn first_at(self, i: int, id: u64) -> bool {
        self.holds(i, id) && forall|j: int| 0 <= j < i ==> (#[trigger] self.calls[j]).id != id
    }

    /// The place of the call `id` in the table.
    pub open spec fn index_of(self, id: u64) -> int {
        choose|i: int| self.first_at(i, id)
    }

    /// The method that the call `id` asked for.
    pub open spec fn method_of(self, id: u64) -> Seq<char> {
        self.calls[self.index_of(id)].method
    }

    /// Whether a new call can be issued.
    pub open spec fn can_call(self) -> bool {
        self.state == ConnectionState::Connected && self.next_id < u64::MAX
    }

    /// The engine after a call of `method` was issued under the next
    /// identifier.
    pub open spec fn issue(self, method: Seq<char>) -> Engine {
        Engine {
            state: self.state,
            next_id: (self.next_id + 1) as u64,
            calls: self.calls.push(Call { id: self.next_id, method }),
        }
    }

    /// The engine without the call `id`.
    pub open spec fn evict(self, id: u64) -> Engine {
        if self.is_pending(id) {
            Engine {
                state: self.state,
                next_id: self.next_id,
                calls: self.calls.remove(self.index_of(id)),
            }
        } else {
            self
        }
    }

    /// What a frame does: a response ends the call it names, or is dropped
    /// where no such call is outstanding; any other frame is ignored.
    pub open spec fn deliver(self, frame: FrameView) -> (Engine, DeliveryView) {
        match frame {
            FrameView::Response { id, error, result } => if self.is_pending(id) {
                (
                    self.evict(id),
                    DeliveryView::Resolved {
                        request_id: id,
                        outcome: outcome_of(self.method_of(id), error, result),
                    },
                )
            } else {
                (self, DeliveryView::Dropped { request_id: id })
            },
            _ => (self, DeliveryView::Ignored),
        }
    }

    /// What the timeout of the call `id` does: the call ends with a
    /// timeout error, if it is still outstanding.
    pub open spec fn expire(self, id: u64) -> (Engine, Option<Failure>) {
        if self.is_pending(id) {
            (self.evict(id), Some(Failure::Timeout { method: self.method_of(id), id }))
        } else {
            (self, None)
        }
    }

    /// The identifiers of the outstanding calls, in the order of issue.
    pub open spec fn pending_ids(self) -> Seq<u64> {
        Seq::new(self.calls.len(), |i: int| self.calls[i].id)
    }

    /// The engine in the state `to` with no call outstanding.
    pub open spec fn emptied(self, to: ConnectionState) -> Engine {
        Engine { state: to, next_id: self.next_id, calls: Seq::empty() }
    }

    /// What the end of the stream does: a connected engine becomes faulted
    /// and every outstanding call ends; any other engine stays as it is.
    pub open spec fn stream_ended(self) -> Engine {
        if self.state == ConnectionState::Connected {
            self.emptied(ConnectionState::Faulted)
        } else {
            self
        }
    }

    /// Where a place holds a call, some place is the first to hold it.
    pub proof fn lemma_first(self, i: int, id: u64)
        requires
            self.holds(i, id),
        ensures
            exists|k: int| self.first_at(k, id),
        decreases i,
    {
        if exists|j: int| 0 <= j < i && self.calls[j].id == id {
            let j = choose|j: int| 0 <= j < i && self.calls[j].id == id;
            self.lemma_first(j, id);
        } else {
            assert(self.first_at(i, id));
        }
    }

    /// An outstanding call stands at its place.
    pub proof fn lemma_pending(self, id: u64)
        requires
            self.is_pending(id),
        ensures
            self.first_at(self.index_of(id), id),
    {
        let i = choose|i: int| self.holds(i, id);
        self.lemma_first(i, id);
    }

    /// The first place that holds a call is the place of the call.
    pub proof fn lemma_index(self, i: int, id: u64)
        requires
            self.first_at(i, id),
        ensures
            self.is_pending(id),
            self.index_of(id) == i,
    {
        let k = self.index_of(id);
        assert(self.first_at(k, id));
        if k < i {
            assert(self.calls[k].id != id);
        } else if i < k {
            assert(self.calls[i].id != id);
        }
    }

    /// In a well-formed table no identifier stands twice, so a place that
    /// holds a call is the place of the call.
    pub proof fn lemma_index_wf(self, i: int, id: u64)
        requires
            self.wf(),
            self.holds(i, id),
        ensures
            self.is_pending(id),
            self.index_of(id) == i,
    {
        assert forall|j: int| 0 <= j < i implies (#[trigger] self.calls[j]).id != id by {
            assert(self.calls[j].id < self.calls[i].id);
        }
        self.lemma_index(i, id);
    }

    /// Taking a call out leaves a well-formed table in which that call is no
    /// longer outstanding and every other call is, under its method.
    pub proof fn lemma_evict(self, id: u64)
        requires
            self.wf(),
        ensures
            self.evict(id).wf(),
            !self.evict(id).is_pending(id),
            forall|other: u64|
                other != id && self.is_pending(other) ==> #[trigger] self.evict(id).is_pending(
                    other,
                ) && self.evict(id).method_of(other) == self.method_of(other),
    {
        if self.is_pending(id) {
            self.lemma_pending(id);
            let k = self.index_of(id);
            let after = self.evict(id);
            assert forall|i: int, j: int| 0 <= i < j < after.calls.len() implies after.calls[i].id
                < after.calls[j].id by {
                let i0 = if i < k {
                    i
                } else {
                    i + 1
                };
                let j0 = if j < k {
                    j
                } else {
                    j + 1
                };
                assert(self.calls[i0].id < self.calls[j0].id);
            }
            assert forall|i: int| 0 <= i < after.calls.len() implies after.calls[i].id
                < after.next_id by {
                let i0 = if i < k {
                    i
                } else {
                    i + 1
                };
                assert(self.calls[i0].id < self.next_id);
            }
            if after.is_pending(id) {
                let i = choose|i: int| after.holds(i, id);
                let i0 = if i < k {
                    i
                } else {
                    i + 1
                };
                assert(self.holds(i0, id));
                self.lemma_index_wf(i0, id);
            }
            assert forall|other: u64| other != id && self.is_pending(other) implies (
            #[trigger] after.is_pending(other)) && after.method_of(other) == self.method_of(
                other,
            ) by {
                self.lemma_pending(other);
                let j = self.index_of(other);
                let j1 = if j < k {
                    j
                } else {
                    j - 1
                };
                assert(after.holds(j1, other));
                after.lemma_index_wf(j1, other);
            }
        }
    }

    /// A call just issued is outstanding under its method, had not been
    /// outstanding before, and leaves the other calls as they were.
    pub proof fn lemma_issue(self, method: Seq<char>)
        requires
            self.wf(),
            self.can_call(),
        ensures
            !self.is_pending(self.next_id),
            self.issue(method).wf(),
            self.issue(method).is_pending(self.next_id),
            self.issue(method).method_of(self.next_id) == method,
            forall|other: u64|
                self.is_pending(other) ==> #[trigger] self.issue(method).is_pending(other)
                    && self.issue(method).method_of(other) == self.method_of(other),
    {
        let after = self.issue(method);
        let n = self.calls.len() as int;
        if self.is_pending(self.next_id) {
            self.lemma_pending(self.next_id);
        }
        assert(after.wf());
        assert(after.holds(n, self.next_id));
        after.lemma_index_wf(n, self.next_id);
        assert forall|other: u64| self.is_pending(other) implies (#[trigger] after.is_pending(
            other,
        )) && after.method_of(other) == self.method_of(other) by {
            self.lemma_pending(other);
            let j = self.index_of(other);
            assert(after.holds(j, other));
            after.lemma_index_wf(j, other);
        }
    }

    /// Responses that arrive in the reverse of the order of issue, or in
    /// any order, each end their own call with their own result: of two
    /// outstanding calls `a` and `b`, the response to `b` ends `b` and
    /// leaves `a` outstanding, and the response to `a` then ends `a`.
    pub proof fn lemma_out_of_order(
        self,
        a: u64,
        b: u64,
        error_a: Wire,
        result_a: Wire,
        error_b: Wire,
        result_b: Wire,
    )
        requires
            self.wf(),
            self.is_pending(a),
            self.is_pending(b),
            a != b,
        ensures
            ({
                let first = self.deliver(
                    FrameView::Response { id: b, error: error_b, result: result_b },
                );
                let second = first.0.deliver(
                    FrameView::Response { id: a, error: error_a, result: result_a },
                );
                &&& first.1 == DeliveryView::Resolved {
                    request_id: b,
                    outcome: outcome_of(self.method_of(b), error_b, result_b),
                }
                &&& second.1 == DeliveryView::Resolved {
                    request_id: a,
                    outcome: outcome_of(self.method_of(a), error_a, result_a),
                }
                &&& !second.0.is_pending(a)
                &&& !second.0.is_pending(b)
                &&& second.0.wf()
            }),
    {
        self.lemma_evict(b);
        let mid = self.evict(b);
        assert(mid.is_pending(a));
        mid.lemma_evict(a);
        mid.lemma_pending(a);
        if mid.evict(a).is_pending(b) {
            assert(mid.is_pending(b)) by {
                let after = mid.evict(a);
                let k = mid.index_of(a);
                let i = choose|i: int| after.holds(i, b);
                let i0 = if i < k {
                    i
                } else {
                    i + 1
                };
                assert(mid.holds(i0, b));
            }
        }
    }

    /// A call whose timeout runs out ends with a timeout error that names
    /// its method and identifier, and is gone from the table; a response
    /// that comes for it afterwards is dropped and changes nothing.
    pub proof fn lemma_timeout_evicts(self, id: u64, error: Wire, result: Wire)
        requires
            self.wf(),
            self.is_pending(id),
        ensures
            self.expire(id).1 == Some(Failure::Timeout { method: self.method_of(id), id }),
            !self.expire(id).0.is_pending(id),
            self.expire(id).0.wf(),
            self.expire(id).0.calls.len() == self.calls.len() - 1,
            self.expire(id).0.deliver(FrameView::Response { id, error, result }) == (
                self.expire(id).0,
                DeliveryView::Dropped { request_id: id },
            ),
    {
        self.lemma_evict(id);
        self.lemma_pending(id);
    }

    /// Whether the call `id` has been issued and has ended.
    pub open spec fn has_ended(self, id: u64) -> bool {
        id < self.next_id && !self.is_pending(id)
    }

    /// A call that has ended stays ended: no call issued later gets its
    /// identifier, and nothing that ends another call or the stream brings
    /// it back. So no call ends twice.
    pub proof fn lemma_ended_stays_ended(self, id: u64, method: Seq<char>, other: u64)
        requires
            self.wf(),
            self.has_ended(id),
        ensures
            self.can_call() ==> self.issue(method).has_ended(id),
            self.evict(other).has_ended(id),
            self.stream_ended().has_ended(id),
            self.emptied(ConnectionState::Closed).has_ended(id),
    {
        if self.can_call() && self.issue(method).is_pending(id) {
            let after = self.issue(method);
            let i = choose|i: int| after.holds(i, id);
            if i < self.calls.len() {
                assert(self.holds(i, id));
            }
        }
        if self.evict(other).is_pending(id) {
            self.lemma_pending(other);
            let after = self.evict(other);
            let k = self.index_of(other);
            let i = choose|i: int| after.holds(i, id);
            let i0 = if i < k {
                i
            } else {
                i + 1
            };
            assert(self.holds(i0, id));
        }
        if self.stream_ended().is_pending(id) {
            let after = self.stream_ended();
            let i = choose|i: int| after.holds(i, id);
            assert(self.holds(i, id));
        }
        if self.emptied(ConnectionState::Closed).is_pending(id) {
            let after = self.emptied(ConnectionState::Closed);
            let i = choose|i: int| after.holds(i, id);
        }
    }

    /// When the stream ends no call stays outstanding, and none can be
    /// issued any more.
    pub proof fn lemma_stream_end_clears(self, id: u64)
        requires
            self.wf(),
        ensures
            self.stream_ended().wf(),
            !self.stream_ended().is_pending(id),
            !self.stream_ended().can_call(),
    {
        let after = self.stream_ended();
        if after.is_pending(id) {
            after.lemma_pending(id);
        }
    }
}

/// How long a call may take for which its caller names no time, in
/// milliseconds.
pub const DEFAULT_TIMEOUT_MS: u64 = 60_000;

/// The time a call may take: the one its caller names, or the default.
pub open spec fn timeout_or_default(timeout_ms: Option<u64>) -> u64 {
    match timeout_ms {
        Some(ms) => ms,
        None => DEFAULT_TIMEOUT_MS,
    }
}

/// One outstanding call as the table keeps it.
#[derive(Debug, PartialEq)]
pub struct PendingCall {
    pub request_id: u64,
    pub method: String,
}

/// The calls of a table, mathematically.
pub open spec fn calls_of(pending: Seq<PendingCall>) -> Seq<Call> {
    Seq::new(pending.len(), |i: int| Call { id: pending[i].request_id, method: pending[i].method@ })
}

/// A request that is ready to be written to the stream.
#[derive(Debug, PartialEq)]
pub struct Outgoing {
    pub request_id: u64,
    pub frame: WireValue,
    /// How long to wait for the response, in milliseconds.
    pub timeout_ms: u64,
}

/// What became of a frame that was read from the stream.
#[derive(Debug, PartialEq)]
pub enum Delivery {
    /// The call is over; this is what its caller gets.
    Resolved { request_id: u64, outcome: Result<WireValue, NetworkError> },
    /// A response to a call that is not outstanding: one that has timed out
    /// already, or one that was never made. It is dropped.
    Dropped { request_id: u64 },
    /// Not a response. Such frames are let pass.
    Ignored,
}

/// Why a call ended without a value, mathematically; nothing where it has
/// not ended so.
pub open spec fn failure_view(failure: Option<NetworkError>) -> Option<Failure> {
    match failure {
        Some(e) => Some(e@),
        None => None,
    }
}

impl View for Delivery {
    type V = DeliveryView;

    open spec fn view(&self) -> DeliveryView {
        match self {
            Delivery::Resolved { request_id, outcome } => DeliveryView::Resolved {
                request_id: *request_id,
                outcome: outcome_view(*outcome),
            },
            Delivery::Dropped { request_id } => DeliveryView::Dropped { request_id: *request_id },
            Delivery::Ignored => DeliveryView::Ignored,
        }
    }
}

/// What a call of `method` yields whose response carried either a result or
/// an error: the result, or the error under the method's name.
pub fn response_outcome(method: &str, result: Result<WireValue, WireValue>) -> (r: Result<
    WireValue,
    NetworkError,
>)
    ensures
        outcome_view(r) == (match result {
            Ok(v) => Ok::<Wire, Failure>(v@),
            Err(e) => Err::<Wire, Failure>(Failure::Rpc { method: method@, payload: e@ }),
        }),
{
    match result {
        Ok(value) => Ok(value),
        Err(error) => Err(NetworkError::RpcError { method: method.to_owned(), payload: error }),
    }
}

/// The end of the call `id` by the loss of the connection.
pub open spec fn lost_call(id: u64) -> DeliveryView {
    DeliveryView::Resolved { request_id: id, outcome: Err(Failure::ConnectionLost) }
}

/// Whether `lost` is the end, by the loss of the connection, of each of the
/// calls `ids` in their order, and of no other.
pub open spec fn ended_by_loss(ids: Seq<u64>, lost: Seq<Delivery>) -> bool {
    &&& lost.len() == ids.len()
    &&& forall|i: int| 0 <= i < ids.len() ==> (#[trigger] lost[i])@ == lost_call(ids[i])
}

/// One connection to the server, without its stream: the state, the
/// counter of request identifiers, and the table of outstanding calls.
pub struct Connection {
    state: ConnectionState,
    next_id: u64,
    pending: Vec<PendingCall>,
}

impl View for Connection {
    type V = Engine;

    closed spec fn view(&self) -> Engine {
        Engine { state: self.state, next_id: self.next_id, calls: calls_of(self.pending@) }
    }
}

impl Connection {
    /// A connection that has not been opened yet. Its first call will have
    /// the identifier 0.
    pub fn new() -> (c: Connection)
        ensures
            c@ == (Engine {
                state: ConnectionState::Disconnected,
                next_id: 0,
                calls: Seq::empty(),
            }),
            c@.wf(),
    {
        let c = Connection {
            state: ConnectionState::Disconnected,
            next_id: 0,
            pending: Vec::new(),
        };
        assert(c@.calls =~= Seq::empty());
        c
    }

    /// Where the connection stands.
    pub fn state(&self) -> (s: ConnectionState)
        ensures
            s == self@.state,
    {
        self.state
    }

    /// How many calls are outstanding.
    pub fn pending_count(&self) -> (n: usize)
        ensures
            n == self@.calls.len(),
    {
        self.pending.len()
    }

    /// Where in the table the call `id` stands.
    fn position(&self, id: u64) -> (r: Option<usize>)
        ensures
            match r {
                Some(i) => self@.first_at(i as int, id),
                None => !self@.is_pending(id),
            },
    {
        let mut i: usize = 0;
        while i < self.pending.len()
            invariant
                i <= self.pending@.len(),
                forall|j: int| 0 <= j < i ==> (#[trigger] self@.calls[j]).id != id,
            decreases self.pending@.len() - i,
        {
            if self.pending[i].request_id == id {
                return Some(i);
            }
            i += 1;
        }
        assert(!self@.is_pending(id)) by {
            if self@.is_pending(id) {
                let k = choose|k: int| self@.holds(k, id);
                assert(self@.calls[k].id != id);
            }
        }
        None
    }

    /// Whether the call `id` is outstanding.
    pub fn is_pending(&self, id: u64) -> (b: bool)
        ensures
            b == self@.is_pending(id),
    {
        match self.position(id) {
            Some(_) => true,
            None => false,
        }
    }

    /// The stream is about to be opened.
    pub fn start_connecting(&mut self) -> (started: bool)
        ensures
            started == (old(self)@.state == ConnectionState::Disconnected),
            started ==> final(self)@ == (Engine {
                state: ConnectionState::Connecting,
                ..old(self)@
            }),
            !started ==> final(self)@ == old(self)@,
            old(self)@.wf() ==> final(self)@.wf(),
    {
        match self.state {
            ConnectionState::Disconnected => {
                self.state = ConnectionState::Connecting;
                true
            },
            _ => false,
        }
    }

    /// The stream is open.
    pub fn established(&mut self) -> (done: bool)
        ensures
            done == (old(self)@.state == ConnectionState::Connecting),
            done ==> final(self)@ == (Engine { state: ConnectionState::Connected, ..old(self)@ }),
            !done ==> final(self)@ == old(self)@,
            old(self)@.wf() ==> final(self)@.wf(),
    {
        match self.state {
            ConnectionState::Connecting => {
                self.state = ConnectionState::Connected;
                true
            },
            _ => false,
        }
    }

    /// The stream could not be opened: refused, or not open in time.
    pub fn connect_failed(&mut self) -> (e: NetworkError)
        ensures
            e@ == Failure::Connect,
            old(self)@.state == ConnectionState::Connecting ==> final(self)@ == (Engine {
                state: ConnectionState::Disconnected,
                ..old(self)@
            }),
            old(self)@.state != ConnectionState::Connecting ==> final(self)@ == old(self)@,
            old(self)@.wf() ==> final(self)@.wf(),
    {
        match self.state {
            ConnectionState::Connecting => {
                self.state = ConnectionState::Disconnected;
            },
            _ => {},
        }
        NetworkError::ConnectError
    }

    /// Issues a call: hands out the next identifier, enters the call in the
    /// table and gives the frame to write, with the time the call may take:
    /// the one named, or the default.
    ///
    /// A connection that is not connected refuses with `ConnectionLost` and
    /// stays as it is; so does one whose identifiers are used up.
    pub fn begin_call(
        &mut self,
        method: &str,
        params: Vec<WireValue>,
        timeout_ms: Option<u64>,
    ) -> (r: Result<Outgoing, NetworkError>)
        ensures
            match r {
                Ok(out) => {
                    &&& old(self)@.can_call()
                    &&& out.request_id == old(self)@.next_id
                    &&& out.timeout_ms == timeout_or_default(timeout_ms)
                    &&& out.frame@ == request_frame(
                        out.request_id,
                        method@,
                        items_content(params@),
                    )
                    &&& final(self)@ == old(self)@.issue(method@)
                },
                Err(e) => {
                    &&& !old(self)@.can_call()
                    &&& e@ == Failure::ConnectionLost
                    &&& final(self)@ == old(self)@
                },
            },
            old(self)@.wf() ==> final(self)@.wf(),
    {
        let connected = match self.state {
            ConnectionState::Connected => true,
            _ => false,
        };
        if !connected || self.next_id == u64::MAX {
            return Err(NetworkError::ConnectionLost);
        }
        let id: u64 = self.next_id;
        let ghost before = self@;
        proof {
            if before.wf() {
                before.lemma_issue(method@);
            }
        }
        self.next_id = id + 1;
        self.pending.push(PendingCall { request_id: id, method: method.to_owned() });
        proof {
            assert(self@.calls =~= before.issue(method@).calls);
        }
        let wait: u64 = match timeout_ms {
            Some(ms) => ms,
            None => DEFAULT_TIMEOUT_MS,
        };
        Ok(Outgoing { request_id: id, frame: encode_request(id, method, params), timeout_ms: wait })
    }

    /// Takes the call at place `i` out of the table.
    fn take(&mut self, i: usize, Ghost(id): Ghost<u64>) -> (call: PendingCall)
        requires
            old(self)@.first_at(i as int, id),
        ensures
            call.request_id == id,
            call.method@ == old(self)@.method_of(id),
            old(self)@.is_pending(id),
            final(self)@ == old(self)@.evict(id),
            old(self)@.wf() ==> final(self)@.wf(),
    {
        let ghost before = self@;
        proof {
            before.lemma_index(i as int, id);
            assert(calls_of(self.pending@.remove(i as int)) =~= before.calls.remove(i as int));
            if before.wf() {
                before.lemma_evict(id);
            }
        }
        self.pending.remove(i)
    }

    /// A frame was read from the stream.
    pub fn on_frame(&mut self, frame: Frame) -> (d: Delivery)
        ensures
            (final(self)@, d@) == old(self)@.deliver(frame@),
            old(self)@.wf() ==> final(self)@.wf(),
    {
        match frame {
            Frame::Response { id, error, result } => {
                match self.position(id) {
                    Some(i) => {
                        let call = self.take(i, Ghost(id));
                        let outcome = match error {
                            WireValue::Nil => Ok(result),
                            _ => Err(
                                NetworkError::RpcError { method: call.method, payload: error },
                            ),
                        };
                        Delivery::Resolved { request_id: id, outcome }
                    },
                    None => Delivery::Dropped { request_id: id },
                }
            },
            _ => Delivery::Ignored,
        }
    }

    /// A value was read from the stream.
    pub fn on_value(&mut self, value: WireValue) -> (d: Delivery)
        ensures
            (final(self)@, d@) == old(self)@.deliver(parsed(value@)),
            old(self)@.wf() ==> final(self)@.wf(),
    {
        self.on_frame(Frame::parse(value))
    }

    /// The timeout of the call `id` has run out.
    pub fn on_timeout(&mut self, id: u64) -> (r: Option<NetworkError>)
        ensures
            (final(self)@, failure_view(r)) == old(self)@.expire(id),
            old(self)@.wf() ==> final(self)@.wf(),
    {
        match self.position(id) {
            Some(i) => {
                let call = self.take(i, Ghost(id));
                Some(NetworkError::TimeoutError { method: call.method, id })
            },
            None => None,
        }
    }

    /// The caller of the call `id` has given up waiting. Says whether the
    /// call was still outstanding.
    pub fn abandon(&mut self, id: u64) -> (was_pending: bool)
        ensures
            was_pending == old(self)@.is_pending(id),
            final(self)@ == old(self)@.evict(id),
            old(self)@.wf() ==> final(self)@.wf(),
    {
        match self.position(id) {
            Some(i) => {
                let _ = self.take(i, Ghost(id));
                true
            },
            None => false,
        }
    }

    /// The end of every outstanding call by the loss of the connection, in
    /// the order of issue.
    fn all_lost(&self) -> (lost: Vec<Delivery>)
        ensures
            ended_by_loss(self@.pending_ids(), lost@),
    {
        let mut lost: Vec<Delivery> = Vec::new();
        let mut i: usize = 0;
        while i < self.pending.len()
            invariant
                i <= self.pending@.len(),
                lost@.len() == i,
                forall|j: int|
                    0 <= j < i ==> (#[trigger] lost@[j])@ == lost_call(
                        self.pending@[j].request_id,
                    ),
            decreases self.pending@.len() - i,
        {
            lost.push(
                Delivery::Resolved {
                    request_id: self.pending[i].request_id,
                    outcome: Err(NetworkError::ConnectionLost),
                },
            );
            i += 1;
        }
        lost
    }

    /// The stream has ended, by a failed read or because the server closed
    /// it. Every outstanding call ends with `ConnectionLost`; they are given
    /// in the order of issue.
    pub fn on_stream_end(&mut self) -> (lost: Vec<Delivery>)
        ensures
            final(self)@ == old(self)@.stream_ended(),
            ended_by_loss(old(self)@.pending_ids(), lost@),
            old(self)@.wf() ==> final(self)@.wf(),
    {
        let lost = self.all_lost();
        match self.state {
            ConnectionState::Connected => {
                self.pending = Vec::new();
                assert(calls_of(self.pending@) =~= Seq::empty());
                self.state = ConnectionState::Faulted;
            },
            _ => {},
        }
        lost
    }

    /// Shuts the connection down. Every outstanding call ends with
    /// `ConnectionLost`; they are given in the order of issue.
    pub fn close(&mut self) -> (lost: Vec<Delivery>)
        ensures
            final(self)@ == old(self)@.emptied(ConnectionState::Closed),
            ended_by_loss(old(self)@.pending_ids(), lost@),
            old(self)@.wf() ==> final(self)@.wf(),
    {
        let lost = self.all_lost();
        self.pending = Vec::new();
        assert(calls_of(self.pending@) =~= Seq::empty());
        self.state = ConnectionState::Closed;
        lost
    }
}

} // verus!
