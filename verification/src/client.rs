//! The client dispatcher: it gives every call an identifier, keeps the calls
//! that still wait for an answer, routes each answer to its call, ends calls at
//! their deadline and tells the server of calls that nobody waits for any more.
//!
//! The dispatcher is a state machine. The driver that owns the transport feeds
//! it what happens (a call is made, a frame arrives, the clock moves on, the
//! transport closes) and does what it says (queue a frame, complete a call).

use crate::context::expired;
use crate::context::resolve;
use crate::context::spec_expired;
use crate::context::spec_resolve;
use crate::context::Ambient;
use crate::context::Context;
use crate::envelope::Cancel;
use crate::envelope::Request;
use crate::envelope::Response;
use crate::errors::Error;
use crate::errors::WireError;
use crate::table::first_due;
use crate::table::is_earliest;
use crate::table::lemma_first_due;
use crate::table::lists_keys;
use crate::table::CallTable;
use crate::table::Slot;
use core::marker::PhantomData;
use vstd::prelude::*;

verus! {

/// How the client operates.
#[derive(Clone, Copy, Debug, PartialEq, Eq, Structural)]
pub struct Options {
    /// How many calls may wait for an answer at once. A call beyond that is
    /// held back until one of them is over.
    pub max_in_flight_requests: u32,
    /// The time that a call gets when neither the caller nor the current
    /// context names a deadline, in nanoseconds.
    pub request_timeout_default: u64,
    /// The size of the queue of frames towards the transport.
    pub outbound_buffer: u32,
    /// Whether an answer that belongs to no open call ends the dispatcher. By
    /// default such an answer is dropped.
    pub strict: bool,
}

impl Options {
    /// The options of a client that was given none.
    pub open spec fn spec_default() -> Options {
        Options {
            max_in_flight_requests: 1000,
            request_timeout_default: 10_000_000_000,
            outbound_buffer: 100,
            strict: false,
        }
    }

    /// Sets how many calls may wait for an answer at once.
    pub fn max_in_flight_requests(self, calls: u32) -> (options: Options)
        ensures
            options == (Options { max_in_flight_requests: calls, ..self }),
    {
        Options { max_in_flight_requests: calls, ..self }
    }

    /// Sets the time that a call without a deadline gets, in nanoseconds.
    pub fn request_timeout_default(self, nanos: u64) -> (options: Options)
        ensures
            options == (Options { request_timeout_default: nanos, ..self }),
    {
        Options { request_timeout_default: nanos, ..self }
    }

    /// Sets the size of the queue of frames towards the transport.
    pub fn outbound_buffer(self, frames: u32) -> (options: Options)
        ensures
            options == (Options { outbound_buffer: frames, ..self }),
    {
        Options { outbound_buffer: frames, ..self }
    }

    /// Sets whether an answer that belongs to no open call ends the dispatcher.
    pub fn strict(self, on: bool) -> (options: Options)
        ensures
            options == (Options { strict: on, ..self }),
    {
        Options { strict: on, ..self }
    }
}

impl Default for Options {
    fn default() -> (options: Options)
        ensures
            options == Options::spec_default(),
    {
        Options {
            max_in_flight_requests: 1000,
            request_timeout_default: 10_000_000_000,
            outbound_buffer: 100,
            strict: false,
        }
    }
}

/// What the dispatcher decides when a call is made.
#[derive(Debug, PartialEq, Eq)]
pub enum Sent<Req, E> {
    /// The call is open. The frame goes to the queue towards the transport.
    Enqueued(Request<Req>),
    /// As many calls are open as may be. Nothing has changed; the payload is
    /// handed back, and the call is to be made again once a call is over.
    Suspended(Req),
    /// The call is over before it began, with this error. No frame is written.
    Failed(Error<E>),
}

/// The end of a call: what is written to the slot that its caller waits on.
#[derive(Debug, PartialEq, Eq)]
pub struct Completion<Resp, E> {
    pub id: u64,
    pub result: Result<Resp, Error<E>>,
}

/// What the dispatcher decides when a response frame arrives.
#[derive(Debug, PartialEq, Eq)]
pub enum Routed<Resp, E> {
    /// The frame answers an open call, which is over with this.
    Delivered(Completion<Resp, E>),
    /// No call of that identifier is open. The frame is dropped.
    Discarded,
    /// No call of that identifier is open, and the dispatcher is strict: it has
    /// ended with a protocol violation.
    Violation,
}

/// What the dispatcher decides when a deadline has passed: the call is over,
/// and the server is told.
#[derive(Debug, PartialEq, Eq)]
pub struct Expired<Resp, E> {
    pub completion: Completion<Resp, E>,
    pub cancel: Cancel,
}

/// The model of a client dispatcher.
#[verifier::ext_equal]
pub struct ClientState {
    /// The identifier that the next call gets.
    pub next_id: u64,
    /// The calls that wait for an answer.
    pub pending: Map<u64, Slot>,
    /// Whether the dispatcher has ended.
    pub closed: bool,
    /// Whether it ended because the protocol was broken or the identifiers
    /// ran out.
    pub violated: bool,
    pub options: Options,
}

/// Why a call that is being made does or does not become an open call.
#[derive(Clone, Copy, Debug, PartialEq, Eq, Structural)]
pub enum Verdict {
    /// The dispatcher has ended.
    Closed,
    /// Every identifier has been given out.
    Exhausted,
    /// The deadline of the call has passed already.
    Expired,
    /// As many calls are open as may be.
    Full,
    /// The call becomes an open call.
    Accepted,
}

/// What a caller is told when a response frame holds `result`.
pub open spec fn spec_map_err<Resp, E>(result: Result<Resp, WireError<E>>) -> Result<
    Resp,
    Error<E>,
> {
    match result {
        Ok(payload) => Ok(payload),
        Err(error) => Err(Error::spec_from_wire(error)),
    }
}

impl ClientState {
    /// The state of a dispatcher that has seen nothing yet.
    pub open spec fn init(options: Options) -> ClientState {
        ClientState { next_id: 0, pending: Map::empty(), closed: false, violated: false, options }
    }

    /// What holds of every state that a dispatcher can reach: an open call has
    /// an identifier that was given out, and no more calls are open than may
    /// be.
    pub open spec fn wf(self) -> bool {
        &&& self.pending.dom().finite()
        &&& forall|id: u64| #[trigger] self.pending.contains_key(id) ==> id < self.next_id
        &&& self.pending.len() <= self.options.max_in_flight_requests
        &&& self.violated ==> self.closed
    }

    /// What becomes of a call with this context that is made at `now`.
    pub open spec fn verdict(self, call: Context, now: u64) -> Verdict {
        if self.closed {
            Verdict::Closed
        } else if self.next_id == u64::MAX {
            Verdict::Exhausted
        } else if spec_expired(call.deadline, now) {
            Verdict::Expired
        } else if self.pending.len() >= self.options.max_in_flight_requests {
            Verdict::Full
        } else {
            Verdict::Accepted
        }
    }

    /// The state after a call with this context was made at `now`.
    pub open spec fn after_send(self, call: Context, now: u64) -> ClientState {
        match self.verdict(call, now) {
            Verdict::Accepted => ClientState {
                next_id: (self.next_id + 1) as u64,
                pending: self.pending.insert(
                    self.next_id,
                    Slot { deadline: call.deadline, trace: call.trace },
                ),
                ..self
            },
            Verdict::Exhausted => ClientState { closed: true, violated: true, ..self },
            _ => self,
        }
    }

    /// What the dispatcher says when a call with this context and payload is
    /// made at `now`.
    pub open spec fn sent<Req, E>(self, call: Context, now: u64, payload: Req) -> Sent<Req, E> {
        match self.verdict(call, now) {
            Verdict::Accepted => Sent::Enqueued(
                Request { id: self.next_id, context: call, deadline: call.deadline, payload },
            ),
            Verdict::Full => Sent::Suspended(payload),
            Verdict::Expired => Sent::Failed(Error::DeadlineExceeded),
            Verdict::Closed | Verdict::Exhausted => Sent::Failed(Error::Disconnected),
        }
    }

    /// The state after a response with this identifier arrived.
    pub open spec fn after_response(self, id: u64) -> ClientState {
        if self.pending.contains_key(id) {
            ClientState { pending: self.pending.remove(id), ..self }
        } else if self.options.strict {
            ClientState { closed: true, violated: true, ..self }
        } else {
            self
        }
    }

    /// What the dispatcher says when this response arrives.
    pub open spec fn routed<Resp, E>(self, response: Response<Resp, E>) -> Routed<Resp, E> {
        if self.pending.contains_key(response.id) {
            Routed::Delivered(
                Completion { id: response.id, result: spec_map_err(response.result) },
            )
        } else if self.options.strict {
            Routed::Violation
        } else {
            Routed::Discarded
        }
    }

    /// The state after a frame arrived that no server sends.
    pub open spec fn after_stray(self) -> ClientState {
        ClientState { closed: true, violated: true, ..self }
    }

    /// The call that is over at `now` and due first among those, if there is
    /// one.
    pub open spec fn due(self, now: u64) -> Option<u64> {
        first_due(self.pending, now)
    }

    /// The state after the clock was read as `now`: the call that is due, if
    /// any, is over.
    pub open spec fn after_expire(self, now: u64) -> ClientState {
        match self.due(now) {
            Some(id) => ClientState { pending: self.pending.remove(id), ..self },
            None => self,
        }
    }

    /// What the dispatcher says when the clock is read as `now`.
    pub open spec fn expiry<Resp, E>(self, now: u64) -> Option<Expired<Resp, E>> {
        match self.due(now) {
            Some(id) => Some(
                Expired {
                    completion: Completion { id, result: Err(Error::DeadlineExceeded) },
                    cancel: Cancel { id, trace: self.pending[id].trace },
                },
            ),
            None => None,
        }
    }

    /// The state after the caller of `id` stopped waiting, or after the
    /// framing refused the request `id`.
    pub open spec fn after_drop(self, id: u64) -> ClientState {
        ClientState { pending: self.pending.remove(id), ..self }
    }

    /// What the dispatcher says when the caller of `id` stops waiting.
    pub open spec fn abandoned(self, id: u64) -> Option<Cancel> {
        if self.pending.contains_key(id) {
            Some(Cancel { id, trace: self.pending[id].trace })
        } else {
            None
        }
    }

    /// What the dispatcher says when the framing refuses the request `id`.
    pub open spec fn rejected<Resp, E>(self, id: u64) -> Option<Completion<Resp, E>> {
        if self.pending.contains_key(id) {
            Some(Completion { id, result: Err(Error::PayloadTooLarge) })
        } else {
            None
        }
    }

    /// The state after the transport ended.
    pub open spec fn after_close(self) -> ClientState {
        ClientState { pending: Map::empty(), closed: true, ..self }
    }
}

/// The client dispatcher.
pub struct Client<Req, Resp, E> {
    next_id: u64,
    table: CallTable,
    closed: bool,
    violated: bool,
    options: Options,
    marker: PhantomData<(Req, Resp, E)>,
}

impl<Req, Resp, E> View for Client<Req, Resp, E> {
    type V = ClientState;

    closed spec fn view(&self) -> ClientState {
        ClientState {
            next_id: self.next_id,
            pending: self.table@,
            closed: self.closed,
            violated: self.violated,
            options: self.options,
        }
    }
}

impl<Req, Resp, E> Client<Req, Resp, E> {
    /// The representation is sound, and the state is one that a dispatcher can
    /// reach.
    pub closed spec fn wf(&self) -> bool {
        &&& self.table.wf()
        &&& self@.wf()
    }

    /// What is known of every dispatcher.
    pub proof fn lemma_wf(&self)
        requires
            self.wf(),
        ensures
            self@.wf(),
    {
    }

    /// A dispatcher that has seen nothing yet.
    pub fn new(options: Options) -> (client: Self)
        ensures
            client.wf(),
            client@ == ClientState::init(options),
    {
        Client {
            next_id: 0,
            table: CallTable::new(),
            closed: false,
            violated: false,
            options,
            marker: PhantomData,
        }
    }

    /// What a caller is told when a response frame holds `result`.
    pub fn map_err(result: Result<Resp, WireError<E>>) -> (out: Result<Resp, Error<E>>)
        ensures
            out == spec_map_err(result),
    {
        match result {
            Ok(payload) => Ok(payload),
            Err(error) => Err(Error::from_wire(error)),
        }
    }

    /// What would become of a call with this context that is made at `now`.
    pub fn judge(&self, call: Context, now: u64) -> (verdict: Verdict)
        requires
            self.wf(),
        ensures
            verdict == self@.verdict(call, now),
    {
        if self.closed {
            Verdict::Closed
        } else if self.next_id == u64::MAX {
            Verdict::Exhausted
        } else if expired(call.deadline, now) {
            Verdict::Expired
        } else if self.table.len() >= self.options.max_in_flight_requests as usize {
            Verdict::Full
        } else {
            Verdict::Accepted
        }
    }

    /// A call is made at `now`. Its context is the one given, else the current
    /// one, else a fresh one with the default timeout.
    ///
    /// The call fails at once with `Disconnected` after the dispatcher has
    /// ended or when no identifier is left (which ends the dispatcher with a
    /// protocol violation), and with `DeadlineExceeded` when its deadline has
    /// passed already. It is held back while as many calls are open as may be.
    /// Otherwise it takes the next identifier and becomes an open call.
    pub fn send(&mut self, context: Option<Context>, ambient: &Ambient, payload: Req, now: u64) -> (sent:
        Sent<Req, E>)
        requires
            old(self).wf(),
        ensures
            final(self).wf(),
            final(self)@ == old(self)@.after_send(
                spec_resolve(context, ambient@, now, old(self)@.options.request_timeout_default),
                now,
            ),
            sent == old(self)@.sent::<Req, E>(
                spec_resolve(context, ambient@, now, old(self)@.options.request_timeout_default),
                now,
                payload,
            ),
    {
        let call = resolve(context, ambient.capture(), now, self.options.request_timeout_default);
        if self.closed {
            return Sent::Failed(Error::Disconnected);
        }
        if self.next_id == u64::MAX {
            self.closed = true;
            self.violated = true;
            return Sent::Failed(Error::Disconnected);
        }
        if expired(call.deadline, now) {
            return Sent::Failed(Error::DeadlineExceeded);
        }
        if self.table.len() >= self.options.max_in_flight_requests as usize {
            return Sent::Suspended(payload);
        }
        let id = self.next_id;
        let slot = Slot { deadline: call.deadline, trace: call.trace };
        self.next_id = id + 1;
        let fresh = self.table.insert(id, slot);
        proof {
            assert(fresh);
            assert(self@ =~= old(self)@.after_send(call, now));
        }
        Sent::Enqueued(Request { id, context: call, deadline: call.deadline, payload })
    }

    /// A response frame has arrived. If it answers an open call, that call is
    /// over with what the frame holds. If not, the frame is dropped, or, for a
    /// strict dispatcher, the dispatcher ends with a protocol violation.
    pub fn on_response(&mut self, response: Response<Resp, E>) -> (routed: Routed<Resp, E>)
        requires
            old(self).wf(),
        ensures
            final(self).wf(),
            final(self)@ == old(self)@.after_response(response.id),
            routed == old(self)@.routed(response),
    {
        let id = response.id;
        match self.table.remove(id) {
            Some(_) => {
                proof {
                    assert(self@ =~= old(self)@.after_response(id));
                    Self::lemma_fewer(old(self)@.pending, id);
                }
                Routed::Delivered(Completion { id, result: Self::map_err(response.result) })
            },
            None => {
                proof {
                    assert(self.table@ =~= old(self).table@);
                }
                if self.options.strict {
                    self.closed = true;
                    self.violated = true;
                    Routed::Violation
                } else {
                    Routed::Discarded
                }
            },
        }
    }

    /// A frame has arrived that no server sends: a request, or a cancel
    /// frame. The dispatcher ends with a protocol violation.
    pub fn on_stray(&mut self)
        requires
            old(self).wf(),
        ensures
            final(self).wf(),
            final(self)@ == old(self)@.after_stray(),
    {
        self.closed = true;
        self.violated = true;
    }

    proof fn lemma_fewer(calls: Map<u64, Slot>, id: u64)
        requires
            calls.dom().finite(),
        ensures
            calls.remove(id).len() <= calls.len(),
            calls.remove(id).dom().finite(),
    {
    }

    /// The clock reads `now`. If the call that is due first is over by then, it
    /// ends with `DeadlineExceeded`, and a cancel frame goes to the server.
    pub fn expire(&mut self, now: u64) -> (over: Option<Expired<Resp, E>>)
        requires
            old(self).wf(),
        ensures
            final(self).wf(),
            final(self)@ == old(self)@.after_expire(now),
            over == old(self)@.expiry::<Resp, E>(now),
    {
        match self.table.earliest() {
            Some((id, slot)) => {
                proof {
                    lemma_first_due(self@.pending, now, id);
                }
                if slot.deadline <= now {
                    let _ = self.table.remove(id);
                    proof {
                        assert(self@ =~= old(self)@.after_expire(now));
                        Self::lemma_fewer(old(self)@.pending, id);
                    }
                    Some(
                        Expired {
                            completion: Completion { id, result: Err(Error::DeadlineExceeded) },
                            cancel: Cancel { id, trace: slot.trace },
                        },
                    )
                } else {
                    proof {
                        assert(old(self)@.due(now) is None);
                    }
                    None
                }
            },
            None => {
                proof {
                    assert(old(self)@.due(now) is None);
                }
                None
            },
        }
    }

    /// When the next open call is over, if any call is open.
    pub fn next_deadline(&self) -> (deadline: Option<u64>)
        requires
            self.wf(),
        ensures
            deadline is None <==> self@.pending == Map::<u64, Slot>::empty(),
            deadline matches Some(d) ==> exists|id: u64|
                is_earliest(self@.pending, id) && self@.pending[id].deadline == d,
    {
        match self.table.earliest() {
            Some((_, slot)) => Some(slot.deadline),
            None => None,
        }
    }

    /// The caller of `id` no longer waits. If the call is open, it is over, and
    /// a cancel frame goes to the server. If not, nothing happens.
    pub fn abandon(&mut self, id: u64) -> (cancel: Option<Cancel>)
        requires
            old(self).wf(),
        ensures
            final(self).wf(),
            final(self)@ == old(self)@.after_drop(id),
            cancel == old(self)@.abandoned(id),
    {
        let removed = self.table.remove(id);
        proof {
            assert(self@ =~= old(self)@.after_drop(id));
            Self::lemma_fewer(old(self)@.pending, id);
        }
        match removed {
            Some(slot) => Some(Cancel { id, trace: slot.trace }),
            None => None,
        }
    }

    /// The framing has refused the request `id` for its size. If the call is
    /// open, it ends with `PayloadTooLarge`.
    pub fn reject(&mut self, id: u64) -> (over: Option<Completion<Resp, E>>)
        requires
            old(self).wf(),
        ensures
            final(self).wf(),
            final(self)@ == old(self)@.after_drop(id),
            over == old(self)@.rejected::<Resp, E>(id),
    {
        let removed = self.table.remove(id);
        proof {
            assert(self@ =~= old(self)@.after_drop(id));
            Self::lemma_fewer(old(self)@.pending, id);
        }
        match removed {
            Some(_) => Some(Completion { id, result: Err(Error::PayloadTooLarge) }),
            None => None,
        }
    }

    /// The transport has ended. Every open call ends with `Disconnected`; the
    /// calls are listed by ascending identifier. No call can be made after
    /// this.
    pub fn close(&mut self) -> (over: Vec<Completion<Resp, E>>)
        requires
            old(self).wf(),
        ensures
            final(self).wf(),
            final(self)@ == old(self)@.after_close(),
            over@.len() == old(self)@.pending.len(),
            lists_keys(over@.map_values(|c: Completion<Resp, E>| c.id), old(self)@.pending),
            forall|i: int|
                0 <= i < over@.len() ==> (#[trigger] over@[i]).result == Err::<Resp, Error<E>>(
                    Error::Disconnected,
                ),
    {
        let ids = self.table.ids();
        let mut over: Vec<Completion<Resp, E>> = Vec::new();
        let mut k: usize = 0;
        while k < ids.len()
            invariant
                k <= ids@.len(),
                over@.len() == k,
                forall|i: int|
                    0 <= i < k ==> (#[trigger] over@[i]) == (Completion::<Resp, E> {
                        id: ids@[i],
                        result: Err(Error::Disconnected),
                    }),
            decreases ids@.len() - k,
        {
            over.push(Completion { id: ids[k], result: Err(Error::Disconnected) });
            k = k + 1;
        }
        self.table.clear();
        self.closed = true;
        proof {
            assert(self@ =~= old(self)@.after_close());
            assert(over@.map_values(|c: Completion<Resp, E>| c.id) =~= ids@);
        }
        over
    }

    /// The identifier that the next call gets.
    pub fn next_id(&self) -> (id: u64)
        ensures
            id == self@.next_id,
    {
        self.next_id
    }

    /// How many calls wait for an answer.
    pub fn in_flight(&self) -> (calls: usize)
        requires
            self.wf(),
        ensures
            calls == self@.pending.len(),
    {
        self.table.len()
    }

    /// Whether the call `id` waits for an answer.
    pub fn is_pending(&self, id: u64) -> (open: bool)
        requires
            self.wf(),
        ensures
            open == self@.pending.contains_key(id),
    {
        self.table.contains(id)
    }

    /// Whether the dispatcher has ended.
    pub fn is_closed(&self) -> (closed: bool)
        ensures
            closed == self@.closed,
    {
        self.closed
    }

    /// Why the dispatcher ended, where it ended for a fault of the peer or for
    /// want of identifiers.
    pub fn fatal(&self) -> (reason: Option<Error<E>>)
        ensures
            reason == if self@.violated {
                Some(Error::<E>::ProtocolViolation)
            } else {
                None
            },
    {
        if self.violated {
            Some(Error::ProtocolViolation)
        } else {
            None
        }
    }

    /// The options that the dispatcher was made with.
    pub fn options(&self) -> (options: Options)
        ensures
            options == self@.options,
    {
        self.options
    }
}

} // verus!
