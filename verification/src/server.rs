//! The server dispatcher: it admits requests up to a limit, keeps the ones whose
//! handlers still run, answers each once, gives handlers up at their deadline
//! or on a cancel frame, and winds the connection down.
//!
//! Like the client's, the dispatcher is a state machine: the driver that owns
//! the transport and the handler tasks feeds it what happens and does what it
//! says.

use crate::context::expired;
use crate::context::spec_expired;
use crate::envelope::Cancel;
use crate::envelope::Request;
use crate::envelope::Response;
use crate::errors::WireError;
use crate::table::first_due;
use crate::table::is_earliest;
use crate::table::lemma_first_due;
use crate::table::lists_keys;
use crate::table::CallTable;
use crate::table::Slot;
use core::marker::PhantomData;
use vstd::prelude::*;

verus! {

/// How the server operates.
#[derive(Clone, Copy, Debug, PartialEq, Eq, Structural)]
pub struct Options {
    /// How many handlers may run at once on a connection.
    pub max_in_flight_requests: u32,
    /// The largest payload, in bytes, that a request may have.
    pub max_payload_size: u64,
    /// The size of the queue of responses towards the transport.
    pub pending_response_buffer: u32,
}

impl Options {
    /// The options of a server that was given none: no limit on the handlers
    /// that run at once, and payloads of up to 2 MB.
    pub open spec fn spec_default() -> Options {
        Options {
            max_in_flight_requests: u32::MAX,
            max_payload_size: 2_000_000,
            pending_response_buffer: 100,
        }
    }

    /// Sets how many handlers may run at once on a connection.
    pub fn max_in_flight_requests(self, handlers: u32) -> (options: Options)
        ensures
            options == (Options { max_in_flight_requests: handlers, ..self }),
    {
        Options { max_in_flight_requests: handlers, ..self }
    }

    /// Sets the largest payload that a request may have, in bytes.
    pub fn max_payload_size(self, bytes: u64) -> (options: Options)
        ensures
            options == (Options { max_payload_size: bytes, ..self }),
    {
        Options { max_payload_size: bytes, ..self }
    }

    /// Sets the size of the queue of responses towards the transport.
    pub fn pending_response_buffer(self, frames: u32) -> (options: Options)
        ensures
            options == (Options { pending_response_buffer: frames, ..self }),
    {
        Options { pending_response_buffer: frames, ..self }
    }
}

impl Default for Options {
    fn default() -> (options: Options)
        ensures
            options == Options::spec_default(),
    {
        Options {
            max_in_flight_requests: u32::MAX,
            max_payload_size: 2_000_000,
            pending_response_buffer: 100,
        }
    }
}

/// Where a connection stands.
#[derive(Clone, Copy, Debug, PartialEq, Eq, Structural)]
pub enum Phase {
    /// Requests are read and handled.
    Serving,
    /// No request is read any more; the handlers that run may finish.
    Draining,
    /// The transport is closed.
    Closed,
}

/// What the dispatcher decides when a request frame arrives.
#[derive(Debug, PartialEq, Eq)]
pub enum Admission<Req, Resp, E> {
    /// The request is in flight. Its handler is to be started, with the context
    /// of the request as the current one, and to be given up at the deadline.
    Start(Request<Req>),
    /// As many handlers run as may. Nothing has changed; the request is handed
    /// back, and no further frame is to be read until a handler is done.
    Suspended(Request<Req>),
    /// The request is answered at once, without a handler.
    Refused(Response<Resp, E>),
    /// A request of that identifier is in flight already. The dispatcher has
    /// closed with a protocol violation; every handler is to be aborted.
    Violation,
    /// The connection no longer serves. The frame is dropped.
    Ignored,
}

/// Why a request that arrives is or is not admitted.
#[derive(Clone, Copy, Debug, PartialEq, Eq, Structural)]
pub enum Ruling {
    /// The connection no longer serves.
    NotServing,
    /// A request of that identifier is in flight.
    Duplicate,
    /// The payload is larger than may be.
    TooLarge,
    /// The deadline of the request has passed already.
    Late,
    /// As many handlers run as may.
    Full,
    /// The request is admitted.
    Admitted,
}

/// The model of a server dispatcher.
#[verifier::ext_equal]
pub struct ServerState {
    /// The requests whose handlers run.
    pub in_flight: Map<u64, Slot>,
    pub phase: Phase,
    /// Whether the connection closed because the peer broke the protocol.
    pub violated: bool,
    pub options: Options,
}

/// What goes into a response frame when a handler returns `result`.
pub open spec fn spec_wire_result<Resp, E>(result: Result<Resp, E>) -> Result<Resp, WireError<E>> {
    match result {
        Ok(payload) => Ok(payload),
        Err(error) => Err(WireError::Application(error)),
    }
}

impl ServerState {
    /// The state of a dispatcher that has seen nothing yet.
    pub open spec fn init(options: Options) -> ServerState {
        ServerState { in_flight: Map::empty(), phase: Phase::Serving, violated: false, options }
    }

    /// What holds of every state that a dispatcher can reach: no more handlers
    /// run than may, and none runs on a closed connection.
    pub open spec fn wf(self) -> bool {
        &&& self.in_flight.dom().finite()
        &&& self.in_flight.len() <= self.options.max_in_flight_requests
        &&& self.phase == Phase::Closed ==> self.in_flight == Map::<u64, Slot>::empty()
        &&& self.violated ==> self.phase == Phase::Closed
    }

    /// What becomes of a request with this identifier, deadline and size that
    /// arrives at `now`.
    pub open spec fn ruling(self, id: u64, deadline: u64, size: u64, now: u64) -> Ruling {
        if self.phase != Phase::Serving {
            Ruling::NotServing
        } else if self.in_flight.contains_key(id) {
            Ruling::Duplicate
        } else if size > self.options.max_payload_size {
            Ruling::TooLarge
        } else if spec_expired(deadline, now) {
            Ruling::Late
        } else if self.in_flight.len() >= self.options.max_in_flight_requests {
            Ruling::Full
        } else {
            Ruling::Admitted
        }
    }

    /// The state after a request arrived at `now`.
    pub open spec fn after_request(self, id: u64, slot: Slot, size: u64, now: u64) -> ServerState {
        match self.ruling(id, slot.deadline, size, now) {
            Ruling::Admitted => ServerState { in_flight: self.in_flight.insert(id, slot), ..self },
            Ruling::Duplicate => self.after_violation(),
            _ => self,
        }
    }

    /// What the dispatcher says when this request, of this size, arrives at
    /// `now`.
    pub open spec fn admission<Req, Resp, E>(self, request: Request<Req>, size: u64, now: u64) -> Admission<
        Req,
        Resp,
        E,
    > {
        match self.ruling(request.id, request.deadline, size, now) {
            Ruling::NotServing => Admission::Ignored,
            Ruling::Duplicate => Admission::Violation,
            Ruling::TooLarge => Admission::Refused(
                Response { id: request.id, result: Err(WireError::PayloadTooLarge) },
            ),
            Ruling::Late => Admission::Refused(
                Response { id: request.id, result: Err(WireError::DeadlineExceeded) },
            ),
            Ruling::Full => Admission::Suspended(request),
            Ruling::Admitted => Admission::Start(request),
        }
    }

    /// The state after the peer broke the protocol: the connection is closed,
    /// and nothing is in flight any more.
    pub open spec fn after_violation(self) -> ServerState {
        ServerState { in_flight: Map::empty(), phase: Phase::Closed, violated: true, ..self }
    }

    /// The state after the request `id` left the table: its handler is done,
    /// or was given up on a cancel frame.
    pub open spec fn after_drop(self, id: u64) -> ServerState {
        ServerState { in_flight: self.in_flight.remove(id), ..self }
    }

    /// What the dispatcher says when a cancel frame for `id` arrives: the
    /// handler to abort, if the request is in flight.
    pub open spec fn cancelled(self, id: u64) -> Option<u64> {
        if self.in_flight.contains_key(id) {
            Some(id)
        } else {
            None
        }
    }

    /// What the dispatcher says when the handler of `id` returns `result`.
    pub open spec fn finished<Resp, E>(self, id: u64, result: Result<Resp, E>) -> Option<
        Response<Resp, E>,
    > {
        if self.in_flight.contains_key(id) {
            Some(Response { id, result: spec_wire_result(result) })
        } else {
            None
        }
    }

    /// The request that is over at `now` and due first among those, if there
    /// is one.
    pub open spec fn due(self, now: u64) -> Option<u64> {
        first_due(self.in_flight, now)
    }

    /// The state after the clock was read as `now`: the request that is due,
    /// if any, has left the table.
    pub open spec fn after_expire(self, now: u64) -> ServerState {
        match self.due(now) {
            Some(id) => ServerState { in_flight: self.in_flight.remove(id), ..self },
            None => self,
        }
    }

    /// What the dispatcher says when the clock is read as `now`.
    pub open spec fn expiry<Resp, E>(self, now: u64) -> Option<Response<Resp, E>> {
        match self.due(now) {
            Some(id) => Some(Response { id, result: Err(WireError::DeadlineExceeded) }),
            None => None,
        }
    }

    /// The state after the inbound side ended or a shutdown was asked for.
    pub open spec fn after_shutdown(self) -> ServerState {
        if self.phase == Phase::Serving {
            ServerState { phase: Phase::Draining, ..self }
        } else {
            self
        }
    }

    /// Whether a draining connection can close: no handler runs, and the
    /// queue of responses is written out.
    pub open spec fn may_close(self, flushed: bool) -> bool {
        self.phase == Phase::Draining && flushed && self.in_flight == Map::<u64, Slot>::empty()
    }

    /// The state after the driver asked whether the connection can close.
    pub open spec fn after_try_close(self, flushed: bool) -> ServerState {
        if self.may_close(flushed) {
            ServerState { phase: Phase::Closed, ..self }
        } else {
            self
        }
    }

    /// The state after the transport failed.
    pub open spec fn after_terminate(self) -> ServerState {
        ServerState { in_flight: Map::empty(), phase: Phase::Closed, ..self }
    }
}

/// The server dispatcher of one connection.
pub struct Server<Req, Resp, E> {
    table: CallTable,
    phase: Phase,
    violated: bool,
    options: Options,
    marker: PhantomData<(Req, Resp, E)>,
}

impl<Req, Resp, E> View for Server<Req, Resp, E> {
    type V = ServerState;

    closed spec fn view(&self) -> ServerState {
        ServerState {
            in_flight: self.table@,
            phase: self.phase,
            violated: self.violated,
            options: self.options,
        }
    }
}

impl<Req, Resp, E> Server<Req, Resp, E> {
    /// The representation is sound, and the state is one that a dispatcher can
    /// reach.
    pub closed spec fn wf(&self) -> bool {
        &&& self.table.wf()
        &&& self@.wf()
    }

    /// What is known of every dispatcher.
    pub proof fn lemma_wf(&self)
        requires
            self.wf(),
        ensures
            self@.wf(),
    {
    }

    /// A dispatcher that has seen nothing yet.
    pub fn new(options: Options) -> (server: Self)
        ensures
            server.wf(),
            server@ == ServerState::init(options),
    {
        Server {
            table: CallTable::new(),
            phase: Phase::Serving,
            violated: false,
            options,
            marker: PhantomData,
        }
    }

    /// What goes into a response frame when a handler returns `result`.
    pub fn wire_result(result: Result<Resp, E>) -> (out: Result<Resp, WireError<E>>)
        ensures
            out == spec_wire_result(result),
    {
        match result {
            Ok(payload) => Ok(payload),
            Err(error) => Err(WireError::Application(error)),
        }
    }

    /// What would become of a request with this identifier, deadline and
    /// size that arrives at `now`.
    pub fn judge(&self, id: u64, deadline: u64, size: u64, now: u64) -> (ruling: Ruling)
        requires
            self.wf(),
        ensures
            ruling == self@.ruling(id, deadline, size, now),
    {
        match self.phase {
            Phase::Serving => {},
            _ => {
                return Ruling::NotServing;
            },
        }
        if self.table.contains(id) {
            Ruling::Duplicate
        } else if size > self.options.max_payload_size {
            Ruling::TooLarge
        } else if expired(deadline, now) {
            Ruling::Late
        } else if self.table.len() >= self.options.max_in_flight_requests as usize {
            Ruling::Full
        } else {
            Ruling::Admitted
        }
    }

    /// A request frame has arrived at `now`; its payload has `size` bytes.
    ///
    /// A connection that no longer serves drops the frame. A request whose
    /// identifier is in flight closes the connection with a protocol
    /// violation. A payload that is too large is answered with
    /// `PayloadTooLarge`, a deadline that has passed with `DeadlineExceeded`.
    /// While as many handlers run as may, the request is handed back. Otherwise
    /// it is in flight, and its handler is to be started.
    pub fn on_request(&mut self, request: Request<Req>, size: u64, now: u64) -> (admission: Admission<
        Req,
        Resp,
        E,
    >)
        requires
            old(self).wf(),
        ensures
            final(self).wf(),
            final(self)@ == old(self)@.after_request(
                request.id,
                Slot { deadline: request.deadline, trace: request.context.trace },
                size,
                now,
            ),
            admission == old(self)@.admission::<Req, Resp, E>(request, size, now),
    {
        let id = request.id;
        match self.phase {
            Phase::Serving => {},
            _ => {
                return Admission::Ignored;
            },
        }
        if self.table.contains(id) {
            self.on_stray();
            return Admission::Violation;
        }
        if size > self.options.max_payload_size {
            return Admission::Refused(Response { id, result: Err(WireError::PayloadTooLarge) });
        }
        if expired(request.deadline, now) {
            return Admission::Refused(Response { id, result: Err(WireError::DeadlineExceeded) });
        }
        if self.table.len() >= self.options.max_in_flight_requests as usize {
            return Admission::Suspended(request);
        }
        let slot = Slot { deadline: request.deadline, trace: request.context.trace };
        let fresh = self.table.insert(id, slot);
        proof {
            assert(fresh);
            assert(self@ =~= old(self)@.after_request(id, slot, size, now));
        }
        Admission::Start(request)
    }

    /// The peer has broken the protocol: it sent a frame that no client
    /// sends, or bytes that are no frame. The connection is closed; every
    /// handler is to be aborted, and nothing more is written.
    pub fn on_stray(&mut self)
        requires
            old(self).wf(),
        ensures
            final(self).wf(),
            final(self)@ == old(self)@.after_violation(),
    {
        self.table.clear();
        self.phase = Phase::Closed;
        self.violated = true;
        proof {
            assert(self@ =~= old(self)@.after_violation());
        }
    }

    proof fn lemma_fewer(calls: Map<u64, Slot>, id: u64)
        requires
            calls.dom().finite(),
        ensures
            calls.remove(id).len() <= calls.len(),
            calls.remove(id).dom().finite(),
            calls == Map::<u64, Slot>::empty() ==> calls.remove(id) == Map::<u64, Slot>::empty(),
    {
        if calls == Map::<u64, Slot>::empty() {
            assert(calls.remove(id) =~= Map::<u64, Slot>::empty());
        }
    }

    /// A cancel frame has arrived. If the request is in flight, it leaves the
    /// table and its handler is to be aborted; no response is written for it.
    /// If not, nothing happens.
    pub fn on_cancel(&mut self, cancel: Cancel) -> (abort: Option<u64>)
        requires
            old(self).wf(),
        ensures
            final(self).wf(),
            final(self)@ == old(self)@.after_drop(cancel.id),
            abort == old(self)@.cancelled(cancel.id),
    {
        let removed = self.table.remove(cancel.id);
        proof {
            assert(self@ =~= old(self)@.after_drop(cancel.id));
            Self::lemma_fewer(old(self)@.in_flight, cancel.id);
        }
        match removed {
            Some(_) => Some(cancel.id),
            None => None,
        }
    }

    /// The handler of `id` has returned. If the request is in flight, it
    /// leaves the table, and the response goes to the queue towards the
    /// transport. If not (it was cancelled, or given up at its deadline), the
    /// result is dropped.
    pub fn on_handler_done(&mut self, id: u64, result: Result<Resp, E>) -> (response: Option<
        Response<Resp, E>,
    >)
        requires
            old(self).wf(),
        ensures
            final(self).wf(),
            final(self)@ == old(self)@.after_drop(id),
            response == old(self)@.finished(id, result),
    {
        let removed = self.table.remove(id);
        proof {
            assert(self@ =~= old(self)@.after_drop(id));
            Self::lemma_fewer(old(self)@.in_flight, id);
        }
        match removed {
            Some(_) => Some(Response { id, result: Self::wire_result(result) }),
            None => None,
        }
    }

    /// The clock reads `now`. If the request that is due first is over by
    /// then, it leaves the table, its handler is to be aborted, and it is
    /// answered with `DeadlineExceeded`.
    pub fn expire(&mut self, now: u64) -> (response: Option<Response<Resp, E>>)
        requires
            old(self).wf(),
        ensures
            final(self).wf(),
            final(self)@ == old(self)@.after_expire(now),
            response == old(self)@.expiry::<Resp, E>(now),
    {
        match self.table.earliest() {
            Some((id, slot)) => {
                proof {
                    lemma_first_due(self@.in_flight, now, id);
                }
                if slot.deadline <= now {
                    let _ = self.table.remove(id);
                    proof {
                        assert(self@ =~= old(self)@.after_expire(now));
                        Self::lemma_fewer(old(self)@.in_flight, id);
                    }
                    Some(Response { id, result: Err(WireError::DeadlineExceeded) })
                } else {
                    proof {
                        assert(old(self)@.due(now) is None);
                    }
                    None
                }
            },
            None => {
                proof {
                    assert(old(self)@.due(now) is None);
                }
                None
            },
        }
    }

    /// When the next request in flight is over, if any is in flight.
    pub fn next_deadline(&self) -> (deadline: Option<u64>)
        requires
            self.wf(),
        ensures
            deadline is None <==> self@.in_flight == Map::<u64, Slot>::empty(),
            deadline matches Some(d) ==> exists|id: u64|
                is_earliest(self@.in_flight, id) && self@.in_flight[id].deadline == d,
    {
        match self.table.earliest() {
            Some((_, slot)) => Some(slot.deadline),
            None => None,
        }
    }

    /// The inbound side has ended, or a shutdown was asked for: a serving
    /// connection drains from now on.
    pub fn shutdown(&mut self)
        requires
            old(self).wf(),
        ensures
            final(self).wf(),
            final(self)@ == old(self)@.after_shutdown(),
    {
        match self.phase {
            Phase::Serving => {
                self.phase = Phase::Draining;
            },
            _ => {},
        }
    }

    /// Closes a draining connection once no handler runs and the queue of
    /// responses is written out (`flushed`); says whether it closed.
    pub fn try_close(&mut self, flushed: bool) -> (closed: bool)
        requires
            old(self).wf(),
        ensures
            final(self).wf(),
            final(self)@ == old(self)@.after_try_close(flushed),
            closed == old(self)@.may_close(flushed),
    {
        let idle = self.table.is_empty();
        match self.phase {
            Phase::Draining => {
                if flushed && idle {
                    self.phase = Phase::Closed;
                    true
                } else {
                    false
                }
            },
            _ => false,
        }
    }

    /// The transport has failed. The connection is closed; the handlers of the
    /// requests in flight, listed by ascending identifier, are to be aborted.
    pub fn terminate(&mut self) -> (aborted: Vec<u64>)
        requires
            old(self).wf(),
        ensures
            final(self).wf(),
            final(self)@ == old(self)@.after_terminate(),
            lists_keys(aborted@, old(self)@.in_flight),
            aborted@.len() == old(self)@.in_flight.len(),
    {
        let aborted = self.table.ids();
        self.table.clear();
        self.phase = Phase::Closed;
        proof {
            assert(self@ =~= old(self)@.after_terminate());
        }
        aborted
    }

    /// Where the connection stands.
    pub fn phase(&self) -> (phase: Phase)
        ensures
            phase == self@.phase,
    {
        self.phase
    }

    /// How many handlers run.
    pub fn in_flight(&self) -> (handlers: usize)
        requires
            self.wf(),
        ensures
            handlers == self@.in_flight.len(),
    {
        self.table.len()
    }

    /// Whether the request `id` is in flight.
    pub fn is_in_flight(&self, id: u64) -> (running: bool)
        requires
            self.wf(),
        ensures
            running == self@.in_flight.contains_key(id),
    {
        self.table.contains(id)
    }

    /// Whether the connection closed because the peer broke the protocol.
    pub fn violated(&self) -> (violated: bool)
        ensures
            violated == self@.violated,
    {
        self.violated
    }

    /// The options that the dispatcher was made with.
    pub fn options(&self) -> (options: Options)
        ensures
            options == self@.options,
    {
        self.options
    }
}

} // verus!
