//! What holds of a server dispatcher over the whole life of a connection,
//! whatever happens to it and in whatever order: the histories of a
//! dispatcher, and what is proved of every one of them.

use crate::envelope::Request;
use crate::server::Admission;
use crate::server::Options;
use crate::server::Phase;
use crate::server::ServerState;
use crate::table::Slot;
use vstd::prelude::*;

verus! {

/// What can happen to a server dispatcher.
pub enum ServerEvent {
    /// A request frame with this identifier, slot and payload size arrives at
    /// `now`.
    Request { id: u64, slot: Slot, size: u64, now: u64 },
    /// A cancel frame for `id` arrives.
    Cancel { id: u64 },
    /// The handler of `id` returns.
    Done { id: u64 },
    /// The clock is read as `now`.
    Tick { now: u64 },
    /// The inbound side ends, or a shutdown is asked for.
    Shutdown,
    /// The driver asks whether the connection can close.
    TryClose { flushed: bool },
    /// The transport fails.
    Terminate,
    /// A frame arrives that no client sends.
    Stray,
}

/// How far a connection has come: a phase is never left for an earlier one.
pub open spec fn phase_rank(phase: Phase) -> nat {
    match phase {
        Phase::Serving => 0,
        Phase::Draining => 1,
        Phase::Closed => 2,
    }
}

impl ServerState {
    /// The state after `event`.
    pub open spec fn step(self, event: ServerEvent) -> ServerState {
        match event {
            ServerEvent::Request { id, slot, size, now } => self.after_request(id, slot, size, now),
            ServerEvent::Cancel { id } => self.after_drop(id),
            ServerEvent::Done { id } => self.after_drop(id),
            ServerEvent::Tick { now } => self.after_expire(now),
            ServerEvent::Shutdown => self.after_shutdown(),
            ServerEvent::TryClose { flushed } => self.after_try_close(flushed),
            ServerEvent::Terminate => self.after_terminate(),
            ServerEvent::Stray => self.after_violation(),
        }
    }

    /// Whether `event` is a request `id` that the dispatcher takes on: one
    /// that it admits, or one that it answers at once.
    pub open spec fn takes(self, event: ServerEvent, id: u64) -> bool {
        event matches ServerEvent::Request { id: arrived, slot, size, now } && arrived == id && (
        self.ruling(id, slot.deadline, size, now) is Admitted || self.ruling(
            id,
            slot.deadline,
            size,
            now,
        ) is TooLarge || self.ruling(id, slot.deadline, size, now) is Late)
    }

    /// Whether `event` makes the dispatcher write a response frame for `id`.
    pub open spec fn answers(self, event: ServerEvent, id: u64) -> bool {
        match event {
            ServerEvent::Request { id: arrived, slot, size, now } => arrived == id && (self.ruling(
                id,
                slot.deadline,
                size,
                now,
            ) is TooLarge || self.ruling(id, slot.deadline, size, now) is Late),
            ServerEvent::Done { id: done } => done == id && self.in_flight.contains_key(id),
            ServerEvent::Tick { now } => self.due(now) == Some(id),
            _ => false,
        }
    }

    /// Whether `event` makes the request `id` leave the table without a
    /// response: it is cancelled, or the connection closes under it.
    pub open spec fn silences(self, event: ServerEvent, id: u64) -> bool {
        match event {
            ServerEvent::Request { id: arrived, slot, size, now } => self.ruling(
                arrived,
                slot.deadline,
                size,
                now,
            ) is Duplicate && self.in_flight.contains_key(id),
            ServerEvent::Cancel { id: cancelled } => cancelled == id && self.in_flight.contains_key(
                id,
            ),
            ServerEvent::Terminate => self.in_flight.contains_key(id),
            ServerEvent::Stray => self.in_flight.contains_key(id),
            _ => false,
        }
    }

    /// Every step leads from a reachable state to a reachable state, and never
    /// to an earlier phase.
    pub proof fn lemma_step_wf(self, event: ServerEvent)
        requires
            self.wf(),
        ensures
            self.step(event).wf(),
            self.step(event).options == self.options,
            phase_rank(self.phase) <= phase_rank(self.step(event).phase),
    {
        match event {
            ServerEvent::Request { id, slot, size, now } => {},
            ServerEvent::Cancel { id } => {
                if self.in_flight == Map::<u64, Slot>::empty() {
                    assert(self.in_flight.remove(id) =~= Map::<u64, Slot>::empty());
                }
            },
            ServerEvent::Done { id } => {
                if self.in_flight == Map::<u64, Slot>::empty() {
                    assert(self.in_flight.remove(id) =~= Map::<u64, Slot>::empty());
                }
            },
            ServerEvent::Tick { now } => {},
            ServerEvent::Shutdown => {},
            ServerEvent::TryClose { flushed } => {},
            ServerEvent::Terminate => {},
            ServerEvent::Stray => {},
        }
    }

    /// On a closed connection nothing is taken on and nothing is answered.
    pub proof fn lemma_closed_is_silent(self, event: ServerEvent, id: u64)
        requires
            self.wf(),
            self.phase == Phase::Closed,
        ensures
            !self.takes(event, id),
            !self.answers(event, id),
            self.step(event).phase == Phase::Closed,
    {
        match event {
            ServerEvent::Cancel { id: other } => {
                assert(self.in_flight.remove(other) =~= Map::<u64, Slot>::empty());
            },
            ServerEvent::Done { id: other } => {
                assert(self.in_flight.remove(other) =~= Map::<u64, Slot>::empty());
            },
            _ => {},
        }
    }
}

/// The state of a dispatcher with these options after `events`, from the first
/// to the last.
pub open spec fn server_run(options: Options, events: Seq<ServerEvent>) -> ServerState
    decreases events.len(),
{
    if events.len() == 0 {
        ServerState::init(options)
    } else {
        server_run(options, events.drop_last()).step(events.last())
    }
}

/// How often a request `id` was taken on in the course of `events`.
pub open spec fn times_taken(options: Options, events: Seq<ServerEvent>, id: u64) -> nat
    decreases events.len(),
{
    if events.len() == 0 {
        0
    } else {
        times_taken(options, events.drop_last(), id) + if server_run(
            options,
            events.drop_last(),
        ).takes(events.last(), id) {
            1nat
        } else {
            0nat
        }
    }
}

/// How many response frames for `id` were written in the course of `events`.
pub open spec fn times_answered(options: Options, events: Seq<ServerEvent>, id: u64) -> nat
    decreases events.len(),
{
    if events.len() == 0 {
        0
    } else {
        times_answered(options, events.drop_last(), id) + if server_run(
            options,
            events.drop_last(),
        ).answers(events.last(), id) {
            1nat
        } else {
            0nat
        }
    }
}

/// How often a request `id` left the table without a response in the course
/// of `events`.
pub open spec fn times_silenced(options: Options, events: Seq<ServerEvent>, id: u64) -> nat
    decreases events.len(),
{
    if events.len() == 0 {
        0
    } else {
        times_silenced(options, events.drop_last(), id) + if server_run(
            options,
            events.drop_last(),
        ).silences(events.last(), id) {
            1nat
        } else {
            0nat
        }
    }
}

/// Whatever happens, no more handlers run than may, and none runs on a closed
/// connection.
pub proof fn lemma_server_run_wf(options: Options, events: Seq<ServerEvent>)
    ensures
        server_run(options, events).wf(),
        server_run(options, events).options == options,
    decreases events.len(),
{
    if events.len() > 0 {
        lemma_server_run_wf(options, events.drop_last());
        server_run(options, events.drop_last()).lemma_step_wf(events.last());
    }
}

/// A connection goes from serving to draining to closed and never back: what
/// it had reached after the first `k` events it has reached after all of them.
pub proof fn lemma_phase_advances(options: Options, events: Seq<ServerEvent>, k: int)
    requires
        0 <= k <= events.len(),
    ensures
        phase_rank(server_run(options, events.take(k)).phase) <= phase_rank(
            server_run(options, events).phase,
        ),
    decreases events.len(),
{
    if k == events.len() {
        assert(events.take(k) =~= events);
    } else {
        lemma_server_run_wf(options, events.drop_last());
        server_run(options, events.drop_last()).lemma_step_wf(events.last());
        lemma_phase_advances(options, events.drop_last(), k);
        assert(events.drop_last().take(k) =~= events.take(k));
    }
}

/// The ledger of a connection. Whatever happens, every request that was taken
/// on has been answered exactly once, or has left the table without a response
/// (it was cancelled, or the connection closed under it), or is still in
/// flight.
pub proof fn lemma_server_ledger(options: Options, events: Seq<ServerEvent>, id: u64)
    ensures
        times_taken(options, events, id) == times_answered(options, events, id) + times_silenced(
            options,
            events,
            id,
        ) + if server_run(options, events).in_flight.contains_key(id) {
            1nat
        } else {
            0nat
        },
    decreases events.len(),
{
    if events.len() > 0 {
        let before = server_run(options, events.drop_last());
        let event = events.last();
        lemma_server_ledger(options, events.drop_last(), id);
        lemma_server_run_wf(options, events.drop_last());
        match event {
            ServerEvent::Request { id: arrived, slot, size, now } => {},
            ServerEvent::Cancel { id: cancelled } => {},
            ServerEvent::Done { id: done } => {},
            ServerEvent::Tick { now } => {},
            ServerEvent::Shutdown => {},
            ServerEvent::TryClose { flushed } => {},
            ServerEvent::Terminate => {},
            ServerEvent::Stray => {},
        }
    }
}

/// No response without a request: at no point have more response frames for
/// an identifier been written than requests of that identifier were taken on,
/// and a step that writes one writes it for a request that arrived with that
/// step or before it.
pub proof fn lemma_answers_only_requests(options: Options, events: Seq<ServerEvent>, id: u64)
    ensures
        times_answered(options, events, id) <= times_taken(options, events, id),
        events.len() > 0 && server_run(options, events.drop_last()).answers(events.last(), id)
            ==> times_taken(options, events, id) >= 1,
{
    lemma_server_ledger(options, events, id);
    if events.len() > 0 {
        lemma_server_ledger(options, events.drop_last(), id);
    }
}

/// Exactly one response for each request: where no request `id` left the table
/// without a response and none is in flight, as many responses for `id` were
/// written as requests `id` were taken on.
pub proof fn lemma_one_response_each(options: Options, events: Seq<ServerEvent>, id: u64)
    requires
        times_silenced(options, events, id) == 0,
        !server_run(options, events).in_flight.contains_key(id),
    ensures
        times_answered(options, events, id) == times_taken(options, events, id),
{
    lemma_server_ledger(options, events, id);
}

/// A cancel frame for a request leaves the dispatcher where a second one finds
/// nothing to do, and a cancel frame for a request that is not in flight
/// changes nothing.
pub proof fn lemma_cancel_idempotent(state: ServerState, id: u64)
    requires
        state.wf(),
    ensures
        state.after_drop(id).after_drop(id) == state.after_drop(id),
        state.after_drop(id).cancelled(id) is None,
        !state.in_flight.contains_key(id) ==> state.after_drop(id) == state && state.cancelled(id)
            is None,
{
    assert(state.in_flight.remove(id).remove(id) =~= state.in_flight.remove(id));
    if !state.in_flight.contains_key(id) {
        assert(state.in_flight.remove(id) =~= state.in_flight);
    }
}

/// A request that arrives while as many handlers run as may is not lost: the
/// dispatcher hands it back and stays as it was, and as soon as one of the
/// handlers is done the same request is admitted.
pub proof fn lemma_suspended_until_done<Req, Resp, E>(
    state: ServerState,
    request: Request<Req>,
    size: u64,
    now: u64,
    done: u64,
)
    requires
        state.wf(),
        state.ruling(request.id, request.deadline, size, now) is Full,
        state.in_flight.contains_key(done),
    ensures
        state.admission::<Req, Resp, E>(request, size, now) == Admission::<Req, Resp, E>::Suspended(
            request,
        ),
        state.after_request(
            request.id,
            Slot { deadline: request.deadline, trace: request.context.trace },
            size,
            now,
        ) == state,
        state.after_drop(done).admission::<Req, Resp, E>(request, size, now) == Admission::<
            Req,
            Resp,
            E,
        >::Start(request),
        state.after_drop(done).after_request(
            request.id,
            Slot { deadline: request.deadline, trace: request.context.trace },
            size,
            now,
        ).in_flight.contains_key(request.id),
{
}

} // verus!
