//! What holds of a client dispatcher over its whole life, whatever happens to
//! it and in whatever order: the histories of a dispatcher, and what is proved
//! of every one of them.

use crate::client::ClientState;
use crate::client::Options;
use crate::client::Routed;
use crate::client::Sent;
use crate::context::spec_expired;
use crate::context::Context;
use crate::envelope::Response;
use crate::errors::Error;
use crate::table::Slot;
use vstd::prelude::*;

verus! {

/// What can happen to a client dispatcher.
pub enum ClientEvent {
    /// A call with this context is made at `now`.
    Send { call: Context, now: u64 },
    /// A response frame with this identifier arrives.
    Response { id: u64 },
    /// The clock is read as `now`.
    Tick { now: u64 },
    /// The caller of `id` stops waiting.
    Abandon { id: u64 },
    /// The framing refuses the request `id`.
    Reject { id: u64 },
    /// A frame arrives that no server sends.
    Stray,
    /// The transport ends.
    Close,
}

impl ClientState {
    /// The state after `event`.
    pub open spec fn step(self, event: ClientEvent) -> ClientState {
        match event {
            ClientEvent::Send { call, now } => self.after_send(call, now),
            ClientEvent::Response { id } => self.after_response(id),
            ClientEvent::Tick { now } => self.after_expire(now),
            ClientEvent::Abandon { id } => self.after_drop(id),
            ClientEvent::Reject { id } => self.after_drop(id),
            ClientEvent::Stray => self.after_stray(),
            ClientEvent::Close => self.after_close(),
        }
    }

    /// Whether `event` makes `id` an open call.
    pub open spec fn opens(self, event: ClientEvent, id: u64) -> bool {
        event matches ClientEvent::Send { call, now } && self.verdict(call, now) is Accepted && id
            == self.next_id
    }

    /// Whether `event` ends the open call `id`.
    pub open spec fn ends(self, event: ClientEvent, id: u64) -> bool {
        match event {
            ClientEvent::Send { .. } => false,
            ClientEvent::Response { id: answered } => answered == id && self.pending.contains_key(
                id,
            ),
            ClientEvent::Tick { now } => self.due(now) == Some(id),
            ClientEvent::Abandon { id: dropped } => dropped == id && self.pending.contains_key(id),
            ClientEvent::Reject { id: dropped } => dropped == id && self.pending.contains_key(id),
            ClientEvent::Stray => false,
            ClientEvent::Close => self.pending.contains_key(id),
        }
    }

    /// Every step leads from a reachable state to a reachable state.
    pub proof fn lemma_step_wf(self, event: ClientEvent)
        requires
            self.wf(),
        ensures
            self.step(event).wf(),
    {
        let next = self.step(event);
        match event {
            ClientEvent::Send { call, now } => {},
            ClientEvent::Response { id } => {},
            ClientEvent::Tick { now } => {},
            ClientEvent::Abandon { id } => {},
            ClientEvent::Reject { id } => {},
            ClientEvent::Stray => {},
            ClientEvent::Close => {},
        }
    }

    /// No step takes back an identifier, and no step reopens a dispatcher that
    /// has ended.
    pub proof fn lemma_step_monotonic(self, event: ClientEvent)
        requires
            self.wf(),
        ensures
            self.next_id <= self.step(event).next_id,
            self.closed ==> self.step(event).closed,
            self.step(event).options == self.options,
    {
    }
}

/// The state of a dispatcher with these options after `events`, from the first
/// to the last.
pub open spec fn client_run(options: Options, events: Seq<ClientEvent>) -> ClientState
    decreases events.len(),
{
    if events.len() == 0 {
        ClientState::init(options)
    } else {
        client_run(options, events.drop_last()).step(events.last())
    }
}

/// How often `id` became an open call in the course of `events`.
pub open spec fn times_opened(options: Options, events: Seq<ClientEvent>, id: u64) -> nat
    decreases events.len(),
{
    if events.len() == 0 {
        0
    } else {
        times_opened(options, events.drop_last(), id) + if client_run(
            options,
            events.drop_last(),
        ).opens(events.last(), id) {
            1nat
        } else {
            0nat
        }
    }
}

/// How often the open call `id` ended in the course of `events`.
pub open spec fn times_ended(options: Options, events: Seq<ClientEvent>, id: u64) -> nat
    decreases events.len(),
{
    if events.len() == 0 {
        0
    } else {
        times_ended(options, events.drop_last(), id) + if client_run(
            options,
            events.drop_last(),
        ).ends(events.last(), id) {
            1nat
        } else {
            0nat
        }
    }
}

/// Whatever happens, the dispatcher is in a state in which an open call has an
/// identifier that was given out, and no more calls are open than may be.
pub proof fn lemma_client_run_wf(options: Options, events: Seq<ClientEvent>)
    ensures
        client_run(options, events).wf(),
        client_run(options, events).options == options,
    decreases events.len(),
{
    if events.len() > 0 {
        lemma_client_run_wf(options, events.drop_last());
        client_run(options, events.drop_last()).lemma_step_wf(events.last());
        client_run(options, events.drop_last()).lemma_step_monotonic(events.last());
    }
}

/// Identifiers are given out in ascending order and never twice: a call that
/// is made after `events` gets an identifier that no call got in the course
/// of `events`, and every earlier prefix of the history had given out no more
/// identifiers than the whole.
pub proof fn lemma_identifiers_ascend(options: Options, events: Seq<ClientEvent>, k: int)
    requires
        0 <= k <= events.len(),
    ensures
        client_run(options, events.take(k)).next_id <= client_run(options, events).next_id,
    decreases events.len(),
{
    if k == events.len() {
        assert(events.take(k) =~= events);
    } else {
        lemma_client_run_wf(options, events.drop_last());
        client_run(options, events.drop_last()).lemma_step_monotonic(events.last());
        lemma_identifiers_ascend(options, events.drop_last(), k);
        assert(events.drop_last().take(k) =~= events.take(k));
    }
}

/// The ledger of a dispatcher. Whatever happens:
/// an identifier became an open call exactly once if it was given out, and
/// never otherwise; and every call that was opened has ended exactly once,
/// unless it is still open, in which case it has not ended at all.
pub proof fn lemma_client_ledger(options: Options, events: Seq<ClientEvent>, id: u64)
    ensures
        times_opened(options, events, id) == if id < client_run(options, events).next_id {
            1nat
        } else {
            0nat
        },
        times_opened(options, events, id) == times_ended(options, events, id) + if client_run(
            options,
            events,
        ).pending.contains_key(id) {
            1nat
        } else {
            0nat
        },
    decreases events.len(),
{
    if events.len() > 0 {
        let before = client_run(options, events.drop_last());
        let event = events.last();
        lemma_client_ledger(options, events.drop_last(), id);
        lemma_client_run_wf(options, events.drop_last());
        match event {
            ClientEvent::Send { call, now } => {},
            ClientEvent::Response { id: answered } => {},
            ClientEvent::Tick { now } => {},
            ClientEvent::Abandon { id: dropped } => {},
            ClientEvent::Reject { id: dropped } => {},
            ClientEvent::Stray => {},
            ClientEvent::Close => {},
        }
    }
}

/// No call ends twice: in no history is the slot of a call written more than
/// once.
pub proof fn lemma_ends_at_most_once(options: Options, events: Seq<ClientEvent>, id: u64)
    ensures
        times_ended(options, events, id) <= 1,
        times_ended(options, events, id) == 1 ==> id < client_run(options, events).next_id
            && !client_run(options, events).pending.contains_key(id),
{
    lemma_client_ledger(options, events, id);
}

/// Once the transport has ended, every call that was ever opened has ended
/// exactly once.
pub proof fn lemma_all_ended_after_close(options: Options, events: Seq<ClientEvent>, id: u64)
    requires
        events.len() > 0,
        events.last() is Close,
    ensures
        times_ended(options, events, id) == times_opened(options, events, id),
        client_run(options, events).pending == Map::<u64, Slot>::empty(),
{
    lemma_client_ledger(options, events, id);
}

/// A response frame ends the call whose identifier it carries and no other:
/// what it holds is written to the slot of that call, every other open call
/// stays as it is, and a frame for a call that is not open changes no call.
pub proof fn lemma_routes_to_own_slot<Resp, E>(state: ClientState, response: Response<Resp, E>)
    requires
        state.wf(),
    ensures
        state.routed(response) matches Routed::Delivered(completion) ==> completion.id
            == response.id && state.pending.contains_key(response.id),
        state.routed(response) is Delivered <==> state.pending.contains_key(response.id),
        forall|other: u64|
            other != response.id ==> (state.after_response(response.id).pending.contains_key(other)
                <==> state.pending.contains_key(other)),
        forall|other: u64|
            other != response.id && state.pending.contains_key(other) ==> state.after_response(
                response.id,
            ).pending[other] == state.pending[other],
        !state.after_response(response.id).pending.contains_key(response.id),
        forall|other: u64| !state.ends(ClientEvent::Response { id: response.id }, other) || other
            == response.id,
{
}

/// A call whose deadline has passed when it is made never becomes an open
/// call: it fails with `DeadlineExceeded` (or with `Disconnected`, where the
/// dispatcher has ended), no frame is written and nothing changes but, where
/// the identifiers have run out, that the dispatcher ends.
pub proof fn lemma_late_call_never_opens<Req, E>(
    state: ClientState,
    call: Context,
    now: u64,
    payload: Req,
)
    requires
        state.wf(),
        spec_expired(call.deadline, now),
    ensures
        state.sent::<Req, E>(call, now, payload) is Failed,
        state.after_send(call, now).pending == state.pending,
        state.after_send(call, now).next_id == state.next_id,
        !state.closed && state.next_id < u64::MAX ==> state.sent::<Req, E>(call, now, payload)
            == Sent::<Req, E>::Failed(Error::DeadlineExceeded)
            && state.after_send(call, now) == state,
{
}

/// A call never ends with `ProtocolViolation`: a response ends it with what
/// the frame holds, which is a payload, `Application`, `DeadlineExceeded` or
/// `PayloadTooLarge`; its deadline with `DeadlineExceeded`; a refusal of the
/// framing with `PayloadTooLarge`; and a call that fails as it is made fails
/// with `Disconnected` or `DeadlineExceeded`. The end of the transport ends
/// calls with `Disconnected`.
pub proof fn lemma_outcomes<Req, Resp, E>(
    state: ClientState,
    response: Response<Resp, E>,
    call: Context,
    now: u64,
    payload: Req,
    id: u64,
)
    ensures
        state.routed(response) matches Routed::Delivered(completion) ==> !(completion.result
            matches Err(Error::ProtocolViolation)) && !(completion.result matches Err(
            Error::Disconnected,
        )),
        state.expiry::<Resp, E>(now) matches Some(expired) ==> expired.completion.result == Err::<
            Resp,
            Error<E>,
        >(Error::DeadlineExceeded) && expired.completion.id == expired.cancel.id,
        state.rejected::<Resp, E>(id) matches Some(completion) ==> completion.result == Err::<
            Resp,
            Error<E>,
        >(Error::PayloadTooLarge),
        state.sent::<Req, E>(call, now, payload) matches Sent::Failed(error) ==> error
            == Error::<E>::Disconnected || error == Error::<E>::DeadlineExceeded,
{
}

} // verus!
