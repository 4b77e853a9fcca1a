//! The two dispatchers of one connection taken together: what a call goes
//! through from the caller to the handler and back.

use crate::client::ClientState;
use crate::client::Options;
use crate::client::Completion;
use crate::client::Routed;
use crate::client::Sent;
use crate::client_history::ClientEvent;
use crate::context::Context;
use crate::errors::Error;
use crate::server::Admission;
use crate::server::Ruling;
use crate::server::ServerState;
use crate::server_history::ServerEvent;
use crate::table::Slot;
use vstd::prelude::*;

verus! {

/// A call comes back as what its handler made of it. Where the client opens
/// the call and the server admits the request, the handler is started with the
/// context and the payload of the caller; and when it returns `outcome`, the
/// response that the server writes ends that very call at the client, with
/// the payload that the handler returned, or with its error as an
/// `Application` error. With a handler that returns its payload, the caller
/// gets back what it sent.
pub proof fn lemma_round_trip<P, E>(
    client: ClientState,
    server: ServerState,
    call: Context,
    payload: P,
    size: u64,
    sent_at: u64,
    arrives_at: u64,
    outcome: Result<P, E>,
)
    requires
        client.wf(),
        server.wf(),
        client.verdict(call, sent_at) is Accepted,
        server.ruling(client.next_id, call.deadline, size, arrives_at) is Admitted,
    ensures
        ({
            let id = client.next_id;
            let slot = Slot { deadline: call.deadline, trace: call.trace };
            &&& client.sent::<P, E>(call, sent_at, payload) matches Sent::Enqueued(request)
            &&& request.id == id && request.context == call && request.payload == payload
            &&& server.admission::<P, P, E>(request, size, arrives_at) matches Admission::Start(job)
            &&& job == request
            &&& server.after_request(id, slot, size, arrives_at).finished(id, outcome) matches Some(
                response,
            )
            &&& client.after_send(call, sent_at).routed(response) == Routed::Delivered(
                Completion {
                    id,
                    result: match outcome {
                        Ok(answer) => Ok(answer),
                        Err(error) => Err(Error::Application(error)),
                    },
                },
            )
            &&& outcome == Ok::<P, E>(payload) ==> client.after_send(call, sent_at).routed(response)
                == Routed::Delivered(Completion { id, result: Ok::<P, Error<E>>(payload) })
            &&& !client.after_send(call, sent_at).after_response(id).pending.contains_key(id)
            &&& !server.after_request(id, slot, size, arrives_at).after_drop(id).in_flight.contains_key(
                id,
            )
        }),
{
}

/// A frame on its way from the client to the server, without its payload.
pub enum Upstream {
    /// A request for the call `id`, whose payload has `size` bytes.
    Request { id: u64, slot: Slot, size: u64 },
    /// Word that nobody waits for the call `id` any more.
    Cancel { id: u64 },
}

/// The model of a connection: the two dispatchers, and the frames that are on
/// their way between them, the oldest first. Of a response only the identifier
/// is kept.
pub struct ConnectionState {
    pub client: ClientState,
    pub server: ServerState,
    pub upstream: Seq<Upstream>,
    pub downstream: Seq<u64>,
}

/// What can happen on a connection.
pub enum ConnectionEvent {
    /// A call with this context, whose payload has `size` bytes, is made at
    /// `now`.
    Call { call: Context, size: u64, now: u64 },
    /// The caller of `id` stops waiting.
    Abandon { id: u64 },
    /// The client reads its clock as `now`.
    ClientTick { now: u64 },
    /// The oldest frame on its way to the server reaches it at `now`.
    ServerReads { now: u64 },
    /// The handler of `id` returns.
    HandlerDone { id: u64 },
    /// The server reads its clock as `now`.
    ServerTick { now: u64 },
    /// The oldest response on its way to the client reaches it.
    ClientReads,
    /// The server is asked to shut down.
    Shutdown,
    /// The transport ends: what was on its way is lost.
    Close,
}

impl ConnectionState {
    /// A connection on which nothing has happened yet.
    pub open spec fn init(client: Options, server: crate::server::Options) -> ConnectionState {
        ConnectionState {
            client: ClientState::init(client),
            server: ServerState::init(server),
            upstream: Seq::empty(),
            downstream: Seq::empty(),
        }
    }

    /// The connection after `event`.
    pub open spec fn step(self, event: ConnectionEvent) -> ConnectionState {
        match event {
            ConnectionEvent::Call { call, size, now } => ConnectionState {
                client: self.client.after_send(call, now),
                upstream: if self.client.verdict(call, now) is Accepted {
                    self.upstream.push(
                        Upstream::Request {
                            id: self.client.next_id,
                            slot: Slot { deadline: call.deadline, trace: call.trace },
                            size,
                        },
                    )
                } else {
                    self.upstream
                },
                ..self
            },
            ConnectionEvent::Abandon { id } => ConnectionState {
                client: self.client.after_drop(id),
                upstream: if self.client.pending.contains_key(id) {
                    self.upstream.push(Upstream::Cancel { id })
                } else {
                    self.upstream
                },
                ..self
            },
            ConnectionEvent::ClientTick { now } => ConnectionState {
                client: self.client.after_expire(now),
                upstream: match self.client.due(now) {
                    Some(id) => self.upstream.push(Upstream::Cancel { id }),
                    None => self.upstream,
                },
                ..self
            },
            ConnectionEvent::ServerReads { now } => if self.upstream.len() == 0 {
                self
            } else {
                match self.upstream[0] {
                    Upstream::Request { id, slot, size } => match self.server.ruling(
                        id,
                        slot.deadline,
                        size,
                        now,
                    ) {
                        // The request waits until a handler is done.
                        Ruling::Full => self,
                        Ruling::TooLarge | Ruling::Late => ConnectionState {
                            upstream: self.upstream.subrange(1, self.upstream.len() as int),
                            downstream: self.downstream.push(id),
                            ..self
                        },
                        Ruling::Duplicate => ConnectionState {
                            server: self.server.after_request(id, slot, size, now),
                            upstream: self.upstream.subrange(1, self.upstream.len() as int),
                            downstream: Seq::empty(),
                            ..self
                        },
                        _ => ConnectionState {
                            server: self.server.after_request(id, slot, size, now),
                            upstream: self.upstream.subrange(1, self.upstream.len() as int),
                            ..self
                        },
                    },
                    Upstream::Cancel { id } => ConnectionState {
                        server: self.server.after_drop(id),
                        upstream: self.upstream.subrange(1, self.upstream.len() as int),
                        ..self
                    },
                }
            },
            ConnectionEvent::HandlerDone { id } => ConnectionState {
                server: self.server.after_drop(id),
                downstream: if self.server.in_flight.contains_key(id) {
                    self.downstream.push(id)
                } else {
                    self.downstream
                },
                ..self
            },
            ConnectionEvent::ServerTick { now } => ConnectionState {
                server: self.server.after_expire(now),
                downstream: match self.server.due(now) {
                    Some(id) => self.downstream.push(id),
                    None => self.downstream,
                },
                ..self
            },
            ConnectionEvent::ClientReads => if self.downstream.len() == 0 {
                self
            } else {
                ConnectionState {
                    client: self.client.after_response(self.downstream[0]),
                    downstream: self.downstream.subrange(1, self.downstream.len() as int),
                    ..self
                }
            },
            ConnectionEvent::Shutdown => ConnectionState {
                server: self.server.after_shutdown(),
                ..self
            },
            ConnectionEvent::Close => ConnectionState {
                client: self.client.after_close(),
                server: self.server.after_terminate(),
                upstream: Seq::empty(),
                downstream: Seq::empty(),
            },
        }
    }

    /// Whether `id` is the identifier of a call that the client has made.
    pub open spec fn was_sent(self, id: u64) -> bool {
        id < self.client.next_id
    }

    /// Nothing on the connection speaks of a call that was never made: the
    /// requests and cancel frames on their way to the server, the requests in
    /// flight there, and the responses on their way back all bear identifiers
    /// that the client has given out.
    pub open spec fn sound(self) -> bool {
        &&& self.client.wf()
        &&& self.server.wf()
        &&& forall|i: int|
            0 <= i < self.upstream.len() ==> match #[trigger] self.upstream[i] {
                Upstream::Request { id, .. } => self.was_sent(id),
                Upstream::Cancel { id } => self.was_sent(id),
            }
        &&& forall|id: u64| #[trigger] self.server.in_flight.contains_key(id) ==> self.was_sent(id)
        &&& forall|i: int|
            0 <= i < self.downstream.len() ==> self.was_sent(#[trigger] self.downstream[i])
    }
}

/// The connection after `events`, from the first to the last.
pub open spec fn connection_run(
    client: Options,
    server: crate::server::Options,
    events: Seq<ConnectionEvent>,
) -> ConnectionState
    decreases events.len(),
{
    if events.len() == 0 {
        ConnectionState::init(client, server)
    } else {
        connection_run(client, server, events.drop_last()).step(events.last())
    }
}

/// Every step keeps a connection sound.
pub proof fn lemma_step_sound(state: ConnectionState, event: ConnectionEvent)
    requires
        state.sound(),
    ensures
        state.step(event).sound(),
{
    let next = state.step(event);
    match event {
        ConnectionEvent::Call { call, size, now } => {
            state.client.lemma_step_wf(ClientEvent::Send { call, now });
            assert forall|i: int| 0 <= i < next.upstream.len() implies match #[trigger] next.upstream[i] {
                Upstream::Request { id, .. } => next.was_sent(id),
                Upstream::Cancel { id } => next.was_sent(id),
            } by {
                if i < state.upstream.len() {
                    assert(next.upstream[i] == state.upstream[i]);
                }
            }
        },
        ConnectionEvent::Abandon { id } => {
            state.client.lemma_step_wf(ClientEvent::Abandon { id });
            assert forall|i: int| 0 <= i < next.upstream.len() implies match #[trigger] next.upstream[i] {
                Upstream::Request { id, .. } => next.was_sent(id),
                Upstream::Cancel { id } => next.was_sent(id),
            } by {
                if i < state.upstream.len() {
                    assert(next.upstream[i] == state.upstream[i]);
                }
            }
        },
        ConnectionEvent::ClientTick { now } => {
            state.client.lemma_step_wf(ClientEvent::Tick { now });
            assert forall|i: int| 0 <= i < next.upstream.len() implies match #[trigger] next.upstream[i] {
                Upstream::Request { id, .. } => next.was_sent(id),
                Upstream::Cancel { id } => next.was_sent(id),
            } by {
                if i < state.upstream.len() {
                    assert(next.upstream[i] == state.upstream[i]);
                }
            }
        },
        ConnectionEvent::ServerReads { now } => {
            if state.upstream.len() > 0 {
                let head = state.upstream[0];
                match head {
                    Upstream::Request { id, slot, size } => {
                        state.server.lemma_step_wf(ServerEvent::Request { id, slot, size, now });
                    },
                    Upstream::Cancel { id } => {
                        state.server.lemma_step_wf(ServerEvent::Cancel { id });
                    },
                }
                assert forall|i: int| 0 <= i < next.upstream.len() implies match #[trigger] next.upstream[i] {
                    Upstream::Request { id, .. } => next.was_sent(id),
                    Upstream::Cancel { id } => next.was_sent(id),
                } by {
                    if next.upstream.len() < state.upstream.len() {
                        assert(next.upstream[i] == state.upstream[i + 1]);
                    } else {
                        assert(next.upstream[i] == state.upstream[i]);
                    }
                }
                assert forall|i: int| 0 <= i < next.downstream.len() implies next.was_sent(
                    #[trigger] next.downstream[i],
                ) by {
                    if i < state.downstream.len() {
                        assert(next.downstream[i] == state.downstream[i]);
                    }
                }
            }
        },
        ConnectionEvent::HandlerDone { id } => {
            state.server.lemma_step_wf(ServerEvent::Done { id });
            assert forall|i: int| 0 <= i < next.downstream.len() implies next.was_sent(
                #[trigger] next.downstream[i],
            ) by {
                if i < state.downstream.len() {
                    assert(next.downstream[i] == state.downstream[i]);
                }
            }
        },
        ConnectionEvent::ServerTick { now } => {
            state.server.lemma_step_wf(ServerEvent::Tick { now });
            assert forall|i: int| 0 <= i < next.downstream.len() implies next.was_sent(
                #[trigger] next.downstream[i],
            ) by {
                if i < state.downstream.len() {
                    assert(next.downstream[i] == state.downstream[i]);
                }
            }
        },
        ConnectionEvent::ClientReads => {
            if state.downstream.len() > 0 {
                state.client.lemma_step_wf(ClientEvent::Response { id: state.downstream[0] });
                assert forall|i: int| 0 <= i < next.downstream.len() implies next.was_sent(
                    #[trigger] next.downstream[i],
                ) by {
                    assert(next.downstream[i] == state.downstream[i + 1]);
                }
            }
        },
        ConnectionEvent::Shutdown => {
            state.server.lemma_step_wf(ServerEvent::Shutdown);
        },
        ConnectionEvent::Close => {
            state.client.lemma_step_wf(ClientEvent::Close);
            state.server.lemma_step_wf(ServerEvent::Terminate);
        },
    }
}

/// No response without a request, on the whole connection: whatever happens
/// and in whatever order, every response that reaches the client answers a
/// call that the client has made before, and so does every request that the
/// server works on and every cancel frame that reaches it.
pub proof fn lemma_connection_sound(
    client: Options,
    server: crate::server::Options,
    events: Seq<ConnectionEvent>,
)
    ensures
        connection_run(client, server, events).sound(),
        connection_run(client, server, events).downstream.len() > 0 ==> connection_run(
            client,
            server,
            events,
        ).was_sent(connection_run(client, server, events).downstream[0]),
    decreases events.len(),
{
    if events.len() > 0 {
        lemma_connection_sound(client, server, events.drop_last());
        lemma_step_sound(connection_run(client, server, events.drop_last()), events.last());
    }
}

} // verus!
