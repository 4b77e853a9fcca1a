//! The server's end of a connection: the dispatcher together with the bounded
//! queue of responses towards the transport. No answer is lost: what would
//! need room in a full queue is handed back until the queue has drained.

use crate::envelope::Envelope;
use crate::envelope::Request;
use crate::envelope::Response;
use crate::errors::WireError;
use crate::queue::Outbound;
use crate::server::spec_wire_result;
use crate::server::Admission;
use crate::server::Options;
use crate::server::Phase;
use crate::server::Ruling;
use crate::server::Server;
use crate::server::ServerState;
use crate::table::is_earliest;
use crate::table::lists_keys;
use crate::table::Slot;
use vstd::prelude::*;

verus! {

/// What the endpoint decides when a frame arrives.
#[derive(Debug, PartialEq, Eq)]
pub enum Inbound<Req, Resp, E> {
    /// A request is in flight. Its handler is to be started, with the context
    /// of the request as the current one.
    Start(Request<Req>),
    /// The request was cancelled. The handler of this identifier is to be
    /// aborted; nothing is written for it.
    Abort(u64),
    /// The request is answered at once; the response waits in the queue.
    Answered,
    /// Nothing has changed, and the frame is handed back: as many handlers run
    /// as may, or the queue has no room for the answer. The frame is to be
    /// offered again, and no further frame read, until a handler is done or
    /// the queue has drained.
    Held(Envelope<Req, Resp, E>),
    /// The peer broke the protocol. The connection is closed; every handler
    /// is to be aborted, and the frames that waited are dropped.
    Violation,
    /// The frame asks for nothing: a cancel frame for a request that is not
    /// in flight, or a request on a connection that no longer serves.
    Dropped,
}

/// What the endpoint decides when a handler returns.
#[derive(Debug, PartialEq, Eq)]
pub enum Finished<Resp, E> {
    /// The response waits in the queue.
    Answered,
    /// The request is no longer in flight: it was cancelled, or given up at
    /// its deadline. What the handler returned is dropped.
    Discarded,
    /// The queue has no room. Nothing has changed; what the handler returned
    /// is handed back, to be offered again when the queue has drained.
    Held(Result<Resp, E>),
}

/// Every frame of a server's queue is a response.
pub open spec fn only_responses<Req, Resp, E>(queue: Seq<Envelope<Req, Resp, E>>) -> bool {
    forall|i: int| 0 <= i < queue.len() ==> (#[trigger] queue[i]) is Response
}

/// The server's end of a connection.
pub struct ServerEndpoint<Req, Resp, E> {
    dispatcher: Server<Req, Resp, E>,
    outbound: Outbound<Envelope<Req, Resp, E>>,
}

impl<Req, Resp, E> ServerEndpoint<Req, Resp, E> {
    /// The state of the dispatcher.
    pub closed spec fn state(&self) -> ServerState {
        self.dispatcher@
    }

    /// The frames that wait for the transport, the oldest first.
    pub closed spec fn queue(&self) -> Seq<Envelope<Req, Resp, E>> {
        self.outbound@
    }

    /// Whether the queue has room for a frame.
    pub open spec fn has_room(&self) -> bool {
        self.queue().len() < self.state().options.pending_response_buffer
    }

    /// The representation is sound, the queue is no longer than may be and
    /// holds responses only, and nothing waits on a closed connection.
    pub closed spec fn wf(&self) -> bool {
        &&& self.dispatcher.wf()
        &&& self.outbound.wf()
        &&& self.outbound.capacity() == self.dispatcher@.options.pending_response_buffer
        &&& only_responses(self.outbound@)
        &&& self.dispatcher@.phase == Phase::Closed ==> self.outbound@.len() == 0
    }

    /// What is known of every endpoint.
    pub proof fn lemma_wf(&self)
        requires
            self.wf(),
        ensures
            self.state().wf(),
            self.queue().len() <= self.state().options.pending_response_buffer,
            only_responses(self.queue()),
            self.state().phase == Phase::Closed ==> self.queue().len() == 0,
    {
        self.dispatcher.lemma_wf();
        self.outbound.lemma_bounded();
    }

    /// An endpoint that has seen nothing yet.
    pub fn new(options: Options) -> (endpoint: Self)
        ensures
            endpoint.wf(),
            endpoint.state() == ServerState::init(options),
            endpoint.queue() == Seq::<Envelope<Req, Resp, E>>::empty(),
    {
        ServerEndpoint {
            dispatcher: Server::new(options),
            outbound: Outbound::new(options.pending_response_buffer),
        }
    }

    /// Puts a response at the end of the queue, which has room for it.
    fn answer(&mut self, response: Response<Resp, E>)
        requires
            old(self).wf(),
            old(self).has_room(),
            old(self).state().phase != Phase::Closed,
        ensures
            final(self).wf(),
            final(self).state() == old(self).state(),
            final(self).queue() == old(self).queue().push(Envelope::Response(response)),
    {
        let ghost before = self.outbound@;
        let _ = self.outbound.offer(Envelope::Response(response));
        proof {
            let after = self.outbound@;
            assert forall|i: int| 0 <= i < after.len() implies (#[trigger] after[i]) is Response by {
                if i < before.len() {
                    assert(after[i] == before[i]);
                }
            }
        }
    }

    /// A frame of `size` bytes has arrived at `now`.
    ///
    /// A request that the dispatcher would answer at once is handed back while
    /// the queue has no room for the answer; so is one that finds as many
    /// handlers running as may. Otherwise the dispatcher decides about a
    /// request, and about a cancel frame. A response is a frame that no client
    /// sends: it closes the connection with a protocol violation, as a request
    /// does whose identifier is in flight.
    pub fn on_frame(&mut self, frame: Envelope<Req, Resp, E>, size: u64, now: u64) -> (inbound: Inbound<
        Req,
        Resp,
        E,
    >)
        requires
            old(self).wf(),
        ensures
            final(self).wf(),
            ({
                let state = old(self).state();
                match frame {
                    Envelope::Request(request) => {
                        let slot = Slot { deadline: request.deadline, trace: request.context.trace };
                        match state.ruling(request.id, request.deadline, size, now) {
                            Ruling::Admitted => inbound == Inbound::<Req, Resp, E>::Start(request)
                                && final(self).state() == state.after_request(
                                request.id,
                                slot,
                                size,
                                now,
                            ) && final(self).queue() == old(self).queue(),
                            Ruling::Full => inbound == Inbound::<Req, Resp, E>::Held(frame) && final(self).state() == state && final(self).queue() == old(self).queue(),
                            Ruling::TooLarge | Ruling::Late => if old(self).has_room() {
                                &&& inbound == Inbound::<Req, Resp, E>::Answered
                                &&& final(self).state() == state
                                &&& state.admission::<Req, Resp, E>(request, size, now)
                                    matches Admission::Refused(response)
                                &&& final(self).queue() == old(self).queue().push(
                                    Envelope::Response(response),
                                )
                            } else {
                                &&& inbound == Inbound::<Req, Resp, E>::Held(frame)
                                &&& final(self).state() == state
                                &&& final(self).queue() == old(self).queue()
                            },
                            Ruling::Duplicate => inbound == Inbound::<Req, Resp, E>::Violation
                                && final(self).state() == state.after_violation() && final(self).queue() == Seq::<Envelope<Req, Resp, E>>::empty(),
                            Ruling::NotServing => inbound == Inbound::<Req, Resp, E>::Dropped
                                && final(self).state() == state && final(self).queue() == old(self).queue(),
                        }
                    },
                    Envelope::Cancel(cancel) => {
                        &&& final(self).state() == state.after_drop(cancel.id)
                        &&& final(self).queue() == old(self).queue()
                        &&& inbound == match state.cancelled(cancel.id) {
                            Some(id) => Inbound::<Req, Resp, E>::Abort(id),
                            None => Inbound::<Req, Resp, E>::Dropped,
                        }
                    },
                    Envelope::Response(_) => {
                        &&& inbound == Inbound::<Req, Resp, E>::Violation
                        &&& final(self).state() == state.after_violation()
                        &&& final(self).queue() == Seq::<Envelope<Req, Resp, E>>::empty()
                    },
                }
            }),
    {
        proof {
            self.dispatcher.lemma_wf();
        }
        match frame {
            Envelope::Request(request) => {
                let room = self.outbound.is_ready();
                match self.dispatcher.judge(request.id, request.deadline, size, now) {
                    Ruling::TooLarge | Ruling::Late => {
                        if !room {
                            return Inbound::Held(Envelope::Request(request));
                        }
                    },
                    _ => {},
                }
                match self.dispatcher.on_request(request, size, now) {
                    Admission::Start(job) => Inbound::Start(job),
                    Admission::Suspended(back) => Inbound::Held(Envelope::Request(back)),
                    Admission::Refused(response) => {
                        self.answer(response);
                        Inbound::Answered
                    },
                    Admission::Violation => {
                        self.outbound.clear();
                        Inbound::Violation
                    },
                    Admission::Ignored => Inbound::Dropped,
                }
            },
            Envelope::Cancel(cancel) => {
                match self.dispatcher.on_cancel(cancel) {
                    Some(id) => Inbound::Abort(id),
                    None => Inbound::Dropped,
                }
            },
            Envelope::Response(_) => {
                self.dispatcher.on_stray();
                self.outbound.clear();
                Inbound::Violation
            },
        }
    }

    /// The handler of `id` has returned. While the request is in flight and
    /// the queue has no room, what it returned is handed back. Otherwise the
    /// dispatcher decides, and the response that it writes is put at the end
    /// of the queue.
    pub fn finish(&mut self, id: u64, result: Result<Resp, E>) -> (finished: Finished<Resp, E>)
        requires
            old(self).wf(),
        ensures
            final(self).wf(),
            ({
                let state = old(self).state();
                if !state.in_flight.contains_key(id) {
                    &&& finished == Finished::<Resp, E>::Discarded
                    &&& final(self).state() == state
                    &&& final(self).queue() == old(self).queue()
                } else if !old(self).has_room() {
                    &&& finished == Finished::<Resp, E>::Held(result)
                    &&& final(self).state() == state
                    &&& final(self).queue() == old(self).queue()
                } else {
                    &&& finished == Finished::<Resp, E>::Answered
                    &&& final(self).state() == state.after_drop(id)
                    &&& final(self).queue() == old(self).queue().push(
                        Envelope::Response(Response { id, result: spec_wire_result(result) }),
                    )
                }
            }),
    {
        proof {
            self.dispatcher.lemma_wf();
        }
        if !self.dispatcher.is_in_flight(id) {
            return Finished::Discarded;
        }
        if !self.outbound.is_ready() {
            return Finished::Held(result);
        }
        match self.dispatcher.on_handler_done(id, result) {
            Some(response) => {
                proof {
                    self.dispatcher.lemma_wf();
                }
                self.answer(response);
                Finished::Answered
            },
            None => Finished::Discarded,
        }
    }

    /// The clock reads `now`. If the queue has room and the request that is
    /// due first is over by then, it leaves the table and is answered with
    /// `DeadlineExceeded`; its handler, whose identifier is handed out, is to
    /// be aborted. While the queue has no room, nothing is given up.
    pub fn tick(&mut self, now: u64) -> (abort: Option<u64>)
        requires
            old(self).wf(),
        ensures
            final(self).wf(),
            ({
                let state = old(self).state();
                if !old(self).has_room() {
                    &&& abort is None
                    &&& final(self).state() == state
                    &&& final(self).queue() == old(self).queue()
                } else {
                    &&& abort == state.due(now)
                    &&& final(self).state() == state.after_expire(now)
                    &&& final(self).queue() == match state.due(now) {
                        Some(id) => old(self).queue().push(
                            Envelope::Response(
                                Response { id, result: Err(WireError::DeadlineExceeded) },
                            ),
                        ),
                        None => old(self).queue(),
                    }
                }
            }),
    {
        proof {
            self.dispatcher.lemma_wf();
        }
        if !self.outbound.is_ready() {
            return None;
        }
        let ghost in_flight = self.dispatcher@.in_flight;
        match self.dispatcher.expire(now) {
            Some(response) => {
                let id = response.id;
                proof {
                    self.dispatcher.lemma_wf();
                    assert(in_flight.contains_key(id));
                }
                self.answer(response);
                Some(id)
            },
            None => None,
        }
    }

    /// Takes the frame that has waited longest, for the sink of the transport.
    pub fn next_frame(&mut self) -> (frame: Option<Envelope<Req, Resp, E>>)
        requires
            old(self).wf(),
        ensures
            final(self).wf(),
            final(self).state() == old(self).state(),
            old(self).queue().len() == 0 ==> frame is None && final(self).queue() == old(self).queue(),
            old(self).queue().len() > 0 ==> frame == Some(old(self).queue()[0]) && final(self).queue()
                == old(self).queue().subrange(1, old(self).queue().len() as int),
    {
        let ghost before = self.outbound@;
        let frame = self.outbound.take();
        proof {
            let after = self.outbound@;
            if before.len() > 0 {
                assert forall|i: int| 0 <= i < after.len() implies (#[trigger] after[i])
                    is Response by {
                    assert(after[i] == before[i + 1]);
                }
            }
        }
        frame
    }

    /// The inbound side has ended, or a shutdown was asked for: a serving
    /// connection drains from now on.
    pub fn shutdown(&mut self)
        requires
            old(self).wf(),
        ensures
            final(self).wf(),
            final(self).state() == old(self).state().after_shutdown(),
            final(self).queue() == old(self).queue(),
    {
        self.dispatcher.shutdown();
    }

    /// Closes a draining connection once no handler runs, the queue is empty
    /// and the transport has written out what it was given (`sink_flushed`);
    /// says whether it closed.
    pub fn try_close(&mut self, sink_flushed: bool) -> (closed: bool)
        requires
            old(self).wf(),
        ensures
            final(self).wf(),
            final(self).queue() == old(self).queue(),
            final(self).state() == old(self).state().after_try_close(
                sink_flushed && old(self).queue().len() == 0,
            ),
            closed == old(self).state().may_close(sink_flushed && old(self).queue().len() == 0),
    {
        let flushed = sink_flushed && self.outbound.is_flushed();
        self.dispatcher.try_close(flushed)
    }

    /// The transport has failed. The connection is closed; the handlers of the
    /// requests in flight, listed by ascending identifier, are to be aborted,
    /// and the frames that waited are dropped.
    pub fn terminate(&mut self) -> (aborted: Vec<u64>)
        requires
            old(self).wf(),
        ensures
            final(self).wf(),
            final(self).state() == old(self).state().after_terminate(),
            final(self).queue() == Seq::<Envelope<Req, Resp, E>>::empty(),
            lists_keys(aborted@, old(self).state().in_flight),
            aborted@.len() == old(self).state().in_flight.len(),
    {
        self.outbound.clear();
        self.dispatcher.terminate()
    }

    /// Whether the queue has room for an answer.
    pub fn is_ready(&self) -> (ready: bool)
        requires
            self.wf(),
        ensures
            ready == self.has_room(),
    {
        self.outbound.is_ready()
    }

    /// Whether a frame may be read from the transport: the connection serves,
    /// and the queue has room for an answer.
    pub fn may_read(&self) -> (ready: bool)
        requires
            self.wf(),
        ensures
            ready == (self.state().phase == Phase::Serving && self.has_room()),
    {
        match self.dispatcher.phase() {
            Phase::Serving => self.outbound.is_ready(),
            _ => false,
        }
    }

    /// When the next request in flight is over, if any is in flight: the
    /// instant for which the driver sets its timer.
    pub fn next_deadline(&self) -> (deadline: Option<u64>)
        requires
            self.wf(),
        ensures
            deadline is None <==> self.state().in_flight == Map::<u64, Slot>::empty(),
            deadline matches Some(d) ==> exists|id: u64|
                is_earliest(self.state().in_flight, id) && self.state().in_flight[id].deadline == d,
    {
        self.dispatcher.next_deadline()
    }

    /// The dispatcher of the endpoint, to be asked about its state.
    pub fn dispatcher(&self) -> (dispatcher: &Server<Req, Resp, E>)
        requires
            self.wf(),
        ensures
            dispatcher.wf(),
            dispatcher@ == self.state(),
    {
        &self.dispatcher
    }
}

} // verus!
