//! The client's end of a connection: the dispatcher together with the bounded
//! queue of frames towards the transport. What the driver of a connection has
//! to decide is decided here; the driver only moves frames and reads clocks.

use crate::client::Client;
use crate::client::ClientState;
use crate::client::Completion;
use crate::client::Options;
use crate::client::Routed;
use crate::client::Sent;
use crate::client::Verdict;
use crate::context::resolve;
use crate::context::spec_resolve;
use crate::context::Ambient;
use crate::context::Context;
use crate::context::TraceId;
use crate::envelope::Cancel;
use crate::envelope::Envelope;
use crate::errors::Error;
use crate::queue::Outbound;
use crate::table::is_earliest;
use crate::table::lists_keys;
use crate::table::Slot;
use vstd::prelude::*;

verus! {

/// What the endpoint decides when a call is made.
#[derive(Debug, PartialEq, Eq)]
pub enum Called<Req, E> {
    /// The call is open under this identifier, and its request frame waits
    /// in the queue.
    Opened(u64),
    /// The call is held back: as many calls are open as may be, or the queue
    /// has no room for the frame. Nothing has changed; the payload is handed
    /// back.
    Suspended(Req),
    /// The call is over before it began, with this error. No frame is written.
    Failed(Error<E>),
}

/// The frames of a client's queue stand in the order of their calls: none is
/// a response, and the requests among them carry ascending identifiers, all of
/// which were given out.
pub open spec fn requests_in_order<Req, Resp, E>(
    queue: Seq<Envelope<Req, Resp, E>>,
    next_id: u64,
) -> bool {
    &&& forall|i: int| 0 <= i < queue.len() ==> !(#[trigger] queue[i] is Response)
    &&& forall|i: int|
        0 <= i < queue.len() && (#[trigger] queue[i]) is Request ==> queue[i].spec_id() < next_id
    &&& forall|i: int, j: int|
        0 <= i < j < queue.len() && (#[trigger] queue[i]) is Request && (#[trigger] queue[j])
            is Request ==> queue[i].spec_id() < queue[j].spec_id()
}

/// The client's end of a connection.
pub struct ClientEndpoint<Req, Resp, E> {
    dispatcher: Client<Req, Resp, E>,
    outbound: Outbound<Envelope<Req, Resp, E>>,
}

impl<Req, Resp, E> ClientEndpoint<Req, Resp, E> {
    /// The state of the dispatcher.
    pub closed spec fn state(&self) -> ClientState {
        self.dispatcher@
    }

    /// The frames that wait for the transport, the oldest first.
    pub closed spec fn queue(&self) -> Seq<Envelope<Req, Resp, E>> {
        self.outbound@
    }

    /// Whether the queue has room for a frame.
    pub open spec fn has_room(&self) -> bool {
        self.queue().len() < self.state().options.outbound_buffer
    }

    /// The representation is sound, the queue is no longer than may be, and
    /// its frames stand in the order of their calls.
    pub closed spec fn wf(&self) -> bool {
        &&& self.dispatcher.wf()
        &&& self.outbound.wf()
        &&& self.outbound.capacity() == self.dispatcher@.options.outbound_buffer
        &&& requests_in_order(self.outbound@, self.dispatcher@.next_id)
    }

    /// Request frames reach the transport in the order in which their calls
    /// were made: in the queue they stand by ascending identifier, behind
    /// every request that has left it.
    pub proof fn lemma_requests_in_order(&self)
        requires
            self.wf(),
        ensures
            self.state().wf(),
            self.queue().len() <= self.state().options.outbound_buffer,
            requests_in_order(self.queue(), self.state().next_id),
    {
        self.dispatcher.lemma_wf();
        self.outbound.lemma_bounded();
    }

    /// An endpoint that has seen nothing yet.
    pub fn new(options: Options) -> (endpoint: Self)
        ensures
            endpoint.wf(),
            endpoint.state() == ClientState::init(options),
            endpoint.queue() == Seq::<Envelope<Req, Resp, E>>::empty(),
    {
        ClientEndpoint {
            dispatcher: Client::new(options),
            outbound: Outbound::new(options.outbound_buffer),
        }
    }

    /// A call is made at `now`. Its context is the one given, else the current
    /// one, else a fresh one with the default timeout.
    ///
    /// A call that the dispatcher would open is held back while the queue has
    /// no room for its frame. Otherwise the dispatcher decides, and the frame
    /// of a call that it opens is put at the end of the queue.
    pub fn call(&mut self, context: Option<Context>, ambient: &Ambient, payload: Req, now: u64) -> (called:
        Called<Req, E>)
        requires
            old(self).wf(),
        ensures
            final(self).wf(),
            ({
                let state = old(self).state();
                let call = spec_resolve(context, ambient@, now, state.options.request_timeout_default);
                if state.verdict(call, now) is Accepted && !old(self).has_room() {
                    &&& called == Called::<Req, E>::Suspended(payload)
                    &&& final(self).state() == state
                    &&& final(self).queue() == old(self).queue()
                } else {
                    &&& final(self).state() == state.after_send(call, now)
                    &&& match state.sent::<Req, E>(call, now, payload) {
                        Sent::Enqueued(frame) => called == Called::<Req, E>::Opened(frame.id)
                            && final(self).queue() == old(self).queue().push(
                            Envelope::Request(frame),
                        ),
                        Sent::Suspended(back) => called == Called::<Req, E>::Suspended(back)
                            && final(self).queue() == old(self).queue(),
                        Sent::Failed(error) => called == Called::<Req, E>::Failed(error)
                            && final(self).queue() == old(self).queue(),
                    }
                }
            }),
    {
        let call = resolve(context, ambient.capture(), now, self.dispatcher.options().request_timeout_default);
        let room = self.outbound.is_ready();
        match self.dispatcher.judge(call, now) {
            Verdict::Accepted => {
                if !room {
                    return Called::Suspended(payload);
                }
            },
            _ => {},
        }
        proof {
            self.dispatcher.lemma_wf();
        }
        match self.dispatcher.send(Some(call), ambient, payload, now) {
            Sent::Enqueued(frame) => {
                let id = frame.id;
                let ghost before = self.outbound@;
                let _ = self.outbound.offer(Envelope::Request(frame));
                proof {
                    let after = self.outbound@;
                    assert(after == before.push(Envelope::Request(frame)));
                    assert forall|i: int, j: int|
                        0 <= i < j < after.len() && (#[trigger] after[i]) is Request && (
                        #[trigger] after[j]) is Request implies after[i].spec_id()
                        < after[j].spec_id() by {
                        if j < before.len() {
                            assert(after[i] == before[i] && after[j] == before[j]);
                        } else {
                            assert(after[i] == before[i]);
                        }
                    }
                    assert forall|i: int| 0 <= i < after.len() implies !(#[trigger] after[i]
                        is Response) by {
                        if i < before.len() {
                            assert(after[i] == before[i]);
                        }
                    }
                    assert forall|i: int|
                        0 <= i < after.len() && (#[trigger] after[i]) is Request implies after[i].spec_id()
                        < self.dispatcher@.next_id by {
                        if i < before.len() {
                            assert(after[i] == before[i]);
                        }
                    }
                }
                Called::Opened(id)
            },
            Sent::Suspended(back) => Called::Suspended(back),
            Sent::Failed(error) => Called::Failed(error),
        }
    }

    /// A frame has arrived. A response is routed by the dispatcher; any other
    /// frame is one that no server sends, and ends the dispatcher with a
    /// protocol violation.
    pub fn on_frame(&mut self, frame: Envelope<Req, Resp, E>) -> (routed: Routed<Resp, E>)
        requires
            old(self).wf(),
        ensures
            final(self).wf(),
            final(self).queue() == old(self).queue(),
            match frame {
                Envelope::Response(response) => final(self).state() == old(self).state().after_response(
                    response.id,
                ) && routed == old(self).state().routed(response),
                _ => final(self).state() == old(self).state().after_stray() && routed == Routed::<
                    Resp,
                    E,
                >::Violation,
            },
    {
        match frame {
            Envelope::Response(response) => self.dispatcher.on_response(response),
            _ => {
                self.dispatcher.on_stray();
                Routed::Violation
            },
        }
    }

    /// Puts a cancel frame at the end of the queue, if there is room: a cancel
    /// frame that finds none is dropped.
    fn cancel(&mut self, id: u64, trace: TraceId)
        requires
            old(self).wf(),
        ensures
            final(self).wf(),
            final(self).state() == old(self).state(),
            final(self).queue() == if old(self).has_room() {
                old(self).queue().push(Envelope::Cancel(Cancel { id, trace }))
            } else {
                old(self).queue()
            },
    {
        let ghost before = self.outbound@;
        let frame = Envelope::Cancel(Cancel { id, trace });
        let _ = self.outbound.offer(frame);
        proof {
            let after = self.outbound@;
            if after != before {
                assert(after == before.push(frame));
                assert forall|i: int, j: int|
                    0 <= i < j < after.len() && (#[trigger] after[i]) is Request && (
                    #[trigger] after[j]) is Request implies after[i].spec_id()
                    < after[j].spec_id() by {
                    assert(after[i] == before[i]);
                    if j < before.len() {
                        assert(after[j] == before[j]);
                    }
                }
                assert forall|i: int| 0 <= i < after.len() implies !(#[trigger] after[i]
                    is Response) by {
                    if i < before.len() {
                        assert(after[i] == before[i]);
                    }
                }
                assert forall|i: int|
                    0 <= i < after.len() && (#[trigger] after[i]) is Request implies after[i].spec_id()
                    < self.dispatcher@.next_id by {
                    if i < before.len() {
                        assert(after[i] == before[i]);
                    }
                }
            }
        }
    }

    /// The clock reads `now`. If the call that is due first is over by then,
    /// it ends with `DeadlineExceeded`, and a cancel frame for it is put in
    /// the queue if there is room.
    pub fn tick(&mut self, now: u64) -> (over: Option<Completion<Resp, E>>)
        requires
            old(self).wf(),
        ensures
            final(self).wf(),
            final(self).state() == old(self).state().after_expire(now),
            match old(self).state().expiry::<Resp, E>(now) {
                Some(expired) => over == Some(expired.completion) && final(self).queue() == if old(self).has_room() {
                    old(self).queue().push(Envelope::Cancel(expired.cancel))
                } else {
                    old(self).queue()
                },
                None => over is None && final(self).queue() == old(self).queue(),
            },
    {
        match self.dispatcher.expire(now) {
            Some(expired) => {
                self.cancel(expired.cancel.id, expired.cancel.trace);
                Some(expired.completion)
            },
            None => None,
        }
    }

    /// The caller of `id` no longer waits. If the call is open, it is over,
    /// and a cancel frame for it is put in the queue if there is room. Says
    /// whether the call was open.
    pub fn abandon(&mut self, id: u64) -> (open: bool)
        requires
            old(self).wf(),
        ensures
            final(self).wf(),
            final(self).state() == old(self).state().after_drop(id),
            open == old(self).state().pending.contains_key(id),
            final(self).queue() == match old(self).state().abandoned(id) {
                Some(cancel) => if old(self).has_room() {
                    old(self).queue().push(Envelope::Cancel(cancel))
                } else {
                    old(self).queue()
                },
                None => old(self).queue(),
            },
    {
        match self.dispatcher.abandon(id) {
            Some(cancel) => {
                self.cancel(cancel.id, cancel.trace);
                true
            },
            None => false,
        }
    }

    /// The framing has refused the request `id` for its size. If the call is
    /// open, it ends with `PayloadTooLarge`.
    pub fn reject(&mut self, id: u64) -> (over: Option<Completion<Resp, E>>)
        requires
            old(self).wf(),
        ensures
            final(self).wf(),
            final(self).state() == old(self).state().after_drop(id),
            final(self).queue() == old(self).queue(),
            over == old(self).state().rejected::<Resp, E>(id),
    {
        self.dispatcher.reject(id)
    }

    /// Takes the frame that has waited longest, for the sink of the transport.
    pub fn next_frame(&mut self) -> (frame: Option<Envelope<Req, Resp, E>>)
        requires
            old(self).wf(),
        ensures
            final(self).wf(),
            final(self).state() == old(self).state(),
            old(self).queue().len() == 0 ==> frame is None && final(self).queue() == old(self).queue(),
            old(self).queue().len() > 0 ==> frame == Some(old(self).queue()[0]) && final(self).queue()
                == old(self).queue().subrange(1, old(self).queue().len() as int),
    {
        let ghost before = self.outbound@;
        let frame = self.outbound.take();
        proof {
            let after = self.outbound@;
            if before.len() > 0 {
                assert forall|i: int, j: int|
                    0 <= i < j < after.len() && (#[trigger] after[i]) is Request && (
                    #[trigger] after[j]) is Request implies after[i].spec_id()
                    < after[j].spec_id() by {
                    assert(after[i] == before[i + 1] && after[j] == before[j + 1]);
                }
                assert forall|i: int| 0 <= i < after.len() implies !(#[trigger] after[i]
                    is Response) by {
                    assert(after[i] == before[i + 1]);
                }
                assert forall|i: int|
                    0 <= i < after.len() && (#[trigger] after[i]) is Request implies after[i].spec_id()
                    < self.dispatcher@.next_id by {
                    assert(after[i] == before[i + 1]);
                }
            }
        }
        frame
    }

    /// The transport has ended. Every open call ends with `Disconnected`; the
    /// calls are listed by ascending identifier. The frames that still wait
    /// are dropped, and no call can be made after this.
    pub fn close(&mut self) -> (over: Vec<Completion<Resp, E>>)
        requires
            old(self).wf(),
        ensures
            final(self).wf(),
            final(self).state() == old(self).state().after_close(),
            final(self).queue() == Seq::<Envelope<Req, Resp, E>>::empty(),
            over@.len() == old(self).state().pending.len(),
            lists_keys(over@.map_values(|c: Completion<Resp, E>| c.id), old(self).state().pending),
            forall|i: int|
                0 <= i < over@.len() ==> (#[trigger] over@[i]).result == Err::<Resp, Error<E>>(
                    Error::Disconnected,
                ),
    {
        self.outbound.clear();
        self.dispatcher.close()
    }

    /// When the next open call is over, if any call is open: the instant for
    /// which the driver sets its timer.
    pub fn next_deadline(&self) -> (deadline: Option<u64>)
        requires
            self.wf(),
        ensures
            deadline is None <==> self.state().pending == Map::<u64, Slot>::empty(),
            deadline matches Some(d) ==> exists|id: u64|
                is_earliest(self.state().pending, id) && self.state().pending[id].deadline == d,
    {
        self.dispatcher.next_deadline()
    }

    /// Whether every frame has been handed to the transport.
    pub fn is_flushed(&self) -> (flushed: bool)
        requires
            self.wf(),
        ensures
            flushed == (self.queue().len() == 0),
    {
        self.outbound.is_flushed()
    }

    /// The dispatcher of the endpoint, to be asked about its state.
    pub fn dispatcher(&self) -> (dispatcher: &Client<Req, Resp, E>)
        requires
            self.wf(),
        ensures
            dispatcher.wf(),
            dispatcher@ == self.state(),
    {
        &self.dispatcher
    }
}

} // verus!
