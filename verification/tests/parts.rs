//! The smaller parts: the table of calls, the queue, contexts, envelopes and
//! errors.

use std::time::Duration;
use std::time::SystemTime;
use tarpc::context::context_propagating;
use tarpc::context::deadline_after;
use tarpc::context::expired;
use tarpc::context::remaining;
use tarpc::context::resolve;
use tarpc::context::Ambient;
use tarpc::context::Context;
use tarpc::context::TraceId;
use tarpc::envelope::Cancel;
use tarpc::envelope::Direction;
use tarpc::envelope::Envelope;
use tarpc::envelope::Request;
use tarpc::envelope::Response;
use tarpc::errors::Error;
use tarpc::errors::IoError;
use tarpc::errors::IoErrorKind;
use tarpc::errors::TlsError;
use tarpc::errors::WireError;
use tarpc::native_to_io;
use tarpc::queue::Outbound;
use tarpc::table::CallTable;
use tarpc::table::Slot;
use tarpc::util::or_zero;
use tarpc::util::AsDuration;

fn slot(deadline: u64) -> Slot {
    Slot { deadline, trace: TraceId(deadline + 1) }
}

#[test]
fn propagate() {
    let mut ambient = Ambient::new();
    let ctx = Context { deadline: 5_000_000_000, trace: TraceId(11) };
    ambient.set(ctx);
    let propagate = context_propagating(&ambient, |slot: &Ambient| slot.capture());
    let no_propagate = |slot: &Ambient| slot.capture();
    let new_ctx = Context { deadline: 0, trace: TraceId(12) };
    ambient.set(new_ctx);

    let ctx2 = propagate.run(&mut ambient).unwrap();
    assert!(ctx.deadline == ctx2.deadline);
    assert!(ctx.trace == ctx2.trace);

    let ctx2 = no_propagate(&ambient).unwrap();
    assert!(new_ctx.deadline == ctx2.deadline);
    assert!(new_ctx.trace == ctx2.trace);
}

#[test]
fn run_with_restores_the_former_context() {
    let mut ambient = Ambient::new();
    let outer = Context { deadline: 1, trace: TraceId(1) };
    let inner = Context { deadline: 2, trace: TraceId(2) };
    assert_eq!(ambient.capture(), None);
    let seen = ambient.run_with(inner, |slot: &Ambient| slot.capture());
    assert_eq!(seen, Some(inner));
    assert_eq!(ambient.capture(), None);

    ambient.set(outer);
    let seen = ambient.run_with(inner, |slot: &Ambient| slot.capture());
    assert_eq!(seen, Some(inner));
    assert_eq!(ambient.capture(), Some(outer));

    ambient.restore(None);
    assert_eq!(ambient.capture(), None);
}

#[test]
fn time_left_until_a_deadline() {
    assert_eq!(remaining(10, 3), 7);
    assert_eq!(remaining(10, 10), 0);
    assert_eq!(remaining(3, 10), 0);
    assert_eq!(remaining(u64::MAX, 0), u64::MAX);
}

#[test]
fn deadline_after_a_timeout() {
    assert_eq!(deadline_after(100, 25), 125);
    assert_eq!(deadline_after(u64::MAX, 1), u64::MAX);
    assert_eq!(deadline_after(u64::MAX - 1, 1), u64::MAX);
    assert_eq!(deadline_after(0, 0), 0);
}

#[test]
fn a_deadline_is_over_when_the_clock_reaches_it() {
    assert!(!expired(10, 9));
    assert!(expired(10, 10));
    assert!(expired(10, 11));
}

#[test]
fn the_given_context_comes_before_the_current_one() {
    let given = Context { deadline: 1, trace: TraceId(1) };
    let current = Context { deadline: 2, trace: TraceId(2) };
    assert_eq!(resolve(Some(given), Some(current), 0, 5), given);
    assert_eq!(resolve(None, Some(current), 0, 5), current);
    assert_eq!(resolve(Some(given), None, 0, 5), given);
    assert_eq!(resolve(None, None, 7, 5), Context { deadline: 12, trace: TraceId(0) });
}

#[test]
fn the_table_keeps_what_is_put_in() {
    let mut table = CallTable::new();
    assert!(table.is_empty());
    assert!(table.insert(5, slot(50)));
    assert!(table.insert(1, slot(10)));
    assert!(table.insert(9, slot(90)));
    assert_eq!(table.len(), 3);
    assert!(table.contains(1) && table.contains(5) && table.contains(9));
    assert!(!table.contains(2));
    assert_eq!(table.get(5), Some(slot(50)));
    assert_eq!(table.get(2), None);
    assert_eq!(table.ids(), vec![1, 5, 9]);
}

#[test]
fn the_table_does_not_overwrite() {
    let mut table = CallTable::new();
    assert!(table.insert(5, slot(50)));
    assert!(!table.insert(5, slot(60)));
    assert_eq!(table.get(5), Some(slot(50)));
    assert_eq!(table.len(), 1);
}

#[test]
fn the_table_removes_one_call_at_a_time() {
    let mut table = CallTable::new();
    for id in [4u64, 2, 8, 6] {
        assert!(table.insert(id, slot(id)));
    }
    assert_eq!(table.remove(2), Some(slot(2)));
    assert_eq!(table.remove(2), None);
    assert_eq!(table.remove(7), None);
    assert_eq!(table.ids(), vec![4, 6, 8]);
    table.clear();
    assert!(table.is_empty());
    assert_eq!(table.ids(), Vec::<u64>::new());
}

#[test]
fn the_table_finds_the_call_that_is_due_first() {
    let mut table = CallTable::new();
    assert_eq!(table.earliest(), None);
    assert!(table.insert(3, slot(70)));
    assert!(table.insert(1, slot(90)));
    assert!(table.insert(7, slot(70)));
    assert!(table.insert(5, slot(80)));
    assert_eq!(table.earliest(), Some((3, slot(70))));
    table.remove(3);
    assert_eq!(table.earliest(), Some((7, slot(70))));
    table.remove(7);
    assert_eq!(table.earliest(), Some((5, slot(80))));
}

#[test]
fn a_full_queue_hands_the_frame_back() {
    let mut queue: Outbound<u32> = Outbound::new(2);
    assert!(queue.is_ready());
    assert!(queue.is_flushed());
    assert_eq!(queue.offer(1), Ok(()));
    assert_eq!(queue.offer(2), Ok(()));
    assert!(!queue.is_ready());
    assert_eq!(queue.offer(3), Err(3));
    assert_eq!(queue.len(), 2);
    assert_eq!(queue.take(), Some(1));
    assert!(queue.is_ready());
    assert_eq!(queue.offer(3), Ok(()));
    assert_eq!(queue.take(), Some(2));
    assert_eq!(queue.take(), Some(3));
    assert_eq!(queue.take(), None);
    assert!(queue.is_flushed());
}

#[test]
fn a_cleared_queue_is_empty() {
    let mut queue: Outbound<u32> = Outbound::new(3);
    assert_eq!(queue.offer(1), Ok(()));
    assert_eq!(queue.offer(2), Ok(()));
    queue.clear();
    assert!(queue.is_flushed());
    assert_eq!(queue.len(), 0);
    assert_eq!(queue.take(), None);
    assert_eq!(queue.offer(3), Ok(()));
    assert_eq!(queue.take(), Some(3));
}

#[test]
fn a_queue_without_room_takes_nothing() {
    let mut queue: Outbound<u32> = Outbound::new(0);
    assert!(!queue.is_ready());
    assert_eq!(queue.offer(1), Err(1));
    assert_eq!(queue.take(), None);
}

#[test]
fn envelopes_know_their_call_and_their_direction() {
    let context = Context { deadline: 9, trace: TraceId(2) };
    let request: Envelope<u32, u32, String> =
        Envelope::Request(Request { id: 3, context, deadline: 9, payload: 1 });
    let cancel: Envelope<u32, u32, String> = Envelope::Cancel(Cancel { id: 4, trace: TraceId(2) });
    let response: Envelope<u32, u32, String> = Envelope::Response(Response { id: 5, result: Ok(1) });
    assert_eq!(request.id(), 3);
    assert_eq!(cancel.id(), 4);
    assert_eq!(response.id(), 5);
    assert_eq!(request.direction(), Direction::ClientToServer);
    assert_eq!(cancel.direction(), Direction::ClientToServer);
    assert_eq!(response.direction(), Direction::ServerToClient);
}

#[test]
fn wire_errors_become_errors_of_the_caller() {
    assert_eq!(Error::<String>::from_wire(WireError::DeadlineExceeded), Error::DeadlineExceeded);
    assert_eq!(Error::<String>::from_wire(WireError::PayloadTooLarge), Error::PayloadTooLarge);
    assert_eq!(
        Error::from_wire(WireError::Application("x".to_string())),
        Error::Application("x".to_string())
    );
}

#[test]
fn every_error_has_a_description() {
    assert_eq!(
        Error::<String>::Disconnected.description(),
        "the transport closed while the call was open"
    );
    assert_eq!(
        Error::<String>::DeadlineExceeded.description(),
        "the deadline passed before an answer came"
    );
    assert_eq!(
        Error::Application("x".to_string()).description(),
        "the server answered with an error"
    );
    assert_eq!(Error::<String>::PayloadTooLarge.description(), "the request is too large");
    assert_eq!(Error::<String>::ProtocolViolation.description(), "the peer broke the protocol");
}

#[test]
fn a_transport_failure_reaches_the_caller_as_disconnected() {
    let failure = IoError::new(IoErrorKind::ConnectionReset, "reset".to_string());
    assert_eq!(failure.kind, IoErrorKind::ConnectionReset);
    assert_eq!(failure.message, "reset");
    let error: Error<String> = Error::from(failure);
    assert_eq!(error, Error::Disconnected);
}

#[test]
fn a_tls_failure_becomes_a_transport_failure_of_kind_other() {
    let failure = native_to_io(TlsError { message: "handshake failed".to_string() });
    assert_eq!(failure.kind, IoErrorKind::Other);
    assert_eq!(failure.message, "handshake failed");
    let other = IoError::other("x".to_string());
    assert_eq!(other.kind, IoErrorKind::Other);
    assert_eq!(other.message, "x");
}

#[test]
fn an_instant_in_the_past_leaves_no_time() {
    assert_eq!(SystemTime::UNIX_EPOCH.as_duration(), Duration::from_secs(0));
}

#[test]
fn an_instant_in_the_future_leaves_some_time() {
    let later = SystemTime::now() + Duration::from_secs(3600);
    let left = later.as_duration();
    assert!(left > Duration::from_secs(3000));
    assert!(left <= Duration::from_secs(3600));
}

#[test]
fn a_missing_span_counts_as_no_time() {
    assert_eq!(or_zero(None), Duration::from_secs(0));
    assert_eq!(or_zero(Some(Duration::from_millis(5))), Duration::from_millis(5));
}
