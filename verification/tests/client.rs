//! The client dispatcher on its own.

use tarpc::client::Client;
use tarpc::client::Completion;
use tarpc::client::Options;
use tarpc::client::Routed;
use tarpc::client::Sent;
use tarpc::client::Verdict;
use tarpc::context::Ambient;
use tarpc::context::Context;
use tarpc::context::TraceId;
use tarpc::envelope::Cancel;
use tarpc::envelope::Request;
use tarpc::envelope::Response;
use tarpc::errors::Error;
use tarpc::errors::WireError;

type TestClient = Client<u32, u32, String>;

fn ctx(deadline: u64) -> Context {
    Context { deadline, trace: TraceId(deadline) }
}

fn open(client: &mut TestClient, deadline: u64, payload: u32) -> u64 {
    match client.send(Some(ctx(deadline)), &Ambient::new(), payload, 0) {
        Sent::Enqueued(frame) => frame.id,
        other => panic!("{:?}", other),
    }
}

#[test]
fn default_options() {
    let options = Options::default();
    assert_eq!(options.max_in_flight_requests, 1000);
    assert_eq!(options.request_timeout_default, 10_000_000_000);
    assert_eq!(options.outbound_buffer, 100);
    assert!(!options.strict);
}

#[test]
fn option_builders_set_one_field_each() {
    let options = Options::default()
        .max_in_flight_requests(2)
        .request_timeout_default(5)
        .outbound_buffer(3)
        .strict(true);
    assert_eq!(
        options,
        Options { max_in_flight_requests: 2, request_timeout_default: 5, outbound_buffer: 3, strict: true }
    );
}

#[test]
fn a_new_client_has_seen_nothing() {
    let client = TestClient::new(Options::default());
    assert_eq!(client.next_id(), 0);
    assert_eq!(client.in_flight(), 0);
    assert!(!client.is_closed());
    assert_eq!(client.fatal(), None);
    assert_eq!(client.next_deadline(), None);
    assert_eq!(client.options(), Options::default());
}

#[test]
fn send_builds_the_request_frame() {
    let mut client = TestClient::new(Options::default());
    let sent = client.send(Some(ctx(50)), &Ambient::new(), 17, 10);
    assert_eq!(
        sent,
        Sent::Enqueued(Request { id: 0, context: ctx(50), deadline: 50, payload: 17 })
    );
    assert!(client.is_pending(0));
    assert_eq!(client.next_id(), 1);
}

#[test]
fn send_takes_the_current_context_when_none_is_given() {
    let mut client = TestClient::new(Options::default());
    let mut ambient = Ambient::new();
    ambient.set(ctx(70));
    match client.send(None, &ambient, 1, 10) {
        Sent::Enqueued(frame) => {
            assert_eq!(frame.context, ctx(70));
            assert_eq!(frame.deadline, 70);
        }
        other => panic!("{:?}", other),
    }
    // The context that is given with the call comes first.
    match client.send(Some(ctx(80)), &ambient, 1, 10) {
        Sent::Enqueued(frame) => assert_eq!(frame.context, ctx(80)),
        other => panic!("{:?}", other),
    }
}

#[test]
fn send_without_any_context_uses_the_default_timeout() {
    let mut client = TestClient::new(Options::default().request_timeout_default(25));
    match client.send(None, &Ambient::new(), 1, 100) {
        Sent::Enqueued(frame) => {
            assert_eq!(frame.deadline, 125);
            assert_eq!(frame.context, Context { deadline: 125, trace: TraceId(0) });
        }
        other => panic!("{:?}", other),
    }
}

#[test]
fn expired_deadline_at_send_never_opens_a_call() {
    let mut client = TestClient::new(Options::default());
    assert_eq!(
        client.send(Some(ctx(10)), &Ambient::new(), 1, 10),
        Sent::Failed(Error::DeadlineExceeded)
    );
    assert_eq!(
        client.send(Some(ctx(10)), &Ambient::new(), 1, 11),
        Sent::Failed(Error::DeadlineExceeded)
    );
    assert_eq!(client.next_id(), 0);
    assert_eq!(client.in_flight(), 0);
    // One nanosecond before the deadline the call is still made.
    assert!(matches!(client.send(Some(ctx(10)), &Ambient::new(), 1, 9), Sent::Enqueued(_)));
}

#[test]
fn a_full_table_holds_the_call_back() {
    let mut client = TestClient::new(Options::default().max_in_flight_requests(2));
    let first = open(&mut client, 100, 1);
    open(&mut client, 100, 2);
    assert_eq!(client.send(Some(ctx(100)), &Ambient::new(), 3, 0), Sent::Suspended(3));
    assert_eq!(client.next_id(), 2);
    assert_eq!(client.in_flight(), 2);
    // Once a call is over the same call goes through.
    assert!(matches!(
        client.on_response(Response { id: first, result: Ok(0) }),
        Routed::Delivered(_)
    ));
    assert_eq!(
        client.send(Some(ctx(100)), &Ambient::new(), 3, 0),
        Sent::Enqueued(Request { id: 2, context: ctx(100), deadline: 100, payload: 3 })
    );
}

#[test]
fn a_client_without_room_suspends_every_call() {
    let mut client = TestClient::new(Options::default().max_in_flight_requests(0));
    assert_eq!(client.send(Some(ctx(100)), &Ambient::new(), 3, 0), Sent::Suspended(3));
}

#[test]
fn identifiers_are_never_reused() {
    let mut client = TestClient::new(Options::default());
    let mut seen = Vec::new();
    for round in 0..20u32 {
        let id = open(&mut client, 100, round);
        assert!(!seen.contains(&id));
        assert_eq!(id, seen.len() as u64);
        seen.push(id);
        if round % 2 == 0 {
            assert!(matches!(
                client.on_response(Response { id, result: Ok(round) }),
                Routed::Delivered(_)
            ));
        }
    }
    assert_eq!(client.next_id(), 20);
    assert_eq!(client.in_flight(), 10);
}

#[test]
fn a_response_reaches_the_slot_of_its_own_call_only() {
    let mut client = TestClient::new(Options::default());
    let a = open(&mut client, 100, 1);
    let b = open(&mut client, 100, 2);
    let c = open(&mut client, 100, 3);
    assert_eq!(
        client.on_response(Response { id: b, result: Ok(22) }),
        Routed::Delivered(Completion { id: b, result: Ok(22) })
    );
    assert!(client.is_pending(a));
    assert!(!client.is_pending(b));
    assert!(client.is_pending(c));
    // A second response for the same call finds no slot.
    assert_eq!(client.on_response(Response { id: b, result: Ok(23) }), Routed::Discarded);
    assert!(client.is_pending(a));
    assert!(client.is_pending(c));
}

#[test]
fn responses_map_to_the_errors_of_the_caller() {
    let mut client = TestClient::new(Options::default());
    let a = open(&mut client, 100, 1);
    let b = open(&mut client, 100, 2);
    let c = open(&mut client, 100, 3);
    assert_eq!(
        client.on_response(Response { id: a, result: Err(WireError::Application("no".to_string())) }),
        Routed::Delivered(Completion { id: a, result: Err(Error::Application("no".to_string())) })
    );
    assert_eq!(
        client.on_response(Response { id: b, result: Err(WireError::DeadlineExceeded) }),
        Routed::Delivered(Completion { id: b, result: Err(Error::DeadlineExceeded) })
    );
    assert_eq!(
        client.on_response(Response { id: c, result: Err(WireError::PayloadTooLarge) }),
        Routed::Delivered(Completion { id: c, result: Err(Error::PayloadTooLarge) })
    );
}

#[test]
fn map_err_keeps_what_succeeded() {
    assert_eq!(TestClient::map_err(Ok(5)), Ok(5));
    assert_eq!(TestClient::map_err(Err(WireError::PayloadTooLarge)), Err(Error::PayloadTooLarge));
    assert_eq!(
        TestClient::map_err(Err(WireError::Application("x".to_string()))),
        Err(Error::Application("x".to_string()))
    );
}

#[test]
fn an_unknown_response_is_dropped_by_default() {
    let mut client = TestClient::new(Options::default());
    assert_eq!(client.on_response(Response { id: 5, result: Ok(1) }), Routed::Discarded);
    assert!(!client.is_closed());
    assert_eq!(client.fatal(), None);
}

#[test]
fn an_unknown_response_ends_a_strict_client() {
    let mut client = TestClient::new(Options::default().strict(true));
    let open_call = open(&mut client, 100, 1);
    assert_eq!(client.on_response(Response { id: 5, result: Ok(1) }), Routed::Violation);
    assert!(client.is_closed());
    assert_eq!(client.fatal(), Some(Error::ProtocolViolation));
    assert_eq!(
        client.send(Some(ctx(100)), &Ambient::new(), 1, 0),
        Sent::Failed(Error::Disconnected)
    );
    // The call that was open ends when the driver closes the dispatcher.
    assert_eq!(
        client.close(),
        vec![Completion { id: open_call, result: Err(Error::Disconnected) }]
    );
    assert_eq!(client.fatal(), Some(Error::ProtocolViolation));
}

#[test]
fn expire_takes_the_earliest_deadline_first() {
    let mut client = TestClient::new(Options::default());
    let a = open(&mut client, 300, 1);
    let b = open(&mut client, 100, 2);
    let c = open(&mut client, 200, 3);
    assert_eq!(client.next_deadline(), Some(100));
    assert!(client.expire(99).is_none());

    let first = client.expire(1000).unwrap();
    assert_eq!(first.completion, Completion { id: b, result: Err(Error::DeadlineExceeded) });
    assert_eq!(first.cancel, Cancel { id: b, trace: TraceId(100) });
    let second = client.expire(1000).unwrap();
    assert_eq!(second.completion.id, c);
    let third = client.expire(1000).unwrap();
    assert_eq!(third.completion.id, a);
    assert!(client.expire(1000).is_none());
    assert_eq!(client.next_deadline(), None);
}

#[test]
fn equal_deadlines_expire_by_identifier() {
    let mut client = TestClient::new(Options::default());
    let a = open(&mut client, 100, 1);
    let b = open(&mut client, 100, 2);
    assert_eq!(client.expire(100).unwrap().cancel.id, a);
    assert_eq!(client.expire(100).unwrap().cancel.id, b);
}

#[test]
fn expire_leaves_calls_that_are_not_due() {
    let mut client = TestClient::new(Options::default());
    let a = open(&mut client, 100, 1);
    let b = open(&mut client, 200, 2);
    assert_eq!(client.expire(150).unwrap().completion.id, a);
    assert!(client.expire(150).is_none());
    assert!(client.is_pending(b));
}

#[test]
fn abandon_is_a_no_op_for_a_call_that_is_over() {
    let mut client = TestClient::new(Options::default());
    let a = open(&mut client, 100, 1);
    assert_eq!(client.abandon(a), Some(Cancel { id: a, trace: TraceId(100) }));
    assert_eq!(client.abandon(a), None);
    assert_eq!(client.abandon(77), None);
    assert_eq!(client.in_flight(), 0);
}

#[test]
fn a_refused_frame_ends_the_call_with_payload_too_large() {
    let mut client = TestClient::new(Options::default());
    let a = open(&mut client, 100, 1);
    assert_eq!(
        client.reject(a),
        Some(Completion { id: a, result: Err(Error::PayloadTooLarge) })
    );
    assert_eq!(client.reject(a), None);
    assert!(!client.is_pending(a));
}

#[test]
fn close_ends_every_open_call_with_disconnected() {
    let mut client = TestClient::new(Options::default());
    let mut ids = Vec::new();
    for n in 0..7u32 {
        ids.push(open(&mut client, 100 + n as u64, n));
    }
    assert!(matches!(
        client.on_response(Response { id: ids[3], result: Ok(0) }),
        Routed::Delivered(_)
    ));
    let over = client.close();
    assert_eq!(over.len(), 6);
    let expected: Vec<u64> = vec![0, 1, 2, 4, 5, 6];
    for (completion, id) in over.iter().zip(expected) {
        assert_eq!(completion.id, id);
        assert_eq!(completion.result, Err(Error::Disconnected));
    }
    assert_eq!(client.in_flight(), 0);
    // Closing twice ends nothing twice.
    assert!(client.close().is_empty());
}

#[test]
fn every_call_ends_exactly_once() {
    let mut client = TestClient::new(Options::default());
    let mut ended = vec![0u32; 6];
    for n in 0..6u32 {
        open(&mut client, 100 * (n as u64 + 1), n);
    }
    if let Routed::Delivered(c) = client.on_response(Response { id: 0, result: Ok(1) }) {
        ended[c.id as usize] += 1;
    }
    if let Routed::Delivered(c) = client.on_response(Response { id: 0, result: Ok(1) }) {
        ended[c.id as usize] += 1;
    }
    if let Some(e) = client.expire(200) {
        ended[e.completion.id as usize] += 1;
    }
    if client.abandon(2).is_some() {
        ended[2] += 1;
    }
    if client.abandon(2).is_some() {
        ended[2] += 1;
    }
    if let Some(c) = client.reject(3) {
        ended[c.id as usize] += 1;
    }
    for c in client.close() {
        ended[c.id as usize] += 1;
    }
    assert_eq!(ended, vec![1, 1, 1, 1, 1, 1]);
}

#[test]
fn a_stray_frame_ends_the_client() {
    let mut client = TestClient::new(Options::default());
    let a = open(&mut client, 100, 1);
    client.on_stray();
    assert!(client.is_closed());
    assert_eq!(client.fatal(), Some(Error::ProtocolViolation));
    assert!(client.is_pending(a));
    assert_eq!(client.close(), vec![Completion { id: a, result: Err(Error::Disconnected) }]);
}

#[test]
fn judge_tells_what_send_will_do() {
    let mut client = TestClient::new(Options::default().max_in_flight_requests(1));
    assert_eq!(client.judge(ctx(100), 0), Verdict::Accepted);
    assert_eq!(client.judge(ctx(100), 100), Verdict::Expired);
    open(&mut client, 100, 1);
    assert_eq!(client.judge(ctx(100), 0), Verdict::Full);
    assert_eq!(client.judge(ctx(100), 100), Verdict::Expired);
    client.close();
    assert_eq!(client.judge(ctx(100), 0), Verdict::Closed);
}
