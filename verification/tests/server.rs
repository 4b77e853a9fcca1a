//! The server dispatcher on its own.

use tarpc::context::Context;
use tarpc::context::TraceId;
use tarpc::envelope::Cancel;
use tarpc::envelope::Request;
use tarpc::envelope::Response;
use tarpc::errors::WireError;
use tarpc::server::Admission;
use tarpc::server::Options;
use tarpc::server::Phase;
use tarpc::server::Ruling;
use tarpc::server::Server;

type TestServer = Server<u32, u32, String>;

fn request(id: u64, deadline: u64, payload: u32) -> Request<u32> {
    Request { id, context: Context { deadline, trace: TraceId(id) }, deadline, payload }
}

fn start(server: &mut TestServer, id: u64, deadline: u64) {
    match server.on_request(request(id, deadline, 0), 8, 0) {
        Admission::Start(job) => assert_eq!(job.id, id),
        other => panic!("{:?}", other),
    }
}

#[test]
fn default_server_options() {
    let options = Options::default();
    assert_eq!(options.max_in_flight_requests, u32::MAX);
    assert_eq!(options.max_payload_size, 2_000_000);
    assert_eq!(options.pending_response_buffer, 100);
}

#[test]
fn server_option_builders_set_one_field_each() {
    let options = Options::default()
        .max_payload_size(64)
        .max_in_flight_requests(3)
        .pending_response_buffer(9);
    assert_eq!(
        options,
        Options { max_in_flight_requests: 3, max_payload_size: 64, pending_response_buffer: 9 }
    );
}

#[test]
fn a_new_server_serves() {
    let server = TestServer::new(Options::default());
    assert_eq!(server.phase(), Phase::Serving);
    assert_eq!(server.in_flight(), 0);
    assert!(!server.violated());
    assert_eq!(server.next_deadline(), None);
    assert_eq!(server.options(), Options::default());
}

#[test]
fn an_admitted_request_is_handed_to_the_handler_as_it_came() {
    let mut server = TestServer::new(Options::default());
    let frame = request(4, 100, 55);
    assert_eq!(server.on_request(frame.clone(), 8, 10), Admission::Start(frame));
    assert!(server.is_in_flight(4));
    assert_eq!(server.in_flight(), 1);
}

#[test]
fn exactly_one_response_for_a_request() {
    let mut server = TestServer::new(Options::default());
    start(&mut server, 4, 100);
    assert_eq!(server.on_handler_done(4, Ok(7)), Some(Response { id: 4, result: Ok(7) }));
    assert_eq!(server.on_handler_done(4, Ok(7)), None);
    assert!(server.expire(1000).is_none());
    assert!(!server.is_in_flight(4));
}

#[test]
fn a_handler_error_travels_as_an_application_error() {
    let mut server = TestServer::new(Options::default());
    start(&mut server, 4, 100);
    assert_eq!(
        server.on_handler_done(4, Err("nope".to_string())),
        Some(Response { id: 4, result: Err(WireError::Application("nope".to_string())) })
    );
    assert_eq!(TestServer::wire_result(Ok(1)), Ok(1));
    assert_eq!(
        TestServer::wire_result(Err("e".to_string())),
        Err(WireError::Application("e".to_string()))
    );
}

#[test]
fn no_response_for_a_request_that_never_came() {
    let mut server = TestServer::new(Options::default());
    assert_eq!(server.on_handler_done(9, Ok(1)), None);
    assert_eq!(server.on_cancel(Cancel { id: 9, trace: TraceId(0) }), None);
    assert!(server.expire(u64::MAX).is_none());
}

#[test]
fn an_oversized_request_is_refused() {
    let mut server = TestServer::new(Options::default().max_payload_size(64));
    assert_eq!(
        server.on_request(request(1, 100, 0), 65, 0),
        Admission::Refused(Response { id: 1, result: Err(WireError::PayloadTooLarge) })
    );
    assert!(!server.is_in_flight(1));
    // A payload of exactly the limit is taken.
    assert!(matches!(server.on_request(request(1, 100, 0), 64, 0), Admission::Start(_)));
}

#[test]
fn a_late_request_is_answered_without_a_handler() {
    let mut server = TestServer::new(Options::default());
    assert_eq!(
        server.on_request(request(1, 100, 0), 8, 100),
        Admission::Refused(Response { id: 1, result: Err(WireError::DeadlineExceeded) })
    );
    assert_eq!(server.in_flight(), 0);
    assert!(matches!(server.on_request(request(1, 100, 0), 8, 99), Admission::Start(_)));
}

#[test]
fn a_duplicate_identifier_closes_the_connection() {
    let mut server = TestServer::new(Options::default());
    start(&mut server, 1, 100);
    start(&mut server, 2, 100);
    assert_eq!(server.on_request(request(1, 100, 0), 8, 0), Admission::Violation);
    assert_eq!(server.phase(), Phase::Closed);
    assert!(server.violated());
    assert_eq!(server.in_flight(), 0);
    // Nothing is answered on a closed connection.
    assert_eq!(server.on_handler_done(2, Ok(1)), None);
    assert_eq!(server.on_request(request(3, 100, 0), 8, 0), Admission::Ignored);
}

#[test]
fn an_identifier_may_come_again_once_its_request_is_over() {
    let mut server = TestServer::new(Options::default());
    start(&mut server, 1, 100);
    assert!(server.on_handler_done(1, Ok(1)).is_some());
    start(&mut server, 1, 100);
    assert!(!server.violated());
}

#[test]
fn the_request_beyond_the_limit_waits_and_is_not_dropped() {
    let mut server = TestServer::new(Options::default().max_in_flight_requests(2));
    start(&mut server, 1, 100);
    start(&mut server, 2, 100);
    let third = request(3, 100, 33);
    let held = match server.on_request(third.clone(), 8, 0) {
        Admission::Suspended(frame) => frame,
        other => panic!("{:?}", other),
    };
    assert_eq!(held, third);
    assert_eq!(server.in_flight(), 2);
    assert!(!server.is_in_flight(3));
    // Still full: it waits on.
    let held = match server.on_request(held, 8, 0) {
        Admission::Suspended(frame) => frame,
        other => panic!("{:?}", other),
    };
    // A slot frees, and the request that waited is admitted.
    assert!(server.on_handler_done(1, Ok(0)).is_some());
    assert_eq!(server.on_request(held, 8, 0), Admission::Start(third));
    assert!(server.is_in_flight(3));
}

#[test]
fn cancel_twice_is_cancel_once() {
    let mut server = TestServer::new(Options::default());
    start(&mut server, 1, 100);
    start(&mut server, 2, 100);
    let cancel = Cancel { id: 1, trace: TraceId(1) };
    assert_eq!(server.on_cancel(cancel), Some(1));
    assert_eq!(server.in_flight(), 1);
    assert_eq!(server.on_cancel(cancel), None);
    assert_eq!(server.in_flight(), 1);
    assert!(server.is_in_flight(2));
    assert_eq!(server.phase(), Phase::Serving);
    // Nothing is written for the request that was cancelled.
    assert_eq!(server.on_handler_done(1, Ok(1)), None);
}

#[test]
fn deadlines_are_enforced_earliest_first() {
    let mut server = TestServer::new(Options::default());
    start(&mut server, 1, 300);
    start(&mut server, 2, 100);
    start(&mut server, 3, 100);
    assert_eq!(server.next_deadline(), Some(100));
    assert!(server.expire(99).is_none());
    assert_eq!(
        server.expire(100),
        Some(Response { id: 2, result: Err(WireError::DeadlineExceeded) })
    );
    assert_eq!(
        server.expire(100),
        Some(Response { id: 3, result: Err(WireError::DeadlineExceeded) })
    );
    assert!(server.expire(100).is_none());
    assert_eq!(server.next_deadline(), Some(300));
    assert!(server.is_in_flight(1));
}

#[test]
fn a_connection_drains_and_then_closes() {
    let mut server = TestServer::new(Options::default());
    start(&mut server, 1, 100);
    assert!(!server.try_close(true));
    assert_eq!(server.phase(), Phase::Serving);

    server.shutdown();
    assert_eq!(server.phase(), Phase::Draining);
    // A draining connection takes no new request.
    assert_eq!(server.on_request(request(2, 100, 0), 8, 0), Admission::Ignored);
    // It does not close while a handler runs, nor before the queue is written out.
    assert!(!server.try_close(true));
    assert_eq!(server.on_handler_done(1, Ok(5)), Some(Response { id: 1, result: Ok(5) }));
    assert!(!server.try_close(false));
    assert_eq!(server.phase(), Phase::Draining);
    assert!(server.try_close(true));
    assert_eq!(server.phase(), Phase::Closed);
    // Closed is final.
    server.shutdown();
    assert_eq!(server.phase(), Phase::Closed);
    assert!(!server.try_close(true));
}

#[test]
fn a_failed_transport_aborts_every_handler() {
    let mut server = TestServer::new(Options::default());
    start(&mut server, 5, 100);
    start(&mut server, 2, 100);
    start(&mut server, 9, 100);
    assert_eq!(server.terminate(), vec![2, 5, 9]);
    assert_eq!(server.phase(), Phase::Closed);
    assert_eq!(server.in_flight(), 0);
    assert!(!server.violated());
    assert_eq!(server.on_handler_done(5, Ok(1)), None);
    assert!(server.terminate().is_empty());
}

#[test]
fn a_stray_frame_closes_the_connection() {
    let mut server = TestServer::new(Options::default());
    start(&mut server, 1, 100);
    server.on_stray();
    assert_eq!(server.phase(), Phase::Closed);
    assert!(server.violated());
    assert_eq!(server.in_flight(), 0);
}

#[test]
fn judge_tells_what_on_request_will_do() {
    let mut server = TestServer::new(Options::default().max_in_flight_requests(1).max_payload_size(10));
    assert_eq!(server.judge(1, 100, 8, 0), Ruling::Admitted);
    assert_eq!(server.judge(1, 100, 11, 0), Ruling::TooLarge);
    assert_eq!(server.judge(1, 100, 11, 100), Ruling::TooLarge);
    assert_eq!(server.judge(1, 100, 8, 100), Ruling::Late);
    start(&mut server, 1, 100);
    assert_eq!(server.judge(1, 100, 8, 0), Ruling::Duplicate);
    assert_eq!(server.judge(2, 100, 8, 0), Ruling::Full);
    server.shutdown();
    assert_eq!(server.judge(2, 100, 8, 0), Ruling::NotServing);
}
