use wsbench::coordinator::ConnCounters;
use wsbench::engine::BenchEngine;
use wsbench::frames::{InboundEvent, decode_frame};
use wsbench::metrics::ErrorTally;
use wsbench::worker::{ConnectionPhase, ConnectionWorker, WorkerAction, WorkerEvent, prepare_request};

fn no_errors() -> ErrorTally {
    ErrorTally { connection_errors: 0, send_errors: 0, read_errors: 0, parse_errors: 0 }
}

/// Walk one connection through its handshake against a well-behaved server.
fn handshake(w: &mut ConnectionWorker) {
    let act = w.step(WorkerEvent::ConnectSucceeded);
    assert!(matches!(act, Some(WorkerAction::SendIdentify)));
    assert_eq!(w.phase, ConnectionPhase::HandshakeSent);
    assert!(w.step(WorkerEvent::IdentifySent).is_none());
    assert_eq!(w.phase, ConnectionPhase::AwaitingAuth);
    let hello = decode_frame("{\"op\":10,\"d\":{\"heartbeat_interval\":41250}}");
    match w.step(WorkerEvent::Inbound(hello)) {
        Some(WorkerAction::StartHeartbeat { interval_ms }) => assert_eq!(interval_ms, 41250),
        other => panic!("expected a heartbeat action, got {:?}", other),
    }
    let auth = decode_frame("{\"op\":2,\"d\":{\"uuid\":\"u-1\"}}");
    let act = w.step(WorkerEvent::Inbound(auth));
    assert!(matches!(act, Some(WorkerAction::BeginStreaming)));
    assert_eq!(w.phase, ConnectionPhase::Authenticated);
    assert!(w.step(WorkerEvent::EmissionStarted).is_none());
    assert_eq!(w.phase, ConnectionPhase::Streaming);
}

#[test]
fn echoing_transport_resolves_every_request() {
    // three connections, two requests each, no pacing, no ramp-up, against
    // a transport that echoes every request frame back within a millisecond
    let connections: u64 = 3;
    let per_connection: u64 = 2;
    let mut engine = BenchEngine::new();
    let mut counters = ConnCounters::new(connections);
    let mut now_us: u64 = 0;
    for conn in 0..connections {
        let mut w = ConnectionWorker::new(conn, per_connection);
        handshake(&mut w);
        counters.connection_opened();
        for _ in 0..per_connection {
            let out = prepare_request(&mut engine, conn, 7, "benchmark_user",
                "Benchmark test message", now_us);
            let echoed = decode_frame(&out.frame);
            assert!(matches!(echoed, InboundEvent::Response { benchmark_id: Some(_) }));
            match w.step(WorkerEvent::Inbound(echoed)) {
                Some(WorkerAction::ResolveResponse { benchmark_id }) => {
                    assert_eq!(engine.process_response(&benchmark_id, now_us + 1_000),
                        Some(1_000));
                },
                other => panic!("expected a resolve action, got {:?}", other),
            }
            now_us += 1_000;
        }
        // observing the quota-filling response drains the connection
        assert_eq!(w.phase, ConnectionPhase::Draining);
        assert!(w.step(WorkerEvent::TasksFinished).is_none());
        assert_eq!(w.phase, ConnectionPhase::Closed);
        counters.connection_completed(true);
    }
    assert!(counters.run_complete());
    let summary = engine.summarize(6);
    assert_eq!(summary.total_requests, connections * per_connection);
    assert_eq!(summary.successful_requests, connections * per_connection);
    assert_eq!(summary.failed_requests, 0);
    assert_eq!(summary.error_rates, no_errors());
    assert!(summary.min_latency_us <= summary.average_latency_us);
    assert!(summary.average_latency_us <= summary.max_latency_us);
}

#[test]
fn failing_transport_still_yields_a_summary() {
    // every connect attempt fails: the run still completes and reports one
    // connection error per connection, with no successes
    let connections: u64 = 4;
    let mut engine = BenchEngine::new();
    let mut counters = ConnCounters::new(connections);
    for conn in 0..connections {
        let mut w = ConnectionWorker::new(conn, 100);
        match w.step(WorkerEvent::ConnectFailed) {
            Some(WorkerAction::TallyError { kind }) => engine.record_error(kind),
            other => panic!("expected an error tally, got {:?}", other),
        }
        assert_eq!(w.phase, ConnectionPhase::Closed);
        counters.connection_completed(false);
    }
    assert!(counters.run_complete());
    let summary = engine.summarize(50);
    assert_eq!(summary.successful_requests, 0);
    assert_eq!(summary.total_requests, 0);
    assert_eq!(summary.error_rates.connection_errors, connections);
    assert_eq!(summary.requests_per_second_milli, 0);
}

#[test]
fn silent_server_never_starts_streaming() {
    // the server accepts identification but never sends an auth-success
    // control frame: the connection never streams, contributes no requests,
    // and the run still terminates when the stream ends
    let connections: u64 = 2;
    let mut engine = BenchEngine::new();
    let mut counters = ConnCounters::new(connections);
    for conn in 0..connections {
        let mut w = ConnectionWorker::new(conn, 100);
        assert!(matches!(w.step(WorkerEvent::ConnectSucceeded),
            Some(WorkerAction::SendIdentify)));
        counters.connection_opened();
        assert!(w.step(WorkerEvent::IdentifySent).is_none());
        let hello = decode_frame("{\"op\":10,\"d\":{\"heartbeat_interval\":41250}}");
        assert!(matches!(w.step(WorkerEvent::Inbound(hello)),
            Some(WorkerAction::StartHeartbeat { .. })));
        assert_eq!(w.phase, ConnectionPhase::AwaitingAuth);
        // draining is triggered by the stream's end, not by any quota
        assert!(w.step(WorkerEvent::StreamEnded).is_none());
        assert_eq!(w.phase, ConnectionPhase::Draining);
        assert!(w.step(WorkerEvent::TasksFinished).is_none());
        assert_eq!(w.phase, ConnectionPhase::Closed);
        counters.connection_completed(true);
    }
    assert!(counters.run_complete());
    let summary = engine.summarize(10);
    assert_eq!(summary.total_requests, 0);
    assert_eq!(summary.successful_requests, 0);
    assert_eq!(summary.error_rates, no_errors());
}

#[test]
fn malformed_frames_are_tallied_and_ignored() {
    let mut engine = BenchEngine::new();
    let mut w = ConnectionWorker::new(0, 5);
    handshake(&mut w);
    let bad = decode_frame("this is not json");
    match w.step(WorkerEvent::Inbound(bad)) {
        Some(WorkerAction::TallyError { kind }) => engine.record_error(kind),
        other => panic!("expected an error tally, got {:?}", other),
    }
    // no state transition and no quota progress
    assert_eq!(w.phase, ConnectionPhase::Streaming);
    assert_eq!(w.responses_seen, 0);
    assert_eq!(engine.summarize(1).error_rates.parse_errors, 1);
}

#[test]
fn midstream_write_failure_drains_and_is_tallied() {
    let mut engine = BenchEngine::new();
    let mut w = ConnectionWorker::new(0, 5);
    handshake(&mut w);
    let out = prepare_request(&mut engine, 0, 7, "u", "t", 10);
    assert_eq!(out.benchmark_id, "0_0");
    // the write of that frame fails: the request stays pending forever
    match w.step(WorkerEvent::SendFailed) {
        Some(WorkerAction::TallyError { kind }) => engine.record_error(kind),
        other => panic!("expected an error tally, got {:?}", other),
    }
    assert_eq!(w.phase, ConnectionPhase::Draining);
    let summary = engine.summarize(1);
    assert_eq!(summary.total_requests, 1);
    assert_eq!(summary.successful_requests, 0);
    assert_eq!(summary.failed_requests, 1);
    assert_eq!(summary.error_rates.send_errors, 1);
}

#[test]
fn read_error_drains_the_connection() {
    let mut w = ConnectionWorker::new(0, 5);
    handshake(&mut w);
    match w.step(WorkerEvent::ReadFailed) {
        Some(WorkerAction::TallyError { kind }) => {
            assert_eq!(kind, wsbench::metrics::ErrorKind::ReadError)
        },
        other => panic!("expected an error tally, got {:?}", other),
    }
    assert_eq!(w.phase, ConnectionPhase::Draining);
}

#[test]
fn second_hello_does_not_restart_the_heartbeat() {
    let mut w = ConnectionWorker::new(0, 5);
    handshake(&mut w);
    let hello = decode_frame("{\"op\":10,\"d\":{\"heartbeat_interval\":500}}");
    assert!(w.step(WorkerEvent::Inbound(hello)).is_none());
}

#[test]
fn auth_success_is_honoured_once() {
    let mut w = ConnectionWorker::new(0, 5);
    handshake(&mut w);
    // a second auth-success mid-stream neither acts nor changes state
    let auth = decode_frame("{\"op\":2,\"d\":{\"uuid\":\"again\"}}");
    assert!(w.step(WorkerEvent::Inbound(auth)).is_none());
    assert_eq!(w.phase, ConnectionPhase::Streaming);
}
