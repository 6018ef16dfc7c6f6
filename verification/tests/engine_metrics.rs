use wsbench::engine::BenchEngine;
use wsbench::metrics::{ErrorKind, MetricsAggregator};

#[test]
fn issue_then_resolve_counts_one_success() {
    let mut engine = BenchEngine::new();
    let k = engine.issue_request(5, 1_000);
    assert_eq!(k, 0);
    let id = wsbench::ids::make_benchmark_id(5, k);
    let latency = engine.process_response(&id, 3_500);
    assert_eq!(latency, Some(2_500));
    let summary = engine.summarize(10);
    assert_eq!(summary.total_requests, 1);
    assert_eq!(summary.successful_requests, 1);
    assert_eq!(summary.failed_requests, 0);
    assert_eq!(summary.min_latency_us, 2_500);
    assert_eq!(summary.max_latency_us, 2_500);
    assert_eq!(summary.average_latency_us, 2_500);
}

#[test]
fn duplicate_resolution_changes_nothing() {
    let mut engine = BenchEngine::new();
    let k = engine.issue_request(1, 100);
    let id = wsbench::ids::make_benchmark_id(1, k);
    assert_eq!(engine.process_response(&id, 200), Some(100));
    // a duplicate response never double-counts, whatever the clock reads
    assert_eq!(engine.process_response(&id, 900), None);
    assert_eq!(engine.process_response(&id, 200), None);
    let summary = engine.summarize(1);
    assert_eq!(summary.successful_requests, 1);
    assert_eq!(summary.total_requests, 1);
}

#[test]
fn unknown_and_foreign_identifiers_resolve_nothing() {
    let mut engine = BenchEngine::new();
    let k = engine.issue_request(2, 100);
    // right counter, wrong connection index
    let foreign = wsbench::ids::make_benchmark_id(3, k);
    assert_eq!(engine.process_response(&foreign, 200), None);
    assert_eq!(engine.process_response("2_99", 200), None);
    assert_eq!(engine.process_response("not-an-id", 200), None);
    let summary = engine.summarize(1);
    assert_eq!(summary.successful_requests, 0);
    assert_eq!(summary.total_requests, 1);
    assert_eq!(summary.failed_requests, 1);
}

#[test]
fn counters_and_identifiers_are_globally_unique() {
    let mut engine = BenchEngine::new();
    let a = engine.issue_request(0, 0);
    let b = engine.issue_request(1, 0);
    let c = engine.issue_request(0, 0);
    assert_eq!((a, b, c), (0, 1, 2));
    assert_ne!(
        wsbench::ids::make_benchmark_id(0, a),
        wsbench::ids::make_benchmark_id(0, c)
    );
}

#[test]
fn summary_of_empty_run_has_no_undefined_figures() {
    let engine = BenchEngine::new();
    let summary = engine.summarize(0);
    assert_eq!(summary.total_requests, 0);
    assert_eq!(summary.successful_requests, 0);
    assert_eq!(summary.min_latency_us, 0);
    assert_eq!(summary.average_latency_us, 0);
    assert_eq!(summary.max_latency_us, 0);
    assert_eq!(summary.requests_per_second_milli, 0);
}

#[test]
fn throughput_is_successes_per_second() {
    let mut engine = BenchEngine::new();
    for i in 0..4u64 {
        let k = engine.issue_request(0, i * 10);
        let id = wsbench::ids::make_benchmark_id(0, k);
        engine.process_response(&id, i * 10 + 5);
    }
    // 4 successes over 2 seconds: 2 requests per second
    let summary = engine.summarize(2_000);
    assert_eq!(summary.requests_per_second_milli, 2_000);
    // zero elapsed time yields zero, not a division error
    assert_eq!(engine.summarize(0).requests_per_second_milli, 0);
}

#[test]
fn latency_figures_are_exact_and_ordered() {
    let mut engine = BenchEngine::new();
    let samples: [u64; 3] = [300, 100, 200];
    for (i, lat) in samples.iter().enumerate() {
        let k = engine.issue_request(0, (i as u64) * 1_000);
        let id = wsbench::ids::make_benchmark_id(0, k);
        assert_eq!(engine.process_response(&id, (i as u64) * 1_000 + lat), Some(*lat));
    }
    let summary = engine.summarize(100);
    assert_eq!(summary.min_latency_us, 100);
    assert_eq!(summary.max_latency_us, 300);
    assert_eq!(summary.average_latency_us, 200);
    assert!(summary.min_latency_us <= summary.average_latency_us);
    assert!(summary.average_latency_us <= summary.max_latency_us);
}

#[test]
fn error_tally_counts_each_kind() {
    let mut agg = MetricsAggregator::new();
    agg.record_error(ErrorKind::ConnectionError);
    agg.record_error(ErrorKind::ConnectionError);
    agg.record_error(ErrorKind::SendError);
    agg.record_error(ErrorKind::ReadError);
    agg.record_error(ErrorKind::MessageParseError);
    let summary = agg.summarize(5);
    assert_eq!(summary.error_rates.connection_errors, 2);
    assert_eq!(summary.error_rates.send_errors, 1);
    assert_eq!(summary.error_rates.read_errors, 1);
    assert_eq!(summary.error_rates.parse_errors, 1);
    assert_eq!(ErrorKind::ConnectionError.label(), "ConnectionError");
    assert_eq!(ErrorKind::SendError.label(), "SendError");
    assert_eq!(ErrorKind::ReadError.label(), "ReadError");
    assert_eq!(ErrorKind::MessageParseError.label(), "MessageParseError");
}

#[test]
fn successes_never_outnumber_requests() {
    let mut engine = BenchEngine::new();
    for i in 0..5u64 {
        let k = engine.issue_request(0, i);
        let id = wsbench::ids::make_benchmark_id(0, k);
        if i % 2 == 0 {
            engine.process_response(&id, i + 1);
        }
    }
    let summary = engine.summarize(1);
    assert!(summary.successful_requests <= summary.total_requests);
    assert_eq!(summary.total_requests, 5);
    assert_eq!(summary.successful_requests, 3);
    assert_eq!(summary.failed_requests, 2);
}
