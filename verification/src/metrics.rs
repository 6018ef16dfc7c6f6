//! Metrics aggregation.
//!
//! Counters, latency samples and the error tally collected while the run is
//! in flight, and the final summary computed once at the end. Durations are
//! carried as integer microseconds and the throughput as an integer number
//! of milli-requests-per-second, so every figure is exact.

use vstd::prelude::*;

verus! {

/// The four connection-level failure kinds. None of them fails the run;
/// each only terminates the affected connection and is tallied.
#[derive(Clone, Copy, PartialEq, Eq, Structural, Debug)]
pub enum ErrorKind {
    /// The transport failed to establish.
    ConnectionError,
    /// A write to an established transport failed.
    SendError,
    /// The inbound stream raised an error or closed unexpectedly.
    ReadError,
    /// An inbound frame could not be decoded as structured data.
    MessageParseError,
}

impl ErrorKind {
    /// The label under which this kind is reported.
    pub fn label(&self) -> (r: String)
        ensures
            *self is ConnectionError ==> r@ == "ConnectionError"@,
            *self is SendError ==> r@ == "SendError"@,
            *self is ReadError ==> r@ == "ReadError"@,
            *self is MessageParseError ==> r@ == "MessageParseError"@,
    {
        match self {
            ErrorKind::ConnectionError => "ConnectionError".to_owned(),
            ErrorKind::SendError => "SendError".to_owned(),
            ErrorKind::ReadError => "ReadError".to_owned(),
            ErrorKind::MessageParseError => "MessageParseError".to_owned(),
        }
    }
}

/// Count of observed errors, by kind. Entries only ever grow.
#[derive(Clone, Copy, PartialEq, Eq, Structural, Debug)]
pub struct ErrorTally {
    pub connection_errors: u64,
    pub send_errors: u64,
    pub read_errors: u64,
    pub parse_errors: u64,
}

impl ErrorTally {
    pub open spec fn count_of(self, kind: ErrorKind) -> u64 {
        match kind {
            ErrorKind::ConnectionError => self.connection_errors,
            ErrorKind::SendError => self.send_errors,
            ErrorKind::ReadError => self.read_errors,
            ErrorKind::MessageParseError => self.parse_errors,
        }
    }

    pub open spec fn is_empty(self) -> bool {
        self.connection_errors == 0 && self.send_errors == 0 && self.read_errors == 0
            && self.parse_errors == 0
    }

    pub fn new() -> (r: Self)
        ensures
            r.is_empty(),
    {
        ErrorTally { connection_errors: 0, send_errors: 0, read_errors: 0, parse_errors: 0 }
    }

    /// Tally one more error of the given kind.
    pub fn record(&mut self, kind: ErrorKind)
        requires
            old(self).count_of(kind) < u64::MAX,
        ensures
            final(self).count_of(kind) == old(self).count_of(kind) + 1,
            forall|other: ErrorKind| other != kind ==> final(self).count_of(other) == old(
                self,
            ).count_of(other),
    {
        match kind {
            ErrorKind::ConnectionError => self.connection_errors = self.connection_errors + 1,
            ErrorKind::SendError => self.send_errors = self.send_errors + 1,
            ErrorKind::ReadError => self.read_errors = self.read_errors + 1,
            ErrorKind::MessageParseError => self.parse_errors = self.parse_errors + 1,
        }
    }

    /// Read one counter.
    pub fn count(&self, kind: ErrorKind) -> (r: u64)
        ensures
            r == self.count_of(kind),
    {
        match kind {
            ErrorKind::ConnectionError => self.connection_errors,
            ErrorKind::SendError => self.send_errors,
            ErrorKind::ReadError => self.read_errors,
            ErrorKind::MessageParseError => self.parse_errors,
        }
    }
}

/// Sum of a sequence of latency samples.
pub open spec fn seq_sum(s: Seq<u64>) -> nat
    decreases s.len(),
{
    if s.len() == 0 {
        0
    } else {
        seq_sum(s.drop_last()) + s.last() as nat
    }
}

/// Smallest sample; 0 for an empty sequence.
pub open spec fn seq_min(s: Seq<u64>) -> u64
    decreases s.len(),
{
    if s.len() == 0 {
        0
    } else if s.len() == 1 {
        s[0]
    } else if s.last() < seq_min(s.drop_last()) {
        s.last()
    } else {
        seq_min(s.drop_last())
    }
}

/// Largest sample; 0 for an empty sequence.
pub open spec fn seq_max(s: Seq<u64>) -> u64
    decreases s.len(),
{
    if s.len() == 0 {
        0
    } else if s.last() > seq_max(s.drop_last()) {
        s.last()
    } else {
        seq_max(s.drop_last())
    }
}

/// Every sample lies between the smallest and largest, so the sum lies
/// between `len * min` and `len * max`.
pub proof fn lemma_sum_bounds(s: Seq<u64>)
    ensures
        seq_min(s) * s.len() <= seq_sum(s) <= seq_max(s) * s.len(),
    decreases s.len(),
{
    if s.len() > 0 {
        let p = s.drop_last();
        lemma_sum_bounds(p);
        if s.len() == 1 {
        } else {
            assert(seq_min(s) <= seq_min(p) && seq_min(s) <= s.last());
            assert(seq_max(s) >= seq_max(p) && seq_max(s) >= s.last());
            assert(seq_min(s) * p.len() <= seq_min(p) * p.len()) by (nonlinear_arith)
                requires
                    seq_min(s) <= seq_min(p),
            ;
            assert(seq_max(s) * p.len() >= seq_max(p) * p.len()) by (nonlinear_arith)
                requires
                    seq_max(s) >= seq_max(p),
            ;
            assert(seq_min(s) * s.len() == seq_min(s) * p.len() + seq_min(s)) by (nonlinear_arith)
                requires
                    s.len() == p.len() + 1,
            ;
            assert(seq_max(s) * s.len() == seq_max(s) * p.len() + seq_max(s)) by (nonlinear_arith)
                requires
                    s.len() == p.len() + 1,
            ;
        }
    }
}

/// The final, immutable snapshot of a run.
#[derive(Clone, Copy, PartialEq, Eq, Structural, Debug)]
pub struct BenchmarkSummary {
    pub total_requests: u64,
    pub successful_requests: u64,
    pub failed_requests: u64,
    pub average_latency_us: u64,
    pub min_latency_us: u64,
    pub max_latency_us: u64,
    /// Throughput in thousandths of a request per second.
    pub requests_per_second_milli: u64,
    pub total_time_ms: u64,
    pub error_rates: ErrorTally,
}

/// Largest successful-request count for which the scaled throughput still
/// fits in 64 bits.
pub const RATE_INPUT_LIMIT: u64 = 1_000_000_000_000;

/// Thread-shared counters, latency samples and error tally of a run.
pub struct MetricsAggregator {
    pub total_requests: u64,
    pub successful_requests: u64,
    pub latencies_us: Vec<u64>,
    pub errors: ErrorTally,
}

impl MetricsAggregator {
    /// Every success resolved exactly one issued request, so successes never
    /// outnumber requests, and each contributed exactly one latency sample.
    pub open spec fn wf(self) -> bool {
        &&& self.successful_requests <= self.total_requests
        &&& self.latencies_us@.len() == self.successful_requests
    }

    pub fn new() -> (r: Self)
        ensures
            r.wf(),
            r.total_requests == 0,
            r.successful_requests == 0,
            r.latencies_us@ == Seq::<u64>::empty(),
            r.errors.is_empty(),
    {
        MetricsAggregator {
            total_requests: 0,
            successful_requests: 0,
            latencies_us: Vec::new(),
            errors: ErrorTally::new(),
        }
    }

    /// Count one issued request.
    pub fn record_issued(&mut self)
        requires
            old(self).total_requests < u64::MAX,
        ensures
            final(self).total_requests == old(self).total_requests + 1,
            final(self).successful_requests == old(self).successful_requests,
            final(self).latencies_us@ == old(self).latencies_us@,
            final(self).errors == old(self).errors,
            old(self).wf() ==> final(self).wf(),
    {
        self.total_requests = self.total_requests + 1;
    }

    /// Count one resolved response and keep its latency sample.
    pub fn record_success(&mut self, latency_us: u64)
        requires
            old(self).successful_requests < old(self).total_requests,
        ensures
            final(self).successful_requests == old(self).successful_requests + 1,
            final(self).total_requests == old(self).total_requests,
            final(self).latencies_us@ == old(self).latencies_us@.push(latency_us),
            final(self).errors == old(self).errors,
            old(self).wf() ==> final(self).wf(),
    {
        self.successful_requests = self.successful_requests + 1;
        self.latencies_us.push(latency_us);
    }

    /// Tally one error.
    pub fn record_error(&mut self, kind: ErrorKind)
        requires
            old(self).errors.count_of(kind) < u64::MAX,
        ensures
            final(self).errors.count_of(kind) == old(self).errors.count_of(kind) + 1,
            forall|other: ErrorKind| other != kind ==> final(self).errors.count_of(other) == old(
                self,
            ).errors.count_of(other),
            final(self).total_requests == old(self).total_requests,
            final(self).successful_requests == old(self).successful_requests,
            final(self).latencies_us@ == old(self).latencies_us@,
            old(self).wf() ==> final(self).wf(),
    {
        self.errors.record(kind);
    }

    /// Compute the final summary.
    ///
    /// With no samples, the three latency figures are all zero rather than
    /// undefined; with samples, they are the exact minimum, floor-average
    /// and maximum. The throughput is `successes / seconds`, reported in
    /// milli-requests-per-second, and zero over a zero-length run.
    pub fn summarize(&self, total_time_ms: u64) -> (r: BenchmarkSummary)
        requires
            self.wf(),
            self.successful_requests <= RATE_INPUT_LIMIT,
        ensures
            r.total_requests == self.total_requests,
            r.successful_requests == self.successful_requests,
            r.failed_requests == self.total_requests - self.successful_requests,
            r.total_time_ms == total_time_ms,
            r.error_rates == self.errors,
            self.latencies_us@.len() == 0 ==> r.min_latency_us == 0 && r.max_latency_us == 0
                && r.average_latency_us == 0,
            self.latencies_us@.len() > 0 ==> {
                &&& r.min_latency_us == seq_min(self.latencies_us@)
                &&& r.max_latency_us == seq_max(self.latencies_us@)
                &&& r.average_latency_us == seq_sum(self.latencies_us@) / self.latencies_us@.len()
            },
            r.min_latency_us <= r.average_latency_us <= r.max_latency_us,
            total_time_ms == 0 ==> r.requests_per_second_milli == 0,
            total_time_ms > 0 ==> r.requests_per_second_milli == self.successful_requests
                * 1_000_000 as int / total_time_ms as int,
    {
        let n = self.latencies_us.len();
        let mut sum: u128 = 0;
        let mut min_v: u64 = 0;
        let mut max_v: u64 = 0;
        let mut i: usize = 0;
        while i < n
            invariant
                i <= n == self.latencies_us@.len(),
                sum == seq_sum(self.latencies_us@.subrange(0, i as int)),
                min_v == seq_min(self.latencies_us@.subrange(0, i as int)),
                max_v == seq_max(self.latencies_us@.subrange(0, i as int)),
                sum <= i * (u64::MAX as nat),
            decreases n - i,
        {
            let ghost prefix = self.latencies_us@.subrange(0, i as int);
            let x = self.latencies_us[i];
            proof {
                assert(self.latencies_us@.subrange(0, i + 1 as int).drop_last() =~= prefix);
                assert(self.latencies_us@.subrange(0, i + 1 as int).last() == x);
                assert(sum + x <= (i + 1) * (u64::MAX as nat)) by (nonlinear_arith)
                    requires
                        sum <= i * (u64::MAX as nat),
                        x <= u64::MAX,
                        i >= 0,
                ;
                assert(((i + 1) as nat) * (u64::MAX as nat) < u128::MAX) by (nonlinear_arith)
                    requires
                        i + 1 <= usize::MAX,
                ;
            }
            sum = sum + x as u128;
            if i == 0 {
                min_v = x;
                max_v = x;
            } else {
                if x < min_v {
                    min_v = x;
                }
                if x > max_v {
                    max_v = x;
                }
            }
            i = i + 1;
        }
        proof {
            assert(self.latencies_us@.subrange(0, n as int) =~= self.latencies_us@);
        }
        let average: u64 = if n == 0 {
            0
        } else {
            proof {
                lemma_sum_bounds(self.latencies_us@);
                assert(seq_sum(self.latencies_us@) / (n as nat) <= seq_max(self.latencies_us@))
                    by (nonlinear_arith)
                    requires
                        n > 0,
                        seq_sum(self.latencies_us@) <= seq_max(self.latencies_us@) * (n as nat),
                ;
                assert(seq_min(self.latencies_us@) <= seq_sum(self.latencies_us@) / (n as nat))
                    by (nonlinear_arith)
                    requires
                        n > 0,
                        seq_min(self.latencies_us@) * (n as nat) <= seq_sum(self.latencies_us@),
                ;
            }
            (sum / (n as u128)) as u64
        };
        let rate: u64 = if total_time_ms == 0 {
            0
        } else {
            (self.successful_requests * 1_000_000) / total_time_ms
        };
        BenchmarkSummary {
            total_requests: self.total_requests,
            successful_requests: self.successful_requests,
            failed_requests: self.total_requests - self.successful_requests,
            average_latency_us: average,
            min_latency_us: min_v,
            max_latency_us: max_v,
            requests_per_second_milli: rate,
            total_time_ms,
            error_rates: self.errors,
        }
    }
}

} // verus!
