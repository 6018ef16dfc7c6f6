//! Run-global bookkeeping.
//!
//! One engine is shared by all connections of a run. It owns the pending
//! request tracker and the metrics aggregator, and ties them together:
//! the request counter is the number of requests ever issued, every issued
//! request is registered before its frame is handed to the transport, and
//! a success is counted exactly when a registered request resolves for the
//! first time — so successes can never outnumber requests.

use crate::ids::{id_chars, lemma_id_chars_injective};
use crate::metrics::{BenchmarkSummary, ErrorKind, ErrorTally, MetricsAggregator, RATE_INPUT_LIMIT,
    seq_max, seq_min, seq_sum};
use crate::tracker::{PendingRequest, PendingRequestTracker, can_resolve, elapsed_us,
    responded_set};
use vstd::assert_by_contradiction;
use vstd::prelude::*;

verus! {

broadcast use vstd::set::group_set_axioms;

pub struct BenchEngine {
    tracker: PendingRequestTracker,
    metrics: MetricsAggregator,
}

impl BenchEngine {
    /// The pending entries, keyed by the run-global request counter.
    pub closed spec fn requests(&self) -> Map<u64, PendingRequest> {
        self.tracker@
    }

    pub closed spec fn total(&self) -> u64 {
        self.metrics.total_requests
    }

    pub closed spec fn successful(&self) -> u64 {
        self.metrics.successful_requests
    }

    pub closed spec fn latencies(&self) -> Seq<u64> {
        self.metrics.latencies_us@
    }

    pub closed spec fn errors(&self) -> ErrorTally {
        self.metrics.errors
    }

    /// The engine's invariant: the request counter counts the registered
    /// entries, the success counter counts the resolved ones, each success
    /// left one latency sample, and every registered counter value is below
    /// the next one to be issued.
    pub closed spec fn wf(&self) -> bool {
        &&& self.metrics.wf()
        &&& self.tracker@.dom().finite()
        &&& self.metrics.total_requests == self.tracker@.dom().len()
        &&& self.metrics.successful_requests == responded_set(self.tracker@).len()
        &&& forall|k: u64| self.tracker@.contains_key(k) ==> k < self.metrics.total_requests
    }

    pub fn new() -> (r: Self)
        ensures
            r.wf(),
            r.requests() == Map::<u64, PendingRequest>::empty(),
            r.total() == 0,
            r.successful() == 0,
            r.latencies() == Seq::<u64>::empty(),
            r.errors().is_empty(),
    {
        let r = BenchEngine { tracker: PendingRequestTracker::new(), metrics: MetricsAggregator::new() };
        proof {
            assert(responded_set(r.tracker@) =~= Set::<u64>::empty());
        }
        r
    }

    /// Draw the next request counter and register the request as pending,
    /// before the caller attempts the write, so a response racing the write
    /// is never missed. Counts the request as issued.
    pub fn issue_request(&mut self, conn: u64, now_us: u64) -> (k: u64)
        requires
            old(self).wf(),
            old(self).total() < u64::MAX,
        ensures
            final(self).wf(),
            k == old(self).total(),
            !old(self).requests().contains_key(k),
            final(self).requests() == old(self).requests().insert(
                k,
                PendingRequest { conn, sent_at_us: now_us, responded: false },
            ),
            final(self).total() == old(self).total() + 1,
            final(self).successful() == old(self).successful(),
            final(self).latencies() == old(self).latencies(),
            final(self).errors() == old(self).errors(),
    {
        let k = self.metrics.total_requests;
        proof {
            crate::tracker::lemma_register_keeps_responded(
                self.tracker@,
                PendingRequest { conn, sent_at_us: now_us, responded: false },
                k,
            );
            assert(responded_set(self.tracker@).remove(k) =~= responded_set(self.tracker@));
        }
        self.tracker.register(conn, k, now_us);
        self.metrics.record_issued();
        k
    }

    /// Resolve the pending entry that a response's identifier names, at most
    /// once: the first matching response yields its latency and counts as a
    /// success; a duplicate, unknown or malformed identifier changes nothing.
    pub fn process_response(&mut self, benchmark_id: &str, now_us: u64) -> (r: Option<u64>)
        requires
            old(self).wf(),
        ensures
            final(self).wf(),
            forall|c: u64, k: u64|
                benchmark_id@ == id_chars(c, k) && can_resolve(old(self).requests(), c, k)
                    ==> {
                    &&& r == Some(elapsed_us(old(self).requests()[k].sent_at_us, now_us))
                    &&& final(self).requests() == old(self).requests().insert(
                        k,
                        PendingRequest {
                            conn: c,
                            sent_at_us: old(self).requests()[k].sent_at_us,
                            responded: true,
                        },
                    )
                    &&& final(self).successful() == old(self).successful() + 1
                    &&& final(self).latencies() == old(self).latencies().push(
                        elapsed_us(old(self).requests()[k].sent_at_us, now_us),
                    )
                },
            (forall|c: u64, k: u64|
                benchmark_id@ == id_chars(c, k) ==> !can_resolve(old(self).requests(), c, k))
                ==> {
                &&& r is None
                &&& final(self).requests() == old(self).requests()
                &&& final(self).successful() == old(self).successful()
                &&& final(self).latencies() == old(self).latencies()
            },
            final(self).total() == old(self).total(),
            final(self).errors() == old(self).errors(),
    {
        match crate::ids::parse_benchmark_id(benchmark_id) {
            Some(pair) => {
                let (c, k) = pair;
                let ghost m0 = self.tracker@;
                let resolved = self.tracker.resolve(c, k, now_us);
                match resolved {
                    Some(lat) => {
                        proof {
                            crate::tracker::lemma_resolve_grows_responded(m0, c, k);
                            responded_set(m0).lemma_subset_not_in_lt(m0.dom(), k);
                            assert(self.tracker@.dom() =~= m0.dom());
                        }
                        self.metrics.record_success(lat);
                        proof {
                            assert forall|c2: u64, k2: u64|
                                benchmark_id@ == id_chars(c2, k2) implies c2 == c && k2 == k by {
                                lemma_id_chars_injective(c, k, c2, k2);
                            }
                        }
                        Some(lat)
                    },
                    None => {
                        proof {
                            assert forall|c2: u64, k2: u64|
                                benchmark_id@ == id_chars(c2, k2) implies c2 == c && k2 == k by {
                                lemma_id_chars_injective(c, k, c2, k2);
                            }
                        }
                        None
                    },
                }
            },
            None => None,
        }
    }

    /// Tally one error.
    pub fn record_error(&mut self, kind: ErrorKind)
        requires
            old(self).wf(),
            old(self).errors().count_of(kind) < u64::MAX,
        ensures
            final(self).wf(),
            final(self).errors().count_of(kind) == old(self).errors().count_of(kind) + 1,
            forall|other: ErrorKind| other != kind ==> final(self).errors().count_of(other) == old(
                self,
            ).errors().count_of(other),
            final(self).requests() == old(self).requests(),
            final(self).total() == old(self).total(),
            final(self).successful() == old(self).successful(),
            final(self).latencies() == old(self).latencies(),
    {
        self.metrics.record_error(kind);
    }

    /// Compute the final summary of the run.
    pub fn summarize(&self, total_time_ms: u64) -> (r: BenchmarkSummary)
        requires
            self.wf(),
            self.successful() <= RATE_INPUT_LIMIT,
        ensures
            r.total_requests == self.total(),
            r.successful_requests == self.successful(),
            r.failed_requests == self.total() - self.successful(),
            r.total_time_ms == total_time_ms,
            r.error_rates == self.errors(),
            self.latencies().len() == 0 ==> r.min_latency_us == 0 && r.max_latency_us == 0
                && r.average_latency_us == 0,
            self.latencies().len() > 0 ==> {
                &&& r.min_latency_us == seq_min(self.latencies())
                &&& r.max_latency_us == seq_max(self.latencies())
                &&& r.average_latency_us == seq_sum(self.latencies()) / self.latencies().len()
            },
            r.min_latency_us <= r.average_latency_us <= r.max_latency_us,
            total_time_ms == 0 ==> r.requests_per_second_milli == 0,
            total_time_ms > 0 ==> r.requests_per_second_milli == self.successful()
                * 1_000_000 as int / total_time_ms as int,
    {
        self.metrics.summarize(total_time_ms)
    }

    /// How many requests were ever issued.
    pub fn total_count(&self) -> (r: u64)
        ensures
            r == self.total(),
    {
        self.metrics.total_requests
    }

    /// How many responses resolved a pending request.
    pub fn successful_count(&self) -> (r: u64)
        ensures
            r == self.successful(),
    {
        self.metrics.successful_requests
    }

    /// How many errors of one kind were tallied.
    pub fn error_count(&self, kind: ErrorKind) -> (r: u64)
        ensures
            r == self.errors().count_of(kind),
    {
        self.metrics.errors.count(kind)
    }

    /// Successes never outnumber issued requests: every success resolved a
    /// registered request, registration never outpaces the issue counter,
    /// and resolution happens at most once per request.
    pub proof fn lemma_success_bounded(&self)
        requires
            self.wf(),
        ensures
            self.successful() <= self.total(),
    {
    }

    /// Successes equal issued requests exactly when every issued request's
    /// response was observed — when nothing is left pending.
    pub proof fn lemma_success_equality(&self)
        requires
            self.wf(),
        ensures
            (self.successful() == self.total()) <==> (forall|k: u64|
                self.requests().contains_key(k) ==> self.requests()[k].responded),
    {
        let m = self.requests();
        assert(m == self.tracker@);
        assert(responded_set(m).subset_of(m.dom()));
        if self.successful() == self.total() {
            assert forall|k: u64| m.contains_key(k) implies #[trigger] m[k].responded by {
                if !m[k].responded {
                    assert(!responded_set(m).contains(k));
                    responded_set(m).lemma_subset_not_in_lt(m.dom(), k);
                }
            }
        } else {
            assert_by_contradiction!(exists|k: u64|
                m.contains_key(k) && !(#[trigger] m[k].responded), {
                assert forall|k: u64| m.dom().contains(k) implies responded_set(m).contains(
                    k,
                ) by {
                    assert(m[k].responded);
                }
                assert(responded_set(m) =~= m.dom());
            });
            let k0 = choose|k: u64| m.contains_key(k) && !(#[trigger] m[k].responded);
            assert(self.requests().contains_key(k0) && !self.requests()[k0].responded);
        }
    }
}

/// A run with no connection failures issues exactly `requests_per_connection`
/// requests on each of its `connections` connections, so its total request
/// count is their product.
pub proof fn lemma_total_of_full_run(counts: Seq<u64>, per_connection: u64)
    requires
        forall|i: int| 0 <= i < counts.len() ==> counts[i] == per_connection,
    ensures
        seq_sum(counts) == counts.len() * per_connection,
    decreases counts.len(),
{
    if counts.len() > 0 {
        lemma_total_of_full_run(counts.drop_last(), per_connection);
        assert(seq_sum(counts) == seq_sum(counts.drop_last()) + per_connection);
        assert(counts.len() * per_connection == (counts.len() - 1) * per_connection
            + per_connection) by (nonlinear_arith);
    }
}

} // verus!
