//! Run coordination.
//!
//! The coordinator launches connections in ramped batches — a tenth of them
//! at a time, a tenth of the ramp-up window apart — so the target never sees
//! all of them connect in one instant, tracks how many connections are
//! active and completed, and decides when the run is over. The timing
//! arithmetic and the counters live here; the runtime only sleeps and spawns
//! as told.

use vstd::prelude::*;

verus! {

/// Number of batches the ramp-up window is divided into.
pub const RAMP_BATCHES: u64 = 10;

/// Connections launched together in one batch: `ceil(n / RAMP_BATCHES)`.
pub open spec fn per_batch(n: u64) -> u64 {
    ((n as int + RAMP_BATCHES as int - 1) / (RAMP_BATCHES as int)) as u64
}

/// The pause between consecutive batches.
pub open spec fn batch_delay(ramp_up_time_ms: u64) -> u64 {
    (ramp_up_time_ms as int / (RAMP_BATCHES as int)) as u64
}

/// Which batch connection `i` belongs to.
pub open spec fn batch_of(i: u64, n: u64) -> u64
    recommends
        n > 0,
{
    (i as int / per_batch(n) as int) as u64
}

/// When connection `i` is launched, as an offset from the run's start.
pub open spec fn launch_offset(i: u64, n: u64, ramp_up_time_ms: u64) -> u64
    recommends
        n > 0,
{
    (batch_of(i, n) * batch_delay(ramp_up_time_ms)) as u64
}

pub fn connections_per_batch(n: u64) -> (r: u64)
    ensures
        r == per_batch(n),
        n > 0 ==> r > 0,
{
    if n % RAMP_BATCHES == 0 {
        n / RAMP_BATCHES
    } else {
        n / RAMP_BATCHES + 1
    }
}

pub fn batch_delay_ms(ramp_up_time_ms: u64) -> (r: u64)
    ensures
        r == batch_delay(ramp_up_time_ms),
{
    ramp_up_time_ms / RAMP_BATCHES
}

/// A connection's batch index is below `RAMP_BATCHES`: the whole run fits
/// in the configured number of batches.
pub proof fn lemma_batch_of_bound(i: u64, n: u64)
    requires
        n > 0,
        i < n,
    ensures
        batch_of(i, n) < RAMP_BATCHES,
        batch_of(i, n) * batch_delay(u64::MAX) < u64::MAX,
{
    let c = per_batch(n) as int;
    vstd::arithmetic::div_mod::lemma_fundamental_div_mod(n as int + 9, 10);
    vstd::arithmetic::div_mod::lemma_mod_division_less_than_divisor(n as int + 9, 10);
    assert(10 * c >= n);
    vstd::arithmetic::div_mod::lemma_fundamental_div_mod(i as int, c);
    vstd::arithmetic::div_mod::lemma_mod_division_less_than_divisor(i as int, c);
    let q = i as int / c;
    assert(q < 10) by (nonlinear_arith)
        requires
            i as int == c * q + (i as int % c),
            0 <= i as int % c < c,
            i < 10 * c,
            c > 0,
    ;
    assert(q >= 0) by (nonlinear_arith)
        requires
            i as int == c * q + (i as int % c),
            0 <= i as int % c < c,
            i >= 0,
            c > 0,
    ;
    assert(q * batch_delay(u64::MAX) < u64::MAX) by (nonlinear_arith)
        requires
            0 <= q < 10,
            batch_delay(u64::MAX) == u64::MAX as int / 10,
    ;
}

/// How long after the run's start connection `i` is launched.
pub fn launch_offset_ms(i: u64, n: u64, ramp_up_time_ms: u64) -> (r: u64)
    requires
        n > 0,
        i < n,
    ensures
        r == launch_offset(i, n, ramp_up_time_ms),
{
    let c = connections_per_batch(n);
    let batch = i / c;
    let d = batch_delay_ms(ramp_up_time_ms);
    proof {
        lemma_batch_of_bound(i, n);
        assert(batch == batch_of(i, n));
        vstd::arithmetic::div_mod::lemma_div_is_ordered(
            ramp_up_time_ms as int,
            u64::MAX as int,
            10,
        );
        assert(d <= u64::MAX as int / 10);
        assert(batch * d <= batch * (u64::MAX as int / 10)) by (nonlinear_arith)
            requires
                0 <= batch,
                0 <= d <= u64::MAX as int / 10,
        ;
        assert(batch * (u64::MAX as int / 10) < u64::MAX);
    }
    batch * d
}

/// The ramp-up schedule never launches more than one batch at once: the
/// connections launched at the first scheduling instant are exactly those
/// of batch zero — no more than `ceil(n / RAMP_BATCHES)` of them — and each
/// later batch is launched a full `ramp_up / RAMP_BATCHES` after the one
/// before it.
pub proof fn lemma_ramp_up_schedule(n: u64, ramp_up_time_ms: u64)
    requires
        n > 0,
        ramp_up_time_ms >= RAMP_BATCHES,
    ensures
        forall|i: u64|
            i < n ==> (#[trigger] launch_offset(i, n, ramp_up_time_ms) == 0 <==> i < per_batch(n)),
        forall|i: u64, j: u64|
            i < n && j < n && batch_of(j, n) == batch_of(i, n) + 1 ==> #[trigger] launch_offset(
                j,
                n,
                ramp_up_time_ms,
            ) - #[trigger] launch_offset(i, n, ramp_up_time_ms) == batch_delay(ramp_up_time_ms),
{
    let c = per_batch(n) as int;
    let d = batch_delay(ramp_up_time_ms) as int;
    assert(c > 0);
    vstd::arithmetic::div_mod::lemma_div_is_ordered(10, ramp_up_time_ms as int, 10);
    assert(d >= 1);
    vstd::arithmetic::div_mod::lemma_div_is_ordered(ramp_up_time_ms as int, u64::MAX as int, 10);
    assert(d <= u64::MAX as int / 10);
    assert forall|i: u64| i < n implies (#[trigger] launch_offset(i, n, ramp_up_time_ms) == 0 <==> i
        < per_batch(n)) by {
        lemma_batch_of_bound(i, n);
        let b = batch_of(i, n) as int;
        assert(b * d <= b * (u64::MAX as int / 10) < u64::MAX) by (nonlinear_arith)
            requires
                0 <= b < 10,
                1 <= d <= u64::MAX as int / 10,
        ;
        assert(launch_offset(i, n, ramp_up_time_ms) == b * d);
        if i < c {
            vstd::arithmetic::div_mod::lemma_basic_div(i as int, c);
            assert(b == 0);
        } else {
            vstd::arithmetic::div_mod::lemma_fundamental_div_mod(i as int, c);
            vstd::arithmetic::div_mod::lemma_mod_division_less_than_divisor(i as int, c);
            assert(b >= 1) by (nonlinear_arith)
                requires
                    i as int == c * b + (i as int % c),
                    0 <= i as int % c < c,
                    i >= c,
                    c > 0,
            ;
        }
        assert(b * d == 0 <==> b == 0) by (nonlinear_arith)
            requires
                d > 0,
                b >= 0,
        ;
    }
    assert forall|i: u64, j: u64|
        i < n && j < n && batch_of(j, n) == batch_of(i, n) + 1 implies #[trigger] launch_offset(
        j,
        n,
        ramp_up_time_ms,
    ) - #[trigger] launch_offset(i, n, ramp_up_time_ms) == batch_delay(ramp_up_time_ms) by {
        lemma_batch_of_bound(i, n);
        lemma_batch_of_bound(j, n);
        let bi = batch_of(i, n) as int;
        let bj = batch_of(j, n) as int;
        assert(bi * d <= bi * (u64::MAX as int / 10) < u64::MAX) by (nonlinear_arith)
            requires
                0 <= bi < 10,
                1 <= d <= u64::MAX as int / 10,
        ;
        assert(bj * d <= bj * (u64::MAX as int / 10) < u64::MAX) by (nonlinear_arith)
            requires
                0 <= bj < 10,
                1 <= d <= u64::MAX as int / 10,
        ;
        assert(bj * d == bi * d + d) by (nonlinear_arith)
            requires
                bj == bi + 1,
        ;
    }
}

/// The run-level connection counters. The run is over exactly when every
/// connection has completed.
#[derive(Clone, Copy, PartialEq, Eq, Structural, Debug)]
pub struct ConnCounters {
    /// Connections currently open.
    pub active: u64,
    /// Connections that reached their terminal state, successfully or not.
    pub completed: u64,
    /// The configured connection count `N`.
    pub target: u64,
}

impl ConnCounters {
    /// Completed connections never exceed the configured count, and no more
    /// connections are open than are still unaccounted for.
    pub open spec fn wf(self) -> bool {
        &&& self.completed <= self.target
        &&& self.active <= self.target - self.completed
    }

    pub fn new(target: u64) -> (r: Self)
        ensures
            r.wf(),
            r.active == 0,
            r.completed == 0,
            r.target == target,
    {
        ConnCounters { active: 0, completed: 0, target }
    }

    /// A connection opened its transport.
    pub fn connection_opened(&mut self)
        requires
            old(self).wf(),
            old(self).active < old(self).target - old(self).completed,
        ensures
            final(self).wf(),
            final(self).active == old(self).active + 1,
            final(self).completed == old(self).completed,
            final(self).target == old(self).target,
    {
        self.active = self.active + 1;
    }

    /// A connection reached its terminal state. `was_active` says whether
    /// its transport had opened.
    pub fn connection_completed(&mut self, was_active: bool)
        requires
            old(self).wf(),
            old(self).completed < old(self).target,
            was_active ==> old(self).active >= 1,
            !was_active ==> old(self).active < old(self).target - old(self).completed,
        ensures
            final(self).wf(),
            final(self).completed == old(self).completed + 1,
            final(self).active == old(self).active - (if was_active { 1 as int } else { 0 }),
            final(self).target == old(self).target,
    {
        if was_active {
            self.active = self.active - 1;
        }
        self.completed = self.completed + 1;
    }

    /// The run's termination condition.
    pub fn run_complete(&self) -> (r: bool)
        ensures
            r == (self.completed >= self.target),
    {
        self.completed >= self.target
    }
}

} // verus!
