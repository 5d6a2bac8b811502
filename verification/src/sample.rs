//! Rate sampling: turning a pair of cumulative counter readings into an
//! instantaneous throughput figure, tolerant of counter wraparound and
//! resets.

use vstd::prelude::*;

verus! {

/// One cumulative reading of a device's byte counters, captured by an
/// external collector once per tick.  The core never mutates a sample;
/// it only compares consecutive ones.
#[derive(Clone, Copy, PartialEq, Eq, Structural, Debug)]
pub struct RawSample {
    /// Cumulative bytes received since the device appeared.
    pub rx_bytes: u64,
    /// Cumulative bytes sent since the device appeared.
    pub tx_bytes: u64,
    /// Monotonic capture instant, in milliseconds.
    pub time_ms: u64,
}

/// The accepted counter advance between two readings.  A decrease
/// (counter wraparound or an interface reset) is clamped to zero rather
/// than producing a spuriously huge value from unsigned underflow.
pub open spec fn spec_delta(prev: u64, cur: u64) -> int {
    if cur >= prev {
        cur - prev
    } else {
        0
    }
}

/// Bytes per second from an accepted byte delta and a positive elapsed
/// time in milliseconds, saturating at `u64::MAX`.
pub open spec fn spec_rate(delta: int, elapsed_ms: int) -> int
    recommends
        0 <= delta,
        0 < elapsed_ms,
{
    if delta * 1000 / elapsed_ms > u64::MAX {
        u64::MAX as int
    } else {
        delta * 1000 / elapsed_ms
    }
}

/// Computes the accepted byte delta and the instantaneous rate for one
/// direction, from the previous and current counter values and the
/// elapsed time in milliseconds.  Returns `(delta, rate)`.
pub fn compute_rate(prev_counter: u64, cur_counter: u64, elapsed_ms: u64) -> (r: (u64, u64))
    requires
        elapsed_ms > 0,
    ensures
        r.0 == spec_delta(prev_counter, cur_counter),
        r.1 == spec_rate(spec_delta(prev_counter, cur_counter), elapsed_ms as int),
{
    let delta: u64 = if cur_counter >= prev_counter {
        cur_counter - prev_counter
    } else {
        0
    };
    let wide: u128 = (delta as u128) * 1000 / (elapsed_ms as u128);
    let rate: u64 = if wide > u64::MAX as u128 {
        u64::MAX
    } else {
        wide as u64
    };
    (delta, rate)
}

/// Law: for any pair of samples taken at strictly increasing instants,
/// whatever the counters did in between, the computed rate for each
/// direction is non-negative.
pub proof fn lemma_rate_nonnegative(prev: RawSample, cur: RawSample)
    requires
        prev.time_ms < cur.time_ms,
    ensures
        spec_rate(spec_delta(prev.rx_bytes, cur.rx_bytes), cur.time_ms - prev.time_ms) >= 0,
        spec_rate(spec_delta(prev.tx_bytes, cur.tx_bytes), cur.time_ms - prev.time_ms) >= 0,
{
    let e = cur.time_ms - prev.time_ms;
    let drx = spec_delta(prev.rx_bytes, cur.rx_bytes);
    let dtx = spec_delta(prev.tx_bytes, cur.tx_bytes);
    assert(drx * 1000 / e >= 0) by (nonlinear_arith)
        requires
            drx >= 0,
            e > 0,
    ;
    assert(dtx * 1000 / e >= 0) by (nonlinear_arith)
        requires
            dtx >= 0,
            e > 0,
    ;
}

/// Law: if the current counter is below the previous one (a reset or a
/// wraparound), the accepted delta is exactly zero and so is the rate,
/// so the tick adds nothing to the running total.
pub proof fn lemma_counter_reset_rate_zero(prev_counter: u64, cur_counter: u64, elapsed_ms: u64)
    requires
        cur_counter < prev_counter,
        elapsed_ms > 0,
    ensures
        spec_delta(prev_counter, cur_counter) == 0,
        spec_rate(spec_delta(prev_counter, cur_counter), elapsed_ms as int) == 0,
{
}

} // verus!
