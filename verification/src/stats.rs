//! The statistics aggregator: per device and per traffic direction it
//! owns a bounded history window and running aggregates, consumes one
//! delta-derived rate per tick, and exposes the current summary.

use vstd::prelude::*;

use crate::sample::{compute_rate, spec_delta, spec_rate, RawSample};
use crate::window::{spec_average, spec_push_window, HistoryWindow};

verus! {

/// The running summary for one device and one traffic direction.
/// `minimum` and `maximum` are lifetime extremes over every rate ever
/// observed, not windowed; `total` is the cumulative byte count since
/// the aggregator was created and never decreases.  The extremes start
/// at zero, which coincides with the first observed rate: the very
/// first, baseline-less tick always records a rate of zero.
#[derive(Clone, Copy, PartialEq, Eq, Structural, Debug)]
pub struct TrafficStats {
    /// The rate recorded on the most recent tick, bytes/second.
    pub current: u64,
    /// Mean of the history window, bytes/second.
    pub average: u64,
    /// Smallest rate ever observed, bytes/second.
    pub minimum: u64,
    /// Largest rate ever observed, bytes/second.
    pub maximum: u64,
    /// Cumulative bytes transferred since creation.
    pub total: u64,
}

/// Addition that stops at `u64::MAX` instead of wrapping, so the
/// running total never decreases.
pub open spec fn spec_sat_add(a: u64, b: u64) -> u64 {
    if a + b > u64::MAX {
        u64::MAX
    } else {
        (a + b) as u64
    }
}

/// What one tick does to a direction's summary, given the new window
/// contents, the rate recorded for the tick and the accepted byte
/// delta.
pub open spec fn spec_fold_stats(st: TrafficStats, new_window: Seq<u64>, rate: u64, delta: u64) -> TrafficStats {
    TrafficStats {
        current: rate,
        average: spec_average(new_window) as u64,
        minimum: if rate < st.minimum { rate } else { st.minimum },
        maximum: if rate > st.maximum { rate } else { st.maximum },
        total: spec_sat_add(st.total, delta),
    }
}

impl TrafficStats {
    /// A fresh summary: everything zero.
    pub fn new() -> (r: TrafficStats)
        ensures
            r == (TrafficStats { current: 0, average: 0, minimum: 0, maximum: 0, total: 0 }),
    {
        TrafficStats { current: 0, average: 0, minimum: 0, maximum: 0, total: 0 }
    }
}

/// A spec-level snapshot of an engine's whole state, so that contracts
/// about an update can be stated in one place.
pub ghost struct EngineModel {
    pub incoming: TrafficStats,
    pub outgoing: TrafficStats,
    pub incoming_history: Seq<u64>,
    pub outgoing_history: Seq<u64>,
    pub prev: Option<RawSample>,
    pub capacity: int,
}

/// What one direction's half of a tick does to the model: push the
/// rate into the window, then fold the summary.
pub open spec fn spec_fold_direction(st: TrafficStats, win: Seq<u64>, cap: int, rate: u64, delta: u64) -> (TrafficStats, Seq<u64>) {
    let w2 = spec_push_window(win, cap, rate);
    (spec_fold_stats(st, w2, rate, delta), w2)
}

/// What one full tick does to the engine's model.
///
/// - With no previous sample, the tick is a baseline: both directions
///   record a rate of zero and a delta of zero, and the sample becomes
///   the new baseline.
/// - With a previous sample whose instant is not strictly earlier, the
///   elapsed time is below the guard epsilon (one millisecond at this
///   resolution): the update is skipped entirely and the previous
///   state, baseline included, is carried forward unchanged.
/// - Otherwise each direction records the wrap-guarded delta and rate.
pub open spec fn spec_engine_update(m: EngineModel, s: RawSample) -> EngineModel {
    match m.prev {
        None => {
            let inc = spec_fold_direction(m.incoming, m.incoming_history, m.capacity, 0, 0);
            let out = spec_fold_direction(m.outgoing, m.outgoing_history, m.capacity, 0, 0);
            EngineModel {
                incoming: inc.0,
                outgoing: out.0,
                incoming_history: inc.1,
                outgoing_history: out.1,
                prev: Some(s),
                capacity: m.capacity,
            }
        },
        Some(p) => {
            if s.time_ms <= p.time_ms {
                m
            } else {
                let e = s.time_ms - p.time_ms;
                let drx = spec_delta(p.rx_bytes, s.rx_bytes);
                let dtx = spec_delta(p.tx_bytes, s.tx_bytes);
                let inc = spec_fold_direction(
                    m.incoming,
                    m.incoming_history,
                    m.capacity,
                    spec_rate(drx, e) as u64,
                    drx as u64,
                );
                let out = spec_fold_direction(
                    m.outgoing,
                    m.outgoing_history,
                    m.capacity,
                    spec_rate(dtx, e) as u64,
                    dtx as u64,
                );
                EngineModel {
                    incoming: inc.0,
                    outgoing: out.0,
                    incoming_history: inc.1,
                    outgoing_history: out.1,
                    prev: Some(s),
                    capacity: m.capacity,
                }
            }
        },
    }
}

/// The per-device statistics engine: two independent direction states
/// (incoming, outgoing) plus the previous raw sample used as the
/// baseline for the next delta.
pub struct StatisticsEngine {
    /// Summary for received traffic.
    pub incoming: TrafficStats,
    /// Summary for sent traffic.
    pub outgoing: TrafficStats,
    /// Recent received rates, oldest first.
    pub incoming_history: HistoryWindow,
    /// Recent sent rates, oldest first.
    pub outgoing_history: HistoryWindow,
    prev: Option<RawSample>,
}

/// The history capacity from the configuration: at least one entry,
/// otherwise the averaging window in seconds divided by the tick
/// interval in milliseconds, rounded to the nearest whole number of
/// ticks (and never past what an in-memory buffer can index).
pub open spec fn spec_window_capacity(interval_ms: u64, average_secs: u64) -> int
    recommends
        interval_ms > 0,
{
    let n = (average_secs * 1000 + (interval_ms as int) / 2) / (interval_ms as int);
    if n < 1 {
        1
    } else if n > usize::MAX {
        usize::MAX as int
    } else {
        n
    }
}

/// Computes the history capacity for a (tick interval, averaging
/// window) configuration.
pub fn window_capacity(interval_ms: u64, average_secs: u64) -> (r: usize)
    requires
        interval_ms > 0,
    ensures
        r == spec_window_capacity(interval_ms, average_secs),
        r >= 1,
{
    let wide: u128 = ((average_secs as u128) * 1000 + (interval_ms / 2) as u128)
        / (interval_ms as u128);
    if wide < 1 {
        1
    } else if wide > usize::MAX as u128 {
        usize::MAX
    } else {
        wide as usize
    }
}

/// The model of a freshly created engine: zeroed summaries, empty
/// windows, no baseline, and the capacity derived from the
/// configuration.
pub open spec fn spec_new_engine_model(interval_ms: u64, average_secs: u64) -> EngineModel {
    EngineModel {
        incoming: TrafficStats { current: 0, average: 0, minimum: 0, maximum: 0, total: 0 },
        outgoing: TrafficStats { current: 0, average: 0, minimum: 0, maximum: 0, total: 0 },
        incoming_history: Seq::<u64>::empty(),
        outgoing_history: Seq::<u64>::empty(),
        prev: None::<RawSample>,
        capacity: spec_window_capacity(interval_ms, average_secs),
    }
}

impl StatisticsEngine {
    /// The engine's state as spec-level data.
    pub closed spec fn model(&self) -> EngineModel {
        EngineModel {
            incoming: self.incoming,
            outgoing: self.outgoing,
            incoming_history: self.incoming_history@,
            outgoing_history: self.outgoing_history@,
            prev: self.prev,
            capacity: self.incoming_history.cap(),
        }
    }

    /// Well-formedness: both windows are coherent and share one
    /// capacity.
    pub closed spec fn wf(&self) -> bool {
        &&& self.incoming_history.wf()
        &&& self.outgoing_history.wf()
        &&& self.outgoing_history.cap() == self.incoming_history.cap()
    }

    /// A fresh engine for one device, with the window capacity derived
    /// from the tick interval and the averaging window.
    pub fn new(interval_ms: u64, average_secs: u64) -> (r: StatisticsEngine)
        requires
            interval_ms > 0,
        ensures
            r.wf(),
            r.model() == spec_new_engine_model(interval_ms, average_secs),
    {
        let cap = window_capacity(interval_ms, average_secs);
        StatisticsEngine {
            incoming: TrafficStats::new(),
            outgoing: TrafficStats::new(),
            incoming_history: HistoryWindow::new(cap),
            outgoing_history: HistoryWindow::new(cap),
            prev: None,
        }
    }

    /// Records one direction's tick: pushes the rate into the window
    /// and folds the summary.
    fn record(stats: &mut TrafficStats, window: &mut HistoryWindow, rate: u64, delta: u64)
        requires
            old(window).wf(),
        ensures
            final(window).wf(),
            final(window).cap() == old(window).cap(),
            (*final(stats), final(window)@) == spec_fold_direction(
                *old(stats),
                old(window)@,
                old(window).cap(),
                rate,
                delta,
            ),
    {
        window.push(rate);
        stats.current = rate;
        stats.average = window.average();
        if rate < stats.minimum {
            stats.minimum = rate;
        }
        if rate > stats.maximum {
            stats.maximum = rate;
        }
        stats.total = if delta > u64::MAX - stats.total {
            u64::MAX
        } else {
            stats.total + delta
        };
    }

    /// Folds one raw sample into the engine: computes the per-direction
    /// deltas and rates against the previous sample and updates both
    /// summaries, skipping ticks whose elapsed time is below the guard
    /// epsilon.  The running totals never decrease.
    pub fn update(&mut self, snap: RawSample)
        requires
            old(self).wf(),
        ensures
            final(self).wf(),
            final(self).model() == spec_engine_update(old(self).model(), snap),
            final(self).model().incoming.total >= old(self).model().incoming.total,
            final(self).model().outgoing.total >= old(self).model().outgoing.total,
    {
        match self.prev {
            None => {
                Self::record(&mut self.incoming, &mut self.incoming_history, 0, 0);
                Self::record(&mut self.outgoing, &mut self.outgoing_history, 0, 0);
                self.prev = Some(snap);
            },
            Some(p) => {
                if snap.time_ms <= p.time_ms {
                    return;
                }
                let elapsed = snap.time_ms - p.time_ms;
                let (drx, rate_rx) = compute_rate(p.rx_bytes, snap.rx_bytes, elapsed);
                let (dtx, rate_tx) = compute_rate(p.tx_bytes, snap.tx_bytes, elapsed);
                Self::record(&mut self.incoming, &mut self.incoming_history, rate_rx, drx);
                Self::record(&mut self.outgoing, &mut self.outgoing_history, rate_tx, dtx);
                self.prev = Some(snap);
            },
        }
    }
}

/// Law: the lifetime extremes bracket the current rate after every
/// update, whatever the prior summary and whatever the tick recorded.
pub proof fn lemma_extremes_bracket_current(st: TrafficStats, new_window: Seq<u64>, rate: u64, delta: u64)
    ensures
        spec_fold_stats(st, new_window, rate, delta).minimum
            <= spec_fold_stats(st, new_window, rate, delta).current,
        spec_fold_stats(st, new_window, rate, delta).current
            <= spec_fold_stats(st, new_window, rate, delta).maximum,
{
}

/// Law: `minimum <= current <= maximum` holds after every update.  A
/// tick that records a rate establishes the bracket outright; a tick
/// skipped by the elapsed-time guard preserves it.
pub proof fn lemma_update_extremes_bracket(m: EngineModel, s: RawSample)
    requires
        m.incoming.minimum <= m.incoming.current <= m.incoming.maximum,
        m.outgoing.minimum <= m.outgoing.current <= m.outgoing.maximum,
    ensures
        spec_engine_update(m, s).incoming.minimum <= spec_engine_update(m, s).incoming.current,
        spec_engine_update(m, s).incoming.current <= spec_engine_update(m, s).incoming.maximum,
        spec_engine_update(m, s).outgoing.minimum <= spec_engine_update(m, s).outgoing.current,
        spec_engine_update(m, s).outgoing.current <= spec_engine_update(m, s).outgoing.maximum,
{
}

} // verus!
