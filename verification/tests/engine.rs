//! Tests for the rate sampler and the statistics aggregator.

use winload::sample::{compute_rate, RawSample};
use winload::stats::StatisticsEngine;
use winload::window::HistoryWindow;

fn sample(rx: u64, tx: u64, time_ms: u64) -> RawSample {
    RawSample { rx_bytes: rx, tx_bytes: tx, time_ms }
}

#[test]
fn rate_is_nonnegative_for_increasing_counters() {
    let mut prev: u64 = 0;
    let steps = [0u64, 10, 10, 500, 1_000_000, 1_000_000];
    let mut t: u64 = 0;
    for inc in steps {
        let cur = prev + inc;
        let (delta, rate) = compute_rate(prev, cur, 250);
        assert_eq!(delta, inc);
        assert_eq!(rate, inc * 4); // 250 ms elapsed, so rate = delta * 4
        prev = cur;
        t += 250;
    }
    assert!(t > 0);
}

#[test]
fn counter_decrease_gives_zero_rate() {
    let (delta, rate) = compute_rate(1000, 999, 500);
    assert_eq!(delta, 0);
    assert_eq!(rate, 0);
}

#[test]
fn constant_traffic_scenario() {
    // interval 500 ms, averaging window 10 s => capacity 20.
    let mut engine = StatisticsEngine::new(500, 10);
    for tick in 0..25u64 {
        engine.update(sample(1000 * tick, 0, 500 * tick));
    }
    // 1000 bytes per 0.5 s tick = 2000 bytes/second once a baseline exists.
    assert_eq!(engine.incoming.current, 2000);
    assert_eq!(engine.incoming.average, 2000);
    assert_eq!(engine.incoming.maximum, 2000);
    // The first, baseline-less tick records rate 0.
    assert_eq!(engine.incoming.minimum, 0);
    // 24 ticks actually moved 1000 bytes each.
    assert_eq!(engine.incoming.total, 24_000);
    // The window is full at its capacity of 20 entries.
    assert_eq!(engine.incoming_history.len(), 20);
}

#[test]
fn wraparound_scenario() {
    let mut engine = StatisticsEngine::new(500, 10);
    engine.update(sample(4294967290, 0, 0));
    let total_before = engine.incoming.total;
    engine.update(sample(50, 0, 500));
    // The counter went backwards: the rate is exactly 0 and the total
    // is unchanged by this tick's delta.
    assert_eq!(engine.incoming.current, 0);
    assert_eq!(engine.incoming.total, total_before);
}

#[test]
fn extremes_bracket_current_after_every_update() {
    let mut engine = StatisticsEngine::new(100, 1);
    let increments = [0u64, 50, 5000, 0, 120, 7, 7, 100_000];
    let mut rx: u64 = 0;
    let mut t: u64 = 0;
    for inc in increments {
        rx += inc;
        t += 100;
        engine.update(sample(rx, rx / 2, t));
        assert!(engine.incoming.minimum <= engine.incoming.current);
        assert!(engine.incoming.current <= engine.incoming.maximum);
        assert!(engine.outgoing.minimum <= engine.outgoing.current);
        assert!(engine.outgoing.current <= engine.outgoing.maximum);
    }
}

#[test]
fn near_zero_elapsed_time_skips_update() {
    let mut engine = StatisticsEngine::new(500, 10);
    engine.update(sample(0, 0, 0));
    engine.update(sample(1000, 1000, 500));
    let before_current = engine.incoming.current;
    let before_total = engine.incoming.total;
    let before_len = engine.incoming_history.len();
    // Same capture instant as the previous sample: skipped entirely.
    engine.update(sample(9999, 9999, 500));
    assert_eq!(engine.incoming.current, before_current);
    assert_eq!(engine.incoming.total, before_total);
    assert_eq!(engine.incoming_history.len(), before_len);
}

#[test]
fn window_length_is_min_of_ticks_and_capacity() {
    let mut w = HistoryWindow::new(3);
    for i in 0..2u64 {
        w.push(i);
    }
    assert_eq!(w.len(), 2);
    for i in 0..100u64 {
        w.push(i);
    }
    assert_eq!(w.len(), 3);
    // Ring semantics: the oldest entries were evicted.
    assert_eq!(w.get(0), 97);
    assert_eq!(w.get(1), 98);
    assert_eq!(w.get(2), 99);
}

#[test]
fn window_average_and_peak() {
    let mut w = HistoryWindow::new(10);
    assert_eq!(w.average(), 0);
    assert_eq!(w.peak(), 0);
    w.push(10);
    w.push(20);
    w.push(31);
    assert_eq!(w.average(), 20); // floor of 61 / 3
    assert_eq!(w.peak(), 31);
    // The average lies between the smallest and largest entry.
    assert!(10 <= w.average() && w.average() <= w.peak());
}

#[test]
fn one_sample_window_from_tiny_configuration() {
    // averaging window 0 s is clamped to a 1-sample window.
    let mut engine = StatisticsEngine::new(500, 0);
    engine.update(sample(0, 0, 0));
    engine.update(sample(500, 0, 500));
    engine.update(sample(2500, 0, 1000));
    assert_eq!(engine.incoming_history.len(), 1);
    // With a single-entry window, average equals current.
    assert_eq!(engine.incoming.current, 4000);
    assert_eq!(engine.incoming.average, 4000);
}
