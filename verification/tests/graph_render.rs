//! Tests for scale selection and grid rendering.

use winload::graph::{render_graph, select_scale};
use winload::window::HistoryWindow;

fn window_with(cap: usize, values: &[u64]) -> HistoryWindow {
    let mut w = HistoryWindow::new(cap);
    for &v in values {
        w.push(v);
    }
    w
}

#[test]
fn scale_snaps_to_next_power_of_two() {
    assert_eq!(select_scale(1500), 2048);
    assert_eq!(select_scale(1), 1);
    assert_eq!(select_scale(2), 2);
    assert_eq!(select_scale(3), 4);
    assert_eq!(select_scale(1024), 1024);
    assert_eq!(select_scale(1025), 2048);
}

#[test]
fn scale_floor_for_idle_graph() {
    assert_eq!(select_scale(0), 1);
}

#[test]
fn scale_is_monotone_in_the_peak() {
    let peaks = [0u64, 1, 5, 5, 900, 1024, 1500, 1500, 70_000, u64::MAX];
    let mut last: u64 = 0;
    for p in peaks {
        let s = select_scale(p);
        assert!(s >= last);
        // Every output sits on the power-of-two ladder.
        assert!(s.is_power_of_two());
        last = s;
    }
}

#[test]
fn render_dimensions_for_every_history_length() {
    let scale = 1024;
    for n in [0usize, 3, 8, 30] {
        let values: Vec<u64> = (0..n as u64).map(|i| i * 10).collect();
        let w = window_with(64, &values);
        let grid = render_graph(&w, 8, 5, scale);
        assert_eq!(grid.len(), 5);
        for row in &grid {
            assert_eq!(row.chars().count(), 8);
        }
    }
    // Degenerate dimensions: empty output, not an error.
    let w = window_with(4, &[1, 2]);
    assert_eq!(render_graph(&w, 0, 5, scale).len(), 5);
    assert!(render_graph(&w, 0, 5, scale).iter().all(|r| r.is_empty()));
    assert_eq!(render_graph(&w, 7, 0, scale).len(), 0);
}

#[test]
fn render_uses_most_recent_samples_right_aligned() {
    // 50 samples into a 30-column grid: only the newest 30 are drawn.
    // The oldest 20 are zero and the newest 30 are at full scale, so a
    // renderer using the newest 30 fills the whole bottom row.
    let mut values = vec![0u64; 20];
    values.extend(std::iter::repeat(64).take(30));
    let w = window_with(64, &values);
    let grid = render_graph(&w, 30, 4, 64);
    assert_eq!(grid[3], "#".repeat(30));
    assert_eq!(grid[0], "#".repeat(30));
}

#[test]
fn render_left_pads_short_history_with_blanks() {
    // 10 samples into a 30-column grid: 20 blank columns on the left.
    let values = vec![64u64; 10];
    let w = window_with(64, &values);
    let grid = render_graph(&w, 30, 4, 64);
    let expected_bottom = format!("{}{}", " ".repeat(20), "#".repeat(10));
    assert_eq!(grid[3], expected_bottom);
}

#[test]
fn render_rows_filled_partial_and_background() {
    // One column at half scale in a 4-row grid: two filled rows, no
    // partial row, two background rows.
    let w = window_with(4, &[32]);
    let grid = render_graph(&w, 1, 4, 64);
    assert_eq!(grid, vec![".", ".", "#", "#"]);

    // A value whose bar top falls inside a row gets a partial-top cell.
    let w = window_with(4, &[40]);
    let grid = render_graph(&w, 1, 4, 64);
    assert_eq!(grid, vec![".", "|", "#", "#"]);

    // Zero rate: background only.
    let w = window_with(4, &[0]);
    let grid = render_graph(&w, 1, 4, 64);
    assert_eq!(grid, vec![".", ".", ".", "."]);

    // Full scale: all rows filled.
    let w = window_with(4, &[64]);
    let grid = render_graph(&w, 1, 4, 64);
    assert_eq!(grid, vec!["#", "#", "#", "#"]);

    // Values above the scale are clamped, not overflowing the grid.
    let w = window_with(4, &[1000]);
    let grid = render_graph(&w, 1, 4, 64);
    assert_eq!(grid, vec!["#", "#", "#", "#"]);
}
