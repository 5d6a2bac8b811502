//! Scale selection and rasterization: a peak value is snapped to a
//! stable power-of-two full-scale bound, and a bounded time-series is
//! turned into a fixed-size character grid.

use vstd::arithmetic::power2::pow2;
use vstd::prelude::*;
use vstd::string::StringExecFns;

use crate::window::HistoryWindow;

verus! {

/// Ceiling of the base-2 logarithm: the smallest `k` with `2^k >= n`
/// (0 for `n <= 1`).
pub open spec fn spec_log2_up(n: int) -> nat
    decreases n,
{
    if n <= 1 {
        0
    } else {
        1 + spec_log2_up((n + 1) / 2)
    }
}

/// The full-scale bound for a given display peak: a floor of 1 byte/s
/// for an idle graph, otherwise the smallest power of two at or above
/// the peak, saturating at 2^63 (the largest power of two a `u64` rate
/// can reach).  Snapping to powers of two makes the vertical scale
/// move in large, infrequent, visually stable steps.
pub open spec fn spec_scale(peak: u64) -> int {
    if peak == 0 {
        1
    } else if spec_log2_up(peak as int) > 63 {
        pow2(63) as int
    } else {
        pow2(spec_log2_up(peak as int)) as int
    }
}

proof fn lemma_log2_up_covers(n: int)
    requires
        n >= 1,
    ensures
        pow2(spec_log2_up(n)) >= n,
    decreases n,
{
    if n > 1 {
        let m = (n + 1) / 2;
        lemma_log2_up_covers(m);
        vstd::arithmetic::power2::lemma_pow2_unfold(spec_log2_up(n));
        assert(2 * m >= n);
    } else {
        assert(pow2(0) == 1) by {
            vstd::arithmetic::power2::lemma2_to64();
            vstd::arithmetic::power2::lemma2_to64_rest();
        }
    }
}

proof fn lemma_log2_up_minimal(n: int)
    requires
        n >= 2,
    ensures
        spec_log2_up(n) >= 1,
        pow2((spec_log2_up(n) - 1) as nat) < n,
    decreases n,
{
    let m = (n + 1) / 2;
    if m >= 2 {
        lemma_log2_up_minimal(m);
        vstd::arithmetic::power2::lemma_pow2_unfold((spec_log2_up(n) - 1) as nat);
        assert(pow2((spec_log2_up(m) - 1) as nat) <= m - 1);
        assert(2 * (m - 1) < n);
    } else {
        assert(spec_log2_up(m) == 0);
        assert(pow2(0) == 1) by {
            vstd::arithmetic::power2::lemma2_to64();
            vstd::arithmetic::power2::lemma2_to64_rest();
        }
    }
}

proof fn lemma_log2_up_monotone(a: int, b: int)
    requires
        a <= b,
    ensures
        spec_log2_up(a) <= spec_log2_up(b),
    decreases b,
{
    if a > 1 {
        lemma_log2_up_monotone((a + 1) / 2, (b + 1) / 2);
    }
}

proof fn lemma_pow2_le(e1: nat, e2: nat)
    requires
        e1 <= e2,
    ensures
        pow2(e1) <= pow2(e2),
{
    if e1 < e2 {
        vstd::arithmetic::power2::lemma_pow2_strictly_increases(e1, e2);
    }
}

/// Selects the graph's full-scale bound for the given history peak:
/// the smallest power of two at or above it (with a floor of 1 and a
/// cap of 2^63), so the result always lies on the fixed power-of-two
/// ladder.
pub fn select_scale(peak: u64) -> (r: u64)
    ensures
        r == spec_scale(peak),
        r >= 1,
        exists|k: nat| k <= 63 && r == pow2(k),
{
    proof {
        vstd::arithmetic::power2::lemma2_to64();
        vstd::arithmetic::power2::lemma2_to64_rest();
    }
    let mut s: u64 = 1;
    let ghost mut k: nat = 0;
    while s < peak && s < 0x8000000000000000u64
        invariant
            s == pow2(k),
            k <= 63,
            k > 0 ==> pow2((k - 1) as nat) < peak,
        decreases u64::MAX - s,
    {
        proof {
            vstd::arithmetic::power2::lemma_pow2_pos(k);
            vstd::arithmetic::power2::lemma_pow2_unfold((k + 1) as nat);
            vstd::arithmetic::power2::lemma2_to64();
            vstd::arithmetic::power2::lemma2_to64_rest();
        }
        s = s * 2;
        proof {
            k = k + 1;
        }
    }
    proof {
        vstd::arithmetic::power2::lemma2_to64();
        vstd::arithmetic::power2::lemma2_to64_rest();
        if peak == 0 {
            assert(s == 1);
        } else if s >= peak {
            let j = spec_log2_up(peak as int);
            lemma_log2_up_covers(peak as int);
            if k < j {
                if j >= 1 {
                    lemma_pow2_le(k, (j - 1) as nat);
                    lemma_log2_up_minimal(peak as int);
                }
                assert(false);
            }
            if k > j {
                lemma_pow2_le(j, (k - 1) as nat);
                lemma_log2_up_minimal(peak as int);
                assert(false);
            }
            assert(k == j);
            if j > 63 {
                assert(false);
            }
        } else {
            // the cap: the peak is above 2^63
            assert(s >= 0x8000000000000000u64);
            assert(pow2(63) == 0x8000000000000000);
            if k < 63 {
                vstd::arithmetic::power2::lemma_pow2_strictly_increases(k, 63);
                assert(s < 0x8000000000000000u64);
            }
            assert(k == 63);
            assert(s == pow2(63));
            if spec_log2_up(peak as int) <= 63 {
                lemma_log2_up_covers(peak as int);
                lemma_pow2_le(spec_log2_up(peak as int), 63);
                assert(false);
            }
        }
    }
    s
}

/// Law: with a non-decreasing sequence of peaks the selected scale
/// never decreases, so the graph's vertical bound is visually stable.
pub proof fn lemma_scale_monotone(p1: u64, p2: u64)
    requires
        p1 <= p2,
    ensures
        spec_scale(p1) <= spec_scale(p2),
{
    vstd::arithmetic::power2::lemma2_to64();
    vstd::arithmetic::power2::lemma2_to64_rest();
    if p1 == 0 {
        if p2 != 0 {
            vstd::arithmetic::power2::lemma_pow2_pos(spec_log2_up(p2 as int));
            if spec_log2_up(p2 as int) > 63 {
                lemma_pow2_le(0, 63);
            } else {
                lemma_pow2_le(0, spec_log2_up(p2 as int));
            }
        }
    } else {
        lemma_log2_up_monotone(p1 as int, p2 as int);
        let j1 = spec_log2_up(p1 as int);
        let j2 = spec_log2_up(p2 as int);
        if j1 > 63 || j2 > 63 {
            if j1 <= 63 {
                lemma_pow2_le(j1, 63);
            }
        } else {
            lemma_pow2_le(j1, j2);
        }
    }
}

/// The value a column is drawn with: the sample clamped to the
/// full-scale bound.
pub open spec fn spec_clamp(v: u64, scale: int) -> int {
    if v > scale {
        scale
    } else {
        v as int
    }
}

/// How many rows of a column are completely filled: the clamped value
/// scaled to the grid height, rounded down.
pub open spec fn spec_full_rows(v: u64, scale: int, height: int) -> int
    recommends
        scale >= 1,
{
    spec_clamp(v, scale) * height / scale
}

/// Whether the exact bar top falls strictly inside the next row, so
/// that row is drawn as a partial-top cell to approximate sub-row
/// resolution.
pub open spec fn spec_has_partial(v: u64, scale: int, height: int) -> bool
    recommends
        scale >= 1,
{
    spec_clamp(v, scale) * height % scale != 0
}

/// One cell of a data column, counting rows from the bottom of the
/// grid: filled (`#`) below the bar top, partial-top (`|`) where the
/// bar top falls inside a row, background (`.`) above.
pub open spec fn spec_cell(v: u64, scale: int, height: int, row_from_bottom: int) -> char {
    if row_from_bottom < spec_full_rows(v, scale, height) {
        '#'
    } else if row_from_bottom == spec_full_rows(v, scale, height) && spec_has_partial(
        v,
        scale,
        height,
    ) {
        '|'
    } else {
        '.'
    }
}

/// The character at (row, col) of the rendered grid, rows counted from
/// the top.  When the history holds at least `width` samples only the
/// most recent `width` are shown, right-aligned; a shorter history is
/// left-padded with blank columns so the newest data still lands at
/// the right edge.
pub open spec fn spec_grid_char(
    hist: Seq<u64>,
    width: int,
    height: int,
    scale: int,
    row: int,
    col: int,
) -> char {
    if hist.len() >= width {
        spec_cell(hist[hist.len() - width + col], scale, height, height - 1 - row)
    } else if col < width - hist.len() {
        ' '
    } else {
        spec_cell(hist[col - (width - hist.len())], scale, height, height - 1 - row)
    }
}

/// Computes how many rows of a column are filled and whether a
/// partial-top cell sits above them.
fn bar_shape(v: u64, scale: u64, height: usize) -> (r: (usize, bool))
    requires
        scale >= 1,
    ensures
        r.0 == spec_full_rows(v, scale as int, height as int),
        r.1 == spec_has_partial(v, scale as int, height as int),
        r.0 <= height,
{
    let vc: u64 = if v > scale {
        scale
    } else {
        v
    };
    proof {
        vstd::arithmetic::mul::lemma_mul_upper_bound(
            vc as int,
            u64::MAX as int,
            height as int,
            u64::MAX as int,
        );
    }
    let num: u128 = (vc as u128) * (height as u128);
    proof {
        vstd::arithmetic::mul::lemma_mul_inequality(vc as int, scale as int, height as int);
        vstd::arithmetic::div_mod::lemma_div_is_ordered(
            vc as int * height as int,
            scale as int * height as int,
            scale as int,
        );
        vstd::arithmetic::div_mod::lemma_div_multiples_vanish(height as int, scale as int);
        vstd::arithmetic::div_mod::lemma_div_pos_is_pos(vc as int * height as int, scale as int);
    }
    let full: u128 = num / (scale as u128);
    let rem: u128 = num % (scale as u128);
    ((full as usize), rem != 0)
}

/// One cell's glyph for a data column, with `row` counted from the top
/// of the grid.
fn cell_glyph(v: u64, scale: u64, height: usize, row: usize) -> (r: &'static str)
    requires
        scale >= 1,
        row < height,
    ensures
        r@ == seq![spec_cell(v, scale as int, height as int, height - 1 - row)],
{
    let (full, partial) = bar_shape(v, scale, height);
    let rfb = height - 1 - row;
    if rfb < full {
        proof {
            reveal_strlit("#");
        }
        "#"
    } else if rfb == full && partial {
        proof {
            reveal_strlit("|");
        }
        "|"
    } else {
        proof {
            reveal_strlit(".");
        }
        "."
    }
}

/// Renders the history into a grid of exactly `height` rows of exactly
/// `width` characters each, over the closed cell alphabet: `#` filled,
/// `|` partial-top, `.` background (empty plot area), ` ` blank (no
/// data column).  Zero dimensions yield an empty grid rather than an
/// error; a positive full-scale bound is guaranteed by scale
/// selection, so no division by zero exists here.
pub fn render_graph(history: &HistoryWindow, width: usize, height: usize, scale: u64) -> (r: Vec<
    String,
>)
    requires
        scale >= 1,
    ensures
        r@.len() == height,
        forall|i: int| 0 <= i < height ==> (#[trigger] r@[i])@.len() == width,
        forall|i: int, j: int|
            0 <= i < height && 0 <= j < width ==> #[trigger] r@[i]@[j] == spec_grid_char(
                history@,
                width as int,
                height as int,
                scale as int,
                i,
                j,
            ),
{
    let len = history.len();
    let mut rows: Vec<String> = Vec::new();
    let mut i: usize = 0;
    while i < height
        invariant
            scale >= 1,
            len == history@.len(),
            i <= height,
            rows@.len() == i,
            forall|a: int| 0 <= a < i ==> (#[trigger] rows@[a])@.len() == width,
            forall|a: int, b: int|
                0 <= a < i && 0 <= b < width ==> #[trigger] rows@[a]@[b] == spec_grid_char(
                    history@,
                    width as int,
                    height as int,
                    scale as int,
                    a,
                    b,
                ),
        decreases height - i,
    {
        let mut row = String::new();
        let mut j: usize = 0;
        while j < width
            invariant
                scale >= 1,
                len == history@.len(),
                i < height,
                j <= width,
                row@.len() == j,
                forall|b: int|
                    0 <= b < j ==> #[trigger] row@[b] == spec_grid_char(
                        history@,
                        width as int,
                        height as int,
                        scale as int,
                        i as int,
                        b,
                    ),
            decreases width - j,
        {
            let ch: &'static str;
            if len >= width {
                let v = history.get(len - width + j);
                ch = cell_glyph(v, scale, height, i);
            } else if j < width - len {
                proof {
                    reveal_strlit(" ");
                }
                ch = " ";
            } else {
                let v = history.get(j - (width - len));
                ch = cell_glyph(v, scale, height, i);
            }
            let ghost before = row@;
            row.append(ch);
            proof {
                assert(row@ == before + ch@);
            }
            j += 1;
        }
        rows.push(row);
        i += 1;
    }
    rows
}

} // verus!
