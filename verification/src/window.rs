//! The bounded history window: an ordered, fixed-capacity sequence of
//! rate values, oldest first.  Insertion evicts the oldest entry once
//! the window is at capacity (ring semantics).  A running sum is kept
//! incrementally so the rolling average costs O(1) per tick.

use std::collections::VecDeque;
use vstd::prelude::*;

verus! {

/// Mathematical sum of a sequence of rates.
pub open spec fn sum_of(s: Seq<u64>) -> int
    decreases s.len(),
{
    if s.len() == 0 {
        0
    } else {
        sum_of(s.drop_last()) + s.last()
    }
}

/// What one insertion does to the window's contents: append, evicting
/// the oldest entry first when the window is at capacity.
pub open spec fn spec_push_window(s: Seq<u64>, cap: int, v: u64) -> Seq<u64> {
    if s.len() < cap {
        s.push(v)
    } else {
        s.subrange(1, s.len() as int).push(v)
    }
}

/// The rolling average: the floor of sum / length, or 0 for an empty
/// window.
pub open spec fn spec_average(s: Seq<u64>) -> int {
    if s.len() == 0 {
        0
    } else {
        sum_of(s) / s.len() as int
    }
}

/// The largest entry of the window, or 0 when it is empty.
pub open spec fn spec_peak(s: Seq<u64>) -> int
    decreases s.len(),
{
    if s.len() == 0 {
        0
    } else if spec_peak(s.drop_last()) >= s.last() {
        spec_peak(s.drop_last())
    } else {
        s.last() as int
    }
}

proof fn lemma_sum_nonneg(s: Seq<u64>)
    ensures
        sum_of(s) >= 0,
    decreases s.len(),
{
    if s.len() > 0 {
        lemma_sum_nonneg(s.drop_last());
    }
}

proof fn lemma_sum_bound(s: Seq<u64>)
    ensures
        sum_of(s) <= s.len() * u64::MAX,
    decreases s.len(),
{
    if s.len() > 0 {
        lemma_sum_bound(s.drop_last());
        assert(s.drop_last().len() * u64::MAX + u64::MAX == s.len() * u64::MAX)
            by (nonlinear_arith)
            requires
                s.len() >= 1,
                s.drop_last().len() == s.len() - 1,
        ;
    }
}

proof fn lemma_sum_first(s: Seq<u64>)
    requires
        s.len() > 0,
    ensures
        sum_of(s) == s[0] + sum_of(s.subrange(1, s.len() as int)),
    decreases s.len(),
{
    if s.len() == 1 {
        assert(sum_of(s.drop_last()) == 0);
        assert(sum_of(s.subrange(1, 1)) == 0);
        assert(s.last() == s[0]);
    } else {
        let t = s.drop_last();
        let u = s.subrange(1, s.len() as int);
        lemma_sum_first(t);
        assert(t[0] == s[0]);
        assert(t.subrange(1, t.len() as int) =~= u.drop_last());
        assert(u.last() == s.last());
        assert(sum_of(u) == sum_of(u.drop_last()) + u.last());
    }
}

/// The bounded, oldest-first ring buffer of rate values.  Feeds both
/// the rolling average and the graph.
pub struct HistoryWindow {
    entries: VecDeque<u64>,
    capacity: usize,
    sum: u128,
}

impl View for HistoryWindow {
    type V = Seq<u64>;

    closed spec fn view(&self) -> Seq<u64> {
        self.entries@
    }
}

impl HistoryWindow {
    /// Well-formedness: a positive capacity bounds the length, and the
    /// running sum equals the sum of the entries.
    pub closed spec fn wf(&self) -> bool {
        &&& self.capacity >= 1
        &&& self.entries@.len() <= self.capacity
        &&& self.sum == sum_of(self.entries@)
    }

    /// The fixed capacity the window was created with.
    pub closed spec fn cap(&self) -> int {
        self.capacity as int
    }

    /// An empty window of the given capacity.
    pub fn new(capacity: usize) -> (r: HistoryWindow)
        requires
            capacity >= 1,
        ensures
            r.wf(),
            r.cap() == capacity,
            r@ == Seq::<u64>::empty(),
    {
        let r = HistoryWindow { entries: VecDeque::new(), capacity, sum: 0 };
        proof {
            assert(r.entries@ =~= Seq::<u64>::empty());
        }
        r
    }

    /// How many entries the window currently holds.
    pub fn len(&self) -> (r: usize)
        ensures
            r == self@.len(),
    {
        self.entries.len()
    }

    /// The entry at position `i`, oldest first.
    pub fn get(&self, i: usize) -> (r: u64)
        requires
            i < self@.len(),
        ensures
            r == self@[i as int],
    {
        self.entries[i]
    }

    /// Inserts one rate, evicting the oldest entry first if the window
    /// is at capacity.
    pub fn push(&mut self, v: u64)
        requires
            old(self).wf(),
        ensures
            final(self).wf(),
            final(self).cap() == old(self).cap(),
            final(self)@ == spec_push_window(old(self)@, old(self).cap(), v),
    {
        proof {
            lemma_sum_nonneg(self.entries@);
            lemma_sum_bound(self.entries@);
            assert(self.entries@.len() * u64::MAX <= usize::MAX * (u64::MAX as int))
                by (nonlinear_arith)
                requires
                    self.entries@.len() <= usize::MAX,
            ;
        }
        if self.entries.len() == self.capacity {
            let ghost s = self.entries@;
            let evicted = self.entries.pop_front();
            proof {
                lemma_sum_first(s);
                lemma_sum_nonneg(s.subrange(1, s.len() as int));
            }
            self.sum = self.sum - (evicted.unwrap() as u128);
        }
        let ghost t = self.entries@;
        self.entries.push_back(v);
        self.sum = self.sum + (v as u128);
        proof {
            assert(self.entries@.drop_last() =~= t);
            assert(sum_of(self.entries@) == sum_of(t) + v);
        }
    }

    /// The rolling average of the current entries (0 when empty).
    pub fn average(&self) -> (r: u64)
        requires
            self.wf(),
        ensures
            r == spec_average(self@),
    {
        let n = self.entries.len();
        if n == 0 {
            0
        } else {
            proof {
                lemma_sum_nonneg(self.entries@);
                lemma_sum_bound(self.entries@);
                let len = self.entries@.len() as int;
                vstd::arithmetic::div_mod::lemma_div_is_ordered(
                    sum_of(self.entries@),
                    len * u64::MAX,
                    len,
                );
                vstd::arithmetic::div_mod::lemma_div_multiples_vanish(u64::MAX as int, len);
                vstd::arithmetic::div_mod::lemma_div_pos_is_pos(sum_of(self.entries@), len);
            }
            (self.sum / (n as u128)) as u64
        }
    }

    /// The largest entry currently in the window (0 when empty): the
    /// peak that scale selection works from.
    pub fn peak(&self) -> (r: u64)
        ensures
            r == spec_peak(self@),
    {
        let mut best: u64 = 0;
        let n = self.entries.len();
        let mut i: usize = 0;
        while i < n
            invariant
                n == self@.len(),
                i <= n,
                best == spec_peak(self@.subrange(0, i as int)),
            decreases n - i,
        {
            let v = self.entries[i];
            proof {
                let p = self@.subrange(0, i + 1 as int);
                assert(p.drop_last() =~= self@.subrange(0, i as int));
                assert(p.last() == self@[i as int]);
            }
            if v > best {
                best = v;
            }
            i += 1;
        }
        proof {
            assert(self@.subrange(0, self@.len() as int) =~= self@);
        }
        best
    }
}

/// The smallest entry of a non-empty window.
pub open spec fn spec_low(s: Seq<u64>) -> int
    recommends
        s.len() > 0,
    decreases s.len(),
{
    if s.len() <= 1 {
        s.last() as int
    } else if spec_low(s.drop_last()) <= s.last() {
        spec_low(s.drop_last())
    } else {
        s.last() as int
    }
}

proof fn lemma_sum_between_extremes(s: Seq<u64>)
    requires
        s.len() > 0,
    ensures
        s.len() * spec_low(s) <= sum_of(s),
        sum_of(s) <= s.len() * spec_peak(s),
    decreases s.len(),
{
    let t = s.drop_last();
    if s.len() == 1 {
        assert(sum_of(t) == 0);
    } else {
        lemma_sum_between_extremes(t);
        assert(spec_low(s) <= spec_low(t) && spec_low(s) <= s.last());
        assert(spec_peak(t) <= spec_peak(s) && s.last() <= spec_peak(s));
        assert(s.len() * spec_low(s) <= t.len() * spec_low(t) + spec_low(s)
            && t.len() * spec_peak(t) + spec_peak(s) <= s.len() * spec_peak(s))
            by (nonlinear_arith)
            requires
                t.len() == s.len() - 1,
                s.len() >= 2,
                spec_low(s) <= spec_low(t),
                spec_peak(t) <= spec_peak(s),
        ;
    }
}

/// Law: whenever the window is non-empty, the rolling average lies
/// between the smallest and the largest entry of the window.
pub proof fn lemma_average_between_extremes(s: Seq<u64>)
    requires
        s.len() > 0,
    ensures
        spec_low(s) <= spec_average(s),
        spec_average(s) <= spec_peak(s),
{
    let len = s.len() as int;
    lemma_sum_between_extremes(s);
    vstd::arithmetic::div_mod::lemma_div_is_ordered(len * spec_low(s), sum_of(s), len);
    vstd::arithmetic::div_mod::lemma_div_is_ordered(sum_of(s), len * spec_peak(s), len);
    vstd::arithmetic::div_mod::lemma_div_multiples_vanish(spec_low(s), len);
    vstd::arithmetic::div_mod::lemma_div_multiples_vanish(spec_peak(s), len);
}

/// The contents of a window of capacity `cap` after the rates in
/// `rates` have been pushed in order, starting from an empty window.
pub open spec fn spec_fill(cap: int, rates: Seq<u64>) -> Seq<u64>
    decreases rates.len(),
{
    if rates.len() == 0 {
        Seq::empty()
    } else {
        spec_push_window(spec_fill(cap, rates.drop_last()), cap, rates.last())
    }
}

/// Law: one insertion grows the window by one entry until it reaches
/// capacity, and never past it.
pub proof fn lemma_push_window_len(s: Seq<u64>, cap: int, v: u64)
    requires
        cap >= 1,
        s.len() <= cap,
    ensures
        spec_push_window(s, cap, v).len() == vstd::math::min(s.len() as int + 1, cap),
{
}

/// Law: after any number of ticks the window holds exactly
/// `min(ticks, capacity)` entries; in particular its length never
/// exceeds the capacity computed from the configuration.
pub proof fn lemma_fill_len(cap: int, rates: Seq<u64>)
    requires
        cap >= 1,
    ensures
        spec_fill(cap, rates).len() == vstd::math::min(rates.len() as int, cap),
    decreases rates.len(),
{
    if rates.len() > 0 {
        lemma_fill_len(cap, rates.drop_last());
    }
}

} // verus!
