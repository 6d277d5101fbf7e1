//! Properties that relate the aggregators and their operations.
use vstd::prelude::*;
use crate::model::{
    lemma_max_props, lemma_min_props, lemma_pow10_mono, lemma_sum_bounds, lemma_variance_nonneg, pow10,
    recent,
};
use crate::naive::NaiveCalculator;
use crate::optimized::{InnerCalc, OptimizedCalculator};
use crate::stats::{seq_max, seq_min, summary, variance_numerator, StatsResponse};
use crate::Calculator;

verus! {

/// The multi-window aggregator and a reference aggregator that holds at
/// least `10^max_exponent` observations, fed the same observations, report
/// the same statistics for every valid window exponent.
pub proof fn naive_matches_optimized(n: &NaiveCalculator, o: &OptimizedCalculator, k: u8)
    requires
        n.wf(),
        o.wf(),
        n.history() == o.history(),
        pow10(o.spec_max_exponent()) <= n.spec_capacity(),
        1 <= k <= o.spec_max_exponent(),
    ensures
        n.accepts(k),
        o.accepts(k),
        summary(recent(n.history(), n.span(k) as int)) == summary(
            recent(o.history(), o.span(k) as int),
        ),
{
    lemma_pow10_mono(k as nat, o.spec_max_exponent());
}

/// Splitting a batch into two appends, at any point, leaves the statistics
/// unchanged: they depend on the sequence of observations alone. Appending
/// values one at a time follows by splitting repeatedly.
pub proof fn batching_is_invisible(
    a: &OptimizedCalculator,
    b: &OptimizedCalculator,
    h: Seq<i32>,
    xs: Seq<i32>,
    m: int,
    k: u8,
)
    requires
        a.wf(),
        b.wf(),
        a.spec_max_exponent() == b.spec_max_exponent(),
        0 <= m <= xs.len(),
        a.history() == h + xs,
        b.history() == h + xs.subrange(0, m) + xs.subrange(m, xs.len() as int),
    ensures
        a.accepts(k) == b.accepts(k),
        summary(recent(a.history(), a.span(k) as int)) == summary(
            recent(b.history(), b.span(k) as int),
        ),
{
    assert(h + xs.subrange(0, m) + xs.subrange(m, xs.len() as int) =~= h + xs);
}

/// After `capacity + m` observations (`m >= 1`) a window holds exactly
/// `capacity` of them: the most recent ones, the oldest `m` dropped.
pub proof fn window_eviction_keeps_latest(c: &InnerCalc, m: int)
    requires
        c.wf(),
        m >= 1,
        c.history().len() == c.spec_capacity() + m,
    ensures
        c.window().len() == c.spec_capacity(),
        c.window() == c.history().subrange(m, c.history().len() as int),
{
}

/// After `capacity + m` observations (`m >= 1`) the reference aggregator
/// holds exactly `capacity` of them: the most recent ones, newest first.
pub proof fn naive_eviction_keeps_latest(n: &NaiveCalculator, m: int)
    requires
        n.wf(),
        m >= 1,
        n.history().len() == n.spec_capacity() + m,
    ensures
        recent(n.history(), n.spec_capacity() as int).len() == n.spec_capacity(),
        recent(n.history(), n.spec_capacity() as int) == n.history().subrange(
            m,
            n.history().len() as int,
        ),
{
}

/// When the oldest observation of a full window is its least value and a
/// later observation repeats it, the least value stays the same after the
/// next append evicts the oldest occurrence (unless the new value is below it).
pub proof fn duplicate_min_survives_eviction(c: &InnerCalc, j: int, v: i32)
    requires
        c.wf(),
        c.window().len() == c.spec_capacity(),
        0 < j < c.window().len(),
        c.window()[j] == c.window()[0],
        c.window()[0] == seq_min(c.window()),
        v >= c.window()[0],
    ensures
        summary(recent(c.history().push(v), c.spec_capacity() as int)).min == c.window()[0],
{
    let w = c.window();
    let h2 = c.history().push(v);
    let w2 = recent(h2, c.spec_capacity() as int);
    assert(w2 =~= w.subrange(1, w.len() as int).push(v));
    lemma_min_props(w);
    lemma_min_props(w2);
    let x = seq_min(w2);
    let i = choose|i: int| 0 <= i < w2.len() && w2[i] == x;
    if i < w2.len() - 1 {
        assert(w2[i] == w[i + 1]);
    }
    assert(x <= w2[j - 1]);
}

/// When the oldest observation of a full window is its greatest value and a
/// later observation repeats it, the greatest value stays the same after the
/// next append evicts the oldest occurrence (unless the new value is above it).
pub proof fn duplicate_max_survives_eviction(c: &InnerCalc, j: int, v: i32)
    requires
        c.wf(),
        c.window().len() == c.spec_capacity(),
        0 < j < c.window().len(),
        c.window()[j] == c.window()[0],
        c.window()[0] == seq_max(c.window()),
        v <= c.window()[0],
    ensures
        summary(recent(c.history().push(v), c.spec_capacity() as int)).max == c.window()[0],
{
    let w = c.window();
    let h2 = c.history().push(v);
    let w2 = recent(h2, c.spec_capacity() as int);
    assert(w2 =~= w.subrange(1, w.len() as int).push(v));
    lemma_max_props(w);
    lemma_max_props(w2);
    let x = seq_max(w2);
    let i = choose|i: int| 0 <= i < w2.len() && w2[i] == x;
    if i < w2.len() - 1 {
        assert(w2[i] == w[i + 1]);
    }
    assert(x >= w2[j - 1]);
}

/// The statistics of any window have a variance numerator that is not
/// negative: `variance_fraction` turns down only an empty window or a term
/// that does not fit in 128 bits.
pub proof fn window_variance_nonneg(w: Seq<i32>)
    requires
        w.len() <= u64::MAX,
    ensures
        variance_numerator(summary(w)) >= 0,
{
    if w.len() > 0 {
        lemma_sum_bounds(w);
        lemma_variance_nonneg(w);
        let n = w.len() as int;
        assert(n * 0x8000_0000 < 0x7fff_ffff_ffff_ffff_ffff_ffff_ffff_ffff && n
            * 0x4000_0000_0000_0000 <= u128::MAX) by (nonlinear_arith)
            requires
                0 <= n <= u64::MAX,
        ;
    }
}

/// An aggregator that has seen no observation reports all-zero statistics.
pub proof fn fresh_stats_are_zero<C: Calculator>(c: &C, k: u8)
    requires
        c.history().len() == 0,
    ensures
        summary(recent(c.history(), c.span(k) as int)) == (StatsResponse {
            last: 0,
            min: 0,
            max: 0,
            count: 0,
            sum: 0,
            sum_sq: 0,
        }),
{
}

/// The multi-window aggregator turns down the exponents `0` and
/// `max_exponent + 1`.
pub proof fn out_of_range_exponents_rejected(o: &OptimizedCalculator)
    requires
        o.wf(),
        o.spec_max_exponent() < 255,
    ensures
        !o.accepts(0),
        !o.accepts((o.spec_max_exponent() + 1) as u8),
{
}

} // verus!
