//! The mathematical model behind the aggregators: powers of ten, the most
//! recent part of a history, position tags, and facts about sums and extremes.
use vstd::prelude::*;
use vstd::arithmetic::div_mod::{lemma_fundamental_div_mod, lemma_add_mod_noop, lemma_small_mod};
use crate::stats::{seq_max, seq_min, seq_sum, seq_sum_sq};

verus! {

/// Number of distinct position tags: positions are tagged modulo 2^64.
pub open spec fn tag_modulus() -> int {
    0x1_0000_0000_0000_0000
}

/// The tag carried by the observation at absolute position `p`.
pub open spec fn tag_of(p: int) -> u64 {
    (p % tag_modulus()) as u64
}

/// `10^k`.
pub open spec fn pow10(k: nat) -> nat
    decreases k,
{
    if k == 0 {
        1
    } else {
        10 * pow10((k - 1) as nat)
    }
}

/// The `n` most recent observations of `h`, oldest first.
pub open spec fn recent(h: Seq<i32>, n: int) -> Seq<i32> {
    if h.len() <= n {
        h
    } else {
        h.subrange(h.len() - n, h.len() as int)
    }
}

pub proof fn lemma_pow10_mono(a: nat, b: nat)
    requires
        a <= b,
    ensures
        1 <= pow10(a) <= pow10(b),
    decreases b,
{
    if b > 0 {
        if a < b {
            lemma_pow10_mono(a, (b - 1) as nat);
        } else {
            lemma_pow10_mono(0, (b - 1) as nat);
        }
    }
}

pub proof fn lemma_tag_step(p: int)
    requires
        p >= 0,
    ensures
        tag_of(p + 1) == (if tag_of(p) == u64::MAX { 0 } else { tag_of(p) + 1 }),
{
    let m = tag_modulus();
    lemma_add_mod_noop(p, 1, m);
    lemma_small_mod(1, m as nat);
    let r = p % m;
    assert(0 <= r < m);
    if r + 1 < m {
        lemma_small_mod((r + 1) as nat, m as nat);
    } else {
        assert((r + 1) % m == 0);
    }
}

/// Two positions closer than the modulus with equal tags are equal.
pub proof fn lemma_tag_unique(base: int, p: int)
    requires
        0 <= base <= p < base + tag_modulus(),
        tag_of(p) == tag_of(base),
    ensures
        p == base,
{
    let m = tag_modulus();
    lemma_fundamental_div_mod(p, m);
    lemma_fundamental_div_mod(base, m);
    let qp = p / m;
    let qb = base / m;
    assert(p - base == m * (qp - qb));
    assert(qp - qb == 0) by (nonlinear_arith)
        requires
            p - base == m * (qp - qb),
            0 <= p - base < m,
            m > 0,
    ;
}

pub proof fn lemma_sum_drop_first(s: Seq<i32>)
    requires
        s.len() > 0,
    ensures
        seq_sum(s) == s[0] as int + seq_sum(s.subrange(1, s.len() as int)),
        seq_sum_sq(s) == (s[0] as int) * (s[0] as int) + seq_sum_sq(s.subrange(1, s.len() as int)),
    decreases s.len(),
{
    let t = s.subrange(1, s.len() as int);
    let d = s.drop_last();
    if s.len() == 1 {
        assert(d.len() == 0);
        assert(seq_sum(d) == 0 && seq_sum_sq(d) == 0);
        assert(t.len() == 0);
        assert(seq_sum(t) == 0 && seq_sum_sq(t) == 0);
    } else {
        lemma_sum_drop_first(d);
        assert(t.drop_last() =~= d.subrange(1, d.len() as int));
        assert(t.last() == s.last());
        assert(d[0] == s[0]);
        assert(seq_sum(t) == seq_sum(t.drop_last()) + t.last() as int);
        assert(seq_sum_sq(t) == seq_sum_sq(t.drop_last()) + (t.last() as int) * (t.last() as int));
    }
}

pub proof fn lemma_sum_bounds(s: Seq<i32>)
    ensures
        -(s.len() as int) * 0x8000_0000 <= seq_sum(s) <= (s.len() as int) * 0x8000_0000,
        0 <= seq_sum_sq(s) <= (s.len() as int) * 0x4000_0000_0000_0000,
    decreases s.len(),
{
    if s.len() > 0 {
        lemma_sum_bounds(s.drop_last());
        let v = s.last() as int;
        assert(0 <= v * v <= 0x4000_0000_0000_0000) by (nonlinear_arith)
            requires
                -0x8000_0000 <= v < 0x8000_0000,
        ;
    }
}

pub proof fn lemma_min_props(s: Seq<i32>)
    requires
        s.len() > 0,
    ensures
        exists|j: int| 0 <= j < s.len() && s[j] == seq_min(s),
        forall|j: int| 0 <= j < s.len() ==> seq_min(s) <= s[j],
    decreases s.len(),
{
    if s.len() == 1 {
        assert(s[0] == seq_min(s));
    } else {
        let d = s.drop_last();
        lemma_min_props(d);
        if s.last() < seq_min(d) {
            assert(s[s.len() - 1] == seq_min(s));
        } else {
            let j = choose|j: int| 0 <= j < d.len() && d[j] == seq_min(d);
            assert(s[j] == seq_min(s));
        }
        assert forall|j: int| 0 <= j < s.len() implies seq_min(s) <= s[j] by {
            if j < s.len() - 1 {
                assert(d[j] == s[j]);
            }
        }
    }
}

pub proof fn lemma_max_props(s: Seq<i32>)
    requires
        s.len() > 0,
    ensures
        exists|j: int| 0 <= j < s.len() && s[j] == seq_max(s),
        forall|j: int| 0 <= j < s.len() ==> seq_max(s) >= s[j],
    decreases s.len(),
{
    if s.len() == 1 {
        assert(s[0] == seq_max(s));
    } else {
        let d = s.drop_last();
        lemma_max_props(d);
        if s.last() > seq_max(d) {
            assert(s[s.len() - 1] == seq_max(s));
        } else {
            let j = choose|j: int| 0 <= j < d.len() && d[j] == seq_max(d);
            assert(s[j] == seq_max(s));
        }
        assert forall|j: int| 0 <= j < s.len() implies seq_max(s) >= s[j] by {
            if j < s.len() - 1 {
                assert(d[j] == s[j]);
            }
        }
    }
}

/// For any `x`, `sum_sq - 2 x sum + n x^2` (the sum of `(s[i] - x)^2`) is
/// not negative.
pub proof fn lemma_spread_around(s: Seq<i32>, x: int)
    ensures
        seq_sum_sq(s) - 2 * x * seq_sum(s) + (s.len() as int) * x * x >= 0,
    decreases s.len(),
{
    if s.len() > 0 {
        let d = s.drop_last();
        lemma_spread_around(d, x);
        let q = seq_sum_sq(d);
        let t = seq_sum(d);
        let n = d.len() as int;
        let y = s.last() as int;
        assert((q + y * y) - 2 * x * (t + y) + (n + 1) * x * x == (q - 2 * x * t + n * x * x) + (y
            - x) * (y - x)) by (nonlinear_arith);
        assert((y - x) * (y - x) >= 0) by (nonlinear_arith);
    }
}

/// `n * sum_sq >= sum^2`: the population variance is never negative.
pub proof fn lemma_variance_nonneg(s: Seq<i32>)
    ensures
        (s.len() as int) * seq_sum_sq(s) >= seq_sum(s) * seq_sum(s),
    decreases s.len(),
{
    if s.len() > 0 {
        let d = s.drop_last();
        lemma_variance_nonneg(d);
        lemma_spread_around(d, s.last() as int);
        let q = seq_sum_sq(d);
        let t = seq_sum(d);
        let n = d.len() as int;
        let y = s.last() as int;
        assert((n + 1) * (q + y * y) - (t + y) * (t + y) == (n * q - t * t) + (q - 2 * y * t + n * y
            * y)) by (nonlinear_arith);
    }
}

/// An element of `s` that no element is below is the minimum of `s`.
pub proof fn lemma_min_unique(s: Seq<i32>, x: i32)
    requires
        exists|j: int| 0 <= j < s.len() && s[j] == x,
        forall|j: int| 0 <= j < s.len() ==> x <= s[j],
    ensures
        seq_min(s) == x,
{
    lemma_min_props(s);
}

/// An element of `s` that no element is above is the maximum of `s`.
pub proof fn lemma_max_unique(s: Seq<i32>, x: i32)
    requires
        exists|j: int| 0 <= j < s.len() && s[j] == x,
        forall|j: int| 0 <= j < s.len() ==> x >= s[j],
    ensures
        seq_max(s) == x,
{
    lemma_max_props(s);
}

} // verus!
