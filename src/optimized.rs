//! Multi-window aggregator: one fixed-capacity window per exponent `k`, each
//! answering queries in constant time from running aggregates.
use std::collections::VecDeque;
use vstd::prelude::*;
use crate::candidates::{ranks_before, Candidates};
use crate::model::{
    lemma_max_unique, lemma_min_unique, lemma_pow10_mono, pow10, lemma_sum_bounds, lemma_sum_drop_first, lemma_tag_step, recent,
    tag_of,
};
use crate::stats::{seq_sum, seq_sum_sq, summary, StatsError, StatsResponse};
use crate::Calculator;

verus! {

/// The statistics of the most recent `capacity` observations, kept up to date
/// on every append.
pub struct InnerCalc {
    /// The window, oldest observation first.
    buffer: VecDeque<i32>,
    /// Candidates for the greatest value of the window.
    max_deque: Candidates,
    /// Candidates for the least value of the window.
    min_deque: Candidates,
    /// Sum of the window.
    sum: i128,
    /// Sum of the squares of the window.
    sum_sq: u128,
    /// Largest number of observations the window holds.
    capacity: usize,
    /// Tag of the position of the next observation.
    next_tag: u64,
    /// Tag of the position of the oldest observation in the window.
    oldest_tag: u64,
    /// Every observation appended so far.
    history: Ghost<Seq<i32>>,
}

impl InnerCalc {
    /// Every observation appended so far, oldest first.
    pub closed spec fn history(&self) -> Seq<i32> {
        self.history@
    }

    pub closed spec fn spec_capacity(&self) -> nat {
        self.capacity as nat
    }

    /// The observations the statistics cover: the `capacity` most recent ones.
    pub open spec fn window(&self) -> Seq<i32> {
        recent(self.history(), self.spec_capacity() as int)
    }

    spec fn base(&self) -> int {
        self.history@.len() - self.buffer@.len()
    }

    pub closed spec fn wf(&self) -> bool {
        let h = self.history@;
        let base = self.base();
        &&& self.capacity > 0
        &&& self.buffer@.len() <= self.capacity
        &&& self.buffer@.len() <= h.len()
        &&& (self.buffer@.len() == self.capacity || self.buffer@.len() == h.len())
        &&& self.buffer@ == h.subrange(base, h.len() as int)
        &&& self.sum as int == seq_sum(self.buffer@)
        &&& self.sum_sq as int == seq_sum_sq(self.buffer@)
        &&& self.next_tag == tag_of(h.len() as int)
        &&& self.oldest_tag == tag_of(base)
        &&& self.min_deque.wf(h, base)
        &&& self.min_deque.tracks_lowest()
        &&& self.max_deque.wf(h, base)
        &&& !self.max_deque.tracks_lowest()
    }

    /// An empty window that holds at most `capacity` observations.
    pub fn new(capacity: usize) -> (r: InnerCalc)
        requires
            capacity > 0,
        ensures
            r.wf(),
            r.history() == Seq::<i32>::empty(),
            r.spec_capacity() == capacity,
    {
        let r = InnerCalc {
            buffer: VecDeque::with_capacity(capacity),
            max_deque: Candidates::new(false),
            min_deque: Candidates::new(true),
            sum: 0,
            sum_sq: 0,
            capacity,
            next_tag: 0,
            oldest_tag: 0,
            history: Ghost(Seq::empty()),
        };
        assert(r.buffer@ =~= Seq::<i32>::empty().subrange(0, 0));
        r
    }

    pub fn capacity(&self) -> (r: usize)
        ensures
            r == self.spec_capacity(),
    {
        self.capacity
    }

    fn square(v: i32) -> (r: u128)
        ensures
            r as int == (v as int) * (v as int),
            r <= 0x4000_0000_0000_0000,
    {
        let w = v as i64;
        proof {
            let x = v as int;
            assert(0 <= x * x <= 0x4000_0000_0000_0000) by (nonlinear_arith)
                requires
                    -0x8000_0000 <= x < 0x8000_0000,
            ;
        }
        (w * w) as u128
    }

    fn next_tag_after(t: u64) -> (r: u64)
        ensures
            r == (if t == u64::MAX { 0 } else { t + 1 }),
    {
        if t == u64::MAX {
            0
        } else {
            t + 1
        }
    }

    /// Appends one observation, evicting the oldest one when the window is full.
    fn push_value(&mut self, v: i32)
        requires
            old(self).wf(),
        ensures
            final(self).wf(),
            final(self).history() == old(self).history().push(v),
            final(self).spec_capacity() == old(self).spec_capacity(),
    {
        let ghost h = self.history@;
        let ghost base0 = self.base();
        if self.buffer.len() == self.capacity {
            let ghost b0 = self.buffer@;
            proof {
                lemma_sum_drop_first(b0);
                lemma_sum_bounds(b0.subrange(1, b0.len() as int));
            }
            let gone = match self.buffer.pop_front() {
                Some(x) => x,
                None => 0,
            };
            self.sum = self.sum - gone as i128;
            self.sum_sq = self.sum_sq - Self::square(gone);
            self.min_deque.evict_oldest(self.oldest_tag, Ghost(h), Ghost(base0));
            self.max_deque.evict_oldest(self.oldest_tag, Ghost(h), Ghost(base0));
            proof {
                lemma_tag_step(base0);
            }
            self.oldest_tag = Self::next_tag_after(self.oldest_tag);
            assert(self.buffer@ =~= h.subrange(base0 + 1, h.len() as int));
        }
        let ghost base = self.base();
        let ghost b1 = self.buffer@;
        proof {
            lemma_sum_bounds(b1);
            lemma_tag_step(h.len() as int);
            let n = b1.len() as int;
            assert(n * 0x8000_0000 + 0x8000_0000 < 0x7fff_ffff_ffff_ffff_ffff_ffff_ffff_ffff
                && n * 0x4000_0000_0000_0000 + 0x4000_0000_0000_0000 <= u128::MAX) by (nonlinear_arith)
                requires
                    0 <= n < 0x1_0000_0000_0000_0000,
            ;
        }
        self.min_deque.push_newest(v, self.next_tag, Ghost(h), Ghost(base));
        self.max_deque.push_newest(v, self.next_tag, Ghost(h), Ghost(base));
        self.buffer.push_back(v);
        self.sum = self.sum + v as i128;
        self.sum_sq = self.sum_sq + Self::square(v);
        self.next_tag = Self::next_tag_after(self.next_tag);
        self.history = Ghost(h.push(v));
        proof {
            let b2 = self.buffer@;
            assert(b2.drop_last() =~= b1);
            assert(b2 =~= h.push(v).subrange(base, h.len() + 1 as int));
        }
    }

    /// Appends `values` in order.
    pub fn append(&mut self, values: &[i32])
        requires
            old(self).wf(),
        ensures
            final(self).wf(),
            final(self).history() == old(self).history() + values@,
            final(self).spec_capacity() == old(self).spec_capacity(),
    {
        let mut i: usize = 0;
        while i < values.len()
            invariant
                self.wf(),
                i <= values@.len(),
                self.history() == old(self).history() + values@.subrange(0, i as int),
                self.spec_capacity() == old(self).spec_capacity(),
            decreases values@.len() - i,
        {
            self.push_value(values[i]);
            assert(values@.subrange(0, i + 1) =~= values@.subrange(0, i as int).push(values@[i as int]));
            i = i + 1;
        }
        assert(values@.subrange(0, i as int) =~= values@);
    }

    /// The statistics of the window, in constant time.
    pub fn calculate_stats(&self) -> (r: StatsResponse)
        requires
            self.wf(),
        ensures
            r == summary(self.window()),
    {
        let ghost h = self.history@;
        let ghost base = self.base();
        let ghost w = self.buffer@;
        assert(w =~= self.window());
        let count = self.buffer.len();
        if count == 0 {
            return StatsResponse::empty();
        }
        let last = self.buffer[count - 1];
        let min = self.min_deque.best(Ghost(h), Ghost(base));
        let max = self.max_deque.best(Ghost(h), Ghost(base));
        proof {
            let p = choose|p: int| base <= p < h.len() && min == h[p];
            assert(w[p - base] == min);
            assert forall|j: int| 0 <= j < w.len() implies min <= w[j] by {
                assert(w[j] == h[base + j]);
                assert(ranks_before(min, h[base + j], true));
            }
            lemma_min_unique(w, min);
            let p2 = choose|p: int| base <= p < h.len() && max == h[p];
            assert(w[p2 - base] == max);
            assert forall|j: int| 0 <= j < w.len() implies max >= w[j] by {
                assert(w[j] == h[base + j]);
                assert(ranks_before(max, h[base + j], false));
            }
            lemma_max_unique(w, max);
        }
        StatsResponse { last, min, max, count: count as u64, sum: self.sum, sum_sq: self.sum_sq }
    }
}

} // verus!

verus! {

/// One window per exponent `k` in `1..=max_exponent`, of capacity `10^k`;
/// every window sees every observation.
pub struct OptimizedCalculator {
    /// `calculators[k - 1]` holds the window of capacity `10^k`.
    calculators: Vec<InnerCalc>,
    /// Every observation appended so far.
    history: Ghost<Seq<i32>>,
}

impl OptimizedCalculator {
    /// The largest window exponent served.
    pub closed spec fn spec_max_exponent(&self) -> nat {
        self.calculators@.len()
    }

    /// Windows of capacity `10^1` up to `10^k_capacity`, all empty.
    pub fn new(k_capacity: u8) -> (r: OptimizedCalculator)
        requires
            pow10(k_capacity as nat) <= usize::MAX,
        ensures
            r.wf(),
            r.history() == Seq::<i32>::empty(),
            r.spec_max_exponent() == k_capacity,
    {
        let mut calculators: Vec<InnerCalc> = Vec::new();
        let mut cap: usize = 1;
        let mut k: u8 = 0;
        while k < k_capacity
            invariant
                k <= k_capacity,
                pow10(k_capacity as nat) <= usize::MAX,
                cap == pow10(k as nat),
                calculators@.len() == k,
                forall|i: int|
                    #![trigger calculators@[i]]
                    0 <= i < k ==> calculators@[i].wf() && calculators@[i].spec_capacity() == pow10(
                        (i + 1) as nat,
                    ) && calculators@[i].history() == Seq::<i32>::empty(),
            decreases k_capacity - k,
        {
            proof {
                lemma_pow10_mono((k + 1) as nat, k_capacity as nat);
            }
            cap = cap * 10;
            calculators.push(InnerCalc::new(cap));
            k = k + 1;
        }
        OptimizedCalculator { calculators, history: Ghost(Seq::empty()) }
    }

    /// The largest window exponent served.
    pub fn max_exponent(&self) -> (r: u8)
        requires
            self.wf(),
        ensures
            r == self.spec_max_exponent(),
    {
        self.calculators.len() as u8
    }
}

impl Calculator for OptimizedCalculator {
    closed spec fn wf(&self) -> bool {
        &&& self.calculators@.len() <= u8::MAX
        &&& forall|i: int|
            #![trigger self.calculators@[i]]
            0 <= i < self.calculators@.len() ==> self.calculators@[i].wf()
                && self.calculators@[i].spec_capacity() == pow10((i + 1) as nat)
                && self.calculators@[i].history() == self.history@
    }

    closed spec fn history(&self) -> Seq<i32> {
        self.history@
    }

    open spec fn accepts(&self, k: u8) -> bool {
        1 <= k <= self.spec_max_exponent()
    }

    open spec fn span(&self, k: u8) -> nat {
        pow10(k as nat)
    }

    fn append(&mut self, values: &[i32]) {
        let n = self.calculators.len();
        let mut i: usize = 0;
        while i < n
            invariant
                self.calculators@.len() == n,
                self.history == old(self).history,
                i <= n,
                old(self).wf(),
                forall|j: int|
                    #![trigger self.calculators@[j]]
                    0 <= j < n ==> self.calculators@[j].wf()
                        && self.calculators@[j].spec_capacity() == pow10((j + 1) as nat)
                        && self.calculators@[j].history() == (if j < i {
                        old(self).history@ + values@
                    } else {
                        old(self).history@
                    }),
            decreases n - i,
        {
            self.calculators[i].append(values);
            i = i + 1;
        }
        self.history = Ghost(self.history@ + values@);
    }

    fn calculate_stats(&self, k: u8) -> (r: Result<StatsResponse, StatsError>) {
        if k == 0 || k as usize > self.calculators.len() {
            return Err(StatsError::InvalidWindowExponent);
        }
        let c = &self.calculators[(k - 1) as usize];
        assert(c.spec_capacity() == pow10(k as nat));
        Ok(c.calculate_stats())
    }
}

} // verus!
