//! Reference aggregator: keeps the raw recent observations and rescans the
//! requested window on every query.
use std::collections::VecDeque;
use vstd::prelude::*;
use crate::model::{lemma_pow10_mono, lemma_sum_bounds, pow10, recent};
use crate::stats::{seq_max, seq_min, seq_sum, seq_sum_sq, summary, StatsError, StatsResponse};
use crate::Calculator;

verus! {

/// The least of two integers.
pub open spec fn min_of(a: int, b: int) -> int {
    if a <= b {
        a
    } else {
        b
    }
}

/// `min(10^k, len)`, computed without overflow.
pub fn window_len(k: u8, len: usize) -> (r: usize)
    ensures
        r == min_of(pow10(k as nat) as int, len as int),
{
    let mut w: usize = if len == 0 { 0 } else { 1 };
    let mut i: u8 = 0;
    while i < k
        invariant
            i <= k,
            w == min_of(pow10(i as nat) as int, len as int),
        decreases k - i,
    {
        proof {
            lemma_pow10_mono(0, i as nat);
        }
        if w < len {
            if w > len / 10 {
                w = len;
            } else {
                w = w * 10;
            }
        }
        i = i + 1;
    }
    w
}

/// The most recent observations, newest first, up to a fixed capacity.
pub struct NaiveCalculator {
    /// Newest observation first.
    buffer: VecDeque<i32>,
    capacity: usize,
    /// Every observation appended so far.
    history: Ghost<Seq<i32>>,
}

impl NaiveCalculator {
    pub closed spec fn spec_capacity(&self) -> nat {
        self.capacity as nat
    }

    /// An empty buffer of at most `capacity` observations.
    pub fn new(capacity: usize) -> (r: NaiveCalculator)
        requires
            capacity > 0,
        ensures
            r.wf(),
            r.history() == Seq::<i32>::empty(),
            r.spec_capacity() == capacity,
    {
        NaiveCalculator {
            buffer: VecDeque::with_capacity(capacity),
            capacity,
            history: Ghost(Seq::empty()),
        }
    }

    /// Number of observations held.
    pub fn len(&self) -> (r: usize)
        requires
            self.wf(),
        ensures
            r == recent(self.history(), self.spec_capacity() as int).len(),
    {
        self.buffer.len()
    }

    /// The `i`-th most recent observation held (`0` is the newest).
    pub fn value_at(&self, i: usize) -> (r: i32)
        requires
            self.wf(),
            i < recent(self.history(), self.spec_capacity() as int).len(),
        ensures
            r == self.history()[self.history().len() - 1 - i],
    {
        self.buffer[i]
    }
}

impl Calculator for NaiveCalculator {
    closed spec fn wf(&self) -> bool {
        let h = self.history@;
        &&& self.capacity > 0
        &&& self.buffer@.len() == min_of(self.capacity as int, h.len() as int)
        &&& forall|i: int|
            #![trigger self.buffer@[i]]
            0 <= i < self.buffer@.len() ==> self.buffer@[i] == h[h.len() - 1 - i]
    }

    closed spec fn history(&self) -> Seq<i32> {
        self.history@
    }

    open spec fn accepts(&self, k: u8) -> bool {
        true
    }

    open spec fn span(&self, k: u8) -> nat {
        min_of(pow10(k as nat) as int, self.spec_capacity() as int) as nat
    }

    fn append(&mut self, values: &[i32]) {
        let mut i: usize = 0;
        while i < values.len()
            invariant
                self.wf(),
                self.capacity == old(self).capacity,
                i <= values@.len(),
                self.history@ == old(self).history@ + values@.subrange(0, i as int),
            decreases values@.len() - i,
        {
            let ghost h = self.history@;
            if self.buffer.len() == self.capacity {
                self.buffer.pop_back();
            }
            self.buffer.push_front(values[i]);
            self.history = Ghost(h.push(values@[i as int]));
            proof {
                let h2 = self.history@;
                assert forall|j: int|
                    #![trigger self.buffer@[j]]
                    0 <= j < self.buffer@.len() implies self.buffer@[j] == h2[h2.len() - 1 - j] by {
                    if j > 0 {
                        assert(h2[h2.len() - 1 - j] == h[h.len() - 1 - (j - 1)]);
                    }
                }
            }
            assert(values@.subrange(0, i + 1) =~= values@.subrange(0, i as int).push(values@[i as int]));
            i = i + 1;
        }
        assert(values@.subrange(0, i as int) =~= values@);
    }

    fn calculate_stats(&self, k: u8) -> (r: Result<StatsResponse, StatsError>) {
        let ghost h = self.history@;
        let len = self.buffer.len();
        if len == 0 {
            assert(recent(h, self.span(k) as int) =~= Seq::<i32>::empty());
            return Ok(StatsResponse::empty());
        }
        let w = window_len(k, len);
        proof {
            lemma_pow10_mono(0, k as nat);
        }
        let ghost win = recent(h, self.span(k) as int);
        assert(win.len() == w);
        assert forall|j: int| 0 <= j < w implies #[trigger] win[j] == self.buffer@[w - 1 - j] by {
            assert(self.buffer@[w - 1 - j] == h[h.len() - 1 - (w - 1 - j)]);
        }
        let mut min: i32 = 0;
        let mut max: i32 = 0;
        let mut sum: i128 = 0;
        let mut sum_sq: u128 = 0;
        let mut j: usize = 0;
        while j < w
            invariant
                j <= w,
                w == win.len(),
                w <= len,
                len == self.buffer@.len(),
                forall|t: int| 0 <= t < w ==> #[trigger] win[t] == self.buffer@[w - 1 - t],
                j > 0 ==> min == seq_min(win.subrange(0, j as int)),
                j > 0 ==> max == seq_max(win.subrange(0, j as int)),
                sum == seq_sum(win.subrange(0, j as int)),
                sum_sq == seq_sum_sq(win.subrange(0, j as int)),
            decreases w - j,
        {
            let x = self.buffer[w - 1 - j];
            let ghost pre = win.subrange(0, j as int);
            let ghost post = win.subrange(0, j + 1);
            assert(post.drop_last() =~= pre);
            assert(post.last() == x);
            proof {
                lemma_sum_bounds(pre);
                let n = j as int;
                assert(n * 0x8000_0000 + 0x8000_0000 < 0x7fff_ffff_ffff_ffff_ffff_ffff_ffff_ffff
                    && n * 0x4000_0000_0000_0000 + 0x4000_0000_0000_0000 <= u128::MAX) by (nonlinear_arith)
                    requires
                        0 <= n < 0x1_0000_0000_0000_0000,
                ;
                let y = x as int;
                assert(0 <= y * y <= 0x4000_0000_0000_0000) by (nonlinear_arith)
                    requires
                        -0x8000_0000 <= y < 0x8000_0000,
                ;
            }
            if j == 0 || x < min {
                min = x;
            }
            if j == 0 || x > max {
                max = x;
            }
            sum = sum + x as i128;
            sum_sq = sum_sq + ((x as i64) * (x as i64)) as u128;
            j = j + 1;
        }
        assert(win.subrange(0, w as int) =~= win);
        assert(win.last() == self.buffer@[0]);
        Ok(StatsResponse { last: self.buffer[0], min, max, count: w as u64, sum, sum_sq })
    }
}

} // verus!
