//! Snapshots of a window and the spec functions that define them.
use vstd::prelude::*;

verus! {

/// Sum of a sequence of observations.
pub open spec fn seq_sum(s: Seq<i32>) -> int
    decreases s.len(),
{
    if s.len() == 0 {
        0
    } else {
        seq_sum(s.drop_last()) + s.last() as int
    }
}

/// Sum of the squares of a sequence of observations.
pub open spec fn seq_sum_sq(s: Seq<i32>) -> int
    decreases s.len(),
{
    if s.len() == 0 {
        0
    } else {
        seq_sum_sq(s.drop_last()) + (s.last() as int) * (s.last() as int)
    }
}

/// Least element of a non-empty sequence.
pub open spec fn seq_min(s: Seq<i32>) -> i32
    decreases s.len(),
{
    if s.len() <= 1 {
        s[0]
    } else if s.last() < seq_min(s.drop_last()) {
        s.last()
    } else {
        seq_min(s.drop_last())
    }
}

/// Greatest element of a non-empty sequence.
pub open spec fn seq_max(s: Seq<i32>) -> i32
    decreases s.len(),
{
    if s.len() <= 1 {
        s[0]
    } else if s.last() > seq_max(s.drop_last()) {
        s.last()
    } else {
        seq_max(s.drop_last())
    }
}

/// The statistics of a window of observations.
///
/// `count`, `sum` and `sum_sq` are exact: the mean is `sum / count` and the
/// population variance is `sum_sq / count - (sum / count)^2`. An empty window
/// has every field zero.
#[derive(Clone, Copy, Debug, PartialEq, Eq, Structural)]
pub struct StatsResponse {
    /// Most recently appended observation.
    pub last: i32,
    /// Least observation of the window.
    pub min: i32,
    /// Greatest observation of the window.
    pub max: i32,
    /// Number of observations in the window.
    pub count: u64,
    /// Sum of the observations.
    pub sum: i128,
    /// Sum of the squares of the observations.
    pub sum_sq: u128,
}

/// Why a request for statistics, or a batch, was turned down.
#[derive(Clone, Copy, Debug, PartialEq, Eq, Structural)]
pub enum StatsError {
    /// The window exponent is outside the range the aggregator serves.
    InvalidWindowExponent,
    /// No observation was ever appended for the stream.
    UnknownStream,
    /// The batch holds more values than a request may carry.
    BatchTooLarge,
}

/// The statistics that describe the window `w` (oldest observation first).
pub open spec fn summary(w: Seq<i32>) -> StatsResponse {
    if w.len() == 0 {
        StatsResponse { last: 0, min: 0, max: 0, count: 0, sum: 0, sum_sq: 0 }
    } else {
        StatsResponse {
            last: w.last(),
            min: seq_min(w),
            max: seq_max(w),
            count: w.len() as u64,
            sum: seq_sum(w) as i128,
            sum_sq: seq_sum_sq(w) as u128,
        }
    }
}

/// `count * sum_sq - sum^2`, which is `count^2` times the population variance.
pub open spec fn variance_numerator(s: StatsResponse) -> int {
    s.count * s.sum_sq - s.sum * s.sum
}

impl StatsResponse {
    /// The population variance as an exact fraction
    /// `(count * sum_sq - sum^2, count^2)`.
    ///
    /// `None` for an empty window, or when a term does not fit in 128 bits,
    /// or when the numerator is negative (which the statistics of a window
    /// never have).
    pub fn variance_fraction(&self) -> (r: Option<(u128, u128)>)
        ensures
            match r {
                Some((num, den)) => self.count > 0 && num == variance_numerator(*self) && den
                    == self.count * self.count,
                None => self.count == 0 || self.count * self.sum_sq > u128::MAX || self.sum
                    * self.sum > u128::MAX || variance_numerator(*self) < 0,
            },
    {
        if self.count == 0 {
            return None;
        }
        let n = self.count as u128;
        let a: u128 = if self.sum >= 0 {
            self.sum as u128
        } else {
            (-(self.sum + 1)) as u128 + 1
        };
        assert(a * a == self.sum * self.sum) by (nonlinear_arith)
            requires
                a == self.sum || a == -self.sum,
        ;
        let p = match n.checked_mul(self.sum_sq) {
            Some(p) => p,
            None => return None,
        };
        let s2 = match a.checked_mul(a) {
            Some(x) => x,
            None => return None,
        };
        if p < s2 {
            return None;
        }
        assert(n * n <= u128::MAX) by (nonlinear_arith)
            requires
                n <= u64::MAX,
        ;
        Some((p - s2, n * n))
    }

    /// The snapshot of an empty window: every field zero.
    pub fn empty() -> (r: StatsResponse)
        ensures
            r == summary(Seq::empty()),
    {
        StatsResponse { last: 0, min: 0, max: 0, count: 0, sum: 0, sum_sq: 0 }
    }
}

} // verus!
