//! Streaming statistics over the most recent observations of a numeric feed,
//! for several window sizes at once.
//!
//! Observations are `i32` values. Every aggregate is kept exactly: a snapshot
//! carries the number of observations, their sum and their sum of squares, so
//! the mean and the population variance follow without rounding error.
pub mod stats;
pub mod model;
mod candidates;
pub mod optimized;
pub mod naive;
pub mod service;
pub mod laws;

use vstd::prelude::*;
use crate::model::{pow10, recent};
use crate::naive::NaiveCalculator;
use crate::optimized::OptimizedCalculator;
use crate::stats::{summary, StatsError, StatsResponse};

verus! {

/// An aggregator that takes batches of observations and reports the
/// statistics of the `10^k` most recent ones.
pub trait Calculator: Sized {
    /// The internal state is consistent.
    spec fn wf(&self) -> bool;

    /// Every observation appended so far, oldest first.
    spec fn history(&self) -> Seq<i32>;

    /// `k` is a window exponent that this aggregator answers.
    spec fn accepts(&self, k: u8) -> bool;

    /// How many of the most recent observations `calculate_stats(k)` covers.
    spec fn span(&self, k: u8) -> nat;

    /// Appends `values` in order.
    fn append(&mut self, values: &[i32])
        requires
            old(self).wf(),
        ensures
            final(self).wf(),
            final(self).history() == old(self).history() + values@,
            forall|k: u8|
                final(self).accepts(k) == old(self).accepts(k) && final(self).span(k) == old(
                    self,
                ).span(k),
    ;

    /// The statistics of the `span(k)` most recent observations.
    fn calculate_stats(&self, k: u8) -> (r: Result<StatsResponse, StatsError>)
        requires
            self.wf(),
        ensures
            match r {
                Ok(s) => self.accepts(k) && s == summary(recent(self.history(), self.span(k) as int)),
                Err(e) => !self.accepts(k) && e == StatsError::InvalidWindowExponent,
            },
    ;
}

/// Number of windows of the default aggregator: exponents `1..=8`.
pub const DEFAULT_WINDOW_EXPONENTS: u8 = 8;

/// Capacity of the default reference aggregator: `10^8` observations.
pub const REFERENCE_CAPACITY: usize = 100_000_000;

/// The reference aggregator, holding the `10^8` most recent observations.
pub fn naive() -> (r: NaiveCalculator)
    ensures
        r.wf(),
        r.history() == Seq::<i32>::empty(),
        r.spec_capacity() == pow10(DEFAULT_WINDOW_EXPONENTS as nat),
{
    proof {
        reveal_with_fuel(pow10, 9);
    }
    NaiveCalculator::new(REFERENCE_CAPACITY)
}

/// The multi-window aggregator with windows of `10^1` up to `10^8` observations.
pub fn optimized() -> (r: OptimizedCalculator)
    ensures
        r.wf(),
        r.history() == Seq::<i32>::empty(),
        r.spec_max_exponent() == DEFAULT_WINDOW_EXPONENTS,
{
    proof {
        reveal_with_fuel(pow10, 9);
    }
    OptimizedCalculator::new(DEFAULT_WINDOW_EXPONENTS)
}

} // verus!
