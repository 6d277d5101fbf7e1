//! The checks a request passes before it reaches an aggregator.
use vstd::prelude::*;
use crate::model::{pow10, recent};
use crate::optimized::OptimizedCalculator;
use crate::stats::{summary, StatsError, StatsResponse};
use crate::{Calculator, DEFAULT_WINDOW_EXPONENTS};

verus! {

/// Largest number of values one batch may carry.
pub const MAX_BATCH_LEN: usize = 10_000;

/// The window exponent a request asks for: `1` when it names none.
pub open spec fn wanted_exponent(k: Option<u32>) -> int {
    match k {
        Some(x) => x as int,
        None => 1,
    }
}

/// The window exponent of a request, if it lies in `1..=max_exponent`.
pub fn requested_exponent(k: Option<u32>, max_exponent: u8) -> (r: Result<u8, StatsError>)
    ensures
        match r {
            Ok(e) => 1 <= wanted_exponent(k) <= max_exponent && e == wanted_exponent(k),
            Err(err) => !(1 <= wanted_exponent(k) <= max_exponent) && err
                == StatsError::InvalidWindowExponent,
        },
{
    let want: u32 = match k {
        Some(x) => x,
        None => 1,
    };
    if want < 1 || want > max_exponent as u32 {
        Err(StatsError::InvalidWindowExponent)
    } else {
        Ok(want as u8)
    }
}

/// A request for the statistics of one stream.
pub struct StatsQuery {
    /// The stream identifier.
    pub symbol: String,
    /// The window exponent; `1` when absent.
    pub k: Option<u32>,
}

impl StatsQuery {
    /// The window exponent asked for, if the default aggregator serves it.
    pub fn exponent(&self) -> (r: Result<u8, StatsError>)
        ensures
            match r {
                Ok(e) => 1 <= wanted_exponent(self.k) <= DEFAULT_WINDOW_EXPONENTS && e
                    == wanted_exponent(self.k),
                Err(err) => !(1 <= wanted_exponent(self.k) <= DEFAULT_WINDOW_EXPONENTS) && err
                    == StatsError::InvalidWindowExponent,
            },
    {
        requested_exponent(self.k, DEFAULT_WINDOW_EXPONENTS)
    }
}

/// Accepts a batch of `len` values unless it exceeds `max_len`.
pub fn check_batch(len: usize, max_len: usize) -> (r: Result<(), StatsError>)
    ensures
        r is Ok <==> len <= max_len,
        r is Err ==> r == Err::<(), StatsError>(StatsError::BatchTooLarge),
{
    if len > max_len {
        Err(StatsError::BatchTooLarge)
    } else {
        Ok(())
    }
}

/// Answers a stats request for a stream whose aggregator is `calc` (`None`
/// when the stream was never written). The exponent is checked first.
pub fn stream_stats(calc: Option<&OptimizedCalculator>, k: Option<u32>) -> (r: Result<
    StatsResponse,
    StatsError,
>)
    requires
        calc matches Some(c) ==> c.wf(),
    ensures
        !(1 <= wanted_exponent(k) <= DEFAULT_WINDOW_EXPONENTS) ==> r == Err::<
            StatsResponse,
            StatsError,
        >(StatsError::InvalidWindowExponent),
        1 <= wanted_exponent(k) <= DEFAULT_WINDOW_EXPONENTS ==> match calc {
            None => r == Err::<StatsResponse, StatsError>(StatsError::UnknownStream),
            Some(c) => if wanted_exponent(k) <= c.spec_max_exponent() {
                r == Ok::<StatsResponse, StatsError>(
                    summary(recent(c.history(), pow10(wanted_exponent(k) as nat) as int)),
                )
            } else {
                r == Err::<StatsResponse, StatsError>(StatsError::InvalidWindowExponent)
            },
        },
{
    let e = match requested_exponent(k, DEFAULT_WINDOW_EXPONENTS) {
        Ok(e) => e,
        Err(err) => return Err(err),
    };
    match calc {
        None => Err(StatsError::UnknownStream),
        Some(c) => c.calculate_stats(e),
    }
}

} // verus!
