//! The arithmetic a sample type must offer to the framing engine.
//!
//! The engine only combines samples through this trait, so its contracts can
//! name the result of every addition, multiplication and division exactly,
//! whatever number type the caller picks. Each impl fixes the meaning of the
//! operations through the spec functions; the engine promises data flow, not
//! number theory, so no algebraic laws are demanded of them.

use vstd::prelude::*;

verus! {

use vstd::wrapping::u64_specs;

/// A numeric sample: the operations the analysis-synthesis cycle performs on
/// signal values and window weights.
///
/// Every operation is total (no input may make an impl panic), which mirrors
/// how the engine treats samples: a division is attempted wherever the
/// accumulated weight reports itself positive, and an impl must give division
/// a defined result even on a zero divisor.
pub trait Sample: Copy + Sized {
    /// The value written where a frame reaches past the signal's edge.
    spec fn sp_zero() -> Self;

    /// What `plus` returns.
    spec fn sp_plus(self, other: Self) -> Self;

    /// What `times` returns.
    spec fn sp_times(self, other: Self) -> Self;

    /// What `over` returns.
    spec fn sp_over(self, other: Self) -> Self;

    /// What `is_positive` returns.
    spec fn sp_is_positive(self) -> bool;

    /// What `of_ratio` returns.
    spec fn sp_of_ratio(num: usize, den: usize) -> Self;

    /// The additive identity used for zero padding and empty accumulations.
    fn zero() -> (r: Self)
        ensures
            r == Self::sp_zero(),
    ;

    /// Addition, used to accumulate overlapping frame contributions.
    fn plus(self, other: Self) -> (r: Self)
        ensures
            r == self.sp_plus(other),
    ;

    /// Multiplication, used to apply window weights.
    fn times(self, other: Self) -> (r: Self)
        ensures
            r == self.sp_times(other),
    ;

    /// Division, used by the normalization pass; `self / other`.
    fn over(self, other: Self) -> (r: Self)
        ensures
            r == self.sp_over(other),
    ;

    /// Whether a sample counts as positive window energy; the normalization
    /// pass divides only where the accumulated weight is positive.
    fn is_positive(self) -> (r: bool)
        ensures
            r == self.sp_is_positive(),
    ;

    /// The sample standing for the exact ratio `num / den`; window shapes are
    /// evaluated at the normalized times `t / window_size` built this way.
    fn of_ratio(num: usize, den: usize) -> (r: Self)
        ensures
            r == Self::sp_of_ratio(num, den),
    ;
}

/// Exact unsigned samples: addition and multiplication wrap, division rounds
/// down and treats a zero divisor as zero. Useful where a signal is known to
/// stay integral, and as the arithmetic the engine's own checks run on.
impl Sample for u64 {
    open spec fn sp_zero() -> u64 {
        0u64
    }

    open spec fn sp_plus(self, other: u64) -> u64 {
        u64_specs::wrapping_add(self, other)
    }

    open spec fn sp_times(self, other: u64) -> u64 {
        u64_specs::wrapping_mul(self, other)
    }

    open spec fn sp_over(self, other: u64) -> u64 {
        if other == 0 {
            0u64
        } else {
            self / other
        }
    }

    open spec fn sp_is_positive(self) -> bool {
        self > 0
    }

    open spec fn sp_of_ratio(num: usize, den: usize) -> u64 {
        if den == 0 {
            0u64
        } else {
            (num as u64) / (den as u64)
        }
    }

    fn zero() -> (r: u64) {
        0u64
    }

    fn plus(self, other: u64) -> (r: u64) {
        self.wrapping_add(other)
    }

    fn times(self, other: u64) -> (r: u64) {
        self.wrapping_mul(other)
    }

    fn over(self, other: u64) -> (r: u64) {
        if other == 0 {
            0u64
        } else {
            self / other
        }
    }

    fn is_positive(self) -> (r: bool) {
        self > 0
    }

    fn of_ratio(num: usize, den: usize) -> (r: u64) {
        if den == 0 {
            0u64
        } else {
            (num as u64) / (den as u64)
        }
    }
}

} // verus!
