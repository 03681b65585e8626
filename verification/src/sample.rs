//! The numeric capability the mixer needs of a sample representation: a zero
//! value, a saturating addition, a clipping predicate, and equal-weight
//! scaling. The 16-bit fixed-point instance lives here, fully verified; a
//! floating-point instance cannot be verified and belongs to the surrounding
//! application.

use vstd::prelude::*;

verus! {

/// One sample representation's numeric rules. Every operation is pinned to a
/// specification-level model, so the mixing pass is verified once for every
/// instance.
pub trait Sample: Sized + Copy {
    /// The representation's silence value.
    spec fn spec_zero() -> Self;

    /// The saturating sum of two samples.
    spec fn spec_clipping_add(self, other: Self) -> Self;

    /// Whether a sample sits at the representation's amplitude bound.
    spec fn spec_is_clipping(self) -> bool;

    /// The sample scaled by `1 / n`.
    spec fn spec_scaled(self, n: int) -> Self;

    /// The divisors the representation can scale by.
    spec fn spec_scale_ok(n: int) -> bool;

    fn zero() -> (result: Self)
        ensures
            result == Self::spec_zero(),
    ;

    fn clipping_add(self, other: Self) -> (result: Self)
        ensures
            result == self.spec_clipping_add(other),
    ;

    fn is_clipping(self) -> (result: bool)
        ensures
            result == self.spec_is_clipping(),
    ;

    fn scale_for(self, i: usize) -> (result: Self)
        requires
            Self::spec_scale_ok(i as int),
        ensures
            result == self.spec_scaled(i as int),
    ;
}

/// A magnitude of at most 32768, divided by `d` with rounding half away from
/// zero, stays at most one above half the magnitude once `d` is at least two,
/// and is the magnitude itself for `d` of one: the rounded quotient never
/// leaves the 16-bit range.
proof fn lemma_rounded_quotient_bound(magnitude: int, d: int)
    requires
        0 <= magnitude <= 32768,
        1 <= d <= 32767,
    ensures
        0 <= (magnitude + d / 2) / d <= 32768,
        d >= 2 ==> (magnitude + d / 2) / d <= 16385,
        d == 1 ==> (magnitude + d / 2) / d == magnitude,
{
    vstd::arithmetic::div_mod::lemma_div_nonincreasing(d, 2);
    vstd::arithmetic::div_mod::lemma_div_pos_is_pos(d, 2);
    vstd::arithmetic::div_mod::lemma_div_pos_is_pos(magnitude + d / 2, d);
    if d == 1 {
        vstd::arithmetic::div_mod::lemma_div_basics(magnitude);
        assert(d / 2 == 0);
    } else {
        vstd::arithmetic::div_mod::lemma_div_is_ordered(magnitude + d / 2, magnitude + d, d);
        vstd::arithmetic::div_mod::lemma_div_plus_one(magnitude, d);
        vstd::arithmetic::div_mod::lemma_div_is_ordered_by_denominator(magnitude, 2, d);
        vstd::arithmetic::div_mod::lemma_div_is_ordered(magnitude, 32768, 2);
    }
}

impl Sample for i16 {
    open spec fn spec_zero() -> i16 {
        0
    }

    /// Saturates at the representation's bounds instead of wrapping.
    open spec fn spec_clipping_add(self, other: i16) -> i16 {
        if self + other > i16::MAX {
            i16::MAX
        } else if self + other < i16::MIN {
            i16::MIN
        } else {
            (self + other) as i16
        }
    }

    open spec fn spec_is_clipping(self) -> bool {
        self == i16::MIN || self == i16::MAX
    }

    /// Division by `n`, rounded half away from zero, so that equal-weight
    /// scaling loses less than half a step per stream and full-scale inputs
    /// still reach the amplitude bound when summed back.
    open spec fn spec_scaled(self, n: int) -> i16 {
        let half_divisor = n / 2;
        if self >= 0 {
            ((self + half_divisor) / n) as i16
        } else {
            (-((half_divisor - self) / n)) as i16
        }
    }

    /// A fixed-point divisor must be a positive count that fits the type.
    open spec fn spec_scale_ok(n: int) -> bool {
        1 <= n <= i16::MAX
    }

    fn zero() -> i16 {
        0
    }

    fn clipping_add(self, other: i16) -> i16 {
        let wide: i32 = self as i32 + other as i32;
        if wide > i16::MAX as i32 {
            i16::MAX
        } else if wide < i16::MIN as i32 {
            i16::MIN
        } else {
            wide as i16
        }
    }

    fn is_clipping(self) -> bool {
        self == i16::MIN || self == i16::MAX
    }

    fn scale_for(self, i: usize) -> i16 {
        let divisor: u32 = i as u32;
        let half_divisor: u32 = divisor / 2;
        if self >= 0 {
            let scaled: u32 = (self as u32 + half_divisor) / divisor;
            proof {
                lemma_rounded_quotient_bound(self as int, divisor as int);
            }
            scaled as i16
        } else {
            let magnitude: u32 = (-(self as i32)) as u32;
            let scaled: u32 = (magnitude + half_divisor) / divisor;
            proof {
                lemma_rounded_quotient_bound(magnitude as int, divisor as int);
            }
            (-(scaled as i32)) as i16
        }
    }
}

} // verus!
