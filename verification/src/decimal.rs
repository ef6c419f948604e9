use vstd::prelude::*;

use crate::error::GovError;
use crate::math::{checked_mul_ratio, ratio_floor};

verus! {

/// Number of atomic units in 1.0: decimals carry 18 fractional digits.
pub const DECIMAL_FRACTIONAL: u128 = 1_000_000_000_000_000_000;

/// A non-negative fixed-point fraction with 18 fractional digits, stored as
/// a count of atomic units. `quorum` and `threshold` are values of this
/// type, and vote ratios are compared against them at this resolution.
#[derive(Clone, Copy, Debug, PartialEq, Eq, Structural)]
pub struct Decimal {
    pub atomics: u128,
}

impl Decimal {
    /// The mathematical value scaled by `DECIMAL_FRACTIONAL`.
    pub open spec fn spec_atomics(self) -> int {
        self.atomics as int
    }

    pub fn zero() -> (r: Decimal)
        ensures
            r.atomics == 0,
    {
        Decimal { atomics: 0 }
    }

    pub fn one() -> (r: Decimal)
        ensures
            r.atomics == DECIMAL_FRACTIONAL,
    {
        Decimal { atomics: DECIMAL_FRACTIONAL }
    }

    /// `x` percent, i.e. `x / 100`.
    pub fn percent(x: u64) -> (r: Decimal)
        ensures
            r.atomics == x * (DECIMAL_FRACTIONAL / 100),
    {
        proof {
            vstd::arithmetic::mul::lemma_mul_inequality(
                x as int,
                u64::MAX as int,
                (DECIMAL_FRACTIONAL / 100) as int,
            );
        }
        Decimal { atomics: (x as u128) * (DECIMAL_FRACTIONAL / 100) }
    }

    pub fn is_zero(&self) -> (r: bool)
        ensures
            r == (self.atomics == 0),
    {
        self.atomics == 0
    }

    /// The floored fraction `num / den` at atomic resolution, or an
    /// arithmetic error when `den` is zero or the result does not fit.
    pub fn checked_from_ratio(num: u128, den: u128) -> (r: Result<Decimal, GovError>)
        ensures
            den == 0 ==> r == Err::<Decimal, GovError>(GovError::DivideByZero),
            den != 0 && ratio_floor(num, DECIMAL_FRACTIONAL, den) > u128::MAX ==> r == Err::<
                Decimal,
                GovError,
            >(GovError::Overflow),
            den != 0 && ratio_floor(num, DECIMAL_FRACTIONAL, den) <= u128::MAX ==> r == Ok::<
                Decimal,
                GovError,
            >(Decimal { atomics: ratio_floor(num, DECIMAL_FRACTIONAL, den) as u128 }),
    {
        match checked_mul_ratio(num, DECIMAL_FRACTIONAL, den) {
            Ok(atomics) => Ok(Decimal { atomics }),
            Err(e) => Err(e),
        }
    }

    /// The floored fraction `num / den`, on inputs where it is defined.
    pub fn from_ratio(num: u128, den: u128) -> (r: Decimal)
        requires
            den != 0,
            ratio_floor(num, DECIMAL_FRACTIONAL, den) <= u128::MAX,
        ensures
            r.atomics == ratio_floor(num, DECIMAL_FRACTIONAL, den),
    {
        match Self::checked_from_ratio(num, den) {
            Ok(d) => d,
            Err(_) => Decimal { atomics: 0 },
        }
    }

    pub fn lt(&self, other: &Decimal) -> (r: bool)
        ensures
            r == (self.atomics < other.atomics),
    {
        self.atomics < other.atomics
    }

    pub fn gt(&self, other: &Decimal) -> (r: bool)
        ensures
            r == (self.atomics > other.atomics),
    {
        self.atomics > other.atomics
    }

    pub fn le(&self, other: &Decimal) -> (r: bool)
        ensures
            r == (self.atomics <= other.atomics),
    {
        self.atomics <= other.atomics
    }
}

} // verus!
