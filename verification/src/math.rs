use vstd::prelude::*;

use crate::error::GovError;

verus! {

/// Floor of `a * num / den` over the mathematical integers.
///
/// This is the exchange-rate primitive of the whole ledger: shares, balances
/// and vote ratios are all floored rational conversions. Division always
/// rounds down, i.e. against the holder and in the protocol's favor.
pub open spec fn ratio_floor(a: u128, num: u128, den: u128) -> int {
    (a * num) / (den as int)
}

/// Relies on `cosmwasm_std::Uint128::checked_multiply_ratio`: the product is
/// taken at full width, divided with flooring, and an error is returned
/// instead of panicking when the denominator is zero or the quotient does
/// not fit in 128 bits.
#[verifier::external_body]
pub fn checked_mul_ratio(a: u128, num: u128, den: u128) -> (r: Result<u128, GovError>)
    ensures
        r == (if den == 0 {
            Err::<u128, GovError>(GovError::DivideByZero)
        } else if ratio_floor(a, num, den) > u128::MAX {
            Err::<u128, GovError>(GovError::Overflow)
        } else {
            Ok::<u128, GovError>(ratio_floor(a, num, den) as u128)
        }),
{
    match cosmwasm_std::Uint128::new(a).checked_multiply_ratio(num, den) {
        Ok(v) => Ok(v.u128()),
        Err(cosmwasm_std::CheckedMultiplyRatioError::DivideByZero) => Err(GovError::DivideByZero),
        Err(cosmwasm_std::CheckedMultiplyRatioError::Overflow) => Err(GovError::Overflow),
    }
}

} // verus!
