//! Fixed-point arithmetic with eighteen fractional digits, as cosmwasm-std
//! computes it, and what follows from rounding down.

use vstd::prelude::*;

verus! {

/// Number of atomic units in one whole: eighteen fractional digits.
pub const DECIMAL_FRACTIONAL: u128 = 1_000_000_000_000_000_000u128;

/// A non-negative fixed-point number with eighteen fractional digits,
/// held as its count of atomic units.
#[derive(Clone, Copy, Debug, PartialEq, Eq, Structural)]
pub struct Decimal {
    pub atomics: u128,
}

/// Atomics of `numerator / denominator`, rounded down.
pub open spec fn ratio_atomics(numerator: int, denominator: int) -> int {
    numerator * (DECIMAL_FRACTIONAL as int) / denominator
}

/// `amount` times the fraction with the given atomics, rounded down.
pub open spec fn mul_floor_spec(amount: int, atomics: int) -> int {
    amount * atomics / (DECIMAL_FRACTIONAL as int)
}

/// What falls to a part of `whole` when `pool` is split in proportion: the ratio
/// is rounded down to eighteen digits first, the product with the pool after.
pub open spec fn share_of(pool: int, part: int, whole: int) -> int {
    mul_floor_spec(pool, ratio_atomics(part, whole))
}

impl Decimal {
    /// `cosmwasm_std::Decimal::percent`: `x` hundredths.
    #[verifier::external_body]
    pub(crate) fn percent(x: u64) -> (r: Decimal)
        ensures
            r.atomics == x * 10_000_000_000_000_000,
    {
        Decimal { atomics: cosmwasm_std::Decimal::percent(x).atomics().u128() }
    }

    /// `cosmwasm_std::Decimal::from_ratio`: the quotient of two integers as a
    /// fixed-point number, rounded down to a whole number of atomic units. The
    /// outside function panics on a zero denominator and on a quotient beyond
    /// the representable range; both are left out here.
    #[verifier::external_body]
    pub(crate) fn from_ratio(numerator: u128, denominator: u128) -> (r: Decimal)
        requires
            denominator > 0,
            ratio_atomics(numerator as int, denominator as int) <= u128::MAX,
        ensures
            r.atomics == ratio_atomics(numerator as int, denominator as int),
    {
        Decimal {
            atomics: cosmwasm_std::Decimal::from_ratio(numerator, denominator).atomics().u128(),
        }
    }
}

/// `Uint128 * Decimal` of cosmwasm_std: the product, rounded down to an integer.
/// The outside operator panics where the rounded product exceeds 128 bits; that
/// is left out here.
#[verifier::external_body]
pub(crate) fn mul_floor(amount: u128, fraction: Decimal) -> (r: u128)
    requires
        mul_floor_spec(amount as int, fraction.atomics as int) <= u128::MAX,
    ensures
        r == mul_floor_spec(amount as int, fraction.atomics as int),
{
    (cosmwasm_std::Uint128::new(amount) * cosmwasm_std::Decimal::raw(fraction.atomics)).u128()
}

/// `cosmwasm_std::Uint128::checked_mul_floor` with a `Decimal`: the product,
/// rounded down to an integer, or nothing where that exceeds 128 bits.
#[verifier::external_body]
pub(crate) fn checked_mul_floor(amount: u128, fraction: Decimal) -> (r: Option<u128>)
    ensures
        r == if mul_floor_spec(amount as int, fraction.atomics as int) <= u128::MAX {
            Some(mul_floor_spec(amount as int, fraction.atomics as int) as u128)
        } else {
            None
        },
{
    cosmwasm_std::Uint128::new(amount).checked_mul_floor(
        cosmwasm_std::Decimal::raw(fraction.atomics),
    ).ok().map(|product| product.u128())
}

/// A part of a whole has a ratio of at most one.
pub proof fn lemma_ratio_bound(part: int, whole: int)
    requires
        0 <= part <= whole,
        0 < whole,
    ensures
        0 <= ratio_atomics(part, whole) <= DECIMAL_FRACTIONAL,
        ratio_atomics(part, whole) * whole <= part * DECIMAL_FRACTIONAL,
{
    let f = DECIMAL_FRACTIONAL as int;
    assert(0 <= part * f / whole <= f && (part * f / whole) * whole <= part * f)
        by (nonlinear_arith)
        requires
            0 <= part <= whole,
            0 < whole,
            f > 0,
    ;
}

/// Rounding down never hands out more than the exact proportion.
pub proof fn lemma_share_bound(pool: int, part: int, whole: int)
    requires
        0 <= pool,
        0 <= part <= whole,
        0 < whole,
    ensures
        0 <= share_of(pool, part, whole) <= pool,
        share_of(pool, part, whole) * whole <= pool * part,
{
    let f = DECIMAL_FRACTIONAL as int;
    let r = ratio_atomics(part, whole);
    lemma_ratio_bound(part, whole);
    let s = share_of(pool, part, whole);
    assert(s == pool * r / f);
    assert(0 <= s <= pool && s * f <= pool * r) by (nonlinear_arith)
        requires
            0 <= pool,
            0 <= r <= f,
            f > 0,
            s == pool * r / f,
    ;
    assert(s * whole <= pool * part) by (nonlinear_arith)
        requires
            s * f <= pool * r,
            r * whole <= part * f,
            0 <= s,
            0 <= pool,
            0 <= r,
            0 < whole,
            0 < f,
    ;
}

/// A fraction of at most one yields at most the amount.
pub proof fn lemma_mul_floor_bound(amount: int, atomics: int)
    requires
        0 <= amount,
        0 <= atomics <= DECIMAL_FRACTIONAL,
    ensures
        0 <= mul_floor_spec(amount, atomics) <= amount,
{
    let f = DECIMAL_FRACTIONAL as int;
    assert(0 <= amount * atomics / f <= amount) by (nonlinear_arith)
        requires
            0 <= amount,
            0 <= atomics <= f,
            f > 0,
    ;
}

} // verus!
