//! What holds of the arithmetic of fixed-point numbers.

use crate::intsqrt::{floor_sqrt, lemma_floor_sqrt};
use crate::scalar::{lemma_sqrt_in_range, magnitude, quotient, Scalar, UNIT};
use vstd::prelude::*;

verus! {

/// A quotient by a positive divisor, times the divisor, falls short of the
/// dividend by less than the divisor, and has the dividend's sign.
pub proof fn lemma_quotient_bounds(n: int, d: int)
    requires
        d > 0,
    ensures
        magnitude(quotient(n, d)) * d <= magnitude(n) < (magnitude(quotient(n, d)) + 1) * d,
        n >= 0 ==> quotient(n, d) >= 0,
        n <= 0 ==> quotient(n, d) <= 0,
{
    reveal(quotient);
    let m = magnitude(n);
    let q = m / d;
    assert(q * d <= m < (q + 1) * d && q >= 0) by (nonlinear_arith)
        requires
            m >= 0,
            d > 0,
            q == m / d,
    ;
}

/// A product that does not saturate is off the exact product by less than
/// one raw unit, toward zero.
pub proof fn lemma_times_error(a: Scalar, b: Scalar)
    requires
        i64::MIN < a.times(b).raw < i64::MAX,
    ensures
        magnitude(a.times(b).raw as int) * UNIT <= magnitude(a.raw * b.raw) < (magnitude(
            a.times(b).raw as int,
        ) + 1) * UNIT,
        a.raw * b.raw >= 0 ==> a.times(b).raw >= 0,
        a.raw * b.raw <= 0 ==> a.times(b).raw <= 0,
{
    lemma_quotient_bounds(a.raw * b.raw, UNIT as int);
}

/// A quotient that does not saturate, by a positive divisor, is off the
/// exact quotient by less than one raw unit, toward zero.
pub proof fn lemma_over_error(a: Scalar, b: Scalar)
    requires
        b.raw > 0,
        i64::MIN < a.over(b).raw < i64::MAX,
    ensures
        magnitude(a.over(b).raw as int) * b.raw <= magnitude(a.raw * UNIT) < (magnitude(
            a.over(b).raw as int,
        ) + 1) * b.raw,
        a.raw >= 0 ==> a.over(b).raw >= 0,
        a.raw <= 0 ==> a.over(b).raw <= 0,
{
    assert(a.raw >= 0 ==> a.raw * UNIT >= 0) by (nonlinear_arith)
        requires
            UNIT == 10_000_000_000_000,
    ;
    assert(a.raw <= 0 ==> a.raw * UNIT <= 0) by (nonlinear_arith)
        requires
            UNIT == 10_000_000_000_000,
    ;
    lemma_quotient_bounds(a.raw * UNIT, b.raw as int);
}

/// The square root of a positive number is off the exact root by less than
/// one raw unit, downward: its square is not over the number, and the square
/// of the next number is.
pub proof fn lemma_sqrt_error(a: Scalar)
    requires
        a.raw > 0,
    ensures
        a.sqrt_spec().raw > 0,
        a.sqrt_spec().raw * a.sqrt_spec().raw <= a.raw * UNIT < (a.sqrt_spec().raw + 1) * (
        a.sqrt_spec().raw + 1),
{
    let n = (a.raw * UNIT) as nat;
    assert(a.raw * UNIT >= UNIT) by (nonlinear_arith)
        requires
            a.raw >= 1,
            UNIT == 10_000_000_000_000,
    ;
    lemma_floor_sqrt(n);
    lemma_sqrt_in_range(a.raw as int);
    let r = floor_sqrt(n);
    if r == 0 {
        assert((r + 1) * (r + 1) == 1) by (nonlinear_arith)
            requires
                r == 0,
        ;
    }
}

/// A number times zero is zero.
pub proof fn lemma_times_zero(a: Scalar)
    ensures
        a.times(Scalar::zero_spec()) == Scalar::zero_spec(),
        Scalar::zero_spec().times(a) == Scalar::zero_spec(),
{
    reveal(quotient);
    assert(a.raw * 0 == 0 && 0 * a.raw == 0) by (nonlinear_arith);
}

/// The product of two numbers that are not negative is not negative.
pub proof fn lemma_times_not_negative(a: Scalar, b: Scalar)
    requires
        a.raw >= 0,
        b.raw >= 0,
    ensures
        a.times(b).raw >= 0,
{
    assert(a.raw * b.raw >= 0) by (nonlinear_arith)
        requires
            a.raw >= 0,
            b.raw >= 0,
    ;
    lemma_quotient_bounds(a.raw * b.raw, UNIT as int);
}

} // verus!
