//! Raw values of 128 bits: what is worked out on the way to a number,
//! without saturation.
//!
//! A product is taken only where it fits in the 128 bits before it is
//! rounded. Where it does not, there is no result, and what is built on it
//! has none either.

use crate::scalar::{magnitude, magnitude_of, quotient, wide_divide, Scalar, UNIT};
use crate::vec3::Vec3;
use vstd::prelude::*;

verus! {

/// The greatest distance from zero of a value on the way.
pub const LIMIT: i128 = 0x7fff_ffff_ffff_ffff_ffff_ffff_ffff_ffff;

/// A distance from zero that no rounded product exceeds.
pub const ROUNDED: i128 = 0x2000_0000_0000_0000_0000_0000_0000;

/// The value can be held on the way.
pub open spec fn fits(v: int) -> bool {
    -LIMIT <= v <= LIMIT
}

/// The product of two raw values, rounded toward zero, where the product
/// fits before it is rounded.
pub open spec fn product(a: int, b: int) -> Option<int> {
    if fits(a * b) {
        Some(quotient(a * b, UNIT as int))
    } else {
        None
    }
}

/// The quotient of two raw values, rounded toward zero, where the divisor
/// is not zero and both it and the scaled dividend fit.
pub open spec fn ratio(n: int, d: int) -> Option<int> {
    if d != 0 && fits(d) && fits(n * UNIT) {
        Some(quotient(n * UNIT, d))
    } else {
        None
    }
}

/// The scalar product of two triples of raw values, where each of the
/// three products has a result.
pub open spec fn dot3(a: (int, int, int), b: (int, int, int)) -> Option<int> {
    match (product(a.0, b.0), product(a.1, b.1), product(a.2, b.2)) {
        (Some(x), Some(y), Some(z)) => Some(x + y + z),
        _ => None,
    }
}

/// The vector product of two triples of raw values, where each of the six
/// products has a result.
pub open spec fn cross3(a: (int, int, int), b: (int, int, int)) -> Option<(int, int, int)> {
    match (
        product(a.1, b.2),
        product(a.2, b.1),
        product(a.2, b.0),
        product(a.0, b.2),
        product(a.0, b.1),
        product(a.1, b.0),
    ) {
        (Some(yz), Some(zy), Some(zx), Some(xz), Some(xy), Some(yx)) => Some(
            (yz - zy, zx - xz, xy - yx),
        ),
        _ => None,
    }
}

/// The raw values of a vector.
pub open spec fn raws(v: Vec3<Scalar>) -> (int, int, int) {
    (v.x.raw as int, v.y.raw as int, v.z.raw as int)
}

/// The raw values of the way from `from` to `to`, not cut off.
pub open spec fn apart(to: Vec3<Scalar>, from: Vec3<Scalar>) -> (int, int, int) {
    (to.x.raw - from.x.raw, to.y.raw - from.y.raw, to.z.raw - from.z.raw)
}

/// A result of 128 bits as the value it stands for.
pub open spec fn value(r: Option<i128>) -> Option<int> {
    match r {
        Some(v) => Some(v as int),
        None => None,
    }
}

/// A triple of 128 bits as the values it stands for.
pub open spec fn values(t: (i128, i128, i128)) -> (int, int, int) {
    (t.0 as int, t.1 as int, t.2 as int)
}

/// A result of three times 128 bits as the values it stands for.
pub open spec fn value3(r: Option<(i128, i128, i128)>) -> Option<(int, int, int)> {
    match r {
        Some(t) => Some(values(t)),
        None => None,
    }
}

/// Each of the three values is no farther from zero than `bound`.
pub open spec fn held(t: (i128, i128, i128), bound: int) -> bool {
    &&& -bound <= t.0 <= bound
    &&& -bound <= t.1 <= bound
    &&& -bound <= t.2 <= bound
}

/// A quotient by `UNIT` is smaller than the dividend by more than forty
/// binary places.
pub proof fn lemma_rounded(n: int)
    requires
        fits(n),
    ensures
        -ROUNDED <= quotient(n, UNIT as int) <= ROUNDED,
{
    reveal(quotient);
    let m = magnitude(n);
    assert(0 <= m / (UNIT as int) <= 0x2000_0000_0000_0000_0000_0000_0000) by (nonlinear_arith)
        requires
            0 <= m <= 0x8000_0000_0000_0000_0000_0000_0000_0000,
            UNIT == 10_000_000_000_000,
    ;
}

/// The product of two raw values, where it fits.
pub fn product_of(a: i128, b: i128) -> (r: Option<i128>)
    ensures
        value(r) == product(a as int, b as int),
        r matches Some(v) ==> -ROUNDED <= v <= ROUNDED,
{
    match a.checked_mul(b) {
        Some(p) => {
            if p == i128::MIN {
                None
            } else {
                proof {
                    lemma_rounded(p as int);
                }
                Some(wide_divide(p, UNIT as i128))
            }
        },
        None => None,
    }
}

/// The quotient of two raw values, where there is one.
pub fn ratio_of(n: i128, d: i128) -> (r: Option<i128>)
    ensures
        value(r) == ratio(n as int, d as int),
{
    if d == 0 || d == i128::MIN {
        return None;
    }
    match n.checked_mul(UNIT as i128) {
        Some(p) => {
            if p == i128::MIN {
                None
            } else {
                proof {
                    reveal(quotient);
                }
                let q: u128 = magnitude_of(p) / magnitude_of(d);
                assert(q <= magnitude(p as int)) by (nonlinear_arith)
                    requires
                        q == magnitude(p as int) / magnitude(d as int),
                        magnitude(d as int) >= 1,
                        magnitude(p as int) >= 0,
                ;
                if (p < 0) != (d < 0) {
                    Some(-(q as i128))
                } else {
                    Some(q as i128)
                }
            }
        },
        None => None,
    }
}

/// The scalar product of two triples, where there is one.
pub fn dot_of(a: (i128, i128, i128), b: (i128, i128, i128)) -> (r: Option<i128>)
    ensures
        value(r) == dot3(values(a), values(b)),
        r matches Some(v) ==> -3 * ROUNDED <= v <= 3 * ROUNDED,
{
    match (product_of(a.0, b.0), product_of(a.1, b.1), product_of(a.2, b.2)) {
        (Some(x), Some(y), Some(z)) => Some(x + y + z),
        _ => None,
    }
}

/// The vector product of two triples, where there is one.
pub fn cross_of(a: (i128, i128, i128), b: (i128, i128, i128)) -> (r: Option<(i128, i128, i128)>)
    ensures
        value3(r) == cross3(values(a), values(b)),
        r matches Some(t) ==> held(t, 2 * ROUNDED),
{
    match (
        product_of(a.1, b.2),
        product_of(a.2, b.1),
        product_of(a.2, b.0),
        product_of(a.0, b.2),
        product_of(a.0, b.1),
        product_of(a.1, b.0),
    ) {
        (Some(yz), Some(zy), Some(zx), Some(xz), Some(xy), Some(yx)) => Some(
            (yz - zy, zx - xz, xy - yx),
        ),
        _ => None,
    }
}

/// The raw values of a vector, in 128 bits.
pub fn raws_of(v: Vec3<Scalar>) -> (r: (i128, i128, i128))
    ensures
        values(r) == raws(v),
{
    (v.x.raw as i128, v.y.raw as i128, v.z.raw as i128)
}

/// The raw values of the way from `from` to `to`.
pub fn apart_of(to: Vec3<Scalar>, from: Vec3<Scalar>) -> (r: (i128, i128, i128))
    ensures
        values(r) == apart(to, from),
{
    (
        to.x.raw as i128 - from.x.raw as i128,
        to.y.raw as i128 - from.y.raw as i128,
        to.z.raw as i128 - from.z.raw as i128,
    )
}

} // verus!
