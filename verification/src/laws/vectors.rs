//! What holds of vectors and of the rays of the camera.

use crate::intsqrt::{floor_sqrt, is_floor_sqrt, lemma_floor_sqrt, lemma_square_order};
use crate::laws::numbers::lemma_quotient_bounds;
use crate::render::{camera_ray_spec, get_xx_spec, get_yy_spec};
use crate::scalar::{clamp, magnitude, quotient, Scalar, UNIT};
use crate::tracer::DEPTH_AXIS;
use crate::vec3::{lemma_stretched_fits, Vec3, MIDDLE, SHORT, STRETCH_MIDDLE};
use vstd::prelude::*;

verus! {

/// One component of a normalized vector: what it is, and how its square
/// compares with the exact quotient.
proof fn lemma_normalized_component(c: int, s: int, len: int)
    requires
        is_floor_sqrt(s as nat, len as nat),
        0 <= c * c <= s,
        s > 0,
        len >= 0,
    ensures
        len >= 1,
        magnitude(clamp(quotient(c * UNIT, len))) <= UNIT,
        ({
            let q = clamp(quotient(c * UNIT, len));
            &&& q * q * (len * len) <= c * c * (UNIT * UNIT)
            &&& (magnitude(q) + 1) * (magnitude(q) + 1) * (len * len) > c * c * (UNIT * UNIT)
        }),
{
    if len < 1 {
        assert((len + 1) * (len + 1) == 1) by (nonlinear_arith)
            requires
                len == 0,
        ;
    }
    let a = magnitude(c);
    assert(a * a == c * c) by (nonlinear_arith)
        requires
            a == c || a == -c,
    ;
    // a <= len, for a^2 <= s < (len + 1)^2
    if a > len {
        lemma_square_order(len + 1, a);
    }
    let n = c * UNIT;
    assert(magnitude(n) == a * UNIT) by (nonlinear_arith)
        requires
            a == magnitude(c),
            n == c * UNIT,
            UNIT == 10_000_000_000_000,
    ;
    lemma_quotient_bounds(n, len);
    let q0 = quotient(n, len);
    let m = magnitude(q0);
    // m * len <= a * UNIT <= len * UNIT, so m <= UNIT
    assert(m <= UNIT) by (nonlinear_arith)
        requires
            m * len <= a * UNIT,
            a <= len,
            len >= 1,
            m >= 0,
            UNIT == 10_000_000_000_000,
    ;
    assert(clamp(q0) == q0);
    let q = q0;
    assert(q * q == m * m) by (nonlinear_arith)
        requires
            m == q || m == -q,
    ;
    let lo = m * len;
    let mid = a * UNIT;
    let hi = (m + 1) * len;
    assert(lo >= 0) by (nonlinear_arith)
        requires
            lo == m * len,
            m >= 0,
            len >= 1,
    ;
    lemma_square_order(lo, mid);
    lemma_square_order(mid, hi);
    assert(lo * lo == q * q * (len * len)) by (nonlinear_arith)
        requires
            lo == m * len,
            q * q == m * m,
    ;
    assert(mid * mid == c * c * (UNIT * UNIT)) by (nonlinear_arith)
        requires
            mid == a * UNIT,
            a * a == c * c,
    ;
    assert(hi * hi == (m + 1) * (m + 1) * (len * len)) by (nonlinear_arith)
        requires
            hi == (m + 1) * len,
    ;
}

/// Normalizing leaves the zero vector as it is.
pub proof fn lemma_normalize_zero()
    ensures
        Vec3::<Scalar>::zero_spec().normalize_spec() == Vec3::<Scalar>::zero_spec(),
{
}

/// Two quotients by one divisor stand to each other as the dividends do,
/// but for the rounding: cross-multiplied they differ by less than the two
/// dividends together, where `x` and `y` are the dividends without their
/// common factor `m`. Neither quotient has the sign against its dividend.
proof fn lemma_quotients_in_step(x: int, y: int, m: int, len: int)
    requires
        len > 0,
        m > 0,
    ensures
        ({
            let a = quotient(x * m, len);
            let b = quotient(y * m, len);
            &&& magnitude(a * y - b * x) <= magnitude(x) + magnitude(y)
            &&& x != 0 || y != 0 ==> magnitude(a * y - b * x) < magnitude(x) + magnitude(y)
            &&& x >= 0 ==> a >= 0
            &&& x <= 0 ==> a <= 0
            &&& y >= 0 ==> b >= 0
            &&& y <= 0 ==> b <= 0
        }),
{
    let big_x = x * m;
    let big_y = y * m;
    let a = quotient(big_x, len);
    let b = quotient(big_y, len);
    lemma_quotient_bounds(big_x, len);
    lemma_quotient_bounds(big_y, len);
    assert((x >= 0 ==> big_x >= 0) && (x <= 0 ==> big_x <= 0) && magnitude(big_x) == magnitude(x)
        * m) by (nonlinear_arith)
        requires
            big_x == x * m,
            m > 0,
    ;
    assert((y >= 0 ==> big_y >= 0) && (y <= 0 ==> big_y <= 0) && magnitude(big_y) == magnitude(y)
        * m) by (nonlinear_arith)
        requires
            big_y == y * m,
            m > 0,
    ;
    let rx = big_x - a * len;
    let ry = big_y - b * len;
    assert(magnitude(rx) <= len - 1) by (nonlinear_arith)
        requires
            rx == big_x - a * len,
            magnitude(a) * len <= magnitude(big_x) < (magnitude(a) + 1) * len,
            big_x >= 0 ==> a >= 0,
            big_x <= 0 ==> a <= 0,
    ;
    assert(magnitude(ry) <= len - 1) by (nonlinear_arith)
        requires
            ry == big_y - b * len,
            magnitude(b) * len <= magnitude(big_y) < (magnitude(b) + 1) * len,
            big_y >= 0 ==> b >= 0,
            big_y <= 0 ==> b <= 0,
    ;
    let d = a * y - b * x;
    let e = ry * big_x - rx * big_y;
    let al = a * len;
    let bl = b * len;
    assert(a * y * (m * len) == al * big_y) by (nonlinear_arith)
        requires
            al == a * len,
            big_y == y * m,
    ;
    assert(b * x * (m * len) == bl * big_x) by (nonlinear_arith)
        requires
            bl == b * len,
            big_x == x * m,
    ;
    assert(d * (m * len) == a * y * (m * len) - b * x * (m * len)) by (nonlinear_arith)
        requires
            d == a * y - b * x,
    ;
    assert(al * big_y - bl * big_x == e) by (nonlinear_arith)
        requires
            e == ry * big_x - rx * big_y,
            rx == big_x - al,
            ry == big_y - bl,
    ;
    let w = magnitude(x) + magnitude(y);
    assert(magnitude(ry * big_x) <= (len - 1) * magnitude(big_x)) by (nonlinear_arith)
        requires
            magnitude(ry) <= len - 1,
    ;
    assert(magnitude(rx * big_y) <= (len - 1) * magnitude(big_y)) by (nonlinear_arith)
        requires
            magnitude(rx) <= len - 1,
    ;
    assert((len - 1) * magnitude(big_x) + (len - 1) * magnitude(big_y) == (len - 1) * (m * w))
        by (nonlinear_arith)
        requires
            magnitude(big_x) == magnitude(x) * m,
            magnitude(big_y) == magnitude(y) * m,
            w == magnitude(x) + magnitude(y),
    ;
    assert(magnitude(d) * (m * len) == magnitude(e)) by (nonlinear_arith)
        requires
            d * (m * len) == e,
            m > 0,
            len > 0,
    ;
    let g = magnitude(d);
    assert(g <= w && (w > 0 ==> g < w)) by (nonlinear_arith)
        requires
            g * (m * len) <= (len - 1) * (m * w),
            m > 0,
            len > 0,
            w >= 0,
            g >= 0,
    ;
}

/// A pair of components of a normalized vector, `a` and `b`, stands as the
/// pair `x` and `y` stood that it came from: neither has changed its sign,
/// and cross-multiplied the pairs differ by less than `x` and `y` together,
/// so that the new pair is off the ratio of the old one by less than one
/// raw unit in each component.
pub open spec fn in_step(x: Scalar, y: Scalar, a: Scalar, b: Scalar) -> bool {
    &&& magnitude(a.raw * y.raw - b.raw * x.raw) <= magnitude(x.raw as int) + magnitude(
        y.raw as int,
    )
    &&& x.raw != 0 || y.raw != 0 ==> magnitude(a.raw * y.raw - b.raw * x.raw) < magnitude(
        x.raw as int,
    ) + magnitude(y.raw as int)
    &&& x.raw >= 0 ==> a.raw >= 0
    &&& x.raw <= 0 ==> a.raw <= 0
    &&& y.raw >= 0 ==> b.raw >= 0
    &&& y.raw <= 0 ==> b.raw <= 0
}

/// Normalizing keeps the direction of a vector: each pair of components of
/// the result stands as the pair stood that it came from.
pub proof fn lemma_normalize_keeps_direction(v: Vec3<Scalar>)
    ensures
        in_step(v.x, v.y, v.normalize_spec().x, v.normalize_spec().y),
        in_step(v.y, v.z, v.normalize_spec().y, v.normalize_spec().z),
        in_step(v.z, v.x, v.normalize_spec().z, v.normalize_spec().x),
{
    let s0 = v.sum_squares();
    let (x, y, z) = (v.x.raw as int, v.y.raw as int, v.z.raw as int);
    assert(x * x >= 0 && y * y >= 0 && z * z >= 0) by (nonlinear_arith);
    if s0 == 0 {
        assert(x == 0 && y == 0 && z == 0) by (nonlinear_arith)
            requires
                x * x + y * y + z * z == 0,
        ;
    } else {
        lemma_normalize_unit(v);
        let k = Vec3::<Scalar>::stretch(s0);
        let len = v.stretched_len();
        let m = k * UNIT;
        assert(m > 0 && s0 * (k * k) > 0) by (nonlinear_arith)
            requires
                m == k * UNIT,
                k >= 1,
                s0 > 0,
                UNIT == 10_000_000_000_000,
        ;
        lemma_floor_sqrt((s0 * (k * k)) as nat);
        if len == 0 {
            assert((len + 1) * (len + 1) == 1) by (nonlinear_arith)
                requires
                    len == 0,
            ;
        }
        assert(x * k * UNIT == x * m && y * k * UNIT == y * m && z * k * UNIT == z * m)
            by (nonlinear_arith)
            requires
                m == k * UNIT,
        ;
        lemma_quotients_in_step(x, y, m, len);
        lemma_quotients_in_step(y, z, m, len);
        lemma_quotients_in_step(z, x, m, len);
    }
}

/// A component has all but stayed as it was: it has moved by no more than
/// four raw units, and has not changed its sign.
pub open spec fn settled(before: Scalar, after: Scalar) -> bool {
    &&& magnitude(before.raw as int) - 1 <= magnitude(after.raw as int) <= magnitude(
        before.raw as int,
    ) + 4
    &&& before.raw >= 0 ==> after.raw >= 0
    &&& before.raw <= 0 ==> after.raw <= 0
}

/// Normalizing a vector that is not zero gives a vector of length one,
/// within a few raw units: no component of the result is longer than one,
/// and its squared length lies between `UNIT^2 - 6 UNIT - 3` and
/// `(UNIT + 1)^2` raw units, so that its length is under one by less than
/// four raw units and over it by less than one.
pub proof fn lemma_normalize_unit(v: Vec3<Scalar>)
    requires
        v.sum_squares() != 0,
    ensures
        magnitude(v.normalize_spec().x.raw as int) <= UNIT,
        magnitude(v.normalize_spec().y.raw as int) <= UNIT,
        magnitude(v.normalize_spec().z.raw as int) <= UNIT,
        UNIT * UNIT - 6 * UNIT - 3 < v.normalize_spec().sum_squares() < (UNIT + 1) * (UNIT + 1),
{
    let s0 = v.sum_squares();
    let k = Vec3::<Scalar>::stretch(s0);
    assert(v.x.raw * v.x.raw >= 0 && v.y.raw * v.y.raw >= 0 && v.z.raw * v.z.raw >= 0)
        by (nonlinear_arith);
    lemma_stretched_fits(v.x.raw as int, s0);
    let x = v.x.raw * k;
    let y = v.y.raw * k;
    let z = v.z.raw * k;
    let s = s0 * (k * k);
    let kk = k * k;
    let (a, b, c) = (v.x.raw as int, v.y.raw as int, v.z.raw as int);
    assert(x * x == a * a * kk) by (nonlinear_arith)
        requires
            x == a * k,
            kk == k * k,
    ;
    assert(y * y == b * b * kk) by (nonlinear_arith)
        requires
            y == b * k,
            kk == k * k,
    ;
    assert(z * z == c * c * kk) by (nonlinear_arith)
        requires
            z == c * k,
            kk == k * k,
    ;
    assert(s == a * a * kk + b * b * kk + c * c * kk) by (nonlinear_arith)
        requires
            s == s0 * kk,
            s0 == a * a + b * b + c * c,
    ;
    assert(x * x >= 0 && y * y >= 0 && z * z >= 0) by (nonlinear_arith);
    assert(s >= s0 && s > 0) by (nonlinear_arith)
        requires
            s == s0 * (k * k),
            s0 > 0,
            k >= 1,
    ;
    lemma_floor_sqrt(s as nat);
    let len = v.stretched_len();
    lemma_normalized_component(x, s, len);
    lemma_normalized_component(y, s, len);
    lemma_normalized_component(z, s, len);
    let n = v.normalize_spec();
    let qx = n.x.raw as int;
    let qy = n.y.raw as int;
    let qz = n.z.raw as int;
    assert(qx == clamp(quotient(x * UNIT, len)));
    assert(qy == clamp(quotient(y * UNIT, len)));
    assert(qz == clamp(quotient(z * UNIT, len)));
    let l2 = len * len;
    let u = UNIT as int;
    let u2 = u * u;
    assert(l2 >= 1) by (nonlinear_arith)
        requires
            len >= 1,
            l2 == len * len,
    ;
    assert(u2 == 100_000_000_000_000_000_000_000_000) by (nonlinear_arith)
        requires
            u2 == u * u,
            u == 10_000_000_000_000,
    ;
    // the length of the stretched vector is no less than one
    if len < 0x1000_0000_0000 {
        lemma_square_order(len + 1, 0x1000_0000_0000);
        assert(0x1000_0000_0000int * 0x1000_0000_0000int == 0x100_0000_0000_0000_0000_0000int)
            by (nonlinear_arith);
    }
    assert(len >= u);
    // above
    let got = n.sum_squares();
    assert(got * l2 == qx * qx * l2 + qy * qy * l2 + qz * qz * l2) by (nonlinear_arith)
        requires
            got == qx * qx + qy * qy + qz * qz,
    ;
    assert(u2 * s == x * x * u2 + y * y * u2 + z * z * u2) by (nonlinear_arith)
        requires
            s == x * x + y * y + z * z,
    ;
    assert(u2 * s < u2 * ((len + 1) * (len + 1))) by (nonlinear_arith)
        requires
            s < (len + 1) * (len + 1),
            u2 > 0,
    ;
    assert(u * (len + 1) <= (u + 1) * len) by (nonlinear_arith)
        requires
            len >= u,
    ;
    assert(u * (len + 1) >= 0) by (nonlinear_arith)
        requires
            len >= u,
            u > 0,
    ;
    lemma_square_order(u * (len + 1), (u + 1) * len);
    assert((u * (len + 1)) * (u * (len + 1)) == u2 * ((len + 1) * (len + 1))) by (nonlinear_arith)
        requires
            u2 == u * u,
    ;
    assert(((u + 1) * len) * ((u + 1) * len) == (u + 1) * (u + 1) * l2) by (nonlinear_arith)
        requires
            l2 == len * len,
    ;
    assert(got < (u + 1) * (u + 1)) by (nonlinear_arith)
        requires
            got * l2 < (u + 1) * (u + 1) * l2,
            l2 > 0,
    ;
    // below
    let mx = magnitude(qx);
    let my = magnitude(qy);
    let mz = magnitude(qz);
    let grown = (mx + 1) * (mx + 1) + (my + 1) * (my + 1) + (mz + 1) * (mz + 1);
    assert(grown * l2 == (mx + 1) * (mx + 1) * l2 + (my + 1) * (my + 1) * l2 + (mz + 1) * (mz
        + 1) * l2) by (nonlinear_arith)
        requires
            grown == (mx + 1) * (mx + 1) + (my + 1) * (my + 1) + (mz + 1) * (mz + 1),
    ;
    assert(u2 * s >= u2 * l2) by (nonlinear_arith)
        requires
            s >= l2,
            u2 > 0,
    ;
    assert(grown > u2) by (nonlinear_arith)
        requires
            grown * l2 > u2 * l2,
            l2 >= 1,
    ;
    assert(grown == qx * qx + qy * qy + qz * qz + 2 * (mx + my + mz) + 3) by (nonlinear_arith)
        requires
            grown == (mx + 1) * (mx + 1) + (my + 1) * (my + 1) + (mz + 1) * (mz + 1),
            mx == qx || mx == -qx,
            my == qy || my == -qy,
            mz == qz || mz == -qz,
    ;
}

/// The length of a normalized vector, taken as `len` takes it, is one or
/// under one by no more than four raw units.
pub proof fn lemma_normalize_length(v: Vec3<Scalar>)
    requires
        v.sum_squares() != 0,
    ensures
        UNIT - 4 <= v.normalize_spec().len_spec().raw <= UNIT,
{
    lemma_normalize_unit(v);
    let s = v.normalize_spec().sum_squares();
    let u = UNIT as int;
    lemma_floor_sqrt(s as nat);
    let r = floor_sqrt(s as nat) as int;
    if r >= u + 1 {
        lemma_square_order(u + 1, r);
    }
    if r + 1 <= u - 4 {
        lemma_square_order(r + 1, u - 4);
        assert((u - 4) * (u - 4) <= u * u - 6 * u - 3) by (nonlinear_arith)
            requires
                u == 10_000_000_000_000,
        ;
    }
}

/// A component of a vector of nearly unit length, divided by that
/// length, moves by a few raw units at most.
proof fn lemma_settled_component(c: int, len: int)
    requires
        magnitude(c) <= UNIT,
        (UNIT - 4) * STRETCH_MIDDLE <= len < (UNIT + 1) * STRETCH_MIDDLE,
    ensures
        ({
            let q = clamp(quotient(c * STRETCH_MIDDLE * UNIT, len));
            &&& magnitude(c) - 1 <= magnitude(q) <= magnitude(c) + 4
            &&& c >= 0 ==> q >= 0
            &&& c <= 0 ==> q <= 0
        }),
{
    let a = magnitude(c);
    let u = UNIT as int;
    let k = STRETCH_MIDDLE as int;
    let n = c * k * u;
    assert(magnitude(n) == a * k * u && (c >= 0 ==> n >= 0) && (c <= 0 ==> n <= 0))
        by (nonlinear_arith)
        requires
            n == c * k * u,
            a == magnitude(c),
            k == 0x10,
            u == 10_000_000_000_000,
    ;
    assert(len > 0) by (nonlinear_arith)
        requires
            (u - 4) * k <= len,
            k == 0x10,
            u == 10_000_000_000_000,
    ;
    lemma_quotient_bounds(n, len);
    let m = magnitude(quotient(n, len));
    // m (u - 4) <= a u
    assert(m * (u - 4) <= a * u) by (nonlinear_arith)
        requires
            m * len <= a * k * u,
            (u - 4) * k <= len,
            m >= 0,
            k == 0x10,
            u == 10_000_000_000_000,
    ;
    assert(m <= a + 4) by (nonlinear_arith)
        requires
            m * (u - 4) <= a * u,
            0 <= a <= u,
            u == 10_000_000_000_000,
    ;
    // (m + 1) (u + 1) > a u
    assert((m + 1) * (u + 1) > a * u) by (nonlinear_arith)
        requires
            a * k * u < (m + 1) * len,
            len < (u + 1) * k,
            m >= 0,
            k == 0x10,
            u == 10_000_000_000_000,
    ;
    assert(m >= a - 1) by (nonlinear_arith)
        requires
            (m + 1) * (u + 1) > a * u,
            0 <= a <= u,
            m >= 0,
            u == 10_000_000_000_000,
    ;
}

/// A vector of nearly unit length all but stays as it is when it is
/// normalized: where no component is longer than one and the squared length
/// lies within the bounds that normalizing keeps, each component moves by
/// no more than four raw units, and keeps its sign.
pub proof fn lemma_normalize_settles(n: Vec3<Scalar>)
    requires
        magnitude(n.x.raw as int) <= UNIT,
        magnitude(n.y.raw as int) <= UNIT,
        magnitude(n.z.raw as int) <= UNIT,
        UNIT * UNIT - 6 * UNIT - 3 < n.sum_squares() < (UNIT + 1) * (UNIT + 1),
    ensures
        settled(n.x, n.normalize_spec().x),
        settled(n.y, n.normalize_spec().y),
        settled(n.z, n.normalize_spec().z),
{
    let s = n.sum_squares();
    let u = UNIT as int;
    let k = STRETCH_MIDDLE as int;
    assert(SHORT <= u * u - 6 * u - 3 && (u + 1) * (u + 1) < MIDDLE) by (nonlinear_arith)
        requires
            u == 10_000_000_000_000,
    ;
    assert((u - 4) * (u - 4) <= u * u - 6 * u - 3) by (nonlinear_arith)
        requires
            u == 10_000_000_000_000,
    ;
    assert(Vec3::<Scalar>::stretch(s) == k);
    let wide = s * (k * k);
    assert(wide >= 0) by (nonlinear_arith)
        requires
            wide == s * (k * k),
            s >= 0,
    ;
    lemma_floor_sqrt(wide as nat);
    let len = n.stretched_len();
    let low = (u - 4) * k;
    let high = (u + 1) * k;
    assert(low >= 0 && high >= 0) by (nonlinear_arith)
        requires
            low == (u - 4) * k,
            high == (u + 1) * k,
            k == 0x10,
            u == 10_000_000_000_000,
    ;
    assert(low * low == (u - 4) * (u - 4) * (k * k) && high * high == (u + 1) * (u + 1) * (k
        * k)) by (nonlinear_arith)
        requires
            low == (u - 4) * k,
            high == (u + 1) * k,
    ;
    assert(low * low <= wide < high * high) by (nonlinear_arith)
        requires
            wide == s * (k * k),
            low * low == (u - 4) * (u - 4) * (k * k),
            high * high == (u + 1) * (u + 1) * (k * k),
            (u - 4) * (u - 4) <= s < (u + 1) * (u + 1),
            k == 0x10,
    ;
    if len >= high {
        lemma_square_order(high, len);
    }
    if len + 1 <= low {
        lemma_square_order(len + 1, low);
    }
    lemma_settled_component(n.x.raw as int, len);
    lemma_settled_component(n.y.raw as int, len);
    lemma_settled_component(n.z.raw as int, len);
}

/// Normalizing twice is normalizing once, within four raw units in each
/// component.
pub proof fn lemma_normalize_twice(v: Vec3<Scalar>)
    ensures
        settled(v.normalize_spec().x, v.normalize_spec().normalize_spec().x),
        settled(v.normalize_spec().y, v.normalize_spec().normalize_spec().y),
        settled(v.normalize_spec().z, v.normalize_spec().normalize_spec().z),
{
    assert(v.x.raw * v.x.raw >= 0 && v.y.raw * v.y.raw >= 0 && v.z.raw * v.z.raw >= 0)
        by (nonlinear_arith);
    if v.sum_squares() != 0 {
        lemma_normalize_unit(v);
        lemma_normalize_settles(v.normalize_spec());
    } else {
        assert(v.normalize_spec() == v);
    }
}

/// The ray through a pixel has length one, within the same bounds.
pub proof fn lemma_camera_ray_unit(x: int, y: int, width: int, height: int, tangent: Scalar)
    ensures
        UNIT * UNIT - 6 * UNIT - 3 < camera_ray_spec(x, y, width, height, tangent).sum_squares() < (
        UNIT + 1) * (UNIT + 1),
{
    let v = Vec3 {
        x: get_xx_spec(x, width, height, tangent),
        y: get_yy_spec(y, height, tangent),
        z: Scalar { raw: DEPTH_AXIS },
    };
    assert(v.x.raw * v.x.raw >= 0 && v.y.raw * v.y.raw >= 0) by (nonlinear_arith);
    assert(v.z.raw * v.z.raw == UNIT * UNIT) by (nonlinear_arith)
        requires
            v.z.raw == -UNIT,
    ;
    lemma_normalize_unit(v);
}

} // verus!
