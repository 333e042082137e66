//! What holds of the shapes and the rays that meet them.

use crate::intsqrt::lemma_floor_sqrt;
use crate::laws::numbers::lemma_quotient_bounds;
use crate::scalar::{magnitude, quotient, square, Scalar, UNIT};
use crate::solids::rectangle::Rectangle;
use crate::solids::sphere::Sphere;
use crate::solids::triangle::{Triangle, EPSILON};
use crate::vec3::Vec3;
use crate::wide::{fits, product, ratio};
use vstd::prelude::*;

verus! {

/// A sphere is never hit behind the origin of the ray.
pub proof fn lemma_sphere_hit_is_ahead(
    sphere: Sphere,
    origin: Vec3<Scalar>,
    direction: Vec3<Scalar>,
)
    ensures
        sphere.intersect_spec(origin, direction) matches Some(t) ==> t.raw >= 0,
{
}

/// A triangle is hit ahead of the origin of the ray by more than the
/// tolerance, and so is a rectangle.
pub proof fn lemma_flat_hit_is_ahead(
    triangle: Triangle,
    rectangle: Rectangle,
    origin: Vec3<Scalar>,
    direction: Vec3<Scalar>,
)
    ensures
        triangle.intersect_spec(origin, direction) matches Some(t) ==> t.raw > EPSILON,
        rectangle.intersect_spec(origin, direction) matches Some(t) ==> t.raw > EPSILON,
{
}

/// A ray parallel to the plane of a triangle does not meet it.
pub proof fn lemma_parallel_ray_misses(
    triangle: Triangle,
    origin: Vec3<Scalar>,
    direction: Vec3<Scalar>,
)
    requires
        triangle.is_parallel(direction),
    ensures
        triangle.intersect_spec(origin, direction) is None,
{
}

/// A ray meets a rectangle where it meets one of its halves, and misses it
/// where it misses both.
pub proof fn lemma_rectangle_halves(
    rectangle: Rectangle,
    origin: Vec3<Scalar>,
    direction: Vec3<Scalar>,
)
    ensures
        rectangle.intersect_spec(origin, direction) is Some <==> (rectangle.t0.intersect_spec(
            origin,
            direction,
        ) is Some || rectangle.t1.intersect_spec(origin, direction) is Some),
{
}

/// The rounded square is under the exact square by less than one raw
/// unit.
pub proof fn lemma_square_exact(v: int)
    ensures
        v * v - UNIT < square(v) * UNIT <= v * v,
        square(v) >= 0,
{
    let n = v * v;
    assert(n >= 0) by (nonlinear_arith)
        requires
            n == v * v,
    ;
    let q = n / (UNIT as int);
    assert(n - UNIT < q * UNIT <= n && q >= 0) by (nonlinear_arith)
        requires
            q == n / (UNIT as int),
            n >= 0,
            UNIT == 10_000_000_000_000,
    ;
}

/// Nothing is cut off where the offset of a ray from the centre of a sphere
/// is taken: with `tca` the parameter of the point nearest the centre, the
/// offset is off the exact difference of the squared length of the way to
/// the centre and the square of `tca` by less than three raw units below and
/// one above, however far apart origin and centre lie.
pub proof fn lemma_offset_exact(sphere: Sphere, origin: Vec3<Scalar>, direction: Vec3<Scalar>)
    ensures
        ({
            let (x, y, z) = sphere.way(origin);
            let tca = sphere.nearest_parameter(origin, direction);
            let exact = x * x + y * y + z * z - tca * tca;
            exact - 3 * UNIT < sphere.offset_sqr(origin, direction) * UNIT < exact + UNIT
        }),
{
    let (x, y, z) = sphere.way(origin);
    let tca = sphere.nearest_parameter(origin, direction);
    lemma_square_exact(x);
    lemma_square_exact(y);
    lemma_square_exact(z);
    lemma_square_exact(tca);
    let (a, b, c, d) = (square(x), square(y), square(z), square(tca));
    assert((a + b + c - d) * UNIT == a * UNIT + b * UNIT + c * UNIT - d * UNIT)
        by (nonlinear_arith);
}

/// A ray that passes a sphere at more than its radius misses it, however
/// far the sphere is: where the exact difference of the squares is over the
/// exact square of the radius by three raw units or more, there is no hit.
pub proof fn lemma_wide_ray_misses(sphere: Sphere, origin: Vec3<Scalar>, direction: Vec3<Scalar>)
    requires
        ({
            let (x, y, z) = sphere.way(origin);
            let tca = sphere.nearest_parameter(origin, direction);
            x * x + y * y + z * z - tca * tca >= sphere.radius.raw * sphere.radius.raw + 3
                * UNIT
        }),
    ensures
        sphere.intersect_spec(origin, direction) is None,
{
    lemma_offset_exact(sphere, origin, direction);
    lemma_square_exact(sphere.radius.raw as int);
    let off = sphere.offset_sqr(origin, direction);
    let reach = sphere.reach();
    assert(off > reach) by (nonlinear_arith)
        requires
            off * UNIT > reach * UNIT,
            UNIT == 10_000_000_000_000,
    ;
}

/// A hit on a sphere is a crossing: with `t` the parameter of the hit,
/// `tca` that of the point nearest the centre and `d` the offset, the
/// square of `t - tca` is the squared radius less `d`, within the rounding
/// of the root: it is not over it, and the square of the next number is.
pub proof fn lemma_sphere_hit_is_crossing(
    sphere: Sphere,
    origin: Vec3<Scalar>,
    direction: Vec3<Scalar>,
)
    ensures
        sphere.intersect_spec(origin, direction) matches Some(t) ==> ({
            let tca = sphere.nearest_parameter(origin, direction);
            let under = (sphere.reach() - sphere.offset_sqr(origin, direction)) * UNIT;
            let half = magnitude(t.raw - tca);
            &&& t.raw >= 0
            &&& under >= 0
            &&& half * half <= under < (half + 1) * (half + 1)
        }),
{
    if sphere.intersect_spec(origin, direction) is Some {
        let under = (sphere.reach() - sphere.offset_sqr(origin, direction)) * UNIT;
        assert(under >= 0) by (nonlinear_arith)
            requires
                under == (sphere.reach() - sphere.offset_sqr(origin, direction)) * UNIT,
                sphere.reach() - sphere.offset_sqr(origin, direction) >= 0,
        ;
        lemma_floor_sqrt(under as nat);
    }
}

/// A hit lies on the sphere. With `l` the way from the origin to the
/// centre, `tca` the parameter of the point nearest the centre and `t` the
/// parameter of the hit, `l^2 - 2 t tca + t^2` is the squared distance
/// between the centre and the point at `t`, for a direction of unit length.
/// It is the squared radius within a few raw units: less than
/// `2 UNIT + 2 |t - tca| + 1` under it and less than `3 UNIT` over it, in
/// units of a raw unit squared, however large the sphere and however far.
pub proof fn lemma_sphere_hit_distance(
    sphere: Sphere,
    origin: Vec3<Scalar>,
    direction: Vec3<Scalar>,
)
    ensures
        sphere.intersect_spec(origin, direction) matches Some(t) ==> ({
            let (x, y, z) = sphere.way(origin);
            let tca = sphere.nearest_parameter(origin, direction);
            let distance = x * x + y * y + z * z - 2 * t.raw * tca + t.raw * t.raw;
            let radius = sphere.radius.raw * sphere.radius.raw;
            radius - 2 * UNIT - 2 * magnitude(t.raw - tca) - 1 < distance < radius + 3 * UNIT
        }),
{
    match sphere.intersect_spec(origin, direction) {
        Some(t) => {
            let (x, y, z) = sphere.way(origin);
            let tca = sphere.nearest_parameter(origin, direction);
            let line = x * x + y * y + z * z;
            let off = sphere.offset_sqr(origin, direction);
            let reach = sphere.reach();
            let half = magnitude(t.raw - tca);
            let under = (reach - off) * UNIT;
            lemma_offset_exact(sphere, origin, direction);
            lemma_sphere_hit_is_crossing(sphere, origin, direction);
            lemma_square_exact(sphere.radius.raw as int);
            assert(under == reach * UNIT - off * UNIT) by (nonlinear_arith)
                requires
                    under == (reach - off) * UNIT,
            ;
            assert(half * half == (t.raw - tca) * (t.raw - tca)) by (nonlinear_arith)
                requires
                    half == t.raw - tca || half == -(t.raw - tca),
            ;
            assert(line - 2 * t.raw * tca + t.raw * t.raw == line - tca * tca + (t.raw - tca) * (
            t.raw - tca)) by (nonlinear_arith);
            assert((half + 1) * (half + 1) == half * half + 2 * half + 1) by (nonlinear_arith);
        },
        None => {},
    }
}

/// The square of the distance between the centre of a sphere and the point
/// of a ray at the parameter `t`, times the square of `UNIT`. The point is
/// `origin + direction * t / UNIT`, and nothing is rounded.
pub open spec fn gap_sqr(sphere: Sphere, origin: Vec3<Scalar>, direction: Vec3<Scalar>, t: int) -> int {
    let (x, y, z) = sphere.way(origin);
    let gx = x * UNIT - direction.x.raw * t;
    let gy = y * UNIT - direction.y.raw * t;
    let gz = z * UNIT - direction.z.raw * t;
    gx * gx + gy * gy + gz * gz
}

/// How far the square of that distance may lie from the square of the
/// radius at a hit, in the same units: the rounding of the root and of the
/// squares, of the scalar product, and of the direction's length, the last
/// two growing with the parameter `t` of the hit. `half` is the distance
/// between the hit and the point of the ray nearest the centre.
pub open spec fn gap_slack(t: int, half: int) -> int {
    (3 * UNIT + 2 * half + 1 + 6 * t) * (UNIT * UNIT) + t * t * (6 * UNIT + 3)
}

/// One product of a scalar product is off the exact product by less than
/// one raw unit.
proof fn lemma_product_off(n: int)
    ensures
        -UNIT < n - quotient(n, UNIT as int) * UNIT < UNIT,
{
    lemma_quotient_bounds(n, UNIT as int);
    let q = quotient(n, UNIT as int);
    assert(magnitude(q) * UNIT == magnitude(q * UNIT)) by (nonlinear_arith)
        requires
            UNIT == 10_000_000_000_000,
    ;
    assert((magnitude(q) + 1) * UNIT == magnitude(q) * UNIT + UNIT) by (nonlinear_arith);
    assert(n >= 0 ==> q * UNIT >= 0) by (nonlinear_arith)
        requires
            n >= 0 ==> q >= 0,
            UNIT == 10_000_000_000_000,
    ;
    assert(n <= 0 ==> q * UNIT <= 0) by (nonlinear_arith)
        requires
            n <= 0 ==> q <= 0,
            UNIT == 10_000_000_000_000,
    ;
}

/// The square of one component of the way from the point of the ray at `t`
/// to the centre.
proof fn lemma_gap_component(x: int, a: int, t: int, u: int)
    ensures
        (x * u - a * t) * (x * u - a * t) == x * x * (u * u) - 2 * ((u * t) * (x * a)) + t * t
            * (a * a),
{
    let p = x * u;
    let q = a * t;
    assert((p - q) * (p - q) == p * p - 2 * (p * q) + q * q) by (nonlinear_arith);
    assert(p * p == x * x * (u * u)) by (nonlinear_arith)
        requires
            p == x * u,
    ;
    assert(p * q == (u * t) * (x * a)) by (nonlinear_arith)
        requires
            p == x * u,
            q == a * t,
    ;
    assert(x * u - a * t == p - q);
    assert(q * q == t * t * (a * a)) by (nonlinear_arith)
        requires
            q == a * t,
    ;
}

/// A hit lies on the sphere, for a direction whose length is one within
/// the rounding, as that of every normalized vector is: the squared
/// distance between the centre and the point of the ray at the parameter
/// of the hit is the squared radius, within the slack. For a hit twenty
/// units from the origin the slack is under a thousand-millionth.
pub proof fn lemma_hit_lies_on_sphere(sphere: Sphere, origin: Vec3<Scalar>, direction: Vec3<Scalar>)
    requires
        UNIT * UNIT - 6 * UNIT - 3 < direction.sum_squares() < (UNIT + 1) * (UNIT + 1),
    ensures
        sphere.intersect_spec(origin, direction) matches Some(t) ==> ({
            let tca = sphere.nearest_parameter(origin, direction);
            let gap = gap_sqr(sphere, origin, direction, t.raw as int);
            let radius = sphere.radius.raw * sphere.radius.raw * (UNIT * UNIT);
            let slack = gap_slack(t.raw as int, magnitude(t.raw - tca));
            radius - slack < gap < radius + slack
        }),
{
    match sphere.intersect_spec(origin, direction) {
        Some(hit) => {
            let t = hit.raw as int;
            let u = UNIT as int;
            let uu = u * u;
            let (x, y, z) = sphere.way(origin);
            let (a, b, c) = (direction.x.raw as int, direction.y.raw as int, direction.z.raw as int);
            let tca = sphere.nearest_parameter(origin, direction);
            let half = magnitude(t - tca);
            let line = x * x + y * y + z * z;
            let along = x * a + y * b + z * c;
            let dd = direction.sum_squares();
            let r2 = sphere.radius.raw * sphere.radius.raw;
            let alg = line - 2 * t * tca + t * t;
            lemma_sphere_hit_distance(sphere, origin, direction);
            assert(r2 - 2 * u - 2 * half - 1 < alg < r2 + 3 * u);
            lemma_gap_component(x, a, t, u);
            lemma_gap_component(y, b, t, u);
            lemma_gap_component(z, c, t, u);
            let gap = gap_sqr(sphere, origin, direction, t);
            let ut = u * t;
            let tt = t * t;
            let (xx, yy, zz) = (x * x, y * y, z * z);
            let (xa, yb, zc) = (x * a, y * b, z * c);
            let (aa, bb, cc) = (a * a, b * b, c * c);
            assert(line * uu == xx * uu + yy * uu + zz * uu) by (nonlinear_arith)
                requires
                    line == xx + yy + zz,
            ;
            assert(ut * along == ut * xa + ut * yb + ut * zc) by (nonlinear_arith)
                requires
                    along == xa + yb + zc,
            ;
            assert(tt * dd == tt * aa + tt * bb + tt * cc) by (nonlinear_arith)
                requires
                    dd == aa + bb + cc,
            ;
            assert(gap == line * uu - 2 * (ut * along) + tt * dd);
            lemma_product_off(x * a);
            lemma_product_off(y * b);
            lemma_product_off(z * c);
            let ea = along - tca * u;
            let ed = dd - uu;
            assert(-3 * u < ea < 3 * u) by (nonlinear_arith)
                requires
                    ea == (x * a + y * b + z * c) - (quotient(x * a, u) + quotient(y * b, u)
                        + quotient(z * c, u)) * u,
                    -u < x * a - quotient(x * a, u) * u < u,
                    -u < y * b - quotient(y * b, u) * u < u,
                    -u < z * c - quotient(z * c, u) * u < u,
            ;
            assert(-6 * u - 3 < ed < 2 * u + 1) by (nonlinear_arith)
                requires
                    ed == dd - u * u,
                    u * u - 6 * u - 3 < dd < (u + 1) * (u + 1),
            ;
            assert(gap == uu * alg - 2 * (ut * ea) + tt * ed) by (nonlinear_arith)
                requires
                    gap == line * uu - 2 * (ut * along) + tt * dd,
                    alg == line - 2 * t * tca + t * t,
                    ea == along - tca * u,
                    ed == dd - uu,
                    ut == u * t,
                    tt == t * t,
                    uu == u * u,
            ;
            assert(-6 * (t * uu) <= 2 * (ut * ea) <= 6 * (t * uu)) by (nonlinear_arith)
                requires
                    -3 * u < ea < 3 * u,
                    ut == u * t,
                    uu == u * u,
                    t >= 0,
                    u > 0,
            ;
            assert(-(tt * (6 * u + 3)) <= tt * ed <= tt * (6 * u + 3)) by (nonlinear_arith)
                requires
                    -6 * u - 3 < ed < 2 * u + 1,
                    tt == t * t,
                    u > 0,
            ;
            assert(uu * (r2 - 3 * u - 2 * half - 1) < uu * alg < uu * (r2 + 3 * u + 2 * half + 1))
                by (nonlinear_arith)
                requires
                    r2 - 2 * u - 2 * half - 1 < alg < r2 + 3 * u,
                    half >= 0,
                    u > 0,
                    uu == u * u,
            ;
            let slack = gap_slack(t, half);
            assert(slack == uu * (3 * u + 2 * half + 1) + 6 * (t * uu) + tt * (6 * u + 3))
                by (nonlinear_arith)
                requires
                    slack == (3 * u + 2 * half + 1 + 6 * t) * (u * u) + t * t * (6 * u + 3),
                    uu == u * u,
                    tt == t * t,
            ;
            assert(uu * (r2 - 3 * u - 2 * half - 1) == r2 * uu - uu * (3 * u + 2 * half + 1))
                by (nonlinear_arith);
            assert(uu * (r2 + 3 * u + 2 * half + 1) == r2 * uu + uu * (3 * u + 2 * half + 1))
                by (nonlinear_arith);
        },
        None => {},
    }
}

/// A quotient on the way is under the true quotient by less than one raw
/// unit, toward zero.
pub proof fn lemma_ratio_error(n: int, d: int)
    ensures
        ratio(n, d) matches Some(q) ==> magnitude(q) * magnitude(d) <= magnitude(n * UNIT) < (
        magnitude(q) + 1) * magnitude(d),
{
    reveal(quotient);
    if d != 0 {
        let m = magnitude(n * UNIT) / magnitude(d);
        assert(m * magnitude(d) <= magnitude(n * UNIT) < (m + 1) * magnitude(d) && m >= 0)
            by (nonlinear_arith)
            requires
                m == magnitude(n * UNIT) / magnitude(d),
                magnitude(d) > 0,
                magnitude(n * UNIT) >= 0,
        ;
    }
}

/// The product of two numbers always fits on the way, and so does the
/// product of a number with the difference of two numbers.
pub proof fn lemma_numbers_fit(a: int, b: int, c: int)
    requires
        i64::MIN <= a <= i64::MAX,
        i64::MIN <= b <= i64::MAX,
        i64::MIN <= c <= i64::MAX,
    ensures
        product(a, b) is Some,
        product(a, b - c) is Some,
{
    assert(fits(a * b) && fits(a * (b - c))) by (nonlinear_arith)
        requires
            -0x8000_0000_0000_0000 <= a <= 0x7fff_ffff_ffff_ffff,
            -0x8000_0000_0000_0000 <= b <= 0x7fff_ffff_ffff_ffff,
            -0x8000_0000_0000_0000 <= c <= 0x7fff_ffff_ffff_ffff,
            fits(a * b) <==> -0x7fff_ffff_ffff_ffff_ffff_ffff_ffff_ffff <= a * b
                <= 0x7fff_ffff_ffff_ffff_ffff_ffff_ffff_ffff,
            fits(a * (b - c)) <==> -0x7fff_ffff_ffff_ffff_ffff_ffff_ffff_ffff <= a * (b - c)
                <= 0x7fff_ffff_ffff_ffff_ffff_ffff_ffff_ffff,
    ;
}

/// Where a ray meets the plane of a triangle, the coordinates of the
/// meeting and its parameter are the numerators divided by the determinant,
/// each under the true quotient by less than one raw unit; and the ray is
/// not parallel to the plane.
pub proof fn lemma_meeting_is_quotient(
    triangle: Triangle,
    origin: Vec3<Scalar>,
    direction: Vec3<Scalar>,
)
    ensures
        triangle.meeting(origin, direction) matches Some((w, z, t)) ==> ({
            let a = triangle.determinant(direction)->0;
            let (first, second, third) = triangle.numerators(origin, direction)->0;
            &&& !triangle.is_parallel(direction)
            &&& ratio(first, a) == Some(w)
            &&& ratio(second, a) == Some(z)
            &&& ratio(third, a) == Some(t)
            &&& magnitude(t) * magnitude(a) <= magnitude(third * UNIT) < (magnitude(t) + 1)
                * magnitude(a)
        }),
{
    match triangle.meeting(origin, direction) {
        Some((w, z, t)) => {
            let a = triangle.determinant(direction)->0;
            let (first, second, third) = triangle.numerators(origin, direction)->0;
            lemma_ratio_error(third, a);
        },
        None => {},
    }
}

} // verus!
