//! What holds of the tracer for every scene and every ray.

use crate::laws::numbers::{lemma_quotient_bounds, lemma_times_not_negative, lemma_times_zero};
use crate::laws::vectors::lemma_normalize_unit;
use crate::scalar::{clamp, magnitude, quotient, Scalar, UNIT, UNIT_SQUARED};
use crate::solids::Object;
use crate::tracer::{
    background_spec, blend_spec, bounces, compose_spec, direct_light_spec, direct_light_upto,
    facing_normal, falloff_spec, fresnel_spec, hit_point, is_nearest, leaves_solid,
    lemma_nearest_upto, lifted, light_spec, misses_all, nearest_hit_spec, raised,
    reflected_spec, refracted_spec, shadowed_spec, sky_channel, sunk, trace_spec,
    transmission_spec, FALLOFF, MAX_DEPTH, SKY_BLUE, SKY_GREEN, SKY_RED,
};
use crate::vec3::Vec3;
use vstd::prelude::*;

verus! {

/// The nearest hit is a hit: it names an object of the scene and the
/// parameter at which the ray meets that object.
pub proof fn lemma_nearest_is_hit(
    objects: Seq<Object>,
    origin: Vec3<Scalar>,
    direction: Vec3<Scalar>,
)
    ensures
        nearest_hit_spec(objects, origin, direction) matches Some((i, t)) ==> 0 <= i
            < objects.len() && objects[i].solid.intersect_spec(origin, direction) == Some(t),
{
    lemma_nearest_upto(objects, origin, direction, objects.len() as int);
}

/// The search finds nothing just where the ray meets no object.
pub proof fn lemma_nothing_found_is_nothing_met(
    objects: Seq<Object>,
    origin: Vec3<Scalar>,
    direction: Vec3<Scalar>,
)
    ensures
        nearest_hit_spec(objects, origin, direction) is None <==> misses_all(
            objects,
            origin,
            direction,
        ),
{
    lemma_nearest_upto(objects, origin, direction, objects.len() as int);
    match nearest_hit_spec(objects, origin, direction) {
        Some((i, t)) => {
            assert(objects[i].solid.intersect_spec(origin, direction) is Some);
        },
        None => {},
    }
}

/// No object of the scene is met nearer than the nearest hit, and none that
/// comes before it in the scene is met as near: among equal hits the first
/// wins.
pub proof fn lemma_nearest_is_least(
    objects: Seq<Object>,
    origin: Vec3<Scalar>,
    direction: Vec3<Scalar>,
    j: int,
)
    requires
        0 <= j < objects.len(),
    ensures
        match nearest_hit_spec(objects, origin, direction) {
            Some((i, t)) => objects[j].solid.intersect_spec(origin, direction) matches Some(u)
                ==> t.raw <= u.raw && (j < i ==> t.raw < u.raw),
            None => objects[j].solid.intersect_spec(origin, direction) is None,
        },
{
    lemma_nearest_upto(objects, origin, direction, objects.len() as int);
}

/// The nearest hit is the only hit that no other undercuts: an object that
/// is met no farther than any other and nearer than all that come before it
/// is the nearest hit. So the order of the objects tells only between hits
/// that are equally near.
pub proof fn lemma_least_is_nearest(
    objects: Seq<Object>,
    origin: Vec3<Scalar>,
    direction: Vec3<Scalar>,
    i: int,
    t: Scalar,
)
    requires
        is_nearest(objects, origin, direction, i, t),
    ensures
        nearest_hit_spec(objects, origin, direction) == Some((i, t)),
{
    lemma_nearest_upto(objects, origin, direction, objects.len() as int);
    match nearest_hit_spec(objects, origin, direction) {
        None => {
            assert(objects[i].solid.intersect_spec(origin, direction) is Some);
        },
        Some((k, u)) => {
            assert(objects[k].solid.intersect_spec(origin, direction) == Some(u));
            assert(objects[i].solid.intersect_spec(origin, direction) == Some(t));
        },
    }
}

/// A ray that meets no object brings back the colour of the sky in its
/// direction, at every depth.
pub proof fn lemma_miss_is_background(
    objects: Seq<Object>,
    origin: Vec3<Scalar>,
    direction: Vec3<Scalar>,
    depth: int,
)
    requires
        misses_all(objects, origin, direction),
    ensures
        trace_spec(origin, direction, objects, depth) == background_spec(direction),
{
    lemma_nearest_upto(objects, origin, direction, objects.len() as int);
    match nearest_hit_spec(objects, origin, direction) {
        Some((i, t)) => {
            assert(objects[i].solid.intersect_spec(origin, direction) is Some);
        },
        None => {},
    }
}

/// `n` over `UNIT`, rounded up, is over the exact quotient by less than
/// one.
proof fn lemma_raised(n: int)
    requires
        n >= 0,
    ensures
        n <= raised(n) * UNIT < n + UNIT,
        raised(n) >= 0,
{
    let r = raised(n);
    assert(n <= r * UNIT < n + UNIT && r >= 0) by (nonlinear_arith)
        requires
            r == (n + UNIT - 1) / (UNIT as int),
            UNIT == 10_000_000_000_000,
            n >= 0,
    ;
}

/// One channel of the sky, for a direction whose third component is no
/// longer than one, as that of every unit vector is: the channel is the
/// channel of the tint times the square of that component, rounded up twice
/// and so over the exact product by less than two raw units. It lies
/// between nothing and the tint, and it is nothing only where the tint is
/// nothing or the direction lies across the view.
pub proof fn lemma_sky_channel(tint: i64, depth: Scalar)
    requires
        0 <= tint <= UNIT,
        magnitude(depth.raw as int) <= UNIT,
    ensures
        0 <= sky_channel(tint, depth).raw <= tint,
        tint * (depth.raw * depth.raw) <= sky_channel(tint, depth).raw * (UNIT * UNIT),
        sky_channel(tint, depth).raw * (UNIT * UNIT) < tint * (depth.raw * depth.raw) + 2 * (UNIT
            * UNIT),
        sky_channel(tint, depth).raw == 0 <==> tint == 0 || depth.raw == 0,
{
    let u = UNIT as int;
    let t = tint as int;
    let d2 = depth.raw * depth.raw;
    assert(0 <= d2 <= u * u && (d2 == 0 <==> depth.raw == 0)) by (nonlinear_arith)
        requires
            d2 == depth.raw * depth.raw,
            -u <= depth.raw <= u,
    ;
    let c = raised(d2);
    lemma_raised(d2);
    assert(c <= u) by (nonlinear_arith)
        requires
            c * u < d2 + u,
            d2 <= u * u,
            u > 0,
    ;
    assert(0 <= t * c <= t * u && (t * c == 0 <==> t == 0 || c == 0)) by (nonlinear_arith)
        requires
            0 <= t,
            0 <= c <= u,
    ;
    let q = raised(t * c);
    lemma_raised(t * c);
    assert(q <= t) by (nonlinear_arith)
        requires
            q * u < t * c + u,
            t * c <= t * u,
            u > 0,
    ;
    assert(t * d2 <= q * (u * u)) by (nonlinear_arith)
        requires
            t * c <= q * u,
            d2 <= c * u,
            0 <= t,
            u > 0,
    ;
    assert(q * (u * u) < t * d2 + 2 * (u * u)) by (nonlinear_arith)
        requires
            q * u < t * c + u,
            c * u < d2 + u,
            0 <= t <= u,
            u > 0,
    ;
    if c == 0 {
        assert(d2 == 0);
    }
    if q == 0 {
        assert(t * c == 0) by (nonlinear_arith)
            requires
                t * c <= q * u,
                q == 0,
                t * c >= 0,
        ;
    }
    if d2 == 0 {
        assert(c == 0) by (nonlinear_arith)
            requires
                c * u < d2 + u,
                d2 == 0,
                c >= 0,
                u > 0,
        ;
    }
    if t * c == 0 {
        assert(q == 0) by (nonlinear_arith)
            requires
                q * u < t * c + u,
                t * c == 0,
                q >= 0,
                u > 0,
        ;
    }
}

/// Straight along the depth axis, forward or backward, the sky has its
/// tint, and nothing is lost of it.
pub proof fn lemma_sky_straight_ahead(direction: Vec3<Scalar>)
    requires
        direction.z.raw == UNIT || direction.z.raw == -UNIT,
    ensures
        background_spec(direction) == (Vec3 {
            x: Scalar { raw: SKY_RED },
            y: Scalar { raw: SKY_GREEN },
            z: Scalar { raw: SKY_BLUE },
        }),
{
    let d2 = direction.z.raw * direction.z.raw;
    assert(d2 == UNIT * UNIT) by (nonlinear_arith)
        requires
            direction.z.raw == UNIT || direction.z.raw == -UNIT,
            d2 == direction.z.raw * direction.z.raw,
    ;
    assert(raised(d2) == UNIT) by (nonlinear_arith)
        requires
            d2 == UNIT * UNIT,
            UNIT == 10_000_000_000_000,
            raised(d2) == (d2 + UNIT - 1) / (UNIT as int),
    ;
    assert(raised(SKY_RED * UNIT) == SKY_RED) by (nonlinear_arith)
        requires
            UNIT == 10_000_000_000_000,
            SKY_RED == 1_000_000_000_000,
            raised(SKY_RED * UNIT) == (SKY_RED * UNIT + UNIT - 1) / (UNIT as int),
    ;
    assert(raised(SKY_GREEN * UNIT) == SKY_GREEN) by (nonlinear_arith)
        requires
            UNIT == 10_000_000_000_000,
            SKY_GREEN == 3_000_000_000_000,
            raised(SKY_GREEN * UNIT) == (SKY_GREEN * UNIT + UNIT - 1) / (UNIT as int),
    ;
    assert(raised(SKY_BLUE * UNIT) == SKY_BLUE) by (nonlinear_arith)
        requires
            UNIT == 10_000_000_000_000,
            SKY_BLUE == 5_000_000_000_000,
            raised(SKY_BLUE * UNIT) == (SKY_BLUE * UNIT + UNIT - 1) / (UNIT as int),
    ;
}

/// The sky in the direction of a ray that was brought to unit length: each
/// channel lies between nothing and the channel of the tint, which is at
/// most a half, and is over the tint times the squared third component by
/// less than two raw units. The sky is black only where that component is
/// zero.
pub proof fn lemma_sky_of_a_unit_direction(v: Vec3<Scalar>)
    requires
        v.sum_squares() != 0,
    ensures
        ({
            let d = v.normalize_spec();
            let sky = background_spec(d);
            let z2 = d.z.raw * d.z.raw;
            &&& 0 <= sky.x.raw <= SKY_RED
            &&& 0 <= sky.y.raw <= SKY_GREEN
            &&& 0 <= sky.z.raw <= SKY_BLUE
            &&& SKY_RED * z2 <= sky.x.raw * (UNIT * UNIT) < SKY_RED * z2 + 2 * (UNIT * UNIT)
            &&& SKY_GREEN * z2 <= sky.y.raw * (UNIT * UNIT) < SKY_GREEN * z2 + 2 * (UNIT * UNIT)
            &&& SKY_BLUE * z2 <= sky.z.raw * (UNIT * UNIT) < SKY_BLUE * z2 + 2 * (UNIT * UNIT)
            &&& (sky.x.raw == 0 <==> d.z.raw == 0)
            &&& (sky.y.raw == 0 <==> d.z.raw == 0)
            &&& (sky.z.raw == 0 <==> d.z.raw == 0)
        }),
{
    lemma_normalize_unit(v);
    let d = v.normalize_spec();
    lemma_sky_channel(SKY_RED, d.z);
    lemma_sky_channel(SKY_GREEN, d.z);
    lemma_sky_channel(SKY_BLUE, d.z);
}

/// A ray that meets no object and runs straight along the depth axis,
/// forward or backward, brings back the tint of the sky itself, at every
/// depth: so does every such ray in a scene without objects.
pub proof fn lemma_miss_straight_ahead(
    objects: Seq<Object>,
    origin: Vec3<Scalar>,
    direction: Vec3<Scalar>,
    depth: int,
)
    requires
        misses_all(objects, origin, direction),
        direction.z.raw == UNIT || direction.z.raw == -UNIT,
    ensures
        trace_spec(origin, direction, objects, depth) == (Vec3 {
            x: Scalar { raw: SKY_RED },
            y: Scalar { raw: SKY_GREEN },
            z: Scalar { raw: SKY_BLUE },
        }),
{
    lemma_miss_is_background(objects, origin, direction, depth);
    lemma_sky_straight_ahead(direction);
}

/// A ray of unit length that meets no object brings back the tint times
/// the square of the third component of its direction, each channel over
/// the exact product by less than two raw units, at every depth. What it
/// brings back is black only where that component is zero.
pub proof fn lemma_miss_is_tinted(
    objects: Seq<Object>,
    origin: Vec3<Scalar>,
    v: Vec3<Scalar>,
    depth: int,
)
    requires
        v.sum_squares() != 0,
        misses_all(objects, origin, v.normalize_spec()),
    ensures
        ({
            let d = v.normalize_spec();
            let seen = trace_spec(origin, d, objects, depth);
            let z2 = d.z.raw * d.z.raw;
            &&& 0 <= seen.x.raw <= SKY_RED
            &&& 0 <= seen.y.raw <= SKY_GREEN
            &&& 0 <= seen.z.raw <= SKY_BLUE
            &&& SKY_RED * z2 <= seen.x.raw * (UNIT * UNIT) < SKY_RED * z2 + 2 * (UNIT * UNIT)
            &&& SKY_GREEN * z2 <= seen.y.raw * (UNIT * UNIT) < SKY_GREEN * z2 + 2 * (UNIT * UNIT)
            &&& SKY_BLUE * z2 <= seen.z.raw * (UNIT * UNIT) < SKY_BLUE * z2 + 2 * (UNIT * UNIT)
            &&& (seen == Vec3::<Scalar>::zero_spec() <==> d.z.raw == 0)
        }),
{
    let d = v.normalize_spec();
    lemma_miss_is_background(objects, origin, d, depth);
    lemma_sky_of_a_unit_direction(v);
}

/// The colour that leaves a surface is no longer than one, but for the
/// rounding: its squared length is under the square of one and one raw
/// unit.
pub proof fn lemma_colour_length(surface: Vec3<Scalar>, emission: Vec3<Scalar>)
    ensures
        compose_spec(surface, emission).sum_squares() < (UNIT + 1) * (UNIT + 1),
{
    let color = surface.plus(emission);
    assert(UNIT_SQUARED < (UNIT + 1) * (UNIT + 1)) by (nonlinear_arith)
        requires
            UNIT == 10_000_000_000_000,
            UNIT_SQUARED == 100_000_000_000_000_000_000_000_000,
    ;
    if color.sum_squares() > UNIT_SQUARED {
        lemma_normalize_unit(color);
    }
}

/// What a ray brings back is no longer than one, but for the rounding:
/// the colour of a surface by the law above, the colour of the sky because
/// its tint is shorter than one. The third component of the direction is
/// no longer than one, as that of every unit vector is.
pub proof fn lemma_traced_colour_length(
    objects: Seq<Object>,
    origin: Vec3<Scalar>,
    direction: Vec3<Scalar>,
    depth: int,
)
    requires
        magnitude(direction.z.raw as int) <= UNIT,
    ensures
        trace_spec(origin, direction, objects, depth).sum_squares() < (UNIT + 1) * (UNIT + 1),
{
    match nearest_hit_spec(objects, origin, direction) {
        None => {
            lemma_sky_channel(SKY_RED, direction.z);
            lemma_sky_channel(SKY_GREEN, direction.z);
            lemma_sky_channel(SKY_BLUE, direction.z);
            let sky = background_spec(direction);
            assert(sky.x.raw * sky.x.raw + sky.y.raw * sky.y.raw + sky.z.raw * sky.z.raw < (UNIT
                + 1) * (UNIT + 1)) by (nonlinear_arith)
                requires
                    0 <= sky.x.raw <= 1_000_000_000_000,
                    0 <= sky.y.raw <= 3_000_000_000_000,
                    0 <= sky.z.raw <= 5_000_000_000_000,
                    UNIT == 10_000_000_000_000,
            ;
        },
        Some((i, t)) => {
            let object = objects[i];
            let hit = hit_point(origin, direction, t);
            let normal = facing_normal(object, hit, direction);
            let surface = if bounces(object, depth) {
                let reflection = trace_spec(
                    lifted(hit, normal),
                    reflected_spec(direction, normal),
                    objects,
                    depth + 1,
                );
                let refraction = if object.transparency.raw > 0 {
                    trace_spec(
                        sunk(hit, normal),
                        refracted_spec(direction, normal, leaves_solid(object, hit, direction)),
                        objects,
                        depth + 1,
                    )
                } else {
                    Vec3::<Scalar>::zero_spec()
                };
                blend_spec(object, fresnel_spec(direction, normal), reflection, refraction)
            } else {
                direct_light_spec(objects, i, hit, normal)
            };
            lemma_colour_length(surface, object.emission_color);
        },
    }
}

/// At the ceiling on the number of bounces no ray is followed further: the
/// colour at a hit is the direct light and the object's own, whatever the
/// object is made of, and it is the same at every depth from the ceiling on.
pub proof fn lemma_depth_ceiling(
    objects: Seq<Object>,
    origin: Vec3<Scalar>,
    direction: Vec3<Scalar>,
    depth: int,
)
    requires
        depth >= MAX_DEPTH,
    ensures
        trace_spec(origin, direction, objects, depth) == trace_spec(
            origin,
            direction,
            objects,
            MAX_DEPTH as int,
        ),
        nearest_hit_spec(objects, origin, direction) matches Some((i, t)) ==> {
            let hit = hit_point(origin, direction, t);
            let normal = facing_normal(objects[i], hit, direction);
            trace_spec(origin, direction, objects, depth) == compose_spec(
                direct_light_spec(objects, i, hit, normal),
                objects[i].emission_color,
            )
        },
{
}

/// Light fades with the distance to no less than seven tenths, and never
/// grows.
pub proof fn lemma_falloff_range(dist2: Scalar)
    requires
        dist2.raw >= 0,
    ensures
        7 * (UNIT / 10) <= falloff_spec(dist2).raw <= UNIT,
{
    let d = dist2.raw as int;
    let strength = Scalar { raw: FALLOFF };
    let faded = strength.times(dist2);
    let room = Scalar::one_spec().plus(dist2.abs_spec());
    let part = faded.over(room);
    // 0 <= faded <= 0.3 d
    assert(FALLOFF * d >= 0) by (nonlinear_arith)
        requires
            d >= 0,
            FALLOFF == 3_000_000_000_000,
    ;
    lemma_quotient_bounds(FALLOFF * d, UNIT as int);
    let f = quotient(FALLOFF * d, UNIT as int);
    assert(f * 10 <= 3 * d) by (nonlinear_arith)
        requires
            f * UNIT <= FALLOFF * d,
            f >= 0,
            FALLOFF == 3_000_000_000_000,
            UNIT == 10_000_000_000_000,
    ;
    assert(faded.raw == f);
    // room = min(1 + d, the end of the range) > 0, and 10 faded <= 3 room
    assert(room.raw == clamp(UNIT + d));
    let r = room.raw as int;
    assert(r >= UNIT);
    assert(10 * f <= 3 * r);
    // part = faded / room <= 0.3
    assert(f * UNIT >= 0) by (nonlinear_arith)
        requires
            f >= 0,
            UNIT == 10_000_000_000_000,
    ;
    lemma_quotient_bounds(f * UNIT, r);
    let p = quotient(f * UNIT, r);
    assert(p * 10 <= 3 * UNIT) by (nonlinear_arith)
        requires
            p * r <= f * UNIT,
            10 * f <= 3 * r,
            r > 0,
            p >= 0,
            UNIT == 10_000_000_000_000,
    ;
    assert(part.raw == p);
}

/// A light that is shadowed adds nothing to the colour of the shaded point.
pub proof fn lemma_shadowed_light_adds_nothing(
    objects: Seq<Object>,
    light: int,
    shaded: int,
    hit: Vec3<Scalar>,
    normal: Vec3<Scalar>,
    sum: Vec3<Scalar>,
)
    requires
        shadowed_spec(
            objects,
            light,
            shaded,
            lifted(hit, normal),
            objects[light].pos.minus(hit).normalize_spec(),
        ),
    ensures
        light_spec(objects, light, shaded, hit, normal) == Vec3::<Scalar>::zero_spec(),
        sum.plus(light_spec(objects, light, shaded, hit, normal)) == sum,
{
    let toward = objects[light].pos.minus(hit).normalize_spec();
    let cosine = normal.dot_spec(toward).max_spec(Scalar::zero_spec());
    let surface = objects[shaded].surface_color;
    let emission = objects[light].emission_color;
    lemma_times_zero(surface.x);
    lemma_times_zero(surface.y);
    lemma_times_zero(surface.z);
    lemma_times_zero(cosine);
    lemma_times_zero(emission.x);
    lemma_times_zero(emission.y);
    lemma_times_zero(emission.z);
}

/// A light that is not shadowed adds the surface colour, faded with the
/// squared distance, weighted by the cosine between the normal and the
/// direction of the light where that is positive, times the light's
/// emission.
pub proof fn lemma_open_light_adds_weighted(
    objects: Seq<Object>,
    light: int,
    shaded: int,
    hit: Vec3<Scalar>,
    normal: Vec3<Scalar>,
)
    requires
        !shadowed_spec(
            objects,
            light,
            shaded,
            lifted(hit, normal),
            objects[light].pos.minus(hit).normalize_spec(),
        ),
    ensures
        ({
            let to_light = objects[light].pos.minus(hit);
            let fade = falloff_spec(to_light.len_sqr_spec());
            let cosine = normal.dot_spec(to_light.normalize_spec()).max_spec(Scalar::zero_spec());
            &&& cosine.raw >= 0
            &&& light_spec(objects, light, shaded, hit, normal)
                == objects[shaded].surface_color.scaled(fade).scaled(cosine).times(
                objects[light].emission_color,
            )
        }),
{
}

/// What a light adds is not negative in any channel, where neither the
/// surface colour nor the emission is.
pub proof fn lemma_light_not_negative(
    objects: Seq<Object>,
    light: int,
    shaded: int,
    hit: Vec3<Scalar>,
    normal: Vec3<Scalar>,
)
    requires
        objects[shaded].surface_color.x.raw >= 0,
        objects[shaded].surface_color.y.raw >= 0,
        objects[shaded].surface_color.z.raw >= 0,
        objects[light].emission_color.x.raw >= 0,
        objects[light].emission_color.y.raw >= 0,
        objects[light].emission_color.z.raw >= 0,
    ensures
        light_spec(objects, light, shaded, hit, normal).x.raw >= 0,
        light_spec(objects, light, shaded, hit, normal).y.raw >= 0,
        light_spec(objects, light, shaded, hit, normal).z.raw >= 0,
{
    let surface = objects[shaded].surface_color;
    let emission = objects[light].emission_color;
    let to_light = objects[light].pos.minus(hit);
    let toward = to_light.normalize_spec();
    let through = transmission_spec(objects, light, shaded, hit, normal);
    let cosine = normal.dot_spec(toward).max_spec(Scalar::zero_spec());
    assert(to_light.sum_squares() >= 0) by (nonlinear_arith)
        requires
            to_light.sum_squares() == to_light.x.raw * to_light.x.raw + to_light.y.raw
                * to_light.y.raw + to_light.z.raw * to_light.z.raw,
    ;
    lemma_falloff_range(to_light.len_sqr_spec());
    lemma_times_not_negative(surface.x, through.x);
    lemma_times_not_negative(surface.y, through.y);
    lemma_times_not_negative(surface.z, through.z);
    let lit = surface.times(through);
    lemma_times_not_negative(lit.x, cosine);
    lemma_times_not_negative(lit.y, cosine);
    lemma_times_not_negative(lit.z, cosine);
    let weighted = lit.scaled(cosine);
    lemma_times_not_negative(weighted.x, emission.x);
    lemma_times_not_negative(weighted.y, emission.y);
    lemma_times_not_negative(weighted.z, emission.z);
}

/// Where nothing but the shaded object gives light, no direct light falls
/// on it.
pub proof fn lemma_no_lights_no_light(
    objects: Seq<Object>,
    shaded: int,
    hit: Vec3<Scalar>,
    normal: Vec3<Scalar>,
)
    requires
        forall|j: int|
            0 <= j < objects.len() && j != shaded ==> !(#[trigger] objects[j]).is_light(),
    ensures
        direct_light_spec(objects, shaded, hit, normal) == Vec3::<Scalar>::zero_spec(),
{
    lemma_no_lights_upto(objects, shaded, hit, normal, objects.len() as int);
}

proof fn lemma_no_lights_upto(
    objects: Seq<Object>,
    shaded: int,
    hit: Vec3<Scalar>,
    normal: Vec3<Scalar>,
    n: int,
)
    requires
        n <= objects.len(),
        forall|j: int|
            0 <= j < objects.len() && j != shaded ==> !(#[trigger] objects[j]).is_light(),
    ensures
        direct_light_upto(objects, shaded, hit, normal, n) == Vec3::<Scalar>::zero_spec(),
    decreases n,
{
    if n > 0 {
        lemma_no_lights_upto(objects, shaded, hit, normal, n - 1);
    }
}

} // verus!
