//! The colour that a ray brings back from a scene.

use crate::scalar::{clamp, magnitude_of, saturate, Scalar, UNIT, UNIT_SQUARED};
use crate::solids::Object;
use crate::vec3::Vec3;
use core::ops::Neg;
use vstd::prelude::*;

verus! {

/// The number of bounces after which a ray is no longer followed.
pub const MAX_DEPTH: i32 = 5;

/// Raw value of the distance by which the origin of a secondary ray is moved
/// off the surface: a ten-thousandth.
pub const BIAS: i64 = 1_000_000_000;

/// Raw value of the least share of reflected light: a tenth.
pub const FRESNEL_FLOOR: i64 = 1_000_000_000_000;

/// Raw value of the index of refraction of every transparent solid: 1.1.
pub const REFRACTION_INDEX: i64 = 11_000_000_000_000;

/// Raw value of the strength of the falloff of light with distance: 0.3.
pub const FALLOFF: i64 = 3_000_000_000_000;

/// Raw value of the third component of the axis that points into the
/// picture: minus one.
pub const DEPTH_AXIS: i64 = -10_000_000_000_000;

/// Raw values of the three channels of the sky's tint.
pub const SKY_RED: i64 = 1_000_000_000_000;

pub const SKY_GREEN: i64 = 3_000_000_000_000;

pub const SKY_BLUE: i64 = 5_000_000_000_000;

/// `a` and `b` blended: all `a` where `m` is zero, all `b` where it is one.
pub open spec fn mix_spec(a: Scalar, b: Scalar, m: Scalar) -> Scalar {
    b.times(m).plus(a.times(Scalar::one_spec().minus(m)))
}

/// Blends `a` and `b` by the share `m` of `b`.
pub fn mix(a: Scalar, b: Scalar, m: Scalar) -> (r: Scalar)
    ensures
        r == mix_spec(a, b, m),
{
    b * m + a * (Scalar::one() - m)
}

/// The ray meets none of the first `n` objects.
pub open spec fn misses_upto(
    objects: Seq<Object>,
    origin: Vec3<Scalar>,
    direction: Vec3<Scalar>,
    n: int,
) -> bool {
    forall|j: int|
        0 <= j < n ==> (#[trigger] objects[j]).solid.intersect_spec(origin, direction) is None
}

/// Among the first `n` objects, object `i` is met at `t`, no object is met
/// nearer, and none before `i` as near.
pub open spec fn is_nearest_upto(
    objects: Seq<Object>,
    origin: Vec3<Scalar>,
    direction: Vec3<Scalar>,
    n: int,
    i: int,
    t: Scalar,
) -> bool {
    &&& 0 <= i < n
    &&& objects[i].solid.intersect_spec(origin, direction) == Some(t)
    &&& forall|j: int|
        0 <= j < n ==> ((#[trigger] objects[j]).solid.intersect_spec(
            origin,
            direction,
        ) matches Some(u) ==> t.raw <= u.raw && (j < i ==> t.raw < u.raw))
}

/// The ray meets no object of the scene.
pub open spec fn misses_all(
    objects: Seq<Object>,
    origin: Vec3<Scalar>,
    direction: Vec3<Scalar>,
) -> bool {
    misses_upto(objects, origin, direction, objects.len() as int)
}

/// Object `i` is the nearest that the ray meets, at `t`, and the first of
/// those that are met as near.
pub open spec fn is_nearest(
    objects: Seq<Object>,
    origin: Vec3<Scalar>,
    direction: Vec3<Scalar>,
    i: int,
    t: Scalar,
) -> bool {
    is_nearest_upto(objects, origin, direction, objects.len() as int, i, t)
}

/// The nearest hit among the first `n` objects: the index of the object and
/// the ray parameter. The first object that is met is taken, and an object
/// replaces an earlier one only where it is strictly nearer.
pub open spec fn nearest_upto(
    objects: Seq<Object>,
    origin: Vec3<Scalar>,
    direction: Vec3<Scalar>,
    n: int,
) -> Option<(int, Scalar)>
    decreases n,
{
    if n <= 0 {
        None
    } else {
        let before = nearest_upto(objects, origin, direction, n - 1);
        match (objects[n - 1].solid.intersect_spec(origin, direction), before) {
            (Some(t), None) => Some((n - 1, t)),
            (Some(t), Some((_, least))) => if t.raw < least.raw {
                Some((n - 1, t))
            } else {
                before
            },
            (None, _) => before,
        }
    }
}

/// The nearest hit in the whole scene.
pub open spec fn nearest_hit_spec(
    objects: Seq<Object>,
    origin: Vec3<Scalar>,
    direction: Vec3<Scalar>,
) -> Option<(int, Scalar)> {
    nearest_upto(objects, origin, direction, objects.len() as int)
}

/// The search finds nothing just where nothing is met, and else the
/// nearest object, the first among equals.
pub proof fn lemma_nearest_upto(
    objects: Seq<Object>,
    origin: Vec3<Scalar>,
    direction: Vec3<Scalar>,
    n: int,
)
    requires
        n <= objects.len(),
    ensures
        match nearest_upto(objects, origin, direction, n) {
            Some((i, t)) => is_nearest_upto(objects, origin, direction, n, i, t),
            None => misses_upto(objects, origin, direction, n),
        },
    decreases n,
{
    if n > 0 {
        lemma_nearest_upto(objects, origin, direction, n - 1);
    }
}

/// Asks every object of the scene for its hit, in order, and keeps the
/// nearest: none where the ray meets no object, else the object that is met
/// nearest, the first of those that are met as near, and the parameter.
pub fn nearest_hit(origin: Vec3<Scalar>, direction: Vec3<Scalar>, objects: &Vec<Object>) -> (r:
    Option<(usize, Scalar)>)
    ensures
        match r {
            Some((i, t)) => nearest_hit_spec(objects@, origin, direction) == Some((i as int, t))
                && is_nearest(objects@, origin, direction, i as int, t),
            None => nearest_hit_spec(objects@, origin, direction) is None && misses_all(
                objects@,
                origin,
                direction,
            ),
        },
{
    let mut best: Option<(usize, Scalar)> = None;
    let mut k: usize = 0;
    while k < objects.len()
        invariant
            k <= objects.len(),
            match best {
                Some((i, t)) => nearest_upto(objects@, origin, direction, k as int) == Some(
                    (i as int, t),
                ),
                None => nearest_upto(objects@, origin, direction, k as int) is None,
            },
        decreases objects.len() - k,
    {
        match objects[k].solid.intersect(origin, direction) {
            Some(t) => {
                let nearer = match best {
                    Some((_, least)) => t.raw < least.raw,
                    None => true,
                };
                if nearer {
                    best = Some((k, t));
                }
            },
            None => {},
        }
        k = k + 1;
    }
    proof {
        lemma_nearest_upto(objects@, origin, direction, objects@.len() as int);
    }
    best
}

/// The index of the object that the ray meets first: none where the ray
/// meets no object, else the object that is met nearest, the first of those
/// that are met as near.
pub fn get_hit_object_id(
    origin: Vec3<Scalar>,
    direction: Vec3<Scalar>,
    objects: &Vec<Object>,
) -> (r: Option<usize>)
    ensures
        r is None <==> misses_all(objects@, origin, direction),
        match r {
            Some(i) => nearest_hit_spec(objects@, origin, direction) matches Some((j, t)) && j
                == i as int && is_nearest(objects@, origin, direction, i as int, t),
            None => nearest_hit_spec(objects@, origin, direction) is None,
        },
{
    match nearest_hit(origin, direction, objects) {
        Some((i, _)) => Some(i),
        None => None,
    }
}

/// `n` over `UNIT`, rounded up.
pub open spec fn raised(n: int) -> int {
    (n + UNIT - 1) / (UNIT as int)
}

/// One channel of the colour of the sky: the channel of the tint times the
/// squared cosine, where `depth` is the third component of the direction.
/// The square and the product are rounded up, so that the sky is black
/// only where the direction lies across the view. Only the channel itself
/// is saturated.
pub open spec fn sky_channel(tint: i64, depth: Scalar) -> Scalar {
    Scalar { raw: clamp(raised(tint * raised(depth.raw * depth.raw))) as i64 }
}

/// The colour of the sky in a direction: the tint, scaled by the squared
/// cosine between the direction and the axis that points into the picture.
/// For that axis the cosine is the third component of the direction, and
/// the sign is lost in the square. Bringing the colour to unit length and
/// scaling it by the length it had changes nothing, and is not done.
pub open spec fn background_spec(direction: Vec3<Scalar>) -> Vec3<Scalar> {
    Vec3 {
        x: sky_channel(SKY_RED, direction.z),
        y: sky_channel(SKY_GREEN, direction.z),
        z: sky_channel(SKY_BLUE, direction.z),
    }
}

/// Divides by `UNIT` and rounds up.
fn raise(n: u128) -> (r: u128)
    requires
        n <= 0x4000_0000_0000_0000_0000_0000_0000_0000 + UNIT,
    ensures
        r == raised(n as int),
        r * UNIT < n + UNIT,
{
    let r = (n + (UNIT as u128 - 1)) / (UNIT as u128);
    assert(r * UNIT <= n + UNIT - 1) by (nonlinear_arith)
        requires
            r == (n + UNIT - 1) / (UNIT as int),
            UNIT == 10_000_000_000_000,
            n >= 0,
    ;
    r
}

/// One channel of the sky, from the tint and the squared cosine.
fn sky(tint: i64, cosine2: u128) -> (r: Scalar)
    requires
        0 <= tint <= UNIT,
        cosine2 * UNIT <= 0x4000_0000_0000_0000_0000_0000_0000_0000 + 2 * UNIT,
    ensures
        r.raw == clamp(raised(tint * cosine2)),
{
    assert(0 <= tint * cosine2 <= 0x4000_0000_0000_0000_0000_0000_0000_0000 + 2 * UNIT)
        by (nonlinear_arith)
        requires
            0 <= tint <= UNIT,
            0 <= cosine2,
            cosine2 * UNIT <= 0x4000_0000_0000_0000_0000_0000_0000_0000 + 2 * UNIT,
    ;
    let wide: u128 = (tint as u128) * cosine2;
    Scalar { raw: saturate(false, (wide + (UNIT as u128 - 1)) / (UNIT as u128)) }
}

/// The colour of the sky in a direction.
pub fn background(direction: Vec3<Scalar>) -> (r: Vec3<Scalar>)
    ensures
        r == background_spec(direction),
{
    let m: u128 = magnitude_of(direction.z.raw as i128);
    assert(m * m <= 0x4000_0000_0000_0000_0000_0000_0000_0000 && m * m == direction.z.raw
        * direction.z.raw) by (nonlinear_arith)
        requires
            m <= 0x8000_0000_0000_0000,
            m == direction.z.raw || m == -direction.z.raw,
    ;
    let cosine2 = raise(m * m);
    Vec3::new(sky(SKY_RED, cosine2), sky(SKY_GREEN, cosine2), sky(SKY_BLUE, cosine2))
}

/// The point of the ray at parameter `t`.
pub open spec fn hit_point(origin: Vec3<Scalar>, direction: Vec3<Scalar>, t: Scalar) -> Vec3<
    Scalar,
> {
    origin.plus(direction.scaled(t))
}

/// The ray runs along the object's normal at `hit`: it leaves the solid from
/// inside.
pub open spec fn leaves_solid(object: Object, hit: Vec3<Scalar>, direction: Vec3<Scalar>) -> bool {
    direction.dot_spec(object.solid.normal_at_spec(hit, direction)).raw > 0
}

/// The object's normal at `hit`, turned against the ray.
pub open spec fn facing_normal(object: Object, hit: Vec3<Scalar>, direction: Vec3<Scalar>) -> Vec3<
    Scalar,
> {
    let normal = object.solid.normal_at_spec(hit, direction);
    if leaves_solid(object, hit, direction) {
        normal.negated()
    } else {
        normal
    }
}

/// `point` moved off the surface along `normal` by the bias.
pub open spec fn lifted(point: Vec3<Scalar>, normal: Vec3<Scalar>) -> Vec3<Scalar> {
    point.plus(normal.scaled(Scalar { raw: BIAS }))
}

/// `point` moved under the surface against `normal` by the bias.
pub open spec fn sunk(point: Vec3<Scalar>, normal: Vec3<Scalar>) -> Vec3<Scalar> {
    point.minus(normal.scaled(Scalar { raw: BIAS }))
}

/// The share of reflected light: the cube of one less the facing ratio,
/// blended toward one by the floor.
pub open spec fn fresnel_spec(direction: Vec3<Scalar>, normal: Vec3<Scalar>) -> Scalar {
    let facing = direction.dot_spec(normal).negated();
    mix_spec(
        Scalar::one_spec().minus(facing).powi_spec(3),
        Scalar::one_spec(),
        Scalar { raw: FRESNEL_FLOOR },
    )
}

/// The share of reflected light at a surface.
pub fn fresnel(direction: Vec3<Scalar>, normal: Vec3<Scalar>) -> (r: Scalar)
    ensures
        r == fresnel_spec(direction, normal),
{
    let facing = direction.dot(&normal).neg();
    mix((Scalar::one() - facing).powi(3), Scalar::one(), Scalar { raw: FRESNEL_FLOOR })
}

/// The unit direction of the ray mirrored at a surface.
pub open spec fn reflected_spec(direction: Vec3<Scalar>, normal: Vec3<Scalar>) -> Vec3<Scalar> {
    direction.minus(
        normal.scaled(Scalar::from_int_spec(2)).scaled(direction.dot_spec(normal)),
    ).normalize_spec()
}

/// The direction of the mirrored ray.
pub fn reflected(direction: Vec3<Scalar>, normal: Vec3<Scalar>) -> (r: Vec3<Scalar>)
    ensures
        r == reflected_spec(direction, normal),
{
    let mut r = direction - normal * Scalar::from_int(2) * direction.dot(&normal);
    r.normalize();
    r
}

/// The unit direction of the ray bent at a surface by Snell's law. `inside`
/// says that the ray leaves the solid. Where the law has no solution the
/// square root counts as zero.
pub open spec fn refracted_spec(
    direction: Vec3<Scalar>,
    normal: Vec3<Scalar>,
    inside: bool,
) -> Vec3<Scalar> {
    let index = Scalar { raw: REFRACTION_INDEX };
    let eta = if inside {
        index
    } else {
        Scalar::one_spec().over(index)
    };
    let cosi = normal.dot_spec(direction).negated();
    let k = Scalar::one_spec().minus(
        eta.times(eta).times(Scalar::one_spec().minus(cosi.times(cosi))),
    );
    direction.scaled(eta).plus(normal.scaled(eta.times(cosi).minus(k.sqrt_spec()))).normalize_spec()
}

/// The direction of the bent ray.
pub fn refracted(direction: Vec3<Scalar>, normal: Vec3<Scalar>, inside: bool) -> (r: Vec3<Scalar>)
    ensures
        r == refracted_spec(direction, normal, inside),
{
    let index = Scalar { raw: REFRACTION_INDEX };
    let eta = if inside {
        index
    } else {
        Scalar::one() / index
    };
    let cosi = normal.dot(&direction).neg();
    let k = Scalar::one() - eta * eta * (Scalar::one() - cosi * cosi);
    let mut r = direction * eta + normal * (eta * cosi - k.sqrt());
    r.normalize();
    r
}

/// The colour of a mirroring or transparent surface, from what the
/// reflected and the refracted ray bring back.
pub open spec fn blend_spec(
    object: Object,
    fresnel: Scalar,
    reflection: Vec3<Scalar>,
    refraction: Vec3<Scalar>,
) -> Vec3<Scalar> {
    object.surface_color.times(
        reflection.scaled(fresnel).plus(
            refraction.scaled(Scalar::one_spec().minus(fresnel)).scaled(object.transparency),
        ),
    )
}

/// The factor by which light fades over a squared distance.
pub open spec fn falloff_spec(dist2: Scalar) -> Scalar {
    Scalar::one_spec().minus(
        Scalar { raw: FALLOFF }.times(dist2).over(Scalar::one_spec().plus(dist2.abs_spec())),
    )
}

/// Something stands between `from` and the light: an object other than the
/// light and the shaded object meets the ray that leaves `from` along
/// `toward`.
pub open spec fn shadowed_spec(
    objects: Seq<Object>,
    light: int,
    shaded: int,
    from: Vec3<Scalar>,
    toward: Vec3<Scalar>,
) -> bool {
    exists|j: int|
        0 <= j < objects.len() && j != light && j != shaded
            && (#[trigger] objects[j]).solid.intersect_spec(from, toward) is Some
}

/// What reaches the surface from one light: nothing where the light is
/// shadowed, else the faded light.
pub open spec fn transmission_spec(
    objects: Seq<Object>,
    light: int,
    shaded: int,
    hit: Vec3<Scalar>,
    normal: Vec3<Scalar>,
) -> Vec3<Scalar> {
    let to_light = objects[light].pos.minus(hit);
    let val = falloff_spec(to_light.len_sqr_spec());
    if shadowed_spec(objects, light, shaded, lifted(hit, normal), to_light.normalize_spec()) {
        Vec3::<Scalar>::zero_spec()
    } else {
        Vec3 { x: val, y: val, z: val }
    }
}

/// What one light adds to the colour of the shaded object at `hit`: the
/// surface colour times what reaches it, weighted by the cosine between the
/// normal and the direction of the light where that is positive, times the
/// light's emission.
pub open spec fn light_spec(
    objects: Seq<Object>,
    light: int,
    shaded: int,
    hit: Vec3<Scalar>,
    normal: Vec3<Scalar>,
) -> Vec3<Scalar> {
    let toward = objects[light].pos.minus(hit).normalize_spec();
    let through = transmission_spec(objects, light, shaded, hit, normal);
    let cosine = normal.dot_spec(toward).max_spec(Scalar::zero_spec());
    objects[shaded].surface_color.times(through).scaled(cosine).times(
        objects[light].emission_color,
    )
}

/// The sum of what the lights among the first `n` objects add, the shaded
/// object left out.
pub open spec fn direct_light_upto(
    objects: Seq<Object>,
    shaded: int,
    hit: Vec3<Scalar>,
    normal: Vec3<Scalar>,
    n: int,
) -> Vec3<Scalar>
    decreases n,
{
    if n <= 0 {
        Vec3::<Scalar>::zero_spec()
    } else {
        let before = direct_light_upto(objects, shaded, hit, normal, n - 1);
        if n - 1 != shaded && objects[n - 1].is_light() {
            before.plus(light_spec(objects, n - 1, shaded, hit, normal))
        } else {
            before
        }
    }
}

/// The light that the scene's lights throw on the shaded object at `hit`.
pub open spec fn direct_light_spec(
    objects: Seq<Object>,
    shaded: int,
    hit: Vec3<Scalar>,
    normal: Vec3<Scalar>,
) -> Vec3<Scalar> {
    direct_light_upto(objects, shaded, hit, normal, objects.len() as int)
}

/// Looks for an object between a point and a light.
pub fn shadowed(
    objects: &Vec<Object>,
    light: usize,
    shaded: usize,
    from: Vec3<Scalar>,
    toward: Vec3<Scalar>,
) -> (r: bool)
    ensures
        r == shadowed_spec(objects@, light as int, shaded as int, from, toward),
{
    let mut j: usize = 0;
    while j < objects.len()
        invariant
            j <= objects.len(),
            forall|k: int|
                0 <= k < j && k != light && k != shaded
                    ==> (#[trigger] objects@[k]).solid.intersect_spec(from, toward) is None,
        decreases objects.len() - j,
    {
        if j != light && j != shaded {
            if objects[j].solid.intersect(from, toward).is_some() {
                return true;
            }
        }
        j = j + 1;
    }
    false
}

/// What the light with index `light` adds at `hit`.
pub fn light_at(
    objects: &Vec<Object>,
    light: usize,
    shaded: usize,
    hit: Vec3<Scalar>,
    normal: Vec3<Scalar>,
) -> (r: Vec3<Scalar>)
    requires
        light < objects.len(),
        shaded < objects.len(),
    ensures
        r == light_spec(objects@, light as int, shaded as int, hit, normal),
{
    let mut toward = objects[light].pos - hit;
    let dist2 = toward.len_sqr();
    let val = Scalar::one() - Scalar { raw: FALLOFF } * dist2 / (Scalar::one() + dist2.abs());
    toward.normalize();
    let from = hit + normal * Scalar { raw: BIAS };
    let transmission = if shadowed(objects, light, shaded, from, toward) {
        Vec3::default()
    } else {
        Vec3::new(val, val, val)
    };
    let cosine = normal.dot(&toward).max(Scalar::zero());
    objects[shaded].surface_color * transmission * cosine * objects[light].emission_color
}

/// Adds up what the lights of the scene throw on a point of the object with
/// index `shaded`.
pub fn direct_light(
    objects: &Vec<Object>,
    shaded: usize,
    hit: Vec3<Scalar>,
    normal: Vec3<Scalar>,
) -> (r: Vec3<Scalar>)
    requires
        shaded < objects.len(),
    ensures
        r == direct_light_spec(objects@, shaded as int, hit, normal),
{
    let mut sum: Vec3<Scalar> = Vec3::default();
    let mut i: usize = 0;
    while i < objects.len()
        invariant
            i <= objects.len(),
            shaded < objects.len(),
            sum == direct_light_upto(objects@, shaded as int, hit, normal, i as int),
        decreases objects.len() - i,
    {
        if i != shaded && objects[i].emission_color.x.raw > 0 {
            sum = sum + light_at(objects, i, shaded, hit, normal);
        }
        i = i + 1;
    }
    sum
}

/// The colour that leaves a surface: its own light added to what it throws
/// back, and the sum brought to unit length where its squared length is
/// over one.
pub open spec fn compose_spec(surface: Vec3<Scalar>, emission: Vec3<Scalar>) -> Vec3<Scalar> {
    let color = surface.plus(emission);
    if color.sum_squares() > UNIT_SQUARED {
        color.normalize_spec()
    } else {
        color
    }
}

/// Adds the object's own light and holds the colour to unit length.
pub fn compose(surface: Vec3<Scalar>, emission: Vec3<Scalar>) -> (r: Vec3<Scalar>)
    ensures
        r == compose_spec(surface, emission),
{
    let mut color = surface + emission;
    if color.squares() > UNIT_SQUARED {
        color.normalize();
    }
    color
}

/// The ray is followed past this object: the object mirrors or lets light
/// through, and the ceiling on the number of bounces is not reached.
pub open spec fn bounces(object: Object, depth: int) -> bool {
    (object.transparency.raw > 0 || object.reflection.raw > 0) && depth < MAX_DEPTH
}

/// The colour that the ray from `origin` along `direction` brings back.
///
/// A ray that meets nothing brings the colour of the sky. At the nearest
/// object a ray that is followed splits in a reflected ray and, where the
/// object is transparent, a refracted one, each one level deeper; a ray that
/// is not followed takes the light that the scene's lights throw on the
/// point.
pub open spec fn trace_spec(
    origin: Vec3<Scalar>,
    direction: Vec3<Scalar>,
    objects: Seq<Object>,
    depth: int,
) -> Vec3<Scalar>
    decreases MAX_DEPTH - depth,
{
    match nearest_hit_spec(objects, origin, direction) {
        None => background_spec(direction),
        Some((i, t)) => {
            let object = objects[i];
            let hit = hit_point(origin, direction, t);
            let normal = facing_normal(object, hit, direction);
            let surface = if bounces(object, depth) {
                let reflection = trace_spec(
                    lifted(hit, normal),
                    reflected_spec(direction, normal),
                    objects,
                    depth + 1,
                );
                let refraction = if object.transparency.raw > 0 {
                    trace_spec(
                        sunk(hit, normal),
                        refracted_spec(direction, normal, leaves_solid(object, hit, direction)),
                        objects,
                        depth + 1,
                    )
                } else {
                    Vec3::<Scalar>::zero_spec()
                };
                blend_spec(object, fresnel_spec(direction, normal), reflection, refraction)
            } else {
                direct_light_spec(objects, i, hit, normal)
            };
            compose_spec(surface, object.emission_color)
        },
    }
}

/// Follows the ray from `origin` along `direction` through the scene and
/// brings back its colour. `depth` counts the bounces so far: a caller
/// starts at zero.
pub fn trace(
    origin: Vec3<Scalar>,
    direction: Vec3<Scalar>,
    objects: &Vec<Object>,
    depth: i32,
) -> (color: Vec3<Scalar>)
    requires
        0 <= depth,
    ensures
        color == trace_spec(origin, direction, objects@, depth as int),
    decreases MAX_DEPTH - depth,
{
    let (i, t) = match nearest_hit(origin, direction, objects) {
        None => {
            return background(direction);
        },
        Some(found) => found,
    };
    let object = &objects[i];
    let hit = origin + direction * t;
    let mut normal = object.solid.normal_at(hit, direction);
    let inside = direction.dot(&normal).raw > 0;
    if inside {
        normal = normal.neg();
    }
    let bias = Scalar { raw: BIAS };
    let surface = if (object.transparency.raw > 0 || object.reflection.raw > 0) && depth
        < MAX_DEPTH {
        let share = fresnel(direction, normal);
        let reflection = trace(
            hit + normal * bias,
            reflected(direction, normal),
            objects,
            depth + 1,
        );
        let refraction = if object.transparency.raw > 0 {
            trace(hit - normal * bias, refracted(direction, normal, inside), objects, depth + 1)
        } else {
            Vec3::default()
        };
        object.surface_color * (reflection * share + refraction * (Scalar::one() - share)
            * object.transparency)
    } else {
        direct_light(objects, i, hit, normal)
    };
    compose(surface, object.emission_color)
}

} // verus!
