//! Pictures of a scene: one ray through each pixel of a pinhole camera that
//! sits at the origin and looks along the negative third axis.

use crate::scalar::{clamp, Scalar, UNIT};
use crate::solids::Object;
use crate::tracer::{get_hit_object_id, nearest_hit_spec, trace, trace_spec, DEPTH_AXIS};
use crate::vec3::Vec3;
use vstd::prelude::*;

verus! {

/// The squared distance between the colours of two pixels over which the
/// pixel between them is traced rather than averaged: a half, in raw units
/// squared.
pub const EDGE_THRESHOLD: u128 = 50_000_000_000_000_000_000_000_000;

/// Raw value of a half.
pub const HALF: i64 = 5_000_000_000_000;

/// Raw value of the tangent of half the field of view of fifty degrees.
pub const DEFAULT_VIEW_TANGENT: i64 = 4_663_076_581_550;

/// The tangent of half the default field of view.
pub fn default_view_tangent() -> (r: Scalar)
    ensures
        r.raw == DEFAULT_VIEW_TANGENT,
{
    Scalar { raw: DEFAULT_VIEW_TANGENT }
}

fn count(n: usize) -> (r: i64)
    ensures
        r == clamp(n as int),
{
    let wide: u128 = n as u128;
    if wide > 0x7fff_ffff_ffff_ffff {
        i64::MAX
    } else {
        wide as i64
    }
}

fn odd_count(k: usize) -> (r: i64)
    ensures
        r == clamp(2 * k + 1),
{
    let wide: u128 = 2 * (k as u128) + 1;
    if wide > 0x7fff_ffff_ffff_ffff {
        i64::MAX
    } else {
        wide as i64
    }
}

/// The first component of the ray through the centre of column `x`: the
/// centre's place between minus one and one, scaled by the tangent of half
/// the field of view and by the aspect ratio.
pub open spec fn get_xx_spec(x: int, width: int, height: int, tangent: Scalar) -> Scalar {
    Scalar::ratio_spec(clamp(2 * x + 1), clamp(width)).minus(Scalar::one_spec()).times(
        tangent,
    ).times(Scalar::ratio_spec(clamp(width), clamp(height)))
}

/// The second component of the ray through the centre of row `y`: the
/// centre's place between one and minus one, scaled by the tangent of half
/// the field of view.
pub open spec fn get_yy_spec(y: int, height: int, tangent: Scalar) -> Scalar {
    Scalar::one_spec().minus(Scalar::ratio_spec(clamp(2 * y + 1), clamp(height))).times(tangent)
}

/// The first component of the ray through column `x`.
pub fn get_xx(x: usize, width: usize, height: usize, tangent: Scalar) -> (r: Scalar)
    ensures
        r == get_xx_spec(x as int, width as int, height as int, tangent),
{
    (Scalar::ratio(odd_count(x), count(width)) - Scalar::one()) * tangent * Scalar::ratio(
        count(width),
        count(height),
    )
}

/// The second component of the ray through row `y`.
pub fn get_yy(y: usize, height: usize, tangent: Scalar) -> (r: Scalar)
    ensures
        r == get_yy_spec(y as int, height as int, tangent),
{
    (Scalar::one() - Scalar::ratio(odd_count(y), count(height))) * tangent
}

/// The unit direction of the ray through the centre of pixel `(x, y)`.
pub open spec fn camera_ray_spec(x: int, y: int, width: int, height: int, tangent: Scalar) -> Vec3<
    Scalar,
> {
    Vec3 {
        x: get_xx_spec(x, width, height, tangent),
        y: get_yy_spec(y, height, tangent),
        z: Scalar { raw: DEPTH_AXIS },
    }.normalize_spec()
}

/// The unit direction of the ray through pixel `(x, y)`.
pub fn camera_ray(x: usize, y: usize, width: usize, height: usize, tangent: Scalar) -> (r: Vec3<
    Scalar,
>)
    ensures
        r == camera_ray_spec(x as int, y as int, width as int, height as int, tangent),
{
    let mut dir = Vec3::new(
        get_xx(x, width, height, tangent),
        get_yy(y, height, tangent),
        Scalar { raw: DEPTH_AXIS },
    );
    dir.normalize();
    dir
}

/// The colour that the ray through pixel `(x, y)` brings back.
#[verifier::opaque]
pub open spec fn traced_pixel(
    x: int,
    y: int,
    width: int,
    height: int,
    objects: Seq<Object>,
    tangent: Scalar,
) -> Vec3<Scalar> {
    trace_spec(
        Vec3::<Scalar>::zero_spec(),
        camera_ray_spec(x, y, width, height, tangent),
        objects,
        0,
    )
}

/// Traces the ray through pixel `(x, y)`.
pub fn trace_pixel(
    x: usize,
    y: usize,
    width: usize,
    height: usize,
    objects: &Vec<Object>,
    tangent: Scalar,
) -> (r: Vec3<Scalar>)
    ensures
        r == traced_pixel(x as int, y as int, width as int, height as int, objects@, tangent),
{
    reveal(traced_pixel);
    trace(Vec3::default(), camera_ray(x, y, width, height, tangent), objects, 0)
}

/// Two colours differ so much that an edge runs between them.
pub open spec fn is_edge(a: Vec3<Scalar>, b: Vec3<Scalar>) -> bool {
    a.minus(b).sum_squares() > EDGE_THRESHOLD
}

/// Tells whether an edge runs between two colours.
pub fn edge_between(a: Vec3<Scalar>, b: Vec3<Scalar>) -> (r: bool)
    ensures
        r == is_edge(a, b),
{
    (a - b).squares() > EDGE_THRESHOLD
}

/// The colour half way between two colours.
pub open spec fn midpoint(a: Vec3<Scalar>, b: Vec3<Scalar>) -> Vec3<Scalar> {
    a.plus(b).scaled(Scalar { raw: HALF })
}

/// The colour of pixel `(x, y)` in a picture. A pixel in an even column is
/// traced, and so is the last pixel of a row. A pixel in an odd column with a
/// neighbour on either side is traced where an edge runs between the two
/// neighbours, and is the colour half way between them where none does.
pub open spec fn adaptive_pixel(
    x: int,
    y: int,
    width: int,
    height: int,
    objects: Seq<Object>,
    tangent: Scalar,
) -> Vec3<Scalar> {
    if x % 2 == 0 || x + 1 >= width {
        traced_pixel(x, y, width, height, objects, tangent)
    } else {
        let left = traced_pixel(x - 1, y, width, height, objects, tangent);
        let right = traced_pixel(x + 1, y, width, height, objects, tangent);
        if is_edge(left, right) {
            traced_pixel(x, y, width, height, objects, tangent)
        } else {
            midpoint(left, right)
        }
    }
}

/// The colour of a pixel in an odd column that has a neighbour on either
/// side, from the colours of the two neighbours.
fn between_pixel(
    left: Vec3<Scalar>,
    right: Vec3<Scalar>,
    x: usize,
    y: usize,
    width: usize,
    height: usize,
    objects: &Vec<Object>,
    tangent: Scalar,
) -> (r: Vec3<Scalar>)
    requires
        x % 2 == 1,
        x + 1 < width,
        left == traced_pixel(x - 1, y as int, width as int, height as int, objects@, tangent),
        right == traced_pixel(x + 1, y as int, width as int, height as int, objects@, tangent),
    ensures
        r == adaptive_pixel(x as int, y as int, width as int, height as int, objects@, tangent),
{
    if edge_between(left, right) {
        trace_pixel(x, y, width, height, objects, tangent)
    } else {
        (left + right) * Scalar { raw: HALF }
    }
}

/// Row `y` of the picture, from left to right.
pub fn render_row(
    y: usize,
    width: usize,
    height: usize,
    objects: &Vec<Object>,
    tangent: Scalar,
) -> (row: Vec<Vec3<Scalar>>)
    ensures
        row@.len() == width,
        forall|x: int|
            0 <= x < width ==> #[trigger] row@[x] == adaptive_pixel(
                x,
                y as int,
                width as int,
                height as int,
                objects@,
                tangent,
            ),
{
    let mut row: Vec<Vec3<Scalar>> = Vec::new();
    if width == 0 {
        return row;
    }
    let mut left = trace_pixel(0, y, width, height, objects, tangent);
    row.push(left);
    let mut done: usize = 1;
    while width - done >= 2
        invariant
            1 <= done <= width,
            done % 2 == 1,
            row@.len() == done,
            left == traced_pixel(
                done - 1,
                y as int,
                width as int,
                height as int,
                objects@,
                tangent,
            ),
            forall|x: int|
                0 <= x < done ==> #[trigger] row@[x] == adaptive_pixel(
                    x,
                    y as int,
                    width as int,
                    height as int,
                    objects@,
                    tangent,
                ),
        decreases width - done,
    {
        let right = trace_pixel(done + 1, y, width, height, objects, tangent);
        let between = between_pixel(left, right, done, y, width, height, objects, tangent);
        row.push(between);
        row.push(right);
        left = right;
        done = done + 2;
    }
    if width - done == 1 {
        let last = trace_pixel(done, y, width, height, objects, tangent);
        row.push(last);
    }
    row
}

/// The picture of `width` by `height` pixels, row after row from the top.
pub fn render(width: usize, height: usize, objects: &Vec<Object>, tangent: Scalar) -> (img: Vec<
    Vec3<Scalar>,
>)
    ensures
        img@.len() == width * height,
        forall|x: int, y: int|
            0 <= x < width && 0 <= y < height ==> #[trigger] img@[y * width + x] == adaptive_pixel(
                x,
                y,
                width as int,
                height as int,
                objects@,
                tangent,
            ),
{
    let mut img: Vec<Vec3<Scalar>> = Vec::new();
    let mut y: usize = 0;
    while y < height
        invariant
            y <= height,
            img@.len() == y * width,
            forall|x: int, v: int|
                0 <= x < width && 0 <= v < y ==> #[trigger] img@[v * width + x] == adaptive_pixel(
                    x,
                    v,
                    width as int,
                    height as int,
                    objects@,
                    tangent,
                ),
        decreases height - y,
    {
        let mut row = render_row(y, width, height, objects, tangent);
        let ghost before = img@;
        let ghost fresh = row@;
        img.append(&mut row);
        proof {
            assert((y + 1) * width == y * width + width) by (nonlinear_arith);
            assert forall|x: int, v: int| 0 <= x < width && 0 <= v < y + 1 implies #[trigger] img@[v
                * width + x] == adaptive_pixel(
                x,
                v,
                width as int,
                height as int,
                objects@,
                tangent,
            ) by {
                lemma_cell_index(x, v, width as int, y as int);
                if v < y {
                    assert(img@[v * width + x] == before[v * width + x]);
                } else {
                    assert(img@[y * width + x] == fresh[x]);
                }
            }
        }
        y = y + 1;
    }
    img
}

/// In a picture stored row after row, the cells of the rows before row `y`
/// come before the cells of row `y`.
pub proof fn lemma_cell_index(x: int, v: int, width: int, y: int)
    requires
        0 <= x < width,
        0 <= v <= y,
    ensures
        0 <= v * width + x,
        v < y ==> v * width + x < y * width,
        v == y ==> v * width + x == y * width + x,
{
    assert(0 <= v * width) by (nonlinear_arith)
        requires
            0 <= v,
            0 <= width,
    ;
    if v < y {
        assert(v * width + width <= y * width) by (nonlinear_arith)
            requires
                v + 1 <= y,
                0 <= width,
        ;
    }
}

/// The index of the object that the ray through pixel `(x, y)` meets first,
/// if it meets one.
pub open spec fn hit_id_spec(
    x: int,
    y: int,
    width: int,
    height: int,
    objects: Seq<Object>,
    tangent: Scalar,
) -> Option<int> {
    match nearest_hit_spec(
        objects,
        Vec3::<Scalar>::zero_spec(),
        camera_ray_spec(x, y, width, height, tangent),
    ) {
        Some((i, _)) => Some(i),
        None => None,
    }
}

/// An outline runs through pixel `(x, y)`: the pixel has a neighbour on the
/// left and one above, and its ray meets another object than the ray of one
/// of the two.
pub open spec fn on_outline(
    x: int,
    y: int,
    width: int,
    height: int,
    objects: Seq<Object>,
    tangent: Scalar,
) -> bool {
    let here = hit_id_spec(x, y, width, height, objects, tangent);
    x >= 1 && y >= 1 && (here != hit_id_spec(x - 1, y, width, height, objects, tangent) || here
        != hit_id_spec(x, y - 1, width, height, objects, tangent))
}

/// White.
pub open spec fn white_spec() -> Vec3<Scalar> {
    Vec3 { x: Scalar { raw: UNIT }, y: Scalar { raw: UNIT }, z: Scalar { raw: UNIT } }
}

/// The colour of pixel `(x, y)` in a picture of outlines: white on an
/// outline, black elsewhere.
pub open spec fn wireframe_pixel(
    x: int,
    y: int,
    width: int,
    height: int,
    objects: Seq<Object>,
    tangent: Scalar,
) -> Vec3<Scalar> {
    if on_outline(x, y, width, height, objects, tangent) {
        white_spec()
    } else {
        Vec3::<Scalar>::zero_spec()
    }
}

/// The spec-level view of an identifier that the tracer hands out.
pub open spec fn id_view(id: Option<usize>) -> Option<int> {
    match id {
        Some(i) => Some(i as int),
        None => None,
    }
}

fn hit_id(
    x: usize,
    y: usize,
    width: usize,
    height: usize,
    objects: &Vec<Object>,
    tangent: Scalar,
) -> (r: Option<usize>)
    ensures
        id_view(r) == hit_id_spec(
            x as int,
            y as int,
            width as int,
            height as int,
            objects@,
            tangent,
        ),
{
    get_hit_object_id(Vec3::default(), camera_ray(x, y, width, height, tangent), objects)
}

fn same_id(a: Option<usize>, b: Option<usize>) -> (r: bool)
    ensures
        r == (id_view(a) == id_view(b)),
{
    match (a, b) {
        (Some(i), Some(j)) => i == j,
        (None, None) => true,
        _ => false,
    }
}

/// The picture of the outlines of the scene's objects, row after row from
/// the top.
pub fn render_wireframe(
    width: usize,
    height: usize,
    objects: &Vec<Object>,
    tangent: Scalar,
) -> (img: Vec<Vec3<Scalar>>)
    ensures
        img@.len() == width * height,
        forall|x: int, y: int|
            0 <= x < width && 0 <= y < height ==> #[trigger] img@[y * width + x] == wireframe_pixel(
                x,
                y,
                width as int,
                height as int,
                objects@,
                tangent,
            ),
{
    let mut img: Vec<Vec3<Scalar>> = Vec::new();
    let mut above: Vec<Option<usize>> = Vec::new();
    let mut y: usize = 0;
    while y < height
        invariant
            y <= height,
            img@.len() == y * width,
            y >= 1 ==> above@.len() == width,
            forall|x: int|
                y >= 1 && 0 <= x < width ==> id_view(#[trigger] above@[x]) == hit_id_spec(
                    x,
                    y - 1,
                    width as int,
                    height as int,
                    objects@,
                    tangent,
                ),
            forall|x: int, v: int|
                0 <= x < width && 0 <= v < y ==> #[trigger] img@[v * width + x] == wireframe_pixel(
                    x,
                    v,
                    width as int,
                    height as int,
                    objects@,
                    tangent,
                ),
        decreases height - y,
    {
        let mut ids: Vec<Option<usize>> = Vec::new();
        let mut row: Vec<Vec3<Scalar>> = Vec::new();
        let mut x: usize = 0;
        while x < width
            invariant
                x <= width,
                y < height,
                ids@.len() == x,
                row@.len() == x,
                y >= 1 ==> above@.len() == width,
                forall|k: int|
                    y >= 1 && 0 <= k < width ==> id_view(#[trigger] above@[k]) == hit_id_spec(
                        k,
                        y - 1,
                        width as int,
                        height as int,
                        objects@,
                        tangent,
                    ),
                forall|k: int|
                    0 <= k < x ==> id_view(#[trigger] ids@[k]) == hit_id_spec(
                        k,
                        y as int,
                        width as int,
                        height as int,
                        objects@,
                        tangent,
                    ),
                forall|k: int|
                    0 <= k < x ==> #[trigger] row@[k] == wireframe_pixel(
                        k,
                        y as int,
                        width as int,
                        height as int,
                        objects@,
                        tangent,
                    ),
            decreases width - x,
        {
            let here = hit_id(x, y, width, height, objects, tangent);
            let outline = x >= 1 && y >= 1 && (!same_id(here, ids[x - 1]) || !same_id(
                here,
                above[x],
            ));
            let color = if outline {
                Vec3::new(Scalar::one(), Scalar::one(), Scalar::one())
            } else {
                Vec3::default()
            };
            ids.push(here);
            row.push(color);
            x = x + 1;
        }
        let ghost before = img@;
        let ghost fresh = row@;
        img.append(&mut row);
        above = ids;
        proof {
            assert((y + 1) * width == y * width + width) by (nonlinear_arith);
            assert forall|x: int, v: int| 0 <= x < width && 0 <= v < y + 1 implies #[trigger] img@[v
                * width + x] == wireframe_pixel(
                x,
                v,
                width as int,
                height as int,
                objects@,
                tangent,
            ) by {
                lemma_cell_index(x, v, width as int, y as int);
                if v < y {
                    assert(img@[v * width + x] == before[v * width + x]);
                } else {
                    assert(img@[y * width + x] == fresh[x]);
                }
            }
        }
        y = y + 1;
    }
    img
}

} // verus!
