use rayon::iter::{IntoParallelIterator, ParallelIterator};
use raytracer::image::{encode_image, to_rgb_bytes};
use raytracer::render::{
    camera_ray, default_view_tangent, get_xx, get_yy, render, render_row, render_wireframe,
    edge_between, trace_pixel,
};
use raytracer::scalar::Scalar;
use raytracer::solids::sphere::Sphere;
use raytracer::solids::{Object, Solid};
use raytracer::tracer::{get_hit_object_id, trace};
use raytracer::vec3::Vec3;

const UNIT: i64 = 10_000_000_000_000;

fn whole(n: i64) -> Scalar {
    Scalar::from_int(n)
}

fn raw(n: i64) -> Scalar {
    Scalar { raw: n }
}

fn vector(x: i64, y: i64, z: i64) -> Vec3<Scalar> {
    Vec3::new(whole(x), whole(y), whole(z))
}

fn ball(center: Vec3<Scalar>, radius: Scalar) -> Solid {
    Solid::Sphere(Sphere::new(center, radius))
}

/// A ball on a large ball, a mirror ball beside it, and a light.
fn scene() -> Vec<Object> {
    vec![
        Object::new(
            Vec3::new(raw(2_000_000_000_000), raw(2_000_000_000_000), raw(2_000_000_000_000)),
            vector(0, 0, 0),
            whole(0),
            whole(0),
            ball(vector(0, -10004, -20), whole(10000)),
        ),
        Object::new(
            Vec3::new(whole(1), raw(3_200_000_000_000), raw(3_600_000_000_000)),
            vector(0, 0, 0),
            whole(0),
            whole(0),
            ball(vector(0, 0, -20), whole(4)),
        ),
        Object::new(
            Vec3::new(raw(9_000_000_000_000), raw(7_600_000_000_000), raw(4_600_000_000_000)),
            vector(0, 0, 0),
            whole(1),
            raw(UNIT / 2),
            ball(vector(5, -1, -15), whole(2)),
        ),
        Object::new(
            vector(0, 0, 0),
            vector(3, 3, 3),
            whole(0),
            whole(0),
            ball(vector(0, 20, -10), whole(3)),
        ),
    ]
}

#[test]
fn the_camera_looks_along_the_depth_axis() {
    let tangent = default_view_tangent();
    assert_eq!(tangent, raw(4_663_076_581_550));
    // the middle pixel of an odd picture
    assert_eq!(camera_ray(2, 1, 5, 3, tangent), vector(0, 0, -1));
    assert_eq!(get_xx(2, 5, 3, tangent), whole(0));
    assert_eq!(get_yy(1, 3, tangent), whole(0));
    // (2 * 0.5 / 4 - 1) * tan * (4 / 2)
    assert_eq!(get_xx(0, 4, 2, whole(1)), raw(-15_000_000_000_000));
    assert_eq!(get_xx(3, 4, 2, whole(1)), raw(15_000_000_000_000));
    assert_eq!(get_yy(0, 2, whole(1)), raw(5_000_000_000_000));
    assert_eq!(get_yy(1, 2, whole(1)), raw(-5_000_000_000_000));
    assert_eq!(get_xx(0, 4, 2, tangent), raw(-6_994_614_872_324));
    let corner = camera_ray(0, 0, 4, 2, whole(1));
    let mut by_hand = Vec3::new(raw(-15_000_000_000_000), raw(5_000_000_000_000), whole(-1));
    by_hand.normalize();
    assert_eq!(corner, by_hand);
}

#[test]
fn a_picture_without_pixels_is_empty() {
    let objects = scene();
    let tangent = default_view_tangent();
    assert_eq!(render(0, 0, &objects, tangent), vec![]);
    assert_eq!(render(0, 3, &objects, tangent), vec![]);
    assert_eq!(render(3, 0, &objects, tangent), vec![]);
    assert_eq!(render_row(0, 0, 3, &objects, tangent), vec![]);
    assert_eq!(render_wireframe(0, 2, &objects, tangent), vec![]);
    assert_eq!(render_wireframe(2, 0, &objects, tangent), vec![]);
}

#[test]
fn a_picture_of_one_pixel_is_traced() {
    let objects = scene();
    let tangent = default_view_tangent();
    let only = trace(vector(0, 0, 0), camera_ray(0, 0, 1, 1, tangent), &objects, 0);
    assert_eq!(render(1, 1, &objects, tangent), vec![only]);
    assert_eq!(trace_pixel(0, 0, 1, 1, &objects, tangent), only);
    assert_eq!(render_wireframe(1, 1, &objects, tangent), vec![vector(0, 0, 0)]);
}

/// A black ball beside a glowing one.
fn contrast() -> Vec<Object> {
    vec![
        Object::new(
            vector(0, 0, 0),
            vector(0, 0, 0),
            whole(0),
            whole(0),
            ball(vector(-3, 0, -20), whole(3)),
        ),
        Object::new(
            vector(0, 0, 0),
            vector(1, 1, 1),
            whole(0),
            whole(0),
            ball(vector(3, 0, -20), whole(3)),
        ),
    ]
}

/// Holds every pixel of the picture against its rule, and counts the
/// averaged pixels and those traced for an edge.
fn check_picture(objects: &Vec<Object>, width: usize, height: usize) -> (usize, usize) {
    let tangent = default_view_tangent();
    let img = render(width, height, objects, tangent);
    assert_eq!(img.len(), width * height);
    let mut averaged = 0;
    let mut retraced = 0;
    for y in 0..height {
        let row = render_row(y, width, height, objects, tangent);
        assert_eq!(row.as_slice(), &img[y * width..(y + 1) * width]);
        for x in 0..width {
            let traced = trace_pixel(x, y, width, height, objects, tangent);
            if x % 2 == 0 || x + 1 == width {
                assert_eq!(row[x], traced);
            } else {
                let left = trace_pixel(x - 1, y, width, height, objects, tangent);
                let right = trace_pixel(x + 1, y, width, height, objects, tangent);
                if edge_between(left, right) {
                    assert_eq!(row[x], traced);
                    retraced += 1;
                } else {
                    assert_eq!(row[x], (left + right) * raw(UNIT / 2));
                    averaged += 1;
                }
            }
        }
    }
    (averaged, retraced)
}

#[test]
fn odd_pixels_are_averaged_or_traced() {
    let (averaged, _) = check_picture(&scene(), 24, 12);
    assert!(averaged > 0);
    let (averaged, retraced) = check_picture(&contrast(), 24, 12);
    assert!(averaged > 0);
    assert!(retraced > 0);
    check_picture(&scene(), 7, 5);
    check_picture(&contrast(), 9, 4);
    assert_eq!(check_picture(&scene(), 2, 2), (0, 0));
    check_picture(&scene(), 3, 1);
}

#[test]
fn rendering_twice_gives_the_same_bytes() {
    let tangent = default_view_tangent();
    let first = render(16, 9, &scene(), tangent);
    let second = render(16, 9, &scene(), tangent);
    assert_eq!(first, second);
    assert_eq!(to_rgb_bytes(&first), to_rgb_bytes(&second));
    let one = encode_image(16, 9, &first).unwrap();
    let other = encode_image(16, 9, &second).unwrap();
    assert_eq!(one, other);
    // the rows put together one by one, as workers would
    let objects = scene();
    let mut joined = Vec::new();
    for y in (0..9).rev() {
        let mut row = render_row(y, 16, 9, &objects, tangent);
        row.extend(joined);
        joined = row;
    }
    assert_eq!(joined, first);
    // and by workers that run side by side
    let rows: Vec<Vec<Vec3<Scalar>>> = (0..9usize)
        .into_par_iter()
        .map(|y| render_row(y, 16, 9, &objects, tangent))
        .collect();
    let side_by_side: Vec<Vec3<Scalar>> = rows.into_iter().flatten().collect();
    assert_eq!(side_by_side, first);
    assert_eq!(encode_image(16, 9, &side_by_side).unwrap(), one);
    // something is to be seen
    assert!(first.iter().any(|c| c.x.raw > UNIT / 2));
    assert!(first.iter().any(|c| *c != first[0]));
}

#[test]
fn outlines_run_where_the_object_changes() {
    let objects = scene();
    let tangent = default_view_tangent();
    let (width, height) = (20, 12);
    let img = render_wireframe(width, height, &objects, tangent);
    assert_eq!(img.len(), width * height);
    let id = |x: usize, y: usize| {
        get_hit_object_id(vector(0, 0, 0), camera_ray(x, y, width, height, tangent), &objects)
    };
    let mut white = 0;
    for y in 0..height {
        for x in 0..width {
            let outline =
                x >= 1 && y >= 1 && (id(x, y) != id(x - 1, y) || id(x, y) != id(x, y - 1));
            let expected = if outline { vector(1, 1, 1) } else { vector(0, 0, 0) };
            assert_eq!(img[y * width + x], expected);
            if outline {
                white += 1;
            }
        }
    }
    assert!(white > 0);
    assert!(white < width * height / 2);
    assert_eq!(render_wireframe(width, height, &objects, tangent), img);
}

#[test]
fn an_empty_scene_has_no_outlines_and_shows_the_sky() {
    let nothing: Vec<Object> = Vec::new();
    let tangent = default_view_tangent();
    let lines = render_wireframe(4, 3, &nothing, tangent);
    assert_eq!(lines, vec![vector(0, 0, 0); 12]);
    let sky = render(5, 3, &nothing, tangent);
    assert_eq!(sky[7], Vec3::new(raw(UNIT / 10), raw(3 * (UNIT / 10)), raw(UNIT / 2)));
}

#[test]
fn the_crate_root_offers_the_three_entry_points() {
    let objects = scene();
    let tangent = default_view_tangent();
    assert_eq!(raytracer::render(4, 3, &objects, tangent), render(4, 3, &objects, tangent));
    assert_eq!(
        raytracer::render_wireframe(4, 3, &objects, tangent),
        render_wireframe(4, 3, &objects, tangent)
    );
    let ray = camera_ray(1, 1, 4, 3, tangent);
    assert_eq!(
        raytracer::trace(vector(0, 0, 0), ray, &objects, 0),
        trace_pixel(1, 1, 4, 3, &objects, tangent)
    );
}

#[test]
fn an_edge_is_a_squared_distance_over_a_half() {
    let half = raw(UNIT / 2);
    let black = vector(0, 0, 0);
    // 0.25 + 0.25: a half, and no edge
    assert!(!edge_between(Vec3::new(half, half, whole(0)), black));
    assert!(!edge_between(black, Vec3::new(half, half, whole(0))));
    // over a half by less than numbers tell of a squared length: an edge
    let over = Vec3::new(half, half, raw(1));
    assert_eq!(over.len_sqr(), half);
    assert!(edge_between(over, black));
    assert!(edge_between(black, over));
    assert!(edge_between(vector(1, 1, 1), black));
    assert!(!edge_between(vector(1, 1, 1), vector(1, 1, 1)));
    // the colours are compared as they are, not their lengths
    assert!(edge_between(vector(1, 0, 0), vector(0, 1, 0)));
}
