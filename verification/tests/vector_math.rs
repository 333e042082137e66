use raytracer::intsqrt::sqrt_floor;
use raytracer::scalar::Scalar;
use raytracer::vec3::{smoothstep, solve_quadratic, Lerp, Vec3};
use raytracer::wide::{apart_of, cross_of, dot_of, product_of, ratio_of, raws_of};

const UNIT: i64 = 10_000_000_000_000;

fn whole(n: i64) -> Scalar {
    Scalar::from_int(n)
}

fn raw(n: i64) -> Scalar {
    Scalar { raw: n }
}

fn vector(x: i64, y: i64, z: i64) -> Vec3<Scalar> {
    Vec3::new(whole(x), whole(y), whole(z))
}

#[test]
fn quadratic_test() {
    let (x0, x1) = match solve_quadratic(&Vec3::new(whole(1), whole(1), whole(-20))) {
        Some((t0, t1)) => (t0, t1),
        None => {
            panic!("Sould have two roots");
        }
    };
    assert_eq!((x0, x1), (whole(-5), whole(4)));
}

#[test]
fn quadratic_without_roots() {
    assert_eq!(solve_quadratic(&vector(1, 0, 1)), None);
}

#[test]
fn quadratic_with_a_double_root() {
    assert_eq!(solve_quadratic(&vector(1, -2, 1)), Some((whole(1), whole(1))));
}

#[test]
fn quadratic_that_is_linear_saturates() {
    // 0 t^2 + 1 t - 1: both quotients have a zero divisor
    assert_eq!(
        solve_quadratic(&vector(0, 1, -1)),
        Some((Scalar { raw: i64::MIN }, raw(0)))
    );
}

#[test]
fn quadratic_with_large_coefficients() {
    // the roots are near -200000 and near -0.000005
    assert_eq!(
        solve_quadratic(&vector(1, 200_000, 1)),
        Some((raw(-1_999_999_999_949_999_999), raw(-50_000_000)))
    );
    assert_eq!(
        solve_quadratic(&vector(800_000, 0, -800_000)),
        Some((whole(-1), whole(1)))
    );
    let (end, least) = (raw(i64::MAX), raw(i64::MIN));
    assert_eq!(
        solve_quadratic(&Vec3::new(end, whole(0), least)),
        Some((raw(-9_999_999_999_999), raw(9_999_999_999_999)))
    );
    assert_eq!(
        solve_quadratic(&Vec3::new(end, end, least)),
        Some((raw(-16_180_339_887_498), raw(6_180_339_887_498)))
    );
    assert_eq!(
        solve_quadratic(&vector(1, 3, 1)),
        Some((raw(-26_180_339_887_498), raw(-3_819_660_112_501)))
    );
    assert_eq!(solve_quadratic(&Vec3::new(least, whole(0), least)), None);
}

#[test]
fn scalar_sum_and_difference_saturate() {
    assert_eq!(whole(2) + whole(3), whole(5));
    assert_eq!(whole(2) - whole(3), whole(-1));
    assert_eq!(raw(i64::MAX) + raw(1), raw(i64::MAX));
    assert_eq!(raw(i64::MIN) - raw(1), raw(i64::MIN));
    assert_eq!(-raw(i64::MIN), raw(i64::MAX));
    assert_eq!(-whole(7), whole(-7));
}

#[test]
fn scalar_product_rounds_toward_zero() {
    assert_eq!(raw(UNIT / 3) * whole(3), raw(9_999_999_999_999));
    assert_eq!(raw(-UNIT / 3) * whole(3), raw(-9_999_999_999_999));
    assert_eq!(raw(3_162_277) * raw(3_162_277), raw(0));
    assert_eq!(raw(3_162_278) * raw(3_162_278), raw(1));
    assert_eq!(raw(-3_162_278) * raw(3_162_278), raw(-1));
    assert_eq!(raw(-3_162_277) * raw(3_162_277), raw(0));
    assert_eq!(raw(i64::MAX) * raw(i64::MAX), raw(i64::MAX));
    assert_eq!(raw(i64::MAX) * raw(i64::MIN), raw(i64::MIN));
}

#[test]
fn scalar_quotient_rounds_toward_zero() {
    assert_eq!(whole(1) / whole(3), raw(3_333_333_333_333));
    assert_eq!(whole(-1) / whole(3), raw(-3_333_333_333_333));
    assert_eq!(whole(1) / whole(-3), raw(-3_333_333_333_333));
    assert_eq!(whole(6) / whole(3), whole(2));
}

#[test]
fn scalar_quotient_by_zero_saturates() {
    assert_eq!(whole(7) / whole(0), raw(i64::MAX));
    assert_eq!(whole(-7) / whole(0), raw(i64::MIN));
    assert_eq!(whole(0) / whole(0), raw(0));
}

#[test]
fn scalar_square_root_rounds_down() {
    assert_eq!(whole(81).sqrt(), whole(9));
    assert_eq!(whole(2).sqrt(), raw(14_142_135_623_730));
    assert_eq!(raw(3).sqrt(), raw(5_477_225));
    assert_eq!(whole(0).sqrt(), whole(0));
    assert_eq!(whole(-4).sqrt(), whole(0));
    assert_eq!(raw(i64::MAX).sqrt(), raw(9_603_838_834_994_460));
}

#[test]
fn scalar_ratio_and_whole_numbers() {
    assert_eq!(Scalar::ratio(1, 10), raw(1_000_000_000_000));
    assert_eq!(Scalar::ratio(-1, 4), raw(-2_500_000_000_000));
    assert_eq!(Scalar::ratio(1, 0), raw(i64::MAX));
    assert_eq!(Scalar::from_int(i64::MAX), raw(i64::MAX));
    assert_eq!(Scalar::from_int(i64::MIN), raw(i64::MIN));
    assert_eq!(Scalar::zero(), raw(0));
    assert_eq!(Scalar::one(), raw(UNIT));
    assert_eq!(Scalar::default(), raw(0));
}

#[test]
fn scalar_powers() {
    assert_eq!(whole(2).powi(0), whole(1));
    assert_eq!(whole(2).powi(10), whole(1024));
    assert_eq!(whole(-3).powi(3), whole(-27));
    assert_eq!(whole(2).powi(-2), raw(2_500_000_000_000));
    assert_eq!(whole(10).powi(40), raw(i64::MAX));
    assert_eq!(whole(0).powi(-1), raw(i64::MAX));
    assert_eq!(whole(3).pow(4), whole(81));
}

#[test]
fn scalar_order_and_distance_from_zero() {
    assert_eq!(whole(-3).abs(), whole(3));
    assert_eq!(raw(i64::MIN).abs(), raw(i64::MAX));
    assert_eq!(whole(2).max(whole(5)), whole(5));
    assert_eq!(whole(2).min(whole(5)), whole(2));
    assert_eq!(whole(-2).max(whole(0)), whole(0));
}

#[test]
fn normalize_leaves_the_zero_vector() {
    let mut v: Vec3<Scalar> = Vec3::default();
    assert_eq!(*v.normalize(), vector(0, 0, 0));
    assert_eq!(v, vector(0, 0, 0));
}

#[test]
fn normalize_gives_unit_length() {
    let mut v = vector(3, 4, 0);
    v.normalize();
    assert_eq!(v, Vec3::new(raw(6_000_000_000_000), raw(8_000_000_000_000), raw(0)));
    let root = raw(5_773_502_691_896);
    let mut d = vector(1, 1, 1);
    d.normalize();
    assert_eq!(d, Vec3::new(root, root, root));
    let mut back = vector(0, 0, -20);
    back.normalize();
    assert_eq!(back, vector(0, 0, -1));
}

#[test]
fn normalize_keeps_short_vectors_exact() {
    let half = raw(7_071_067_811_865);
    let mut short = Vec3::new(raw(31_622), raw(31_622), raw(0));
    short.normalize();
    assert_eq!(short, Vec3::new(half, half, raw(0)));
    short.normalize();
    assert_eq!(short, Vec3::new(half, half, raw(0)));
    let root = raw(5_773_502_691_896);
    let mut least = Vec3::new(raw(1), raw(1), raw(1));
    least.normalize();
    assert_eq!(least, Vec3::new(root, root, root));
    let mut one = Vec3::new(raw(0), raw(-1), raw(0));
    one.normalize();
    assert_eq!(one, vector(0, -1, 0));
}

#[test]
fn normalize_stays_within_a_few_raw_units() {
    let samples = [
        Vec3::new(raw(1), raw(0), raw(0)),
        Vec3::new(raw(1), raw(1), raw(0)),
        Vec3::new(raw(3), raw(-7), raw(2)),
        Vec3::new(raw(31_622), raw(31_622), raw(0)),
        Vec3::new(raw(1_234_567_890_000), raw(-9_876_543_210_000), raw(55)),
        Vec3::new(raw(1_048_575), raw(2), raw(-5)),
        Vec3::new(raw(1_048_576), raw(2), raw(-5)),
        Vec3::new(raw(1_099_511_627_775), raw(2), raw(-5)),
        Vec3::new(raw(1_099_511_627_776), raw(2), raw(-5)),
        Vec3::new(raw(1_152_921_504_606_846_975), raw(2), raw(-5)),
        Vec3::new(raw(1_152_921_504_606_846_976), raw(2), raw(-5)),
        Vec3::new(raw(i64::MAX), raw(i64::MIN), raw(i64::MAX)),
        Vec3::new(raw(-7_000_000_000_000_000_000), raw(3), raw(2_000_000_000_000_000_000)),
        vector(0, -10004, -20),
    ];
    let squares = |w: &Vec3<Scalar>| -> i128 {
        let (x, y, z) = (w.x.raw as i128, w.y.raw as i128, w.z.raw as i128);
        x * x + y * y + z * z
    };
    let unit = UNIT as i128;
    for sample in samples {
        let mut v = sample;
        v.normalize();
        assert!(v.x.raw.abs() <= UNIT && v.y.raw.abs() <= UNIT && v.z.raw.abs() <= UNIT);
        assert!(squares(&v) > unit * unit - 6 * unit - 3);
        assert!(squares(&v) < (unit + 1) * (unit + 1));
        assert!(UNIT - 4 <= v.len().raw && v.len().raw <= UNIT);
        // the direction is kept: no sign changes, and each pair of
        // components stands as it stood
        let pairs = [
            (sample.x, sample.y, v.x, v.y),
            (sample.y, sample.z, v.y, v.z),
            (sample.z, sample.x, v.z, v.x),
        ];
        for (x, y, a, b) in pairs {
            let (x, y, a, b) = (x.raw as i128, y.raw as i128, a.raw as i128, b.raw as i128);
            assert!(x.signum() * a.signum() >= 0 && y.signum() * b.signum() >= 0);
            assert!((a * y - b * x).abs() <= x.abs() + y.abs());
            assert!((x == 0 && y == 0) || (a * y - b * x).abs() < x.abs() + y.abs());
        }
        // a second time, nothing moves by more than four raw units
        let mut again = v;
        again.normalize();
        for (before, after) in [(v.x, again.x), (v.y, again.y), (v.z, again.z)] {
            assert!(after.raw.abs() >= before.raw.abs() - 1);
            assert!(after.raw.abs() <= before.raw.abs() + 4);
            assert!(before.raw.signum() * after.raw.signum() >= 0);
        }
    }
}

#[test]
fn lengths_round_down() {
    assert_eq!(vector(3, 4, 0).len(), whole(5));
    assert_eq!(vector(3, 4, 0).len_sqr(), whole(25));
    assert_eq!(vector(1, 1, 0).len(), raw(14_142_135_623_730));
    assert_eq!(Vec3::new(raw(1), raw(1), raw(1)).len_sqr(), raw(0));
    assert_eq!(Vec3::new(raw(1), raw(1), raw(1)).len(), raw(1));
    assert_eq!(Vec3::new(raw(2), raw(2), raw(1)).len(), raw(3));
    assert_eq!(Vec3::new(raw(3_162_278), raw(0), raw(0)).len_sqr(), raw(1));
    let far = Vec3::new(raw(i64::MAX), raw(i64::MAX), raw(i64::MAX));
    assert_eq!(far.len_sqr(), raw(i64::MAX));
    assert_eq!(far.len(), raw(i64::MAX));
}

#[test]
fn dot_and_cross() {
    let a = vector(1, 2, 3);
    let b = vector(4, -5, 6);
    assert_eq!(a.dot(&b), whole(12));
    assert_eq!(a.cross(b), vector(27, 6, -13));
    assert_eq!(b.cross(a), vector(-27, -6, 13));
    assert_eq!(vector(1, 0, 0).cross(vector(0, 1, 0)), vector(0, 0, 1));
}

#[test]
fn vector_operators() {
    let a = vector(1, 2, 3);
    let b = vector(4, -5, 6);
    assert_eq!(a + b, vector(5, -3, 9));
    assert_eq!(a - b, vector(-3, 7, -3));
    assert_eq!(-a, vector(-1, -2, -3));
    assert_eq!(a * whole(2), vector(2, 4, 6));
    assert_eq!(a * b, vector(4, -10, 18));
    assert_eq!(a * raw(UNIT / 2), Vec3::new(raw(UNIT / 2), whole(1), raw(3 * UNIT / 2)));
}

#[test]
fn vector_powers_and_distances_from_zero() {
    assert_eq!(vector(-1, 2, -3).abs(), vector(1, 2, 3));
    assert_eq!(vector(-1, 2, -3).powi(2), vector(1, 4, 9));
    assert_eq!(vector(-1, 2, -3).powi(3), vector(-1, 8, -27));
}

#[test]
fn interpolation() {
    assert_eq!(whole(2).lerp(whole(4), raw(UNIT / 2)), whole(3));
    assert_eq!(whole(2).lerp(whole(4), whole(0)), whole(2));
    assert_eq!(whole(2).lerp(whole(4), whole(1)), whole(4));
    assert_eq!(
        vector(0, 10, -10).lerp(vector(10, 20, 10), raw(UNIT / 4)),
        Vec3::new(raw(25_000_000_000_000), raw(125_000_000_000_000), whole(-5))
    );
    // 0.5^3 (6 * 0.25 - 7.5 + 10) = 0.5
    assert_eq!(smoothstep(raw(UNIT / 2)), raw(UNIT / 2));
    assert_eq!(smoothstep(whole(0)), whole(0));
    assert_eq!(smoothstep(whole(1)), whole(1));
    assert_eq!(whole(2).slerp(whole(4), raw(UNIT / 2)), whole(3));
    assert_eq!(vector(0, 0, 0).slerp(vector(2, 4, 8), whole(1)), vector(2, 4, 8));
}

#[test]
fn the_integer_square_root_rounds_down() {
    assert_eq!(sqrt_floor(0), 0);
    assert_eq!(sqrt_floor(1), 1);
    assert_eq!(sqrt_floor(24), 4);
    assert_eq!(sqrt_floor(25), 5);
    assert_eq!(sqrt_floor(u128::MAX), u64::MAX);
}

#[test]
fn wide_products_round_toward_zero_and_stop_where_they_do_not_fit() {
    let unit = UNIT as i128;
    assert_eq!(product_of(unit, unit), Some(unit));
    assert_eq!(product_of(3 * unit, -2 * unit), Some(-6 * unit));
    assert_eq!(product_of(3_162_277, 3_162_277), Some(0));
    assert_eq!(product_of(-3_162_278, 3_162_278), Some(-1));
    assert_eq!(
        product_of(i64::MIN as i128, i64::MIN as i128),
        Some(8_507_059_173_023_461_586_584_365)
    );
    assert_eq!(
        product_of(i64::MIN as i128, i64::MAX as i128),
        Some(-8_507_059_173_023_461_585_662_027)
    );
    assert_eq!(product_of(i128::MAX, 1), Some(i128::MAX / unit));
    assert_eq!(product_of(i128::MAX, 2), None);
    assert_eq!(product_of(i128::MIN, 1), None);
    assert_eq!(product_of(i128::MIN, 0), Some(0));
}

#[test]
fn wide_quotients_round_toward_zero_and_stop_where_they_do_not_fit() {
    let unit = UNIT as i128;
    assert_eq!(ratio_of(unit, 3 * unit), Some(3_333_333_333_333));
    assert_eq!(ratio_of(-unit, 3 * unit), Some(-3_333_333_333_333));
    assert_eq!(ratio_of(unit, -3 * unit), Some(-3_333_333_333_333));
    assert_eq!(ratio_of(-6 * unit, -3 * unit), Some(2 * unit));
    assert_eq!(ratio_of(unit, 0), None);
    assert_eq!(ratio_of(0, 0), None);
    assert_eq!(ratio_of(unit, i128::MIN), None);
    assert_eq!(ratio_of(unit, i128::MAX), Some(0));
    assert_eq!(ratio_of(i128::MAX / unit, 1), Some((i128::MAX / unit) * unit));
    assert_eq!(ratio_of(i128::MAX / unit + 1, 1), None);
}

#[test]
fn wide_vector_products() {
    let unit = UNIT as i128;
    let a = raws_of(vector(1, 2, 3));
    let b = raws_of(vector(4, -5, 6));
    assert_eq!(a, (unit, 2 * unit, 3 * unit));
    assert_eq!(dot_of(a, b), Some(12 * unit));
    assert_eq!(cross_of(a, b), Some((27 * unit, 6 * unit, -13 * unit)));
    assert_eq!(cross_of(b, a), Some((-27 * unit, -6 * unit, 13 * unit)));
    let far = (i128::MAX, 0, 0);
    assert_eq!(dot_of(far, (2, 0, 0)), None);
    assert_eq!(dot_of(far, (0, 2, 2)), Some(0));
    assert_eq!(cross_of(far, (0, 2, 0)), None);
    assert_eq!(cross_of(far, (2, 0, 0)), Some((0, 0, 0)));
    // the way between the two ends of the range is not cut off
    let end = Scalar { raw: i64::MAX };
    let least = Scalar { raw: i64::MIN };
    let way = apart_of(Vec3::new(end, least, end), Vec3::new(least, end, end));
    assert_eq!(way, (u64::MAX as i128, -(u64::MAX as i128), 0));
}
