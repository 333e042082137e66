use raytracer::scalar::Scalar;
use raytracer::scene::{
    html_color_to_vec3, parse_color, parse_line, parse_scene, parse_vector, Fault, SceneError,
};
use raytracer::solids::rectangle::Rectangle;
use raytracer::solids::sphere::Sphere;
use raytracer::solids::triangle::Triangle;
use raytracer::solids::{Object, Solid};
use raytracer::text::{parse_number, split, to_single_whitespace, trim};
use raytracer::vec3::Vec3;

fn whole(n: i64) -> Scalar {
    Scalar::from_int(n)
}

fn raw(n: i64) -> Scalar {
    Scalar { raw: n }
}

fn vector(x: i64, y: i64, z: i64) -> Vec3<Scalar> {
    Vec3::new(whole(x), whole(y), whole(z))
}

fn fault_of(text: &str) -> SceneError {
    Object::vec_from_str(text).unwrap_err()
}

#[test]
fn runs_of_blanks_become_one_space() {
    assert_eq!(to_single_whitespace(b"a  \t b"), b"a b");
    assert_eq!(to_single_whitespace(b"\ta\t"), b" a ");
    assert_eq!(to_single_whitespace(b"a\t\nb"), b"a \nb");
    assert_eq!(to_single_whitespace(b""), b"");
    assert_eq!(to_single_whitespace(b"   "), b" ");
    assert_eq!(to_single_whitespace(b"a b"), b"a b");
    assert_eq!(to_single_whitespace("\u{e9} \u{e9}".as_bytes()), "\u{e9} \u{e9}".as_bytes());
}

#[test]
fn split_cuts_at_every_separator() {
    let parts = |s: &'static [u8], sep: &[u8]| -> Vec<&'static [u8]> { split(s, sep) };
    assert_eq!(parts(b"a, b, c", b", "), vec![&b"a"[..], &b"b"[..], &b"c"[..]]);
    assert_eq!(parts(b"abc", b", "), vec![&b"abc"[..]]);
    assert_eq!(parts(b"", b", "), vec![&b""[..]]);
    assert_eq!(parts(b", ", b", "), vec![&b""[..], &b""[..]]);
    assert_eq!(parts(b"a,, b", b", "), vec![&b"a,"[..], &b"b"[..]]);
    assert_eq!(parts(b"1  2", b" "), vec![&b"1"[..], &b""[..], &b"2"[..]]);
    assert_eq!(parts(b"aaa", b"aa"), vec![&b""[..], &b"a"[..]]);
    assert_eq!(parts(b"abc", b""), vec![&b"abc"[..]]);
    assert_eq!(parts(b"a\nb\n", b"\n"), vec![&b"a"[..], &b"b"[..], &b""[..]]);
}

#[test]
fn trim_drops_white_space_at_the_ends() {
    assert_eq!(trim(b"  a b \r\n"), b"a b");
    assert_eq!(trim(b"a"), b"a");
    assert_eq!(trim(b" \t "), b"");
    assert_eq!(trim(b""), b"");
    assert_eq!(trim(b"\x0b\x0ca\x0c"), b"a");
}

#[test]
fn numbers_are_decimal() {
    assert_eq!(parse_number(b"0"), Some(whole(0)));
    assert_eq!(parse_number(b"255"), Some(whole(255)));
    assert_eq!(parse_number(b"-20"), Some(whole(-20)));
    assert_eq!(parse_number(b"+4"), Some(whole(4)));
    assert_eq!(parse_number(b"0.5"), Some(raw(5_000_000_000_000)));
    assert_eq!(parse_number(b"-0.25"), Some(raw(-2_500_000_000_000)));
    assert_eq!(parse_number(b".5"), Some(raw(5_000_000_000_000)));
    assert_eq!(parse_number(b"5."), Some(whole(5)));
    assert_eq!(parse_number(b"-10004."), Some(whole(-10004)));
    assert_eq!(parse_number(b"0.000000001"), Some(raw(10_000)));
    assert_eq!(parse_number(b"0.0000000000001"), Some(raw(1)));
    assert_eq!(parse_number(b"0.00000000000019"), Some(raw(1)));
    assert_eq!(parse_number(b"-0.00000000000019"), Some(raw(-1)));
    assert_eq!(parse_number(b"0.00000000000009"), Some(raw(0)));
    assert_eq!(parse_number(b"1.1234567891234567"), Some(raw(11_234_567_891_234)));
    assert_eq!(parse_number(b"007"), Some(whole(7)));
    assert_eq!(parse_number(b"-0"), Some(whole(0)));
}

#[test]
fn numbers_with_an_exponent() {
    assert_eq!(parse_number(b"1e5"), Some(whole(100_000)));
    assert_eq!(parse_number(b"1E5"), Some(whole(100_000)));
    assert_eq!(parse_number(b"1e+5"), Some(whole(100_000)));
    assert_eq!(parse_number(b"1e0005"), Some(whole(100_000)));
    assert_eq!(parse_number(b"1.5e2"), Some(whole(150)));
    assert_eq!(parse_number(b"-2.5E+1"), Some(whole(-25)));
    assert_eq!(parse_number(b".5e1"), Some(whole(5)));
    assert_eq!(parse_number(b"5.e0"), Some(whole(5)));
    assert_eq!(parse_number(b"1e-3"), Some(raw(10_000_000_000)));
    assert_eq!(parse_number(b"123456789e-9"), Some(raw(1_234_567_890_000)));
    assert_eq!(parse_number(b"-123456789e-10"), Some(raw(-123_456_789_000)));
    assert_eq!(parse_number(b"-123456789e-15"), Some(raw(-1_234_567)));
    assert_eq!(parse_number(b"0.000000001e9"), Some(whole(1)));
    assert_eq!(parse_number(b"0.0000000000000000001e19"), Some(whole(1)));
    assert_eq!(
        parse_number(b"12345678901234567890123456789e-24"),
        Some(raw(123_456_789_012_345_678))
    );
    assert_eq!(parse_number(b"1e-13"), Some(raw(1)));
    assert_eq!(parse_number(b"9e-14"), Some(raw(0)));
    assert_eq!(parse_number(b"1e-14"), Some(raw(0)));
    assert_eq!(parse_number(b"9.22337e5"), Some(raw(9_223_370_000_000_000_000)));
    assert_eq!(parse_number(b"1e6"), Some(raw(i64::MAX)));
    assert_eq!(parse_number(b"-1e30"), Some(raw(i64::MIN)));
    assert_eq!(parse_number(b"0e5"), Some(whole(0)));
    assert_eq!(parse_number(b"-0.000e5"), Some(whole(0)));
    let many = "9".repeat(60);
    assert_eq!(parse_number(format!("0e{}", many).as_bytes()), Some(whole(0)));
    assert_eq!(parse_number(format!("0.000e{}", many).as_bytes()), Some(whole(0)));
    assert_eq!(parse_number(format!("1e{}", many).as_bytes()), Some(raw(i64::MAX)));
    assert_eq!(parse_number(format!("-0.001e{}", many).as_bytes()), Some(raw(i64::MIN)));
    assert_eq!(parse_number(format!("1e-{}", many).as_bytes()), Some(whole(0)));
    assert_eq!(parse_number(format!("{}e-{}", many, many).as_bytes()), Some(whole(0)));
    assert_eq!(parse_number(format!("{}e-60", many).as_bytes()), Some(raw(9_999_999_999_999)));
    assert_eq!(
        parse_number(format!("{}e-55", many).as_bytes()),
        Some(raw(999_999_999_999_999_999))
    );
    assert_eq!(parse_number(format!("{}e-54", many).as_bytes()), Some(raw(i64::MAX)));
}

#[test]
fn numbers_saturate() {
    assert_eq!(parse_number(b"922337.2036854775807"), Some(raw(i64::MAX)));
    assert_eq!(parse_number(b"922337.2036854775808"), Some(raw(i64::MAX)));
    assert_eq!(parse_number(b"-922337.2036854775808"), Some(raw(i64::MIN)));
    assert_eq!(parse_number(b"-922337.2036854775809"), Some(raw(i64::MIN)));
    assert_eq!(parse_number(b"922338"), Some(raw(i64::MAX)));
    assert_eq!(parse_number(b"99999999999999999999"), Some(raw(i64::MAX)));
    assert_eq!(parse_number(b"100000000000000000000"), Some(raw(i64::MAX)));
    assert_eq!(
        parse_number(b"-123456789012345678901234567890123456789012345678901234567890"),
        Some(raw(i64::MIN))
    );
    assert_eq!(parse_number(b"922337.2036854775806"), Some(raw(i64::MAX - 1)));
}

#[test]
fn what_is_no_number() {
    for s in [
        &b""[..],
        b"-",
        b"+",
        b".",
        b"-.",
        b"a",
        b"1a",
        b"1 ",
        b" 1",
        b"1.2.3",
        b"1..2",
        b"--1",
        b"+-1",
        b"1e",
        b"1e+",
        b"1e-",
        b"e5",
        b".e5",
        b"1e5.0",
        b"1e 5",
        b"1e5e5",
        b"1f5",
        b"0x10",
        b"inf",
        b"infinity",
        b"nan",
        b"1,",
        b"1.5-",
        b"\xc3\xa9",
    ] {
        assert_eq!(parse_number(s), None);
    }
}

#[test]
fn points_and_colours() {
    assert_eq!(parse_vector(b"0 -10004 -20"), Some(vector(0, -10004, -20)));
    assert_eq!(
        parse_vector(b"0.5 1.25 -3"),
        Some(Vec3::new(raw(5_000_000_000_000), raw(12_500_000_000_000), whole(-3)))
    );
    assert_eq!(parse_vector(b"1 2"), None);
    assert_eq!(parse_vector(b"1 2 3 4"), None);
    assert_eq!(parse_vector(b"1  2 3"), None);
    assert_eq!(parse_vector(b"1 2 x"), None);
    assert_eq!(parse_vector(b""), None);
    assert_eq!(parse_vector(b"1 2 3\r"), Some(vector(1, 2, 3)));
    assert_eq!(
        parse_vector(b"1e1 -2e0 3e-1"),
        Some(Vec3::new(whole(10), whole(-2), raw(3_000_000_000_000)))
    );
    let fifth = raw(2_000_000_000_000);
    assert_eq!(parse_color(b"255 0 51"), Some(Vec3::new(whole(1), whole(0), fifth)));
    assert_eq!(parse_color(b"128 128 128").unwrap().x, raw(5_019_607_843_137));
    assert_eq!(parse_color(b"255 0"), None);
}

fn sphere_line() -> Object {
    Object::new(
        Vec3::new(whole(1), raw(2_000_000_000_000), whole(0)),
        vector(0, 0, 0),
        raw(9_000_000_000_000),
        raw(5_000_000_000_000),
        Solid::Sphere(Sphere::new(vector(0, 0, -20), whole(4))),
    )
}

#[test]
fn a_line_holds_an_object() {
    assert_eq!(
        parse_line(b"255 51 0, 0 0 0, 0.9, 0.5, sphere, 0 0 -20 4"),
        Ok(Some(sphere_line()))
    );
    assert_eq!(
        parse_line(b"  255 51 0, 0 0 0, 0.9, 0.5, sphere, 0 0 -20 4 \r"),
        Ok(Some(sphere_line()))
    );
    let triangle = Triangle::new(vector(5, -3, -15), vector(-3, -3, -10), vector(1, -3, -18));
    assert_eq!(
        parse_line(b"0 0 0, 255 255 255, 1, 0, triangle, 5 -3 -15, -3 -3 -10, 1 -3 -18"),
        Ok(Some(Object::new(
            vector(0, 0, 0),
            vector(1, 1, 1),
            whole(1),
            whole(0),
            Solid::Triangle(triangle),
        )))
    );
    let rectangle = Rectangle::new(
        vector(-5, -5, -10),
        vector(5, -5, -10),
        vector(-5, 5, -10),
        vector(5, 5, -10),
    );
    assert_eq!(
        parse_line(b"0 0 0, 0 0 0, 0, 0, rectangle, -5 -5 -10, 5 -5 -10, -5 5 -10, 5 5 -10"),
        Ok(Some(Object::new(
            vector(0, 0, 0),
            vector(0, 0, 0),
            whole(0),
            whole(0),
            Solid::Rectangle(rectangle),
        )))
    );
}

#[test]
fn silent_lines() {
    assert_eq!(parse_line(b""), Ok(None));
    assert_eq!(parse_line(b"   "), Ok(None));
    assert_eq!(parse_line(b"// a comment"), Ok(None));
    assert_eq!(parse_line(b"  //, , , , sphere"), Ok(None));
    assert_eq!(parse_line(b"/ not a comment"), Err(Fault::Malformed));
}

#[test]
fn faults_in_a_line() {
    assert_eq!(parse_line(b"1 2 3, 1 2 3, 0, 0"), Err(Fault::Malformed));
    assert_eq!(parse_line(b"sphere"), Err(Fault::Malformed));
    assert_eq!(parse_line(b"1 2, 1 2 3, 0, 0, sphere, 0 0 0 1"), Err(Fault::Color));
    assert_eq!(parse_line(b"1 2 3, red, 0, 0, sphere, 0 0 0 1"), Err(Fault::Color));
    assert_eq!(parse_line(b"1 2 3, 1 2 3, x, 0, sphere, 0 0 0 1"), Err(Fault::Reflection));
    assert_eq!(parse_line(b"1 2 3, 1 2 3, 0, , sphere, 0 0 0 1"), Err(Fault::Transparency));
    assert_eq!(parse_line(b"1 2 3, 1 2 3, 0, 0, sphere"), Err(Fault::Sphere));
    assert_eq!(parse_line(b"1 2 3, 1 2 3, 0, 0, sphere, 0 0 0"), Err(Fault::Sphere));
    assert_eq!(parse_line(b"1 2 3, 1 2 3, 0, 0, sphere, 0 0 0, 1"), Err(Fault::Sphere));
    assert_eq!(parse_line(b"1 2 3, 1 2 3, 0, 0, sphere, 0 0 0 r"), Err(Fault::Sphere));
    assert_eq!(
        parse_line(b"1 2 3, 1 2 3, 0, 0, triangle, 0 0 0, 1 1 1"),
        Err(Fault::Triangle)
    );
    assert_eq!(
        parse_line(b"1 2 3, 1 2 3, 0, 0, triangle, 0 0 0, 1 1 1, 2 2"),
        Err(Fault::Triangle)
    );
    assert_eq!(
        parse_line(b"1 2 3, 1 2 3, 0, 0, rectangle, 0 0 0, 1 1 1, 2 2 2"),
        Err(Fault::Rectangle)
    );
    assert_eq!(
        parse_line(b"1 2 3, 1 2 3, 0, 0, rectangle, 0 0 0, 1 1 1, 2 2 2, 3 3 3, 4 4 4"),
        Err(Fault::Rectangle)
    );
    assert_eq!(parse_line(b"1 2 3, 1 2 3, 0, 0, cube, 0 0 0 1"), Err(Fault::UnknownShape));
    assert_eq!(parse_line(b"1 2 3, 1 2 3, 0, 0, Sphere, 0 0 0 1"), Err(Fault::UnknownShape));
    assert_eq!(parse_line(b"1 2 3, 1 2 3, 0, 0, , 0 0 0 1"), Err(Fault::UnknownShape));
    // the space at the end of the line is trimmed away, and the comma with it
    // ends the fourth field
    assert_eq!(parse_line(b"1 2 3, 1 2 3, 0, 0, "), Err(Fault::Malformed));
    // the first fault in the line is told
    assert_eq!(parse_line(b"1 2, 1 2 3, x, y, cube"), Err(Fault::Color));
    assert_eq!(parse_line(b"1 2 3, 1 2 3, x, y, cube"), Err(Fault::Reflection));
}

#[test]
fn a_text_holds_a_scene() {
    let text = "// two balls and a sheet\n\
                255 51 0,\t0 0 0,   0.9, 0.5, sphere, 0 0 -20 4\n\
                \n\
                   \t  \n\
                0 0 0, 255 255 255, 1, 0, triangle, 5 -3 -15, -3 -3 -10, 1 -3 -18\r\n\
                // the end\n";
    let scene = Object::vec_from_str(text).unwrap();
    assert_eq!(scene.len(), 2);
    assert_eq!(scene[0], sphere_line());
    assert_eq!(scene[1].emission_color, vector(1, 1, 1));
    assert_eq!(scene[1].pos, vector(5, -3, -15));
    assert_eq!(parse_scene(text.as_bytes()), Ok(scene));
    assert_eq!(Object::vec_from_str(""), Ok(vec![]));
    assert_eq!(Object::vec_from_str("\n\n// nothing\n"), Ok(vec![]));
}

#[test]
fn a_fault_comes_with_its_line() {
    assert_eq!(
        fault_of("1 2 3, 1 2 3, 0, 0"),
        SceneError { line: 1, fault: Fault::Malformed }
    );
    let text = "// first\n\
                255 51 0, 0 0 0, 0.9, 0.5, sphere, 0 0 -20 4\n\
                \n\
                255 51 0, 0 0 0, 0.9, 0.5, cube, 0 0 -20 4\n\
                broken\n";
    assert_eq!(fault_of(text), SceneError { line: 4, fault: Fault::UnknownShape });
    assert_eq!(
        fault_of("\n\n0 0 0, 0 0, 0, 0, sphere, 0 0 0 1"),
        SceneError { line: 3, fault: Fault::Color }
    );
    assert_eq!(
        fault_of("0 0 0, 0 0 0, 0, 0, sphere, 0 0 0 1\n0 0 0, 0 0 0, 0, zero, sphere, 0 0 0 1"),
        SceneError { line: 2, fault: Fault::Transparency }
    );
    assert_eq!(
        fault_of("0 0 0, 0 0 0, half, 0, sphere, 0 0 0 1"),
        SceneError { line: 1, fault: Fault::Reflection }
    );
    assert_eq!(
        fault_of("0 0 0, 0 0 0, 0, 0, sphere, 0 0 0"),
        SceneError { line: 1, fault: Fault::Sphere }
    );
    assert_eq!(
        fault_of("0 0 0, 0 0 0, 0, 0, triangle, 0 0 0"),
        SceneError { line: 1, fault: Fault::Triangle }
    );
    assert_eq!(
        fault_of("0 0 0, 0 0 0, 0, 0, rectangle, 0 0 0"),
        SceneError { line: 1, fault: Fault::Rectangle }
    );
}

#[test]
fn html_colours() {
    let red = Vec3::new(whole(1), whole(0), raw(2_000_000_000_000));
    assert_eq!(html_color_to_vec3("#ff0033"), Ok(red));
    assert_eq!(html_color_to_vec3("#FF0033"), Ok(red));
    assert_eq!(html_color_to_vec3("#000000"), Ok(vector(0, 0, 0)));
    assert_eq!(html_color_to_vec3("#ffffff and more"), Ok(vector(1, 1, 1)));
    assert_eq!(
        html_color_to_vec3("#0180fe"),
        Ok(Vec3::new(raw(39_215_686_274), raw(5_019_607_843_137), raw(9_960_784_313_725)))
    );
    assert_eq!(html_color_to_vec3("#ff003"), Err(()));
    assert_eq!(html_color_to_vec3("ff00330"), Err(()));
    assert_eq!(html_color_to_vec3("#ff00g3"), Err(()));
    assert_eq!(html_color_to_vec3("#+f0033"), Err(()));
    assert_eq!(html_color_to_vec3(""), Err(()));
    assert_eq!(html_color_to_vec3("#\u{e9}\u{e9}\u{e9}"), Err(()));
}
