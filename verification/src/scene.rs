//! Scene descriptions: one object per line, as text.
//!
//! A line holds the fields of an object, separated by a comma and a space:
//! the surface colour, the emission colour, the reflection, the
//! transparency, the kind of shape, and what the shape needs. A colour is
//! three numbers from 0 to 255, a point three numbers, each separated by a
//! space. A sphere needs one field, its centre and its radius; a triangle
//! three points; a rectangle four. Empty lines, and lines that begin with two
//! slashes, say nothing.

use crate::scalar::Scalar;
use crate::solids::rectangle::Rectangle;
use crate::solids::sphere::Sphere;
use crate::solids::triangle::Triangle;
use crate::solids::{Object, Solid};
use crate::text::{
    parse_number, parse_number_spec, same_bytes, split, split_spec, to_single_whitespace,
    to_single_whitespace_spec, trim, trim_spec, views, COMMA, NEWLINE, SLASH, SPACE,
};
use crate::vec3::Vec3;
use vstd::prelude::*;
use vstd::string::StringSliceAdditionalSpecFns;

verus! {

/// What is wrong with a line.
#[derive(Clone, Copy, Debug, PartialEq, Eq)]
pub enum Fault {
    /// The line has fewer than five fields.
    Malformed,
    /// A colour is not three numbers.
    Color,
    /// The reflection is no number.
    Reflection,
    /// The transparency is no number.
    Transparency,
    /// A sphere does not have a centre and a radius.
    Sphere,
    /// A triangle does not have three corners.
    Triangle,
    /// A rectangle does not have four corners.
    Rectangle,
    /// The kind of shape is none of those that exist.
    UnknownShape,
}

/// A fault, with the number of the line that holds it, counted from one.
#[derive(Clone, Copy, Debug, PartialEq, Eq)]
pub struct SceneError {
    pub line: usize,
    pub fault: Fault,
}

/// The separator of the fields of a line.
pub open spec fn field_separator() -> Seq<u8> {
    seq![COMMA, SPACE]
}

/// The separator of the numbers of a point.
pub open spec fn number_separator() -> Seq<u8> {
    seq![SPACE]
}

/// The separator of lines.
pub open spec fn line_separator() -> Seq<u8> {
    seq![NEWLINE]
}

/// The word `sphere`.
pub open spec fn sphere_word() -> Seq<u8> {
    seq![115u8, 112u8, 104u8, 101u8, 114u8, 101u8]
}

/// The word `triangle`.
pub open spec fn triangle_word() -> Seq<u8> {
    seq![116u8, 114u8, 105u8, 97u8, 110u8, 103u8, 108u8, 101u8]
}

/// The word `rectangle`.
pub open spec fn rectangle_word() -> Seq<u8> {
    seq![114u8, 101u8, 99u8, 116u8, 97u8, 110u8, 103u8, 108u8, 101u8]
}

/// The number that a piece of a field spells, white space at its ends
/// aside.
pub open spec fn piece_spec(s: Seq<u8>) -> Option<Scalar> {
    parse_number_spec(trim_spec(s))
}

/// The point that a field spells: three numbers.
pub open spec fn parse_vector_spec(s: Seq<u8>) -> Option<Vec3<Scalar>> {
    let parts = split_spec(s, number_separator());
    if parts.len() == 3 && piece_spec(parts[0]) is Some && piece_spec(parts[1]) is Some
        && piece_spec(parts[2]) is Some {
        Some(
            Vec3 {
                x: piece_spec(parts[0])->0,
                y: piece_spec(parts[1])->0,
                z: piece_spec(parts[2])->0,
            },
        )
    } else {
        None
    }
}

/// The colour that a field spells: three numbers, each divided by 255.
pub open spec fn parse_color_spec(s: Seq<u8>) -> Option<Vec3<Scalar>> {
    match parse_vector_spec(s) {
        Some(v) => Some(
            Vec3 {
                x: v.x.over(Scalar::from_int_spec(255)),
                y: v.y.over(Scalar::from_int_spec(255)),
                z: v.z.over(Scalar::from_int_spec(255)),
            },
        ),
        None => None,
    }
}

/// The sphere that the fields after the fifth spell: one field of four
/// numbers, the centre and the radius.
pub open spec fn parse_sphere_spec(fields: Seq<Seq<u8>>) -> Option<Sphere> {
    if fields.len() == 6 {
        let parts = split_spec(fields[5], number_separator());
        if parts.len() == 4 && piece_spec(parts[0]) is Some && piece_spec(parts[1]) is Some
            && piece_spec(parts[2]) is Some && piece_spec(parts[3]) is Some {
            Some(
                Sphere::new_spec(
                    Vec3 {
                        x: piece_spec(parts[0])->0,
                        y: piece_spec(parts[1])->0,
                        z: piece_spec(parts[2])->0,
                    },
                    piece_spec(parts[3])->0,
                ),
            )
        } else {
            None
        }
    } else {
        None
    }
}

/// The triangle that the fields after the fifth spell: three points.
pub open spec fn parse_triangle_spec(fields: Seq<Seq<u8>>) -> Option<Triangle> {
    if fields.len() == 8 && parse_vector_spec(fields[5]) is Some && parse_vector_spec(
        fields[6],
    ) is Some && parse_vector_spec(fields[7]) is Some {
        Some(
            Triangle::new_spec(
                parse_vector_spec(fields[5])->0,
                parse_vector_spec(fields[6])->0,
                parse_vector_spec(fields[7])->0,
            ),
        )
    } else {
        None
    }
}

/// The rectangle that the fields after the fifth spell: four points.
pub open spec fn parse_rectangle_spec(fields: Seq<Seq<u8>>) -> Option<Rectangle> {
    if fields.len() == 9 && parse_vector_spec(fields[5]) is Some && parse_vector_spec(
        fields[6],
    ) is Some && parse_vector_spec(fields[7]) is Some && parse_vector_spec(fields[8]) is Some {
        Some(
            Rectangle::new_spec(
                parse_vector_spec(fields[5])->0,
                parse_vector_spec(fields[6])->0,
                parse_vector_spec(fields[7])->0,
                parse_vector_spec(fields[8])->0,
            ),
        )
    } else {
        None
    }
}

/// The shape that the fields of a line spell, from the fifth on.
pub open spec fn parse_solid_spec(fields: Seq<Seq<u8>>) -> Result<Solid, Fault> {
    if fields[4] == sphere_word() {
        match parse_sphere_spec(fields) {
            Some(s) => Ok(Solid::Sphere(s)),
            None => Err(Fault::Sphere),
        }
    } else if fields[4] == triangle_word() {
        match parse_triangle_spec(fields) {
            Some(t) => Ok(Solid::Triangle(t)),
            None => Err(Fault::Triangle),
        }
    } else if fields[4] == rectangle_word() {
        match parse_rectangle_spec(fields) {
            Some(r) => Ok(Solid::Rectangle(r)),
            None => Err(Fault::Rectangle),
        }
    } else {
        Err(Fault::UnknownShape)
    }
}

/// The line says nothing: it is empty or a comment.
pub open spec fn is_silent(line: Seq<u8>) -> bool {
    line.len() == 0 || (line.len() >= 2 && line[0] == SLASH && line[1] == SLASH)
}

/// The object that a line spells, none where the line says nothing, or the
/// first fault in the line.
#[verifier::opaque]
pub open spec fn parse_line_spec(line: Seq<u8>) -> Result<Option<Object>, Fault> {
    let t = trim_spec(line);
    let fields = split_spec(t, field_separator());
    if is_silent(t) {
        Ok(None)
    } else if fields.len() < 5 {
        Err(Fault::Malformed)
    } else if parse_color_spec(fields[0]) is None || parse_color_spec(fields[1]) is None {
        Err(Fault::Color)
    } else if parse_number_spec(fields[2]) is None {
        Err(Fault::Reflection)
    } else if parse_number_spec(fields[3]) is None {
        Err(Fault::Transparency)
    } else {
        match parse_solid_spec(fields) {
            Err(fault) => Err(fault),
            Ok(solid) => Ok(
                Some(
                    Object::new_spec(
                        parse_color_spec(fields[0])->0,
                        parse_color_spec(fields[1])->0,
                        parse_number_spec(fields[2])->0,
                        parse_number_spec(fields[3])->0,
                        solid,
                    ),
                ),
            ),
        }
    }
}

/// The objects that the first `n` lines spell, in their order, or the
/// first fault among them with the number of its line.
pub open spec fn objects_upto(lines: Seq<Seq<u8>>, n: int) -> Result<Seq<Object>, SceneError>
    decreases n,
{
    if n <= 0 {
        Ok(Seq::empty())
    } else {
        match objects_upto(lines, n - 1) {
            Err(e) => Err(e),
            Ok(objects) => match parse_line_spec(lines[n - 1]) {
                Err(fault) => Err(SceneError { line: n as usize, fault }),
                Ok(None) => Ok(objects),
                Ok(Some(object)) => Ok(objects.push(object)),
            },
        }
    }
}

/// The scene that a text spells: its lines are taken after every run of
/// blanks has become one space.
pub open spec fn parse_scene_spec(text: Seq<u8>) -> Result<Seq<Object>, SceneError> {
    let lines = split_spec(to_single_whitespace_spec(text), line_separator());
    objects_upto(lines, lines.len() as int)
}

fn parse_piece(s: &[u8]) -> (r: Option<Scalar>)
    ensures
        r == piece_spec(s@),
{
    parse_number(trim(s))
}

/// Reads a point: three numbers separated by single spaces.
pub fn parse_vector(s: &[u8]) -> (r: Option<Vec3<Scalar>>)
    ensures
        r == parse_vector_spec(s@),
{
    let sep: Vec<u8> = vec![SPACE];
    let parts = split(s, sep.as_slice());
    assert(sep@ =~= number_separator());
    if parts.len() != 3 {
        return None;
    }
    assert(views(parts@)[0] == parts@[0]@ && views(parts@)[1] == parts@[1]@ && views(parts@)[2]
        == parts@[2]@);
    let x = match parse_piece(parts[0]) {
        Some(v) => v,
        None => {
            return None;
        },
    };
    let y = match parse_piece(parts[1]) {
        Some(v) => v,
        None => {
            return None;
        },
    };
    let z = match parse_piece(parts[2]) {
        Some(v) => v,
        None => {
            return None;
        },
    };
    Some(Vec3::new(x, y, z))
}

/// Reads a colour: three numbers from 0 to 255.
pub fn parse_color(s: &[u8]) -> (r: Option<Vec3<Scalar>>)
    ensures
        r == parse_color_spec(s@),
{
    match parse_vector(s) {
        Some(v) => {
            let full = Scalar::from_int(255);
            Some(Vec3::new(v.x / full, v.y / full, v.z / full))
        },
        None => None,
    }
}

fn parse_sphere(fields: &Vec<&[u8]>) -> (r: Option<Sphere>)
    ensures
        r == parse_sphere_spec(views(fields@)),
{
    if fields.len() != 6 {
        return None;
    }
    assert(views(fields@)[5] == fields@[5]@);
    let sep: Vec<u8> = vec![SPACE];
    let parts = split(fields[5], sep.as_slice());
    assert(sep@ =~= number_separator());
    if parts.len() != 4 {
        return None;
    }
    assert(views(parts@)[0] == parts@[0]@ && views(parts@)[1] == parts@[1]@ && views(parts@)[2]
        == parts@[2]@ && views(parts@)[3] == parts@[3]@);
    let x = match parse_piece(parts[0]) {
        Some(v) => v,
        None => {
            return None;
        },
    };
    let y = match parse_piece(parts[1]) {
        Some(v) => v,
        None => {
            return None;
        },
    };
    let z = match parse_piece(parts[2]) {
        Some(v) => v,
        None => {
            return None;
        },
    };
    let radius = match parse_piece(parts[3]) {
        Some(v) => v,
        None => {
            return None;
        },
    };
    Some(Sphere::new(Vec3::new(x, y, z), radius))
}

fn parse_triangle(fields: &Vec<&[u8]>) -> (r: Option<Triangle>)
    ensures
        r == parse_triangle_spec(views(fields@)),
{
    if fields.len() != 8 {
        return None;
    }
    assert(views(fields@)[5] == fields@[5]@ && views(fields@)[6] == fields@[6]@ && views(
        fields@,
    )[7] == fields@[7]@);
    let p0 = match parse_vector(fields[5]) {
        Some(v) => v,
        None => {
            return None;
        },
    };
    let p1 = match parse_vector(fields[6]) {
        Some(v) => v,
        None => {
            return None;
        },
    };
    let p2 = match parse_vector(fields[7]) {
        Some(v) => v,
        None => {
            return None;
        },
    };
    Some(Triangle::new(p0, p1, p2))
}

fn parse_rectangle(fields: &Vec<&[u8]>) -> (r: Option<Rectangle>)
    ensures
        r == parse_rectangle_spec(views(fields@)),
{
    if fields.len() != 9 {
        return None;
    }
    assert(views(fields@)[5] == fields@[5]@ && views(fields@)[6] == fields@[6]@ && views(
        fields@,
    )[7] == fields@[7]@ && views(fields@)[8] == fields@[8]@);
    let p0 = match parse_vector(fields[5]) {
        Some(v) => v,
        None => {
            return None;
        },
    };
    let p1 = match parse_vector(fields[6]) {
        Some(v) => v,
        None => {
            return None;
        },
    };
    let p2 = match parse_vector(fields[7]) {
        Some(v) => v,
        None => {
            return None;
        },
    };
    let p3 = match parse_vector(fields[8]) {
        Some(v) => v,
        None => {
            return None;
        },
    };
    Some(Rectangle::new(p0, p1, p2, p3))
}

fn parse_solid(fields: &Vec<&[u8]>) -> (r: Result<Solid, Fault>)
    requires
        fields.len() >= 5,
    ensures
        r == parse_solid_spec(views(fields@)),
{
    let sphere: Vec<u8> = vec![115u8, 112u8, 104u8, 101u8, 114u8, 101u8];
    let triangle: Vec<u8> = vec![116u8, 114u8, 105u8, 97u8, 110u8, 103u8, 108u8, 101u8];
    let rectangle: Vec<u8> = vec![114u8, 101u8, 99u8, 116u8, 97u8, 110u8, 103u8, 108u8, 101u8];
    assert(sphere@ =~= sphere_word());
    assert(triangle@ =~= triangle_word());
    assert(rectangle@ =~= rectangle_word());
    assert(views(fields@)[4] == fields@[4]@);
    let word = fields[4];
    if same_bytes(word, sphere.as_slice()) {
        match parse_sphere(fields) {
            Some(s) => Ok(Solid::Sphere(s)),
            None => Err(Fault::Sphere),
        }
    } else if same_bytes(word, triangle.as_slice()) {
        match parse_triangle(fields) {
            Some(t) => Ok(Solid::Triangle(t)),
            None => Err(Fault::Triangle),
        }
    } else if same_bytes(word, rectangle.as_slice()) {
        match parse_rectangle(fields) {
            Some(r) => Ok(Solid::Rectangle(r)),
            None => Err(Fault::Rectangle),
        }
    } else {
        Err(Fault::UnknownShape)
    }
}

/// Reads one line of a scene.
pub fn parse_line(line: &[u8]) -> (r: Result<Option<Object>, Fault>)
    ensures
        r == parse_line_spec(line@),
{
    reveal(parse_line_spec);
    let t = trim(line);
    if t.len() == 0 || (t.len() >= 2 && t[0] == SLASH && t[1] == SLASH) {
        return Ok(None);
    }
    let sep: Vec<u8> = vec![COMMA, SPACE];
    let fields = split(t, sep.as_slice());
    assert(sep@ =~= field_separator());
    if fields.len() < 5 {
        return Err(Fault::Malformed);
    }
    assert(views(fields@)[0] == fields@[0]@ && views(fields@)[1] == fields@[1]@ && views(
        fields@,
    )[2] == fields@[2]@ && views(fields@)[3] == fields@[3]@);
    let surface_color = match parse_color(fields[0]) {
        Some(c) => c,
        None => {
            return Err(Fault::Color);
        },
    };
    let emission_color = match parse_color(fields[1]) {
        Some(c) => c,
        None => {
            return Err(Fault::Color);
        },
    };
    let reflection = match parse_number(fields[2]) {
        Some(v) => v,
        None => {
            return Err(Fault::Reflection);
        },
    };
    let transparency = match parse_number(fields[3]) {
        Some(v) => v,
        None => {
            return Err(Fault::Transparency);
        },
    };
    match parse_solid(&fields) {
        Err(fault) => Err(fault),
        Ok(solid) => Ok(
            Some(Object::new(surface_color, emission_color, reflection, transparency, solid)),
        ),
    }
}

/// Once a line is at fault, the lines after it change nothing.
pub proof fn lemma_fault_stays(lines: Seq<Seq<u8>>, n: int, m: int)
    requires
        n <= m,
        objects_upto(lines, n) is Err,
    ensures
        objects_upto(lines, m) == objects_upto(lines, n),
    decreases m - n,
{
    if n < m {
        lemma_fault_stays(lines, n, m - 1);
    }
}

/// What a parser hands back agrees with what the text spells.
pub open spec fn agrees(
    r: Result<Vec<Object>, SceneError>,
    scene: Result<Seq<Object>, SceneError>,
) -> bool {
    match r {
        Ok(objects) => scene == Ok::<Seq<Object>, SceneError>(objects@),
        Err(e) => scene == Err::<Seq<Object>, SceneError>(e),
    }
}

/// Reads a scene from the bytes of a text.
pub fn parse_scene(text: &[u8]) -> (r: Result<Vec<Object>, SceneError>)
    ensures
        agrees(r, parse_scene_spec(text@)),
{
    let clean = to_single_whitespace(text);
    let sep: Vec<u8> = vec![NEWLINE];
    let lines = split(clean.as_slice(), sep.as_slice());
    assert(sep@ =~= line_separator());
    let ghost all = views(lines@);
    let mut objects: Vec<Object> = Vec::new();
    let mut n: usize = 0;
    while n < lines.len()
        invariant
            n <= lines.len(),
            all == views(lines@),
            all == split_spec(to_single_whitespace_spec(text@), line_separator()),
            objects_upto(all, n as int) == Ok::<Seq<Object>, SceneError>(objects@),
        decreases lines.len() - n,
    {
        assert(all[n as int] == lines@[n as int]@);
        match parse_line(lines[n]) {
            Err(fault) => {
                proof {
                    assert(objects_upto(all, n + 1) == Err::<Seq<Object>, SceneError>(
                        SceneError { line: (n + 1) as usize, fault },
                    ));
                    assert(all.len() == lines.len());
                    lemma_fault_stays(all, n + 1, lines.len() as int);
                }
                return Err(SceneError { line: n + 1, fault });
            },
            Ok(None) => {},
            Ok(Some(object)) => {
                objects.push(object);
            },
        }
        n = n + 1;
    }
    Ok(objects)
}

impl Object {
    /// The scene that a text spells.
    pub fn vec_from_str(file_str: &str) -> (r: Result<Vec<Object>, SceneError>)
        ensures
            agrees(r, parse_scene_spec(file_str.spec_bytes())),
    {
        parse_scene(file_str.as_bytes())
    }
}

/// The value of a hexadecimal digit.
pub open spec fn hex_digit_spec(b: u8) -> Option<u8> {
    if 48 <= b <= 57 {
        Some((b - 48) as u8)
    } else if 97 <= b <= 102 {
        Some((b - 87) as u8)
    } else if 65 <= b <= 70 {
        Some((b - 55) as u8)
    } else {
        None
    }
}

/// The channel that two hexadecimal digits spell, as a share of 255.
pub open spec fn hex_channel_spec(high: u8, low: u8) -> Option<Scalar> {
    match (hex_digit_spec(high), hex_digit_spec(low)) {
        (Some(h), Some(l)) => Some(Scalar::ratio_spec(16 * h + l, 255)),
        _ => None,
    }
}

/// The colour that a text like `#ff8000` spells: a number sign and three
/// pairs of hexadecimal digits; what follows them is not read.
pub open spec fn html_color_spec(s: Seq<u8>) -> Option<Vec3<Scalar>> {
    if s.len() >= 7 && s[0] == 35 && hex_channel_spec(s[1], s[2]) is Some && hex_channel_spec(
        s[3],
        s[4],
    ) is Some && hex_channel_spec(s[5], s[6]) is Some {
        Some(
            Vec3 {
                x: hex_channel_spec(s[1], s[2])->0,
                y: hex_channel_spec(s[3], s[4])->0,
                z: hex_channel_spec(s[5], s[6])->0,
            },
        )
    } else {
        None
    }
}

fn hex_digit(b: u8) -> (r: Option<u8>)
    ensures
        r == hex_digit_spec(b),
{
    if 48 <= b && b <= 57 {
        Some(b - 48)
    } else if 97 <= b && b <= 102 {
        Some(b - 87)
    } else if 65 <= b && b <= 70 {
        Some(b - 55)
    } else {
        None
    }
}

fn hex_channel(high: u8, low: u8) -> (r: Option<Scalar>)
    ensures
        r == hex_channel_spec(high, low),
{
    match (hex_digit(high), hex_digit(low)) {
        (Some(h), Some(l)) => Some(Scalar::ratio((16 * h + l) as i64, 255)),
        _ => None,
    }
}

/// Reads a colour written like `#ff8000`.
pub fn html_color_to_vec3(s: &str) -> (r: Result<Vec3<Scalar>, ()>)
    ensures
        match r {
            Ok(color) => html_color_spec(s.spec_bytes()) == Some(color),
            Err(_) => html_color_spec(s.spec_bytes()) is None,
        },
{
    let bytes = s.as_bytes();
    if bytes.len() < 7 || bytes[0] != 35 {
        return Err(());
    }
    match (
        hex_channel(bytes[1], bytes[2]),
        hex_channel(bytes[3], bytes[4]),
        hex_channel(bytes[5], bytes[6]),
    ) {
        (Some(r), Some(g), Some(b)) => Ok(Vec3::new(r, g, b)),
        _ => Err(()),
    }
}

} // verus!
