//! Pictures as bytes: eight bits for each channel, and the PNG stream.

use crate::scalar::{Scalar, UNIT};
use crate::vec3::Vec3;
use vstd::prelude::*;

verus! {

/// Why a picture could not be encoded.
#[derive(Clone, Copy, Debug, PartialEq, Eq)]
pub enum ImageError {
    /// The picture is wider than `MAX_WIDTH` or higher than `MAX_HEIGHT`.
    TooLarge,
    /// The picture does not hold width times height pixels.
    SizeMismatch,
    /// The encoder refused the picture.
    Encoder,
}

/// The byte for a channel: the channel held between zero and one, times 255,
/// rounded to the nearest whole number.
pub open spec fn channel_byte_spec(c: Scalar) -> u8 {
    if c.raw <= 0 {
        0u8
    } else if c.raw >= UNIT {
        255u8
    } else {
        ((c.raw * 255 + UNIT / 2) / (UNIT as int)) as u8
    }
}

/// The byte for a channel.
pub fn channel_byte(c: Scalar) -> (b: u8)
    ensures
        b == channel_byte_spec(c),
{
    if c.raw <= 0 {
        0
    } else if c.raw >= UNIT {
        255
    } else {
        ((c.raw * 255 + UNIT / 2) / UNIT) as u8
    }
}

/// The byte at index `k` of a picture's bytes: the channels of the pixels
/// follow each other, red, green and blue.
pub open spec fn byte_at(img: Seq<Vec3<Scalar>>, k: int) -> u8 {
    let pixel = img[k / 3];
    if k % 3 == 0 {
        channel_byte_spec(pixel.x)
    } else if k % 3 == 1 {
        channel_byte_spec(pixel.y)
    } else {
        channel_byte_spec(pixel.z)
    }
}

/// The bytes of a picture: three for each pixel.
pub open spec fn rgb_bytes_spec(img: Seq<Vec3<Scalar>>) -> Seq<u8> {
    Seq::new(3 * img.len(), |k: int| byte_at(img, k))
}

/// The bytes of a picture, three for each pixel.
pub fn to_rgb_bytes(img: &Vec<Vec3<Scalar>>) -> (bytes: Vec<u8>)
    ensures
        bytes@ == rgb_bytes_spec(img@),
{
    let mut bytes: Vec<u8> = Vec::new();
    let mut i: usize = 0;
    while i < img.len()
        invariant
            i <= img.len(),
            bytes@.len() == 3 * i,
            forall|k: int| 0 <= k < 3 * i ==> bytes@[k] == byte_at(img@, k),
        decreases img.len() - i,
    {
        let pixel = img[i];
        bytes.push(channel_byte(pixel.x));
        bytes.push(channel_byte(pixel.y));
        bytes.push(channel_byte(pixel.z));
        i = i + 1;
    }
    assert(bytes@ =~= rgb_bytes_spec(img@));
    bytes
}

/// What `png` hands back where it refuses a picture.
#[verifier::external_type_specification]
#[verifier::external_body]
pub struct ExEncodingError(png::EncodingError);

/// The PNG stream of a picture of `width` by `height` pixels with three
/// channels of eight bits, whose bytes are `rgb`.
pub uninterp spec fn png_stream(width: u32, height: u32, rgb: Seq<u8>) -> Seq<u8>;

/// The widest picture that is encoded: a row of it, with eight bytes to
/// spare, is counted in 32 bits.
pub const MAX_WIDTH: usize = 1_431_655_762;

/// The highest picture that is encoded.
pub const MAX_HEIGHT: usize = 0xffff_ffff;

/// Encodes with `png::Encoder`: a header for three channels of eight bits,
/// then the picture's bytes as the only frame, written to memory. The encoder
/// refuses a picture without width or height, and no other whose bytes are
/// as many as its size asks for. The stream that comes back is a function of
/// the size and the bytes.
#[verifier::external_body]
fn encode_rgb(width: u32, height: u32, rgb: &[u8]) -> (r: Result<Vec<u8>, png::EncodingError>)
    requires
        width <= MAX_WIDTH,
        rgb@.len() == 3 * width * height,
    ensures
        width > 0 && height > 0 ==> r is Ok,
        width == 0 || height == 0 ==> r is Err,
        r matches Ok(stream) ==> stream@ == png_stream(width, height, rgb@),
{
    let mut out = Vec::new();
    let mut encoder = png::Encoder::new(&mut out, width, height);
    encoder.set_color(png::ColorType::Rgb);
    encoder.set_depth(png::BitDepth::Eight);
    let mut writer = encoder.write_header()?;
    writer.write_image_data(rgb)?;
    writer.finish()?;
    Ok(out)
}

/// What the library hands out for what the encoder handed back.
pub fn encoded(outcome: Result<Vec<u8>, png::EncodingError>) -> (r: Result<Vec<u8>, ImageError>)
    ensures
        match outcome {
            Ok(stream) => r == Ok::<Vec<u8>, ImageError>(stream),
            Err(_) => r == Err::<Vec<u8>, ImageError>(ImageError::Encoder),
        },
{
    match outcome {
        Ok(stream) => Ok(stream),
        Err(_) => Err(ImageError::Encoder),
    }
}

/// The picture has a size that is encoded, and as many pixels as the size
/// asks for.
pub open spec fn well_formed(width: usize, height: usize, img: Seq<Vec3<Scalar>>) -> bool {
    width <= MAX_WIDTH && height <= MAX_HEIGHT && img.len() == width * height
}

/// The PNG stream of a picture of `width` by `height` pixels, stored row
/// after row. A picture that is too large or has not the pixels of its size
/// is refused; of the others the encoder refuses those without a pixel, and
/// no other.
pub fn encode_image(width: usize, height: usize, img: &Vec<Vec3<Scalar>>) -> (r: Result<
    Vec<u8>,
    ImageError,
>)
    ensures
        r is Ok <==> well_formed(width, height, img@) && width > 0 && height > 0,
        r matches Ok(stream) ==> stream@ == png_stream(
            width as u32,
            height as u32,
            rgb_bytes_spec(img@),
        ),
        r matches Err(e) ==> e == (if width > MAX_WIDTH || height > MAX_HEIGHT {
            ImageError::TooLarge
        } else if img@.len() != width * height {
            ImageError::SizeMismatch
        } else {
            ImageError::Encoder
        }),
{
    if width > MAX_WIDTH || height > MAX_HEIGHT {
        return Err(ImageError::TooLarge);
    }
    assert(width * height <= 0xffff_ffff * 0xffff_ffff) by (nonlinear_arith)
        requires
            width <= 0xffff_ffff,
            height <= 0xffff_ffff,
    ;
    let cells: u128 = (width as u128) * (height as u128);
    if img.len() as u128 != cells {
        return Err(ImageError::SizeMismatch);
    }
    let bytes = to_rgb_bytes(img);
    assert(3 * width * height == 3 * (width * height)) by (nonlinear_arith);
    encoded(encode_rgb(width as u32, height as u32, bytes.as_slice()))
}

} // verus!
