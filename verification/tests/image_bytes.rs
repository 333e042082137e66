use raytracer::image::{
    channel_byte, encode_image, encoded, to_rgb_bytes, ImageError, MAX_HEIGHT, MAX_WIDTH,
};
use raytracer::scalar::Scalar;
use raytracer::vec3::Vec3;

const UNIT: i64 = 10_000_000_000_000;

fn raw(n: i64) -> Scalar {
    Scalar { raw: n }
}

fn grey(n: i64) -> Vec3<Scalar> {
    Vec3::new(raw(n), raw(n), raw(n))
}

#[test]
fn a_channel_is_held_and_rounded() {
    assert_eq!(channel_byte(raw(0)), 0);
    assert_eq!(channel_byte(raw(UNIT)), 255);
    assert_eq!(channel_byte(raw(2 * UNIT)), 255);
    assert_eq!(channel_byte(raw(i64::MAX)), 255);
    assert_eq!(channel_byte(raw(-1)), 0);
    assert_eq!(channel_byte(raw(i64::MIN)), 0);
    assert_eq!(channel_byte(raw(UNIT / 2)), 128);
    assert_eq!(channel_byte(raw(UNIT - 1)), 255);
    // 0.5 / 255 is the first channel that rounds up to one
    assert_eq!(channel_byte(raw(19_607_843_137)), 0);
    assert_eq!(channel_byte(raw(19_607_843_138)), 1);
    assert_eq!(channel_byte(raw(2_000_000_000_000)), 51);
    assert_eq!(channel_byte(raw(9_980_392_156_862)), 254);
    assert_eq!(channel_byte(raw(9_980_392_156_863)), 255);
}

#[test]
fn a_picture_gives_three_bytes_for_each_pixel() {
    let img = vec![
        Vec3::new(raw(UNIT), raw(0), raw(UNIT / 2)),
        Vec3::new(raw(-5), raw(3 * UNIT), raw(2_000_000_000_000)),
    ];
    assert_eq!(to_rgb_bytes(&img), vec![255, 0, 128, 0, 255, 51]);
    assert_eq!(to_rgb_bytes(&Vec::new()), Vec::<u8>::new());
}

#[test]
fn a_picture_becomes_a_png_stream() {
    let img = vec![grey(0), grey(UNIT), grey(UNIT / 2), grey(UNIT), grey(0), grey(UNIT / 4)];
    let stream = encode_image(3, 2, &img).unwrap();
    assert_eq!(&stream[..8], &[137, 80, 78, 71, 13, 10, 26, 10]);
    // the header chunk: its length, its name, the size, eight bits, RGB
    assert_eq!(&stream[8..16], &[0, 0, 0, 13, 73, 72, 68, 82]);
    assert_eq!(&stream[16..24], &[0, 0, 0, 3, 0, 0, 0, 2]);
    assert_eq!(&stream[24..26], &[8, 2]);
    // the end chunk
    assert_eq!(&stream[stream.len() - 8..stream.len() - 4], b"IEND");
    assert_ne!(stream, to_rgb_bytes(&img));
    assert_eq!(encode_image(3, 2, &img), Ok(stream.clone()));
    // another shape of the same pixels is another stream
    let tall = encode_image(2, 3, &img).unwrap();
    assert_ne!(tall, stream);
    // the picture comes back from the stream
    let decoder = png::Decoder::new(stream.as_slice());
    let mut reader = decoder.read_info().unwrap();
    let mut buffer = vec![0; reader.output_buffer_size()];
    let info = reader.next_frame(&mut buffer).unwrap();
    assert_eq!((info.width, info.height), (3, 2));
    assert_eq!(&buffer[..info.buffer_size()], to_rgb_bytes(&img).as_slice());
}

#[test]
fn a_picture_of_one_pixel_is_encoded() {
    let img = vec![Vec3::new(raw(UNIT / 2), raw(3 * UNIT / 2), raw(0))];
    assert_eq!(to_rgb_bytes(&img), vec![128, 255, 0]);
    let stream = encode_image(1, 1, &img).unwrap();
    let mut reader = png::Decoder::new(stream.as_slice()).read_info().unwrap();
    let mut buffer = vec![0; reader.output_buffer_size()];
    let info = reader.next_frame(&mut buffer).unwrap();
    assert_eq!((info.width, info.height), (1, 1));
    assert_eq!(&buffer[..info.buffer_size()], &[128, 255, 0]);
}

#[test]
fn a_picture_of_the_wrong_size_is_refused() {
    let img = vec![grey(0); 6];
    assert_eq!(encode_image(3, 3, &img), Err(ImageError::SizeMismatch));
    assert_eq!(encode_image(6, 0, &img), Err(ImageError::SizeMismatch));
    assert_eq!(encode_image(7, 1, &img), Err(ImageError::SizeMismatch));
    assert_eq!(encode_image(0, 0, &img), Err(ImageError::SizeMismatch));
}

#[test]
fn a_picture_too_wide_or_too_high_is_refused() {
    let img = vec![grey(0); 6];
    let over = u32::MAX as usize + 1;
    assert_eq!(encode_image(over, 1, &img), Err(ImageError::TooLarge));
    assert_eq!(encode_image(1, over, &img), Err(ImageError::TooLarge));
    assert_eq!(encode_image(over, 0, &Vec::new()), Err(ImageError::TooLarge));
    assert_eq!(encode_image(MAX_WIDTH + 1, 1, &img), Err(ImageError::TooLarge));
    assert_eq!(encode_image(MAX_WIDTH + 1, 0, &Vec::new()), Err(ImageError::TooLarge));
    assert_eq!(encode_image(MAX_WIDTH, 1, &img), Err(ImageError::SizeMismatch));
    assert_eq!(encode_image(1, MAX_HEIGHT, &img), Err(ImageError::SizeMismatch));
    assert_eq!((MAX_WIDTH, MAX_HEIGHT), (1_431_655_762, u32::MAX as usize));
}

#[test]
fn a_picture_without_pixels_is_refused_by_the_encoder() {
    let nothing: Vec<Vec3<Scalar>> = Vec::new();
    assert_eq!(encode_image(0, 0, &nothing), Err(ImageError::Encoder));
    assert_eq!(encode_image(0, 5, &nothing), Err(ImageError::Encoder));
    assert_eq!(encode_image(5, 0, &nothing), Err(ImageError::Encoder));
}

#[test]
fn what_the_encoder_hands_back_is_handed_on() {
    assert_eq!(encoded(Ok(vec![1, 2, 3])), Ok(vec![1, 2, 3]));
    let refused = png::Encoder::new(Vec::new(), 0, 0).write_header().err().unwrap();
    assert_eq!(encoded(Err(refused)), Err(ImageError::Encoder));
}
