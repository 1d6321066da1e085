use doggowarp::image::{DecodeError, Image};
use doggowarp::pos::Pos;

fn two_by_two() -> Image {
    // Row-major 2x2 RGBA: red, green, blue, yellow.
    let data = vec![
        255, 0, 0, 255, //
        0, 255, 0, 255, //
        0, 0, 255, 255, //
        255, 255, 0, 255,
    ];
    Image::new(2, 2, data)
}

#[test]
fn from_decoded_accepts_exact_buffer() {
    let img = Image::from_decoded(2, 2, vec![7u8; 16]).unwrap();
    assert_eq!(img.width, 2);
    assert_eq!(img.height, 2);
    assert_eq!(img.data.len(), 16);
}

#[test]
fn from_decoded_rejects_zero_dimension() {
    assert!(matches!(Image::from_decoded(0, 2, vec![]), Err(DecodeError::Unsupported)));
    assert!(matches!(Image::from_decoded(2, 0, vec![]), Err(DecodeError::Unsupported)));
}

#[test]
fn from_decoded_rejects_wrong_length() {
    assert!(matches!(Image::from_decoded(2, 2, vec![0u8; 15]), Err(DecodeError::Unsupported)));
    assert!(matches!(Image::from_decoded(2, 2, vec![0u8; 17]), Err(DecodeError::Unsupported)));
}

#[test]
fn from_decoded_rejects_oversized_dimension() {
    assert!(matches!(Image::from_decoded(16_385, 1, vec![]), Err(DecodeError::Unsupported)));
}

#[test]
fn from_jpeg_rejects_garbage() {
    // The codec must refuse a stream without JPEG magic bytes.
    match Image::from_jpeg(&[0u8, 1, 2, 3, 4, 5]) {
        Err(DecodeError::Codec(msg)) => assert!(!msg.is_empty()),
        other => panic!("expected a codec error, got {:?}", other.is_ok()),
    }
}

#[test]
fn from_jpeg_rejects_empty() {
    assert!(Image::from_jpeg(&[]).is_err());
}

#[test]
fn sample_reads_each_pixel() {
    let img = two_by_two();
    let s = img.sample(Pos::new(0, 0));
    assert_eq!((s.red_b, s.green_b, s.blue_b), (255, 0, 0));
    let s = img.sample(Pos::new(1000, 0));
    assert_eq!((s.red_b, s.green_b, s.blue_b), (0, 255, 0));
    let s = img.sample(Pos::new(0, 1000));
    assert_eq!((s.red_b, s.green_b, s.blue_b), (0, 0, 255));
    let s = img.sample(Pos::new(1000, 1000));
    assert_eq!((s.red_b, s.green_b, s.blue_b), (255, 255, 0));
}

#[test]
fn sample_floors_fractional_positions() {
    let img = two_by_two();
    // 0.999 still falls in the first pixel; 1.001 in the second.
    let s = img.sample(Pos::new(999, 999));
    assert_eq!((s.red_b, s.green_b, s.blue_b), (255, 0, 0));
    let s = img.sample(Pos::new(1001, 0));
    assert_eq!((s.red_b, s.green_b, s.blue_b), (0, 255, 0));
}

#[test]
fn sample_clamps_negative_to_origin() {
    let img = two_by_two();
    let at_origin = img.sample(Pos::new(0, 0));
    let below = img.sample(Pos::new(-5_000_000, -123));
    assert_eq!(below, at_origin);
}

#[test]
fn sample_clamps_beyond_to_last_pixel() {
    let img = two_by_two();
    let last = img.sample(Pos::new(1000, 1000));
    let beyond = img.sample(Pos::new(2000, 2000));
    assert_eq!(beyond, last);
    let far_beyond = img.sample(Pos::new(900_000_000, 900_000_000));
    assert_eq!(far_beyond, last);
}

#[test]
fn sampler_channels_are_fixed_point() {
    let img = two_by_two();
    let s = img.sample(Pos::new(1000, 1000));
    assert_eq!(s.red(), 255_000);
    assert_eq!(s.green(), 255_000);
    assert_eq!(s.blue(), 0);
}
