use std::io::Cursor;

use termgl::texture::decode_rgb8;

fn png_bytes() -> Vec<u8> {
    let mut img = image::RgbImage::new(3, 2);
    img.put_pixel(0, 0, image::Rgb([10, 20, 30]));
    img.put_pixel(2, 1, image::Rgb([200, 150, 100]));
    img.put_pixel(1, 1, image::Rgb([1, 2, 3]));
    let mut out = Cursor::new(Vec::new());
    img.write_to(&mut out, image::ImageFormat::Png).unwrap();
    out.into_inner()
}

#[test]
fn decodes_png_pixels() {
    let pixels = decode_rgb8(&png_bytes(), "png").unwrap();
    assert_eq!(pixels.dimensions(), (3, 2));
    assert_eq!(pixels.pixel(0, 0), [10, 20, 30]);
    assert_eq!(pixels.pixel(2, 1), [200, 150, 100]);
    assert_eq!(pixels.pixel(1, 1), [1, 2, 3]);
    assert_eq!(pixels.pixel(1, 0), [0, 0, 0]);
}

#[test]
fn extension_is_case_insensitive() {
    assert!(decode_rgb8(&png_bytes(), "PNG").is_some());
}

#[test]
fn unknown_extension_gives_none() {
    assert!(decode_rgb8(&png_bytes(), "txt").is_none());
    assert!(decode_rgb8(&png_bytes(), "").is_none());
}

#[test]
fn corrupt_bytes_give_none() {
    assert!(decode_rgb8(b"not an image", "png").is_none());
    assert!(decode_rgb8(&png_bytes(), "jpg").is_none());
}

#[test]
fn clone_keeps_the_pixels() {
    let pixels = decode_rgb8(&png_bytes(), "png").unwrap();
    let copy = pixels.clone();
    assert_eq!(copy.dimensions(), (3, 2));
    assert_eq!(copy.pixel(2, 1), [200, 150, 100]);
}
