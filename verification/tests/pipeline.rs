use autocrop::aspect::clamp;
use autocrop::geometry::Rectangle;
use autocrop::pipeline::{crop_to_aspect_ratio, crop_transparent_edges, transform};
use autocrop::raster::{Pixel, PixelBuffer};

/// A `width` by `height` image whose pixel `(x, y)` has the colour
/// `(x, y, x + y)`, and is opaque inside `area` and transparent outside it.
fn gradient(width: u32, height: u32, area: Rectangle) -> PixelBuffer {
    let mut samples = Vec::new();
    for y in 0..height {
        for x in 0..width {
            let inside = area.left <= x && x < area.right && area.top <= y && y < area.bottom;
            samples.push(x as u8);
            samples.push(y as u8);
            samples.push((x + y) as u8);
            samples.push(if inside { 255 } else { 0 });
        }
    }
    PixelBuffer::from_raw(width, height, samples).unwrap()
}

fn rect(left: u32, top: u32, right: u32, bottom: u32) -> Rectangle {
    Rectangle { left, top, right, bottom }
}

#[test]
fn from_raw_wants_exact_length() {
    assert!(PixelBuffer::from_raw(2, 3, vec![0u8; 24]).is_some());
    assert!(PixelBuffer::from_raw(2, 3, vec![0u8; 23]).is_none());
    assert!(PixelBuffer::from_raw(2, 3, vec![0u8; 25]).is_none());
    assert!(PixelBuffer::from_raw(0, 0, Vec::new()).is_some());
    assert!(PixelBuffer::from_raw(u32::MAX, u32::MAX, vec![0u8; 4]).is_none());
}

#[test]
fn raw_samples_round_trip() {
    let samples: Vec<u8> = (0..24).collect();
    let image = PixelBuffer::from_raw(3, 2, samples.clone()).unwrap();
    assert_eq!(image.width(), 3);
    assert_eq!(image.height(), 2);
    assert_eq!(image.get_pixel(0, 0), Pixel { r: 0, g: 1, b: 2, a: 3 });
    assert_eq!(image.get_pixel(2, 0), Pixel { r: 8, g: 9, b: 10, a: 11 });
    assert_eq!(image.get_pixel(1, 1), Pixel { r: 16, g: 17, b: 18, a: 19 });
    assert_eq!(image.alpha(2, 1), 23);
    assert_eq!(image.into_raw(), samples);
}

#[test]
fn crop_moves_pixels_to_the_origin() {
    let image = gradient(8, 6, rect(0, 0, 8, 6));
    let cut = image.crop(rect(2, 1, 7, 5));
    assert_eq!(cut.width(), 5);
    assert_eq!(cut.height(), 4);
    for y in 0..4 {
        for x in 0..5 {
            assert_eq!(cut.get_pixel(x, y), image.get_pixel(x + 2, y + 1));
        }
    }
    assert_eq!(cut.into_raw().len(), 4 * 5 * 4);
}

#[test]
fn crop_of_nothing_is_empty() {
    let image = gradient(8, 6, rect(0, 0, 8, 6));
    let cut = image.crop(rect(3, 3, 3, 6));
    assert_eq!(cut.width(), 0);
    assert_eq!(cut.height(), 3);
    assert_eq!(cut.into_raw(), Vec::<u8>::new());
}

#[test]
fn clamp_keeps_conforming_sizes() {
    assert_eq!(clamp(100, 100), rect(0, 0, 100, 100));
    assert_eq!(clamp(2, 5), rect(0, 0, 2, 5));
    assert_eq!(clamp(5, 2), rect(0, 0, 5, 2));
    assert_eq!(clamp(250, 100), rect(0, 0, 250, 100));
}

#[test]
fn clamp_never_enlarges() {
    assert_eq!(clamp(10, 100), rect(0, 0, 10, 100));
    assert_eq!(clamp(100, 10), rect(0, 0, 100, 10));
    assert_eq!(clamp(1, 3), rect(0, 0, 1, 3));
    assert_eq!(clamp(0, 7), rect(0, 0, 0, 7));
    assert_eq!(clamp(7, 0), rect(0, 0, 7, 0));
    assert_eq!(clamp(u32::MAX, 1), rect(0, 0, u32::MAX, 1));
    assert_eq!(clamp(1, u32::MAX), rect(0, 0, 1, u32::MAX));
}

#[test]
fn padded_square_is_trimmed_to_the_square() {
    let image = gradient(300, 100, rect(100, 0, 200, 100));
    let out = transform(&image);
    assert_eq!(out.width(), 100);
    assert_eq!(out.height(), 100);
    assert_eq!(clamp(out.width(), out.height()), rect(0, 0, 100, 100));
    for y in [0u32, 50, 99] {
        for x in [0u32, 1, 99] {
            assert_eq!(out.get_pixel(x, y), image.get_pixel(x + 100, y));
        }
    }
}

#[test]
fn narrow_image_keeps_its_size() {
    let image = gradient(10, 100, rect(0, 0, 10, 100));
    let raw = gradient(10, 100, rect(0, 0, 10, 100)).into_raw();
    let out = transform(&image);
    assert_eq!(out.width(), 10);
    assert_eq!(out.height(), 100);
    assert_eq!(out.into_raw(), raw);
}

#[test]
fn transparent_image_passes_unchanged() {
    let image = gradient(6, 4, rect(0, 0, 0, 0));
    let raw = gradient(6, 4, rect(0, 0, 0, 0)).into_raw();
    assert_eq!(crop_transparent_edges(&image).into_raw(), raw);
    assert_eq!(transform(&image).into_raw(), raw);
}

#[test]
fn trimmed_image_passes_unchanged() {
    let image = gradient(40, 30, rect(0, 0, 40, 30));
    let out = transform(&image);
    assert_eq!(out, image);
}

#[test]
fn transform_twice_is_transform_once() {
    let image = gradient(20, 30, rect(3, 4, 9, 29));
    let once = transform(&image);
    let twice = transform(&once);
    assert_eq!(once.width(), 6);
    assert_eq!(once.height(), 25);
    assert_eq!(twice, once);
}

#[test]
fn aspect_crop_hands_the_image_back() {
    let image = gradient(10, 100, rect(0, 0, 10, 100));
    let raw = gradient(10, 100, rect(0, 0, 10, 100)).into_raw();
    assert_eq!(crop_to_aspect_ratio(image).into_raw(), raw);
}

#[test]
fn trim_keeps_the_pixels_of_the_box() {
    let image = gradient(12, 9, rect(4, 2, 10, 7));
    let cut = crop_transparent_edges(&image);
    assert_eq!(cut.width(), 6);
    assert_eq!(cut.height(), 5);
    assert_eq!(cut.get_pixel(0, 0), Pixel { r: 4, g: 2, b: 6, a: 255 });
    assert_eq!(cut.get_pixel(5, 4), Pixel { r: 9, g: 6, b: 15, a: 255 });
}
