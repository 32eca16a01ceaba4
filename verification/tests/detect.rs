use autocrop::bounds::detect;
use autocrop::geometry::Rectangle;
use autocrop::raster::PixelBuffer;

/// A `width` by `height` image that is transparent outside `area` and opaque
/// white inside it.
fn canvas(width: u32, height: u32, area: Rectangle) -> PixelBuffer {
    let mut samples = vec![0u8; 4 * width as usize * height as usize];
    for y in area.top..area.bottom {
        for x in area.left..area.right {
            let base = 4 * (y as usize * width as usize + x as usize);
            samples[base] = 255;
            samples[base + 1] = 255;
            samples[base + 2] = 255;
            samples[base + 3] = 255;
        }
    }
    PixelBuffer::from_raw(width, height, samples).unwrap()
}

fn rect(left: u32, top: u32, right: u32, bottom: u32) -> Rectangle {
    Rectangle { left, top, right, bottom }
}

#[test]
fn detect_finds_padded_square() {
    let image = canvas(300, 100, rect(100, 0, 200, 100));
    assert_eq!(detect(&image), rect(100, 0, 200, 100));
}

#[test]
fn detect_fully_transparent_is_whole_image() {
    let image = canvas(7, 5, rect(0, 0, 0, 0));
    assert_eq!(detect(&image), rect(0, 0, 7, 5));
}

#[test]
fn detect_fully_opaque_is_whole_image() {
    let image = canvas(6, 4, rect(0, 0, 6, 4));
    assert_eq!(detect(&image), rect(0, 0, 6, 4));
}

#[test]
fn detect_single_pixel() {
    let image = canvas(9, 8, rect(3, 5, 4, 6));
    assert_eq!(detect(&image), rect(3, 5, 4, 6));
}

#[test]
fn detect_pixel_in_last_row_and_column() {
    let image = canvas(9, 8, rect(8, 7, 9, 8));
    assert_eq!(detect(&image), rect(8, 7, 9, 8));
}

#[test]
fn detect_spans_two_far_pixels() {
    let mut samples = vec![0u8; 4 * 10 * 10];
    samples[4 * (2 * 10 + 7) + 3] = 1;
    samples[4 * (6 * 10 + 1) + 3] = 200;
    let image = PixelBuffer::from_raw(10, 10, samples).unwrap();
    assert_eq!(detect(&image), rect(1, 2, 8, 7));
}

#[test]
fn detect_ignores_colour_of_transparent_pixels() {
    let mut samples = vec![0u8; 4 * 4 * 4];
    for i in 0..16 {
        samples[4 * i] = 90;
        samples[4 * i + 1] = 80;
        samples[4 * i + 2] = 70;
    }
    samples[4 * (1 * 4 + 2) + 3] = 5;
    let image = PixelBuffer::from_raw(4, 4, samples).unwrap();
    assert_eq!(detect(&image), rect(2, 1, 3, 2));
}

#[test]
fn detect_on_empty_images() {
    let no_rows = PixelBuffer::from_raw(5, 0, Vec::new()).unwrap();
    assert_eq!(detect(&no_rows), rect(0, 0, 5, 0));
    let no_columns = PixelBuffer::from_raw(0, 5, Vec::new()).unwrap();
    assert_eq!(detect(&no_columns), rect(0, 0, 0, 5));
}

#[test]
fn rectangle_width_and_height() {
    let area = rect(100, 10, 200, 60);
    assert_eq!(area.width(), 100);
    assert_eq!(area.height(), 50);
    assert_eq!(Rectangle::full(30, 20), rect(0, 0, 30, 20));
}
