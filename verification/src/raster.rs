//! Decoded RGBA images and their mathematical model.

use crate::geometry::Rectangle;
use vstd::prelude::*;

verus! {

/// Samples stored per pixel: red, green, blue, alpha.
pub const CHANNELS: usize = 4;

/// One RGBA pixel, eight bits per channel. Alpha zero means fully transparent.
#[derive(Clone, Copy, Debug, PartialEq, Eq, Structural)]
pub struct Pixel {
    pub r: u8,
    pub g: u8,
    pub b: u8,
    pub a: u8,
}

/// Position of channel `c` of pixel `(x, y)` in the row-major sample array
/// of an image that is `width` pixels wide.
pub open spec fn sample_index(width: int, x: int, y: int, c: int) -> int {
    4 * (y * width + x) + c
}

/// The mathematical model of an image: a grid of pixels, given row by row
/// from the top, each row from the left.
#[verifier::ext_equal]
pub struct Raster {
    pub width: nat,
    pub height: nat,
    pub rows: Seq<Seq<Pixel>>,
}

impl Raster {
    /// There are `height` rows of `width` pixels each, and every coordinate
    /// fits a `u32`.
    pub open spec fn wf(self) -> bool {
        &&& self.width <= u32::MAX
        &&& self.height <= u32::MAX
        &&& self.rows.len() == self.height
        &&& forall|y: int| 0 <= y < self.height ==> (#[trigger] self.rows[y]).len() == self.width
    }

    /// The image has a pixel `(x, y)`.
    pub open spec fn in_bounds(self, x: int, y: int) -> bool {
        0 <= x < self.width && 0 <= y < self.height
    }

    /// The pixel in column `x` of row `y`.
    pub open spec fn pixel(self, x: int, y: int) -> Pixel {
        self.rows[y][x]
    }

    /// The image that a row-major RGBA sample array of the given size holds.
    pub open spec fn from_samples(width: nat, height: nat, samples: Seq<u8>) -> Raster {
        Raster {
            width,
            height,
            rows: Seq::new(
                height,
                |y: int|
                    Seq::new(
                        width,
                        |x: int|
                            Pixel {
                                r: samples[sample_index(width as int, x, y, 0)],
                                g: samples[sample_index(width as int, x, y, 1)],
                                b: samples[sample_index(width as int, x, y, 2)],
                                a: samples[sample_index(width as int, x, y, 3)],
                            },
                    ),
            ),
        }
    }

    /// The `w` by `h` cut-out whose top left pixel is `(x, y)` of this image.
    pub open spec fn window(self, x: int, y: int, w: nat, h: nat) -> Raster {
        Raster {
            width: w,
            height: h,
            rows: Seq::new(h, |j: int| Seq::new(w, |i: int| self.pixel(x + i, y + j))),
        }
    }

    /// The cut-out that `area` delimits.
    pub open spec fn cropped(self, area: Rectangle) -> Raster {
        self.window(
            area.left as int,
            area.top as int,
            (area.right - area.left) as nat,
            (area.bottom - area.top) as nat,
        )
    }

    /// Cutting out the whole image changes nothing.
    pub proof fn lemma_cropped_full(self)
        requires
            self.wf(),
        ensures
            self.cropped(Rectangle::full(self.width as u32, self.height as u32)) == self,
    {
        let whole = self.cropped(Rectangle::full(self.width as u32, self.height as u32));
        assert forall|y: int| 0 <= y < self.height implies #[trigger] whole.rows[y]
            =~= self.rows[y] by {}
        assert(whole.rows =~= self.rows);
    }

    /// A cut-out inside a well-formed image is well formed.
    pub proof fn lemma_cropped_wf(self, area: Rectangle)
        requires
            self.wf(),
            area.within(self.width as int, self.height as int),
        ensures
            self.cropped(area).wf(),
            self.cropped(area).width == area.right - area.left,
            self.cropped(area).height == area.bottom - area.top,
            forall|x: int, y: int|
                0 <= x < area.right - area.left && 0 <= y < area.bottom - area.top
                    ==> #[trigger] self.cropped(area).pixel(x, y) == self.pixel(
                    area.left + x,
                    area.top + y,
                ),
    {
    }
}

/// A decoded RGBA image: `width * height` pixels of four samples each, row
/// by row.
#[derive(Debug, PartialEq, Eq)]
pub struct PixelBuffer {
    width: u32,
    height: u32,
    samples: Vec<u8>,
}

impl View for PixelBuffer {
    type V = Raster;

    closed spec fn view(&self) -> Raster {
        Raster::from_samples(self.width as nat, self.height as nat, self.samples@)
    }
}

/// The sample offsets of every pixel of a `width` by `height` image lie
/// inside an array of `4 * width * height` samples.
proof fn lemma_sample_index_in_range(width: int, height: int, x: int, y: int, c: int)
    requires
        0 <= x < width,
        0 <= y < height,
        0 <= c < 4,
    ensures
        0 <= y * width,
        y * width + x < width * height,
        0 <= sample_index(width, x, y, c) < 4 * width * height,
{
    assert(0 <= y * width) by (nonlinear_arith)
        requires
            0 <= y,
            0 <= width,
    ;
    assert((y + 1) * width <= height * width) by (nonlinear_arith)
        requires
            y + 1 <= height,
            0 <= width,
    ;
    assert((y + 1) * width == y * width + width) by (nonlinear_arith);
    assert(height * width == width * height) by (nonlinear_arith);
    assert(4 * width * height == 4 * (width * height)) by (nonlinear_arith);
}

/// Calls `image::DynamicImage::crop_imm` on an RGBA image built from
/// `samples`, and returns the samples of the image that comes back.
///
/// The contract claims, for a cut-out that lies inside the source: the
/// result has `w * h` pixels, and its pixel `(i, j)` is the source's pixel
/// `(x + i, y + j)`.
#[verifier::external_body]
fn crop_imm(width: u32, height: u32, samples: &Vec<u8>, x: u32, y: u32, w: u32, h: u32) -> (out:
    Vec<u8>)
    requires
        samples.len() == 4 * width * height,
        x + w <= width,
        y + h <= height,
    ensures
        out.len() == 4 * w * h,
        Raster::from_samples(w as nat, h as nat, out@) == Raster::from_samples(
            width as nat,
            height as nat,
            samples@,
        ).window(x as int, y as int, w as nat, h as nat),
{
    let source = image::RgbaImage::from_raw(width, height, samples.clone()).unwrap();
    image::DynamicImage::ImageRgba8(source).crop_imm(x, y, w, h).into_rgba8().into_raw()
}

impl PixelBuffer {
    #[verifier::type_invariant]
    spec fn inv(self) -> bool {
        self.samples.len() == 4 * self.width * self.height
    }

    /// Wraps a row-major RGBA sample array. The array must hold exactly
    /// `4 * width * height` samples.
    pub fn from_raw(width: u32, height: u32, samples: Vec<u8>) -> (out: Option<PixelBuffer>)
        ensures
            out is Some <==> samples.len() == 4 * width * height,
            out matches Some(buffer) ==> buffer@ == Raster::from_samples(
                width as nat,
                height as nat,
                samples@,
            ),
    {
        assert(4 * width * height <= 4 * 0xffff_ffff * 0xffff_ffff) by (nonlinear_arith)
            requires
                0 <= width <= 0xffff_ffff,
                0 <= height <= 0xffff_ffff,
        ;
        assert(0 <= width * height <= 0xffff_ffff * 0xffff_ffff) by (nonlinear_arith)
            requires
                0 <= width <= 0xffff_ffff,
                0 <= height <= 0xffff_ffff,
        ;
        assert(4 * (width * height) == 4 * width * height) by (nonlinear_arith);
        let pixels: u128 = (width as u128) * (height as u128);
        let needed: u128 = 4 * pixels;
        if samples.len() as u128 == needed {
            Some(PixelBuffer { width, height, samples })
        } else {
            None
        }
    }

    /// Gives back the row-major RGBA sample array.
    pub fn into_raw(self) -> (out: Vec<u8>)
        ensures
            out.len() == 4 * self@.width * self@.height,
            Raster::from_samples(self@.width, self@.height, out@) == self@,
    {
        proof {
            use_type_invariant(&self);
        }
        self.samples
    }

    /// Number of pixel columns.
    pub fn width(&self) -> (w: u32)
        ensures
            w == self@.width,
    {
        self.width
    }

    /// Number of pixel rows.
    pub fn height(&self) -> (h: u32)
        ensures
            h == self@.height,
    {
        self.height
    }

    /// The view of a buffer is always a well-formed image.
    pub proof fn lemma_view_wf(&self)
        ensures
            self@.wf(),
    {
    }

    /// The pixel in column `x` of row `y`.
    pub fn get_pixel(&self, x: u32, y: u32) -> (p: Pixel)
        requires
            self@.in_bounds(x as int, y as int),
        ensures
            p == self@.pixel(x as int, y as int),
    {
        proof {
            use_type_invariant(self);
            lemma_sample_index_in_range(
                self.width as int,
                self.height as int,
                x as int,
                y as int,
                0,
            );
            lemma_sample_index_in_range(
                self.width as int,
                self.height as int,
                x as int,
                y as int,
                3,
            );
        }
        let base: usize = CHANNELS * (y as usize * self.width as usize + x as usize);
        Pixel {
            r: self.samples[base],
            g: self.samples[base + 1],
            b: self.samples[base + 2],
            a: self.samples[base + 3],
        }
    }

    /// The alpha sample of the pixel in column `x` of row `y`.
    pub fn alpha(&self, x: u32, y: u32) -> (a: u8)
        requires
            self@.in_bounds(x as int, y as int),
        ensures
            a == self@.pixel(x as int, y as int).a,
    {
        proof {
            use_type_invariant(self);
            lemma_sample_index_in_range(
                self.width as int,
                self.height as int,
                x as int,
                y as int,
                3,
            );
        }
        self.samples[CHANNELS * (y as usize * self.width as usize + x as usize) + 3]
    }

    /// Extracts the pixels that `area` delimits into a new buffer.
    pub fn crop(&self, area: Rectangle) -> (out: PixelBuffer)
        requires
            area.within(self@.width as int, self@.height as int),
        ensures
            out@ == self@.cropped(area),
    {
        proof {
            use_type_invariant(self);
        }
        let w: u32 = area.right - area.left;
        let h: u32 = area.bottom - area.top;
        let samples = crop_imm(self.width, self.height, &self.samples, area.left, area.top, w, h);
        PixelBuffer { width: w, height: h, samples }
    }
}

} // verus!
