//! The transform of one image: trim the transparent border, then apply the
//! aspect-ratio window.

use crate::aspect::{aspect_window, clamp, in_envelope, lemma_aspect_window_is_full};
use crate::bounds::detect;
use crate::geometry::Rectangle;
use crate::raster::{PixelBuffer, Raster};
use vstd::prelude::*;

verus! {

/// The image cut down to its bounding box.
pub open spec fn trimmed(image: Raster) -> Raster {
    image.cropped(image.bounding_box())
}

/// The image cut down to its aspect-ratio window.
pub open spec fn conformed(image: Raster) -> Raster {
    image.cropped(aspect_window(image.width as u32, image.height as u32))
}

/// The image trimmed, then cut down to the aspect-ratio window of what is
/// left.
pub open spec fn transformed(image: Raster) -> Raster {
    conformed(trimmed(image))
}

/// The bounding box of a well-formed image lies inside the image.
pub proof fn lemma_bounding_box_within(image: Raster)
    requires
        image.wf(),
    ensures
        image.bounding_box().within(image.width as int, image.height as int),
        trimmed(image).wf(),
{
    image.lemma_bounding_box_exists();
    image.lemma_cropped_wf(image.bounding_box());
}

/// Cutting an image down to its aspect-ratio window leaves it as it is.
pub proof fn lemma_conformed_is_same(image: Raster)
    requires
        image.wf(),
    ensures
        conformed(image) == image,
{
    lemma_aspect_window_is_full(image.width as u32, image.height as u32);
    image.lemma_cropped_full();
}

/// A trimmed image has no transparent border left: its bounding box is its
/// whole area.
pub proof fn lemma_trimmed_is_tight(image: Raster)
    requires
        image.wf(),
    ensures
        trimmed(image).wf(),
        trimmed(image).bounded_by(
            Rectangle::full(trimmed(image).width as u32, trimmed(image).height as u32),
        ),
{
    let area = image.bounding_box();
    let cut = trimmed(image);
    image.lemma_bounding_box_exists();
    image.lemma_cropped_wf(area);
    if image.blank() {
        image.lemma_cropped_full();
    } else {
        assert forall|x: int, y: int| #[trigger]
            cut.visible(x, y) == (cut.in_bounds(x, y) && image.visible(
                area.left + x,
                area.top + y,
            )) by {
            if cut.in_bounds(x, y) {
                assert(cut.pixel(x, y) == image.pixel(area.left + x, area.top + y));
            }
        }
        let x_top = choose|x: int| image.visible(x, area.top as int);
        assert(cut.visible(x_top - area.left, 0));
        let last_row: int = area.bottom - 1;
        let x_bottom = choose|x: int| image.visible(x, last_row);
        assert(cut.visible(x_bottom - area.left, last_row - area.top));
        let y_left = choose|y: int| image.visible(area.left as int, y);
        assert(cut.visible(0, y_left - area.top));
        let last_column: int = area.right - 1;
        let y_right = choose|y: int| image.visible(last_column, y);
        assert(cut.visible(last_column - area.left, y_right - area.top));
    }
}

/// An image that has no transparent border and whose ratio lies in the
/// envelope comes out of the transform as it went in.
pub proof fn lemma_transformed_keeps_conforming(image: Raster)
    requires
        image.wf(),
        image.bounded_by(Rectangle::full(image.width as u32, image.height as u32)),
        in_envelope(image.width as int, image.height as int),
    ensures
        transformed(image) == image,
{
    image.lemma_bounding_box_is(Rectangle::full(image.width as u32, image.height as u32));
    image.lemma_cropped_full();
    lemma_conformed_is_same(image);
}

/// Transforming twice gives what transforming once gives.
pub proof fn lemma_transformed_idempotent(image: Raster)
    requires
        image.wf(),
    ensures
        transformed(transformed(image)) == transformed(image),
{
    let cut = trimmed(image);
    lemma_trimmed_is_tight(image);
    lemma_conformed_is_same(cut);
    cut.lemma_bounding_box_is(Rectangle::full(cut.width as u32, cut.height as u32));
    cut.lemma_cropped_full();
}

/// Cuts away the fully transparent border of an image. A fully transparent
/// image is kept whole.
pub fn crop_transparent_edges(buffer: &PixelBuffer) -> (out: PixelBuffer)
    ensures
        out@ == trimmed(buffer@),
{
    let area = detect(buffer);
    proof {
        buffer.lemma_view_wf();
        lemma_bounding_box_within(buffer@);
    }
    buffer.crop(area)
}

/// Cuts an image down to its aspect-ratio window.
pub fn crop_to_aspect_ratio(buffer: PixelBuffer) -> (out: PixelBuffer)
    ensures
        out@ == conformed(buffer@),
        out@ == buffer@,
{
    let width = buffer.width();
    let height = buffer.height();
    let window = clamp(width, height);
    proof {
        buffer.lemma_view_wf();
        lemma_conformed_is_same(buffer@);
    }
    if window.left == 0 && window.top == 0 && window.right == width && window.bottom == height {
        buffer
    } else {
        buffer.crop(window)
    }
}

/// Trims the transparent border of an image and cuts the result down to its
/// aspect-ratio window.
pub fn transform(buffer: &PixelBuffer) -> (out: PixelBuffer)
    ensures
        out@ == transformed(buffer@),
        out@ == trimmed(buffer@),
{
    let cut = crop_transparent_edges(buffer);
    crop_to_aspect_ratio(cut)
}

} // verus!
