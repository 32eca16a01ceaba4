//! The aspect-ratio envelope and the crop window that is derived from it.
//!
//! Ratios are width over height and are compared exactly, as fractions of
//! integers.

use crate::geometry::Rectangle;
use vstd::prelude::*;

verus! {

/// The least accepted ratio is `RATIO_SHORT / RATIO_LONG`, two fifths; the
/// greatest is `RATIO_LONG / RATIO_SHORT`, five halves.
pub const RATIO_SHORT: u64 = 2;

pub const RATIO_LONG: u64 = 5;

/// `width / height` is below two fifths.
pub open spec fn too_narrow(width: int, height: int) -> bool {
    5 * width < 2 * height
}

/// `width / height` is above five halves.
pub open spec fn too_wide(width: int, height: int) -> bool {
    2 * width > 5 * height
}

/// `width / height` lies in the envelope from two fifths to five halves,
/// both ends included.
pub open spec fn in_envelope(width: int, height: int) -> bool {
    !too_narrow(width, height) && !too_wide(width, height)
}

/// The smaller of two integers.
pub open spec fn at_most(value: int, limit: int) -> int {
    if value < limit {
        value
    } else {
        limit
    }
}

/// The crop window for an image of the given size.
///
/// A too narrow image keeps its height. Its new width is two fifths of the
/// height, rounded down, and the window is centred horizontally; the left
/// margin is rounded down. A too wide image keeps its width, and its new
/// height is two fifths of the width, in the same way. Any other image keeps
/// its whole area.
///
/// A crop never enlarges: a derived width or height above that of the image
/// is replaced by that of the image. See `lemma_aspect_window_is_full` for
/// what this amounts to.
pub open spec fn aspect_window(width: u32, height: u32) -> Rectangle {
    if too_narrow(width as int, height as int) {
        let new_width = at_most(2 * height / 5, width as int);
        let new_left = (width - new_width) / 2;
        Rectangle {
            left: new_left as u32,
            top: 0,
            right: (new_left + new_width) as u32,
            bottom: height,
        }
    } else if too_wide(width as int, height as int) {
        let new_height = at_most(2 * width / 5, height as int);
        let new_top = (height - new_height) / 2;
        Rectangle {
            left: 0,
            top: new_top as u32,
            right: width,
            bottom: (new_top + new_height) as u32,
        }
    } else {
        Rectangle::full(width, height)
    }
}

/// The derived width of a too narrow image is never below its width, and the
/// derived height of a too wide image is never below its height. So the
/// window is the whole image for every size.
pub proof fn lemma_aspect_window_is_full(width: u32, height: u32)
    ensures
        too_narrow(width as int, height as int) ==> 2 * height / 5 >= width,
        too_wide(width as int, height as int) ==> 2 * width / 5 >= height,
        aspect_window(width, height) == Rectangle::full(width, height),
{
}

/// An image whose ratio lies in the envelope keeps its whole area, and the
/// ratio of the window then lies in the envelope too.
pub proof fn lemma_window_in_envelope(width: u32, height: u32)
    requires
        width > 0,
        height > 0,
        in_envelope(width as int, height as int),
    ensures
        aspect_window(width, height) == Rectangle::full(width, height),
        in_envelope(
            aspect_window(width, height).spec_width() as int,
            aspect_window(width, height).spec_height() as int,
        ),
{
}

/// Computes the crop window for an image of the given size.
pub fn clamp(width: u32, height: u32) -> (area: Rectangle)
    ensures
        area == aspect_window(width, height),
        area == Rectangle::full(width, height),
{
    let w: u64 = width as u64;
    let h: u64 = height as u64;
    if RATIO_LONG * w < RATIO_SHORT * h {
        let derived: u64 = RATIO_SHORT * h / RATIO_LONG;
        let new_width: u64 = if derived < w {
            derived
        } else {
            w
        };
        let new_left: u64 = (w - new_width) / 2;
        Rectangle {
            left: new_left as u32,
            top: 0,
            right: (new_left + new_width) as u32,
            bottom: height,
        }
    } else if RATIO_SHORT * w > RATIO_LONG * h {
        let derived: u64 = RATIO_SHORT * w / RATIO_LONG;
        let new_height: u64 = if derived < h {
            derived
        } else {
            h
        };
        let new_top: u64 = (h - new_height) / 2;
        Rectangle {
            left: 0,
            top: new_top as u32,
            right: width,
            bottom: (new_top + new_height) as u32,
        }
    } else {
        Rectangle::full(width, height)
    }
}

} // verus!
