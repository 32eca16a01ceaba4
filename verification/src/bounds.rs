//! Finding the smallest rectangle that holds every visible pixel of an image.

use crate::geometry::Rectangle;
use crate::raster::{PixelBuffer, Raster};
use vstd::prelude::*;

verus! {

impl Raster {
    /// The pixel `(x, y)` exists and is not fully transparent.
    pub open spec fn visible(self, x: int, y: int) -> bool {
        self.in_bounds(x, y) && self.pixel(x, y).a != 0
    }

    /// Row `y` holds a visible pixel.
    pub open spec fn row_visible(self, y: int) -> bool {
        exists|x: int| self.visible(x, y)
    }

    /// Column `x` holds a visible pixel.
    pub open spec fn column_visible(self, x: int) -> bool {
        exists|y: int| self.visible(x, y)
    }

    /// Column `x` holds a visible pixel in one of the rows `top..bottom`.
    pub open spec fn column_visible_in(self, x: int, top: int, bottom: int) -> bool {
        exists|y: int| top <= y < bottom && self.visible(x, y)
    }

    /// Every pixel is fully transparent.
    pub open spec fn blank(self) -> bool {
        forall|x: int, y: int| !self.visible(x, y)
    }

    /// `area` holds every visible pixel.
    pub open spec fn covered_by(self, area: Rectangle) -> bool {
        forall|x: int, y: int| self.visible(x, y) ==> area.contains(x, y)
    }

    /// `area` is the bounding box of this image.
    ///
    /// For an image with a visible pixel it is a rectangle inside the image
    /// that holds every visible pixel and whose first and last row and first
    /// and last column each hold one. For a blank image it is the whole image.
    pub open spec fn bounded_by(self, area: Rectangle) -> bool {
        if self.blank() {
            area == Rectangle::full(self.width as u32, self.height as u32)
        } else {
            &&& area.within(self.width as int, self.height as int)
            &&& self.covered_by(area)
            &&& self.row_visible(area.top as int)
            &&& self.row_visible(area.bottom - 1)
            &&& self.column_visible(area.left as int)
            &&& self.column_visible(area.right - 1)
        }
    }

    /// The bounding box of this image.
    pub open spec fn bounding_box(self) -> Rectangle {
        choose|area: Rectangle| self.bounded_by(area)
    }

    /// An image has at most one bounding box.
    pub proof fn lemma_bounding_box_unique(self, a: Rectangle, b: Rectangle)
        requires
            self.bounded_by(a),
            self.bounded_by(b),
        ensures
            a == b,
    {
        if !self.blank() {
            self.lemma_bounding_box_least(a, b);
            self.lemma_bounding_box_least(b, a);
        }
    }

    /// The bounding box of an image with a visible pixel lies inside every
    /// rectangle that holds all visible pixels: it is the least such
    /// rectangle.
    pub proof fn lemma_bounding_box_least(self, area: Rectangle, other: Rectangle)
        requires
            !self.blank(),
            self.bounded_by(area),
            self.covered_by(other),
        ensures
            other.encloses(area),
    {
        let x_top = choose|x: int| self.visible(x, area.top as int);
        assert(other.contains(x_top, area.top as int));
        let last_row: int = area.bottom - 1;
        let x_bottom = choose|x: int| self.visible(x, last_row);
        assert(other.contains(x_bottom, last_row));
        let y_left = choose|y: int| self.visible(area.left as int, y);
        assert(other.contains(area.left as int, y_left));
        let last_column: int = area.right - 1;
        let y_right = choose|y: int| self.visible(last_column, y);
        assert(other.contains(last_column, y_right));
    }

    /// Every rectangle that has the properties of a bounding box is the
    /// bounding box.
    pub proof fn lemma_bounding_box_is(self, area: Rectangle)
        requires
            self.bounded_by(area),
        ensures
            area == self.bounding_box(),
    {
        self.lemma_bounding_box_unique(area, self.bounding_box());
    }
}

/// The least integer from zero up to `n` that satisfies `p`.
proof fn lemma_least_witness(p: spec_fn(int) -> bool, n: int) -> (m: int)
    requires
        0 <= n,
        p(n),
    ensures
        0 <= m <= n,
        p(m),
        forall|k: int| 0 <= k < m ==> !#[trigger] p(k),
    decreases n,
{
    if exists|k: int| 0 <= k < n && #[trigger] p(k) {
        let k = choose|k: int| 0 <= k < n && #[trigger] p(k);
        lemma_least_witness(p, k)
    } else {
        n
    }
}

/// The greatest integer from `n` up to `limit - 1` that satisfies `p`.
proof fn lemma_greatest_witness(p: spec_fn(int) -> bool, n: int, limit: int) -> (m: int)
    requires
        n < limit,
        p(n),
    ensures
        n <= m < limit,
        p(m),
        forall|k: int| m < k < limit ==> !#[trigger] p(k),
    decreases limit - n,
{
    if exists|k: int| n < k < limit && #[trigger] p(k) {
        let k = choose|k: int| n < k < limit && #[trigger] p(k);
        lemma_greatest_witness(p, k, limit)
    } else {
        n
    }
}

impl Raster {
    /// Every well-formed image has a bounding box.
    pub proof fn lemma_bounding_box_exists(self)
        requires
            self.wf(),
        ensures
            self.bounded_by(self.bounding_box()),
    {
        if self.blank() {
            assert(self.bounded_by(Rectangle::full(self.width as u32, self.height as u32)));
        } else {
            let (x0, y0) = choose|x: int, y: int| self.visible(x, y);
            assert(self.visible(x0, y0));
            let in_row = |y: int| self.row_visible(y);
            let in_column = |x: int| self.column_visible(x);
            assert(in_row(y0));
            assert(in_column(x0));
            let top = lemma_least_witness(in_row, y0);
            let last_row = lemma_greatest_witness(in_row, y0, self.height as int);
            let left = lemma_least_witness(in_column, x0);
            let last_column = lemma_greatest_witness(in_column, x0, self.width as int);
            let area = Rectangle {
                left: left as u32,
                top: top as u32,
                right: (last_column + 1) as u32,
                bottom: (last_row + 1) as u32,
            };
            assert forall|x: int, y: int| self.visible(x, y) implies area.contains(x, y) by {
                assert(in_row(y));
                assert(in_column(x));
            }
            assert(in_row(top) && in_row(last_row) && in_column(left) && in_column(last_column));
            assert(self.bounded_by(area));
        }
    }
}

/// Scans row `y` from the left for a visible pixel.
fn row_has_visible(buffer: &PixelBuffer, y: u32) -> (found: bool)
    requires
        y < buffer@.height,
    ensures
        found == buffer@.row_visible(y as int),
{
    let width = buffer.width();
    let mut x: u32 = 0;
    while x < width
        invariant
            x <= width,
            width == buffer@.width,
            y < buffer@.height,
            forall|i: int| 0 <= i < x ==> !buffer@.visible(i, y as int),
        decreases width - x,
    {
        if buffer.alpha(x, y) != 0 {
            assert(buffer@.visible(x as int, y as int));
            return true;
        }
        x += 1;
    }
    false
}

/// Scans column `x` from row `top` down to row `bottom - 1` for a visible
/// pixel.
fn column_has_visible(buffer: &PixelBuffer, x: u32, top: u32, bottom: u32) -> (found: bool)
    requires
        x < buffer@.width,
        top <= bottom <= buffer@.height,
    ensures
        found == buffer@.column_visible_in(x as int, top as int, bottom as int),
{
    let mut y: u32 = top;
    while y < bottom
        invariant
            top <= y <= bottom,
            bottom <= buffer@.height,
            x < buffer@.width,
            forall|j: int| top <= j < y ==> !buffer@.visible(x as int, j),
        decreases bottom - y,
    {
        if buffer.alpha(x, y) != 0 {
            assert(buffer@.visible(x as int, y as int));
            return true;
        }
        y += 1;
    }
    false
}

/// The first row from the top that holds a visible pixel.
fn first_visible_row(buffer: &PixelBuffer) -> (row: Option<u32>)
    ensures
        match row {
            Some(y) => y < buffer@.height && buffer@.row_visible(y as int) && forall|j: int|
                0 <= j < y ==> !buffer@.row_visible(j),
            None => forall|j: int| 0 <= j < buffer@.height ==> !buffer@.row_visible(j),
        },
{
    let height = buffer.height();
    let mut y: u32 = 0;
    while y < height
        invariant
            y <= height,
            height == buffer@.height,
            forall|j: int| 0 <= j < y ==> !buffer@.row_visible(j),
        decreases height - y,
    {
        if row_has_visible(buffer, y) {
            return Some(y);
        }
        y += 1;
    }
    None
}

/// The first row from the bottom that holds a visible pixel.
fn last_visible_row(buffer: &PixelBuffer) -> (row: Option<u32>)
    ensures
        match row {
            Some(y) => y < buffer@.height && buffer@.row_visible(y as int) && forall|j: int|
                y < j < buffer@.height ==> !buffer@.row_visible(j),
            None => forall|j: int| 0 <= j < buffer@.height ==> !buffer@.row_visible(j),
        },
{
    let height = buffer.height();
    let mut y: u32 = height;
    while y > 0
        invariant
            y <= height,
            height == buffer@.height,
            forall|j: int| y <= j < height ==> !buffer@.row_visible(j),
        decreases y,
    {
        y -= 1;
        if row_has_visible(buffer, y) {
            return Some(y);
        }
    }
    None
}

/// The first column from the left that holds a visible pixel in the rows
/// `top..bottom`.
fn first_visible_column(buffer: &PixelBuffer, top: u32, bottom: u32) -> (column: Option<u32>)
    requires
        top <= bottom <= buffer@.height,
    ensures
        match column {
            Some(x) => x < buffer@.width && buffer@.column_visible_in(
                x as int,
                top as int,
                bottom as int,
            ) && forall|i: int|
                0 <= i < x ==> !buffer@.column_visible_in(i, top as int, bottom as int),
            None => forall|i: int|
                0 <= i < buffer@.width ==> !buffer@.column_visible_in(
                    i,
                    top as int,
                    bottom as int,
                ),
        },
{
    let width = buffer.width();
    let mut x: u32 = 0;
    while x < width
        invariant
            x <= width,
            width == buffer@.width,
            top <= bottom <= buffer@.height,
            forall|i: int| 0 <= i < x ==> !buffer@.column_visible_in(i, top as int, bottom as int),
        decreases width - x,
    {
        if column_has_visible(buffer, x, top, bottom) {
            return Some(x);
        }
        x += 1;
    }
    None
}

/// The first column from the right that holds a visible pixel in the rows
/// `top..bottom`.
fn last_visible_column(buffer: &PixelBuffer, top: u32, bottom: u32) -> (column: Option<u32>)
    requires
        top <= bottom <= buffer@.height,
    ensures
        match column {
            Some(x) => x < buffer@.width && buffer@.column_visible_in(
                x as int,
                top as int,
                bottom as int,
            ) && forall|i: int|
                x < i < buffer@.width ==> !buffer@.column_visible_in(
                    i,
                    top as int,
                    bottom as int,
                ),
            None => forall|i: int|
                0 <= i < buffer@.width ==> !buffer@.column_visible_in(
                    i,
                    top as int,
                    bottom as int,
                ),
        },
{
    let width = buffer.width();
    let mut x: u32 = width;
    while x > 0
        invariant
            x <= width,
            width == buffer@.width,
            top <= bottom <= buffer@.height,
            forall|i: int|
                x <= i < width ==> !buffer@.column_visible_in(i, top as int, bottom as int),
        decreases x,
    {
        x -= 1;
        if column_has_visible(buffer, x, top, bottom) {
            return Some(x);
        }
    }
    None
}

/// Finds the bounding box of the visible pixels of `buffer`.
///
/// Rows are scanned from the top and from the bottom until one holds a
/// visible pixel; columns are then scanned from the left and from the right
/// within that band of rows. A fully transparent image keeps its whole area.
pub fn detect(buffer: &PixelBuffer) -> (area: Rectangle)
    ensures
        buffer@.bounded_by(area),
        area == buffer@.bounding_box(),
        buffer@.blank() ==> area == Rectangle::full(buffer@.width as u32, buffer@.height as u32),
{
    let width = buffer.width();
    let height = buffer.height();
    let top = match first_visible_row(buffer) {
        Some(y) => y,
        None => 0,
    };
    let bottom = match last_visible_row(buffer) {
        Some(y) => y + 1,
        None => height,
    };
    let left = match first_visible_column(buffer, top, bottom) {
        Some(x) => x,
        None => 0,
    };
    let right = match last_visible_column(buffer, top, bottom) {
        Some(x) => x + 1,
        None => width,
    };
    let area = Rectangle { left, top, right, bottom };
    proof {
        let image = buffer@;
        if image.blank() {
            assert(area == Rectangle::full(image.width as u32, image.height as u32));
        } else {
            let (x0, y0) = choose|x: int, y: int| image.visible(x, y);
            assert(image.visible(x0, y0));
            assert(image.row_visible(y0));
            assert(image.column_visible_in(x0, top as int, bottom as int));
            assert forall|x: int, y: int| image.visible(x, y) implies area.contains(x, y) by {
                assert(image.row_visible(y));
                assert(image.column_visible_in(x, top as int, bottom as int));
            }
            assert(image.row_visible(area.top as int));
            assert(image.row_visible(area.bottom - 1));
            let y_left = choose|y: int| top <= y < bottom && image.visible(left as int, y);
            assert(image.visible(area.left as int, y_left));
            let last_column: int = right - 1;
            let y_right = choose|y: int| top <= y < bottom && image.visible(last_column, y);
            assert(image.visible(last_column, y_right));
        }
        image.lemma_bounding_box_is(area);
    }
    area
}

} // verus!
