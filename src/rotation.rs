//! Display rotation and the mapping from logical pixels to buffer bits and controller cells.
use vstd::prelude::*;
use crate::geometry::Geometry;

verus! {

/// Orientation of the picture on the panel.
#[derive(Clone, Copy, Debug, PartialEq, Eq, Structural)]
pub enum DisplayRotation {
    /// No rotation.
    Rotate0,
    /// Rotated by 90 degrees.
    Rotate90,
    /// Rotated by 180 degrees.
    Rotate180,
    /// Rotated by 270 degrees.
    Rotate270,
}

impl DisplayRotation {
    /// Logical x and y trade places against the buffer's columns and pages.
    pub open spec fn swaps_axes(self) -> bool {
        self is Rotate90 || self is Rotate270
    }

    /// The controller scans its columns from the far edge.
    pub open spec fn mirrored(self) -> bool {
        self is Rotate90 || self is Rotate180
    }
}

/// Logical width and height of the picture under a rotation.
pub open spec fn logical_size(g: Geometry, r: DisplayRotation) -> (u8, u8) {
    if r.swaps_axes() {
        (g.height, g.width)
    } else {
        (g.width, g.height)
    }
}

/// Whether a logical coordinate lies on the picture.
pub open spec fn in_picture(g: Geometry, r: DisplayRotation, x: int, y: int) -> bool {
    0 <= x < logical_size(g, r).0 && 0 <= y < logical_size(g, r).1
}

/// Buffer byte index and bit position that hold logical pixel `(x, y)`.
pub open spec fn pixel_location(g: Geometry, r: DisplayRotation, x: int, y: int) -> (int, int) {
    if r.swaps_axes() {
        ((x / 8) * g.width + y, x % 8)
    } else {
        ((y / 8) * g.width + x, y % 8)
    }
}

/// First controller column of the panel as seen in the controller's scan direction.
pub open spec fn effective_offset_x(g: Geometry, r: DisplayRotation) -> int {
    if r.mirrored() {
        g.driver_cols - g.width - g.offset_x
    } else {
        g.offset_x as int
    }
}

/// Controller (column, row) of a logical corner point.
pub open spec fn device_point(g: Geometry, r: DisplayRotation, p: (u8, u8)) -> (int, int) {
    if r.swaps_axes() {
        (p.1 + effective_offset_x(g, r), p.0 + g.offset_y)
    } else {
        (p.0 + effective_offset_x(g, r), p.1 + g.offset_y)
    }
}

/// A point whose coordinates fit in a byte.
pub open spec fn fits_u8(p: (int, int)) -> bool {
    0 <= p.0 <= 255 && 0 <= p.1 <= 255
}

/// Logical width and height of the picture.
pub fn dimensions(g: &Geometry, r: DisplayRotation) -> (res: (u8, u8))
    ensures
        res == logical_size(*g, r),
{
    match r {
        DisplayRotation::Rotate0 | DisplayRotation::Rotate180 => (g.width, g.height),
        DisplayRotation::Rotate90 | DisplayRotation::Rotate270 => (g.height, g.width),
    }
}

/// Byte index and bit position of a pixel that lies on the picture.
pub fn map_pixel(g: &Geometry, r: DisplayRotation, x: u8, y: u8) -> (res: (usize, u8))
    requires
        g.wf(),
        in_picture(*g, r, x as int, y as int),
    ensures
        res.0 as int == pixel_location(*g, r, x as int, y as int).0,
        res.1 as int == pixel_location(*g, r, x as int, y as int).1,
        res.0 < g.buffer_size,
        res.1 < 8,
{
    let w = g.width as usize;
    let h = g.height as usize;
    proof {
        lemma_page_index_in_buffer(w as int, h as int, x as int, y as int);
        lemma_page_index_in_buffer(w as int, h as int, y as int, x as int);
    }
    match r {
        DisplayRotation::Rotate0 | DisplayRotation::Rotate180 => {
            ((y as usize) / 8 * w + (x as usize), y % 8)
        },
        DisplayRotation::Rotate90 | DisplayRotation::Rotate270 => {
            ((x as usize) / 8 * w + (y as usize), x % 8)
        },
    }
}

/// A column `c` below the width on a row `p` below the height lands inside the buffer.
pub(crate) proof fn lemma_page_index_in_buffer(w: int, h: int, c: int, p: int)
    requires
        0 < w <= 255,
        0 < h <= 255,
        h % 8 == 0,
        0 <= c,
        0 <= p,
    ensures
        (c < w && p < h) ==> (p / 8) * w + c < w * h / 8,
{
    if c < w && p < h {
        assert(p / 8 < h / 8) by (nonlinear_arith)
            requires
                p < h,
                h % 8 == 0,
                0 <= p,
        ;
        assert((p / 8) * w + w <= (h / 8) * w) by (nonlinear_arith)
            requires
                p / 8 < h / 8,
                0 < w,
        ;
        assert(w * h / 8 == (h / 8) * w) by (nonlinear_arith)
            requires
                h % 8 == 0,
        ;
    }
}

/// Controller coordinates of a logical rectangle's corners.
pub fn map_device_rect(g: &Geometry, r: DisplayRotation, min: (u8, u8), max: (u8, u8)) -> (res: (
    (u8, u8),
    (u8, u8),
))
    requires
        g.wf(),
        fits_u8(device_point(*g, r, min)),
        fits_u8(device_point(*g, r, max)),
    ensures
        (res.0.0 as int, res.0.1 as int) == device_point(*g, r, min),
        (res.1.0 as int, res.1.1 as int) == device_point(*g, r, max),
{
    let offset_x: u8 = match r {
        DisplayRotation::Rotate0 | DisplayRotation::Rotate270 => g.offset_x,
        DisplayRotation::Rotate180 | DisplayRotation::Rotate90 => {
            // The controller scans from the other edge, so count the offset from there.
            g.driver_cols - g.width - g.offset_x
        },
    };
    match r {
        DisplayRotation::Rotate0 | DisplayRotation::Rotate180 => (
            (min.0 + offset_x, min.1 + g.offset_y),
            (max.0 + offset_x, max.1 + g.offset_y),
        ),
        DisplayRotation::Rotate90 | DisplayRotation::Rotate270 => (
            (min.1 + offset_x, min.0 + g.offset_y),
            (max.1 + offset_x, max.0 + g.offset_y),
        ),
    }
}

} // verus!
