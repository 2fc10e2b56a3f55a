//! Abstract state of a buffered display and the effect of each operation on it.
use vstd::prelude::*;
use crate::geometry::Geometry;
use crate::rotation::{DisplayRotation, device_point, in_picture, logical_size, pixel_location};
use crate::transfer::TransferModel;

verus! {

/// A display in buffered mode: configuration, framebuffer and dirty region.
///
/// The dirty region is the box `min_x..=max_x` by `min_y..=max_y` in logical coordinates;
/// `max < min` on either axis means that nothing changed since the last flush.
pub struct DisplayModel {
    pub geometry: Geometry,
    pub rotation: DisplayRotation,
    pub buffer: Seq<u8>,
    pub min_x: u8,
    pub max_x: u8,
    pub min_y: u8,
    pub max_y: u8,
}

/// The smaller of two bytes.
pub open spec fn min_u8(a: u8, b: u8) -> u8 {
    if a <= b {
        a
    } else {
        b
    }
}

/// The larger of two bytes.
pub open spec fn max_u8(a: u8, b: u8) -> u8 {
    if a >= b {
        a
    } else {
        b
    }
}

/// The smaller of two integers.
pub open spec fn min_int(a: int, b: int) -> int {
    if a <= b {
        a
    } else {
        b
    }
}

/// `b` with bit `bit` replaced by `v`.
pub open spec fn write_bit(b: u8, bit: u8, v: bool) -> u8 {
    (b & !(1u8 << bit)) | ((if v {
        1u8
    } else {
        0u8
    }) << bit)
}

/// Bit `bit` of `b`.
pub open spec fn read_bit(b: u8, bit: u8) -> bool {
    (b >> bit) & 1u8 == 1u8
}

impl DisplayModel {
    /// Logical width under the current rotation.
    pub open spec fn width(self) -> u8 {
        logical_size(self.geometry, self.rotation).0
    }

    /// Logical height under the current rotation.
    pub open spec fn height(self) -> u8 {
        logical_size(self.geometry, self.rotation).1
    }

    /// Nothing changed since the last flush.
    pub open spec fn is_clean(self) -> bool {
        self.max_x < self.min_x || self.max_y < self.min_y
    }

    /// The dirty region holds the empty sentinel.
    pub open spec fn has_clean_sentinel(self) -> bool {
        self.min_x == 255 && self.max_x == 0 && self.min_y == 255 && self.max_y == 0
    }

    /// The dirty region is a non-empty box inside the picture.
    pub open spec fn has_dirty_box(self) -> bool {
        self.min_x <= self.max_x < self.width() && self.min_y <= self.max_y < self.height()
    }

    pub open spec fn wf(self) -> bool {
        &&& self.geometry.wf()
        &&& self.buffer.len() == self.geometry.buffer_size
        &&& (self.has_clean_sentinel() || self.has_dirty_box())
    }

    /// The same state with the dirty region reset to empty.
    pub open spec fn cleaned(self) -> DisplayModel {
        DisplayModel { min_x: 255, max_x: 0, min_y: 255, max_y: 0, ..self }
    }

    /// The same state with the whole picture marked dirty.
    pub open spec fn all_dirty(self) -> DisplayModel {
        DisplayModel {
            min_x: 0,
            max_x: (self.width() - 1) as u8,
            min_y: 0,
            max_y: (self.height() - 1) as u8,
            ..self
        }
    }

    /// The pixel at logical `(x, y)` is on.
    pub open spec fn pixel(self, x: int, y: int) -> bool {
        let loc = pixel_location(self.geometry, self.rotation, x, y);
        read_bit(self.buffer[loc.0], loc.1 as u8)
    }
}

/// The dirty region is the whole picture.
pub open spec fn covers_picture(d: DisplayModel) -> bool {
    d.min_x == 0 && d.max_x == d.width() - 1 && d.min_y == 0 && d.max_y == d.height() - 1
}

/// A freshly made display: blank buffer, everything dirty.
pub open spec fn fresh(g: Geometry, r: DisplayRotation) -> DisplayModel {
    DisplayModel {
        geometry: g,
        rotation: r,
        buffer: Seq::new(g.buffer_size as nat, |i: int| 0u8),
        min_x: 0,
        max_x: 0,
        min_y: 0,
        max_y: 0,
    }.all_dirty()
}

/// Effect of setting logical pixel `(x, y)` to `v`; coordinates off the picture change nothing.
pub open spec fn set_pixel_spec(d: DisplayModel, x: u32, y: u32, v: bool) -> DisplayModel {
    if in_picture(d.geometry, d.rotation, x as int, y as int) {
        let loc = pixel_location(d.geometry, d.rotation, x as int, y as int);
        DisplayModel {
            buffer: d.buffer.update(loc.0, write_bit(d.buffer[loc.0], loc.1 as u8, v)),
            min_x: min_u8(d.min_x, x as u8),
            max_x: max_u8(d.max_x, x as u8),
            min_y: min_u8(d.min_y, y as u8),
            max_y: max_u8(d.max_y, y as u8),
            ..d
        }
    } else {
        d
    }
}

/// Effect of setting each pixel of `pts` in turn.
pub open spec fn set_pixels_spec(d: DisplayModel, pts: Seq<(u32, u32, bool)>) -> DisplayModel
    decreases pts.len(),
{
    if pts.len() == 0 {
        d
    } else {
        let p = pts.last();
        set_pixel_spec(set_pixels_spec(d, pts.drop_last()), p.0, p.1, p.2)
    }
}

/// Effect of drawing signed-coordinate pixels: those off the picture are skipped.
pub open spec fn draw_spec(d: DisplayModel, pts: Seq<(i32, i32, bool)>) -> DisplayModel
    decreases pts.len(),
{
    if pts.len() == 0 {
        d
    } else {
        let p = pts.last();
        let e = draw_spec(d, pts.drop_last());
        if in_picture(e.geometry, e.rotation, p.0 as int, p.1 as int) {
            set_pixel_spec(e, p.0 as u32, p.1 as u32, p.2)
        } else {
            e
        }
    }
}

/// Effect of filling the buffer with `v` and marking everything dirty.
pub open spec fn clear_spec(d: DisplayModel, v: bool) -> DisplayModel {
    DisplayModel {
        buffer: Seq::new(
            d.buffer.len(),
            |i: int|
                if v {
                    0xffu8
                } else {
                    0u8
                },
        ),
        ..d
    }.all_dirty()
}

/// Effect of changing the rotation: the buffer stays, everything becomes dirty.
pub open spec fn set_rotation_spec(d: DisplayModel, r: DisplayRotation) -> DisplayModel {
    DisplayModel { rotation: r, ..d }.all_dirty()
}

/// The dirty box widened to whole pages: its first corner, and its far corner with the
/// column exclusive and the row on the last touched page.
pub open spec fn dirty_area_spec(d: DisplayModel) -> ((u8, u8), (u8, u8)) {
    if d.rotation.swaps_axes() {
        (
            (d.min_x, d.min_y),
            (
                min_int((d.max_x | 7u8) as int, d.width() as int) as u8,
                min_int(d.max_y + 1, d.height() as int) as u8,
            ),
        )
    } else {
        (
            (d.min_x, d.min_y),
            (
                min_int(d.max_x + 1, d.width() as int) as u8,
                min_int((d.max_y | 7u8) as int, d.height() as int) as u8,
            ),
        )
    }
}

/// The widened dirty box in buffer terms: (column, row) corners, rows counting pixels.
pub open spec fn buffer_window(d: DisplayModel) -> ((u8, u8), (u8, u8)) {
    let a = dirty_area_spec(d);
    if d.rotation.swaps_axes() {
        ((a.0.1, a.0.0), (a.1.1, a.1.0))
    } else {
        a
    }
}

/// Number of pages that rows `upper..=lower` span when `lower` ends its page.
pub open spec fn page_count(upper: u8, lower: u8) -> int {
    (lower - upper) / 8 + 1
}

/// The page-row spans of `buffer` (rows of `row_len` bytes) inside the window
/// `upper_left`..`lower_right`: columns `upper_left.0..lower_right.0` of each page from the
/// one holding row `upper_left.1` on.
pub open spec fn chunk_rows(buffer: Seq<u8>, row_len: int, upper_left: (u8, u8), lower_right: (
    u8,
    u8,
)) -> Seq<Seq<u8>> {
    Seq::new(
        page_count(upper_left.1, lower_right.1) as nat,
        |k: int|
            buffer.subrange(
                (upper_left.1 / 8 + k) * row_len + upper_left.0,
                (upper_left.1 / 8 + k) * row_len + lower_right.0,
            ),
    )
}

/// A controller point as bytes.
pub open spec fn as_bytes(p: (int, int)) -> (u8, u8) {
    (p.0 as u8, p.1 as u8)
}

/// The transfer that a flush of a dirty display sends.
pub open spec fn planned_transfer(d: DisplayModel) -> TransferModel {
    let a = dirty_area_spec(d);
    let w = buffer_window(d);
    TransferModel {
        start: as_bytes(device_point(d.geometry, d.rotation, a.0)),
        end: as_bytes(device_point(d.geometry, d.rotation, a.1)),
        chunks: chunk_rows(d.buffer, d.geometry.width as int, w.0, w.1),
    }
}

/// What a flush sends: nothing when the display is clean.
pub open spec fn flush_output(d: DisplayModel) -> Option<TransferModel> {
    if d.is_clean() {
        None
    } else {
        Some(planned_transfer(d))
    }
}

/// State after a flush: the dirty region is empty.
pub open spec fn after_flush(d: DisplayModel) -> DisplayModel {
    if d.is_clean() {
        d
    } else {
        d.cleaned()
    }
}

} // verus!
