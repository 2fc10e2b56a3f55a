//! Buffered graphics mode: a framebuffer in memory, dirty tracking and flush planning.
use vstd::prelude::*;
use vstd::slice::{slice_subrange, slice_to_vec};
use crate::geometry::Geometry;
use crate::model::{
    DisplayModel, after_flush, buffer_window, chunk_rows, clear_spec, covers_picture, dirty_area_spec, draw_spec,
    flush_output, fresh, page_count, planned_transfer, set_pixel_spec, set_rotation_spec,
};
use crate::rotation::{
    DisplayRotation, device_point, dimensions, fits_u8, map_device_rect, map_pixel,
};
use crate::transfer::Transfer;

verus! {

/// Framebuffer and dirty region of a display in buffered mode.
pub struct BufferedGraphicsMode {
    pub(crate) buffer: Vec<u8>,
    pub(crate) min_x: u8,
    pub(crate) max_x: u8,
    pub(crate) min_y: u8,
    pub(crate) max_y: u8,
}

impl BufferedGraphicsMode {
    /// A blank buffer of `buffer_size` bytes for a picture `width` by `height` pixels
    /// (under the display's rotation), with the whole picture marked dirty so that the
    /// first flush repaints everything.
    pub(crate) fn new(buffer_size: usize, width: u8, height: u8) -> (r: Self)
        requires
            width > 0,
            height > 0,
        ensures
            r.buffer@ == Seq::new(buffer_size as nat, |i: int| 0u8),
            r.min_x == 0 && r.max_x == width - 1 && r.min_y == 0 && r.max_y == height - 1,
    {
        let buffer: Vec<u8> = vec![0u8; buffer_size];
        proof {
            assert(buffer@ =~= Seq::new(buffer_size as nat, |i: int| 0u8));
        }
        BufferedGraphicsMode { buffer, min_x: 0, max_x: width - 1, min_y: 0, max_y: height - 1 }
    }
}

/// A monochrome display in buffered graphics mode.
pub struct Ssd1306 {
    size: Geometry,
    rotation: DisplayRotation,
    mode: BufferedGraphicsMode,
}

impl View for Ssd1306 {
    type V = DisplayModel;

    closed spec fn view(&self) -> DisplayModel {
        DisplayModel {
            geometry: self.size,
            rotation: self.rotation,
            buffer: self.mode.buffer@,
            min_x: self.mode.min_x,
            max_x: self.mode.max_x,
            min_y: self.mode.min_y,
            max_y: self.mode.max_y,
        }
    }
}

impl Ssd1306 {
    /// A display with a blank buffer and the whole picture dirty, or `None` when the
    /// geometry is inconsistent.
    pub fn new(size: Geometry, rotation: DisplayRotation) -> (r: Option<Ssd1306>)
        ensures
            r is Some <==> size.wf(),
            r matches Some(d) ==> d@ == fresh(size, rotation) && d@.wf(),
            r matches Some(d) ==> covers_picture(d@),
    {
        if !size.is_valid() {
            return None;
        }
        let (width, height) = dimensions(&size, rotation);
        let d = Ssd1306 {
            size,
            rotation,
            mode: BufferedGraphicsMode::new(size.buffer_size, width, height),
        };
        proof {
            assert(d@ =~= fresh(size, rotation));
        }
        Some(d)
    }

    /// Logical width and height under the current rotation.
    pub fn dimensions(&self) -> (r: (u8, u8))
        ensures
            r == (self@.width(), self@.height()),
    {
        dimensions(&self.size, self.rotation)
    }

    /// Marks the whole picture dirty.
    fn mark_all_dirty(&mut self)
        requires
            old(self)@.geometry.wf(),
            old(self)@.buffer.len() == old(self)@.geometry.buffer_size,
        ensures
            final(self)@ == old(self)@.all_dirty(),
            final(self)@.wf(),
    {
        let (width, height) = self.dimensions();
        self.mode.min_x = 0;
        self.mode.max_x = width - 1;
        self.mode.min_y = 0;
        self.mode.max_y = height - 1;
    }

    /// Fills the buffer and marks the whole picture dirty.
    fn clear_impl(&mut self, value: bool)
        requires
            old(self)@.wf(),
        ensures
            final(self)@ == clear_spec(old(self)@, value),
            final(self)@.wf(),
            covers_picture(final(self)@),
            final(self)@.rotation == old(self)@.rotation,
            final(self)@.geometry == old(self)@.geometry,
    {
        let fill: u8 = if value {
            0xff
        } else {
            0
        };
        let n = self.mode.buffer.len();
        self.mode.buffer = vec![fill; n];
        proof {
            assert(self.mode.buffer@ =~= Seq::new(
                n as nat,
                |i: int|
                    if value {
                        0xffu8
                    } else {
                        0u8
                    },
            ));
        }
        self.mark_all_dirty();
        proof {
            assert(self@ =~= clear_spec(old(self)@, value));
        }
    }

    /// Sets every pixel to `value` (on or off) and marks the whole picture dirty, so that
    /// the next flush repaints everything.
    pub fn clear(&mut self, value: bool)
        requires
            old(self)@.wf(),
        ensures
            final(self)@ == clear_spec(old(self)@, value),
            final(self)@.wf(),
            covers_picture(final(self)@),
            final(self)@.rotation == old(self)@.rotation,
            final(self)@.geometry == old(self)@.geometry,
    {
        self.clear_impl(value);
    }

    /// Changes the rotation; the buffer is kept and the whole picture marked dirty.
    pub fn set_rotation(&mut self, rotation: DisplayRotation)
        requires
            old(self)@.wf(),
        ensures
            final(self)@ == set_rotation_spec(old(self)@, rotation),
            final(self)@.wf(),
            covers_picture(final(self)@),
            final(self)@.rotation == rotation,
            final(self)@.buffer == old(self)@.buffer,
    {
        self.rotation = rotation;
        self.mark_all_dirty();
    }

    /// Turns a pixel on or off. Coordinates off the picture are ignored.
    pub fn set_pixel(&mut self, x: u32, y: u32, value: bool)
        requires
            old(self)@.wf(),
        ensures
            final(self)@ == set_pixel_spec(old(self)@, x, y, value),
            final(self)@.wf(),
    {
        let (width, height) = self.dimensions();
        if x >= width as u32 || y >= height as u32 {
            return;
        }
        let x = x as u8;
        let y = y as u8;
        let (idx, bit) = map_pixel(&self.size, self.rotation, x, y);
        let value: u8 = if value {
            1
        } else {
            0
        };

        self.mode.min_x = if x < self.mode.min_x {
            x
        } else {
            self.mode.min_x
        };
        self.mode.max_x = if x > self.mode.max_x {
            x
        } else {
            self.mode.max_x
        };
        self.mode.min_y = if y < self.mode.min_y {
            y
        } else {
            self.mode.min_y
        };
        self.mode.max_y = if y > self.mode.max_y {
            y
        } else {
            self.mode.max_y
        };

        let byte = self.mode.buffer[idx];
        self.mode.buffer.set(idx, byte & !(1u8 << bit) | (value << bit));
        proof {
            assert(self@ =~= set_pixel_spec(old(self)@, x as u32, y as u32, value == 1));
        }
    }

    /// The dirty box widened to whole pages (see `dirty_area_spec`).
    pub fn dirty_area(&self, width: u8, height: u8) -> (r: ((u8, u8), (u8, u8)))
        requires
            self@.wf(),
            !self@.is_clean(),
            width == self@.width(),
            height == self@.height(),
        ensures
            r == dirty_area_spec(self@),
    {
        let min = (self.mode.min_x, self.mode.min_y);
        let max = match self.rotation {
            DisplayRotation::Rotate0 | DisplayRotation::Rotate180 => {
                let x = self.mode.max_x + 1;
                let y = self.mode.max_y | 7;
                (
                    if x < width {
                        x
                    } else {
                        width
                    },
                    if y < height {
                        y
                    } else {
                        height
                    },
                )
            },
            DisplayRotation::Rotate90 | DisplayRotation::Rotate270 => {
                let x = self.mode.max_x | 7;
                let y = self.mode.max_y + 1;
                (
                    if x < width {
                        x
                    } else {
                        width
                    },
                    if y < height {
                        y
                    } else {
                        height
                    },
                )
            },
        };
        (min, max)
    }

    /// Controller coordinates of the logical corners `disp_min` and `disp_max`.
    pub fn display_area(&self, disp_min: (u8, u8), disp_max: (u8, u8)) -> (r: ((u8, u8), (u8, u8)))
        requires
            self@.wf(),
            fits_u8(device_point(self@.geometry, self@.rotation, disp_min)),
            fits_u8(device_point(self@.geometry, self@.rotation, disp_max)),
        ensures
            (r.0.0 as int, r.0.1 as int) == device_point(self@.geometry, self@.rotation, disp_min),
            (r.1.0 as int, r.1.1 as int) == device_point(self@.geometry, self@.rotation, disp_max),
    {
        map_device_rect(&self.size, self.rotation, disp_min, disp_max)
    }

    /// Copies out the page-row spans of `buffer` inside the window from `upper_left` to
    /// `lower_right`, one per page, in increasing page order.
    fn flush_buffer_chunks(
        buffer: &[u8],
        disp_width: usize,
        upper_left: (u8, u8),
        lower_right: (u8, u8),
    ) -> (r: Vec<Vec<u8>>)
        requires
            upper_left.1 <= lower_right.1,
            upper_left.0 <= lower_right.0 <= disp_width,
            (upper_left.1 / 8 + page_count(upper_left.1, lower_right.1)) * disp_width
                <= buffer@.len(),
        ensures
            r@.map_values(|c: Vec<u8>| c@) == chunk_rows(
                buffer@,
                disp_width as int,
                upper_left,
                lower_right,
            ),
    {
        // Each page is 8 rows tall.
        let num_pages = ((lower_right.1 - upper_left.1) / 8) as usize + 1;
        let starting_page = (upper_left.1 / 8) as usize;
        let page_lower = upper_left.0 as usize;
        let page_upper = lower_right.0 as usize;
        let ghost want = chunk_rows(buffer@, disp_width as int, upper_left, lower_right);

        let buffer_len = buffer.len();
        let mut chunks: Vec<Vec<u8>> = Vec::new();
        let mut k: usize = 0;
        while k < num_pages
            invariant
                k <= num_pages,
                num_pages == page_count(upper_left.1, lower_right.1),
                starting_page == upper_left.1 / 8,
                page_lower == upper_left.0,
                page_upper == lower_right.0,
                page_lower <= page_upper <= disp_width,
                (starting_page + num_pages) * disp_width <= buffer@.len(),
                want == chunk_rows(buffer@, disp_width as int, upper_left, lower_right),
                buffer_len == buffer@.len(),
                chunks@.len() == k,
                forall|j: int| 0 <= j < k ==> (#[trigger] chunks@[j])@ == want[j],
            decreases num_pages - k,
        {
            proof {
                let sp = starting_page as int;
                let dw = disp_width as int;
                assert((sp + k) * dw + dw <= buffer@.len()) by (nonlinear_arith)
                    requires
                        k < num_pages,
                        0 <= dw,
                        0 <= sp,
                        (sp + num_pages) * dw <= buffer@.len(),
                ;
                assert(0 <= (sp + k) * dw) by (nonlinear_arith)
                    requires
                        0 <= dw,
                        0 <= sp + k,
                ;
            }
            let base = (starting_page + k) * disp_width;
            let row = slice_to_vec(slice_subrange(buffer, base + page_lower, base + page_upper));
            chunks.push(row);
            k += 1;
        }
        proof {
            assert(chunks@.map_values(|c: Vec<u8>| c@) =~= want);
        }
        chunks
    }

    /// Plans the update of the panel and marks the display clean.
    ///
    /// Returns `None` when nothing changed since the last flush. Otherwise the dirty box,
    /// widened to whole pages, becomes one addressing window and one byte span per touched
    /// page row. The dirty region is reset before the caller sends anything: if sending
    /// fails, the caller marks the picture dirty again (for instance through `set_rotation`
    /// with the current rotation) to have it repainted.
    pub fn flush(&mut self) -> (r: Option<Transfer>)
        requires
            old(self)@.wf(),
        ensures
            final(self)@ == after_flush(old(self)@),
            final(self)@.wf(),
            r is None <==> flush_output(old(self)@) is None,
            r matches Some(t) ==> flush_output(old(self)@) == Some(t@),
    {
        // Nothing to do if no pixels have changed since the last update
        if self.mode.max_x < self.mode.min_x || self.mode.max_y < self.mode.min_y {
            return None;
        }
        let (width, height) = self.dimensions();
        let (disp_min, disp_max) = self.dirty_area(width, height);
        proof {
            lemma_flush_window(self@);
        }
        let (area_start, area_end) = self.display_area(disp_min, disp_max);
        let ghost before = self@;

        self.mode.min_x = 255;
        self.mode.max_x = 0;
        self.mode.min_y = 255;
        self.mode.max_y = 0;

        let chunks = match self.rotation {
            DisplayRotation::Rotate0 | DisplayRotation::Rotate180 => Self::flush_buffer_chunks(
                self.mode.buffer.as_slice(),
                width as usize,
                (disp_min.0, disp_min.1),
                (disp_max.0, disp_max.1),
            ),
            DisplayRotation::Rotate90 | DisplayRotation::Rotate270 => Self::flush_buffer_chunks(
                self.mode.buffer.as_slice(),
                height as usize,
                (disp_min.1, disp_min.0),
                (disp_max.1, disp_max.0),
            ),
        };
        let t = Transfer { start: area_start, end: area_end, chunks };
        proof {
            assert(self@ =~= before.cleaned());
            assert(t@ =~= planned_transfer(before));
        }
        Some(t)
    }

    /// Draws `(x, y, on)` pixels in order, skipping those off the picture.
    pub fn draw_iter(&mut self, pixels: &[(i32, i32, bool)])
        requires
            old(self)@.wf(),
        ensures
            final(self)@ == draw_spec(old(self)@, pixels@),
            final(self)@.wf(),
    {
        let (width, height) = self.dimensions();
        let mut i: usize = 0;
        while i < pixels.len()
            invariant
                i <= pixels@.len(),
                self@.wf(),
                self@ == draw_spec(old(self)@, pixels@.subrange(0, i as int)),
                width == self@.width(),
                height == self@.height(),
            decreases pixels@.len() - i,
        {
            let (x, y, on) = pixels[i];
            proof {
                assert(pixels@.subrange(0, i + 1).drop_last() =~= pixels@.subrange(0, i as int));
            }
            if 0 <= x && x < width as i32 && 0 <= y && y < height as i32 {
                self.set_pixel(x as u32, y as u32, on);
            }
            i += 1;
        }
        proof {
            assert(pixels@.subrange(0, pixels@.len() as int) =~= pixels@);
        }
    }

    /// Logical width and height of the picture under the current rotation.
    pub fn size(&self) -> (r: (u32, u32))
        ensures
            r == (self@.width() as u32, self@.height() as u32),
    {
        let (w, h) = self.dimensions();
        (w as u32, h as u32)
    }

    /// The framebuffer: page bytes, one bit per pixel.
    pub fn buffer(&self) -> (r: &[u8])
        ensures
            r@ == self@.buffer,
    {
        self.mode.buffer.as_slice()
    }

    /// The dirty region as `(min_x, max_x, min_y, max_y)`; `max < min` means clean.
    pub fn dirty_bounds(&self) -> (r: (u8, u8, u8, u8))
        ensures
            r == (self@.min_x, self@.max_x, self@.min_y, self@.max_y),
    {
        (self.mode.min_x, self.mode.max_x, self.mode.min_y, self.mode.max_y)
    }

    /// The current rotation.
    pub fn rotation(&self) -> (r: DisplayRotation)
        ensures
            r == self@.rotation,
    {
        self.rotation
    }

    /// The display's geometry.
    pub fn geometry(&self) -> (r: Geometry)
        ensures
            r == self@.geometry,
    {
        self.size
    }
}

/// Filling the last page of a row range: `p | 7` stays on the page of `p` and below `h`.
pub(crate) proof fn lemma_page_end(p: u8, h: u8)
    requires
        p < h,
        h % 8 == 0,
    ensures
        (p | 7u8) / 8 == p / 8,
        (p | 7u8) % 8 == 7,
        (p | 7u8) < h,
{
    assert((p | 7u8) / 8 == p / 8) by (bit_vector);
    assert((p | 7u8) % 8 == 7) by (bit_vector);
    let q = (p | 7u8) as int;
    assert(q < h) by (nonlinear_arith)
        requires
            q / 8 == p as int / 8,
            q % 8 == 7,
            p < h,
            h % 8 == 0,
            0 <= p,
    ;
}

/// The page span from row `p0` to the end of the page of row `p1`, within `h` rows.
pub(crate) proof fn lemma_page_span(p0: u8, p1: u8, h: u8, w: u8)
    requires
        p0 <= p1 < h,
        h % 8 == 0,
        0 < w,
    ensures
        (p1 | 7u8) < h,
        p0 <= (p1 | 7u8),
        (p0 / 8 + page_count(p0, p1 | 7u8)) * w <= (w * h / 8),
{
    lemma_page_end(p1, h);
    let q = (p1 | 7u8) as int;
    assert((q - p0) / 8 == p1 as int / 8 - p0 as int / 8) by (nonlinear_arith)
        requires
            q / 8 == p1 as int / 8,
            q % 8 == 7,
            0 <= p0 <= p1,
    ;
    assert(p1 as int / 8 + 1 <= h as int / 8) by (nonlinear_arith)
        requires
            p1 < h,
            h % 8 == 0,
            0 <= p1,
    ;
    assert((p1 as int / 8 + 1) * w <= (h as int / 8) * w) by (nonlinear_arith)
        requires
            p1 as int / 8 + 1 <= h as int / 8,
            0 < w,
    ;
    assert(w * h / 8 == (h as int / 8) * w) by (nonlinear_arith)
        requires
            h % 8 == 0,
    ;
}

/// For a dirty display, the widened box maps to byte-sized controller coordinates and its
/// page-row spans lie inside the buffer.
pub(crate) proof fn lemma_flush_window(d: DisplayModel)
    requires
        d.wf(),
        !d.is_clean(),
    ensures
        fits_u8(device_point(d.geometry, d.rotation, dirty_area_spec(d).0)),
        fits_u8(device_point(d.geometry, d.rotation, dirty_area_spec(d).1)),
        buffer_window(d).0.1 <= buffer_window(d).1.1,
        buffer_window(d).0.0 <= buffer_window(d).1.0 <= d.geometry.width,
        (buffer_window(d).0.1 / 8 + page_count(buffer_window(d).0.1, buffer_window(d).1.1))
            * d.geometry.width <= d.buffer.len(),
{
    let g = d.geometry;
    if d.rotation.swaps_axes() {
        lemma_page_span(d.min_x, d.max_x, g.height, g.width);
    } else {
        lemma_page_span(d.min_y, d.max_y, g.height, g.width);
    }
}

} // verus!
