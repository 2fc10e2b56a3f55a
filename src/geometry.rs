//! Per-model display geometry.
use vstd::prelude::*;

verus! {

/// Fixed dimensions of one display model and its place in the controller's grid.
#[derive(Clone, Copy, Debug, PartialEq, Eq, Structural)]
pub struct Geometry {
    /// Width in pixels.
    pub width: u8,
    /// Height in pixels.
    pub height: u8,
    /// First controller column that the panel uses.
    pub offset_x: u8,
    /// First controller row that the panel uses.
    pub offset_y: u8,
    /// Number of columns that the controller addresses.
    pub driver_cols: u8,
    /// Framebuffer size in bytes: one bit per pixel.
    pub buffer_size: usize,
}

impl Geometry {
    /// The descriptor is consistent: whole pages that line up with the controller's pages,
    /// a buffer of one bit per pixel, and a panel that lies inside the controller's column
    /// range and its 8-bit row numbering.
    pub open spec fn wf(self) -> bool {
        &&& self.width > 0
        &&& self.height > 0
        &&& self.height % 8 == 0
        &&& self.buffer_size == self.width * self.height / 8
        &&& self.offset_x + self.width <= self.driver_cols
        &&& self.offset_y % 8 == 0
        &&& self.offset_y + self.height <= 256
    }

    /// Builds a descriptor, or `None` when the values are inconsistent.
    pub fn new(width: u8, height: u8, offset_x: u8, offset_y: u8, driver_cols: u8) -> (r: Option<
        Geometry,
    >)
        ensures
            r is Some <==> (Geometry {
                width,
                height,
                offset_x,
                offset_y,
                driver_cols,
                buffer_size: (width * height / 8) as usize,
            }).wf(),
            r matches Some(g) ==> g == (Geometry {
                width,
                height,
                offset_x,
                offset_y,
                driver_cols,
                buffer_size: (width * height / 8) as usize,
            }),
    {
        proof {
            lemma_area_bound(width, height);
        }
        let size: usize = (width as usize) * (height as usize) / 8;
        let g = Geometry { width, height, offset_x, offset_y, driver_cols, buffer_size: size };
        if g.is_valid() {
            Some(g)
        } else {
            None
        }
    }

    /// Tells whether the descriptor is consistent.
    pub fn is_valid(&self) -> (r: bool)
        ensures
            r == self.wf(),
    {
        proof {
            lemma_area_bound(self.width, self.height);
        }
        self.width > 0 && self.height > 0 && self.height % 8 == 0 && self.buffer_size == (
        self.width as usize) * (self.height as usize) / 8 && (self.offset_x as u16) + (
        self.width as u16) <= (self.driver_cols as u16) && (self.offset_y as u16) + (
        self.height as u16) <= 256 && self.offset_y % 8 == 0
    }
}

/// The pixel count of a panel fits comfortably in a machine word.
proof fn lemma_area_bound(w: u8, h: u8)
    ensures
        0 <= w * h <= 255 * 255,
{
    assert(0 <= w * h <= 255 * 255) by (nonlinear_arith)
        requires
            0 <= w <= 255,
            0 <= h <= 255,
    ;
}

/// Number of columns that the SSD1306 controller drives.
pub const DRIVER_COLS: u8 = 128;

/// The common 128x64 panels.
pub struct DisplaySize128x64;

/// The common 128x32 panels.
pub struct DisplaySize128x32;

/// The common 96x16 panels.
pub struct DisplaySize96x16;

/// The common 72x40 panels, centred in the controller's columns.
pub struct DisplaySize72x40;

/// The common 64x48 panels, centred in the controller's columns.
pub struct DisplaySize64x48;

impl DisplaySize128x64 {
    /// The geometry of this model.
    pub fn geometry(&self) -> (r: Geometry)
        ensures
            r == (Geometry {
                width: 128,
                height: 64,
                offset_x: 0,
                offset_y: 0,
                driver_cols: 128,
                buffer_size: 1024,
            }),
            r.wf(),
    {
        Geometry {
            width: 128,
            height: 64,
            offset_x: 0,
            offset_y: 0,
            driver_cols: DRIVER_COLS,
            buffer_size: 1024,
        }
    }
}

impl DisplaySize128x32 {
    /// The geometry of this model.
    pub fn geometry(&self) -> (r: Geometry)
        ensures
            r == (Geometry {
                width: 128,
                height: 32,
                offset_x: 0,
                offset_y: 0,
                driver_cols: 128,
                buffer_size: 512,
            }),
            r.wf(),
    {
        Geometry {
            width: 128,
            height: 32,
            offset_x: 0,
            offset_y: 0,
            driver_cols: DRIVER_COLS,
            buffer_size: 512,
        }
    }
}

impl DisplaySize96x16 {
    /// The geometry of this model.
    pub fn geometry(&self) -> (r: Geometry)
        ensures
            r == (Geometry {
                width: 96,
                height: 16,
                offset_x: 0,
                offset_y: 0,
                driver_cols: 128,
                buffer_size: 192,
            }),
            r.wf(),
    {
        Geometry {
            width: 96,
            height: 16,
            offset_x: 0,
            offset_y: 0,
            driver_cols: DRIVER_COLS,
            buffer_size: 192,
        }
    }
}

impl DisplaySize72x40 {
    /// The geometry of this model.
    pub fn geometry(&self) -> (r: Geometry)
        ensures
            r == (Geometry {
                width: 72,
                height: 40,
                offset_x: 28,
                offset_y: 0,
                driver_cols: 128,
                buffer_size: 360,
            }),
            r.wf(),
    {
        Geometry {
            width: 72,
            height: 40,
            offset_x: 28,
            offset_y: 0,
            driver_cols: DRIVER_COLS,
            buffer_size: 360,
        }
    }
}

impl DisplaySize64x48 {
    /// The geometry of this model.
    pub fn geometry(&self) -> (r: Geometry)
        ensures
            r == (Geometry {
                width: 64,
                height: 48,
                offset_x: 32,
                offset_y: 0,
                driver_cols: 128,
                buffer_size: 384,
            }),
            r.wf(),
    {
        Geometry {
            width: 64,
            height: 48,
            offset_x: 32,
            offset_y: 0,
            driver_cols: DRIVER_COLS,
            buffer_size: 384,
        }
    }
}

} // verus!
