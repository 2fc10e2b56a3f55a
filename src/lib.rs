//! Pixel buffering and minimal-update planning for SSD1306-style monochrome displays.
//!
//! The library keeps a one-bit-per-pixel framebuffer packed into page bytes, tracks the
//! bounding box of pixels changed since the last flush, and plans the smallest transfer
//! (one addressing window and a run of page-row byte spans) that brings the panel in sync.
//! Sending the planned bytes over a bus is left to the caller.
pub mod geometry;
pub mod rotation;
pub mod transfer;
pub mod model;
pub mod buffered_graphics;
pub mod laws;

pub use geometry::{
    DisplaySize128x32, DisplaySize128x64, DisplaySize64x48, DisplaySize72x40, DisplaySize96x16,
    Geometry,
};
pub use rotation::DisplayRotation;
pub use transfer::Transfer;
pub use buffered_graphics::{BufferedGraphicsMode, Ssd1306};
