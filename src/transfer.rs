//! A planned update of the panel: one addressing window and the page-row spans to stream.
use vstd::prelude::*;

verus! {

/// Abstract content of a [`Transfer`].
pub struct TransferModel {
    pub start: (u8, u8),
    pub end: (u8, u8),
    pub chunks: Seq<Seq<u8>>,
}

/// The bytes one flush sends.
///
/// `start` is the controller (column, row) of the window's first cell; `end` holds the
/// column just past the window and a row on its last page. Each entry of `chunks` is one
/// contiguous span of a page row, in increasing page order, to be sent as one data write.
pub struct Transfer {
    pub start: (u8, u8),
    pub end: (u8, u8),
    pub chunks: Vec<Vec<u8>>,
}

impl View for Transfer {
    type V = TransferModel;

    open spec fn view(&self) -> TransferModel {
        TransferModel {
            start: self.start,
            end: self.end,
            chunks: self.chunks@.map_values(|c: Vec<u8>| c@),
        }
    }
}

/// `v - 1`, stopping at zero.
pub open spec fn saturating_dec(v: u8) -> u8 {
    if v == 0 {
        0
    } else {
        (v - 1) as u8
    }
}

/// Opcode that sets the controller's column window.
pub const COLUMN_ADDRESS: u8 = 0x21;

/// Opcode that sets the controller's page window.
pub const PAGE_ADDRESS: u8 = 0x22;

impl Transfer {
    /// Command bytes that set the column window: first and last column, inclusive.
    pub fn column_address(&self) -> (r: Vec<u8>)
        ensures
            r@ == seq![COLUMN_ADDRESS, self.start.0, saturating_dec(self.end.0)],
    {
        let last: u8 = if self.end.0 == 0 {
            0
        } else {
            self.end.0 - 1
        };
        let mut r: Vec<u8> = Vec::new();
        r.push(COLUMN_ADDRESS);
        r.push(self.start.0);
        r.push(last);
        r
    }

    /// Command bytes that set the page window: first and last page, inclusive.
    pub fn page_address(&self) -> (r: Vec<u8>)
        ensures
            r@ == seq![PAGE_ADDRESS, self.start.1 / 8, saturating_dec(self.end.1) / 8],
    {
        let last: u8 = if self.end.1 == 0 {
            0
        } else {
            self.end.1 - 1
        };
        let mut r: Vec<u8> = Vec::new();
        r.push(PAGE_ADDRESS);
        r.push(self.start.1 / 8);
        r.push(last / 8);
        r
    }
}

} // verus!
