//! Monochrome 64x32 framebuffer with XOR-merge pixel writes.
//!
//! Writing a true pixel toggles the stored bit; writing false leaves it
//! unchanged. A write that turns a lit pixel off is reported as "pixel
//! erased" (a collision, for the VF flag of the draw opcode). Coordinates
//! wrap modulo the width and height. A dirty flag records that the grid
//! changed since the last presented frame.

use vstd::prelude::*;

verus! {

pub const DISPLAY_W: usize = 64;

pub const DISPLAY_H: usize = 32;

pub const DISPLAY_PIXELS: usize = 2048;

/// Index of the pixel at `(x, y)` in the flat row-major grid.
pub open spec fn pixel_index(x: int, y: int) -> int
    recommends
        0 <= x < DISPLAY_W,
        0 <= y < DISPLAY_H,
{
    y * 64 + x
}

pub struct Display {
    pub pixels: [bool; DISPLAY_PIXELS],
    pub redraw: bool,
}

impl Display {
    /// An empty grid; the first frame still needs to be presented, so the
    /// dirty flag starts set.
    pub fn new() -> (d: Self)
        ensures
            forall|i: int| 0 <= i < DISPLAY_PIXELS ==> !d.pixels@[i],
            d.redraw,
    {
        Self { pixels: [false; DISPLAY_PIXELS], redraw: true }
    }

    /// Zero the grid and mark it dirty.
    pub fn clear(&mut self)
        ensures
            forall|i: int| 0 <= i < DISPLAY_PIXELS ==> !final(self).pixels@[i],
            final(self).redraw,
    {
        self.pixels = [false; DISPLAY_PIXELS];
        self.redraw = true;
    }

    /// XOR-merge one pixel at `(x mod 64, y mod 32)`.
    ///
    /// The stored bit toggles exactly when `pixel` is true; `erased` reports
    /// that a lit pixel became unlit. The dirty flag is set exactly when the
    /// write changed the grid.
    pub fn set_pixel(&mut self, x: usize, y: usize, pixel: bool) -> (erased: bool)
        ensures
            erased == (old(self).pixels@[pixel_index(x as int % 64, y as int % 32)] && pixel),
            final(self).pixels@ == old(self).pixels@.update(
                pixel_index(x as int % 64, y as int % 32),
                (old(self).pixels@[pixel_index(x as int % 64, y as int % 32)] != pixel),
            ),
            final(self).redraw == (old(self).redraw || pixel),
    {
        let xi: usize = x % 64;
        let yi: usize = y % 32;
        let i: usize = yi * 64 + xi;
        let lit: bool = self.pixels[i];
        if pixel {
            self.redraw = true;
        }
        self.pixels[i] = lit != pixel;
        lit && pixel
    }

    pub fn height(&self) -> (h: usize)
        ensures
            h == DISPLAY_H,
    {
        DISPLAY_H
    }

    /// Whether the grid changed since the dirty flag was last consumed.
    pub fn redraw(&self) -> (r: bool)
        ensures
            r == self.redraw,
    {
        self.redraw
    }

    /// Report and clear the redraw-needed flag: exactly one redraw is
    /// requested per frame in which any pixel changed, and none otherwise.
    pub fn consume_dirty(&mut self) -> (r: bool)
        ensures
            r == old(self).redraw,
            !final(self).redraw,
            final(self).pixels == old(self).pixels,
    {
        let r = self.redraw;
        self.redraw = false;
        r
    }

    /// Read one pixel of the grid.
    pub fn pixel(&self, x: usize, y: usize) -> (lit: bool)
        requires
            x < DISPLAY_W,
            y < DISPLAY_H,
        ensures
            lit == self.pixels@[pixel_index(x as int, y as int)],
    {
        self.pixels[y * 64 + x]
    }
}

} // verus!
