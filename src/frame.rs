//! The raw frames that a GIF stream is made of, before compositing.

use vstd::prelude::*;

verus! {

/// What happens to the canvas once a frame's display time is over.
#[derive(Clone, Copy, Debug, PartialEq, Eq, Structural)]
pub enum Disposal {
    /// No disposal was requested: the next frame draws over this one.
    Unspecified,
    /// The frame is left in place: the next frame draws over this one.
    DoNotDispose,
    /// The frame's rectangle is cleared to fully transparent.
    RestoreToBackground,
    /// The canvas goes back to what it was before this frame was drawn.
    RestoreToPrevious,
}

/// One frame of the stream: an RGBA sub-rectangle placed on the canvas.
#[derive(Clone, Debug)]
pub struct RawFrame {
    pub left: u16,
    pub top: u16,
    pub width: u16,
    pub height: u16,
    pub dispose: Disposal,
    /// Display time in hundredths of a second, as the stream declares it.
    pub delay: u16,
    /// Four bytes (red, green, blue, alpha) per pixel, row by row.
    pub buffer: Vec<u8>,
}

impl RawFrame {
    /// The buffer holds exactly one RGBA pixel for each point of the rectangle.
    pub open spec fn wf(&self) -> bool {
        self.buffer@.len() == self.width as int * self.height as int * 4
    }

    /// The point (x, y) of the canvas lies inside this frame's rectangle.
    pub open spec fn covers(&self, x: int, y: int) -> bool {
        self.left <= x < self.left + self.width && self.top <= y < self.top + self.height
    }

    /// Index in `buffer` of channel `ch` of the frame pixel that lands on canvas point (x, y).
    pub open spec fn src_index(&self, x: int, y: int, ch: int) -> int {
        ((y - self.top) * self.width + (x - self.left)) * 4 + ch
    }

    /// The frame writes canvas point (x, y): it covers it with a pixel whose alpha is not zero.
    pub open spec fn paints(&self, x: int, y: int) -> bool {
        &&& self.covers(x, y)
        &&& self.buffer@[self.src_index(x, y, 3)] != 0
    }

    pub fn is_well_formed(&self) -> (r: bool)
        ensures
            r == self.wf(),
    {
        let w = self.width as u64;
        let h = self.height as u64;
        assert(w * h <= 0xffff * 0xffff) by (nonlinear_arith)
            requires
                w <= 0xffff,
                h <= 0xffff,
        ;
        self.buffer.len() as u64 == w * h * 4
    }
}

} // verus!
