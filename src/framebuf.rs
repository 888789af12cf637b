//! Frame buffers of 8-bit RGB samples.
use vstd::prelude::*;

verus! {

/// Width of the LED matrix in pixels.
pub const PANEL_WIDTH: usize = 64;

/// Height of the LED matrix in pixels.
pub const PANEL_HEIGHT: usize = 64;

/// An `X` by `Y` grid of RGB pixels, stored row by row, three samples per pixel.
#[derive(Copy, Clone)]
pub struct FrameBuf<const X: usize, const Y: usize>(pub [[[u8; 3]; X]; Y]);

/// The frame buffer shown on the LED matrix.
pub type MainFrameBuf = FrameBuf<64, 64>;

/// The frame buffer shown on the small LCD.
pub type SubFrameBuf = FrameBuf<160, 80>;

impl<const X: usize, const Y: usize> FrameBuf<X, Y> {
    /// Sample `ch` (0 red, 1 green, 2 blue) of the pixel in row `y`, column `x`.
    pub open spec fn sample(&self, y: int, x: int, ch: int) -> u8 {
        self.0@[y]@[x]@[ch]
    }

    /// Set all pixels to black.
    pub fn clear_black(&mut self)
        ensures
            forall|y: int, x: int, ch: int|
                0 <= y < Y && 0 <= x < X && 0 <= ch < 3 ==> #[trigger] final(self).sample(y, x, ch) == 0,
    {
        let mut y: usize = 0;
        while y < Y
            invariant
                0 <= y <= Y,
                forall|yy: int, x: int, ch: int|
                    0 <= yy < y && 0 <= x < X && 0 <= ch < 3 ==> #[trigger] self.sample(yy, x, ch) == 0,
            decreases Y - y,
        {
            let ghost before = *self;
            let black: [[u8; 3]; X] = [[0u8; 3]; X];
            assert(forall|x: int, ch: int| 0 <= x < X && 0 <= ch < 3 ==> black@[x]@[ch] == 0);
            self.0[y] = black;
            assert forall|yy: int, x: int, ch: int|
                0 <= yy <= y && 0 <= x < X && 0 <= ch < 3 implies #[trigger] self.sample(yy, x, ch) == 0 by {
                if yy < y {
                    assert(self.0@[yy] == before.0@[yy]);
                    assert(before.sample(yy, x, ch) == 0);
                } else {
                    assert(self.0@[yy] == black);
                    assert(black@[x]@[ch] == 0);
                }
            }
            y = y + 1;
        }
    }
}

} // verus!
