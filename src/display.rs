//! The 64x32 monochrome framebuffer with toroidal addressing.
use vstd::prelude::*;

verus! {

/// Number of pixels in the framebuffer.
pub const FRAME_LEN: usize = 2048;

/// Position in the row-major framebuffer of the pixel that `(x, y)` addresses once both
/// coordinates are wrapped into the grid.
pub open spec fn pixel_index(x: int, y: int) -> int {
    (y % 32) * 64 + (x % 64)
}

/// A blank framebuffer.
pub open spec fn blank_frame() -> Seq<bool> {
    Seq::new(FRAME_LEN as nat, |i: int| false)
}

pub struct Display {
    pixels: Vec<bool>,
}

impl View for Display {
    type V = Seq<bool>;

    closed spec fn view(&self) -> Seq<bool> {
        self.pixels@
    }
}

proof fn lemma_wrap_index(x: usize, y: usize)
    ensures
        x & 63 == x % 64,
        y & 31 == y % 32,
{
    assert(x & 63 == x % 64) by (bit_vector);
    assert(y & 31 == y % 32) by (bit_vector);
}

impl Display {
    pub const WIDTH: usize = 64;

    pub const HEIGHT: usize = 32;

    pub open spec fn wf(&self) -> bool {
        self@.len() == FRAME_LEN
    }

    pub fn new() -> (d: Display)
        ensures
            d.wf(),
            d@ == blank_frame(),
    {
        let d = Display { pixels: vec![false; FRAME_LEN] };
        assert(d@ =~= blank_frame());
        d
    }

    /// Writes the pixel at `(x, y)`, both coordinates wrapped into the grid.
    pub fn set(&mut self, x: usize, y: usize, val: bool)
        requires
            old(self).wf(),
        ensures
            final(self).wf(),
            final(self)@ == old(self)@.update(pixel_index(x as int, y as int), val),
    {
        proof {
            lemma_wrap_index(x, y);
        }
        let i = (y & (Display::HEIGHT - 1)) * Display::WIDTH + (x & (Display::WIDTH - 1));
        self.pixels.set(i, val);
    }

    /// Reads the pixel at `(x, y)`, both coordinates wrapped into the grid.
    pub fn get(&self, x: usize, y: usize) -> (r: bool)
        requires
            self.wf(),
        ensures
            r == self@[pixel_index(x as int, y as int)],
    {
        proof {
            lemma_wrap_index(x, y);
        }
        let i = (y & (Display::HEIGHT - 1)) * Display::WIDTH + (x & (Display::WIDTH - 1));
        self.pixels[i]
    }

    /// Turns every pixel off.
    pub fn clear(&mut self)
        requires
            old(self).wf(),
        ensures
            final(self).wf(),
            final(self)@ == blank_frame(),
    {
        self.pixels = vec![false; FRAME_LEN];
        assert(self@ =~= blank_frame());
    }

    /// The whole grid, row by row.
    pub fn get_framebuffer(&self) -> (r: &[bool])
        ensures
            r@ == self@,
    {
        self.pixels.as_slice()
    }
}

} // verus!
