//! The pixel plane that draw instructions write to.

use vstd::prelude::*;

verus! {

/// Number of pixel columns.
pub const WIDTH: usize = 64;

/// Number of pixel rows.
pub const HEIGHT: usize = 32;

/// Position of the pixel at column `x`, row `y` within the raster.
///
/// The raster holds the rows one after the other, the row with the highest
/// number first and row 0 last.
pub open spec fn pixel_index(x: int, y: int) -> int {
    (HEIGHT - 1 - y) * WIDTH + x
}

/// A monochrome grid of `WIDTH` by `HEIGHT` pixels.
#[derive(Debug)]
pub struct Display(Vec<bool>);

impl Clone for Display {
    fn clone(&self) -> (copy: Self)
        ensures
            copy@ == self@,
    {
        proof {
            use_type_invariant(self);
        }
        Self(self.0.clone())
    }
}

impl View for Display {
    type V = Seq<bool>;

    closed spec fn view(&self) -> Seq<bool> {
        Seq::new((WIDTH * HEIGHT) as nat, |i: int| self.0@[i])
    }
}

impl Display {
    #[verifier::type_invariant]
    spec fn well_formed(&self) -> bool {
        self.0@.len() == WIDTH * HEIGHT
    }

    /// A display with every pixel off.
    pub fn new() -> (display: Self)
        ensures
            display@ == Seq::new((WIDTH * HEIGHT) as nat, |i: int| false),
    {
        let mut pixels: Vec<bool> = Vec::new();
        let mut i: usize = 0;
        while i < WIDTH * HEIGHT
            invariant
                i <= WIDTH * HEIGHT,
                pixels@ == Seq::new(i as nat, |k: int| false),
            decreases WIDTH * HEIGHT - i,
        {
            pixels.push(false);
            i += 1;
        }
        Self(pixels)
    }

    /// The raster always holds `WIDTH * HEIGHT` pixels.
    pub proof fn lemma_view_len(&self)
        ensures
            self@.len() == WIDTH * HEIGHT,
    {
    }

    /// Reads the pixel at column `x`, row `y`.
    pub fn get_pixel(&self, x: u8, y: u8) -> (value: bool)
        requires
            x < WIDTH,
            y < HEIGHT,
        ensures
            value == self@[pixel_index(x as int, y as int)],
    {
        proof {
            use_type_invariant(self);
        }
        let i = (HEIGHT - 1 - y as usize) * WIDTH + x as usize;
        self.0[i]
    }

    /// Writes the pixel at column `x`, row `y`.
    pub fn set_pixel(&mut self, x: u8, y: u8, value: bool)
        requires
            x < WIDTH,
            y < HEIGHT,
        ensures
            final(self)@ == old(self)@.update(pixel_index(x as int, y as int), value),
    {
        proof {
            use_type_invariant(&*self);
        }
        let i = (HEIGHT - 1 - y as usize) * WIDTH + x as usize;
        self.0[i] = value;
    }

    /// Turns every pixel off.
    pub fn clear(&mut self)
        ensures
            final(self)@ == Seq::new((WIDTH * HEIGHT) as nat, |i: int| false),
    {
        proof {
            use_type_invariant(&*self);
        }
        let mut i: usize = 0;
        while i < WIDTH * HEIGHT
            invariant
                i <= WIDTH * HEIGHT,
                self.0@.len() == WIDTH * HEIGHT,
                forall|k: int| 0 <= k < i ==> !self.0@[k],
            decreases WIDTH * HEIGHT - i,
        {
            self.0[i] = false;
            i += 1;
        }
    }

    /// The grid's width and height.
    pub fn dimensions(&self) -> (dims: (u8, u8))
        ensures
            dims.0 == WIDTH,
            dims.1 == HEIGHT,
    {
        (WIDTH as u8, HEIGHT as u8)
    }

    /// The raster as one byte per pixel: 255 for a pixel that is on, 0 for
    /// one that is off.
    pub fn into_raw(self) -> (data: Vec<u8>)
        ensures
            data@ == Seq::new(self@.len(), |i: int| if self@[i] { 255u8 } else { 0u8 }),
    {
        proof {
            use_type_invariant(&self);
        }
        let mut data: Vec<u8> = Vec::with_capacity(WIDTH * HEIGHT);
        let mut i: usize = 0;
        while i < WIDTH * HEIGHT
            invariant
                i <= WIDTH * HEIGHT,
                self.0@.len() == WIDTH * HEIGHT,
                data@ == Seq::new(i as nat, |k: int| if self.0@[k] { 255u8 } else { 0u8 }),
            decreases WIDTH * HEIGHT - i,
        {
            data.push(if self.0[i] { 255 } else { 0 });
            i += 1;
        }
        data
    }

    /// Gives up the raster.
    pub fn into_inner(self) -> (pixels: Vec<bool>)
        ensures
            pixels@ == self@,
    {
        proof {
            use_type_invariant(&self);
        }
        self.0
    }
}

} // verus!
