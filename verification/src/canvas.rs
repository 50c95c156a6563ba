//! A pixel buffer and its serialization to the plain-text PPM image format.

use crate::colour::Colour;
use crate::colour::channel_level;
use vstd::prelude::*;

verus! {

/// A struct representing a canvas. It can create a string containing a representation of itself in ppm format.
pub struct Canvas {
    width: usize,
    height: usize,
    pixels: Vec<Colour>,
}

impl Canvas {
    /// The number of pixel columns.
    pub closed spec fn spec_width(&self) -> int {
        self.width as int
    }

    /// The number of pixel rows.
    pub closed spec fn spec_height(&self) -> int {
        self.height as int
    }

    /// The pixels, row-major.
    pub closed spec fn spec_pixels(&self) -> Seq<Colour> {
        self.pixels@
    }

    /// The buffer holds exactly one colour per pixel.
    pub open spec fn wf(&self) -> bool {
        self.spec_pixels().len() == self.spec_width() * self.spec_height()
        && self.spec_width() <= 65535 && self.spec_height() <= 65535
    }

    /// Create a new blank canvas of size width x height with colour colour.
    pub fn new(width: usize, height: usize, colour: Colour) -> (r: Canvas)
        requires
            width <= 65535,
            height <= 65535,
        ensures
            r.wf(),
            r.spec_width() == width,
            r.spec_height() == height,
            r.spec_pixels() == Seq::new((width * height) as nat, |i: int| colour),
    {
        proof {
            assert((width as int) * (height as int) <= 65535 * 65535) by (nonlinear_arith)
                requires
                    width <= 65535,
                    height <= 65535,
            ;
        }
        let n: usize = width * height;
        let mut pixels: Vec<Colour> = Vec::new();
        let mut i: usize = 0;
        while i < n
            invariant
                i <= n,
                pixels@ == Seq::new(i as nat, |j: int| colour),
            decreases n - i,
        {
            pixels.push(colour);
            proof {
                assert(pixels@ =~= Seq::new(i as nat + 1, |j: int| colour));
            }
            i = i + 1;
        }
        Canvas { width, height, pixels }
    }

    /// Set the colour at location (width, height) to colour.
    pub fn write_pixel(&mut self, width: usize, height: usize, colour: Colour)
        requires
            old(self).wf(),
            width < old(self).spec_width(),
            height < old(self).spec_height(),
        ensures
            final(self).wf(),
            final(self).spec_width() == old(self).spec_width(),
            final(self).spec_height() == old(self).spec_height(),
            final(self).spec_pixels() == old(self).spec_pixels().update(
                height * old(self).spec_width() + width,
                colour,
            ),
    {
        proof {
            assert((height as int) * (self.width as int) + (width as int) < (self.height as int)
                * (self.width as int)) by (nonlinear_arith)
                requires
                    height < self.height,
                    width < self.width,
            ;
            assert((height as int) * (self.width as int) + (width as int) <= 65535 * 65535)
                by (nonlinear_arith)
                requires
                    height < self.height <= 65535,
                    width < self.width <= 65535,
            ;
        }
        let loc: usize = height * self.width + width;
        self.pixels[loc] = colour;
    }

    /// Return the pixel colour at a location (width, height).
    pub fn pixel_at(&self, width: usize, height: usize) -> (r: Colour)
        requires
            self.wf(),
            width < self.spec_width(),
            height < self.spec_height(),
        ensures
            r == self.spec_pixels()[height * self.spec_width() + width],
    {
        proof {
            assert((height as int) * (self.width as int) + (width as int) < (self.height as int)
                * (self.width as int)) by (nonlinear_arith)
                requires
                    height < self.height,
                    width < self.width,
            ;
            assert((height as int) * (self.width as int) + (width as int) <= 65535 * 65535)
                by (nonlinear_arith)
                requires
                    height < self.height <= 65535,
                    width < self.width <= 65535,
            ;
        }
        let loc: usize = height * self.width + width;
        self.pixels[loc]
    }

    /// Return the height of the canvas.
    pub fn get_height(&self) -> (r: usize)
        ensures
            r == self.spec_height(),
    {
        self.height
    }

    /// Return the width of the canvas.
    pub fn get_width(&self) -> (r: usize)
        ensures
            r == self.spec_width(),
    {
        self.width
    }
}

} // verus!
