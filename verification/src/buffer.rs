//! The rendered image: a rectangular, row-major grid of finished pixel
//! colors. The render fills it one pixel at a time; an external encoder
//! turns it into a file afterwards.

use vstd::prelude::*;

use crate::color::{is_channel_root, spec_black, spec_mean, Color};

verus! {

/// A width-by-height grid of colors, stored row-major.
pub struct Image {
    width: u32,
    height: u32,
    pixels: Vec<Color>,
}

impl Image {
    pub closed spec fn spec_width(&self) -> u32 {
        self.width
    }

    pub closed spec fn spec_height(&self) -> u32 {
        self.height
    }

    /// The pixels, row after row.
    pub closed spec fn pixel_seq(&self) -> Seq<Color> {
        self.pixels@
    }

    /// The grid holds exactly one color per pixel.
    pub open spec fn well_formed(&self) -> bool {
        self.pixel_seq().len() == self.spec_width() * self.spec_height()
    }

    /// The color of the pixel in column `x` of row `y`.
    pub open spec fn spec_pixel(&self, x: u32, y: u32) -> Color {
        self.pixel_seq()[y * self.spec_width() + x]
    }

    /// A fresh all-black image. `width * height` must be addressable.
    pub fn new(width: u32, height: u32) -> (img: Image)
        requires
            width * height <= usize::MAX,
        ensures
            img.well_formed(),
            img.spec_width() == width,
            img.spec_height() == height,
            forall|i: int| 0 <= i < img.pixel_seq().len() ==> img.pixel_seq()[i] == spec_black(),
    {
        let total: usize = (width as usize) * (height as usize);
        let mut pixels: Vec<Color> = Vec::new();
        let mut i: usize = 0;
        while i < total
            invariant
                i <= total,
                pixels@.len() == i,
                forall|k: int| 0 <= k < i ==> pixels@[k] == spec_black(),
            decreases total - i,
        {
            pixels.push(Color::black());
            i = i + 1;
        }
        Image { width, height, pixels }
    }

    pub fn width(&self) -> (w: u32)
        ensures
            w == self.spec_width(),
    {
        self.width
    }

    pub fn height(&self) -> (h: u32)
        ensures
            h == self.spec_height(),
    {
        self.height
    }

    /// Store a finished color at column `x` of row `y`; every other pixel
    /// keeps its color.
    pub fn put_pixel(&mut self, x: u32, y: u32, color: Color)
        requires
            old(self).well_formed(),
            x < old(self).spec_width(),
            y < old(self).spec_height(),
        ensures
            final(self).well_formed(),
            final(self).spec_width() == old(self).spec_width(),
            final(self).spec_height() == old(self).spec_height(),
            final(self).spec_pixel(x, y) == color,
            forall|ox: u32, oy: u32|
                ox < old(self).spec_width() && oy < old(self).spec_height() && !(ox == x && oy
                    == y) ==> final(self).spec_pixel(ox, oy) == old(self).spec_pixel(ox, oy),
    {
        proof {
            lemma_row_major_index_in_range(x as int, y as int, self.width as int, self.height as int);
            assert(self.pixels.len() == self.pixels@.len());
        }
        let index: usize = (y as usize) * (self.width as usize) + (x as usize);
        self.pixels.set(index, color);
        proof {
            let width = self.width as int;
            let height = self.height as int;
            assert forall|ox: u32, oy: u32|
                ox < width && oy < height && !(ox == x && oy == y) implies final(self).spec_pixel(
                ox,
                oy,
            ) == old(self).spec_pixel(ox, oy) by {
                lemma_row_major_index_in_range(ox as int, oy as int, width, height);
                assert(oy * width + ox != y * width + x) by (nonlinear_arith)
                    requires
                        0 <= ox < width,
                        0 <= oy < height,
                        0 <= x < width,
                        0 <= y < height,
                        !(ox == x && oy == y),
                ;
            }
        }
    }

    /// Finish one pixel from its samples and store it at column `x` of row
    /// `y`: average the sampled colors and, when asked, gamma-correct the
    /// average. Every other pixel keeps its color.
    pub fn store_finished_pixel(
        &mut self,
        x: u32,
        y: u32,
        samples: Vec<Color>,
        gamma_corrected: bool,
    )
        requires
            old(self).well_formed(),
            x < old(self).spec_width(),
            y < old(self).spec_height(),
            samples@.len() >= 1,
        ensures
            final(self).well_formed(),
            final(self).spec_width() == old(self).spec_width(),
            final(self).spec_height() == old(self).spec_height(),
            !gamma_corrected ==> final(self).spec_pixel(x, y) == spec_mean(samples@),
            gamma_corrected ==> is_channel_root(
                spec_mean(samples@).r,
                final(self).spec_pixel(x, y).r,
            ),
            gamma_corrected ==> is_channel_root(
                spec_mean(samples@).g,
                final(self).spec_pixel(x, y).g,
            ),
            gamma_corrected ==> is_channel_root(
                spec_mean(samples@).b,
                final(self).spec_pixel(x, y).b,
            ),
            forall|ox: u32, oy: u32|
                ox < old(self).spec_width() && oy < old(self).spec_height() && !(ox == x && oy
                    == y) ==> final(self).spec_pixel(ox, oy) == old(self).spec_pixel(ox, oy),
    {
        let mean = Color::mean_color(samples);
        let color = if gamma_corrected {
            mean.gamma_corrected()
        } else {
            mean
        };
        self.put_pixel(x, y, color);
    }

    /// Read the color at column `x` of row `y`.
    pub fn get_pixel(&self, x: u32, y: u32) -> (c: Color)
        requires
            self.well_formed(),
            x < self.spec_width(),
            y < self.spec_height(),
        ensures
            c == self.spec_pixel(x, y),
    {
        proof {
            lemma_row_major_index_in_range(x as int, y as int, self.width as int, self.height as int);
            assert(self.pixels.len() == self.pixels@.len());
        }
        let index: usize = (y as usize) * (self.width as usize) + (x as usize);
        self.pixels[index]
    }
}

/// A row-major index lies inside the grid.
proof fn lemma_row_major_index_in_range(x: int, y: int, width: int, height: int)
    requires
        0 <= x < width,
        0 <= y < height,
    ensures
        0 <= y * width + x < width * height,
{
    assert(y * width + x < width * height) by (nonlinear_arith)
        requires
            0 <= x < width,
            0 <= y < height,
    ;
    assert(y * width >= 0) by (nonlinear_arith)
        requires
            y >= 0,
            width > 0,
    ;
}

} // verus!
