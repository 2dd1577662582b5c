//! Turning a picture grey.

use vstd::prelude::*;
use super::filter::{pointwise, sweep, ImageFilter, PixelMap};
use crate::formats::{Grid, ImageFormat};
use crate::models::Pixel;

verus! {

/// Replaces every pixel by the grey of the same brightness.
pub struct Grayscale;

/// The grey pixel whose three channels hold the mean of the channels of `p`,
/// rounded down.
pub open spec fn gray_of(p: Pixel) -> Pixel {
    let gray = ((p.r + p.g + p.b) / 3) as u8;
    Pixel { r: gray, g: gray, b: gray }
}

impl Grayscale {
    /// The filter.
    pub fn new() -> (res: Grayscale) {
        Grayscale {  }
    }
}

impl PixelMap for Grayscale {
    open spec fn image_of(&self, p: Pixel) -> Pixel {
        gray_of(p)
    }

    fn map(&self, p: &Pixel) -> (res: Pixel) {
        let gray = ((p.r as u16 + p.g as u16 + p.b as u16) / 3) as u8;
        Pixel { r: gray, g: gray, b: gray }
    }
}

impl ImageFilter for Grayscale {
    open spec fn specified(&self) -> bool {
        true
    }

    open spec fn result(&self, g: Grid, ceiling: u8) -> Grid {
        pointwise(self, g, ceiling)
    }

    fn apply<S: ImageFormat>(&self, img: &mut S) {
        sweep(self, img)
    }
}

/// A grey pixel is its own grey.
pub proof fn gray_of_gray(p: Pixel)
    ensures
        gray_of(gray_of(p)) == gray_of(p),
{
}

/// Applying the filter a second time changes nothing.
pub proof fn grayscale_is_idempotent(f: Grayscale, g: Grid, ceiling: u8)
    ensures
        f.result(f.result(g, ceiling), ceiling) == f.result(g, ceiling),
{
    let once = f.result(g, ceiling);
    let twice = f.result(once, ceiling);
    assert forall|i: int| 0 <= i < once.pixels.len() implies twice.pixels[i] == once.pixels[i] by {
        gray_of_gray(g.pixels[i]);
    }
    assert(twice.pixels =~= once.pixels);
}

} // verus!
