//! Colour inversion.

use vstd::prelude::*;
use super::filter::{pointwise, sweep, ImageFilter, PixelMap};
use crate::formats::{Grid, ImageFormat};
use crate::models::Pixel;

verus! {

/// Replaces every pixel by its inverse.
pub struct ColorInversion {}

impl ColorInversion {
    /// The filter.
    pub fn new() -> (res: ColorInversion) {
        ColorInversion {  }
    }
}

impl PixelMap for ColorInversion {
    open spec fn image_of(&self, p: Pixel) -> Pixel {
        p.inverted()
    }

    fn map(&self, p: &Pixel) -> (res: Pixel) {
        p.invert()
    }
}

impl ImageFilter for ColorInversion {
    open spec fn specified(&self) -> bool {
        true
    }

    open spec fn result(&self, g: Grid, ceiling: u8) -> Grid {
        pointwise(self, g, ceiling)
    }

    fn apply<S: ImageFormat>(&self, img: &mut S) {
        sweep(self, img)
    }
}

/// In an image that stores every pixel, inverting twice gives the picture
/// back.
pub proof fn inversion_is_involution(f: ColorInversion, g: Grid)
    ensures
        f.result(f.result(g, 255), 255) == g,
{
    assert(f.result(f.result(g, 255), 255).pixels =~= g.pixels);
}

} // verus!
