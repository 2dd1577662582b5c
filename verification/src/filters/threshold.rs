//! Thresholding: black and white by brightness.

use vstd::prelude::*;
use super::filter::{pointwise, sweep, ImageFilter, PixelMap};
use crate::formats::{Grid, ImageFormat};
use crate::models::{Colors, Pixel};

verus! {

/// Turns every pixel that is brighter than a cutoff white and every other
/// pixel black.
pub struct Threshold {
    treshold: u16,
}

/// White where the mean of the channels of `p`, rounded down, is above
/// `cutoff`, and black elsewhere.
pub open spec fn cut(p: Pixel, cutoff: u16) -> Pixel {
    if (p.r + p.g + p.b) / 3 > cutoff {
        Colors::spec_white()
    } else {
        Colors::spec_black()
    }
}

impl Threshold {
    /// The brightness above which a pixel turns white.
    pub closed spec fn cutoff(&self) -> u16 {
        self.treshold
    }

    /// A filter that turns white what is brighter than `treshold`.
    pub fn new(treshold: u16) -> (res: Threshold)
        ensures
            res.cutoff() == treshold,
    {
        Threshold { treshold }
    }
}

impl PixelMap for Threshold {
    open spec fn image_of(&self, p: Pixel) -> Pixel {
        cut(p, self.cutoff())
    }

    fn map(&self, p: &Pixel) -> (res: Pixel) {
        let color = (p.r as u16 + p.g as u16 + p.b as u16) / 3;
        if color > self.treshold {
            Colors::white()
        } else {
            Colors::black()
        }
    }
}

impl ImageFilter for Threshold {
    open spec fn specified(&self) -> bool {
        true
    }

    open spec fn result(&self, g: Grid, ceiling: u8) -> Grid {
        pointwise(self, g, ceiling)
    }

    fn apply<S: ImageFormat>(&self, img: &mut S) {
        sweep(self, img)
    }
}

/// In an image that stores white, the filter leaves only white and black
/// pixels.
pub proof fn threshold_leaves_black_and_white(f: Threshold, g: Grid, ceiling: u8)
    requires
        Colors::spec_white().within(ceiling),
    ensures
        f.result(g, ceiling).pixels.len() == g.pixels.len(),
        forall|i: int|
            0 <= i < g.pixels.len() ==> {
                let p = #[trigger] f.result(g, ceiling).pixels[i];
                p == Colors::spec_white() || p == Colors::spec_black()
            },
{
}

} // verus!
