//! The emboss filter: a relief of the picture, in grey.

use vstd::prelude::*;
use super::filter::{pointwise, sweep, ImageFilter, Snapshot};
use super::grayscale::Grayscale;
use super::window::{held, hold, sweep_windows, weighted, window, windowed, WindowMap};
use crate::formats::{Grid, ImageFormat};
use crate::models::Pixel;

verus! {

/// Gives the picture a relief: differences along the diagonal, around a
/// middle grey, and the result turned to grey.
pub struct Emboss {}

/// The weights of the window of three columns and rows.
pub open spec fn emboss_weights() -> Seq<i64> {
    seq![1i64, 1i64, 0i64, 1i64, 0i64, -1i64, 0i64, -1i64, -1i64]
}

impl Emboss {
    /// The filter.
    pub fn new() -> (res: Emboss) {
        Emboss {  }
    }
}

impl WindowMap for Emboss {
    open spec fn image_at(&self, g: Grid, x: int, y: int) -> Pixel {
        let sum = weighted(window(g, x, y, 3), emboss_weights(), 9);
        Pixel { r: held(sum.r + 128), g: held(sum.g + 128), b: held(sum.b + 128) }
    }

    fn at(&self, src: &Snapshot, x: usize, y: usize) -> (res: Pixel) {
        let kernel: [i64; 9] = [1, 1, 0, 1, 0, -1, 0, -1, -1];
        assert(kernel@ =~= emboss_weights());
        let (r, g, b) = src.convolve(x, y, &kernel);
        proof {
            super::window::weighted_is_bounded(
                window(src@, x as int, y as int, 3),
                kernel@,
                9,
                1,
            );
        }
        Pixel { r: hold(r + 128), g: hold(g + 128), b: hold(b + 128) }
    }
}

impl ImageFilter for Emboss {
    open spec fn specified(&self) -> bool {
        true
    }

    open spec fn result(&self, g: Grid, ceiling: u8) -> Grid {
        pointwise(&Grayscale, windowed(self, g, ceiling), ceiling)
    }

    fn apply<S: ImageFormat>(&self, img: &mut S) {
        sweep_windows(self, img);
        sweep(&Grayscale::new(), img);
    }
}

} // verus!
