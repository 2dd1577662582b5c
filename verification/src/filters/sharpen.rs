//! Sharpening with a window of three columns and rows.

use vstd::prelude::*;
use super::filter::{ImageFilter, Snapshot};
use super::window::{held, hold, sweep_windows, weighted, window, windowed, WindowMap};
use crate::formats::{Grid, ImageFormat};
use crate::models::Pixel;

verus! {

/// Sharpens the picture: every pixel is weighed against its eight neighbours.
pub struct Sharpen {
    intensity: u32,
}

/// The weights of the window of three columns and rows: `centre` in the
/// middle and -1 all around.
pub open spec fn sharpen_weights(centre: i64) -> Seq<i64> {
    seq![-1i64, -1i64, -1i64, -1i64, centre, -1i64, -1i64, -1i64, -1i64]
}

impl Sharpen {
    /// The weight of the pixel in the middle of the window.
    pub closed spec fn centre(&self) -> u32 {
        self.intensity
    }

    /// A filter that weighs the pixel in the middle with `intensity`.
    pub fn new(intensity: u32) -> (res: Sharpen)
        ensures
            res.centre() == intensity,
    {
        Sharpen { intensity }
    }
}

impl WindowMap for Sharpen {
    open spec fn image_at(&self, g: Grid, x: int, y: int) -> Pixel {
        let sum = weighted(window(g, x, y, 3), sharpen_weights(self.centre() as i64), 9);
        Pixel { r: held(sum.r), g: held(sum.g), b: held(sum.b) }
    }

    fn at(&self, src: &Snapshot, x: usize, y: usize) -> (res: Pixel) {
        let kernel: [i64; 9] = [-1, -1, -1, -1, self.intensity as i64, -1, -1, -1, -1];
        assert(kernel@ =~= sharpen_weights(self.centre() as i64));
        let (r, g, b) = src.convolve(x, y, &kernel);
        Pixel { r: hold(r), g: hold(g), b: hold(b) }
    }
}

impl ImageFilter for Sharpen {
    open spec fn specified(&self) -> bool {
        true
    }

    open spec fn result(&self, g: Grid, ceiling: u8) -> Grid {
        windowed(self, g, ceiling)
    }

    fn apply<S: ImageFormat>(&self, img: &mut S) {
        sweep_windows(self, img)
    }
}

} // verus!
