//! The box blur: the mean of a square window.

use vstd::prelude::*;
use vstd::arithmetic::div_mod::lemma_fundamental_div_mod;
use super::filter::{ImageFilter, Snapshot};
use super::window::{sweep_windows, tally, tally_step, window, windowed, WindowMap, MAX_WINDOW};
use crate::formats::{Grid, ImageFormat};
use crate::models::Pixel;

verus! {

/// Replaces every pixel by the mean of the square window around it.
pub struct BoxBlur {
    size: usize,
}

/// The pixel whose channels hold the means of the channels of `s`, rounded
/// down.
pub open spec fn mean_of(s: Seq<Pixel>) -> Pixel {
    let sum = tally(s);
    let n = s.len() as int;
    Pixel { r: (sum.r / n) as u8, g: (sum.g / n) as u8, b: (sum.b / n) as u8 }
}

impl BoxBlur {
    #[verifier::type_invariant]
    spec fn has_centre(self) -> bool {
        self.size % 2 == 1 && self.size <= MAX_WINDOW
    }

    /// The number of columns, and of rows, of the window.
    pub closed spec fn window_size(&self) -> nat {
        self.size as nat
    }

    /// A blur with a window of `size` columns and rows. Fails unless the
    /// size is odd, so that the window has a centre, and no larger than the
    /// widest window.
    pub fn new(size: usize) -> (res: Option<BoxBlur>)
        ensures
            res is Some <==> size % 2 == 1 && size <= MAX_WINDOW,
            res matches Some(f) ==> f.window_size() == size,
    {
        if size % 2 == 1 && size <= MAX_WINDOW {
            Some(BoxBlur { size })
        } else {
            None
        }
    }
}

impl WindowMap for BoxBlur {
    open spec fn image_at(&self, g: Grid, x: int, y: int) -> Pixel {
        mean_of(window(g, x, y, self.window_size() as int))
    }

    fn at(&self, src: &Snapshot, x: usize, y: usize) -> (res: Pixel) {
        proof {
            use_type_invariant(self);
        }
        let size = self.size as u64;
        let half = self.size / 2;
        assert(1 <= size * size <= 0xFFFF * 0xFFFF) by (nonlinear_arith)
            requires
                1 <= size <= 0xFFFF,
        ;
        let total: u64 = size * size;
        let ghost cells = window(src@, x as int, y as int, size as int);
        let mut r: u64 = 0;
        let mut g: u64 = 0;
        let mut b: u64 = 0;
        let mut t: u64 = 0;
        while t < total
            invariant
                src.wf(),
                x < src.width,
                y < src.height,
                size == self.size,
                1 <= size <= 0xFFFF,
                half == size / 2,
                total == size * size,
                1 <= total <= 0xFFFF * 0xFFFF,
                cells == window(src@, x as int, y as int, size as int),
                t <= total,
                r == tally(cells.take(t as int)).r,
                g == tally(cells.take(t as int)).g,
                b == tally(cells.take(t as int)).b,
                r <= 255 * t,
                g <= 255 * t,
                b <= 255 * t,
            decreases total - t,
        {
            let k = (t / size) as usize;
            let l = (t % size) as usize;
            let p = src.near(x, y, k, l, half);
            proof {
                tally_step(cells, t as int);
            }
            r += p.r as u64;
            g += p.g as u64;
            b += p.b as u64;
            t += 1;
        }
        assert(cells.take(total as int) =~= cells);
        assert(r / total <= 255 && g / total <= 255 && b / total <= 255) by (nonlinear_arith)
            requires
                r <= 255 * total,
                g <= 255 * total,
                b <= 255 * total,
                total >= 1,
        ;
        Pixel { r: (r / total) as u8, g: (g / total) as u8, b: (b / total) as u8 }
    }
}

impl ImageFilter for BoxBlur {
    open spec fn specified(&self) -> bool {
        true
    }

    open spec fn result(&self, g: Grid, ceiling: u8) -> Grid {
        windowed(self, g, ceiling)
    }

    fn apply<S: ImageFormat>(&self, img: &mut S) {
        sweep_windows(self, img)
    }
}

/// A blur with a window of one pixel leaves the picture as it is.
pub proof fn blur_of_one_is_identity(f: BoxBlur, g: Grid, ceiling: u8)
    requires
        f.window_size() == 1,
        g.wf(),
    ensures
        f.result(g, ceiling) == g,
{
    let out = f.result(g, ceiling);
    let w = g.width as int;
    assert forall|i: int| 0 <= i < g.pixels.len() implies out.pixels[i] == g.pixels[i] by {
        let x = i % w;
        let y = i / w;
        assert(w > 0 && g.height > 0) by (nonlinear_arith)
            requires
                g.pixels.len() == g.width * g.height,
                0 <= i < g.pixels.len(),
                w == g.width,
        ;
        lemma_fundamental_div_mod(i, w);
        assert(0 <= x < w);
        assert(0 <= y < g.height) by (nonlinear_arith)
            requires
                i == w * y + x,
                0 <= x < w,
                0 <= i < w * g.height,
        ;
        let cells = window(g, x, y, 1);
        assert(cells.len() == 1);
        assert(cells[0] == g.at(x, y));
        assert(y * w + x == i) by (nonlinear_arith)
            requires
                i == w * y + x,
        ;
        assert(cells.drop_last() =~= Seq::<Pixel>::empty());
        assert(tally(cells.drop_last()).r == 0);
        assert(mean_of(cells) == g.pixels[i]);
    }
    assert(out.pixels =~= g.pixels);
}

} // verus!
