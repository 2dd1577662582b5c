//! What the filters that look at a neighbourhood share: the window around a
//! coordinate, with neighbours outside the picture replaced by the nearest
//! pixel inside, and the sweep that writes one pixel for each window.

use vstd::prelude::*;
use vstd::arithmetic::div_mod::lemma_fundamental_div_mod_converse;
use super::filter::{repaint, snapshot, Snapshot};
use crate::formats::{Grid, ImageFormat};
use crate::models::Pixel;

verus! {

/// The widest window that a filter takes.
pub const MAX_WINDOW: usize = 0xFFFF;

/// The coordinate `pos + step - half`, held inside `0 .. limit`.
pub open spec fn clamped(pos: int, step: int, half: int, limit: int) -> int {
    let c = pos + step - half;
    if c < 0 {
        0
    } else if c >= limit {
        limit - 1
    } else {
        c
    }
}

/// The pixel under cell (`k`, `l`) of the window around (`x`, `y`) that
/// reaches `half` pixels to each side: `k` counts columns and `l` rows, both
/// from 0.
pub open spec fn neighbour(g: Grid, x: int, y: int, k: int, l: int, half: int) -> Pixel {
    g.at(clamped(x, k, half, g.width as int), clamped(y, l, half, g.height as int))
}

/// The pixels under a window of `size` columns and rows around (`x`, `y`),
/// column by column.
pub open spec fn window(g: Grid, x: int, y: int, size: int) -> Seq<Pixel> {
    Seq::new(
        (size * size) as nat,
        |t: int| neighbour(g, x, y, t / size, t % size, size / 2),
    )
}

/// A sum for each of the three channels.
pub struct Tally {
    pub r: int,
    pub g: int,
    pub b: int,
}

/// The sums of the channels of `s`.
pub open spec fn tally(s: Seq<Pixel>) -> Tally
    decreases s.len(),
{
    if s.len() == 0 {
        Tally { r: 0, g: 0, b: 0 }
    } else {
        let rest = tally(s.drop_last());
        Tally { r: rest.r + s.last().r, g: rest.g + s.last().g, b: rest.b + s.last().b }
    }
}

/// The sums grow by the channels of the pixel that is added.
pub proof fn tally_step(s: Seq<Pixel>, t: int)
    requires
        0 <= t < s.len(),
    ensures
        tally(s.take(t + 1)).r == tally(s.take(t)).r + s[t].r,
        tally(s.take(t + 1)).g == tally(s.take(t)).g + s[t].g,
        tally(s.take(t + 1)).b == tally(s.take(t)).b + s[t].b,
{
    assert(s.take(t + 1).drop_last() =~= s.take(t));
}

/// The coordinate `pos + step - half`, held inside `0 .. limit`.
pub fn clamp_coord(pos: usize, step: usize, half: usize, limit: usize) -> (res: usize)
    requires
        pos < limit,
    ensures
        res == clamped(pos as int, step as int, half as int, limit as int),
        res < limit,
{
    if step < half {
        let d = half - step;
        if pos >= d {
            pos - d
        } else {
            0
        }
    } else {
        let d = step - half;
        if d >= limit - pos {
            limit - 1
        } else {
            pos + d
        }
    }
}

impl Snapshot {
    /// The pixel under cell (`k`, `l`) of the window around (`x`, `y`).
    pub fn near(&self, x: usize, y: usize, k: usize, l: usize, half: usize) -> (res: Pixel)
        requires
            self.wf(),
            x < self.width,
            y < self.height,
        ensures
            res == neighbour(self@, x as int, y as int, k as int, l as int, half as int),
    {
        self.at(clamp_coord(x, k, half, self.width), clamp_coord(y, l, half, self.height))
    }
}

/// A function from the neighbourhood of a coordinate to a pixel.
pub trait WindowMap {
    /// The pixel that the neighbourhood of (`x`, `y`) in `g` gives.
    spec fn image_at(&self, g: Grid, x: int, y: int) -> Pixel;

    /// Computes the pixel for (`x`, `y`) from the copy `src` of the
    /// picture.
    fn at(&self, src: &Snapshot, x: usize, y: usize) -> (res: Pixel)
        requires
            src.wf(),
            x < src.width,
            y < src.height,
        ensures
            res == self.image_at(src@, x as int, y as int),
    ;
}

/// The pixel that `m` gives at every coordinate of `g`.
pub open spec fn window_pixels<M: WindowMap>(m: &M, g: Grid) -> Seq<Pixel> {
    Seq::new(
        g.pixels.len(),
        |i: int| m.image_at(g, i % (g.width as int), i / (g.width as int)),
    )
}

/// What a filter that looks at neighbourhoods makes of `g`: every pixel is
/// computed from the picture as it was before the filter ran.
pub open spec fn windowed<M: WindowMap>(m: &M, g: Grid, ceiling: u8) -> Grid {
    repaint(g, window_pixels(m, g), ceiling)
}

/// Copies the picture, then visits every coordinate once, row by row, and
/// writes the pixel that `m` gives for its neighbourhood in the copy.
pub fn sweep_windows<M: WindowMap, S: ImageFormat>(m: &M, img: &mut S)
    requires
        old(img).wf(),
    ensures
        final(img).wf(),
        final(img).grid() == windowed(m, old(img).grid(), old(img).ceiling()),
        final(img).ceiling() == old(img).ceiling(),
        final(img).size() == old(img).size(),
        final(img).signature() == old(img).signature(),
        final(img).metadata() == old(img).metadata(),
{
    let src = snapshot(img);
    let w = src.width;
    let h = src.height;
    let ghost g = img.grid();
    let ghost goal = windowed(m, g, img.ceiling());
    proof {
        img.grid_wf();
        assert(goal.pixels.subrange(0, 0) + g.pixels.subrange(0, g.pixels.len() as int)
            =~= g.pixels);
    }
    let mut y: usize = 0;
    while y < h
        invariant
            img.wf(),
            src.wf(),
            src@ == g,
            g == old(img).grid(),
            goal == windowed(m, g, img.ceiling()),
            img.ceiling() == old(img).ceiling(),
            g.wf(),
            w == g.width,
            h == g.height,
            y <= h,
            y * w <= g.pixels.len(),
            img.grid() == g.with_pixels(
                goal.pixels.subrange(0, y * w) + g.pixels.subrange(y * w, g.pixels.len() as int),
            ),
            img.size() == old(img).size(),
            img.signature() == old(img).signature(),
            img.metadata() == old(img).metadata(),
        decreases h - y,
    {
        let mut x: usize = 0;
        while x < w
            invariant
                    img.wf(),
                src.wf(),
                src@ == g,
                g == old(img).grid(),
                goal == windowed(m, g, img.ceiling()),
                img.ceiling() == old(img).ceiling(),
                g.wf(),
                w == g.width,
                h == g.height,
                y < h,
                x <= w,
                y * w + x <= g.pixels.len(),
                img.grid() == g.with_pixels(
                    goal.pixels.subrange(0, y * w + x) + g.pixels.subrange(
                        y * w + x,
                        g.pixels.len() as int,
                    ),
                ),
                img.size() == old(img).size(),
                img.signature() == old(img).signature(),
                img.metadata() == old(img).metadata(),
            decreases w - x,
        {
            proof {
                g.index_in_range(x as int, y as int);
                lemma_fundamental_div_mod_converse(y * w + x, w as int, y as int, x as int);
            }
            let px = m.at(&src, x, y);
            let _ = img.set_pixel(x, y, px);
            x += 1;
            assert(img.grid().pixels =~= goal.pixels.subrange(0, y * w + x) + g.pixels.subrange(
                y * w + x,
                g.pixels.len() as int,
            ));
        }
        y += 1;
        assert(y * w == (y - 1) * w + w) by (nonlinear_arith);
    }
    assert(h * w == g.width * g.height) by (nonlinear_arith)
        requires
            h == g.height,
            w == g.width,
    ;
    assert(img.grid().pixels =~= goal.pixels);
}

/// The sums of the channels of the first `count` pixels of `s`, each pixel
/// multiplied by the weight at its place.
pub open spec fn weighted(s: Seq<Pixel>, weights: Seq<i64>, count: nat) -> Tally
    decreases count,
{
    if count == 0 {
        Tally { r: 0, g: 0, b: 0 }
    } else {
        let rest = weighted(s, weights, (count - 1) as nat);
        let i = count - 1;
        Tally {
            r: rest.r + weights[i] * s[i].r,
            g: rest.g + weights[i] * s[i].g,
            b: rest.b + weights[i] * s[i].b,
        }
    }
}

/// With no weight beyond `m` in size, no weighted sum of `count` pixels is
/// beyond `count * 255 * m`.
pub proof fn weighted_is_bounded(s: Seq<Pixel>, weights: Seq<i64>, count: nat, m: int)
    requires
        forall|i: int| 0 <= i < count ==> -m <= #[trigger] weights[i] <= m,
        0 <= m,
    ensures
        -(count * 255 * m) <= weighted(s, weights, count).r <= count * 255 * m,
        -(count * 255 * m) <= weighted(s, weights, count).g <= count * 255 * m,
        -(count * 255 * m) <= weighted(s, weights, count).b <= count * 255 * m,
    decreases count,
{
    if count > 0 {
        let i = count - 1;
        weighted_is_bounded(s, weights, i as nat, m);
        let w = weights[i] as int;
        assert(-m <= w <= m);
        product_is_bounded(w, s[i].r as int, m);
        product_is_bounded(w, s[i].g as int, m);
        product_is_bounded(w, s[i].b as int, m);
        assert(count * 255 * m == i * 255 * m + 255 * m) by (nonlinear_arith)
            requires
                count == i + 1,
        ;
    }
}

proof fn product_is_bounded(w: int, c: int, m: int)
    requires
        -m <= w <= m,
        0 <= c <= 255,
    ensures
        -(255 * m) <= w * c <= 255 * m,
{
    assert(-(255 * m) <= w * c <= 255 * m) by (nonlinear_arith)
        requires
            -m <= w <= m,
            0 <= c <= 255,
    ;
}

impl Snapshot {
    /// The weighted sums of the channels over the window of three columns
    /// and rows around (`x`, `y`), with the weights taken column by column.
    pub fn convolve(&self, x: usize, y: usize, weights: &[i64; 9]) -> (res: (i64, i64, i64))
        requires
            self.wf(),
            x < self.width,
            y < self.height,
            forall|i: int| 0 <= i < 9 ==> -0x1_0000_0000 <= #[trigger] weights@[i] <= 0x1_0000_0000,
        ensures
            res.0 == weighted(window(self@, x as int, y as int, 3), weights@, 9).r,
            res.1 == weighted(window(self@, x as int, y as int, 3), weights@, 9).g,
            res.2 == weighted(window(self@, x as int, y as int, 3), weights@, 9).b,
    {
        let ghost cells = window(self@, x as int, y as int, 3);
        let ghost m: int = 0x1_0000_0000;
        let mut r: i64 = 0;
        let mut g: i64 = 0;
        let mut b: i64 = 0;
        let mut t: usize = 0;
        while t < 9
            invariant
                self.wf(),
                x < self.width,
                y < self.height,
                forall|i: int| 0 <= i < 9 ==> -m <= #[trigger] weights@[i] <= m,
                m == 0x1_0000_0000,
                cells == window(self@, x as int, y as int, 3),
                t <= 9,
                r == weighted(cells, weights@, t as nat).r,
                g == weighted(cells, weights@, t as nat).g,
                b == weighted(cells, weights@, t as nat).b,
            decreases 9 - t,
        {
            let p = self.near(x, y, t / 3, t % 3, 1);
            let w = weights[t];
            proof {
                weighted_is_bounded(cells, weights@, t as nat, m);
                weighted_is_bounded(cells, weights@, (t + 1) as nat, m);
                assert(-m <= weights@[t as int] <= m);
                assert(-(255 * m) <= w * p.r <= 255 * m && -(255 * m) <= w * p.g <= 255 * m && -(255
                    * m) <= w * p.b <= 255 * m) by (nonlinear_arith)
                    requires
                        -m <= w <= m,
                        0 <= p.r <= 255,
                        0 <= p.g <= 255,
                        0 <= p.b <= 255,
                ;
            }
            r += w * (p.r as i64);
            g += w * (p.g as i64);
            b += w * (p.b as i64);
            t += 1;
        }
        (r, g, b)
    }
}

/// `v`, held inside `0 ..= 255`.
pub open spec fn held(v: int) -> u8 {
    if v < 0 {
        0u8
    } else if v > 255 {
        255u8
    } else {
        v as u8
    }
}

/// `v`, held inside `0 ..= 255`.
pub fn hold(v: i64) -> (res: u8)
    ensures
        res == held(v as int),
{
    if v < 0 {
        0
    } else if v > 255 {
        255
    } else {
        v as u8
    }
}

} // verus!
