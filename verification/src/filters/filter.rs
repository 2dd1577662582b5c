//! What every filter is, and the two ways in which a filter reaches the
//! pixels of an image: one pixel at a time, or all of them by way of a copy.

use vstd::prelude::*;
use crate::formats::{Grid, ImageFormat};
use crate::models::Pixel;

verus! {

/// The picture that is left when `wanted` is written over `g` pixel by pixel
/// in an image with the given ceiling: a pixel with no channel above the
/// ceiling replaces the old one, and any other leaves the old one in place.
pub open spec fn repaint(g: Grid, wanted: Seq<Pixel>, ceiling: u8) -> Grid {
    g.with_pixels(
        Seq::new(
            g.pixels.len(),
            |i: int|
                if wanted[i].within(ceiling) {
                    wanted[i]
                } else {
                    g.pixels[i]
                },
        ),
    )
}

/// A transformation of a whole picture, applied to an image in place.
pub trait ImageFilter {
    /// Whether `result` says what the filter does. A filter that leaves
    /// this as it is promises only to keep the image valid and to change
    /// nothing but its pixels.
    open spec fn specified(&self) -> bool {
        false
    }

    /// The picture that the filter makes of `g` in an image with the given
    /// ceiling.
    open spec fn result(&self, g: Grid, ceiling: u8) -> Grid {
        g
    }

    /// Replaces the picture that `img` holds by what the filter makes of it,
    /// and changes nothing else.
    fn apply<S: ImageFormat>(&self, img: &mut S)
        requires
            old(img).wf(),
        ensures
            final(img).wf(),
            final(img).grid().width == old(img).grid().width,
            final(img).grid().height == old(img).grid().height,
            self.specified() ==> final(img).grid() == self.result(
                old(img).grid(),
                old(img).ceiling(),
            ),
            final(img).ceiling() == old(img).ceiling(),
            final(img).size() == old(img).size(),
            final(img).signature() == old(img).signature(),
            final(img).metadata() == old(img).metadata(),
    ;
}

/// A copy of the picture that an image holds.
pub struct Snapshot {
    pub width: usize,
    pub height: usize,
    pub pixels: Vec<Pixel>,
}

impl View for Snapshot {
    type V = Grid;

    open spec fn view(&self) -> Grid {
        Grid { width: self.width as nat, height: self.height as nat, pixels: self.pixels@ }
    }
}

impl Snapshot {
    /// There is exactly one pixel for each coordinate.
    pub open spec fn wf(&self) -> bool {
        self@.wf()
    }

    /// The pixel in column `x` of row `y`.
    pub fn at(&self, x: usize, y: usize) -> (res: Pixel)
        requires
            self.wf(),
            x < self.width,
            y < self.height,
        ensures
            res == self@.at(x as int, y as int),
    {
        proof {
            self@.index_in_range(x as int, y as int);
            assert(self.pixels@.len() == self.pixels.len());
        }
        self.pixels[y * self.width + x]
    }
}

/// Copies the picture of `img`, row by row.
pub fn snapshot<S: ImageFormat>(img: &S) -> (res: Snapshot)
    requires
        img.wf(),
    ensures
        res@ == img.grid(),
        res.wf(),
{
    let w = img.get_width();
    let h = img.get_height();
    let ghost g = img.grid();
    proof {
        img.grid_wf();
    }
    let mut res: Vec<Pixel> = Vec::new();
    let mut y: usize = 0;
    while y < h
        invariant
            img.wf(),
            g == img.grid(),
            g.wf(),
            w == g.width,
            h == g.height,
            y <= h,
            res@ == g.pixels.subrange(0, y * w),
        decreases h - y,
    {
        let mut x: usize = 0;
        while x < w
            invariant
                img.wf(),
                g == img.grid(),
                g.wf(),
                w == g.width,
                h == g.height,
                y < h,
                x <= w,
                res@ == g.pixels.subrange(0, y * w + x),
            decreases w - x,
        {
            proof {
                g.index_in_range(x as int, y as int);
            }
            let p = match img.get_pixel(x, y) {
                Some(p) => *p,
                None => Pixel { r: 0, g: 0, b: 0 },
            };
            res.push(p);
            x += 1;
            assert(res@ =~= g.pixels.subrange(0, y * w + x));
        }
        y += 1;
        assert(y * w == (y - 1) * w + w) by (nonlinear_arith);
    }
    assert(h * w == g.width * g.height) by (nonlinear_arith)
        requires
            h == g.height,
            w == g.width,
    ;
    assert(g.pixels.subrange(0, h * w) =~= g.pixels);
    Snapshot { width: w, height: h, pixels: res }
}

/// Writes `wanted` over the picture of `img`, pixel by pixel.
pub fn repaint_from<S: ImageFormat>(img: &mut S, wanted: &Vec<Pixel>)
    requires
        old(img).wf(),
        wanted@.len() == old(img).grid().pixels.len(),
    ensures
        final(img).wf(),
        final(img).grid() == repaint(old(img).grid(), wanted@, old(img).ceiling()),
        final(img).ceiling() == old(img).ceiling(),
        final(img).size() == old(img).size(),
        final(img).signature() == old(img).signature(),
        final(img).metadata() == old(img).metadata(),
{
    let w = img.get_width();
    let h = img.get_height();
    let ghost g = img.grid();
    let ghost goal = repaint(g, wanted@, img.ceiling());
    proof {
        img.grid_wf();
        assert(goal.pixels.subrange(0, 0) + g.pixels.subrange(0, g.pixels.len() as int)
            =~= g.pixels);
    }
    let mut y: usize = 0;
    while y < h
        invariant
            img.wf(),
            g == old(img).grid(),
            goal == repaint(g, wanted@, img.ceiling()),
            img.ceiling() == old(img).ceiling(),
            g.wf(),
            g.pixels.len() <= usize::MAX,
            wanted@.len() == g.pixels.len(),
            w == g.width,
            h == g.height,
            y <= h,
            y * w <= g.pixels.len(),
            img.grid() == g.with_pixels(
                goal.pixels.subrange(0, y * w) + g.pixels.subrange(y * w, g.pixels.len() as int),
            ),
            img.size() == old(img).size(),
            img.signature() == old(img).signature(),
            img.metadata() == old(img).metadata(),
        decreases h - y,
    {
        let mut x: usize = 0;
        while x < w
            invariant
                img.wf(),
                g == old(img).grid(),
                goal == repaint(g, wanted@, img.ceiling()),
            img.ceiling() == old(img).ceiling(),
                g.wf(),
                g.pixels.len() <= usize::MAX,
                wanted@.len() == g.pixels.len(),
                w == g.width,
                h == g.height,
                y < h,
                x <= w,
                y * w + x <= g.pixels.len(),
                img.grid() == g.with_pixels(
                    goal.pixels.subrange(0, y * w + x) + g.pixels.subrange(
                        y * w + x,
                        g.pixels.len() as int,
                    ),
                ),
                img.size() == old(img).size(),
                img.signature() == old(img).signature(),
                img.metadata() == old(img).metadata(),
            decreases w - x,
        {
            proof {
                g.index_in_range(x as int, y as int);
            }
            let ghost before = img.grid();
            let at = y * w + x;
            let _ = img.set_pixel(x, y, wanted[at]);
            x += 1;
            assert(img.grid().pixels =~= goal.pixels.subrange(0, y * w + x) + g.pixels.subrange(
                y * w + x,
                g.pixels.len() as int,
            ));
        }
        y += 1;
        assert(y * w == (y - 1) * w + w) by (nonlinear_arith);
    }
    assert(h * w == g.width * g.height) by (nonlinear_arith)
        requires
            h == g.height,
            w == g.width,
    ;
    assert(img.grid().pixels =~= goal.pixels);
}

/// A function from pixel to pixel, for the filters that treat every pixel by
/// itself.
pub trait PixelMap {
    /// The pixel that `p` becomes.
    spec fn image_of(&self, p: Pixel) -> Pixel;

    /// Computes the pixel that `p` becomes.
    fn map(&self, p: &Pixel) -> (res: Pixel)
        ensures
            res == self.image_of(*p),
    ;
}

/// The image of every pixel under `m`.
pub open spec fn map_pixels<M: PixelMap>(m: &M, pixels: Seq<Pixel>) -> Seq<Pixel> {
    Seq::new(pixels.len(), |i: int| m.image_of(pixels[i]))
}

/// What a filter that treats every pixel by itself makes of `g`.
pub open spec fn pointwise<M: PixelMap>(m: &M, g: Grid, ceiling: u8) -> Grid {
    repaint(g, map_pixels(m, g.pixels), ceiling)
}

/// Visits every coordinate once, row by row: reads the pixel, maps it, and
/// writes the result back.
pub fn sweep<M: PixelMap, S: ImageFormat>(m: &M, img: &mut S)
    requires
        old(img).wf(),
    ensures
        final(img).wf(),
        final(img).grid() == pointwise(m, old(img).grid(), old(img).ceiling()),
        final(img).ceiling() == old(img).ceiling(),
        final(img).size() == old(img).size(),
        final(img).signature() == old(img).signature(),
        final(img).metadata() == old(img).metadata(),
{
    let w = img.get_width();
    let h = img.get_height();
    let ghost g = img.grid();
    let ghost goal = pointwise(m, g, img.ceiling());
    proof {
        img.grid_wf();
        assert(goal.pixels.subrange(0, 0) + g.pixels.subrange(0, g.pixels.len() as int)
            =~= g.pixels);
    }
    let mut y: usize = 0;
    while y < h
        invariant
            img.wf(),
            g == old(img).grid(),
            goal == pointwise(m, g, img.ceiling()),
            img.ceiling() == old(img).ceiling(),
            g.wf(),
            w == g.width,
            h == g.height,
            y <= h,
            y * w <= g.pixels.len(),
            img.grid() == g.with_pixels(
                goal.pixels.subrange(0, y * w) + g.pixels.subrange(y * w, g.pixels.len() as int),
            ),
            img.size() == old(img).size(),
            img.signature() == old(img).signature(),
            img.metadata() == old(img).metadata(),
        decreases h - y,
    {
        let mut x: usize = 0;
        while x < w
            invariant
                img.wf(),
                g == old(img).grid(),
                goal == pointwise(m, g, img.ceiling()),
            img.ceiling() == old(img).ceiling(),
                g.wf(),
                w == g.width,
                h == g.height,
                y < h,
                x <= w,
                y * w + x <= g.pixels.len(),
                img.grid() == g.with_pixels(
                    goal.pixels.subrange(0, y * w + x) + g.pixels.subrange(
                        y * w + x,
                        g.pixels.len() as int,
                    ),
                ),
                img.size() == old(img).size(),
                img.signature() == old(img).signature(),
                img.metadata() == old(img).metadata(),
            decreases w - x,
        {
            proof {
                g.index_in_range(x as int, y as int);
            }
            let mapped = match img.get_pixel(x, y) {
                Some(p) => Some(m.map(p)),
                None => None,
            };
            if let Some(px) = mapped {
                let _ = img.set_pixel(x, y, px);
            }
            x += 1;
            assert(img.grid().pixels =~= goal.pixels.subrange(0, y * w + x) + g.pixels.subrange(
                y * w + x,
                g.pixels.len() as int,
            ));
        }
        y += 1;
        assert(y * w == (y - 1) * w + w) by (nonlinear_arith);
    }
    assert(h * w == g.width * g.height) by (nonlinear_arith)
        requires
            h == g.height,
            w == g.width,
    ;
    assert(img.grid().pixels =~= goal.pixels);
}

} // verus!
