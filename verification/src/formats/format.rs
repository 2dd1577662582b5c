//! The picture that an image holds, and what every decoded image offers.

use vstd::prelude::*;
use crate::models::Pixel;

verus! {

/// The picture that an image holds: `width * height` pixels in row-major
/// order, row 0 first.
pub struct Grid {
    pub width: nat,
    pub height: nat,
    pub pixels: Seq<Pixel>,
}

impl Grid {
    /// There is exactly one pixel for each coordinate.
    pub open spec fn wf(self) -> bool {
        self.pixels.len() == self.width * self.height
    }

    /// Whether column `x` of row `y` lies inside the picture.
    pub open spec fn contains(self, x: int, y: int) -> bool {
        0 <= x < self.width && 0 <= y < self.height
    }

    /// The place of column `x` of row `y` in `pixels`.
    pub open spec fn index(self, x: int, y: int) -> int {
        y * self.width + x
    }

    /// The pixel in column `x` of row `y`.
    pub open spec fn at(self, x: int, y: int) -> Pixel {
        self.pixels[self.index(x, y)]
    }

    /// The picture with the pixel in column `x` of row `y` replaced by `p`.
    pub open spec fn put(self, x: int, y: int, p: Pixel) -> Grid {
        Grid { pixels: self.pixels.update(self.index(x, y), p), ..self }
    }

    /// The picture with all its pixels replaced by `pixels`.
    pub open spec fn with_pixels(self, pixels: Seq<Pixel>) -> Grid {
        Grid { pixels, ..self }
    }

    /// A coordinate inside the picture has its place inside `pixels`.
    pub proof fn index_in_range(self, x: int, y: int)
        requires
            self.wf(),
            self.contains(x, y),
        ensures
            0 <= self.index(x, y) < self.pixels.len(),
    {
        assert(y * self.width + x < (y + 1) * self.width) by (nonlinear_arith)
            requires
                0 <= x < self.width,
                0 <= y,
        ;
        assert((y + 1) * self.width <= self.height * self.width) by (nonlinear_arith)
            requires
                0 <= y < self.height,
        ;
        assert(0 <= y * self.width) by (nonlinear_arith)
            requires
                0 <= y,
        ;
        assert(self.width * self.height == self.height * self.width) by (nonlinear_arith);
    }
}

/// The pixels that `bytes` hold as red-green-blue triples; bytes behind the
/// last whole triple are passed over.
pub open spec fn rgb_pixels(bytes: Seq<u8>) -> Seq<Pixel> {
    Seq::new(
        bytes.len() / 3,
        |i: int| Pixel { r: bytes[3 * i], g: bytes[3 * i + 1], b: bytes[3 * i + 2] },
    )
}

/// The pixels as red-green-blue triples, one after the other.
pub open spec fn rgb_bytes(pixels: Seq<Pixel>) -> Seq<u8> {
    Seq::new(
        3 * pixels.len(),
        |i: int|
            if i % 3 == 0 {
                pixels[i / 3].r
            } else if i % 3 == 1 {
                pixels[i / 3].g
            } else {
                pixels[i / 3].b
            },
    )
}

/// Reads the red-green-blue triples that `bytes` hold.
pub fn unpack_rgb(bytes: &[u8]) -> (res: Vec<Pixel>)
    ensures
        res@ == rgb_pixels(bytes@),
{
    let count = bytes.len() / 3;
    let mut res: Vec<Pixel> = Vec::new();
    let mut i: usize = 0;
    while i < count
        invariant
            i <= count,
            count == bytes@.len() / 3,
            bytes@.len() <= usize::MAX,
            res@ == rgb_pixels(bytes@).take(i as int),
        decreases count - i,
    {
        res.push(Pixel { r: bytes[3 * i], g: bytes[3 * i + 1], b: bytes[3 * i + 2] });
        i += 1;
        assert(res@ =~= rgb_pixels(bytes@).take(i as int));
    }
    assert(rgb_pixels(bytes@).take(count as int) =~= rgb_pixels(bytes@));
    res
}

/// Writes the pixels as red-green-blue triples.
pub fn pack_rgb(pixels: &Vec<Pixel>) -> (res: Vec<u8>)
    ensures
        res@ == rgb_bytes(pixels@),
{
    let mut res: Vec<u8> = Vec::new();
    let mut i: usize = 0;
    while i < pixels.len()
        invariant
            i <= pixels@.len(),
            res@ == rgb_bytes(pixels@.take(i as int)),
        decreases pixels@.len() - i,
    {
        let p = &pixels[i];
        res.push(p.r);
        res.push(p.g);
        res.push(p.b);
        i += 1;
        assert(res@ =~= rgb_bytes(pixels@.take(i as int)));
    }
    assert(pixels@.take(i as int) =~= pixels@);
    res
}

/// Reading the triples that were written for `pixels` gives `pixels`.
pub proof fn unpack_after_pack(pixels: Seq<Pixel>)
    ensures
        rgb_pixels(rgb_bytes(pixels)) == pixels,
{
    assert(rgb_pixels(rgb_bytes(pixels)) =~= pixels);
}

/// What every decoded image offers, whatever container it came from: a grid
/// of pixels that can be read and written by coordinate, and the way back to
/// the container's bytes.
pub trait ImageFormat {
    /// The image is valid. Decoding establishes this and writing a pixel
    /// preserves it.
    spec fn wf(&self) -> bool;

    /// The picture that the image holds.
    spec fn grid(&self) -> Grid;

    /// The largest value that the image stores in a channel.
    spec fn ceiling(&self) -> u8;

    /// The size that `get_size` reports.
    spec fn size(&self) -> u32;

    /// The text that `get_signature` returns.
    spec fn signature(&self) -> Seq<char>;

    /// The text that `get_metadata` returns.
    spec fn metadata(&self) -> Seq<char>;

    /// The bytes that `to_bytes` returns.
    spec fn encoding(&self) -> Seq<u8>;

    /// A valid image holds a well-formed picture.
    proof fn grid_wf(&self)
        requires
            self.wf(),
        ensures
            self.grid().wf(),
            self.grid().pixels.len() <= usize::MAX,
    ;

    /// The pixel in column `x` of row `y`, or `None` when the coordinate lies
    /// outside the picture.
    fn get_pixel(&self, x: usize, y: usize) -> (res: Option<&Pixel>)
        requires
            self.wf(),
        ensures
            res is Some <==> self.grid().contains(x as int, y as int),
            res matches Some(p) ==> *p == self.grid().at(x as int, y as int),
    ;

    /// Replaces the pixel in column `x` of row `y`. Fails, and changes
    /// nothing, when the coordinate lies outside the picture or a channel of
    /// `pixel` is above the ceiling.
    fn set_pixel(&mut self, x: usize, y: usize, pixel: Pixel) -> (res: Option<()>)
        requires
            old(self).wf(),
        ensures
            final(self).wf(),
            res is Some <==> old(self).grid().contains(x as int, y as int) && pixel.within(
                old(self).ceiling(),
            ),
            res is Some ==> final(self).grid() == old(self).grid().put(x as int, y as int, pixel),
            res is Some ==> final(self).grid().at(x as int, y as int) == pixel,
            res is None ==> final(self).grid() == old(self).grid(),
            final(self).ceiling() == old(self).ceiling(),
            final(self).size() == old(self).size(),
            final(self).signature() == old(self).signature(),
            final(self).metadata() == old(self).metadata(),
    ;

    /// The size of the image as its container records it.
    fn get_size(&self) -> (res: u32)
        requires
            self.wf(),
        ensures
            res == self.size(),
    ;

    /// The container's magic, as text.
    fn get_signature(&self) -> (res: String)
        requires
            self.wf(),
        ensures
            res@ == self.signature(),
    ;

    /// A dump of the container's header fields, for people to read.
    fn get_metadata(&self) -> (res: String)
        requires
            self.wf(),
        ensures
            res@ == self.metadata(),
    ;

    /// The number of columns.
    fn get_width(&self) -> (res: usize)
        requires
            self.wf(),
        ensures
            res == self.grid().width,
    ;

    /// The number of rows.
    fn get_height(&self) -> (res: usize)
        requires
            self.wf(),
        ensures
            res == self.grid().height,
    ;

    /// The image as the bytes of its container.
    fn to_bytes(&self) -> (res: Vec<u8>)
        requires
            self.wf(),
        ensures
            res@ == self.encoding(),
    ;
}

} // verus!
