//! The PPM container in its binary, full-colour form.
//!
//! A file is a header of lines, each ended by a line feed, and the pixels
//! as red-green-blue triples. Line 0 of the header is the two-byte
//! signature, line 1 is passed over, line 2 holds width and height with a
//! space between them, and line 3 the largest value of a channel.
//!
//! Every whole triple behind the header is read and kept. The picture is
//! the first `width * height` of them.

use vstd::prelude::*;
use vstd::string::StringExecFns;
use super::decimal::{decimal, parse_decimal, push_decimal, read_decimal};
use super::format::{rgb_bytes, rgb_pixels, unpack_rgb, Grid, ImageFormat};
use super::wire::push_all;
use crate::models::{Colors, Pixel};
use crate::utils::text::{list_text, number_text, push_list, push_number};

verus! {

/// A decoded PPM. `pixels` holds every triple that the file held; the
/// picture is the first `width * height` of them, row by row. With
/// `max_color` absent the image is a bitmap: it stores every pixel and is
/// written with one byte for each pixel, 1 for white and 0 for any other
/// colour.
#[derive(Debug)]
pub struct Ppm {
    pub signature: [u8; 2],
    pub width: u32,
    pub height: u32,
    pub max_color: Option<u8>,
    pub pixels: Vec<Pixel>,
}

/// The place of the first byte `stop` in `data` at or behind `from`, or the
/// length of `data` where there is none.
pub open spec fn next_at(data: Seq<u8>, from: int, stop: u8) -> int
    decreases data.len() - from,
{
    if from < 0 || from >= data.len() {
        data.len() as int
    } else if data[from] == stop {
        from
    } else {
        next_at(data, from + 1, stop)
    }
}

/// Where the lines of the header end, and what they hold.
pub struct PpmLayout {
    pub end0: int,
    pub end1: int,
    pub end2: int,
    pub end3: int,
    pub space: int,
    pub width: Option<nat>,
    pub height: Option<nat>,
    pub max_color: Option<nat>,
    pub body: Seq<u8>,
}

/// The layout of `data`.
pub open spec fn layout_of(data: Seq<u8>) -> PpmLayout {
    let end0 = next_at(data, 0, 0x0A);
    let end1 = next_at(data, end0 + 1, 0x0A);
    let end2 = next_at(data, end1 + 1, 0x0A);
    let end3 = next_at(data, end2 + 1, 0x0A);
    let sizes = data.subrange(end1 + 1, end2);
    let space = next_at(sizes, 0, 0x20);
    let space2 = next_at(sizes, space + 1, 0x20);
    PpmLayout {
        end0,
        end1,
        end2,
        end3,
        space,
        width: parse_decimal(sizes.subrange(0, space), u32::MAX as nat),
        height: parse_decimal(sizes.subrange(space + 1, space2), u32::MAX as nat),
        max_color: parse_decimal(data.subrange(end2 + 1, end3), 255),
        body: if end3 < data.len() {
            data.subrange(end3 + 1, data.len() as int)
        } else {
            Seq::empty()
        },
    }
}

/// `bytes`, cut into pieces at every byte `stop`: the piece that starts at
/// `from`.
fn piece<'a>(data: &'a [u8], from: usize, stop: u8) -> (res: (&'a [u8], usize))
    requires
        from <= data@.len(),
    ensures
        res.1 == next_at(data@, from as int, stop),
        from <= res.1 <= data@.len(),
        res.0@ == data@.subrange(from as int, res.1 as int),
{
    let mut end: usize = from;
    while end < data.len() && data[end] != stop
        invariant
            from <= end <= data@.len(),
            next_at(data@, from as int, stop) == next_at(data@, end as int, stop),
        decreases data@.len() - end,
    {
        end += 1;
    }
    (vstd::slice::slice_subrange(data, from, end), end)
}

impl Ppm {
    /// Whether the image is one that decoding can give: it holds a pixel
    /// for each coordinate.
    pub open spec fn valid(&self) -> bool {
        self.pixels.len() >= self.width * self.height
    }

    /// The pixels of the picture: the first `width * height` triples.
    pub open spec fn picture(&self) -> Seq<Pixel> {
        self.pixels@.take(self.width * self.height)
    }

    /// Whether `data` is a PPM that this codec decodes: a header of four
    /// lines with a two-byte signature of the binary form, width, height
    /// and largest channel value in decimal, and a triple for every pixel.
    pub open spec fn parsable(data: Seq<u8>) -> bool {
        let l = layout_of(data);
        &&& l.end0 == 2
        &&& data[1] >= 0x04
        &&& l.end1 < data.len()
        &&& l.end2 < data.len()
        &&& l.space < l.end2 - (l.end1 + 1)
        &&& l.width is Some
        &&& l.height is Some
        &&& l.max_color is Some
        &&& 3 * (l.width->0 * l.height->0) <= l.body.len()
    }

    /// Whether the image holds what `data` says.
    pub open spec fn decodes(&self, data: Seq<u8>) -> bool {
        let l = layout_of(data);
        &&& self.signature@ == data.subrange(0, 2)
        &&& self.width == l.width->0
        &&& self.height == l.height->0
        &&& self.max_color == Some(l.max_color->0 as u8)
        &&& self.pixels@ == rgb_pixels(l.body)
    }

    /// The bytes of the whole file.
    pub open spec fn file_bytes(&self) -> Seq<u8> {
        self.signature@ + seq![0x0Au8] + decimal(self.width as nat) + seq![0x20u8] + decimal(
            self.height as nat,
        ) + seq![0x0Au8] + match self.max_color {
            Some(m) => decimal(m as nat) + seq![0x0Au8] + rgb_bytes(self.pixels@),
            None => Seq::new(
                self.pixels@.len(),
                |i: int|
                    if self.pixels@[i] == Colors::spec_white() {
                        1u8
                    } else {
                        0u8
                    },
            ),
        }
    }

    /// Decodes a PPM file.
    pub fn parse(data: &[u8]) -> (res: Option<Ppm>)
        ensures
            res is Some <==> Ppm::parsable(data@),
            res matches Some(ppm) ==> ppm.decodes(data@) && ppm.valid(),
    {
        let total = data.len();
        let (signature, end0) = piece(data, 0, 0x0A);
        if end0 != 2 || end0 >= total {
            return None;
        }
        if data[1] < 0x04 {
            // The plain-text form.
            return match Ppm::parse_ascii(vstd::slice::slice_subrange(data, end0 + 1, total)) {
                Some(pixels) => Some(
                    Ppm {
                        signature: [signature[0], signature[1]],
                        width: 0,
                        height: 0,
                        max_color: None,
                        pixels,
                    },
                ),
                None => None,
            };
        }
        let (_, end1) = piece(data, end0 + 1, 0x0A);
        if end1 >= total {
            return None;
        }
        let (sizes, end2) = piece(data, end1 + 1, 0x0A);
        if end2 >= total {
            return None;
        }
        let (first, space) = piece(sizes, 0, 0x20);
        if space >= sizes.len() {
            return None;
        }
        let (second, _) = piece(sizes, space + 1, 0x20);
        let width = match read_decimal(first, u32::MAX) {
            Some(w) => w,
            None => {
                return None;
            },
        };
        let height = match read_decimal(second, u32::MAX) {
            Some(h) => h,
            None => {
                return None;
            },
        };
        let (limit, end3) = piece(data, end2 + 1, 0x0A);
        let max_color = match read_decimal(limit, 255) {
            Some(m) => m as u8,
            None => {
                return None;
            },
        };
        let body = if end3 < total {
            vstd::slice::slice_subrange(data, end3 + 1, total)
        } else {
            vstd::slice::slice_subrange(data, total, total)
        };
        assert(body@ =~= layout_of(data@).body);
        let pixels = match Ppm::parse_binary(body) {
            Some(p) => p,
            None => {
                return None;
            },
        };
        assert(width * height <= u64::MAX) by (nonlinear_arith)
            requires
                width <= u32::MAX,
                height <= u32::MAX,
        ;
        let count: u64 = width as u64 * (height as u64);
        if count > pixels.len() as u64 {
            return None;
        }
        let signature = [signature[0], signature[1]];
        assert(signature@ =~= data@.subrange(0, 2));
        Some(Ppm { signature, width, height, max_color: Some(max_color), pixels })
    }

    /// The plain-text form is not supported: reading it fails, whatever it
    /// holds.
    pub fn parse_ascii(_data: &[u8]) -> (res: Option<Vec<Pixel>>)
        ensures
            res is None,
    {
        None
    }

    /// Reads the red-green-blue triples that `data` holds.
    pub fn parse_binary(data: &[u8]) -> (res: Option<Vec<Pixel>>)
        ensures
            res matches Some(v) && v@ == rgb_pixels(data@),
    {
        Some(unpack_rgb(data))
    }
}

impl Default for Ppm {
    /// The empty bitmap.
    fn default() -> (res: Ppm)
        ensures
            res.valid(),
            res.signature@ == seq![0u8, 0u8],
            res.width == 0,
            res.height == 0,
            res.max_color is None,
            res.pixels@.len() == 0,
    {
        let signature: [u8; 2] = [0, 0];
        assert(signature@ =~= seq![0u8, 0u8]);
        let pixels: Vec<Pixel> = Vec::new();
        assert(pixels.len() == 0);
        let res = Ppm { signature, width: 0, height: 0, max_color: None, pixels };
        assert(res.width * res.height == 0) by (nonlinear_arith)
            requires
                res.width == 0,
        ;
        res
    }
}

impl ImageFormat for Ppm {
    open spec fn wf(&self) -> bool {
        self.valid()
    }

    open spec fn grid(&self) -> Grid {
        Grid { width: self.width as nat, height: self.height as nat, pixels: self.picture() }
    }

    open spec fn ceiling(&self) -> u8 {
        match self.max_color {
            Some(m) => m,
            None => 255,
        }
    }

    open spec fn size(&self) -> u32 {
        (self.pixels@.len() % 0x1_0000_0000) as u32
    }

    open spec fn signature(&self) -> Seq<char> {
        seq![self.signature[0] as char, self.signature[1] as char]
    }

    open spec fn metadata(&self) -> Seq<char> {
        Seq::empty() + "Ppm { signature: "@ + list_text(self.signature@) + ", width: "@
            + number_text(self.width as nat) + ", height: "@ + number_text(self.height as nat)
            + ", max_color: "@ + match self.max_color {
            Some(m) => "Some("@ + number_text(m as nat) + ")"@,
            None => "None"@,
        } + " }"@
    }

    open spec fn encoding(&self) -> Seq<u8> {
        self.file_bytes()
    }

    proof fn grid_wf(&self) {
    }

    fn get_height(&self) -> (res: usize) {
        self.height as usize
    }

    fn get_width(&self) -> (res: usize) {
        self.width as usize
    }

    fn get_size(&self) -> (res: u32) {
        (self.pixels.len() as u64 % 0x1_0000_0000) as u32
    }

    fn get_pixel(&self, x: usize, y: usize) -> (res: Option<&Pixel>) {
        if x >= self.width as usize || y >= self.height as usize {
            return None;
        }
        proof {
            self.grid().index_in_range(x as int, y as int);
        }
        Some(&self.pixels[y * (self.width as usize) + x])
    }

    fn get_metadata(&self) -> (res: String) {
        let mut res = String::new();
        res.append("Ppm { signature: ");
        push_list(&mut res, self.signature.as_slice());
        res.append(", width: ");
        push_number(&mut res, self.width);
        res.append(", height: ");
        push_number(&mut res, self.height);
        res.append(", max_color: ");
        let ghost head = res@;
        match self.max_color {
            Some(m) => {
                res.append("Some(");
                push_number(&mut res, m as u32);
                res.append(")");
                assert(res@ =~= head + ("Some("@ + number_text(m as nat) + ")"@));
            },
            None => {
                res.append("None");
            },
        }
        res.append(" }");
        res
    }

    fn get_signature(&self) -> (res: String) {
        let mut res = String::new();
        res.push(self.signature[0] as char);
        res.push(self.signature[1] as char);
        res
    }

    fn set_pixel(&mut self, x: usize, y: usize, pixel: Pixel) -> (res: Option<()>)
        ensures
            final(self).signature == old(self).signature,
            final(self).width == old(self).width,
            final(self).height == old(self).height,
            final(self).max_color == old(self).max_color,
    {
        if x >= self.width as usize || y >= self.height as usize {
            return None;
        }
        match self.max_color {
            Some(max) => {
                if pixel.r > max || pixel.g > max || pixel.b > max {
                    return None;
                }
            },
            None => {},
        }
        proof {
            self.grid().index_in_range(x as int, y as int);
        }
        let at = y * (self.width as usize) + x;
        self.pixels.set(at, pixel);
        assert(self.picture() =~= old(self).picture().update(at as int, pixel));
        Some(())
    }

    fn to_bytes(&self) -> (res: Vec<u8>) {
        let mut res: Vec<u8> = Vec::new();
        res.push(self.signature[0]);
        res.push(self.signature[1]);
        res.push(0x0A);
        push_decimal(&mut res, self.width);
        res.push(0x20);
        push_decimal(&mut res, self.height);
        res.push(0x0A);
        let ghost head = res@;
        assert(head =~= self.signature@ + seq![0x0Au8] + decimal(self.width as nat) + seq![
            0x20u8,
        ] + decimal(self.height as nat) + seq![0x0Au8]);
        match self.max_color {
            Some(max) => {
                push_decimal(&mut res, max as u32);
                res.push(0x0A);
                let ghost line = res@;
                let mut i: usize = 0;
                while i < self.pixels.len()
                    invariant
                        i <= self.pixels@.len(),
                        res@ == line + rgb_bytes(self.pixels@.take(i as int)),
                    decreases self.pixels@.len() - i,
                {
                    let p = &self.pixels[i];
                    res.push(p.r);
                    res.push(p.g);
                    res.push(p.b);
                    i += 1;
                    assert(res@ =~= line + rgb_bytes(self.pixels@.take(i as int)));
                }
                assert(self.pixels@.take(i as int) =~= self.pixels@);
                assert(res@ =~= self.file_bytes());
            },
            None => {
                let ghost marks = Seq::new(
                    self.pixels@.len(),
                    |i: int|
                        if self.pixels@[i] == Colors::spec_white() {
                            1u8
                        } else {
                            0u8
                        },
                );
                let mut i: usize = 0;
                while i < self.pixels.len()
                    invariant
                        i <= self.pixels@.len(),
                        marks == Seq::new(
                            self.pixels@.len(),
                            |i: int|
                                if self.pixels@[i] == Colors::spec_white() {
                                    1u8
                                } else {
                                    0u8
                                },
                        ),
                        res@ == head + marks.take(i as int),
                    decreases self.pixels@.len() - i,
                {
                    let p = &self.pixels[i];
                    if p.r == 255 && p.g == 255 && p.b == 255 {
                        res.push(1);
                    } else {
                        res.push(0);
                    }
                    i += 1;
                    assert(res@ =~= head + marks.take(i as int));
                }
                assert(marks.take(i as int) =~= marks);
                assert(res@ =~= self.file_bytes());
            },
        }
        res
    }
}

} // verus!
