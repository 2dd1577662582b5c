//! The Windows bitmap container, uncompressed with 24 bits per pixel.
//!
//! A file is a 14-byte file header, a 40-byte info header, any bytes that
//! stand between the info header and the pixel data, the pixels as
//! blue-green-red triples, and two closing zero bytes. Rows are not padded.
//! Row 0 of the decoded picture is the row that the file stores first.
//!
//! Every whole triple behind the declared offset is read and kept, so that
//! a file is written back as it was read. The picture is the first
//! `width * height` of them.

use vstd::prelude::*;
use super::format::{Grid, ImageFormat};
use super::wire::{
    bytes_u16_le, bytes_u32_le, push_all, push_u16_le, push_u32_le, read_after_write_u16,
    read_after_write_u32, read_u16_le, read_u32_le, u16_le, u32_le, write_after_read_u16,
    write_after_read_u32,
};
use crate::models::Pixel;
use crate::utils::text::{list_text, number_text, push_list, push_number};
use vstd::string::StringExecFns;

verus! {

/// The file header.
#[derive(Debug, Clone, Copy)]
pub struct BmpHeader {
    pub signature: [u8; 2],
    pub file_size: u32,
    pub reserved: u32,
    pub data_offset: u32,
}

/// The info header, and the bytes between it and the pixel data.
#[derive(Debug, Clone)]
pub struct BmpInfo {
    pub size: u32,
    pub width: u32,
    pub height: u32,
    pub planes: u16,
    pub bits_per_pixel: u16,
    pub compression: u32,
    pub image_size: u32,
    pub h_res: u32,
    pub v_res: u32,
    pub colors: u32,
    pub important_colors: u32,
    pub padding: Vec<u8>,
}

/// One entry of a colour table.
#[derive(Debug, Clone, Copy)]
pub struct BmpColorTable {
    pub red: u8,
    pub green: u8,
    pub blue: u8,
    pub reserved: u8,
}

/// A decoded bitmap. `data` holds every triple that the file held; the
/// picture is the first `width * height` of them, row by row.
#[derive(Debug, Clone)]
pub struct Bmp {
    pub header: BmpHeader,
    pub info: BmpInfo,
    pub colors: Option<Box<BmpColorTable>>,
    pub data: Vec<Pixel>,
}

/// The pixels that `data` holds as blue-green-red triples; bytes behind the
/// last whole triple are passed over.
pub open spec fn bgr_pixels(data: Seq<u8>) -> Seq<Pixel> {
    Seq::new(
        data.len() / 3,
        |i: int| Pixel { r: data[3 * i + 2], g: data[3 * i + 1], b: data[3 * i] },
    )
}

/// The pixels as blue-green-red triples, one after the other.
pub open spec fn bgr_bytes(pixels: Seq<Pixel>) -> Seq<u8> {
    Seq::new(
        3 * pixels.len(),
        |i: int|
            if i % 3 == 0 {
                pixels[i / 3].b
            } else if i % 3 == 1 {
                pixels[i / 3].g
            } else {
                pixels[i / 3].r
            },
    )
}

impl BmpHeader {
    /// Whether `data` starts with a file header: 14 bytes, the first two of
    /// them `BM`.
    pub open spec fn readable(data: Seq<u8>) -> bool {
        data.len() >= 14 && data[0] == 0x42 && data[1] == 0x4D
    }

    /// Whether the header holds what the first 14 bytes of `data` say.
    pub open spec fn decodes(self, data: Seq<u8>) -> bool {
        &&& self.signature@ == seq![0x42u8, 0x4Du8]
        &&& self.file_size == u32_le(data, 2)
        &&& self.reserved == u32_le(data, 6)
        &&& self.data_offset == u32_le(data, 10)
    }

    /// The 14 bytes of the header.
    pub open spec fn encoding(self) -> Seq<u8> {
        self.signature@ + bytes_u32_le(self.file_size) + bytes_u32_le(self.reserved)
            + bytes_u32_le(self.data_offset)
    }
}

impl BmpInfo {
    /// Whether `data` holds an info header and the pixel data starts at
    /// `offset`, at or after the end of the info header and inside `data`.
    pub open spec fn readable(data: Seq<u8>, offset: u32) -> bool {
        54 <= offset <= data.len()
    }

    /// Whether the info header holds what bytes 14 to `offset` of `data` say.
    pub open spec fn decodes(self, data: Seq<u8>, offset: u32) -> bool {
        &&& self.size == u32_le(data, 14)
        &&& self.width == u32_le(data, 18)
        &&& self.height == u32_le(data, 22)
        &&& self.planes == u16_le(data, 26)
        &&& self.bits_per_pixel == u16_le(data, 28)
        &&& self.compression == u32_le(data, 30)
        &&& self.image_size == u32_le(data, 34)
        &&& self.h_res == u32_le(data, 38)
        &&& self.v_res == u32_le(data, 42)
        &&& self.colors == u32_le(data, 46)
        &&& self.important_colors == u32_le(data, 50)
        &&& self.padding@ == data.subrange(54, offset as int)
    }

    /// The 40 bytes of the info header, and the bytes that follow it up to
    /// the pixel data.
    pub open spec fn encoding(self) -> Seq<u8> {
        bytes_u32_le(self.size) + bytes_u32_le(self.width) + bytes_u32_le(self.height)
            + bytes_u16_le(self.planes) + bytes_u16_le(self.bits_per_pixel) + bytes_u32_le(
            self.compression,
        ) + bytes_u32_le(self.image_size) + bytes_u32_le(self.h_res) + bytes_u32_le(self.v_res)
            + bytes_u32_le(self.colors) + bytes_u32_le(self.important_colors) + self.padding@
    }

    /// The number of pixels that the header declares.
    pub open spec fn pixel_count(self) -> nat {
        (self.width * self.height) as nat
    }
}

/// `before`, followed by the dump of the file header.
pub open spec fn with_header_text(before: Seq<char>, h: BmpHeader) -> Seq<char> {
    before + "BmpHeader { signature: "@ + list_text(h.signature@) + ", file_size: "@ + number_text(
        h.file_size as nat,
    ) + ", reserved: "@ + number_text(h.reserved as nat) + ", data_offset: "@ + number_text(
        h.data_offset as nat,
    ) + " }"@
}

/// `before`, followed by the dump of the info header.
pub open spec fn with_info_text(before: Seq<char>, i: BmpInfo) -> Seq<char> {
    before + "BmpInfo { size: "@ + number_text(i.size as nat) + ", width: "@ + number_text(
        i.width as nat,
    ) + ", height: "@ + number_text(i.height as nat) + ", planes: "@ + number_text(
        i.planes as nat,
    ) + ", bits_per_pixel: "@ + number_text(i.bits_per_pixel as nat) + ", compression: "@
        + number_text(i.compression as nat) + ", image_size: "@ + number_text(
        i.image_size as nat,
    ) + ", h_res: "@ + number_text(i.h_res as nat) + ", v_res: "@ + number_text(i.v_res as nat)
        + ", colors: "@ + number_text(i.colors as nat) + ", important_colors: "@ + number_text(
        i.important_colors as nat,
    ) + ", padding: "@ + list_text(i.padding@) + " }"@
}

impl BmpColorTable {
    /// Whether the entry holds bytes 54 to 57 of `data`.
    pub open spec fn decodes(self, data: Seq<u8>) -> bool {
        &&& self.red == data[54]
        &&& self.green == data[55]
        &&& self.blue == data[56]
        &&& self.reserved == data[57]
    }
}

impl Bmp {
    /// Whether `data` is a bitmap that this codec decodes: it holds both
    /// headers, declares 24 bits per pixel, and holds a triple for every
    /// pixel that it declares, from the declared offset on.
    pub open spec fn parsable(data: Seq<u8>) -> bool {
        &&& BmpHeader::readable(data)
        &&& BmpInfo::readable(data, u32_le(data, 10))
        &&& u16_le(data, 28) == 24
        &&& u32_le(data, 10) + 3 * (u32_le(data, 18) * u32_le(data, 22)) <= data.len()
    }

    /// Whether the bitmap holds what `data` says.
    pub open spec fn decodes(&self, data: Seq<u8>) -> bool {
        &&& self.header.decodes(data)
        &&& self.info.decodes(data, self.header.data_offset)
        &&& self.colors is None
        &&& self.data@ == bgr_pixels(
            data.subrange(self.header.data_offset as int, data.len() as int),
        )
    }

    /// Whether the bitmap is one that decoding can give.
    pub open spec fn valid(&self) -> bool {
        &&& self.header.signature@ == seq![0x42u8, 0x4Du8]
        &&& self.header.data_offset == 54 + self.info.padding@.len()
        &&& self.info.bits_per_pixel == 24
        &&& self.colors is None
        &&& self.data.len() >= self.info.width * self.info.height
    }

    /// The pixels of the picture: the first `width * height` triples.
    pub open spec fn picture(&self) -> Seq<Pixel> {
        self.data@.take(self.info.width * self.info.height)
    }

    /// The bytes of the whole file.
    pub open spec fn file_bytes(&self) -> Seq<u8> {
        self.header.encoding() + self.info.encoding() + bgr_bytes(self.data@) + seq![0u8, 0u8]
    }

    /// Decodes a bitmap file.
    pub fn parse(data: &[u8]) -> (res: Option<Bmp>)
        ensures
            res is Some <==> Bmp::parsable(data@),
            res matches Some(bmp) ==> bmp.decodes(data@) && bmp.valid(),
    {
        let header = match Bmp::parse_header(data) {
            Some(h) => h,
            None => {
                return None;
            },
        };
        let info = match Bmp::parse_info(data, header.data_offset) {
            Some(i) => i,
            None => {
                return None;
            },
        };
        let body = vstd::slice::slice_subrange(data, header.data_offset as usize, data.len());
        let pixels = match Bmp::parse_pixels(body, &info) {
            Some(p) => p,
            None => {
                return None;
            },
        };
        Some(Bmp { header, info, colors: None, data: pixels })
    }

    /// Reads the file header.
    pub fn parse_header(data: &[u8]) -> (res: Option<BmpHeader>)
        ensures
            res is Some <==> BmpHeader::readable(data@),
            res matches Some(h) ==> h.decodes(data@),
    {
        if data.len() < 2 || data[0] != 0x42 || data[1] != 0x4D {
            return None;
        }
        if data.len() < 14 {
            return None;
        }
        Some(
            BmpHeader {
                signature: [0x42, 0x4D],
                file_size: read_u32_le(data, 2),
                reserved: read_u32_le(data, 6),
                data_offset: read_u32_le(data, 10),
            },
        )
    }

    /// Reads the info header, and keeps the bytes between its end and
    /// `offset`, where the pixel data starts.
    pub fn parse_info(data: &[u8], offset: u32) -> (res: Option<BmpInfo>)
        ensures
            res is Some <==> BmpInfo::readable(data@, offset),
            res matches Some(i) ==> i.decodes(data@, offset),
    {
        if offset < 54 || offset as usize > data.len() {
            return None;
        }
        let mut padding: Vec<u8> = Vec::new();
        push_all(&mut padding, vstd::slice::slice_subrange(data, 54, offset as usize));
        Some(
            BmpInfo {
                size: read_u32_le(data, 14),
                width: read_u32_le(data, 18),
                height: read_u32_le(data, 22),
                planes: read_u16_le(data, 26),
                bits_per_pixel: read_u16_le(data, 28),
                compression: read_u32_le(data, 30),
                image_size: read_u32_le(data, 34),
                h_res: read_u32_le(data, 38),
                v_res: read_u32_le(data, 42),
                colors: read_u32_le(data, 46),
                important_colors: read_u32_le(data, 50),
                padding,
            },
        )
    }

    /// Reads the first entry of a colour table that follows the info header.
    pub fn parse_table(data: &[u8]) -> (res: Option<BmpColorTable>)
        ensures
            res is Some <==> data@.len() >= 58,
            res matches Some(t) ==> t.decodes(data@),
    {
        if data.len() < 58 {
            return None;
        }
        Some(BmpColorTable { red: data[54], green: data[55], blue: data[56], reserved: data[57] })
    }

    /// Reads every triple from `data`, which starts where the pixel data
    /// starts. Fails unless `bmp_info` declares 24 bits per pixel and
    /// `data` holds a triple for every pixel that `bmp_info` declares.
    pub fn parse_pixels(data: &[u8], bmp_info: &BmpInfo) -> (res: Option<Vec<Pixel>>)
        ensures
            res is Some <==> bmp_info.bits_per_pixel == 24 && 3 * bmp_info.pixel_count()
                <= data@.len(),
            res matches Some(v) ==> v@ == bgr_pixels(data@),
    {
        if bmp_info.bits_per_pixel != 24 {
            return None;
        }
        assert(bmp_info.width * bmp_info.height <= u64::MAX) by (nonlinear_arith)
            requires
                bmp_info.width <= u32::MAX,
                bmp_info.height <= u32::MAX,
        ;
        let declared: u64 = bmp_info.width as u64 * (bmp_info.height as u64);
        let count: usize = data.len() / 3;
        if declared > count as u64 {
            return None;
        }
        let mut res: Vec<Pixel> = Vec::new();
        let mut i: usize = 0;
        while i < count
            invariant
                i <= count,
                count == data@.len() / 3,
                data@.len() <= usize::MAX,
                res@ == bgr_pixels(data@).take(i as int),
            decreases count - i,
        {
            res.push(Pixel { r: data[3 * i + 2], g: data[3 * i + 1], b: data[3 * i] });
            i += 1;
            assert(res@ =~= bgr_pixels(data@).take(i as int));
        }
        assert(bgr_pixels(data@).take(count as int) =~= bgr_pixels(data@));
        Some(res)
    }
}

/// The file that a valid bitmap is written to decodes, and to that bitmap.
pub proof fn encoding_decodes(bmp: Bmp)
    requires
        bmp.valid(),
    ensures
        Bmp::parsable(bmp.file_bytes()),
        bmp.decodes(bmp.file_bytes()),
{
    let e = bmp.file_bytes();
    let h = bmp.header;
    let i = bmp.info;
    let head = h.encoding() + i.encoding();
    let off = h.data_offset as int;
    let n = bmp.data@.len() as int;
    assert(head.len() == off);
    assert(e.len() == off + 3 * n + 2);
    assert(e.subrange(0, 2) =~= h.signature@);
    assert(e[0] == e.subrange(0, 2)[0] && e[1] == e.subrange(0, 2)[1]);
    assert(e.subrange(2, 6) =~= bytes_u32_le(h.file_size));
    assert(e.subrange(6, 10) =~= bytes_u32_le(h.reserved));
    assert(e.subrange(10, 14) =~= bytes_u32_le(h.data_offset));
    assert(e.subrange(14, 18) =~= bytes_u32_le(i.size));
    assert(e.subrange(18, 22) =~= bytes_u32_le(i.width));
    assert(e.subrange(22, 26) =~= bytes_u32_le(i.height));
    assert(e.subrange(26, 28) =~= bytes_u16_le(i.planes));
    assert(e.subrange(28, 30) =~= bytes_u16_le(i.bits_per_pixel));
    assert(e.subrange(30, 34) =~= bytes_u32_le(i.compression));
    assert(e.subrange(34, 38) =~= bytes_u32_le(i.image_size));
    assert(e.subrange(38, 42) =~= bytes_u32_le(i.h_res));
    assert(e.subrange(42, 46) =~= bytes_u32_le(i.v_res));
    assert(e.subrange(46, 50) =~= bytes_u32_le(i.colors));
    assert(e.subrange(50, 54) =~= bytes_u32_le(i.important_colors));
    assert(e.subrange(54, off) =~= i.padding@);
    field_at_u32(e, 2, h.file_size);
    field_at_u32(e, 6, h.reserved);
    field_at_u32(e, 10, h.data_offset);
    field_at_u32(e, 14, i.size);
    field_at_u32(e, 18, i.width);
    field_at_u32(e, 22, i.height);
    field_at_u16(e, 26, i.planes);
    field_at_u16(e, 28, i.bits_per_pixel);
    field_at_u32(e, 30, i.compression);
    field_at_u32(e, 34, i.image_size);
    field_at_u32(e, 38, i.h_res);
    field_at_u32(e, 42, i.v_res);
    field_at_u32(e, 46, i.colors);
    field_at_u32(e, 50, i.important_colors);
    let body = e.subrange(off, e.len() as int);
    assert(body =~= bgr_bytes(bmp.data@) + seq![0u8, 0u8]);
    assert(body.len() == 3 * n + 2);
    assert(bmp.data@ =~= bgr_pixels(body));
    assert(3 * (bmp.info.width * bmp.info.height) <= 3 * n);
}

/// Two bitmaps that decode the same file agree in every field.
pub proof fn decoding_is_unique(a: Bmp, b: Bmp, data: Seq<u8>)
    requires
        a.decodes(data),
        b.decodes(data),
    ensures
        a.header == b.header,
        a.info.size == b.info.size,
        a.info.width == b.info.width,
        a.info.height == b.info.height,
        a.info.planes == b.info.planes,
        a.info.bits_per_pixel == b.info.bits_per_pixel,
        a.info.compression == b.info.compression,
        a.info.image_size == b.info.image_size,
        a.info.h_res == b.info.h_res,
        a.info.v_res == b.info.v_res,
        a.info.colors == b.info.colors,
        a.info.important_colors == b.info.important_colors,
        a.info.padding@ == b.info.padding@,
        a.colors == b.colors,
        a.data@ == b.data@,
{
    assert(a.header.signature =~= b.header.signature);
}

/// Writing a decoded bitmap and decoding the file again gives the same
/// width, height and bit depth and the same pixels.
pub proof fn round_trip_keeps_picture(bmp: Bmp, again: Bmp)
    requires
        bmp.valid(),
        again.decodes(bmp.file_bytes()),
    ensures
        Bmp::parsable(bmp.file_bytes()),
        again.info.width == bmp.info.width,
        again.info.height == bmp.info.height,
        again.info.bits_per_pixel == bmp.info.bits_per_pixel,
        again.data@ == bmp.data@,
        again.picture() == bmp.picture(),
        again.grid() == bmp.grid(),
{
    encoding_decodes(bmp);
    decoding_is_unique(bmp, again, bmp.file_bytes());
}

/// A file that holds nothing after its last whole triple but the two
/// closing zero bytes is written back byte for byte.
pub proof fn decoded_file_is_rewritten(bmp: Bmp, data: Seq<u8>)
    requires
        Bmp::parsable(data),
        bmp.decodes(data),
        (data.len() - bmp.header.data_offset) % 3 == 2,
        data[data.len() - 2] == 0,
        data[data.len() - 1] == 0,
    ensures
        bmp.file_bytes() == data,
{
    let off = bmp.header.data_offset as int;
    header_is_rewritten(bmp.header, data);
    info_is_rewritten(bmp.info, data, bmp.header.data_offset);
    let body = data.subrange(off, data.len() as int);
    assert(bgr_bytes(bmp.data@) =~= body.subrange(0, body.len() - 2));
    assert(bmp.file_bytes() =~= data.subrange(0, 14) + data.subrange(14, off) + body.subrange(
        0,
        body.len() - 2,
    ) + seq![0u8, 0u8]);
    assert(bmp.file_bytes() =~= data);
}

proof fn header_is_rewritten(h: BmpHeader, data: Seq<u8>)
    requires
        BmpHeader::readable(data),
        h.decodes(data),
    ensures
        h.encoding() == data.subrange(0, 14),
{
    write_after_read_u32(data, 2);
    write_after_read_u32(data, 6);
    write_after_read_u32(data, 10);
    assert(h.signature@ =~= data.subrange(0, 2));
    assert(h.encoding() =~= data.subrange(0, 2) + data.subrange(2, 6) + data.subrange(6, 10)
        + data.subrange(10, 14));
    assert(h.encoding() =~= data.subrange(0, 14));
}

proof fn info_is_rewritten(i: BmpInfo, data: Seq<u8>, offset: u32)
    requires
        BmpInfo::readable(data, offset),
        i.decodes(data, offset),
    ensures
        i.encoding() == data.subrange(14, offset as int),
{
    let p = seq![
        bytes_u32_le(i.size),
        bytes_u32_le(i.width),
        bytes_u32_le(i.height),
        bytes_u16_le(i.planes),
        bytes_u16_le(i.bits_per_pixel),
        bytes_u32_le(i.compression),
        bytes_u32_le(i.image_size),
        bytes_u32_le(i.h_res),
        bytes_u32_le(i.v_res),
        bytes_u32_le(i.colors),
        bytes_u32_le(i.important_colors),
        i.padding@,
    ];
    assert(p[0] == data.subrange(14, 18)) by {
        write_after_read_u32(data, 14);
    }
    assert(p[1] == data.subrange(18, 22)) by {
        write_after_read_u32(data, 18);
    }
    assert(p[2] == data.subrange(22, 26)) by {
        write_after_read_u32(data, 22);
    }
    assert(p[3] == data.subrange(26, 28)) by {
        write_after_read_u16(data, 26);
    }
    assert(p[4] == data.subrange(28, 30)) by {
        write_after_read_u16(data, 28);
    }
    assert(p[5] == data.subrange(30, 34)) by {
        write_after_read_u32(data, 30);
    }
    assert(p[6] == data.subrange(34, 38)) by {
        write_after_read_u32(data, 34);
    }
    assert(p[7] == data.subrange(38, 42)) by {
        write_after_read_u32(data, 38);
    }
    assert(p[8] == data.subrange(42, 46)) by {
        write_after_read_u32(data, 42);
    }
    assert(p[9] == data.subrange(46, 50)) by {
        write_after_read_u32(data, 46);
    }
    assert(p[10] == data.subrange(50, 54)) by {
        write_after_read_u32(data, 50);
    }
    info_parts_join(data, offset as int, p);
}

/// The twelve parts of an info header, cut out of `data` one after the
/// other, join to the stretch of `data` that they were cut from.
proof fn info_parts_join(data: Seq<u8>, offset: int, p: Seq<Seq<u8>>)
    requires
        54 <= offset <= data.len(),
        p.len() == 12,
        p[0] == data.subrange(14, 18),
        p[1] == data.subrange(18, 22),
        p[2] == data.subrange(22, 26),
        p[3] == data.subrange(26, 28),
        p[4] == data.subrange(28, 30),
        p[5] == data.subrange(30, 34),
        p[6] == data.subrange(34, 38),
        p[7] == data.subrange(38, 42),
        p[8] == data.subrange(42, 46),
        p[9] == data.subrange(46, 50),
        p[10] == data.subrange(50, 54),
        p[11] == data.subrange(54, offset),
    ensures
        p[0] + p[1] + p[2] + p[3] + p[4] + p[5] + p[6] + p[7] + p[8] + p[9] + p[10] + p[11]
            == data.subrange(14, offset),
{
    let a = p[0] + p[1] + p[2] + p[3];
    assert(a =~= data.subrange(14, 28));
    let b = a + p[4] + p[5] + p[6] + p[7];
    assert(b =~= data.subrange(14, 42));
    let c = b + p[8] + p[9] + p[10] + p[11];
    assert(c =~= data.subrange(14, offset));
}

proof fn field_at_u32(e: Seq<u8>, at: int, v: u32)
    requires
        0 <= at,
        at + 4 <= e.len(),
        e.subrange(at, at + 4) == bytes_u32_le(v),
    ensures
        u32_le(e, at) == v,
{
    let f = e.subrange(at, at + 4);
    assert(f[0] == e[at] && f[1] == e[at + 1] && f[2] == e[at + 2] && f[3] == e[at + 3]);
    read_after_write_u32(v);
}

proof fn field_at_u16(e: Seq<u8>, at: int, v: u16)
    requires
        0 <= at,
        at + 2 <= e.len(),
        e.subrange(at, at + 2) == bytes_u16_le(v),
    ensures
        u16_le(e, at) == v,
{
    let f = e.subrange(at, at + 2);
    assert(f[0] == e[at] && f[1] == e[at + 1]);
    read_after_write_u16(v);
}

impl ImageFormat for Bmp {
    open spec fn wf(&self) -> bool {
        self.valid()
    }

    open spec fn grid(&self) -> Grid {
        Grid {
            width: self.info.width as nat,
            height: self.info.height as nat,
            pixels: self.picture(),
        }
    }

    open spec fn ceiling(&self) -> u8 {
        255
    }

    open spec fn size(&self) -> u32 {
        self.header.file_size
    }

    open spec fn signature(&self) -> Seq<char> {
        seq![self.header.signature[0] as char, self.header.signature[1] as char]
    }

    open spec fn metadata(&self) -> Seq<char> {
        with_info_text(with_header_text(Seq::empty(), self.header) + "\n"@, self.info)
    }

    open spec fn encoding(&self) -> Seq<u8> {
        self.file_bytes()
    }

    proof fn grid_wf(&self) {
    }

    fn get_pixel(&self, x: usize, y: usize) -> (res: Option<&Pixel>) {
        if x >= self.info.width as usize || y >= self.info.height as usize {
            return None;
        }
        proof {
            self.grid().index_in_range(x as int, y as int);
        }
        Some(&self.data[y * (self.info.width as usize) + x])
    }

    fn set_pixel(&mut self, x: usize, y: usize, pixel: Pixel) -> (res: Option<()>)
        ensures
            final(self).header == old(self).header,
            final(self).info == old(self).info,
            final(self).colors == old(self).colors,
    {
        if x >= self.info.width as usize || y >= self.info.height as usize {
            return None;
        }
        proof {
            self.grid().index_in_range(x as int, y as int);
        }
        let at = y * (self.info.width as usize) + x;
        self.data.set(at, pixel);
        assert(self.picture() =~= old(self).picture().update(at as int, pixel));
        Some(())
    }

    fn get_size(&self) -> (res: u32) {
        self.header.file_size
    }

    fn get_signature(&self) -> (res: String) {
        let mut res = String::new();
        res.push(self.header.signature[0] as char);
        res.push(self.header.signature[1] as char);
        res
    }

    fn get_metadata(&self) -> (res: String) {
        let mut res = String::new();
        res.append("BmpHeader { signature: ");
        push_list(&mut res, self.header.signature.as_slice());
        res.append(", file_size: ");
        push_number(&mut res, self.header.file_size);
        res.append(", reserved: ");
        push_number(&mut res, self.header.reserved);
        res.append(", data_offset: ");
        push_number(&mut res, self.header.data_offset);
        res.append(" }");
        res.append("\n");
        res.append("BmpInfo { size: ");
        push_number(&mut res, self.info.size);
        res.append(", width: ");
        push_number(&mut res, self.info.width);
        res.append(", height: ");
        push_number(&mut res, self.info.height);
        res.append(", planes: ");
        push_number(&mut res, self.info.planes as u32);
        res.append(", bits_per_pixel: ");
        push_number(&mut res, self.info.bits_per_pixel as u32);
        res.append(", compression: ");
        push_number(&mut res, self.info.compression);
        res.append(", image_size: ");
        push_number(&mut res, self.info.image_size);
        res.append(", h_res: ");
        push_number(&mut res, self.info.h_res);
        res.append(", v_res: ");
        push_number(&mut res, self.info.v_res);
        res.append(", colors: ");
        push_number(&mut res, self.info.colors);
        res.append(", important_colors: ");
        push_number(&mut res, self.info.important_colors);
        res.append(", padding: ");
        push_list(&mut res, self.info.padding.as_slice());
        res.append(" }");
        res
    }

    fn get_height(&self) -> (res: usize) {
        self.info.height as usize
    }

    fn get_width(&self) -> (res: usize) {
        self.info.width as usize
    }

    fn to_bytes(&self) -> (res: Vec<u8>) {
        let mut img: Vec<u8> = Vec::new();
        img.push(self.header.signature[0]);
        img.push(self.header.signature[1]);
        push_u32_le(&mut img, self.header.file_size);
        push_u32_le(&mut img, self.header.reserved);
        push_u32_le(&mut img, self.header.data_offset);
        assert(img@ =~= self.header.encoding());
        push_u32_le(&mut img, self.info.size);
        push_u32_le(&mut img, self.info.width);
        push_u32_le(&mut img, self.info.height);
        push_u16_le(&mut img, self.info.planes);
        push_u16_le(&mut img, self.info.bits_per_pixel);
        push_u32_le(&mut img, self.info.compression);
        push_u32_le(&mut img, self.info.image_size);
        push_u32_le(&mut img, self.info.h_res);
        push_u32_le(&mut img, self.info.v_res);
        push_u32_le(&mut img, self.info.colors);
        push_u32_le(&mut img, self.info.important_colors);
        push_all(&mut img, self.info.padding.as_slice());
        assert(img@ =~= self.header.encoding() + self.info.encoding());
        let ghost head = img@;
        let mut i: usize = 0;
        while i < self.data.len()
            invariant
                i <= self.data@.len(),
                img@ == head + bgr_bytes(self.data@.subrange(0, i as int)),
            decreases self.data@.len() - i,
        {
            let p = &self.data[i];
            img.push(p.b);
            img.push(p.g);
            img.push(p.r);
            i += 1;
            assert(img@ =~= head + bgr_bytes(self.data@.subrange(0, i as int)));
        }
        assert(self.data@.subrange(0, i as int) =~= self.data@);
        img.push(0);
        img.push(0);
        assert(img@ =~= self.file_bytes());
        img
    }
}

} // verus!
