//! Writing a PNG: the chunks in their order, each with its length and
//! checksum computed anew, and the picture filtered and compressed into
//! fresh `IDAT` chunks that stand where the first `IDAT` chunk stood.

use vstd::prelude::*;
use vstd::string::StringExecFns;
use super::crc::{crc32, crc32_of};
use super::format::{pack_rgb, rgb_bytes, Grid, ImageFormat};
use super::png::{
    first_ihdr, idat_count, tag_idat, Png, PngChunk, PngColorType, PngHeader, PngIccp, PngIhdr,
    PngInterlacing, PngPhys, PngText, PngTime, PngUnit,
};
use super::scanline::filtered;
use super::wire::{bytes_u32_be, push_all, push_u16_be, push_u32_be};
use super::zlib::{deflate, zlib_deflated};
use crate::models::Pixel;
use crate::utils::text::{list_text, number_text, push_list, push_number};

verus! {

/// The longest payload that a fresh `IDAT` chunk is given.
pub const IDAT_LIMIT: usize = 0x7FFF_FFFF;

/// A chunk as it is written: the length of the payload, the tag, the
/// payload and the checksum.
pub open spec fn framed(tag: Seq<u8>, payload: Seq<u8>, crc: u32) -> Seq<u8> {
    bytes_u32_be(payload.len() as u32) + tag + payload + bytes_u32_be(crc)
}

/// A chunk as it is written, with the checksum of its tag and payload.
pub open spec fn sealed(tag: Seq<u8>, payload: Seq<u8>) -> Seq<u8> {
    framed(tag, payload, crc32_of(tag + payload))
}

/// The `IDAT` chunks that hold the compressed stream `z`: as many as are
/// needed to keep every payload within `limit` bytes, and at least one.
pub open spec fn idat_frames(z: Seq<u8>, limit: int) -> Seq<u8>
    decreases z.len(),
{
    if limit <= 0 || z.len() <= limit {
        sealed(tag_idat(), z)
    } else {
        sealed(tag_idat(), z.take(limit)) + idat_frames(z.skip(limit), limit)
    }
}

/// The chunks as they are written, with the compressed stream `z` in fresh
/// `IDAT` chunks in the place of the first `IDAT` chunk and nothing in the
/// place of the others.
pub open spec fn written_chunks(chunks: Seq<PngChunk>, z: Seq<u8>) -> Seq<u8>
    decreases chunks.len(),
{
    if chunks.len() == 0 {
        Seq::empty()
    } else {
        written_chunks(chunks.drop_last(), z) + match chunks.last() {
            PngChunk::IDAT(_) => if idat_count(chunks.drop_last()) == 0 {
                idat_frames(z, IDAT_LIMIT as int)
            } else {
                Seq::empty()
            },
            _ => sealed(chunks.last().tag(), chunks.last().payload()),
        }
    }
}

/// Appends a chunk with the given checksum.
pub fn write_frame(out: &mut Vec<u8>, tag: &[u8], payload: &[u8], crc: u32)
    requires
        payload@.len() <= u32::MAX,
    ensures
        final(out)@ == old(out)@ + framed(tag@, payload@, crc),
{
    push_u32_be(out, payload.len() as u32);
    push_all(out, tag);
    push_all(out, payload);
    push_u32_be(out, crc);
    assert(out@ =~= old(out)@ + framed(tag@, payload@, crc));
}

/// Appends a chunk with the checksum of its tag and payload.
fn seal_frame(out: &mut Vec<u8>, tag: &[u8], payload: &[u8])
    requires
        payload@.len() <= u32::MAX,
    ensures
        final(out)@ == old(out)@ + sealed(tag@, payload@),
{
    let mut covered: Vec<u8> = Vec::new();
    push_all(&mut covered, tag);
    push_all(&mut covered, payload);
    let crc = crc32(covered.as_slice());
    write_frame(out, tag, payload, crc);
}

/// Appends the `IDAT` chunks that hold the compressed stream `z`.
fn seal_idat(out: &mut Vec<u8>, z: &[u8])
    ensures
        final(out)@ == old(out)@ + idat_frames(z@, IDAT_LIMIT as int),
{
    let tag: [u8; 4] = [0x49, 0x44, 0x41, 0x54];
    assert(tag@ =~= tag_idat());
    let total = z.len();
    let mut at: usize = 0;
    assert(z@.skip(0) =~= z@);
    while total - at > IDAT_LIMIT
        invariant
            at <= total,
            total == z@.len(),
            tag@ == tag_idat(),
            old(out)@ + idat_frames(z@, IDAT_LIMIT as int) == out@ + idat_frames(
                z@.skip(at as int),
                IDAT_LIMIT as int,
            ),
        decreases total - at,
    {
        let piece = vstd::slice::slice_subrange(z, at, at + IDAT_LIMIT);
        let ghost before = out@;
        seal_frame(out, tag.as_slice(), piece);
        proof {
            let rest = z@.skip(at as int);
            assert(piece@ =~= rest.take(IDAT_LIMIT as int));
            assert(rest.skip(IDAT_LIMIT as int) =~= z@.skip(at + IDAT_LIMIT));
            assert(before + (sealed(tag_idat(), piece@) + idat_frames(
                z@.skip(at + IDAT_LIMIT),
                IDAT_LIMIT as int,
            )) =~= (before + sealed(tag_idat(), piece@)) + idat_frames(
                z@.skip(at + IDAT_LIMIT),
                IDAT_LIMIT as int,
            ));
        }
        at += IDAT_LIMIT;
    }
    let piece = vstd::slice::slice_subrange(z, at, total);
    assert(piece@ =~= z@.skip(at as int));
    seal_frame(out, tag.as_slice(), piece);
}

fn ihdr_payload(c: &PngIhdr) -> (res: Vec<u8>)
    ensures
        res@ == c.payload(),
{
    let mut res: Vec<u8> = Vec::new();
    push_u32_be(&mut res, c.width);
    push_u32_be(&mut res, c.height);
    res.push(c.bit_depth);
    res.push(
        match c.color_type {
            PngColorType::Grayscale => 0,
            PngColorType::RGB => 2,
            PngColorType::Unknown => 3,
        },
    );
    res.push(c.compression_method);
    res.push(c.filter_method);
    res.push(
        match c.interlacing {
            PngInterlacing::Off => 0,
            PngInterlacing::Adam7 => 1,
        },
    );
    assert(res@ =~= c.payload());
    res
}

fn iccp_payload(c: &PngIccp) -> (res: Vec<u8>)
    ensures
        res@ == c.payload(),
{
    let mut res: Vec<u8> = Vec::new();
    push_all(&mut res, c.keyword.as_slice());
    res.push(0);
    res.push(c.compression_method);
    push_all(&mut res, c.compression_profile.as_slice());
    assert(res@ =~= c.payload());
    res
}

fn phys_payload(c: &PngPhys) -> (res: Vec<u8>)
    ensures
        res@ == c.payload(),
{
    let mut res: Vec<u8> = Vec::new();
    push_u32_be(&mut res, c.pixel_per_unit_x);
    push_u32_be(&mut res, c.pixel_per_unit_y);
    res.push(
        match c.unit {
            PngUnit::Unknown => 0,
            PngUnit::Meter => 1,
        },
    );
    assert(res@ =~= c.payload());
    res
}

fn time_payload(c: &PngTime) -> (res: Vec<u8>)
    ensures
        res@ == c.payload(),
{
    let mut res: Vec<u8> = Vec::new();
    push_u16_be(&mut res, c.year);
    res.push(c.month);
    res.push(c.day);
    res.push(c.hour);
    res.push(c.minute);
    res.push(c.second);
    assert(res@ =~= c.payload());
    res
}

fn text_payload(c: &PngText) -> (res: Vec<u8>)
    ensures
        res@ == c.payload(),
{
    let mut res: Vec<u8> = Vec::new();
    push_all(&mut res, c.keyword.as_slice());
    res.push(0);
    push_all(&mut res, c.text.as_slice());
    assert(res@ =~= c.payload());
    res
}

/// Appends a chunk other than `IDAT` as it is written.
fn seal_chunk(out: &mut Vec<u8>, chunk: &PngChunk)
    requires
        chunk.writable(),
        !(chunk is IDAT),
    ensures
        final(out)@ == old(out)@ + sealed(chunk.tag(), chunk.payload()),
{
    match chunk {
        PngChunk::IHDR(c) => {
            let tag: [u8; 4] = [0x49, 0x48, 0x44, 0x52];
            assert(tag@ =~= chunk.tag());
            seal_frame(out, tag.as_slice(), ihdr_payload(c).as_slice());
        },
        PngChunk::IDAT(_) => {},
        PngChunk::IEND(_) => {
            let tag: [u8; 4] = [0x49, 0x45, 0x4E, 0x44];
            assert(tag@ =~= chunk.tag());
            let empty: Vec<u8> = Vec::new();
            seal_frame(out, tag.as_slice(), empty.as_slice());
        },
        PngChunk::TEXT(c) => {
            let tag: [u8; 4] = [0x74, 0x45, 0x58, 0x74];
            assert(tag@ =~= chunk.tag());
            seal_frame(out, tag.as_slice(), text_payload(c).as_slice());
        },
        PngChunk::ICCP(c) => {
            let tag: [u8; 4] = [0x69, 0x43, 0x43, 0x50];
            assert(tag@ =~= chunk.tag());
            seal_frame(out, tag.as_slice(), iccp_payload(c).as_slice());
        },
        PngChunk::PHYS(c) => {
            let tag: [u8; 4] = [0x70, 0x48, 0x59, 0x73];
            assert(tag@ =~= chunk.tag());
            seal_frame(out, tag.as_slice(), phys_payload(c).as_slice());
        },
        PngChunk::TIME(c) => {
            let tag: [u8; 4] = [0x74, 0x49, 0x4D, 0x45];
            assert(tag@ =~= chunk.tag());
            seal_frame(out, tag.as_slice(), time_payload(c).as_slice());
        },
        PngChunk::Unknown { signature, data, .. } => {
            seal_frame(out, signature.as_slice(), data.as_slice());
        },
    }
}

/// The name of a colour type.
pub open spec fn color_type_text(color_type: PngColorType) -> Seq<char> {
    match color_type {
        PngColorType::Grayscale => "Grayscale"@,
        PngColorType::RGB => "RGB"@,
        PngColorType::Unknown => "Unknown"@,
    }
}

/// The name of an interlacing.
pub open spec fn interlacing_text(interlacing: PngInterlacing) -> Seq<char> {
    match interlacing {
        PngInterlacing::Off => "Off"@,
        PngInterlacing::Adam7 => "Adam7"@,
    }
}

/// `before`, followed by the dump of the magic.
pub open spec fn with_magic_text(before: Seq<char>, h: PngHeader) -> Seq<char> {
    before + "PngHeader { high_byte: "@ + number_text(h.high_byte as nat) + ", signature: "@
        + list_text(h.signature@) + ", dos_line_end: "@ + list_text(h.dos_line_end@)
        + ", dos_eof: "@ + number_text(h.dos_eof as nat) + ", unix_line_end: "@ + number_text(
        h.unix_line_end as nat,
    ) + " }"@
}

/// `before`, followed by the dump of the image header.
pub open spec fn with_ihdr_text(before: Seq<char>, h: PngIhdr) -> Seq<char> {
    before + "PngIhdr { length: "@ + number_text(h.length as nat) + ", signature: "@ + list_text(
        h.signature@,
    ) + ", width: "@ + number_text(h.width as nat) + ", height: "@ + number_text(h.height as nat)
        + ", bit_depth: "@ + number_text(h.bit_depth as nat) + ", color_type: "@ + color_type_text(
        h.color_type,
    ) + ", compression_method: "@ + number_text(h.compression_method as nat)
        + ", filter_method: "@ + number_text(h.filter_method as nat) + ", interlacing: "@
        + interlacing_text(h.interlacing) + ", crc: "@ + number_text(h.crc as nat) + " }"@
}

/// The size of a file with `chunks` as the chunks say it, held at the
/// largest 32-bit value.
pub open spec fn container_size(chunks: Seq<PngChunk>) -> int
    decreases chunks.len(),
{
    if chunks.len() == 0 {
        8
    } else {
        container_size(chunks.drop_last()) + 12 + chunks.last().length()
    }
}

impl PngChunk {
    /// The length that the chunk was read with.
    pub open spec fn length(&self) -> u32 {
        match self {
            PngChunk::IHDR(c) => c.length,
            PngChunk::IDAT(c) => c.length,
            PngChunk::IEND(c) => c.length,
            PngChunk::TEXT(c) => c.length,
            PngChunk::ICCP(c) => c.length,
            PngChunk::PHYS(c) => c.length,
            PngChunk::TIME(c) => c.length,
            PngChunk::Unknown { length, .. } => *length,
        }
    }

    fn stored_length(&self) -> (res: u32)
        ensures
            res == self.length(),
    {
        match self {
            PngChunk::IHDR(c) => c.length,
            PngChunk::IDAT(c) => c.length,
            PngChunk::IEND(c) => c.length,
            PngChunk::TEXT(c) => c.length,
            PngChunk::ICCP(c) => c.length,
            PngChunk::PHYS(c) => c.length,
            PngChunk::TIME(c) => c.length,
            PngChunk::Unknown { length, .. } => *length,
        }
    }
}

impl Png {
    /// The image header that the picture is described by.
    pub open spec fn ihdr(&self) -> PngIhdr {
        first_ihdr(self.chunks@)->0
    }

    /// The picture as filtered rows, every row with the filter that it was
    /// read with.
    pub open spec fn lines(&self) -> Seq<u8> {
        filtered(rgb_bytes(self.pixels@), 3 * self.ihdr().width, 3, self.filters@)
    }

    /// The bytes of the whole file, with `z` as the compressed picture.
    pub open spec fn file_with(&self, z: Seq<u8>) -> Seq<u8> {
        self.header.encoding() + written_chunks(self.chunks@, z)
    }

    /// The bytes of the whole file, or nothing where the picture cannot be
    /// compressed.
    pub open spec fn file_bytes(&self) -> Seq<u8> {
        match zlib_deflated(self.lines()) {
            Some(z) => self.file_with(z),
            None => Seq::empty(),
        }
    }

    /// The picture as filtered rows, ready to be compressed.
    pub fn filtered_lines(&self) -> (res: Vec<u8>)
        requires
            self.valid(),
        ensures
            res@ == self.lines(),
    {
        let width = match Png::get_idhr(&self.chunks) {
            Some(h) => h.width as usize,
            None => 0,
        };
        let raw = pack_rgb(&self.pixels);
        assert(raw@.len() == self.filters@.len() * (width * 3)) by (nonlinear_arith)
            requires
                raw@.len() == 3 * (self.ihdr().width * self.ihdr().height),
                self.filters@.len() == self.ihdr().height,
                width == self.ihdr().width,
        ;
        assert(width * 3 == 3 * self.ihdr().width);
        Png::apply_png_filtering(
            raw.as_slice(),
            width,
            PngColorType::RGB,
            self.filters.as_slice(),
        )
    }

    /// Writes the file with `compressed` as the compressed picture.
    pub fn encode_with(&self, compressed: &[u8]) -> (res: Vec<u8>)
        requires
            self.valid(),
        ensures
            res@ == self.file_with(compressed@),
    {
        let mut out: Vec<u8> = Vec::new();
        out.push(self.header.high_byte);
        push_all(&mut out, self.header.signature.as_slice());
        push_all(&mut out, self.header.dos_line_end.as_slice());
        out.push(self.header.dos_eof);
        out.push(self.header.unix_line_end);
        assert(out@ =~= self.header.encoding());
        let mut emitted = false;
        let mut i: usize = 0;
        assert(out@ + Seq::<u8>::empty() =~= out@);
        while i < self.chunks.len()
            invariant
                self.valid(),
                i <= self.chunks@.len(),
                emitted == (idat_count(self.chunks@.take(i as int)) > 0),
                out@ == self.header.encoding() + written_chunks(
                    self.chunks@.take(i as int),
                    compressed@,
                ),
            decreases self.chunks@.len() - i,
        {
            let ghost before = out@;
            let ghost upto = self.chunks@.take(i as int);
            assert(self.chunks@.take(i + 1).drop_last() =~= upto);
            assert(self.chunks@.take(i + 1).last() == self.chunks@[i as int]);
            assert(self.chunks@[i as int].writable());
            match &self.chunks[i] {
                PngChunk::IDAT(_) => {
                    if !emitted {
                        seal_idat(&mut out, compressed);
                        emitted = true;
                    }
                },
                other => {
                    seal_chunk(&mut out, other);
                },
            }
            i += 1;
            assert(out@ =~= self.header.encoding() + written_chunks(
                self.chunks@.take(i as int),
                compressed@,
            ));
        }
        assert(self.chunks@.take(i as int) =~= self.chunks@);
        out
    }

    /// Writes the file, or fails where the picture cannot be compressed.
    pub fn encode(&self) -> (res: Option<Vec<u8>>)
        requires
            self.valid(),
        ensures
            res is Some <==> zlib_deflated(self.lines()) is Some,
            res matches Some(v) ==> v@ == self.file_bytes(),
    {
        let lines = self.filtered_lines();
        match deflate(lines.as_slice()) {
            Some(z) => Some(self.encode_with(z.as_slice())),
            None => None,
        }
    }
}

impl ImageFormat for Png {
    open spec fn wf(&self) -> bool {
        self.valid()
    }

    open spec fn grid(&self) -> Grid {
        Grid {
            width: self.ihdr().width as nat,
            height: self.ihdr().height as nat,
            pixels: self.pixels@,
        }
    }

    open spec fn ceiling(&self) -> u8 {
        255
    }

    open spec fn size(&self) -> u32 {
        if container_size(self.chunks@) > u32::MAX {
            u32::MAX
        } else {
            container_size(self.chunks@) as u32
        }
    }

    open spec fn signature(&self) -> Seq<char> {
        seq![
            self.header.signature[0] as char,
            self.header.signature[1] as char,
            self.header.signature[2] as char,
        ]
    }

    open spec fn metadata(&self) -> Seq<char> {
        with_ihdr_text(with_magic_text(Seq::empty(), self.header) + "\n"@, self.ihdr())
    }

    open spec fn encoding(&self) -> Seq<u8> {
        self.file_bytes()
    }

    proof fn grid_wf(&self) {
    }

    fn get_height(&self) -> (res: usize) {
        match Png::get_idhr(&self.chunks) {
            Some(h) => h.height as usize,
            None => 0,
        }
    }

    fn get_metadata(&self) -> (res: String) {
        let mut res = String::new();
        res.append("PngHeader { high_byte: ");
        push_number(&mut res, self.header.high_byte as u32);
        res.append(", signature: ");
        push_list(&mut res, self.header.signature.as_slice());
        res.append(", dos_line_end: ");
        push_list(&mut res, self.header.dos_line_end.as_slice());
        res.append(", dos_eof: ");
        push_number(&mut res, self.header.dos_eof as u32);
        res.append(", unix_line_end: ");
        push_number(&mut res, self.header.unix_line_end as u32);
        res.append(" }");
        res.append("\n");
        match Png::get_idhr(&self.chunks) {
            Some(h) => {
                res.append("PngIhdr { length: ");
                push_number(&mut res, h.length);
                res.append(", signature: ");
                push_list(&mut res, h.signature.as_slice());
                res.append(", width: ");
                push_number(&mut res, h.width);
                res.append(", height: ");
                push_number(&mut res, h.height);
                res.append(", bit_depth: ");
                push_number(&mut res, h.bit_depth as u32);
                res.append(", color_type: ");
                match h.color_type {
                    PngColorType::Grayscale => res.append("Grayscale"),
                    PngColorType::RGB => res.append("RGB"),
                    PngColorType::Unknown => res.append("Unknown"),
                }
                res.append(", compression_method: ");
                push_number(&mut res, h.compression_method as u32);
                res.append(", filter_method: ");
                push_number(&mut res, h.filter_method as u32);
                res.append(", interlacing: ");
                match h.interlacing {
                    PngInterlacing::Off => res.append("Off"),
                    PngInterlacing::Adam7 => res.append("Adam7"),
                }
                res.append(", crc: ");
                push_number(&mut res, h.crc);
                res.append(" }");
            },
            None => {},
        }
        res
    }

    fn get_pixel(&self, x: usize, y: usize) -> (res: Option<&Pixel>) {
        let width = self.get_width();
        if x >= width || y >= self.get_height() {
            return None;
        }
        proof {
            self.grid().index_in_range(x as int, y as int);
        }
        Some(&self.pixels[y * width + x])
    }

    fn get_signature(&self) -> (res: String) {
        let mut res = String::new();
        res.push(self.header.signature[0] as char);
        res.push(self.header.signature[1] as char);
        res.push(self.header.signature[2] as char);
        res
    }

    fn get_size(&self) -> (res: u32) {
        let mut total: u64 = 8;
        let mut i: usize = 0;
        while i < self.chunks.len()
            invariant
                i <= self.chunks@.len(),
                total <= u32::MAX + 1,
                total == if container_size(self.chunks@.take(i as int)) > u32::MAX {
                    u32::MAX + 1
                } else {
                    container_size(self.chunks@.take(i as int))
                },
                container_size(self.chunks@.take(i as int)) >= 8,
            decreases self.chunks@.len() - i,
        {
            assert(self.chunks@.take(i + 1).drop_last() =~= self.chunks@.take(i as int));
            total = total + 12 + self.chunks[i].stored_length() as u64;
            if total > u32::MAX as u64 {
                total = u32::MAX as u64 + 1;
            }
            i += 1;
        }
        assert(self.chunks@.take(i as int) =~= self.chunks@);
        if total > u32::MAX as u64 {
            u32::MAX
        } else {
            total as u32
        }
    }

    fn get_width(&self) -> (res: usize) {
        match Png::get_idhr(&self.chunks) {
            Some(h) => h.width as usize,
            None => 0,
        }
    }

    fn set_pixel(&mut self, x: usize, y: usize, pixel: Pixel) -> (res: Option<()>)
        ensures
            final(self).header == old(self).header,
            final(self).chunks == old(self).chunks,
            final(self).filters == old(self).filters,
    {
        let width = self.get_width();
        if x >= width || y >= self.get_height() {
            return None;
        }
        proof {
            self.grid().index_in_range(x as int, y as int);
        }
        self.pixels.set(y * width + x, pixel);
        Some(())
    }

    fn to_bytes(&self) -> (res: Vec<u8>) {
        match self.encode() {
            Some(v) => v,
            None => Vec::new(),
        }
    }
}

} // verus!
