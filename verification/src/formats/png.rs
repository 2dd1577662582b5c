//! The PNG container, with eight bits for each of red, green and blue and
//! without interlacing.
//!
//! A file is an 8-byte magic and a stream of chunks. A chunk is a length,
//! a four-byte tag, as many bytes of payload as the length says, and a
//! checksum of tag and payload. The pixels stand in the `IDAT` chunks: their
//! payloads, joined in file order, are one zlib stream of filtered rows.

use vstd::prelude::*;
use super::format::{rgb_pixels, unpack_rgb};
use super::scanline::{filters_of, unfiltered, unfiltered_rows_shape, well_filtered};
use super::wire::{bytes_u16_be, bytes_u32_be, read_u16_be, read_u32_be, u16_be, u32_be};
use super::zlib::{inflate, zlib_inflated};
use crate::models::Pixel;

verus! {

/// A decoded PNG: the magic and the chunks as they were read, the picture
/// that the `IDAT` chunks held, and the filter that each row was stored
/// with.
#[derive(Debug)]
pub struct Png {
    pub header: PngHeader,
    pub chunks: Vec<PngChunk>,
    pub pixels: Vec<Pixel>,
    pub filters: Vec<u8>,
}

/// The 8-byte magic.
#[derive(Debug, Clone, Copy, PartialEq)]
pub struct PngHeader {
    pub high_byte: u8,
    pub signature: [u8; 3],
    pub dos_line_end: [u8; 2],
    pub dos_eof: u8,
    pub unix_line_end: u8,
}

/// How a PNG stores the colour of a pixel.
#[derive(Debug, Clone, Copy, PartialEq, Eq, Structural)]
pub enum PngColorType {
    Grayscale,
    RGB,
    Unknown,
}

/// Whether the rows of a PNG are stored in order or in seven passes.
#[derive(Debug, Clone, Copy, PartialEq, Eq, Structural)]
pub enum PngInterlacing {
    Off,
    Adam7,
}

/// The unit of a pixel density.
#[derive(Debug, Clone, Copy, PartialEq, Eq, Structural)]
pub enum PngUnit {
    Unknown,
    Meter,
}

/// The image header chunk.
#[derive(Debug, Clone, Copy, PartialEq)]
pub struct PngIhdr {
    pub length: u32,
    pub signature: [u8; 4],
    pub width: u32,
    pub height: u32,
    pub bit_depth: u8,
    pub color_type: PngColorType,
    pub compression_method: u8,
    pub filter_method: u8,
    pub interlacing: PngInterlacing,
    pub crc: u32,
}

/// The colour profile chunk. The keyword is held as the bytes that the file
/// has, without the zero byte that ends it.
#[derive(Debug, Clone, PartialEq)]
pub struct PngIccp {
    pub length: u32,
    pub signature: [u8; 4],
    pub keyword: Vec<u8>,
    pub compression_method: u8,
    pub compression_profile: Vec<u8>,
    pub crc: u32,
}

/// The pixel density chunk.
#[derive(Debug, Clone, Copy, PartialEq)]
pub struct PngPhys {
    pub length: u32,
    pub signature: [u8; 4],
    pub pixel_per_unit_x: u32,
    pub pixel_per_unit_y: u32,
    pub unit: PngUnit,
    pub crc: u32,
}

/// The modification time chunk.
#[derive(Debug, Clone, Copy, PartialEq)]
pub struct PngTime {
    pub length: u32,
    pub signature: [u8; 4],
    pub year: u16,
    pub month: u8,
    pub day: u8,
    pub hour: u8,
    pub minute: u8,
    pub second: u8,
    pub crc: u32,
}

/// A text chunk. The codec does not read text: a chunk with the tag `tEXt`
/// is kept as it is, under the type of no name.
#[derive(Debug, Clone, PartialEq)]
pub struct PngText {
    pub length: u32,
    pub signature: [u8; 4],
    pub keyword: Vec<u8>,
    pub text: Vec<u8>,
    pub crc: u32,
}

/// A chunk of compressed picture data.
#[derive(Debug, Clone, PartialEq)]
pub struct PngIdata {
    pub length: u32,
    pub signature: [u8; 4],
    pub data: Vec<u8>,
    pub crc: u32,
}

/// The chunk that ends the file.
#[derive(Debug, Clone, Copy, PartialEq)]
pub struct PngIend {
    pub length: u32,
    pub signature: [u8; 4],
    pub crc: u32,
}

/// A chunk.
#[derive(Debug, Clone, PartialEq)]
pub enum PngChunk {
    IHDR(PngIhdr),
    IDAT(PngIdata),
    IEND(PngIend),
    TEXT(PngText),
    ICCP(PngIccp),
    PHYS(PngPhys),
    TIME(PngTime),
    Unknown { length: u32, signature: [u8; 4], data: Vec<u8>, crc: u32 },
}

/// A chunk as it stands in the file.
pub struct RawChunk {
    pub length: u32,
    pub tag: Seq<u8>,
    pub payload: Seq<u8>,
    pub crc: u32,
}

/// The tag `IHDR`.
pub open spec fn tag_ihdr() -> Seq<u8> {
    seq![0x49u8, 0x48u8, 0x44u8, 0x52u8]
}

/// The tag `IDAT`.
pub open spec fn tag_idat() -> Seq<u8> {
    seq![0x49u8, 0x44u8, 0x41u8, 0x54u8]
}

/// The tag `IEND`.
pub open spec fn tag_iend() -> Seq<u8> {
    seq![0x49u8, 0x45u8, 0x4Eu8, 0x44u8]
}

/// The tag `tEXt`.
pub open spec fn tag_text() -> Seq<u8> {
    seq![0x74u8, 0x45u8, 0x58u8, 0x74u8]
}

/// The tag `iCCP`.
pub open spec fn tag_iccp() -> Seq<u8> {
    seq![0x69u8, 0x43u8, 0x43u8, 0x50u8]
}

/// The tag `pHYs`.
pub open spec fn tag_phys() -> Seq<u8> {
    seq![0x70u8, 0x48u8, 0x59u8, 0x73u8]
}

/// The tag `tIME`.
pub open spec fn tag_time() -> Seq<u8> {
    seq![0x74u8, 0x49u8, 0x4Du8, 0x45u8]
}

/// Whether `tag` is one of the tags that the codec reads into a chunk type
/// of its own.
pub open spec fn tag_is_known(tag: Seq<u8>) -> bool {
    tag == tag_ihdr() || tag == tag_idat() || tag == tag_iend() || tag == tag_iccp() || tag
        == tag_phys() || tag == tag_time()
}

/// The chunk that starts at `at`.
pub open spec fn frame_at(data: Seq<u8>, at: int) -> RawChunk {
    let length = u32_be(data, at);
    RawChunk {
        length,
        tag: data.subrange(at + 4, at + 8),
        payload: data.subrange(at + 8, at + 8 + length),
        crc: u32_be(data, at + 8 + length),
    }
}

/// The chunks that stand in `data` from `at` on, one after the other, or
/// `None` where a chunk says that it is longer than what is left. Fewer
/// than 12 bytes at the end hold no chunk and are passed over.
pub open spec fn frames(data: Seq<u8>, at: int) -> Option<Seq<RawChunk>>
    decreases data.len() - at,
{
    if at < 0 || at + 12 > data.len() {
        Some(Seq::empty())
    } else if at + 12 + u32_be(data, at) > data.len() {
        None
    } else {
        match frames(data, at + 12 + u32_be(data, at)) {
            Some(rest) => Some(seq![frame_at(data, at)] + rest),
            None => None,
        }
    }
}

/// The colour type that byte `code` of an image header names.
pub open spec fn color_type_of(code: u8) -> PngColorType {
    if code == 0 {
        PngColorType::Grayscale
    } else if code == 2 {
        PngColorType::RGB
    } else {
        PngColorType::Unknown
    }
}

/// The place of the first zero byte of `s`, or the length of `s` where it
/// has none.
pub open spec fn first_zero(s: Seq<u8>) -> int
    decreases s.len(),
{
    if s.len() == 0 || s[0] == 0 {
        0
    } else {
        1 + first_zero(s.drop_first())
    }
}

impl PngHeader {
    /// Whether the header holds the first 8 bytes of `data`.
    pub open spec fn decodes(self, data: Seq<u8>) -> bool {
        &&& self.high_byte == data[0]
        &&& self.signature@ == data.subrange(1, 4)
        &&& self.dos_line_end@ == data.subrange(4, 6)
        &&& self.dos_eof == data[6]
        &&& self.unix_line_end == data[7]
    }

    /// The 8 bytes of the header.
    pub open spec fn encoding(self) -> Seq<u8> {
        seq![self.high_byte] + self.signature@ + self.dos_line_end@ + seq![
            self.dos_eof,
            self.unix_line_end,
        ]
    }
}

impl PngIhdr {
    /// Whether `payload` holds an image header: 13 bytes, the last of them
    /// 0 or 1.
    pub open spec fn readable(payload: Seq<u8>) -> bool {
        payload.len() >= 13 && payload[12] <= 1
    }

    /// Whether the chunk holds what `raw` says.
    pub open spec fn decodes(self, raw: RawChunk) -> bool {
        &&& self.length == raw.length
        &&& self.signature@ == raw.tag
        &&& self.width == u32_be(raw.payload, 0)
        &&& self.height == u32_be(raw.payload, 4)
        &&& self.bit_depth == raw.payload[8]
        &&& self.color_type == color_type_of(raw.payload[9])
        &&& self.compression_method == raw.payload[10]
        &&& self.filter_method == raw.payload[11]
        &&& self.interlacing == if raw.payload[12] == 0 {
            PngInterlacing::Off
        } else {
            PngInterlacing::Adam7
        }
        &&& self.crc == raw.crc
    }
}

impl PngIccp {
    /// Whether `payload` holds a colour profile: a keyword, the zero byte
    /// that ends it, and at least the byte that names the compression.
    pub open spec fn readable(payload: Seq<u8>) -> bool {
        first_zero(payload) + 1 < payload.len()
    }

    /// Whether the chunk holds what `raw` says.
    pub open spec fn decodes(&self, raw: RawChunk) -> bool {
        let end = first_zero(raw.payload);
        &&& self.length == raw.length
        &&& self.signature@ == raw.tag
        &&& self.keyword@ == raw.payload.subrange(0, end)
        &&& self.compression_method == raw.payload[end + 1]
        &&& self.compression_profile@ == raw.payload.subrange(end + 2, raw.payload.len() as int)
        &&& self.crc == raw.crc
    }
}

impl PngPhys {
    /// Whether `payload` holds a pixel density: 9 bytes, the last of them
    /// 0 or 1.
    pub open spec fn readable(payload: Seq<u8>) -> bool {
        payload.len() >= 9 && payload[8] <= 1
    }

    /// Whether the chunk holds what `raw` says.
    pub open spec fn decodes(self, raw: RawChunk) -> bool {
        &&& self.length == raw.length
        &&& self.signature@ == raw.tag
        &&& self.pixel_per_unit_x == u32_be(raw.payload, 0)
        &&& self.pixel_per_unit_y == u32_be(raw.payload, 4)
        &&& self.unit == if raw.payload[8] == 0 {
            PngUnit::Unknown
        } else {
            PngUnit::Meter
        }
        &&& self.crc == raw.crc
    }
}

impl PngTime {
    /// Whether `payload` holds a time: 7 bytes.
    pub open spec fn readable(payload: Seq<u8>) -> bool {
        payload.len() >= 7
    }

    /// Whether the chunk holds what `raw` says.
    pub open spec fn decodes(self, raw: RawChunk) -> bool {
        &&& self.length == raw.length
        &&& self.signature@ == raw.tag
        &&& self.year == u16_be(raw.payload, 0)
        &&& self.month == raw.payload[2]
        &&& self.day == raw.payload[3]
        &&& self.hour == raw.payload[4]
        &&& self.minute == raw.payload[5]
        &&& self.second == raw.payload[6]
        &&& self.crc == raw.crc
    }
}

impl PngIdata {
    /// Whether the chunk holds what `raw` says.
    pub open spec fn decodes(&self, raw: RawChunk) -> bool {
        &&& self.length == raw.length
        &&& self.signature@ == raw.tag
        &&& self.data@ == raw.payload
        &&& self.crc == raw.crc
    }
}

impl PngIend {
    /// Whether the chunk holds what `raw` says.
    pub open spec fn decodes(self, raw: RawChunk) -> bool {
        &&& self.length == raw.length
        &&& self.signature@ == raw.tag
        &&& self.crc == raw.crc
    }
}

/// The four bytes of a tag as an array.
fn tag_array(signature: &[u8]) -> (res: [u8; 4])
    requires
        signature@.len() == 4,
    ensures
        res@ == signature@,
{
    let res = [signature[0], signature[1], signature[2], signature[3]];
    assert(res@ =~= signature@);
    res
}

impl Png {
    /// Reads an image header.
    pub fn parse_ihdr(length: u32, signature: &[u8], data: &[u8], crc: u32) -> (res: Option<
        PngIhdr,
    >)
        requires
            signature@.len() == 4,
        ensures
            res is Some <==> PngIhdr::readable(data@),
            res matches Some(c) ==> c.decodes(
                RawChunk { length, tag: signature@, payload: data@, crc },
            ),
    {
        if data.len() < 13 {
            return None;
        }
        let color_type = if data[9] == 0 {
            PngColorType::Grayscale
        } else if data[9] == 2 {
            PngColorType::RGB
        } else {
            PngColorType::Unknown
        };
        let interlacing = if data[12] == 0 {
            PngInterlacing::Off
        } else if data[12] == 1 {
            PngInterlacing::Adam7
        } else {
            return None;
        };
        Some(
            PngIhdr {
                length,
                signature: tag_array(signature),
                width: read_u32_be(data, 0),
                height: read_u32_be(data, 4),
                bit_depth: data[8],
                color_type,
                compression_method: data[10],
                filter_method: data[11],
                interlacing,
                crc,
            },
        )
    }

    /// Reads a colour profile.
    pub fn parse_iccp(length: u32, signature: &[u8], data: &[u8], crc: u32) -> (res: Option<
        PngIccp,
    >)
        requires
            signature@.len() == 4,
        ensures
            res is Some <==> PngIccp::readable(data@),
            res matches Some(c) ==> c.decodes(
                RawChunk { length, tag: signature@, payload: data@, crc },
            ),
            res matches Some(c) ==> c.payload().len() == data@.len(),
    {
        let mut keyword: Vec<u8> = Vec::new();
        let mut index: usize = 0;
        assert(data@.subrange(0, data@.len() as int) =~= data@);
        while index < data.len() && data[index] != 0
            invariant
                index <= data@.len(),
                keyword@ == data@.subrange(0, index as int),
                first_zero(data@) == index + first_zero(
                    data@.subrange(index as int, data@.len() as int),
                ),
            decreases data@.len() - index,
        {
            keyword.push(data[index]);
            proof {
                let rest = data@.subrange(index as int, data@.len() as int);
                assert(rest.drop_first() =~= data@.subrange(index + 1, data@.len() as int));
            }
            index += 1;
            assert(keyword@ =~= data@.subrange(0, index as int));
        }
        assert(first_zero(data@) == index) by {
            let rest = data@.subrange(index as int, data@.len() as int);
            assert(rest.len() == 0 || rest[0] == 0);
        }
        if index >= data.len() || index + 1 >= data.len() {
            return None;
        }
        let compression_method = data[index + 1];
        let mut profile: Vec<u8> = Vec::new();
        super::wire::push_all(
            &mut profile,
            vstd::slice::slice_subrange(data, index + 2, data.len()),
        );
        Some(
            PngIccp {
                length,
                signature: tag_array(signature),
                keyword,
                compression_method,
                compression_profile: profile,
                crc,
            },
        )
    }

    /// Reads a modification time.
    pub fn parse_time(length: u32, signature: &[u8], data: &[u8], crc: u32) -> (res: Option<
        PngTime,
    >)
        requires
            signature@.len() == 4,
        ensures
            res is Some <==> PngTime::readable(data@),
            res matches Some(c) ==> c.decodes(
                RawChunk { length, tag: signature@, payload: data@, crc },
            ),
    {
        if data.len() < 7 {
            return None;
        }
        Some(
            PngTime {
                length,
                signature: tag_array(signature),
                year: read_u16_be(data, 0),
                month: data[2],
                day: data[3],
                hour: data[4],
                minute: data[5],
                second: data[6],
                crc,
            },
        )
    }

    /// Keeps the compressed bytes of a picture data chunk.
    pub fn parse_idat(length: u32, signature: &[u8], data: &[u8], crc: u32) -> (res: Option<
        PngIdata,
    >)
        requires
            signature@.len() == 4,
        ensures
            res matches Some(c) && c.decodes(
                RawChunk { length, tag: signature@, payload: data@, crc },
            ),
    {
        let mut copy: Vec<u8> = Vec::new();
        super::wire::push_all(&mut copy, data);
        Some(PngIdata { length, signature: tag_array(signature), data: copy, crc })
    }

    /// Reads the chunk that ends the file.
    pub fn parse_iend(length: u32, signature: &[u8], crc: u32) -> (res: Option<PngIend>)
        requires
            signature@.len() == 4,
        ensures
            res matches Some(c) && c.length == length && c.signature@ == signature@ && c.crc
                == crc,
    {
        Some(PngIend { length, signature: tag_array(signature), crc })
    }

    /// Reads a pixel density.
    pub fn parse_phys(length: u32, signature: &[u8], data: &[u8], crc: u32) -> (res: Option<
        PngPhys,
    >)
        requires
            signature@.len() == 4,
        ensures
            res is Some <==> PngPhys::readable(data@),
            res matches Some(c) ==> c.decodes(
                RawChunk { length, tag: signature@, payload: data@, crc },
            ),
    {
        if data.len() < 9 {
            return None;
        }
        let unit = if data[8] == 0 {
            PngUnit::Unknown
        } else if data[8] == 1 {
            PngUnit::Meter
        } else {
            return None;
        };
        Some(
            PngPhys {
                length,
                signature: tag_array(signature),
                pixel_per_unit_x: read_u32_be(data, 0),
                pixel_per_unit_y: read_u32_be(data, 4),
                unit,
                crc,
            },
        )
    }

    /// Reading text is not supported: it fails, whatever the chunk holds.
    pub fn parse_text(length: u32, signature: &[u8], data: &[u8], crc: u32) -> (res: Option<
        PngText,
    >)
        ensures
            res is None,
    {
        None
    }
}

/// The byte that names a colour type in an image header.
pub open spec fn color_code(color_type: PngColorType) -> u8 {
    match color_type {
        PngColorType::Grayscale => 0,
        PngColorType::RGB => 2,
        PngColorType::Unknown => 3,
    }
}

impl PngIhdr {
    /// The 13 bytes that the chunk is written with.
    pub open spec fn payload(self) -> Seq<u8> {
        bytes_u32_be(self.width) + bytes_u32_be(self.height) + seq![
            self.bit_depth,
            color_code(self.color_type),
            self.compression_method,
            self.filter_method,
            match self.interlacing {
                PngInterlacing::Off => 0u8,
                PngInterlacing::Adam7 => 1u8,
            },
        ]
    }
}

impl PngIccp {
    /// The bytes that the chunk is written with: the keyword, a zero byte,
    /// the compression method and the profile.
    pub open spec fn payload(&self) -> Seq<u8> {
        self.keyword@ + seq![0u8, self.compression_method] + self.compression_profile@
    }
}

impl PngPhys {
    /// The 9 bytes that the chunk is written with.
    pub open spec fn payload(self) -> Seq<u8> {
        bytes_u32_be(self.pixel_per_unit_x) + bytes_u32_be(self.pixel_per_unit_y) + seq![
            match self.unit {
                PngUnit::Unknown => 0u8,
                PngUnit::Meter => 1u8,
            },
        ]
    }
}

impl PngTime {
    /// The 7 bytes that the chunk is written with.
    pub open spec fn payload(self) -> Seq<u8> {
        bytes_u16_be(self.year) + seq![self.month, self.day, self.hour, self.minute, self.second]
    }
}

impl PngText {
    /// The bytes that the chunk is written with: the keyword, a zero byte
    /// and the text.
    pub open spec fn payload(&self) -> Seq<u8> {
        self.keyword@ + seq![0u8] + self.text@
    }
}

impl PngChunk {
    /// The tag that the chunk is written with.
    pub open spec fn tag(&self) -> Seq<u8> {
        match self {
            PngChunk::IHDR(_) => tag_ihdr(),
            PngChunk::IDAT(_) => tag_idat(),
            PngChunk::IEND(_) => tag_iend(),
            PngChunk::TEXT(_) => tag_text(),
            PngChunk::ICCP(_) => tag_iccp(),
            PngChunk::PHYS(_) => tag_phys(),
            PngChunk::TIME(_) => tag_time(),
            PngChunk::Unknown { signature, .. } => signature@,
        }
    }

    /// The payload that the chunk is written with.
    pub open spec fn payload(&self) -> Seq<u8> {
        match self {
            PngChunk::IHDR(c) => c.payload(),
            PngChunk::IDAT(c) => c.data@,
            PngChunk::IEND(_) => Seq::empty(),
            PngChunk::TEXT(c) => c.payload(),
            PngChunk::ICCP(c) => c.payload(),
            PngChunk::PHYS(c) => c.payload(),
            PngChunk::TIME(c) => c.payload(),
            PngChunk::Unknown { data, .. } => data@,
        }
    }

    /// Whether the chunk can be written and read again: its payload is no
    /// longer than a chunk can say, and it does not keep the tag of a chunk
    /// type under the type of no name.
    pub open spec fn writable(&self) -> bool {
        &&& self.payload().len() <= u32::MAX
        &&& self matches PngChunk::Unknown { signature, .. } ==> !tag_is_known(signature@)
    }

    /// Whether the codec reads `raw`: a chunk with one of the tags `IHDR`,
    /// `iCCP`, `pHYs` and `tIME` has to hold what its tag promises, and
    /// every other chunk is kept as it is.
    pub open spec fn decodable(raw: RawChunk) -> bool {
        if raw.tag == tag_ihdr() {
            PngIhdr::readable(raw.payload)
        } else if raw.tag == tag_iccp() {
            PngIccp::readable(raw.payload)
        } else if raw.tag == tag_phys() {
            PngPhys::readable(raw.payload)
        } else if raw.tag == tag_time() {
            PngTime::readable(raw.payload)
        } else {
            true
        }
    }

    /// Whether the chunk holds what `raw` says.
    pub open spec fn decodes(&self, raw: RawChunk) -> bool {
        match self {
            PngChunk::IHDR(c) => raw.tag == tag_ihdr() && c.decodes(raw),
            PngChunk::IDAT(c) => raw.tag == tag_idat() && c.decodes(raw),
            PngChunk::IEND(c) => raw.tag == tag_iend() && c.decodes(raw),
            PngChunk::TEXT(_) => false,
            PngChunk::ICCP(c) => raw.tag == tag_iccp() && c.decodes(raw),
            PngChunk::PHYS(c) => raw.tag == tag_phys() && c.decodes(raw),
            PngChunk::TIME(c) => raw.tag == tag_time() && c.decodes(raw),
            PngChunk::Unknown { length, signature, data, crc } => {
                &&& !tag_is_known(raw.tag)
                &&& *length == raw.length
                &&& signature@ == raw.tag
                &&& data@ == raw.payload
                &&& *crc == raw.crc
            },
        }
    }
}

/// Whether every one of `chunks` can be written.
pub open spec fn all_writable(chunks: Seq<PngChunk>) -> bool {
    forall|i: int| 0 <= i < chunks.len() ==> (#[trigger] chunks[i]).writable()
}

/// Whether the codec reads every one of `raws`.
pub open spec fn all_decodable(raws: Seq<RawChunk>) -> bool {
    forall|i: int| 0 <= i < raws.len() ==> PngChunk::decodable(#[trigger] raws[i])
}

/// Whether `chunks` hold, one by one, what `raws` say.
pub open spec fn chunks_decode(chunks: Seq<PngChunk>, raws: Seq<RawChunk>) -> bool {
    &&& chunks.len() == raws.len()
    &&& forall|i: int| 0 <= i < chunks.len() ==> (#[trigger] chunks[i]).decodes(raws[i])
}

/// The first image header among `chunks`.
pub open spec fn first_ihdr(chunks: Seq<PngChunk>) -> Option<PngIhdr>
    decreases chunks.len(),
{
    if chunks.len() == 0 {
        None
    } else {
        match chunks[0] {
            PngChunk::IHDR(c) => Some(c),
            _ => first_ihdr(chunks.drop_first()),
        }
    }
}

/// The payloads of the picture data chunks among `chunks`, joined in order.
pub open spec fn idat_stream(chunks: Seq<PngChunk>) -> Seq<u8>
    decreases chunks.len(),
{
    if chunks.len() == 0 {
        Seq::empty()
    } else {
        idat_stream(chunks.drop_last()) + match chunks.last() {
            PngChunk::IDAT(c) => c.data@,
            _ => Seq::empty(),
        }
    }
}

/// The picture data chunks among `chunks`, in order.
pub open spec fn idat_chunks(chunks: Seq<PngChunk>) -> Seq<PngIdata>
    decreases chunks.len(),
{
    if chunks.len() == 0 {
        Seq::empty()
    } else {
        match chunks.last() {
            PngChunk::IDAT(c) => idat_chunks(chunks.drop_last()).push(c),
            _ => idat_chunks(chunks.drop_last()),
        }
    }
}

/// What the references refer to.
pub open spec fn referred(parts: Seq<&PngIdata>) -> Seq<PngIdata> {
    Seq::new(parts.len(), |i: int| *parts[i])
}

/// The number of picture data chunks among `chunks`.
pub open spec fn idat_count(chunks: Seq<PngChunk>) -> nat
    decreases chunks.len(),
{
    if chunks.len() == 0 {
        0
    } else {
        idat_count(chunks.drop_last()) + match chunks.last() {
            PngChunk::IDAT(_) => 1nat,
            _ => 0nat,
        }
    }
}

/// Whether the chunk answers to the tag `signature`: a chunk with a type of
/// its own answers to the tag of that type, and any other to the tag that
/// it was read with.
pub open spec fn answers_to(chunk: PngChunk, signature: Seq<u8>) -> bool {
    match chunk {
        PngChunk::IHDR(_) => signature == tag_ihdr(),
        PngChunk::IDAT(_) => signature == tag_idat(),
        PngChunk::IEND(_) => signature == tag_iend(),
        PngChunk::TEXT(_) => signature == tag_text(),
        PngChunk::ICCP(_) => signature == tag_iccp(),
        PngChunk::PHYS(_) => signature == tag_phys(),
        PngChunk::TIME(_) => signature == tag_time(),
        PngChunk::Unknown { signature: own, .. } => signature == own@,
    }
}

/// The place of the first of `chunks` that answers to `signature`, or the
/// number of chunks where none does.
pub open spec fn first_answering(chunks: Seq<PngChunk>, signature: Seq<u8>) -> int
    decreases chunks.len(),
{
    if chunks.len() == 0 || answers_to(chunks[0], signature) {
        0
    } else {
        1 + first_answering(chunks.drop_first(), signature)
    }
}

fn tag_matches(signature: &[u8], a: u8, b: u8, c: u8, d: u8) -> (res: bool)
    ensures
        res == (signature@ == seq![a, b, c, d]),
{
    if signature.len() != 4 {
        return false;
    }
    let res = signature[0] == a && signature[1] == b && signature[2] == c && signature[3] == d;
    if res {
        assert(signature@ =~= seq![a, b, c, d]);
    } else {
        assert(seq![a, b, c, d][0] == a && seq![a, b, c, d][1] == b && seq![a, b, c, d][2] == c
            && seq![a, b, c, d][3] == d);
    }
    res
}

fn same_bytes(a: &[u8], b: &[u8]) -> (res: bool)
    ensures
        res == (a@ == b@),
{
    if a.len() != b.len() {
        return false;
    }
    let mut i: usize = 0;
    while i < a.len()
        invariant
            a@.len() == b@.len(),
            i <= a@.len(),
            a@.subrange(0, i as int) == b@.subrange(0, i as int),
        decreases a@.len() - i,
    {
        if a[i] != b[i] {
            return false;
        }
        i += 1;
        assert(a@.subrange(0, i as int) =~= a@.subrange(0, i - 1).push(a@[i - 1]));
        assert(b@.subrange(0, i as int) =~= b@.subrange(0, i - 1).push(b@[i - 1]));
    }
    assert(a@ =~= a@.subrange(0, i as int));
    assert(b@ =~= b@.subrange(0, i as int));
    true
}

/// Reads one chunk into the type that its tag names.
fn parse_chunk(length: u32, signature: &[u8], data: &[u8], crc: u32) -> (res: Option<PngChunk>)
    requires
        signature@.len() == 4,
        data@.len() == length,
    ensures
        res matches Some(c) ==> c.writable(),
        res is Some <==> PngChunk::decodable(
            RawChunk { length, tag: signature@, payload: data@, crc },
        ),
        res matches Some(c) ==> c.decodes(
            RawChunk { length, tag: signature@, payload: data@, crc },
        ),
{
    if tag_matches(signature, 0x49, 0x48, 0x44, 0x52) {
        match Png::parse_ihdr(length, signature, data, crc) {
            Some(c) => Some(PngChunk::IHDR(c)),
            None => None,
        }
    } else if tag_matches(signature, 0x69, 0x43, 0x43, 0x50) {
        match Png::parse_iccp(length, signature, data, crc) {
            Some(c) => Some(PngChunk::ICCP(c)),
            None => None,
        }
    } else if tag_matches(signature, 0x70, 0x48, 0x59, 0x73) {
        match Png::parse_phys(length, signature, data, crc) {
            Some(c) => Some(PngChunk::PHYS(c)),
            None => None,
        }
    } else if tag_matches(signature, 0x74, 0x49, 0x4D, 0x45) {
        match Png::parse_time(length, signature, data, crc) {
            Some(c) => Some(PngChunk::TIME(c)),
            None => None,
        }
    } else if tag_matches(signature, 0x49, 0x44, 0x41, 0x54) {
        match Png::parse_idat(length, signature, data, crc) {
            Some(c) => Some(PngChunk::IDAT(c)),
            None => None,
        }
    } else if tag_matches(signature, 0x49, 0x45, 0x4E, 0x44) {
        match Png::parse_iend(length, signature, crc) {
            Some(c) => Some(PngChunk::IEND(c)),
            None => None,
        }
    } else {
        let mut copy: Vec<u8> = Vec::new();
        super::wire::push_all(&mut copy, data);
        Some(PngChunk::Unknown { length, signature: tag_array(signature), data: copy, crc })
    }
}

impl Png {
    /// Reads the chunks of a file from the bytes that follow the magic.
    /// Fails when a chunk says that it is longer than what is left, or holds
    /// something that the codec does not read.
    pub fn parse_chunks(data: &[u8]) -> (res: Option<Vec<PngChunk>>)
        ensures
            res is Some <==> frames(data@, 0) is Some && all_decodable(frames(data@, 0)->0),
            res matches Some(v) ==> chunks_decode(v@, frames(data@, 0)->0) && all_writable(v@),
    {
        let mut chunks: Vec<PngChunk> = Vec::new();
        let mut index: usize = 0;
        let ghost mut done: Seq<RawChunk> = Seq::empty();
        assert(done + frames(data@, 0)->0 =~= frames(data@, 0)->0);
        let total = data.len();
        while total - index >= 12
            invariant
                index <= data@.len(),
                total == data@.len(),
                match frames(data@, index as int) {
                    Some(rest) => frames(data@, 0) == Some(done + rest),
                    None => frames(data@, 0) is None,
                },
                chunks_decode(chunks@, done),
                all_decodable(done),
                all_writable(chunks@),
            decreases data@.len() - index,
        {
            let length = read_u32_be(data, index) as usize;
            if length > data.len() - index - 12 {
                return None;
            }
            let signature = vstd::slice::slice_subrange(data, index + 4, index + 8);
            let chunk_data = vstd::slice::slice_subrange(data, index + 8, index + 8 + length);
            let crc = read_u32_be(data, index + 8 + length);
            let ghost cur = frame_at(data@, index as int);
            let ghost next = index + 12 + length;
            assert(cur == RawChunk {
                length: length as u32,
                tag: signature@,
                payload: chunk_data@,
                crc,
            });
            let chunk = match parse_chunk(length as u32, signature, chunk_data, crc) {
                Some(c) => c,
                None => {
                    proof {
                        if let Some(all) = frames(data@, 0) {
                            let rest = frames(data@, index as int)->0;
                            assert(rest[0] == cur);
                            assert(all[done.len() as int] == cur);
                        }
                    }
                    return None;
                },
            };
            proof {
                if let Some(rest) = frames(data@, next) {
                    assert(done + (seq![cur] + rest) =~= done.push(cur) + rest);
                }
                done = done.push(cur);
            }
            chunks.push(chunk);
            index += 12 + length;
        }
        assert(done + Seq::<RawChunk>::empty() =~= done);
        Some(chunks)
    }

    /// The picture data chunks among `chunks`, in order.
    pub fn get_idata_chunks(chunks: &Vec<PngChunk>) -> (res: Vec<&PngIdata>)
        ensures
            referred(res@) == idat_chunks(chunks@),
            res@.len() == idat_count(chunks@),
            joined(res@) == idat_stream(chunks@),
    {
        let mut res: Vec<&PngIdata> = Vec::new();
        let mut i: usize = 0;
        while i < chunks.len()
            invariant
                i <= chunks@.len(),
                referred(res@) == idat_chunks(chunks@.take(i as int)),
                res@.len() == idat_count(chunks@.take(i as int)),
                joined(res@) == idat_stream(chunks@.take(i as int)),
            decreases chunks@.len() - i,
        {
            assert(chunks@.take(i + 1).drop_last() =~= chunks@.take(i as int));
            let ghost before = res@;
            match &chunks[i] {
                PngChunk::IDAT(idata) => {
                    res.push(idata);
                    assert(res@.drop_last() =~= before);
                    assert(referred(res@) =~= referred(before).push(*idata));
                },
                _ => {},
            }
            i += 1;
        }
        assert(chunks@.take(i as int) =~= chunks@);
        res
    }

    /// The first image header among `chunks`.
    pub fn get_idhr(chunks: &Vec<PngChunk>) -> (res: Option<&PngIhdr>)
        ensures
            res is Some <==> first_ihdr(chunks@) is Some,
            res matches Some(c) ==> *c == first_ihdr(chunks@)->0,
    {
        let mut i: usize = 0;
        assert(chunks@.skip(0) =~= chunks@);
        while i < chunks.len()
            invariant
                i <= chunks@.len(),
                first_ihdr(chunks@) == first_ihdr(chunks@.skip(i as int)),
            decreases chunks@.len() - i,
        {
            assert(chunks@.skip(i as int).drop_first() =~= chunks@.skip(i + 1));
            match &chunks[i] {
                PngChunk::IHDR(data) => {
                    return Some(data);
                },
                _ => {},
            }
            i += 1;
        }
        None
    }

    /// The first chunk that answers to the tag `signature`.
    pub fn get_chunk(&self, signature: &[u8]) -> (res: Option<&PngChunk>)
        ensures
            res is Some <==> first_answering(self.chunks@, signature@) < self.chunks@.len(),
            res matches Some(c) ==> *c == self.chunks@[first_answering(
                self.chunks@,
                signature@,
            )],
    {
        let mut i: usize = 0;
        assert(self.chunks@.skip(0) =~= self.chunks@);
        while i < self.chunks.len()
            invariant
                i <= self.chunks@.len(),
                first_answering(self.chunks@, signature@) == i + first_answering(
                    self.chunks@.skip(i as int),
                    signature@,
                ),
            decreases self.chunks@.len() - i,
        {
            assert(self.chunks@.skip(i as int).drop_first() =~= self.chunks@.skip(i + 1));
            let found = match &self.chunks[i] {
                PngChunk::IHDR(_) => tag_matches(signature, 0x49, 0x48, 0x44, 0x52),
                PngChunk::IDAT(_) => tag_matches(signature, 0x49, 0x44, 0x41, 0x54),
                PngChunk::IEND(_) => tag_matches(signature, 0x49, 0x45, 0x4E, 0x44),
                PngChunk::TEXT(_) => tag_matches(signature, 0x74, 0x45, 0x58, 0x74),
                PngChunk::ICCP(_) => tag_matches(signature, 0x69, 0x43, 0x43, 0x50),
                PngChunk::PHYS(_) => tag_matches(signature, 0x70, 0x48, 0x59, 0x73),
                PngChunk::TIME(_) => tag_matches(signature, 0x74, 0x49, 0x4D, 0x45),
                PngChunk::Unknown { signature: own, .. } => same_bytes(signature, own.as_slice()),
            };
            if found {
                return Some(&self.chunks[i]);
            }
            i += 1;
        }
        None
    }
}

/// The data of `parts`, joined in order.
pub open spec fn joined(parts: Seq<&PngIdata>) -> Seq<u8>
    decreases parts.len(),
{
    if parts.len() == 0 {
        Seq::empty()
    } else {
        joined(parts.drop_last()) + parts.last().data@
    }
}

/// The first of `raws` with the tag `IHDR`.
pub open spec fn raw_ihdr(raws: Seq<RawChunk>) -> Option<RawChunk>
    decreases raws.len(),
{
    if raws.len() == 0 {
        None
    } else if raws[0].tag == tag_ihdr() {
        Some(raws[0])
    } else {
        raw_ihdr(raws.drop_first())
    }
}

/// The payloads of those of `raws` with the tag `IDAT`, joined in order.
pub open spec fn raw_idat_stream(raws: Seq<RawChunk>) -> Seq<u8>
    decreases raws.len(),
{
    if raws.len() == 0 {
        Seq::empty()
    } else {
        raw_idat_stream(raws.drop_last()) + if raws.last().tag == tag_idat() {
            raws.last().payload
        } else {
            Seq::empty()
        }
    }
}

/// The number of those of `raws` with the tag `IDAT`.
pub open spec fn raw_idat_count(raws: Seq<RawChunk>) -> nat
    decreases raws.len(),
{
    if raws.len() == 0 {
        0
    } else {
        raw_idat_count(raws.drop_last()) + if raws.last().tag == tag_idat() {
            1nat
        } else {
            0nat
        }
    }
}

/// The number of bytes in a filtered row of `width` pixels with three
/// bytes each.
pub open spec fn rgb_stride(width: u32) -> int {
    3 * width + 1
}

/// Whether `lines`, the decompressed picture data, holds `height` filtered
/// rows of `width` pixels.
pub open spec fn lines_readable(lines: Seq<u8>, width: u32, height: u32) -> bool {
    &&& lines.len() == height * rgb_stride(width)
    &&& well_filtered(lines, rgb_stride(width))
}

/// The first image header of decoded chunks is what the first chunk with
/// the tag `IHDR` says.
pub proof fn first_ihdr_decodes(chunks: Seq<PngChunk>, raws: Seq<RawChunk>)
    requires
        chunks_decode(chunks, raws),
    ensures
        first_ihdr(chunks) is Some <==> raw_ihdr(raws) is Some,
        first_ihdr(chunks) matches Some(c) ==> c.decodes(raw_ihdr(raws)->0),
    decreases chunks.len(),
{
    if chunks.len() > 0 {
        assert(chunks[0].decodes(raws[0]));
        let rest = chunks.drop_first();
        let raw_rest = raws.drop_first();
        assert forall|i: int| 0 <= i < rest.len() implies (#[trigger] rest[i]).decodes(
            raw_rest[i],
        ) by {
            assert(chunks[i + 1].decodes(raws[i + 1]));
        }
        first_ihdr_decodes(rest, raw_rest);
    }
}

/// The picture data of decoded chunks is what the chunks with the tag
/// `IDAT` hold.
pub proof fn idat_stream_decodes(chunks: Seq<PngChunk>, raws: Seq<RawChunk>)
    requires
        chunks_decode(chunks, raws),
    ensures
        idat_stream(chunks) == raw_idat_stream(raws),
        idat_count(chunks) == raw_idat_count(raws),
    decreases chunks.len(),
{
    if chunks.len() > 0 {
        let n = chunks.len() - 1;
        assert(chunks[n].decodes(raws[n]));
        let rest = chunks.drop_last();
        let raw_rest = raws.drop_last();
        assert forall|i: int| 0 <= i < rest.len() implies (#[trigger] rest[i]).decodes(
            raw_rest[i],
        ) by {
            assert(chunks[i].decodes(raws[i]));
        }
        idat_stream_decodes(rest, raw_rest);
    }
}

impl Png {
    /// Whether `chunks` describe a picture that the codec reads: an image
    /// header that declares eight bits for each of red, green and blue and
    /// no interlacing, and at least one chunk of picture data.
    pub open spec fn chunks_supported(chunks: Seq<PngChunk>) -> bool {
        &&& first_ihdr(chunks) matches Some(h) && h.color_type == PngColorType::RGB && h.bit_depth
            == 8 && h.interlacing == PngInterlacing::Off
        &&& idat_count(chunks) >= 1
    }

    /// Whether the PNG is one that decoding can give.
    pub open spec fn valid(&self) -> bool {
        &&& Png::chunks_supported(self.chunks@)
        &&& all_writable(self.chunks@)
        &&& self.pixels.len() == first_ihdr(self.chunks@)->0.width * first_ihdr(
            self.chunks@,
        )->0.height
        &&& self.filters.len() == first_ihdr(self.chunks@)->0.height
        &&& forall|k: int| 0 <= k < self.filters@.len() ==> self.filters@[k] <= 4
    }

    /// Whether `data` is a PNG that this codec decodes.
    pub open spec fn parsable(data: Seq<u8>) -> bool {
        &&& data.len() >= 8
        &&& frames(data.skip(8), 0) matches Some(raws) && {
            &&& all_decodable(raws)
            &&& raw_ihdr(raws) matches Some(h) && {
                &&& h.payload[9] == 2
                &&& h.payload[8] == 8
                &&& h.payload[12] == 0
                &&& raw_idat_count(raws) >= 1
                &&& zlib_inflated(raw_idat_stream(raws)) matches Some(lines) && lines_readable(
                    lines,
                    u32_be(h.payload, 0),
                    u32_be(h.payload, 4),
                )
            }
        }
    }

    /// Whether the PNG holds what `data` says.
    pub open spec fn decodes(&self, data: Seq<u8>) -> bool {
        let raws = frames(data.skip(8), 0)->0;
        let lines = zlib_inflated(raw_idat_stream(raws))->0;
        let stride = rgb_stride(u32_be(raw_ihdr(raws)->0.payload, 0));
        &&& self.header.decodes(data)
        &&& chunks_decode(self.chunks@, raws)
        &&& self.pixels@ == rgb_pixels(unfiltered(lines, stride, 3))
        &&& self.filters@ == filters_of(lines, stride)
    }

    /// Decodes a PNG file.
    pub fn parse(data: &[u8]) -> (res: Option<Png>)
        ensures
            res is Some <==> Png::parsable(data@),
            res matches Some(png) ==> png.decodes(data@) && png.valid(),
    {
        if data.len() < 8 {
            return None;
        }
        let signature = [data[1], data[2], data[3]];
        let dos_line_end = [data[4], data[5]];
        assert(signature@ =~= data@.subrange(1, 4));
        assert(dos_line_end@ =~= data@.subrange(4, 6));
        let header = PngHeader {
            high_byte: data[0],
            signature,
            dos_line_end,
            dos_eof: data[6],
            unix_line_end: data[7],
        };
        let rest = vstd::slice::slice_subrange(data, 8, data.len());
        assert(rest@ =~= data@.skip(8));
        let chunks = match Png::parse_chunks(rest) {
            Some(c) => c,
            None => {
                return None;
            },
        };
        proof {
            let raws = frames(data@.skip(8), 0)->0;
            first_ihdr_decodes(chunks@, raws);
            idat_stream_decodes(chunks@, raws);
        }
        let ihdr = match Png::get_idhr(&chunks) {
            Some(h) => *h,
            None => {
                return None;
            },
        };
        if !matches!(ihdr.color_type, PngColorType::RGB) || ihdr.bit_depth != 8 || !matches!(
            ihdr.interlacing,
            PngInterlacing::Off
        ) {
            return None;
        }
        let parts = Png::get_idata_chunks(&chunks);
        if parts.len() == 0 {
            return None;
        }
        let (pixels, filters) = match Png::parse_pixels(parts, ihdr.width, ihdr.height) {
            Some(p) => p,
            None => {
                return None;
            },
        };
        Some(Png { header, chunks, pixels, filters })
    }

    /// Decompresses the joined data of `idata` and reads `height` rows of
    /// `width` pixels from it.
    pub fn parse_pixels(idata: Vec<&PngIdata>, width: u32, height: u32) -> (res: Option<
        (Vec<Pixel>, Vec<u8>),
    >)
        ensures
            res is Some <==> (zlib_inflated(joined(idata@)) matches Some(lines) && lines_readable(
                lines,
                width,
                height,
            )),
            res matches Some((pixels, filters)) ==> {
                let lines = zlib_inflated(joined(idata@))->0;
                &&& pixels@ == rgb_pixels(unfiltered(lines, rgb_stride(width), 3))
                &&& filters@ == filters_of(lines, rgb_stride(width))
                &&& pixels@.len() == width * height
                &&& filters@.len() == height
                &&& forall|k: int| 0 <= k < filters@.len() ==> filters@[k] <= 4
            },
    {
        let mut stream: Vec<u8> = Vec::new();
        let mut i: usize = 0;
        while i < idata.len()
            invariant
                i <= idata@.len(),
                stream@ == joined(idata@.take(i as int)),
            decreases idata@.len() - i,
        {
            assert(idata@.take(i + 1).drop_last() =~= idata@.take(i as int));
            super::wire::push_all(&mut stream, idata[i].data.as_slice());
            i += 1;
        }
        assert(idata@.take(i as int) =~= idata@);
        let lines = match inflate(stream.as_slice()) {
            Some(l) => l,
            None => {
                return None;
            },
        };
        Png::read_lines(lines.as_slice(), width, height)
    }

    /// Reads `height` rows of `width` pixels from `lines`, the decompressed
    /// picture data: the picture, and the filter that each row was stored
    /// with.
    pub fn read_lines(lines: &[u8], width: u32, height: u32) -> (res: Option<
        (Vec<Pixel>, Vec<u8>),
    >)
        ensures
            res is Some <==> lines_readable(lines@, width, height),
            res matches Some((pixels, filters)) ==> {
                &&& pixels@ == rgb_pixels(unfiltered(lines@, rgb_stride(width), 3))
                &&& filters@ == filters_of(lines@, rgb_stride(width))
                &&& pixels@.len() == width * height
                &&& filters@.len() == height
                &&& forall|k: int| 0 <= k < filters@.len() ==> filters@[k] <= 4
            },
    {
        let stride: u128 = 3 * (width as u128) + 1;
        assert(height * stride <= 0xFFFF_FFFF * (3 * 0xFFFF_FFFF + 1)) by (nonlinear_arith)
            requires
                height <= 0xFFFF_FFFF,
                1 <= stride <= 3 * 0xFFFF_FFFF + 1,
        ;
        if (height as u128) * stride != lines.len() as u128 {
            return None;
        }
        let ghost wide = rgb_stride(width);
        proof {
            assert(lines@.len() as int / wide == height && lines@.len() % (wide as nat) == 0) by {
                assert(lines@.len() == wide * height) by (nonlinear_arith)
                    requires
                        lines@.len() == height * wide,
                ;
                vstd::arithmetic::div_mod::lemma_div_multiples_vanish(height as int, wide);
                vstd::arithmetic::div_mod::lemma_mod_multiples_basic(height as int, wide);
            }
        }
        if height == 0 {
            assert(unfiltered(lines@, wide, 3) =~= Seq::<u8>::empty());
            assert(rgb_pixels(Seq::<u8>::empty()) =~= Seq::<Pixel>::empty());
            assert(filters_of(lines@, wide) =~= Seq::<u8>::empty());
            assert(width * height == 0) by (nonlinear_arith)
                requires
                    height == 0,
            ;
            return Some((Vec::new(), Vec::new()));
        }
        assert(stride <= lines@.len()) by (nonlinear_arith)
            requires
                lines@.len() == height * stride,
                height >= 1,
                stride >= 1,
        ;
        let bytes = match Png::undo_png_filtering(lines, width as usize, PngColorType::RGB) {
            Some(b) => b,
            None => {
                return None;
            },
        };
        proof {
            unfiltered_rows_shape(lines@, wide, 3, height as int);
            assert(height * (wide - 1) == 3 * (width * height)) by (nonlinear_arith)
                requires
                    wide == 3 * width + 1,
            ;
        }
        let pixels = unpack_rgb(bytes.as_slice());
        let filters = Png::row_filters(lines, stride as usize);
        Some((pixels, filters))
    }
}

} // verus!
