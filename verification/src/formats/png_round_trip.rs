//! What holds of writing a PNG and reading it again.

use vstd::prelude::*;
use super::crc::crc32_of;
use super::format::{rgb_bytes, unpack_after_pack};
use super::png::{
    all_decodable, all_writable, chunks_decode, color_code, first_ihdr, first_zero, frame_at,
    frames, idat_count, raw_idat_count, raw_idat_stream, raw_ihdr, rgb_stride, tag_iccp, tag_idat,
    tag_iend, tag_ihdr, tag_phys, tag_text, tag_time, Png, PngChunk, PngIhdr, PngInterlacing,
    RawChunk,
};
use super::png_write::{framed, idat_frames, sealed, written_chunks, IDAT_LIMIT};
use super::scanline::unfiltering_restores;
use super::wire::{bytes_u32_be, read_after_write_u32, u32_be};
use super::zlib::zlib_inflated;

verus! {

/// Whether `data` holds, from `at` on, whole chunks and nothing else.
pub open spec fn tiles(data: Seq<u8>, at: int) -> bool
    decreases data.len() - at,
{
    if at < 0 || at > data.len() {
        false
    } else if at == data.len() {
        true
    } else {
        &&& at + 12 + u32_be(data, at) <= data.len()
        &&& tiles(data, at + 12 + u32_be(data, at))
    }
}

/// The chunks of `data` are found in the same way behind any bytes that
/// stand before `data`.
pub proof fn frames_shift(pre: Seq<u8>, data: Seq<u8>, at: int)
    requires
        0 <= at,
    ensures
        frames(pre + data, pre.len() + at) == frames(data, at),
    decreases data.len() - at,
{
    let all = pre + data;
    let base = pre.len() as int;
    if at + 12 <= data.len() {
        assert(u32_be(all, base + at) == u32_be(data, at));
        let length = u32_be(data, at) as int;
        if at + 12 + length <= data.len() {
            frames_shift(pre, data, at + 12 + length);
            assert(u32_be(all, base + at + 8 + length) == u32_be(data, at + 8 + length));
            assert(all.subrange(base + at + 4, base + at + 8) =~= data.subrange(at + 4, at + 8));
            assert(all.subrange(base + at + 8, base + at + 8 + length) =~= data.subrange(
                at + 8,
                at + 8 + length,
            ));
            assert(frame_at(all, base + at) == frame_at(data, at));
        }
    }
}

/// Whole chunks keep being whole chunks, and are found as before, when
/// more bytes follow them.
pub proof fn frames_append(a: Seq<u8>, b: Seq<u8>, at: int)
    requires
        tiles(a, at),
    ensures
        frames(a, at) is Some,
        frames(a + b, at) == match frames(b, 0) {
            Some(more) => Some(frames(a, at)->0 + more),
            None => None,
        },
        tiles(b, 0) ==> tiles(a + b, at),
    decreases a.len() - at,
{
    let all = a + b;
    if at == a.len() {
        frames_shift(a, b, 0);
        assert(frames(a, at) == Some(Seq::<RawChunk>::empty()));
        if let Some(more) = frames(b, 0) {
            assert(Seq::<RawChunk>::empty() + more =~= more);
        }
        if tiles(b, 0) {
            tiles_shift(a, b, 0);
        }
    } else {
        assert(u32_be(all, at) == u32_be(a, at));
        let length = u32_be(a, at) as int;
        let next = at + 12 + length;
        frames_append(a, b, next);
        assert(u32_be(all, at + 8 + length) == u32_be(a, at + 8 + length));
        assert(all.subrange(at + 4, at + 8) =~= a.subrange(at + 4, at + 8));
        assert(all.subrange(at + 8, at + 8 + length) =~= a.subrange(at + 8, at + 8 + length));
        assert(frame_at(all, at) == frame_at(a, at));
        if let Some(more) = frames(b, 0) {
            let rest = frames(a, next)->0;
            assert(seq![frame_at(a, at)] + (rest + more) =~= (seq![frame_at(a, at)] + rest)
                + more);
        }
    }
}

/// Whole chunks are whole chunks behind any bytes that stand before them.
proof fn tiles_shift(pre: Seq<u8>, data: Seq<u8>, at: int)
    requires
        tiles(data, at),
    ensures
        tiles(pre + data, pre.len() + at),
    decreases data.len() - at,
{
    let all = pre + data;
    let base = pre.len() as int;
    if at < data.len() {
        assert(u32_be(all, base + at) == u32_be(data, at));
        tiles_shift(pre, data, at + 12 + u32_be(data, at));
    }
}

/// A chunk as it stands in the file when it is written with the checksum
/// `crc`.
pub open spec fn raw_of(tag: Seq<u8>, payload: Seq<u8>, crc: u32) -> RawChunk {
    RawChunk { length: payload.len() as u32, tag, payload, crc }
}

/// A chunk that was written is one whole chunk, and it is read as it was
/// written.
pub proof fn framed_is_read(tag: Seq<u8>, payload: Seq<u8>, crc: u32)
    requires
        tag.len() == 4,
        payload.len() <= u32::MAX,
    ensures
        framed(tag, payload, crc).len() == 12 + payload.len(),
        tiles(framed(tag, payload, crc), 0),
        frames(framed(tag, payload, crc), 0) == Some(seq![raw_of(tag, payload, crc)]),
{
    let f = framed(tag, payload, crc);
    let n = payload.len() as int;
    read_after_write_u32(n as u32);
    read_after_write_u32(crc);
    let head = bytes_u32_be(n as u32);
    let tail = bytes_u32_be(crc);
    assert(f.len() == 12 + n);
    assert(f[0] == head[0] && f[1] == head[1] && f[2] == head[2] && f[3] == head[3]);
    assert(u32_be(f, 0) == n);
    assert(f[8 + n] == tail[0] && f[9 + n] == tail[1] && f[10 + n] == tail[2] && f[11 + n]
        == tail[3]);
    assert(u32_be(f, 8 + n) == crc);
    assert(f.subrange(4, 8) =~= tag);
    assert(f.subrange(8, 8 + n) =~= payload);
    assert(frame_at(f, 0) == raw_of(tag, payload, crc));
    assert(tiles(f, 12 + n));
    assert(frames(f, 12 + n) == Some(Seq::<RawChunk>::empty()));
    assert(seq![raw_of(tag, payload, crc)] + Seq::<RawChunk>::empty() =~= seq![
        raw_of(tag, payload, crc),
    ]);
}

/// A chunk as it stands in the file when it is written with the checksum
/// of its tag and payload.
pub open spec fn sealed_raw(tag: Seq<u8>, payload: Seq<u8>) -> RawChunk {
    raw_of(tag, payload, crc32_of(tag + payload))
}

/// The `IDAT` chunks that the compressed stream `z` is written in.
pub open spec fn idat_raws(z: Seq<u8>, limit: int) -> Seq<RawChunk>
    decreases z.len(),
{
    if limit <= 0 || z.len() <= limit {
        seq![sealed_raw(tag_idat(), z)]
    } else {
        seq![sealed_raw(tag_idat(), z.take(limit))] + idat_raws(z.skip(limit), limit)
    }
}

/// The chunks that stand in the file when `chunks` are written with `z` as
/// the compressed picture.
pub open spec fn rewritten(chunks: Seq<PngChunk>, z: Seq<u8>) -> Seq<RawChunk>
    decreases chunks.len(),
{
    if chunks.len() == 0 {
        Seq::empty()
    } else {
        rewritten(chunks.drop_last(), z) + match chunks.last() {
            PngChunk::IDAT(_) => if idat_count(chunks.drop_last()) == 0 {
                idat_raws(z, IDAT_LIMIT as int)
            } else {
                Seq::empty()
            },
            _ => seq![sealed_raw(chunks.last().tag(), chunks.last().payload())],
        }
    }
}

/// The fresh `IDAT` chunks are whole chunks, and they are read as they were
/// written.
pub proof fn idat_frames_are_read(z: Seq<u8>, limit: int)
    requires
        0 < limit <= u32::MAX,
    ensures
        tiles(idat_frames(z, limit), 0),
        frames(idat_frames(z, limit), 0) == Some(idat_raws(z, limit)),
    decreases z.len(),
{
    if z.len() <= limit {
        framed_is_read(tag_idat(), z, crc32_of(tag_idat() + z));
    } else {
        let first = z.take(limit);
        let head = sealed(tag_idat(), first);
        framed_is_read(tag_idat(), first, crc32_of(tag_idat() + first));
        idat_frames_are_read(z.skip(limit), limit);
        frames_append(head, idat_frames(z.skip(limit), limit), 0);
    }
}

/// What is written for `chunks` is whole chunks, and they are read as they
/// were written.
pub proof fn written_chunks_are_read(chunks: Seq<PngChunk>, z: Seq<u8>)
    requires
        all_writable(chunks),
    ensures
        tiles(written_chunks(chunks, z), 0),
        frames(written_chunks(chunks, z), 0) == Some(rewritten(chunks, z)),
    decreases chunks.len(),
{
    if chunks.len() > 0 {
        let before = chunks.drop_last();
        let last = chunks.last();
        assert(last.writable());
        assert forall|i: int| 0 <= i < before.len() implies (#[trigger] before[i]).writable() by {
            assert(chunks[i].writable());
        }
        written_chunks_are_read(before, z);
        let a = written_chunks(before, z);
        let done = rewritten(before, z);
        if last is IDAT {
            if idat_count(before) == 0 {
                idat_frames_are_read(z, IDAT_LIMIT as int);
                frames_append(a, idat_frames(z, IDAT_LIMIT as int), 0);
            } else {
                assert(a + Seq::<u8>::empty() =~= a);
                assert(done + Seq::<RawChunk>::empty() =~= done);
            }
        } else {
            last_chunk_is_read(a, last);
        }
    } else {
        assert(frames(Seq::<u8>::empty(), 0) == Some(Seq::<RawChunk>::empty()));
    }
}

proof fn last_chunk_is_read(a: Seq<u8>, last: PngChunk)
    requires
        tiles(a, 0),
        last.writable(),
    ensures
        tiles(a + sealed(last.tag(), last.payload()), 0),
        frames(a + sealed(last.tag(), last.payload()), 0) == Some(
            frames(a, 0)->0 + seq![sealed_raw(last.tag(), last.payload())],
        ),
{
    assert(last.tag().len() == 4);
    framed_is_read(last.tag(), last.payload(), crc32_of(last.tag() + last.payload()));
    frames_append(a, sealed(last.tag(), last.payload()), 0);
}

/// The picture data of chunks that stand one behind the other is the
/// picture data of the first, followed by that of the second.
pub proof fn idat_stream_of_joined(a: Seq<RawChunk>, b: Seq<RawChunk>)
    ensures
        raw_idat_stream(a + b) == raw_idat_stream(a) + raw_idat_stream(b),
        raw_idat_count(a + b) == raw_idat_count(a) + raw_idat_count(b),
    decreases b.len(),
{
    if b.len() == 0 {
        assert(a + b =~= a);
        assert(raw_idat_stream(a) + Seq::<u8>::empty() =~= raw_idat_stream(a));
    } else {
        assert((a + b).drop_last() =~= a + b.drop_last());
        idat_stream_of_joined(a, b.drop_last());
        let tail = if b.last().tag == tag_idat() {
            b.last().payload
        } else {
            Seq::empty()
        };
        assert(raw_idat_stream(a) + (raw_idat_stream(b.drop_last()) + tail) =~= (raw_idat_stream(
            a,
        ) + raw_idat_stream(b.drop_last())) + tail);
    }
}

/// The first image header of chunks that stand one behind the other is
/// that of the first, or else that of the second.
pub proof fn ihdr_of_joined(a: Seq<RawChunk>, b: Seq<RawChunk>)
    ensures
        raw_ihdr(a + b) == if raw_ihdr(a) is Some {
            raw_ihdr(a)
        } else {
            raw_ihdr(b)
        },
    decreases a.len(),
{
    if a.len() == 0 {
        assert(a + b =~= b);
    } else {
        assert((a + b).drop_first() =~= a.drop_first() + b);
        ihdr_of_joined(a.drop_first(), b);
    }
}

/// The first image header among chunks is the first among all but the last
/// of them, or else the last.
pub proof fn first_ihdr_from_the_end(chunks: Seq<PngChunk>)
    requires
        chunks.len() > 0,
    ensures
        first_ihdr(chunks) == match first_ihdr(chunks.drop_last()) {
            Some(h) => Some(h),
            None => match chunks.last() {
                PngChunk::IHDR(h) => Some(h),
                _ => None,
            },
        },
    decreases chunks.len(),
{
    if chunks.len() == 1 {
        assert(chunks.drop_last() =~= Seq::<PngChunk>::empty());
        assert(chunks.drop_first() =~= Seq::<PngChunk>::empty());
    } else {
        let rest = chunks.drop_first();
        first_ihdr_from_the_end(rest);
        assert(rest.drop_last() =~= chunks.drop_last().drop_first());
        assert(rest.last() == chunks.last());
        assert(chunks.drop_last()[0] == chunks[0]);
    }
}

/// The place of the first zero byte is no further than any zero byte.
proof fn first_zero_is_first(s: Seq<u8>, at: int)
    requires
        0 <= at < s.len(),
        s[at] == 0,
    ensures
        0 <= first_zero(s) <= at,
    decreases s.len(),
{
    if s[0] != 0 {
        first_zero_is_first(s.drop_first(), at - 1);
    }
}

/// The tags with chunk types of their own differ from one another.
proof fn tags_differ()
    ensures
        tag_ihdr() != tag_idat(),
        tag_ihdr() != tag_iend(),
        tag_ihdr() != tag_text(),
        tag_ihdr() != tag_iccp(),
        tag_ihdr() != tag_phys(),
        tag_ihdr() != tag_time(),
        tag_idat() != tag_iend(),
        tag_idat() != tag_text(),
        tag_idat() != tag_iccp(),
        tag_idat() != tag_phys(),
        tag_idat() != tag_time(),
        tag_iend() != tag_text(),
        tag_iend() != tag_iccp(),
        tag_iend() != tag_phys(),
        tag_iend() != tag_time(),
        tag_text() != tag_iccp(),
        tag_text() != tag_phys(),
        tag_text() != tag_time(),
        tag_iccp() != tag_phys(),
        tag_iccp() != tag_time(),
        tag_phys() != tag_time(),
{
    assert(tag_ihdr()[1] == 0x48 && tag_ihdr()[0] == 0x49);
    assert(tag_idat()[1] == 0x44 && tag_idat()[0] == 0x49);
    assert(tag_iend()[1] == 0x45 && tag_iend()[0] == 0x49);
    assert(tag_text()[0] == 0x74 && tag_text()[1] == 0x45);
    assert(tag_iccp()[0] == 0x69);
    assert(tag_phys()[0] == 0x70);
    assert(tag_time()[0] == 0x74 && tag_time()[1] == 0x49);
}

/// A chunk that can be written is read again when it is written. It is
/// read as picture data or as an image header exactly when it is that.
pub proof fn written_chunk_is_decodable(chunk: PngChunk)
    requires
        chunk.writable(),
    ensures
        chunk.tag().len() == 4,
        PngChunk::decodable(sealed_raw(chunk.tag(), chunk.payload())),
        chunk.tag() == tag_idat() <==> chunk is IDAT,
        chunk.tag() == tag_ihdr() <==> chunk is IHDR,
{
    tags_differ();
    let payload = chunk.payload();
    match chunk {
        PngChunk::ICCP(c) => {
            let at = c.keyword@.len() as int;
            assert(payload[at] == 0);
            first_zero_is_first(payload, at);
        },
        _ => {},
    }
}

/// What one chunk by itself holds.
proof fn of_one(x: RawChunk)
    ensures
        raw_idat_stream(seq![x]) == if x.tag == tag_idat() {
            x.payload
        } else {
            Seq::empty()
        },
        raw_idat_count(seq![x]) == if x.tag == tag_idat() {
            1nat
        } else {
            0nat
        },
        raw_ihdr(seq![x]) == if x.tag == tag_ihdr() {
            Some(x)
        } else {
            None
        },
{
    let one = seq![x];
    let none = Seq::<RawChunk>::empty();
    assert(one.drop_last() =~= none);
    assert(one.drop_first() =~= none);
    assert(one.last() == x);
    assert(one[0] == x);
    assert(raw_idat_stream(none) =~= Seq::<u8>::empty());
    assert(raw_idat_count(none) == 0);
    assert(raw_ihdr(none) is None);
    assert(Seq::<u8>::empty() + x.payload =~= x.payload);
    assert(raw_idat_stream(one) =~= if x.tag == tag_idat() {
        x.payload
    } else {
        Seq::empty()
    });
}

/// The fresh `IDAT` chunks are read again, they hold the compressed stream
/// and there is no image header among them.
pub proof fn idat_raws_hold_the_stream(z: Seq<u8>, limit: int)
    requires
        0 < limit,
    ensures
        all_decodable(idat_raws(z, limit)),
        raw_idat_stream(idat_raws(z, limit)) == z,
        raw_idat_count(idat_raws(z, limit)) >= 1,
        raw_ihdr(idat_raws(z, limit)) is None,
    decreases z.len(),
{
    tags_differ();
    if z.len() <= limit {
        of_one(sealed_raw(tag_idat(), z));
    } else {
        let first = seq![sealed_raw(tag_idat(), z.take(limit))];
        let rest = idat_raws(z.skip(limit), limit);
        idat_raws_hold_the_stream(z.skip(limit), limit);
        of_one(sealed_raw(tag_idat(), z.take(limit)));
        idat_stream_of_joined(first, rest);
        ihdr_of_joined(first, rest);
        assert(z.take(limit) + z.skip(limit) =~= z);
        assert forall|i: int| 0 <= i < (first + rest).len() implies PngChunk::decodable(
            #[trigger] (first + rest)[i],
        ) by {
            if i >= 1 {
                assert(PngChunk::decodable(rest[i - 1]));
            }
        }
    }
}

/// What stands in the file when chunks are written: every chunk is read
/// again, the picture data is the compressed stream, and the first image
/// header holds what the first image header among the chunks holds.
pub proof fn rewritten_is_decodable(chunks: Seq<PngChunk>, z: Seq<u8>)
    requires
        all_writable(chunks),
    ensures
        all_decodable(rewritten(chunks, z)),
        raw_idat_stream(rewritten(chunks, z)) == if idat_count(chunks) > 0 {
            z
        } else {
            Seq::empty()
        },
        raw_idat_count(rewritten(chunks, z)) > 0 <==> idat_count(chunks) > 0,
        raw_ihdr(rewritten(chunks, z)) == match first_ihdr(chunks) {
            Some(h) => Some(sealed_raw(tag_ihdr(), h.payload())),
            None => None,
        },
    decreases chunks.len(),
{
    if chunks.len() > 0 {
        let before = chunks.drop_last();
        let last = chunks.last();
        assert(last.writable());
        assert forall|i: int| 0 <= i < before.len() implies (#[trigger] before[i]).writable() by {
            assert(chunks[i].writable());
        }
        rewritten_is_decodable(before, z);
        first_ihdr_from_the_end(chunks);
        let done = rewritten(before, z);
        let piece = match last {
            PngChunk::IDAT(_) => if idat_count(before) == 0 {
                idat_raws(z, IDAT_LIMIT as int)
            } else {
                Seq::empty()
            },
            _ => seq![sealed_raw(last.tag(), last.payload())],
        };
        idat_stream_of_joined(done, piece);
        ihdr_of_joined(done, piece);
        written_chunk_is_decodable(last);
        match last {
            PngChunk::IDAT(_) => {
                if idat_count(before) == 0 {
                    idat_raws_hold_the_stream(z, IDAT_LIMIT as int);
                    assert(Seq::<u8>::empty() + z =~= z);
                } else {
                    assert(raw_idat_stream(Seq::<RawChunk>::empty()) =~= Seq::<u8>::empty());
                    assert(raw_idat_count(Seq::<RawChunk>::empty()) == 0);
                    assert(raw_ihdr(Seq::<RawChunk>::empty()) is None);
                    assert(z + Seq::<u8>::empty() =~= z);
                }
            },
            _ => {
                of_one(sealed_raw(last.tag(), last.payload()));
                assert(raw_idat_stream(done) + Seq::<u8>::empty() =~= raw_idat_stream(done));
            },
        }
        assert forall|i: int| 0 <= i < (done + piece).len() implies PngChunk::decodable(
            #[trigger] (done + piece)[i],
        ) by {
            if i < done.len() {
                assert(PngChunk::decodable(done[i]));
            } else {
                assert(PngChunk::decodable(piece[i - done.len()]));
            }
        }
    }
}

/// An image header is read from its payload as it was written.
proof fn ihdr_payload_is_read(h: PngIhdr)
    ensures
        h.payload().len() == 13,
        u32_be(h.payload(), 0) == h.width,
        u32_be(h.payload(), 4) == h.height,
        h.payload()[8] == h.bit_depth,
        h.payload()[9] == color_code(h.color_type),
        h.payload()[12] == match h.interlacing {
            PngInterlacing::Off => 0u8,
            PngInterlacing::Adam7 => 1u8,
        },
{
    let p = h.payload();
    let w = bytes_u32_be(h.width);
    let t = bytes_u32_be(h.height);
    read_after_write_u32(h.width);
    read_after_write_u32(h.height);
    assert(p[0] == w[0] && p[1] == w[1] && p[2] == w[2] && p[3] == w[3]);
    assert(p[4] == t[0] && p[5] == t[1] && p[6] == t[2] && p[7] == t[3]);
}

/// Writing a PNG and reading the file again gives the same picture, with
/// the same filters, whenever decompressing the stream that the picture was
/// compressed to gives the filtered rows back.
pub proof fn written_file_decodes(png: Png, z: Seq<u8>, again: Png)
    requires
        png.valid(),
        zlib_inflated(z) == Some(png.lines()),
        again.decodes(png.file_with(z)),
    ensures
        Png::parsable(png.file_with(z)),
        again.pixels@ == png.pixels@,
        again.filters@ == png.filters@,
        chunks_decode(again.chunks@, rewritten(png.chunks@, z)),
{
    let file = png.file_with(z);
    let h = png.ihdr();
    let body = written_chunks(png.chunks@, z);
    let raws = rewritten(png.chunks@, z);
    assert(png.header.encoding().len() == 8);
    assert(file.skip(8) =~= body);
    written_chunks_are_read(png.chunks@, z);
    rewritten_is_decodable(png.chunks@, z);
    ihdr_payload_is_read(h);
    let raw = rgb_bytes(png.pixels@);
    let n = 3 * h.width;
    assert(raw.len() == png.filters@.len() * n) by (nonlinear_arith)
        requires
            raw.len() == 3 * (h.width * h.height),
            png.filters@.len() == h.height,
            n == 3 * h.width,
    ;
    unfiltering_restores(raw, n, 3, png.filters@);
    unpack_after_pack(png.pixels@);
    assert(rgb_stride(h.width) == n + 1);
}

} // verus!
