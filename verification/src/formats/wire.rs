//! Fixed-width integers as they stand in a byte stream, in little-endian and
//! big-endian order.

use vstd::prelude::*;

verus! {

/// The 16-bit value whose little-endian bytes start at `at`.
pub open spec fn u16_le(s: Seq<u8>, at: int) -> u16 {
    (s[at] + 256 * s[at + 1]) as u16
}

/// The 32-bit value whose little-endian bytes start at `at`.
pub open spec fn u32_le(s: Seq<u8>, at: int) -> u32 {
    (s[at] + 256 * s[at + 1] + 65536 * s[at + 2] + 16777216 * s[at + 3]) as u32
}

/// The 16-bit value whose big-endian bytes start at `at`.
pub open spec fn u16_be(s: Seq<u8>, at: int) -> u16 {
    (256 * s[at] + s[at + 1]) as u16
}

/// The 32-bit value whose big-endian bytes start at `at`.
pub open spec fn u32_be(s: Seq<u8>, at: int) -> u32 {
    (16777216 * s[at] + 65536 * s[at + 1] + 256 * s[at + 2] + s[at + 3]) as u32
}

/// The two bytes of `v`, least significant first.
pub open spec fn bytes_u16_le(v: u16) -> Seq<u8> {
    seq![(v % 256) as u8, (v / 256) as u8]
}

/// The four bytes of `v`, least significant first.
pub open spec fn bytes_u32_le(v: u32) -> Seq<u8> {
    seq![
        (v % 256) as u8,
        (v / 256 % 256) as u8,
        (v / 65536 % 256) as u8,
        (v / 16777216) as u8,
    ]
}

/// The two bytes of `v`, most significant first.
pub open spec fn bytes_u16_be(v: u16) -> Seq<u8> {
    seq![(v / 256) as u8, (v % 256) as u8]
}

/// The four bytes of `v`, most significant first.
pub open spec fn bytes_u32_be(v: u32) -> Seq<u8> {
    seq![
        (v / 16777216) as u8,
        (v / 65536 % 256) as u8,
        (v / 256 % 256) as u8,
        (v % 256) as u8,
    ]
}

/// Reads the 16-bit value whose little-endian bytes start at `at`.
pub fn read_u16_le(data: &[u8], at: usize) -> (res: u16)
    requires
        at + 2 <= data@.len(),
    ensures
        res == u16_le(data@, at as int),
{
    data[at] as u16 + 256 * (data[at + 1] as u16)
}

/// Reads the 32-bit value whose little-endian bytes start at `at`.
pub fn read_u32_le(data: &[u8], at: usize) -> (res: u32)
    requires
        at + 4 <= data@.len(),
    ensures
        res == u32_le(data@, at as int),
{
    data[at] as u32 + 256 * (data[at + 1] as u32) + 65536 * (data[at + 2] as u32) + 16777216 * (
    data[at + 3] as u32)
}

/// Reads the 16-bit value whose big-endian bytes start at `at`.
pub fn read_u16_be(data: &[u8], at: usize) -> (res: u16)
    requires
        at + 2 <= data@.len(),
    ensures
        res == u16_be(data@, at as int),
{
    256 * (data[at] as u16) + data[at + 1] as u16
}

/// Reads the 32-bit value whose big-endian bytes start at `at`.
pub fn read_u32_be(data: &[u8], at: usize) -> (res: u32)
    requires
        at + 4 <= data@.len(),
    ensures
        res == u32_be(data@, at as int),
{
    16777216 * (data[at] as u32) + 65536 * (data[at + 1] as u32) + 256 * (data[at + 2] as u32)
        + data[at + 3] as u32
}

/// Appends the two bytes of `v`, least significant first.
pub fn push_u16_le(out: &mut Vec<u8>, v: u16)
    ensures
        final(out)@ == old(out)@ + bytes_u16_le(v),
{
    out.push((v % 256) as u8);
    out.push((v / 256) as u8);
    assert(out@ =~= old(out)@ + bytes_u16_le(v));
}

/// Appends the four bytes of `v`, least significant first.
pub fn push_u32_le(out: &mut Vec<u8>, v: u32)
    ensures
        final(out)@ == old(out)@ + bytes_u32_le(v),
{
    out.push((v % 256) as u8);
    out.push((v / 256 % 256) as u8);
    out.push((v / 65536 % 256) as u8);
    out.push((v / 16777216) as u8);
    assert(out@ =~= old(out)@ + bytes_u32_le(v));
}

/// Appends the two bytes of `v`, most significant first.
pub fn push_u16_be(out: &mut Vec<u8>, v: u16)
    ensures
        final(out)@ == old(out)@ + bytes_u16_be(v),
{
    out.push((v / 256) as u8);
    out.push((v % 256) as u8);
    assert(out@ =~= old(out)@ + bytes_u16_be(v));
}

/// Appends the four bytes of `v`, most significant first.
pub fn push_u32_be(out: &mut Vec<u8>, v: u32)
    ensures
        final(out)@ == old(out)@ + bytes_u32_be(v),
{
    out.push((v / 16777216) as u8);
    out.push((v / 65536 % 256) as u8);
    out.push((v / 256 % 256) as u8);
    out.push((v % 256) as u8);
    assert(out@ =~= old(out)@ + bytes_u32_be(v));
}

/// Appends a copy of `bytes` to `out`.
pub fn push_all(out: &mut Vec<u8>, bytes: &[u8])
    ensures
        final(out)@ == old(out)@ + bytes@,
{
    let mut i: usize = 0;
    while i < bytes.len()
        invariant
            i <= bytes@.len(),
            out@ == old(out)@ + bytes@.subrange(0, i as int),
        decreases bytes@.len() - i,
    {
        out.push(bytes[i]);
        i += 1;
        assert(out@ =~= old(out)@ + bytes@.subrange(0, i as int));
    }
    assert(bytes@.subrange(0, i as int) =~= bytes@);
}

/// Reading back the bytes that were written for `v` gives `v`.
pub proof fn read_after_write_u16(v: u16)
    ensures
        u16_le(bytes_u16_le(v), 0) == v,
        u16_be(bytes_u16_be(v), 0) == v,
{
}

/// Reading back the bytes that were written for `v` gives `v`.
pub proof fn read_after_write_u32(v: u32)
    ensures
        u32_le(bytes_u32_le(v), 0) == v,
        u32_be(bytes_u32_be(v), 0) == v,
{
}

/// Writing the value read at `at` gives the bytes that stand there.
pub proof fn write_after_read_u16(s: Seq<u8>, at: int)
    requires
        0 <= at,
        at + 2 <= s.len(),
    ensures
        bytes_u16_le(u16_le(s, at)) == s.subrange(at, at + 2),
        bytes_u16_be(u16_be(s, at)) == s.subrange(at, at + 2),
{
    assert(bytes_u16_le(u16_le(s, at)) =~= s.subrange(at, at + 2));
    assert(bytes_u16_be(u16_be(s, at)) =~= s.subrange(at, at + 2));
}

/// Writing the value read at `at` gives the bytes that stand there.
pub proof fn write_after_read_u32(s: Seq<u8>, at: int)
    requires
        0 <= at,
        at + 4 <= s.len(),
    ensures
        bytes_u32_le(u32_le(s, at)) == s.subrange(at, at + 4),
        bytes_u32_be(u32_be(s, at)) == s.subrange(at, at + 4),
{
    digits_of_sum(s[at], s[at + 1], s[at + 2], s[at + 3]);
    digits_of_sum(s[at + 3], s[at + 2], s[at + 1], s[at]);
    assert(bytes_u32_le(u32_le(s, at)) =~= s.subrange(at, at + 4));
    assert(bytes_u32_be(u32_be(s, at)) =~= s.subrange(at, at + 4));
}

/// The base-256 digits of `a + 256 b + 65536 c + 16777216 d` are `a`, `b`,
/// `c` and `d`.
proof fn digits_of_sum(a: u8, b: u8, c: u8, d: u8)
    ensures
        ({
            let v = a + 256 * b + 65536 * c + 16777216 * d;
            &&& 0 <= v <= u32::MAX
            &&& v % 256 == a
            &&& v / 256 % 256 == b
            &&& v / 65536 % 256 == c
            &&& v / 16777216 == d
        }),
{
    let v = a + 256 * b + 65536 * c + 16777216 * d;
    let v1 = b + 256 * c + 65536 * d;
    let v2 = c + 256 * d;
    assert(v == a + 256 * v1);
    assert(v / 256 == v1 && v % 256 == a);
    assert(v1 == b + 256 * v2);
    assert(v1 / 256 == v2 && v1 % 256 == b);
    assert(v2 / 256 == d && v2 % 256 == c);
    assert(v / 65536 == v2) by {
        assert(v == (a + 256 * b) + 65536 * v2);
    }
    assert(v / 16777216 == d) by {
        assert(v == (a + 256 * b + 65536 * c) + 16777216 * d);
    }
}

} // verus!
