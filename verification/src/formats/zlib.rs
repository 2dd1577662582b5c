//! Compression and decompression of PNG picture data, done by the `flate2`
//! crate.

use vstd::prelude::*;
use flate2::read::ZlibDecoder;
use flate2::write::ZlibEncoder;
use flate2::Compression;
use std::io::{Read, Write};

verus! {

/// What the first zlib stream in `stream` decompresses to, as the `flate2`
/// crate reads it, or `None` where `flate2` reports an error.
pub uninterp spec fn zlib_inflated(stream: Seq<u8>) -> Option<Seq<u8>>;

/// The zlib stream that the `flate2` crate writes for `bytes` at its default
/// compression level, or `None` where `flate2` reports an error.
pub uninterp spec fn zlib_deflated(bytes: Seq<u8>) -> Option<Seq<u8>>;

/// Reads `flate2::read::ZlibDecoder` over `stream` to its end. The decoder
/// stops after one zlib stream and fails on a corrupt or incomplete one. The
/// outcome is a function of the bytes alone; the contract gives it its name
/// and claims nothing else.
#[verifier::external_body]
pub(crate) fn inflate(stream: &[u8]) -> (res: Option<Vec<u8>>)
    ensures
        res is Some <==> zlib_inflated(stream@) is Some,
        res matches Some(v) ==> zlib_inflated(stream@) == Some(v@),
{
    let mut out = Vec::new();
    match ZlibDecoder::new(stream).read_to_end(&mut out) {
        Ok(_) => Some(out),
        Err(_) => None,
    }
}

/// Writes `bytes` through `flate2::write::ZlibEncoder` at the default level
/// into a vector and finishes the stream. The outcome is a function of the
/// bytes alone; the contract gives it its name and claims nothing else.
#[verifier::external_body]
pub(crate) fn deflate(bytes: &[u8]) -> (res: Option<Vec<u8>>)
    ensures
        res is Some <==> zlib_deflated(bytes@) is Some,
        res matches Some(v) ==> zlib_deflated(bytes@) == Some(v@),
{
    let mut encoder = ZlibEncoder::new(Vec::new(), Compression::default());
    match encoder.write_all(bytes) {
        Ok(_) => encoder.finish().ok(),
        Err(_) => None,
    }
}

} // verus!
