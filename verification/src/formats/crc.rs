//! The checksum of PNG chunks, computed by the `crc32fast` crate.

use vstd::prelude::*;

verus! {

/// The CRC-32 checksum (IEEE) of `bytes`, as the `crc32fast` crate computes
/// it.
pub uninterp spec fn crc32_of(bytes: Seq<u8>) -> u32;

/// Calls `crc32fast::hash`, which computes the CRC-32 checksum of a byte
/// slice. The result is a function of the bytes alone; the contract gives it
/// its name and claims nothing else.
#[verifier::external_body]
pub(crate) fn crc32(bytes: &[u8]) -> (res: u32)
    ensures
        res == crc32_of(bytes@),
{
    crc32fast::hash(bytes)
}

} // verus!
