//! The containers that the library decodes.

use vstd::prelude::*;

verus! {

/// The container formats that the library can decode.
#[derive(Debug, Clone, Copy, PartialEq, Eq, Structural)]
pub enum ImageType {
    Bmp,
    Png,
    Ppm,
}

} // verus!
