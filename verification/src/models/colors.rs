//! Named colours.

use vstd::prelude::*;
use super::pixel::Pixel;

verus! {

/// Named colours.
pub struct Colors;

impl Colors {
    /// Pure white: every channel at 255.
    pub open spec fn spec_white() -> Pixel {
        Pixel { r: 255, g: 255, b: 255 }
    }

    /// Pure black: every channel at 0.
    pub open spec fn spec_black() -> Pixel {
        Pixel { r: 0, g: 0, b: 0 }
    }

    /// Pure white.
    #[verifier::when_used_as_spec(spec_white)]
    pub fn white() -> (res: Pixel)
        ensures
            res == Self::spec_white(),
    {
        Pixel { r: 255, g: 255, b: 255 }
    }

    /// Pure black.
    #[verifier::when_used_as_spec(spec_black)]
    pub fn black() -> (res: Pixel)
        ensures
            res == Self::spec_black(),
    {
        Pixel { r: 0, g: 0, b: 0 }
    }
}

} // verus!
