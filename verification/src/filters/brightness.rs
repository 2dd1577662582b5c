//! Brightening: a fixed amount added to every channel.

use vstd::prelude::*;
use super::filter::{pointwise, sweep, ImageFilter, PixelMap};
use crate::formats::{Grid, ImageFormat};
use crate::models::Pixel;

verus! {

/// Raises the brightness of every pixel.
pub struct Brightness {
    intensity: u8,
}

/// `channel + amount`, held at 255.
pub open spec fn raised(channel: u8, amount: u8) -> u8 {
    if channel + amount > 255 {
        255u8
    } else {
        (channel + amount) as u8
    }
}

/// The pixel with `amount` added to every channel, each held at 255.
pub open spec fn brightened(p: Pixel, amount: u8) -> Pixel {
    Pixel { r: raised(p.r, amount), g: raised(p.g, amount), b: raised(p.b, amount) }
}

impl Brightness {
    /// The amount that the filter adds to every channel.
    pub closed spec fn amount(&self) -> u8 {
        self.intensity
    }

    /// A filter that adds `intensity` to every channel.
    pub fn new(intensity: u8) -> (res: Brightness)
        ensures
            res.amount() == intensity,
    {
        Brightness { intensity }
    }
}

fn raise(channel: u8, amount: u8) -> (res: u8)
    ensures
        res == raised(channel, amount),
{
    if channel > 255 - amount {
        255
    } else {
        channel + amount
    }
}

impl PixelMap for Brightness {
    open spec fn image_of(&self, p: Pixel) -> Pixel {
        brightened(p, self.amount())
    }

    fn map(&self, p: &Pixel) -> (res: Pixel) {
        Pixel {
            r: raise(p.r, self.intensity),
            g: raise(p.g, self.intensity),
            b: raise(p.b, self.intensity),
        }
    }
}

impl ImageFilter for Brightness {
    open spec fn specified(&self) -> bool {
        true
    }

    open spec fn result(&self, g: Grid, ceiling: u8) -> Grid {
        pointwise(self, g, ceiling)
    }

    fn apply<S: ImageFormat>(&self, img: &mut S) {
        sweep(self, img)
    }
}

} // verus!
