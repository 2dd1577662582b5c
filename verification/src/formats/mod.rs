//! The container formats: what every decoded image offers, and the codecs
//! for BMP, PNG and PPM.

pub mod bmp;
pub mod crc;
pub mod decimal;
pub mod format;
pub mod png;
pub mod png_round_trip;
pub mod png_write;
pub mod ppm;
pub mod scanline;
pub mod wire;
pub mod zlib;

pub use format::{
    pack_rgb, rgb_bytes, rgb_pixels, unpack_after_pack, unpack_rgb, Grid, ImageFormat,
};
