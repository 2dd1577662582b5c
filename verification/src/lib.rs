//! Image manipulation library: byte-exact codecs for BMP, PNG and PPM
//! containers, and a family of pixel filters that work on any decoded image.

pub mod filters;
pub mod formats;
pub mod image;
pub mod models;
pub mod utils;

pub use image::Image;
