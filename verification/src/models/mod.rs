//! Basic data types shared by the codecs and the filters.

pub mod colors;
pub mod image_type;
pub mod pixel;

pub use colors::Colors;
pub use image_type::ImageType;
pub use pixel::{
    format_hex, from_hex_accepts_exactly, from_hex_inverts_to_hex, hex_digit, hex_pair, hex_value,
    invert_is_involution, is_lower_hex, parse_hex, to_hex_inverts_from_hex, Pixel,
};
