//! Helpers shared by the codecs.

pub mod text;
