//! Animated GIF encoding from raw RGBA frames.
//!
//! A frame is a flat, row-major buffer of four bytes per pixel. For each frame
//! the library builds a palette of at most 256 colours, maps every pixel to a
//! palette slot, and hands palette and indices to the `gif` encoder. Palette
//! construction, pixel indexing, input validation and the order of the
//! assembled stream are verified. The calls into the outside crates are
//! stated, unproved, in [`codec`], [`quantize`] and [`data_url`]; [`error`]
//! holds the one call that reads the text of an I/O error.

pub mod assembler;
pub mod codec;
pub mod color;
pub mod data_url;
pub mod encode;
pub mod error;
pub mod indexer;
pub mod palette;
pub mod quantize;
pub mod stats;

pub use crate::encode::create_gif;
pub use crate::error::GifCreationError;
