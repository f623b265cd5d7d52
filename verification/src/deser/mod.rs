//! The decoder: from bytes to the value model.

pub mod complete;
pub mod decoder;
pub mod grammar;
pub mod lemmas;
pub mod sound;

pub use decoder::{from_bytes, Decoder};
pub use grammar::DecoderConfig;
