//! Serializers over the value model and what they report.

pub mod bson;
pub mod deprecated;
pub mod error;
pub mod json;
pub mod traits;
pub mod writer;

pub use bson::{to_bytes, to_bytes_with, BsonSerializer, BsonState, EncoderConfig};
pub use error::{ErrorView, SerializeError};
pub use json::{to_json, JsonAtom, JsonPiece, JsonSerializer, JsonState};
pub use traits::{Call, Serializer};
pub use writer::ByteWriter;
