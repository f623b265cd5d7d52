//! Encoding and decoding of documents in the BSON binary format, with a JSON
//! projection of the same document model.

pub mod base64;
pub mod decimal;
pub mod deser;
pub mod endian;
pub mod laws;
pub mod ser;
pub mod text;
pub mod types;
pub mod wire;

pub use deser::{from_bytes, Decoder, DecoderConfig};
pub use ser::{
    to_bytes, to_bytes_with, to_json, BsonSerializer, ByteWriter, EncoderConfig, JsonPiece,
    JsonSerializer, SerializeError, Serializer,
};
pub use types::{Array, Document, ObjectId, Timestamp, UTCDateTime, Value};
