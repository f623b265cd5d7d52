//! The value model: values, documents, arrays, identifiers and times.

pub mod array;
pub mod display;
pub mod document;
pub mod object_id;
pub mod time;
pub mod value;

pub use array::Array;
pub use document::Document;
pub use object_id::ObjectId;
pub use time::{Timestamp, UTCDateTime};
pub use value::{DocumentView, Value, ValueView};
