//! The visitor through which a value is projected: one method for each kind
//! of value, and three helpers that frame a document.

use crate::ser::error::SerializeError;
use crate::types::array::Array;
use crate::types::document::Document;
use crate::types::object_id::ObjectId;
use crate::types::value::ValueView;
use vstd::prelude::*;

verus! {

/// What a serializer was asked to do by one call.
pub enum Call {
    /// One of the methods for a kind of value, with the value it was given.
    Value(ValueView),
    /// `serialize_field_name`, with the name.
    FieldName(Seq<char>),
    /// `start_document`.
    StartDocument,
    /// `end_document`.
    EndDocument,
}

/// A serializer of values.
///
/// `emitted` says, for each serializer in its own terms, what a call does:
/// it relates the serializer before the call, the call, the serializer after
/// it and the result. Every method promises `emitted` for its own call.
pub trait Serializer: Sized {
    /// Whether `post` and `r` are what `call` makes of `pre`.
    spec fn emitted(pre: Self, call: Call, post: Self, r: Result<(), SerializeError>) -> bool;

    /// Serializes a 64-bit float, given by its bit pattern. Tag 0x01.
    fn serialize_f64(&mut self, value: u64) -> (r: Result<(), SerializeError>)
        ensures
            Self::emitted(*old(self), Call::Value(ValueView::Double(value)), *final(self), r),
    ;

    /// Serializes a string. Tag 0x02.
    fn serialize_string(&mut self, value: &str) -> (r: Result<(), SerializeError>)
        ensures
            Self::emitted(*old(self), Call::Value(ValueView::String(value@)), *final(self), r),
    ;

    /// Serializes a document. Tag 0x03.
    fn serialize_document(&mut self, value: &Document) -> (r: Result<(), SerializeError>)
        ensures
            Self::emitted(*old(self), Call::Value(ValueView::Document(value@)), *final(self), r),
    ;

    /// Serializes an array. Tag 0x04.
    fn serialize_array(&mut self, value: &Array) -> (r: Result<(), SerializeError>)
        ensures
            Self::emitted(*old(self), Call::Value(ValueView::Array(value@)), *final(self), r),
    ;

    /// Serializes binary data with its subtype. Tag 0x05.
    fn serialize_binary(&mut self, subtype: u8, value: &[u8]) -> (r: Result<(), SerializeError>)
        ensures
            Self::emitted(
                *old(self),
                Call::Value(ValueView::Binary { subtype, bytes: value@ }),
                *final(self),
                r,
            ),
    ;

    /// Serializes the deprecated undefined value. Tag 0x06.
    fn serialize_undefined(&mut self) -> (r: Result<(), SerializeError>)
        ensures
            Self::emitted(*old(self), Call::Value(ValueView::Undefined), *final(self), r),
    ;

    /// Serializes an object identifier. Tag 0x07.
    fn serialize_object_id(&mut self, value: ObjectId) -> (r: Result<(), SerializeError>)
        ensures
            Self::emitted(*old(self), Call::Value(ValueView::ObjectId(value@)), *final(self), r),
    ;

    /// Serializes a truth value. Tag 0x08.
    fn serialize_boolean(&mut self, value: bool) -> (r: Result<(), SerializeError>)
        ensures
            Self::emitted(*old(self), Call::Value(ValueView::Boolean(value)), *final(self), r),
    ;

    /// Serializes a UTC date-time. Tag 0x09.
    fn serialize_utc_datetime(&mut self, value: i64) -> (r: Result<(), SerializeError>)
        ensures
            Self::emitted(*old(self), Call::Value(ValueView::UTCDateTime(value)), *final(self), r),
    ;

    /// Serializes the null value. Tag 0x0A.
    fn serialize_null(&mut self) -> (r: Result<(), SerializeError>)
        ensures
            Self::emitted(*old(self), Call::Value(ValueView::Null), *final(self), r),
    ;

    /// Serializes a regular expression. Tag 0x0B.
    fn serialize_regex(&mut self, pattern: &str, options: &str) -> (r: Result<(), SerializeError>)
        ensures
            Self::emitted(
                *old(self),
                Call::Value(ValueView::RegularExpression { pattern: pattern@, options: options@ }),
                *final(self),
                r,
            ),
    ;

    /// Serializes the deprecated pointer into a collection. Tag 0x0C.
    fn serialize_db_pointer(&mut self, collection: &str, id: ObjectId) -> (r: Result<
        (),
        SerializeError,
    >)
        ensures
            Self::emitted(
                *old(self),
                Call::Value(ValueView::DBPointer { collection: collection@, id: id@ }),
                *final(self),
                r,
            ),
    ;

    /// Serializes JavaScript code. Tag 0x0D.
    fn serialize_javascript_code(&mut self, code: &str) -> (r: Result<(), SerializeError>)
        ensures
            Self::emitted(*old(self), Call::Value(ValueView::JavaScriptCode(code@)), *final(self), r),
    ;

    /// Serializes the deprecated symbol. Tag 0x0E.
    fn serialize_symbol(&mut self, symbol: &str) -> (r: Result<(), SerializeError>)
        ensures
            Self::emitted(*old(self), Call::Value(ValueView::Symbol(symbol@)), *final(self), r),
    ;

    /// Serializes the deprecated JavaScript code with its scope. Tag 0x0F.
    fn serialize_javascript_code_with_scope(&mut self, code: &str, scope: &Document) -> (r: Result<
        (),
        SerializeError,
    >)
        ensures
            Self::emitted(
                *old(self),
                Call::Value(ValueView::JavaScriptCodeWithScope { code: code@, scope: scope@ }),
                *final(self),
                r,
            ),
    ;

    /// Serializes a signed 32-bit integer. Tag 0x10.
    fn serialize_i32(&mut self, value: i32) -> (r: Result<(), SerializeError>)
        ensures
            Self::emitted(*old(self), Call::Value(ValueView::Int32(value)), *final(self), r),
    ;

    /// Serializes a timestamp. Tag 0x11.
    fn serialize_timestamp(&mut self, value: i64) -> (r: Result<(), SerializeError>)
        ensures
            Self::emitted(*old(self), Call::Value(ValueView::Timestamp(value)), *final(self), r),
    ;

    /// Serializes a signed 64-bit integer. Tag 0x12.
    fn serialize_i64(&mut self, value: i64) -> (r: Result<(), SerializeError>)
        ensures
            Self::emitted(*old(self), Call::Value(ValueView::Int64(value)), *final(self), r),
    ;

    /// Serializes an unsigned 64-bit integer. Tag 0x13.
    fn serialize_u64(&mut self, value: u64) -> (r: Result<(), SerializeError>)
        ensures
            Self::emitted(*old(self), Call::Value(ValueView::UInt64(value)), *final(self), r),
    ;

    /// Serializes the minimum key. Tag 0xFF.
    fn serialize_min_key(&mut self) -> (r: Result<(), SerializeError>)
        ensures
            Self::emitted(*old(self), Call::Value(ValueView::MinKey), *final(self), r),
    ;

    /// Serializes the maximum key. Tag 0x7F.
    fn serialize_max_key(&mut self) -> (r: Result<(), SerializeError>)
        ensures
            Self::emitted(*old(self), Call::Value(ValueView::MaxKey), *final(self), r),
    ;

    /// Opens a document.
    fn start_document(&mut self) -> (r: Result<(), SerializeError>)
        ensures
            Self::emitted(*old(self), Call::StartDocument, *final(self), r),
    ;

    /// Closes the document that was opened last.
    fn end_document(&mut self) -> (r: Result<(), SerializeError>)
        ensures
            Self::emitted(*old(self), Call::EndDocument, *final(self), r),
    ;

    /// Serializes the name of the field whose value comes next.
    fn serialize_field_name(&mut self, name: &str) -> (r: Result<(), SerializeError>)
        ensures
            Self::emitted(*old(self), Call::FieldName(name@), *final(self), r),
    ;
}

} // verus!
