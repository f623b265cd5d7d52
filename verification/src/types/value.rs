//! The closed sum of values that a document can hold.

use crate::ser::error::SerializeError;
use crate::ser::traits::{Call, Serializer};
use crate::types::array::Array;
use crate::types::document::Document;
use crate::types::object_id::ObjectId;
use crate::types::time::{Timestamp, UTCDateTime};
use vstd::prelude::*;

verus! {

/// A value of the document model.
///
/// A double is held by its IEEE-754 bit pattern, so that every payload,
/// a NaN with its sign and payload bits too, is kept as it is.
#[derive(Debug, PartialEq)]
pub enum Value {
    /// A 64-bit float, by its bit pattern.
    Double(u64),
    /// UTF-8 text.
    String(String),
    /// A nested document.
    Document(Document),
    /// An ordered sequence of values.
    Array(Array),
    /// Raw bytes with their subtype.
    Binary { subtype: u8, bytes: Vec<u8> },
    /// The deprecated undefined value.
    Undefined,
    /// An object identifier.
    ObjectId(ObjectId),
    /// A truth value.
    Boolean(bool),
    /// Milliseconds since the epoch.
    UTCDateTime(i64),
    /// The null value.
    Null,
    /// A regular expression with its options.
    RegularExpression { pattern: String, options: String },
    /// The deprecated pointer into a collection.
    DBPointer { collection: String, id: ObjectId },
    /// JavaScript code.
    JavaScriptCode(String),
    /// The deprecated symbol.
    Symbol(String),
    /// The deprecated JavaScript code with the scope it runs in.
    JavaScriptCodeWithScope { code: String, scope: Document },
    /// A signed 32-bit integer.
    Int32(i32),
    /// An increment and a time in one 64-bit pattern.
    Timestamp(i64),
    /// A signed 64-bit integer.
    Int64(i64),
    /// An unsigned 64-bit integer.
    UInt64(u64),
    /// The key that sorts before every other.
    MinKey,
    /// The key that sorts after every other.
    MaxKey,
}

/// The mathematical value of a [`Value`].
pub enum ValueView {
    Double(u64),
    String(Seq<char>),
    Document(Seq<(Seq<char>, ValueView)>),
    Array(Seq<ValueView>),
    Binary { subtype: u8, bytes: Seq<u8> },
    Undefined,
    ObjectId(Seq<u8>),
    Boolean(bool),
    UTCDateTime(i64),
    Null,
    RegularExpression { pattern: Seq<char>, options: Seq<char> },
    DBPointer { collection: Seq<char>, id: Seq<u8> },
    JavaScriptCode(Seq<char>),
    Symbol(Seq<char>),
    JavaScriptCodeWithScope { code: Seq<char>, scope: Seq<(Seq<char>, ValueView)> },
    Int32(i32),
    Timestamp(i64),
    Int64(i64),
    UInt64(u64),
    MinKey,
    MaxKey,
}

/// The mathematical value of a document: its fields in order, each a name
/// and a value.
pub type DocumentView = Seq<(Seq<char>, ValueView)>;

impl View for Value {
    type V = ValueView;

    open spec fn view(&self) -> ValueView
        decreases self,
    {
        match self {
            Value::Double(bits) => ValueView::Double(*bits),
            Value::String(s) => ValueView::String(s@),
            Value::Document(d) => ValueView::Document(d@),
            Value::Array(a) => ValueView::Array(a@),
            Value::Binary { subtype, bytes } => ValueView::Binary { subtype: *subtype, bytes: bytes@ },
            Value::Undefined => ValueView::Undefined,
            Value::ObjectId(id) => ValueView::ObjectId(id@),
            Value::Boolean(b) => ValueView::Boolean(*b),
            Value::UTCDateTime(t) => ValueView::UTCDateTime(*t),
            Value::Null => ValueView::Null,
            Value::RegularExpression { pattern, options } => ValueView::RegularExpression {
                pattern: pattern@,
                options: options@,
            },
            Value::DBPointer { collection, id } => ValueView::DBPointer { collection: collection@, id: id@ },
            Value::JavaScriptCode(code) => ValueView::JavaScriptCode(code@),
            Value::Symbol(s) => ValueView::Symbol(s@),
            Value::JavaScriptCodeWithScope { code, scope } => ValueView::JavaScriptCodeWithScope {
                code: code@,
                scope: scope@,
            },
            Value::Int32(v) => ValueView::Int32(*v),
            Value::Timestamp(t) => ValueView::Timestamp(*t),
            Value::Int64(v) => ValueView::Int64(*v),
            Value::UInt64(v) => ValueView::UInt64(*v),
            Value::MinKey => ValueView::MinKey,
            Value::MaxKey => ValueView::MaxKey,
        }
    }
}

impl Value {
    /// Hands the value to the method of `serializer` that is meant for its
    /// kind.
    pub fn serialize<S: Serializer>(&self, serializer: &mut S) -> (r: Result<(), SerializeError>)
        ensures
            S::emitted(*old(serializer), Call::Value(self@), *final(serializer), r),
    {
        match self {
            Value::Double(value) => serializer.serialize_f64(*value),
            Value::String(value) => serializer.serialize_string(value.as_str()),
            Value::Document(value) => serializer.serialize_document(value),
            Value::Array(value) => serializer.serialize_array(value),
            Value::Binary { subtype, bytes } => serializer.serialize_binary(*subtype, bytes.as_slice()),
            Value::Undefined => serializer.serialize_undefined(),
            Value::ObjectId(value) => serializer.serialize_object_id(*value),
            Value::Boolean(value) => serializer.serialize_boolean(*value),
            Value::UTCDateTime(value) => serializer.serialize_utc_datetime(*value),
            Value::Null => serializer.serialize_null(),
            Value::RegularExpression { pattern, options } => serializer.serialize_regex(
                pattern.as_str(),
                options.as_str(),
            ),
            Value::DBPointer { collection, id } => serializer.serialize_db_pointer(
                collection.as_str(),
                *id,
            ),
            Value::JavaScriptCode(value) => serializer.serialize_javascript_code(value.as_str()),
            Value::Symbol(value) => serializer.serialize_symbol(value.as_str()),
            Value::JavaScriptCodeWithScope { code, scope } => serializer.serialize_javascript_code_with_scope(
                code.as_str(),
                scope,
            ),
            Value::Int32(value) => serializer.serialize_i32(*value),
            Value::Timestamp(value) => serializer.serialize_timestamp(*value),
            Value::Int64(value) => serializer.serialize_i64(*value),
            Value::UInt64(value) => serializer.serialize_u64(*value),
            Value::MinKey => serializer.serialize_min_key(),
            Value::MaxKey => serializer.serialize_max_key(),
        }
    }

    /// The bit pattern of the double, where the value is one.
    pub fn as_f64(&self) -> (r: Option<u64>)
        ensures
            r == (match self@ {
                ValueView::Double(bits) => Some(bits),
                _ => None,
            }),
    {
        match self {
            Value::Double(bits) => Some(*bits),
            _ => None,
        }
    }

    /// The text, where the value is a string.
    pub fn as_str(&self) -> (r: Option<&str>)
        ensures
            match self@ {
                ValueView::String(s) => r matches Some(t) && t@ == s,
                _ => r is None,
            },
    {
        match self {
            Value::String(s) => Some(s.as_str()),
            _ => None,
        }
    }

    /// The number, where the value is a 32-bit integer.
    pub fn as_i32(&self) -> (r: Option<i32>)
        ensures
            r == (match self@ {
                ValueView::Int32(v) => Some(v),
                _ => None,
            }),
    {
        match self {
            Value::Int32(v) => Some(*v),
            _ => None,
        }
    }

    /// The number, where the value is a 64-bit integer.
    pub fn as_i64(&self) -> (r: Option<i64>)
        ensures
            r == (match self@ {
                ValueView::Int64(v) => Some(v),
                _ => None,
            }),
    {
        match self {
            Value::Int64(v) => Some(*v),
            _ => None,
        }
    }

    /// The document, where the value is one.
    pub fn as_document(&self) -> (r: Option<&Document>)
        ensures
            match self@ {
                ValueView::Document(d) => r matches Some(doc) && doc@ == d,
                _ => r is None,
            },
    {
        match self {
            Value::Document(d) => Some(d),
            _ => None,
        }
    }

    /// The array, where the value is one.
    pub fn as_array(&self) -> (r: Option<&Array>)
        ensures
            match self@ {
                ValueView::Array(a) => r matches Some(array) && array@ == a,
                _ => r is None,
            },
    {
        match self {
            Value::Array(a) => Some(a),
            _ => None,
        }
    }

    /// A copy of the value with everything it holds.
    pub fn deep_clone(&self) -> (copy: Value)
        ensures
            copy@ == self@,
        decreases self,
    {
        match self {
            Value::Double(bits) => Value::Double(*bits),
            Value::String(s) => Value::String(s.clone()),
            Value::Document(d) => Value::Document(d.deep_clone()),
            Value::Array(a) => Value::Array(a.deep_clone()),
            Value::Binary { subtype, bytes } => Value::Binary { subtype: *subtype, bytes: bytes.clone() },
            Value::Undefined => Value::Undefined,
            Value::ObjectId(id) => Value::ObjectId(*id),
            Value::Boolean(b) => Value::Boolean(*b),
            Value::UTCDateTime(t) => Value::UTCDateTime(*t),
            Value::Null => Value::Null,
            Value::RegularExpression { pattern, options } => Value::RegularExpression {
                pattern: pattern.clone(),
                options: options.clone(),
            },
            Value::DBPointer { collection, id } => Value::DBPointer { collection: collection.clone(), id: *id },
            Value::JavaScriptCode(code) => Value::JavaScriptCode(code.clone()),
            Value::Symbol(s) => Value::Symbol(s.clone()),
            Value::JavaScriptCodeWithScope { code, scope } => Value::JavaScriptCodeWithScope {
                code: code.clone(),
                scope: scope.deep_clone(),
            },
            Value::Int32(v) => Value::Int32(*v),
            Value::Timestamp(t) => Value::Timestamp(*t),
            Value::Int64(v) => Value::Int64(*v),
            Value::UInt64(v) => Value::UInt64(*v),
            Value::MinKey => Value::MinKey,
            Value::MaxKey => Value::MaxKey,
        }
    }
}

impl Value {
    /// The view of a value is well-formed: its object identifiers have
    /// twelve bytes.
    pub proof fn lemma_well_formed(&self)
        ensures
            crate::wire::well_formed(self@),
        decreases self, 0int,
    {
        match self {
            Value::ObjectId(id) => {
                id.lemma_len();
            },
            Value::DBPointer { collection, id } => {
                id.lemma_len();
            },
            Value::Document(d) => {
                d.lemma_well_formed();
            },
            Value::Array(a) => {
                a.lemma_well_formed();
            },
            Value::JavaScriptCodeWithScope { code, scope } => {
                scope.lemma_well_formed();
            },
            _ => {},
        }
    }
}

impl Clone for Value {
    fn clone(&self) -> (copy: Value)
        ensures
            copy@ == self@,
    {
        self.deep_clone()
    }
}

impl From<i32> for Value {
    fn from(v: i32) -> (value: Value)
        ensures
            value@ == ValueView::Int32(v),
    {
        Value::Int32(v)
    }
}

impl vstd::std_specs::convert::FromSpecImpl<i32> for Value {
    open spec fn obeys_from_spec() -> bool {
        false
    }

    open spec fn from_spec(v: i32) -> Value {
        arbitrary()
    }
}

impl From<i64> for Value {
    fn from(v: i64) -> (value: Value)
        ensures
            value@ == ValueView::Int64(v),
    {
        Value::Int64(v)
    }
}

impl vstd::std_specs::convert::FromSpecImpl<i64> for Value {
    open spec fn obeys_from_spec() -> bool {
        false
    }

    open spec fn from_spec(v: i64) -> Value {
        arbitrary()
    }
}

impl From<u64> for Value {
    fn from(v: u64) -> (value: Value)
        ensures
            value@ == ValueView::UInt64(v),
    {
        Value::UInt64(v)
    }
}

impl vstd::std_specs::convert::FromSpecImpl<u64> for Value {
    open spec fn obeys_from_spec() -> bool {
        false
    }

    open spec fn from_spec(v: u64) -> Value {
        arbitrary()
    }
}

impl From<bool> for Value {
    fn from(v: bool) -> (value: Value)
        ensures
            value@ == ValueView::Boolean(v),
    {
        Value::Boolean(v)
    }
}

impl vstd::std_specs::convert::FromSpecImpl<bool> for Value {
    open spec fn obeys_from_spec() -> bool {
        false
    }

    open spec fn from_spec(v: bool) -> Value {
        arbitrary()
    }
}

impl From<String> for Value {
    fn from(v: String) -> (value: Value)
        ensures
            value@ == ValueView::String(v@),
    {
        Value::String(v)
    }
}

impl vstd::std_specs::convert::FromSpecImpl<String> for Value {
    open spec fn obeys_from_spec() -> bool {
        false
    }

    open spec fn from_spec(v: String) -> Value {
        arbitrary()
    }
}

impl From<&str> for Value {
    fn from(v: &str) -> (value: Value)
        ensures
            value@ == ValueView::String(v@),
    {
        Value::String(v.to_owned())
    }
}

impl vstd::std_specs::convert::FromSpecImpl<&str> for Value {
    open spec fn obeys_from_spec() -> bool {
        false
    }

    open spec fn from_spec(v: &str) -> Value {
        arbitrary()
    }
}

impl From<ObjectId> for Value {
    fn from(v: ObjectId) -> (value: Value)
        ensures
            value@ == ValueView::ObjectId(v@),
    {
        Value::ObjectId(v)
    }
}

impl vstd::std_specs::convert::FromSpecImpl<ObjectId> for Value {
    open spec fn obeys_from_spec() -> bool {
        false
    }

    open spec fn from_spec(v: ObjectId) -> Value {
        arbitrary()
    }
}

impl From<Document> for Value {
    fn from(v: Document) -> (value: Value)
        ensures
            value@ == ValueView::Document(v@),
    {
        Value::Document(v)
    }
}

impl vstd::std_specs::convert::FromSpecImpl<Document> for Value {
    open spec fn obeys_from_spec() -> bool {
        false
    }

    open spec fn from_spec(v: Document) -> Value {
        arbitrary()
    }
}

impl From<Array> for Value {
    fn from(v: Array) -> (value: Value)
        ensures
            value@ == ValueView::Array(v@),
    {
        Value::Array(v)
    }
}

impl vstd::std_specs::convert::FromSpecImpl<Array> for Value {
    open spec fn obeys_from_spec() -> bool {
        false
    }

    open spec fn from_spec(v: Array) -> Value {
        arbitrary()
    }
}

impl From<Vec<u8>> for Value {
    fn from(v: Vec<u8>) -> (value: Value)
        ensures
            value@ == (ValueView::Binary { subtype: 0, bytes: v@ }),
    {
        Value::Binary { subtype: 0, bytes: v }
    }
}

impl vstd::std_specs::convert::FromSpecImpl<Vec<u8>> for Value {
    open spec fn obeys_from_spec() -> bool {
        false
    }

    open spec fn from_spec(v: Vec<u8>) -> Value {
        arbitrary()
    }
}

impl From<UTCDateTime> for Value {
    fn from(v: UTCDateTime) -> (value: Value)
        ensures
            value@ == ValueView::UTCDateTime(v@),
    {
        Value::UTCDateTime(v.as_secs())
    }
}

impl vstd::std_specs::convert::FromSpecImpl<UTCDateTime> for Value {
    open spec fn obeys_from_spec() -> bool {
        false
    }

    open spec fn from_spec(v: UTCDateTime) -> Value {
        arbitrary()
    }
}

impl From<Timestamp> for Value {
    fn from(v: Timestamp) -> (value: Value)
        ensures
            value@ == ValueView::Timestamp(v@),
    {
        Value::Timestamp(v.as_secs())
    }
}

impl vstd::std_specs::convert::FromSpecImpl<Timestamp> for Value {
    open spec fn obeys_from_spec() -> bool {
        false
    }

    open spec fn from_spec(v: Timestamp) -> Value {
        arbitrary()
    }
}

impl Value {
    /// The double with the given bit pattern.
    pub fn from_f64_bits(bits: u64) -> (value: Value)
        ensures
            value@ == ValueView::Double(bits),
    {
        Value::Double(bits)
    }
}

} // verus!
