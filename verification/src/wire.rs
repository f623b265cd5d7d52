//! The BSON wire format, stated over the mathematical values of the model.
//!
//! `payload` gives the bytes of a value, `document_bytes` those of a framed
//! document, and `value_fault` the failure that stops the encoder, taken in
//! the order in which the encoder meets the parts of a value.

use crate::decimal::decimal;
use crate::endian::{le_bytes_i32, le_bytes_i64, le_bytes_u32, le_bytes_u64};
use crate::ser::error::ErrorView;
use crate::types::object_id::hex_text;
use crate::types::value::{DocumentView, ValueView};
use vstd::prelude::*;
use vstd::utf8::encode_utf8;

verus! {

/// The deepest nesting of documents and arrays that is encoded or decoded.
/// A document that stands alone lies at depth 0.
pub const MAX_DEPTH: usize = 100;

/// The largest document that is encoded or decoded where nothing else is
/// configured: 16 MiB.
pub const DEFAULT_MAX_DOCUMENT_BYTES: u32 = 16777216;

/// The largest length that a signed 32-bit length prefix can hold.
pub const MAX_PREFIXED_LEN: usize = 2147483647;

/// The type tag of a value.
pub open spec fn tag_of(v: ValueView) -> u8 {
    match v {
        ValueView::Double(_) => 0x01,
        ValueView::String(_) => 0x02,
        ValueView::Document(_) => 0x03,
        ValueView::Array(_) => 0x04,
        ValueView::Binary { .. } => 0x05,
        ValueView::Undefined => 0x06,
        ValueView::ObjectId(_) => 0x07,
        ValueView::Boolean(_) => 0x08,
        ValueView::UTCDateTime(_) => 0x09,
        ValueView::Null => 0x0A,
        ValueView::RegularExpression { .. } => 0x0B,
        ValueView::DBPointer { .. } => 0x0C,
        ValueView::JavaScriptCode(_) => 0x0D,
        ValueView::Symbol(_) => 0x0E,
        ValueView::JavaScriptCodeWithScope { .. } => 0x0F,
        ValueView::Int32(_) => 0x10,
        ValueView::Timestamp(_) => 0x11,
        ValueView::Int64(_) => 0x12,
        ValueView::UInt64(_) => 0x13,
        ValueView::MinKey => 0xFF,
        ValueView::MaxKey => 0x7F,
    }
}

/// Whether a value is of one of the deprecated kinds.
pub open spec fn is_deprecated(v: ValueView) -> bool {
    v is Undefined || v is DBPointer || v is Symbol || v is JavaScriptCodeWithScope
}

/// Whether the byte 0x00 occurs in `bytes`.
pub open spec fn has_nul(bytes: Seq<u8>) -> bool {
    exists|i: int| 0 <= i < bytes.len() && #[trigger] bytes[i] == 0
}

/// Text as a C string: its UTF-8 bytes and a terminating 0x00.
pub open spec fn cstring(s: Seq<char>) -> Seq<u8> {
    encode_utf8(s).push(0u8)
}

/// Text as a string payload: the signed 32-bit count of the bytes that
/// follow, the UTF-8 bytes, and a terminating 0x00.
pub open spec fn wire_string(s: Seq<char>) -> Seq<u8> {
    le_bytes_i32((encode_utf8(s).len() + 1) as i32) + encode_utf8(s).push(0u8)
}

/// A document body in its frame: the unsigned 32-bit length of the whole
/// frame, the body, and a terminating 0x00.
pub open spec fn frame(body: Seq<u8>) -> Seq<u8> {
    le_bytes_u32((body.len() + 5) as u32) + body.push(0u8)
}

/// One field on the wire: the tag of the value, the name, the payload.
pub open spec fn element(name: Seq<char>, v: ValueView) -> Seq<u8>
    decreases v, 1int,
{
    seq![tag_of(v)] + cstring(name) + payload(v)
}

/// The bytes of a value after its tag and name.
pub open spec fn payload(v: ValueView) -> Seq<u8>
    decreases v, 0int,
{
    match v {
        ValueView::Double(bits) => le_bytes_u64(bits),
        ValueView::String(s) => wire_string(s),
        ValueView::Document(d) => frame(fields_bytes(d)),
        ValueView::Array(a) => frame(items_bytes(a)),
        ValueView::Binary { subtype, bytes } => le_bytes_i32(bytes.len() as i32) + seq![subtype] + bytes,
        ValueView::Undefined => Seq::empty(),
        ValueView::ObjectId(id) => id,
        ValueView::Boolean(b) => seq![if b { 1u8 } else { 0u8 }],
        ValueView::UTCDateTime(t) => le_bytes_i64(t),
        ValueView::Null => Seq::empty(),
        ValueView::RegularExpression { pattern, options } => cstring(pattern) + cstring(options),
        ValueView::DBPointer { collection, id } => wire_string(collection) + id,
        ValueView::JavaScriptCode(code) => wire_string(code),
        ValueView::Symbol(s) => wire_string(s),
        ValueView::JavaScriptCodeWithScope { code, scope } => le_bytes_i32(
            (4 + wire_string(code).len() + frame(fields_bytes(scope)).len()) as i32,
        ) + wire_string(code) + frame(fields_bytes(scope)),
        ValueView::Int32(x) => le_bytes_i32(x),
        ValueView::Timestamp(t) => le_bytes_i64(t),
        ValueView::Int64(x) => le_bytes_i64(x),
        ValueView::UInt64(x) => le_bytes_u64(x),
        ValueView::MinKey => Seq::empty(),
        ValueView::MaxKey => Seq::empty(),
    }
}

/// The fields of a document on the wire, one after the other.
pub open spec fn fields_bytes(d: DocumentView) -> Seq<u8>
    decreases d, 2int,
{
    if d.len() == 0 {
        Seq::empty()
    } else {
        fields_bytes(d.drop_last()) + element(d.last().0, d.last().1)
    }
}

/// The values of an array on the wire: fields named by their index in
/// base 10.
pub open spec fn items_bytes(a: Seq<ValueView>) -> Seq<u8>
    decreases a, 2int,
{
    if a.len() == 0 {
        Seq::empty()
    } else {
        items_bytes(a.drop_last()) + element(decimal((a.len() - 1) as nat), a.last())
    }
}

/// A document on the wire: its fields in their frame.
pub open spec fn document_bytes(d: DocumentView) -> Seq<u8> {
    frame(fields_bytes(d))
}

/// The detail of the failure on a field name that holds a 0x00 byte.
pub open spec fn nul_in_name_text() -> Seq<char> {
    "field name holds a NUL byte"@
}

/// The detail of the failure on text that does not fit a length prefix.
pub open spec fn long_text_text() -> Seq<char> {
    "text is too long for its length prefix"@
}

/// The detail of the failure on binary data that does not fit a length
/// prefix.
pub open spec fn long_binary_text() -> Seq<char> {
    "binary data is too long for its length prefix"@
}

/// The detail of the failure on a regular expression that holds a 0x00 byte.
pub open spec fn nul_in_regex_text() -> Seq<char> {
    "regular expression holds a NUL byte"@
}

/// The detail of the failure on nesting beyond `MAX_DEPTH`.
pub open spec fn deep_nesting_text() -> Seq<char> {
    "documents are nested too deeply"@
}

/// The first ten characters of `code`, and three dots behind them where
/// `code` has more than a hundred characters.
pub open spec fn shortened_code(code: Seq<char>) -> Seq<char> {
    code.take(if code.len() < 10 { code.len() as int } else { 10 }) + (if code.len() > 100 {
        "..."@
    } else {
        Seq::empty()
    })
}

/// The detail of the failure on a deprecated value.
pub open spec fn deprecated_text(v: ValueView) -> Seq<char>
    recommends
        is_deprecated(v),
{
    match v {
        ValueView::DBPointer { collection, id } => "DBPointer is deprecated. Collection: "@ + collection
            + ", ID: "@ + hex_text(id),
        ValueView::Symbol(s) => "Symbol is deprecated. Symbol: "@ + s,
        ValueView::JavaScriptCodeWithScope { code, scope } =>
            "JavaScript code with scope is deprecated. Code: "@ + shortened_code(code) + ", Scope: "@
            + crate::types::display::document_text(scope),
        _ => "Undefined is deprecated."@,
    }
}

/// The failure that stops the encoding of `v`, if any, where `depth`
/// documents are open around it and no document may be longer than `limit`.
pub open spec fn value_fault(v: ValueView, limit: u32, depth: nat) -> Option<ErrorView>
    decreases v, 0int,
{
    match v {
        ValueView::String(s) => text_fault(s),
        ValueView::JavaScriptCode(s) => text_fault(s),
        ValueView::Binary { subtype, bytes } => if bytes.len() > MAX_PREFIXED_LEN {
            Some(ErrorView::InvalidValue(long_binary_text()))
        } else {
            None
        },
        ValueView::RegularExpression { pattern, options } => if has_nul(encode_utf8(pattern))
            || has_nul(encode_utf8(options)) {
            Some(ErrorView::InvalidValue(nul_in_regex_text()))
        } else {
            None
        },
        ValueView::Document(d) => if depth >= MAX_DEPTH {
            Some(ErrorView::InvalidValue(deep_nesting_text()))
        } else {
            match fields_fault(d, limit, depth + 1) {
                Some(e) => Some(e),
                None => size_fault(fields_bytes(d), limit),
            }
        },
        ValueView::Array(a) => if depth >= MAX_DEPTH {
            Some(ErrorView::InvalidValue(deep_nesting_text()))
        } else {
            match items_fault(a, limit, depth + 1) {
                Some(e) => Some(e),
                None => size_fault(items_bytes(a), limit),
            }
        },
        ValueView::Undefined => Some(ErrorView::Deprecated(deprecated_text(v))),
        ValueView::DBPointer { .. } => Some(ErrorView::Deprecated(deprecated_text(v))),
        ValueView::Symbol(_) => Some(ErrorView::Deprecated(deprecated_text(v))),
        ValueView::JavaScriptCodeWithScope { .. } => Some(ErrorView::Deprecated(deprecated_text(v))),
        _ => None,
    }
}

/// The failure on text whose bytes and terminator do not fit a signed
/// 32-bit length prefix.
pub open spec fn text_fault(s: Seq<char>) -> Option<ErrorView> {
    if encode_utf8(s).len() >= MAX_PREFIXED_LEN {
        Some(ErrorView::InvalidValue(long_text_text()))
    } else {
        None
    }
}

/// The failure on a document body whose frame is longer than `limit`.
pub open spec fn size_fault(body: Seq<u8>, limit: u32) -> Option<ErrorView> {
    if body.len() + 5 > limit {
        Some(ErrorView::BufferOverflow)
    } else {
        None
    }
}

/// The failure on a field name that cannot stand as a C string.
pub open spec fn name_fault(name: Seq<char>) -> Option<ErrorView> {
    if has_nul(encode_utf8(name)) {
        Some(ErrorView::InvalidValue(nul_in_name_text()))
    } else {
        None
    }
}

/// The failure that stops the encoding of one field: that of its name, or
/// else that of its value.
pub open spec fn field_fault(name: Seq<char>, v: ValueView, limit: u32, depth: nat) -> Option<ErrorView>
    decreases v, 1int,
{
    match name_fault(name) {
        Some(e) => Some(e),
        None => value_fault(v, limit, depth),
    }
}

/// The failure of the first field that has one.
pub open spec fn fields_fault(d: DocumentView, limit: u32, depth: nat) -> Option<ErrorView>
    decreases d, 2int,
{
    if d.len() == 0 {
        None
    } else {
        match fields_fault(d.drop_last(), limit, depth) {
            Some(e) => Some(e),
            None => field_fault(d.last().0, d.last().1, limit, depth),
        }
    }
}

/// The failure of the first value of an array that has one.
pub open spec fn items_fault(a: Seq<ValueView>, limit: u32, depth: nat) -> Option<ErrorView>
    decreases a, 2int,
{
    if a.len() == 0 {
        None
    } else {
        match items_fault(a.drop_last(), limit, depth) {
            Some(e) => Some(e),
            None => value_fault(a.last(), limit, depth),
        }
    }
}

/// The failure that stops the encoding of a document that stands alone.
pub open spec fn document_fault(d: DocumentView, limit: u32) -> Option<ErrorView> {
    value_fault(ValueView::Document(d), limit, 0)
}

/// Whether `v` is the view of a value: every object identifier in it has
/// twelve bytes.
pub open spec fn well_formed(v: ValueView) -> bool
    decreases v, 0int,
{
    match v {
        ValueView::ObjectId(id) => id.len() == 12,
        ValueView::DBPointer { collection, id } => id.len() == 12,
        ValueView::Document(d) => well_formed_fields(d),
        ValueView::Array(a) => well_formed_items(a),
        ValueView::JavaScriptCodeWithScope { code, scope } => well_formed_fields(scope),
        _ => true,
    }
}

/// Whether `d` is the view of a document.
pub open spec fn well_formed_fields(d: DocumentView) -> bool
    decreases d, 1int,
{
    d.len() > 0 ==> well_formed_fields(d.drop_last()) && well_formed(d.last().1)
}

/// Whether `a` is the view of an array.
pub open spec fn well_formed_items(a: Seq<ValueView>) -> bool
    decreases a, 1int,
{
    a.len() > 0 ==> well_formed_items(a.drop_last()) && well_formed(a.last())
}

/// Every field of the view of a document holds the view of a value.
pub proof fn lemma_well_formed_field(d: DocumentView, k: int)
    requires
        well_formed_fields(d),
        0 <= k < d.len(),
    ensures
        well_formed(d[k].1),
    decreases d.len(),
{
    if k < d.len() - 1 {
        lemma_well_formed_field(d.drop_last(), k);
    }
}

/// Every item of the view of an array is the view of a value.
pub proof fn lemma_well_formed_item(a: Seq<ValueView>, k: int)
    requires
        well_formed_items(a),
        0 <= k < a.len(),
    ensures
        well_formed(a[k]),
    decreases a.len(),
{
    if k < a.len() - 1 {
        lemma_well_formed_item(a.drop_last(), k);
    }
}

/// Fields that all hold views of values make the view of a document.
pub proof fn lemma_well_formed_fields(d: DocumentView)
    requires
        forall|i: int| 0 <= i < d.len() ==> well_formed(#[trigger] d[i].1),
    ensures
        well_formed_fields(d),
    decreases d.len(),
{
    if d.len() > 0 {
        assert forall|i: int| 0 <= i < d.drop_last().len() implies well_formed(
            #[trigger] d.drop_last()[i].1,
        ) by {
            assert(d.drop_last()[i] == d[i]);
        }
        lemma_well_formed_fields(d.drop_last());
    }
}

/// Items that are all views of values make the view of an array.
pub proof fn lemma_well_formed_items(a: Seq<ValueView>)
    requires
        forall|i: int| 0 <= i < a.len() ==> well_formed(#[trigger] a[i]),
    ensures
        well_formed_items(a),
    decreases a.len(),
{
    if a.len() > 0 {
        assert forall|i: int| 0 <= i < a.drop_last().len() implies well_formed(
            #[trigger] a.drop_last()[i],
        ) by {
            assert(a.drop_last()[i] == a[i]);
        }
        lemma_well_formed_items(a.drop_last());
    }
}

} // verus!
