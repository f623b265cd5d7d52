//! What decoding makes of bytes, stated as functions of the bytes.
//!
//! Every function reads `b` from `pos` and never beyond `end`, the end of
//! the enclosing document. It gives what it read with the position behind
//! it, or the failure that stops the decoder.

use crate::decimal::decimal;
use crate::endian::{i32_from_le, i64_from_le, u32_from_le, u64_from_le};
use crate::ser::error::ErrorView;
use crate::types::value::{DocumentView, ValueView};
use crate::wire::MAX_DEPTH;
use vstd::prelude::*;
use vstd::utf8::{decode_utf8, valid_utf8};

verus! {

/// What a decoder is configured with.
#[derive(Debug, Clone, Copy, PartialEq)]
pub struct DecoderConfig {
    /// The largest declared length of a document that is read.
    pub max_document_bytes: u32,
    /// Whether deprecated kinds of values are refused. Where they are not,
    /// they are read into the deprecated variants of the value model.
    pub reject_deprecated: bool,
    /// Whether bytes that are no UTF-8 are refused. Where they are not, what
    /// is no UTF-8 in them is replaced.
    pub strict_utf8: bool,
}

/// What was read, and the position behind it.
pub type Parsed<T> = Result<(T, int), ErrorView>;

/// The text that `String::from_utf8_lossy` makes of bytes.
pub uninterp spec fn lossy_text(bytes: Seq<u8>) -> Seq<char>;

/// The detail of the failure on input that ends too early.
pub open spec fn truncated_text() -> Seq<char> {
    "input ends inside a document"@
}

/// The detail of the failure on a name or string without its terminator.
pub open spec fn unterminated_text() -> Seq<char> {
    "text is not terminated"@
}

/// The detail of the failure on a length that cannot be.
pub open spec fn bad_length_text() -> Seq<char> {
    "declared length is out of range"@
}

/// The detail of the failure on a document without its terminator.
pub open spec fn no_terminator_text() -> Seq<char> {
    "document is not terminated"@
}

/// The detail of the failure on bytes behind the document.
pub open spec fn trailing_text() -> Seq<char> {
    "bytes follow the document"@
}

/// The detail of the failure on bytes that are no UTF-8.
pub open spec fn invalid_utf8_text() -> Seq<char> {
    "bytes are not UTF-8"@
}

/// The detail of the failure on array keys that do not count up from 0.
pub open spec fn array_keys_text() -> Seq<char> {
    "array keys do not count up from 0"@
}

/// The detail of the failure on a truth value that is neither 0 nor 1.
pub open spec fn bad_boolean_text() -> Seq<char> {
    "boolean is neither 0 nor 1"@
}

/// The detail of the failure on nesting beyond `MAX_DEPTH`.
pub open spec fn too_deep_text() -> Seq<char> {
    "documents are nested too deeply"@
}

/// The detail of the failure on a deprecated tag: it names the tag.
pub open spec fn deprecated_tag_text(tag: u8) -> Seq<char> {
    "deprecated element type "@ + decimal(tag as nat)
}

/// The detail of the failure on an unknown tag: it names the tag.
pub open spec fn unknown_tag_text(tag: u8) -> Seq<char> {
    "unknown element type "@ + decimal(tag as nat)
}

/// The failure on input that ends too early.
pub open spec fn truncated() -> ErrorView {
    ErrorView::InvalidDocument(truncated_text())
}

/// The index of the first 0x00 byte of `b` from `from` on and before `end`,
/// or `end` where there is none.
pub open spec fn first_zero(b: Seq<u8>, from: int, end: int) -> int
    decreases end - from,
{
    if from >= end {
        end
    } else if b[from] == 0 {
        from
    } else {
        first_zero(b, from + 1, end)
    }
}

/// The text that bytes stand for: their decoding where they are UTF-8;
/// otherwise a failure where that is asked for, and the text with
/// replacements where it is not.
pub open spec fn text_of(raw: Seq<u8>, strict: bool) -> Result<Seq<char>, ErrorView> {
    if valid_utf8(raw) {
        Ok(decode_utf8(raw))
    } else if strict {
        Err(ErrorView::Utf8(invalid_utf8_text()))
    } else {
        Ok(lossy_text(raw))
    }
}

/// A C string: the bytes up to the next 0x00, as text.
pub open spec fn parse_cstring(b: Seq<u8>, pos: int, end: int, strict: bool) -> Parsed<Seq<char>> {
    let stop = first_zero(b, pos, end);
    if stop >= end {
        Err(ErrorView::InvalidDocument(unterminated_text()))
    } else {
        match text_of(b.subrange(pos, stop), strict) {
            Err(e) => Err(e),
            Ok(text) => Ok((text, stop + 1)),
        }
    }
}

/// A string payload: a positive signed 32-bit count, that many bytes, the
/// last of them 0x00, the others text.
pub open spec fn parse_string(b: Seq<u8>, pos: int, end: int, strict: bool) -> Parsed<Seq<char>> {
    if end - pos < 4 {
        Err(truncated())
    } else {
        let n = i32_from_le(b.subrange(pos, pos + 4));
        if n < 1 {
            Err(ErrorView::InvalidDocument(bad_length_text()))
        } else if end - pos - 4 < n {
            Err(truncated())
        } else if b[pos + 4 + n - 1] != 0 {
            Err(ErrorView::InvalidDocument(unterminated_text()))
        } else {
            match text_of(b.subrange(pos + 4, pos + 4 + n - 1), strict) {
                Err(e) => Err(e),
                Ok(text) => Ok((text, pos + 4 + n)),
            }
        }
    }
}

/// Binary data: a non-negative signed 32-bit count, the subtype, and that
/// many bytes.
pub open spec fn parse_binary(b: Seq<u8>, pos: int, end: int) -> Parsed<ValueView> {
    if end - pos < 5 {
        Err(truncated())
    } else {
        let n = i32_from_le(b.subrange(pos, pos + 4));
        if n < 0 {
            Err(ErrorView::InvalidDocument(bad_length_text()))
        } else if end - pos - 5 < n {
            Err(truncated())
        } else {
            Ok(
                (
                    ValueView::Binary { subtype: b[pos + 4], bytes: b.subrange(pos + 5, pos + 5 + n) },
                    pos + 5 + n,
                ),
            )
        }
    }
}

/// Whether the names of `fields` are 0, 1, 2 and so on in base 10.
pub open spec fn is_array_keys(fields: DocumentView) -> bool {
    forall|i: int| 0 <= i < fields.len() ==> (#[trigger] fields[i]).0 == decimal(i as nat)
}

/// The values of `fields`, in order.
pub open spec fn values_of(fields: DocumentView) -> Seq<ValueView> {
    Seq::new(fields.len(), |i: int| fields[i].1)
}

/// Whether `tag` is the tag of a deprecated kind of value.
pub open spec fn is_deprecated_tag(tag: u8) -> bool {
    tag == 0x06 || tag == 0x0C || tag == 0x0E || tag == 0x0F
}

/// The payload of a value with the tag `tag`, where `depth` documents
/// enclose it.
pub open spec fn parse_value(tag: u8, b: Seq<u8>, pos: int, end: int, config: DecoderConfig, depth: nat) -> Parsed<ValueView>
    decreases end - pos, 1int,
{
    if is_deprecated_tag(tag) && config.reject_deprecated {
        Err(ErrorView::Deprecated(deprecated_tag_text(tag)))
    } else if tag == 0x01 {
        if end - pos < 8 {
            Err(truncated())
        } else {
            Ok((ValueView::Double(u64_from_le(b.subrange(pos, pos + 8))), pos + 8))
        }
    } else if tag == 0x02 {
        match parse_string(b, pos, end, config.strict_utf8) {
            Err(e) => Err(e),
            Ok((text, next)) => Ok((ValueView::String(text), next)),
        }
    } else if tag == 0x03 {
        match parse_document(b, pos, end, config, depth) {
            Err(e) => Err(e),
            Ok((fields, next)) => Ok((ValueView::Document(fields), next)),
        }
    } else if tag == 0x04 {
        match parse_document(b, pos, end, config, depth) {
            Err(e) => Err(e),
            Ok((fields, next)) => if is_array_keys(fields) {
                Ok((ValueView::Array(values_of(fields)), next))
            } else {
                Err(ErrorView::InvalidValue(array_keys_text()))
            },
        }
    } else if tag == 0x05 {
        parse_binary(b, pos, end)
    } else if tag == 0x06 {
        Ok((ValueView::Undefined, pos))
    } else if tag == 0x07 {
        if end - pos < 12 {
            Err(truncated())
        } else {
            Ok((ValueView::ObjectId(b.subrange(pos, pos + 12)), pos + 12))
        }
    } else if tag == 0x08 {
        if end - pos < 1 {
            Err(truncated())
        } else if b[pos] == 0 {
            Ok((ValueView::Boolean(false), pos + 1))
        } else if b[pos] == 1 {
            Ok((ValueView::Boolean(true), pos + 1))
        } else {
            Err(ErrorView::InvalidValue(bad_boolean_text()))
        }
    } else if tag == 0x09 {
        if end - pos < 8 {
            Err(truncated())
        } else {
            Ok((ValueView::UTCDateTime(i64_from_le(b.subrange(pos, pos + 8))), pos + 8))
        }
    } else if tag == 0x0A {
        Ok((ValueView::Null, pos))
    } else if tag == 0x0B {
        match parse_cstring(b, pos, end, config.strict_utf8) {
            Err(e) => Err(e),
            Ok((pattern, mid)) => match parse_cstring(b, mid, end, config.strict_utf8) {
                Err(e) => Err(e),
                Ok((options, next)) => Ok((ValueView::RegularExpression { pattern, options }, next)),
            },
        }
    } else if tag == 0x0C {
        match parse_string(b, pos, end, config.strict_utf8) {
            Err(e) => Err(e),
            Ok((collection, mid)) => if end - mid < 12 {
                Err(truncated())
            } else {
                Ok((ValueView::DBPointer { collection, id: b.subrange(mid, mid + 12) }, mid + 12))
            },
        }
    } else if tag == 0x0D {
        match parse_string(b, pos, end, config.strict_utf8) {
            Err(e) => Err(e),
            Ok((code, next)) => Ok((ValueView::JavaScriptCode(code), next)),
        }
    } else if tag == 0x0E {
        match parse_string(b, pos, end, config.strict_utf8) {
            Err(e) => Err(e),
            Ok((symbol, next)) => Ok((ValueView::Symbol(symbol), next)),
        }
    } else if tag == 0x0F {
        if end - pos < 4 {
            Err(truncated())
        } else {
            match parse_string(b, pos + 4, end, config.strict_utf8) {
                Err(e) => Err(e),
                Ok((code, mid)) => if mid <= pos || mid > end {
                    Err(truncated())
                } else {
                    match parse_document(b, mid, end, config, depth) {
                        Err(e) => Err(e),
                        Ok((scope, next)) => if i32_from_le(b.subrange(pos, pos + 4)) == next - pos {
                            Ok((ValueView::JavaScriptCodeWithScope { code, scope }, next))
                        } else {
                            Err(ErrorView::InvalidDocument(bad_length_text()))
                        },
                    }
                },
            }
        }
    } else if tag == 0x10 {
        if end - pos < 4 {
            Err(truncated())
        } else {
            Ok((ValueView::Int32(i32_from_le(b.subrange(pos, pos + 4))), pos + 4))
        }
    } else if tag == 0x11 {
        if end - pos < 8 {
            Err(truncated())
        } else {
            Ok((ValueView::Timestamp(i64_from_le(b.subrange(pos, pos + 8))), pos + 8))
        }
    } else if tag == 0x12 {
        if end - pos < 8 {
            Err(truncated())
        } else {
            Ok((ValueView::Int64(i64_from_le(b.subrange(pos, pos + 8))), pos + 8))
        }
    } else if tag == 0x13 {
        if end - pos < 8 {
            Err(truncated())
        } else {
            Ok((ValueView::UInt64(u64_from_le(b.subrange(pos, pos + 8))), pos + 8))
        }
    } else if tag == 0xFF {
        Ok((ValueView::MinKey, pos))
    } else if tag == 0x7F {
        Ok((ValueView::MaxKey, pos))
    } else {
        Err(ErrorView::InvalidDocument(unknown_tag_text(tag)))
    }
}

/// A framed document that begins at `pos`: its declared length, checked
/// against the configured maximum and against `end`, and its fields.
pub open spec fn parse_document(b: Seq<u8>, pos: int, end: int, config: DecoderConfig, depth: nat) -> Parsed<DocumentView>
    decreases end - pos, 0int,
{
    if depth >= MAX_DEPTH {
        Err(ErrorView::InvalidDocument(too_deep_text()))
    } else if end - pos < 4 {
        Err(truncated())
    } else {
        let length = u32_from_le(b.subrange(pos, pos + 4));
        if length > config.max_document_bytes {
            Err(ErrorView::BufferOverflow)
        } else if length < 5 {
            Err(ErrorView::InvalidDocument(bad_length_text()))
        } else if end - pos < length {
            Err(truncated())
        } else {
            match parse_fields(b, pos + 4, pos + length, config, depth + 1) {
                Err(e) => Err(e),
                Ok(fields) => Ok((fields, pos + length)),
            }
        }
    }
}

/// The fields of a document from `pos` to its terminator, which is the
/// byte before `end`.
pub open spec fn parse_fields(b: Seq<u8>, pos: int, end: int, config: DecoderConfig, depth: nat) -> Result<DocumentView, ErrorView>
    decreases end - pos, 2int,
{
    if pos >= end {
        Err(ErrorView::InvalidDocument(no_terminator_text()))
    } else if pos == end - 1 && b[pos] == 0 {
        Ok(Seq::empty())
    } else {
        match parse_cstring(b, pos + 1, end, config.strict_utf8) {
            Err(e) => Err(e),
            Ok((name, at)) => if at <= pos || at > end {
                Err(truncated())
            } else {
                match parse_value(b[pos], b, at, end, config, depth) {
                    Err(e) => Err(e),
                    Ok((value, next)) => if next <= pos || next > end {
                        Err(truncated())
                    } else {
                        match parse_fields(b, next, end, config, depth) {
                            Err(e) => Err(e),
                            Ok(rest) => Ok(seq![(name, value)] + rest),
                        }
                    },
                }
            },
        }
    }
}

/// What decoding makes of `b`: the document that fills it, or the failure
/// that stops the decoder.
pub open spec fn decoded(b: Seq<u8>, config: DecoderConfig) -> Result<DocumentView, ErrorView> {
    match parse_document(b, 0, b.len() as int, config, 0) {
        Err(e) => Err(e),
        Ok((fields, next)) => if next == b.len() {
            Ok(fields)
        } else {
            Err(ErrorView::InvalidDocument(trailing_text()))
        },
    }
}

} // verus!
