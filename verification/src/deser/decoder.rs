//! The decoder: reads a document from bytes, checking every length against
//! the end of the enclosing document.

use crate::decimal::{decimal, u64_to_string};
use crate::deser::grammar::{
    array_keys_text, bad_boolean_text, bad_length_text, decoded, deprecated_tag_text, first_zero,
    invalid_utf8_text, is_array_keys, is_deprecated_tag, lossy_text, no_terminator_text,
    parse_binary, parse_cstring, parse_document, parse_fields, parse_string, parse_value, text_of,
    too_deep_text, trailing_text, truncated, truncated_text, unknown_tag_text, unterminated_text,
    values_of, DecoderConfig, Parsed,
};
use crate::endian::{read_i32_le, read_i64_le, read_u32_le, read_u64_le};
use crate::ser::error::{ErrorView, SerializeError};
use crate::text::push_str;
use crate::types::array::Array;
use crate::types::document::Document;
use crate::types::object_id::ObjectId;
use crate::types::value::{DocumentView, Value, ValueView};
use crate::wire::{DEFAULT_MAX_DOCUMENT_BYTES, MAX_DEPTH};
use std::string::FromUtf8Error;
use vstd::prelude::*;
use vstd::slice::{slice_subrange, slice_to_vec};
use vstd::utf8::{decode_utf8, valid_utf8};

verus! {

/// The error of `String::from_utf8`, carried and never read.
#[verifier::external_type_specification]
#[verifier::external_body]
pub struct ExFromUtf8Error(FromUtf8Error);

/// `String::from_utf8`: the text that the bytes encode where they are
/// UTF-8, and an error where they are not.
#[verifier::external_body]
fn string_from_utf8(bytes: Vec<u8>) -> (r: Result<String, FromUtf8Error>)
    ensures
        r is Ok <==> valid_utf8(bytes@),
        r matches Ok(s) ==> s@ == decode_utf8(bytes@),
{
    String::from_utf8(bytes)
}

/// `String::from_utf8_lossy`: the text that the bytes encode where they are
/// UTF-8; otherwise the text in which what is no UTF-8 is replaced.
#[verifier::external_body]
fn string_from_utf8_lossy(bytes: &[u8]) -> (s: String)
    ensures
        s@ == lossy_text(bytes@),
        valid_utf8(bytes@) ==> s@ == decode_utf8(bytes@),
{
    String::from_utf8_lossy(bytes).into_owned()
}

/// Whether `r` is what `expected` asks for: the value, by its view, and the
/// position on success, the failure otherwise.
pub open spec fn read_as<T: View>(r: Result<(T, usize), SerializeError>, expected: Parsed<T::V>) -> bool {
    match expected {
        Ok((value, next)) => r matches Ok((got, at)) && got@ == value && at == next,
        Err(e) => r matches Err(err) && err@ == e,
    }
}

/// The failure on input that ends too early.
fn truncated_error() -> (e: SerializeError)
    ensures
        e@ == truncated(),
{
    SerializeError::InvalidDocument("input ends inside a document".to_string())
}

/// The failure on a length that cannot be.
fn bad_length_error() -> (e: SerializeError)
    ensures
        e@ == ErrorView::InvalidDocument(bad_length_text()),
{
    SerializeError::InvalidDocument("declared length is out of range".to_string())
}

/// The failure on a name or string without its terminator.
fn unterminated_error() -> (e: SerializeError)
    ensures
        e@ == ErrorView::InvalidDocument(unterminated_text()),
{
    SerializeError::InvalidDocument("text is not terminated".to_string())
}

/// The text that `raw` stands for.
pub fn read_text(raw: &[u8], strict: bool) -> (r: Result<String, SerializeError>)
    ensures
        match text_of(raw@, strict) {
            Ok(text) => r matches Ok(s) && s@ == text,
            Err(e) => r matches Err(err) && err@ == e,
        },
{
    if strict {
        match string_from_utf8(slice_to_vec(raw)) {
            Ok(s) => Ok(s),
            Err(_) => Err(SerializeError::Utf8("bytes are not UTF-8".to_string())),
        }
    } else {
        Ok(string_from_utf8_lossy(raw))
    }
}

/// The index of the first 0x00 byte from `from` on and before `end`, or
/// `end`.
fn find_zero(bytes: &[u8], from: usize, end: usize) -> (stop: usize)
    requires
        from <= end <= bytes@.len(),
    ensures
        stop == first_zero(bytes@, from as int, end as int),
        from <= stop <= end,
{
    let mut i: usize = from;
    while i < end
        invariant
            from <= i <= end <= bytes@.len(),
            first_zero(bytes@, from as int, end as int) == first_zero(bytes@, i as int, end as int),
        decreases end - i,
    {
        if bytes[i] == 0 {
            return i;
        }
        i += 1;
    }
    i
}

/// Reads a C string.
fn read_cstring(bytes: &[u8], pos: usize, end: usize, strict: bool) -> (r: Result<
    (String, usize),
    SerializeError,
>)
    requires
        pos <= end <= bytes@.len(),
    ensures
        read_as(r, parse_cstring(bytes@, pos as int, end as int, strict)),
        r matches Ok((_, at)) ==> pos < at <= end,
{
    let stop = find_zero(bytes, pos, end);
    if stop >= end {
        return Err(unterminated_error());
    }
    match read_text(slice_subrange(bytes, pos, stop), strict) {
        Err(e) => Err(e),
        Ok(text) => Ok((text, stop + 1)),
    }
}

/// Reads a string payload.
fn read_string(bytes: &[u8], pos: usize, end: usize, strict: bool) -> (r: Result<
    (String, usize),
    SerializeError,
>)
    requires
        pos <= end <= bytes@.len(),
    ensures
        read_as(r, parse_string(bytes@, pos as int, end as int, strict)),
        r matches Ok((_, at)) ==> pos + 5 <= at <= end,
{
    if end - pos < 4 {
        return Err(truncated_error());
    }
    let n = read_i32_le(slice_subrange(bytes, pos, pos + 4));
    if n < 1 {
        return Err(bad_length_error());
    }
    if end - pos - 4 < n as usize {
        return Err(truncated_error());
    }
    let last = pos + 4 + (n as usize) - 1;
    if bytes[last] != 0 {
        return Err(unterminated_error());
    }
    match read_text(slice_subrange(bytes, pos + 4, last), strict) {
        Err(e) => Err(e),
        Ok(text) => Ok((text, last + 1)),
    }
}

/// Reads binary data.
fn read_binary(bytes: &[u8], pos: usize, end: usize) -> (r: Result<(Value, usize), SerializeError>)
    requires
        pos <= end <= bytes@.len(),
    ensures
        read_as(r, parse_binary(bytes@, pos as int, end as int)),
        r matches Ok((_, at)) ==> pos <= at <= end,
{
    if end - pos < 5 {
        return Err(truncated_error());
    }
    let n = read_i32_le(slice_subrange(bytes, pos, pos + 4));
    if n < 0 {
        return Err(bad_length_error());
    }
    if end - pos - 5 < n as usize {
        return Err(truncated_error());
    }
    let subtype = bytes[pos + 4];
    let data = slice_to_vec(slice_subrange(bytes, pos + 5, pos + 5 + n as usize));
    Ok((Value::Binary { subtype, bytes: data }, pos + 5 + n as usize))
}

/// What was read so far, followed by what the rest gives.
pub open spec fn continued(before: DocumentView, rest: Result<DocumentView, ErrorView>) -> Result<
    DocumentView,
    ErrorView,
> {
    match rest {
        Ok(fields) => Ok(before + fields),
        Err(e) => Err(e),
    }
}

/// The detail of a failure that names a tag.
fn tag_message(prefix: &str, tag: u8) -> (s: String)
    ensures
        s@ == prefix@ + decimal(tag as nat),
{
    let mut s = String::new();
    push_str(&mut s, prefix);
    let number = u64_to_string(tag as u64);
    push_str(&mut s, number.as_str());
    assert(s@ =~= prefix@ + decimal(tag as nat));
    s
}

/// The values of an array where the names of `fields` count up from 0, and
/// a failure where they do not.
pub fn array_of(fields: Document) -> (r: Result<Array, SerializeError>)
    ensures
        is_array_keys(fields@) ==> (r matches Ok(array) && array@ == values_of(fields@)),
        !is_array_keys(fields@) ==> (r matches Err(e) && e@ == ErrorView::InvalidValue(
            array_keys_text(),
        )),
{
    let entries = fields.into_vec();
    let n = entries.len();
    let mut i: usize = 0;
    while i < n
        invariant
            i <= n,
            n == entries@.len(),
            n == fields@.len(),
            forall|j: int| 0 <= j < n ==> fields@[j] == (entries@[j].0@, entries@[j].1@),
            forall|j: int| 0 <= j < i ==> (#[trigger] fields@[j]).0 == decimal(j as nat),
        decreases n - i,
    {
        let key = u64_to_string(i as u64);
        if entries[i].0 != key {
            assert(fields@[i as int].0 != decimal(i as nat));
            return Err(SerializeError::InvalidValue("array keys do not count up from 0".to_string()));
        }
        i += 1;
    }
    let mut array = Array::with_capacity(n);
    let mut entries = entries;
    let ghost all = entries@;
    let mut values: Vec<Value> = Vec::new();
    while entries.len() > 0
        invariant
            entries@.len() <= n,
            all.len() == n,
            entries@ == all.take(entries@.len() as int),
            values@.len() == n - entries@.len(),
            forall|j: int| 0 <= j < values@.len() ==> values@[j]@ == all[n - 1 - j].1@,
        decreases entries.len(),
    {
        let ghost before = entries@;
        let field = entries.pop();
        match field {
            Some(field) => {
                assert(field == before.last());
                values.push(field.1);
                assert(entries@ =~= all.take(entries@.len() as int));
            },
            None => {},
        }
    }
    while values.len() > 0
        invariant
            all.len() == n,
            values@.len() <= n,
            array@.len() == n - values@.len(),
            forall|j: int| 0 <= j < values@.len() ==> values@[j]@ == all[n - 1 - j].1@,
            forall|j: int| 0 <= j < array@.len() ==> array@[j] == all[j].1@,
        decreases values.len(),
    {
        let value = values.pop();
        match value {
            Some(value) => {
                array.push(value);
            },
            None => {},
        }
    }
    assert(array@ =~= values_of(fields@));
    Ok(array)
}

/// A decoder of documents.
#[derive(Debug, Clone, Copy, PartialEq)]
pub struct Decoder {
    config: DecoderConfig,
}

impl Decoder {
    /// What the decoder is configured with.
    pub closed spec fn settings(&self) -> DecoderConfig {
        self.config
    }

    /// A decoder that reads as `config` says.
    pub fn new(config: DecoderConfig) -> (decoder: Decoder)
        ensures
            decoder.settings() == config,
    {
        Decoder { config }
    }

    /// What the decoder is configured with.
    pub fn config(&self) -> (config: DecoderConfig)
        ensures
            config == self.settings(),
    {
        self.config
    }

    /// Reads the payload of a value with the tag `tag`.
    fn read_value(&self, tag: u8, bytes: &[u8], pos: usize, end: usize, depth: usize) -> (r: Result<
        (Value, usize),
        SerializeError,
    >)
        requires
            pos <= end <= bytes@.len(),
        ensures
            read_as(r, parse_value(tag, bytes@, pos as int, end as int, self.settings(), depth as nat)),
            r matches Ok((_, at)) ==> pos <= at <= end,
        decreases end - pos, 1int,
    {
        let strict = self.config.strict_utf8;
        if (tag == 0x06 || tag == 0x0C || tag == 0x0E || tag == 0x0F) && self.config.reject_deprecated {
            return Err(SerializeError::Deprecated(tag_message("deprecated element type ", tag)));
        }
        if tag == 0x01 {
            if end - pos < 8 {
                return Err(truncated_error());
            }
            Ok((Value::Double(read_u64_le(slice_subrange(bytes, pos, pos + 8))), pos + 8))
        } else if tag == 0x02 {
            match read_string(bytes, pos, end, strict) {
                Err(e) => Err(e),
                Ok((text, next)) => Ok((Value::String(text), next)),
            }
        } else if tag == 0x03 {
            match self.read_document(bytes, pos, end, depth) {
                Err(e) => Err(e),
                Ok((fields, next)) => Ok((Value::Document(fields), next)),
            }
        } else if tag == 0x04 {
            match self.read_document(bytes, pos, end, depth) {
                Err(e) => Err(e),
                Ok((fields, next)) => match array_of(fields) {
                    Err(e) => Err(e),
                    Ok(array) => Ok((Value::Array(array), next)),
                },
            }
        } else if tag == 0x05 {
            read_binary(bytes, pos, end)
        } else if tag == 0x06 {
            Ok((Value::Undefined, pos))
        } else if tag == 0x07 {
            if end - pos < 12 {
                return Err(truncated_error());
            }
            let id = read_object_id(bytes, pos);
            Ok((Value::ObjectId(id), pos + 12))
        } else if tag == 0x08 {
            if end - pos < 1 {
                return Err(truncated_error());
            }
            if bytes[pos] == 0 {
                Ok((Value::Boolean(false), pos + 1))
            } else if bytes[pos] == 1 {
                Ok((Value::Boolean(true), pos + 1))
            } else {
                Err(SerializeError::InvalidValue("boolean is neither 0 nor 1".to_string()))
            }
        } else if tag == 0x09 {
            if end - pos < 8 {
                return Err(truncated_error());
            }
            Ok((Value::UTCDateTime(read_i64_le(slice_subrange(bytes, pos, pos + 8))), pos + 8))
        } else if tag == 0x0A {
            Ok((Value::Null, pos))
        } else if tag == 0x0B {
            match read_cstring(bytes, pos, end, strict) {
                Err(e) => Err(e),
                Ok((pattern, mid)) => match read_cstring(bytes, mid, end, strict) {
                    Err(e) => Err(e),
                    Ok((options, next)) => Ok((Value::RegularExpression { pattern, options }, next)),
                },
            }
        } else if tag == 0x0C {
            match read_string(bytes, pos, end, strict) {
                Err(e) => Err(e),
                Ok((collection, mid)) => {
                    if end - mid < 12 {
                        return Err(truncated_error());
                    }
                    let id = read_object_id(bytes, mid);
                    Ok((Value::DBPointer { collection, id }, mid + 12))
                },
            }
        } else if tag == 0x0D {
            match read_string(bytes, pos, end, strict) {
                Err(e) => Err(e),
                Ok((code, next)) => Ok((Value::JavaScriptCode(code), next)),
            }
        } else if tag == 0x0E {
            match read_string(bytes, pos, end, strict) {
                Err(e) => Err(e),
                Ok((symbol, next)) => Ok((Value::Symbol(symbol), next)),
            }
        } else if tag == 0x0F {
            if end - pos < 4 {
                return Err(truncated_error());
            }
            let total = read_i32_le(slice_subrange(bytes, pos, pos + 4));
            match read_string(bytes, pos + 4, end, strict) {
                Err(e) => Err(e),
                Ok((code, mid)) => match self.read_document(bytes, mid, end, depth) {
                    Err(e) => Err(e),
                    Ok((scope, next)) => {
                        if total >= 0 && total as usize == next - pos {
                            Ok((Value::JavaScriptCodeWithScope { code, scope }, next))
                        } else {
                            Err(bad_length_error())
                        }
                    },
                },
            }
        } else if tag == 0x10 {
            if end - pos < 4 {
                return Err(truncated_error());
            }
            Ok((Value::Int32(read_i32_le(slice_subrange(bytes, pos, pos + 4))), pos + 4))
        } else if tag == 0x11 {
            if end - pos < 8 {
                return Err(truncated_error());
            }
            Ok((Value::Timestamp(read_i64_le(slice_subrange(bytes, pos, pos + 8))), pos + 8))
        } else if tag == 0x12 {
            if end - pos < 8 {
                return Err(truncated_error());
            }
            Ok((Value::Int64(read_i64_le(slice_subrange(bytes, pos, pos + 8))), pos + 8))
        } else if tag == 0x13 {
            if end - pos < 8 {
                return Err(truncated_error());
            }
            Ok((Value::UInt64(read_u64_le(slice_subrange(bytes, pos, pos + 8))), pos + 8))
        } else if tag == 0xFF {
            Ok((Value::MinKey, pos))
        } else if tag == 0x7F {
            Ok((Value::MaxKey, pos))
        } else {
            Err(SerializeError::InvalidDocument(tag_message("unknown element type ", tag)))
        }
    }

    /// Reads a framed document that begins at `pos`.
    #[verifier::loop_isolation(false)]
    fn read_document(&self, bytes: &[u8], pos: usize, end: usize, depth: usize) -> (r: Result<
        (Document, usize),
        SerializeError,
    >)
        requires
            pos <= end <= bytes@.len(),
        ensures
            read_as(r, parse_document(bytes@, pos as int, end as int, self.settings(), depth as nat)),
            r matches Ok((_, at)) ==> pos + 5 <= at <= end,
        decreases end - pos, 0int,
    {
        if depth >= MAX_DEPTH {
            return Err(SerializeError::InvalidDocument("documents are nested too deeply".to_string()));
        }
        if end - pos < 4 {
            return Err(truncated_error());
        }
        let length = read_u32_le(slice_subrange(bytes, pos, pos + 4));
        if length > self.config.max_document_bytes {
            return Err(SerializeError::BufferOverflow);
        }
        if length < 5 {
            return Err(bad_length_error());
        }
        if end - pos < length as usize {
            return Err(truncated_error());
        }
        let stop: usize = pos + length as usize;
        let ghost b = bytes@;
        let ghost config = self.settings();
        let ghost inner = (depth + 1) as nat;
        let ghost whole = parse_fields(b, pos + 4, stop as int, config, inner);
        let mut doc = Document::new();
        let mut cur: usize = pos + 4;
        assert(DocumentView::empty() + parse_fields(b, cur as int, stop as int, config, inner)->Ok_0
            =~= parse_fields(b, cur as int, stop as int, config, inner)->Ok_0);
        loop
            invariant
                pos + 4 <= cur <= stop <= end,
                whole == continued(doc@, parse_fields(b, cur as int, stop as int, config, inner)),
            decreases stop - cur,
        {
            if cur >= stop {
                return Err(SerializeError::InvalidDocument("document is not terminated".to_string()));
            }
            if cur == stop - 1 && bytes[cur] == 0 {
                assert(doc@ + Seq::empty() =~= doc@);
                return Ok((doc, stop));
            }
            let tag = bytes[cur];
            let (name, at) = match read_cstring(bytes, cur + 1, stop, self.config.strict_utf8) {
                Err(e) => {
                    return Err(e);
                },
                Ok(read) => read,
            };
            let (value, next) = match self.read_value(tag, bytes, at, stop, depth + 1) {
                Err(e) => {
                    return Err(e);
                },
                Ok(read) => read,
            };
            proof {
                let rest = parse_fields(b, next as int, stop as int, config, inner);
                if rest is Ok {
                    assert(doc@.push((name@, value@)) + rest->Ok_0 =~= doc@ + (seq![(name@, value@)]
                        + rest->Ok_0));
                }
            }
            doc.push(name, value);
            cur = next;
        }
    }

    /// Decodes the document that fills `bytes`.
    pub fn decode(&self, bytes: &[u8]) -> (r: Result<Document, SerializeError>)
        ensures
            match decoded(bytes@, self.settings()) {
                Ok(fields) => r matches Ok(doc) && doc@ == fields,
                Err(e) => r matches Err(err) && err@ == e,
            },
    {
        match self.read_document(bytes, 0, bytes.len(), 0) {
            Err(e) => Err(e),
            Ok((doc, next)) => {
                if next == bytes.len() {
                    Ok(doc)
                } else {
                    Err(SerializeError::InvalidDocument("bytes follow the document".to_string()))
                }
            },
        }
    }
}

/// The object identifier in the twelve bytes from `pos` on.
fn read_object_id(bytes: &[u8], pos: usize) -> (id: ObjectId)
    requires
        pos + 12 <= bytes@.len(),
    ensures
        id@ == bytes@.subrange(pos as int, pos + 12),
{
    let mut inner: [u8; 12] = [0, 0, 0, 0, 0, 0, 0, 0, 0, 0, 0, 0];
    let n = bytes.len();
    let mut i: usize = 0;
    while i < 12
        invariant
            i <= 12,
            pos + 12 <= n,
            n == bytes@.len(),
            forall|j: int| 0 <= j < i ==> inner@[j] == bytes@[pos + j],
        decreases 12 - i,
    {
        inner[i] = bytes[pos + i];
        i += 1;
    }
    let id = ObjectId::from_bytes(inner);
    assert(id@ =~= bytes@.subrange(pos as int, pos + 12));
    id
}

/// The configuration where nothing else is asked for: documents of up to
/// 16 MiB, deprecated kinds and bytes that are no UTF-8 refused.
pub open spec fn default_decoder_config() -> DecoderConfig {
    DecoderConfig {
        max_document_bytes: DEFAULT_MAX_DOCUMENT_BYTES,
        reject_deprecated: true,
        strict_utf8: true,
    }
}

/// Decodes the document that fills `bytes`: documents of up to 16 MiB,
/// deprecated kinds and bytes that are no UTF-8 refused.
pub fn from_bytes(bytes: &[u8]) -> (r: Result<Document, SerializeError>)
    ensures
        match decoded(bytes@, default_decoder_config()) {
            Ok(fields) => r matches Ok(doc) && doc@ == fields,
            Err(e) => r matches Err(err) && err@ == e,
        },
{
    let decoder = Decoder::new(
        DecoderConfig {
            max_document_bytes: DEFAULT_MAX_DOCUMENT_BYTES,
            reject_deprecated: true,
            strict_utf8: true,
        },
    );
    decoder.decode(bytes)
}

} // verus!
