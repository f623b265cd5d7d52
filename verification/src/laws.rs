//! The laws of the format: what encoding and decoding do to each other.

use crate::decimal::{
    all_digits, decimal, decimal_i64, digits_value, is_digit, lemma_decimal_digits,
    lemma_decimal_value, signed_decimal,
};
use crate::deser::complete::lemma_value_complete;
use crate::deser::grammar::{decoded, parse_document, parse_value, DecoderConfig};
use crate::deser::sound::lemma_document_sound;
use crate::endian::{le_bytes_u32, lemma_u32_le_round_trip};
use crate::ser::bson::{encoded, EncoderConfig};
use crate::ser::error::ErrorView;
use crate::types::object_id::{hex_bytes, hex_digit, hex_digit_value, hex_text, is_hex};
use crate::types::value::{DocumentView, ValueView};
use crate::wire::{
    document_bytes, document_fault, fields_bytes, frame, payload, tag_of, text_fault, value_fault,
    well_formed_fields, wire_string,
};
use vstd::prelude::*;
use vstd::utf8::{
    decode_utf8, encode_utf8, encode_utf8_decode_utf8, encode_utf8_valid_utf8, is_ascii_chars,
    is_ascii_chars_encode_utf8, valid_utf8,
};

verus! {

/// Decoding what encoding gave returns the document that was encoded,
/// whatever the decoder is configured with, as long as it takes documents
/// as large as the encoder writes them.
pub proof fn law_decode_inverts_encode(d: DocumentView, encoder: EncoderConfig, decoder: DecoderConfig)
    requires
        well_formed_fields(d),
        encoded(d, encoder) is Ok,
        encoder.max_document_bytes <= decoder.max_document_bytes,
    ensures
        decoded(encoded(d, encoder)->Ok_0, decoder) == Ok::<DocumentView, ErrorView>(d),
{
    let bytes = document_bytes(d);
    let v = ValueView::Document(d);
    assert(bytes.subrange(0, bytes.len() as int) =~= bytes);
    lemma_value_complete(v, bytes, 0, bytes.len() as int, decoder, 0, encoder.max_document_bytes);
}

/// Encoding what the strict decoder gave returns the bytes that were
/// decoded, where encoder and decoder take documents of the same size.
pub proof fn law_encode_inverts_decode(b: Seq<u8>, decoder: DecoderConfig, encoder: EncoderConfig)
    requires
        decoded(b, decoder) is Ok,
        decoder.strict_utf8,
        decoder.reject_deprecated,
        encoder.reject_deprecated,
        encoder.max_document_bytes == decoder.max_document_bytes,
    ensures
        encoded(decoded(b, decoder)->Ok_0, encoder) == Ok::<Seq<u8>, ErrorView>(b),
{
    lemma_document_sound(b, 0, b.len() as int, decoder, 0);
    assert(b.subrange(0, b.len() as int) =~= b);
}

/// An encoded document has at least five bytes; its first four bytes are
/// its length, least significant byte first; its last byte is 0x00.
pub proof fn law_encoded_frame(d: DocumentView, encoder: EncoderConfig)
    requires
        encoded(d, encoder) is Ok,
    ensures
        ({
            let bytes = encoded(d, encoder)->Ok_0;
            &&& bytes.len() >= 5
            &&& bytes.len() <= encoder.max_document_bytes
            &&& bytes.subrange(0, 4) == le_bytes_u32(bytes.len() as u32)
            &&& bytes.last() == 0
        }),
{
    let body = fields_bytes(d);
    let bytes = frame(body);
    lemma_u32_le_round_trip((body.len() + 5) as u32);
    assert(bytes.subrange(0, 4) =~= le_bytes_u32((body.len() + 5) as u32));
}

/// The payload of a string holds the UTF-8 bytes of the text as they are,
/// and those bytes are read back as the same text.
pub proof fn law_string_bytes_kept(text: Seq<char>)
    requires
        text_fault(text) is None,
    ensures
        payload(ValueView::String(text)).len() == encode_utf8(text).len() + 5,
        payload(ValueView::String(text)).subrange(4, 4 + encode_utf8(text).len() as int) == encode_utf8(
            text,
        ),
        valid_utf8(encode_utf8(text)),
        decode_utf8(encode_utf8(text)) == text,
{
    encode_utf8_valid_utf8(text);
    encode_utf8_decode_utf8(text);
    let raw = encode_utf8(text);
    crate::endian::lemma_i32_le_round_trip((raw.len() + 1) as i32);
    assert(payload(ValueView::String(text)).subrange(4, 4 + raw.len() as int) =~= raw);
}

/// An array that is encoded in a document and decoded again has the same
/// length and the same values in the same order.
pub proof fn law_array_order_kept(
    d: DocumentView,
    k: int,
    a: Seq<ValueView>,
    encoder: EncoderConfig,
    decoder: DecoderConfig,
)
    requires
        well_formed_fields(d),
        0 <= k < d.len(),
        d[k].1 == ValueView::Array(a),
        encoded(d, encoder) is Ok,
        encoder.max_document_bytes <= decoder.max_document_bytes,
    ensures
        decoded(encoded(d, encoder)->Ok_0, decoder) is Ok,
        ({
            let back = decoded(encoded(d, encoder)->Ok_0, decoder)->Ok_0;
            &&& back.len() == d.len()
            &&& back[k].1 is Array
            &&& back[k].1->Array_0.len() == a.len()
            &&& forall|i: int| 0 <= i < a.len() ==> back[k].1->Array_0[i] == a[i]
        }),
{
    law_decode_inverts_encode(d, encoder, decoder);
}

/// Numbers of different kinds are different values and have different tags,
/// whatever the numbers are.
pub proof fn law_numeric_kinds_differ(a: i32, b: i64, bits: u64, c: u64)
    ensures
        ValueView::Int32(a) != ValueView::Int64(b),
        ValueView::Int64(b) != ValueView::Double(bits),
        ValueView::Int32(a) != ValueView::Double(bits),
        ValueView::UInt64(c) != ValueView::Int64(b),
        tag_of(ValueView::Int32(a)) != tag_of(ValueView::Int64(b)),
        tag_of(ValueView::Int64(b)) != tag_of(ValueView::Double(bits)),
        tag_of(ValueView::Int32(a)) != tag_of(ValueView::Double(bits)),
        tag_of(ValueView::UInt64(c)) != tag_of(ValueView::Int64(b)),
{
}

/// The hexadecimal text of bytes denotes the bytes: an identifier that is
/// written as text and read again is the same identifier.
pub proof fn law_hex_text_read_back(bytes: Seq<u8>)
    ensures
        is_hex(encode_utf8(hex_text(bytes))),
        hex_bytes(encode_utf8(hex_text(bytes))) == bytes,
{
    let text = hex_text(bytes);
    assert forall|i: int| 0 <= i < text.len() implies '\0' <= #[trigger] text[i] <= '\u{7f}' by {
        let b = bytes[i / 2] as int;
        assert(0 <= b / 16 < 16 && 0 <= b % 16 < 16);
    }
    assert(is_ascii_chars(text));
    is_ascii_chars_encode_utf8(text);
    let raw = encode_utf8(text);
    assert forall|i: int| 0 <= i < raw.len() implies (#[trigger] hex_digit_value(raw[i])) is Some
        && hex_digit_value(raw[i])->0 == (if i % 2 == 0 {
        bytes[i / 2] as int / 16
    } else {
        bytes[i / 2] as int % 16
    }) by {
        let b = bytes[i / 2] as int;
        assert(0 <= b / 16 < 16 && 0 <= b % 16 < 16);
        assert(text[i] as u8 == raw[i]);
    }
    assert forall|k: int| 0 <= k < bytes.len() implies hex_bytes(raw)[k] == bytes[k] by {
        let b = bytes[k] as int;
        assert(hex_digit_value(raw[2 * k])->0 == b / 16);
        assert(hex_digit_value(raw[2 * k + 1])->0 == b % 16);
    }
    assert(hex_bytes(raw) =~= bytes);
}

/// The base-10 text of a count of seconds denotes the count: a date-time or
/// timestamp that is written as text and read again is the same.
pub proof fn law_decimal_text_read_back(i: i64)
    ensures
        decimal_i64(signed_decimal(i as int)) == Some(i),
{
    let text = signed_decimal(i as int);
    if i < 0 {
        let magnitude = (-(i as int)) as nat;
        lemma_decimal_digits(magnitude);
        lemma_decimal_value(magnitude);
        assert(text.drop_first() =~= decimal(magnitude));
        assert(text[0] == '-');
    } else {
        lemma_decimal_digits(i as nat);
        lemma_decimal_value(i as nat);
        assert(is_digit(text[0]));
    }
}

} // verus!
