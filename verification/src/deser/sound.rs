//! Whatever the strict decoder accepts is the wire form of what it gives.

use crate::deser::grammar::{
    first_zero, is_array_keys, is_deprecated_tag, parse_binary, parse_cstring, parse_document,
    parse_fields, parse_string, parse_value, text_of, values_of, DecoderConfig,
};
use crate::deser::lemmas::{
    indexed, lemma_array_keys_indexed, lemma_fields_bytes_prepend, lemma_fields_fault_prepend,
    lemma_first_zero, lemma_items_as_fields, lemma_range_join,
};
use crate::endian::{
    i32_from_le, lemma_i32_le_bytes_round_trip, lemma_i64_le_bytes_round_trip,
    lemma_u32_le_bytes_round_trip, lemma_u64_le_bytes_round_trip, u32_from_le,
};
use crate::types::value::{DocumentView, ValueView};
use crate::wire::{
    cstring, element, field_fault, fields_bytes, fields_fault, frame, has_nul, items_bytes,
    items_fault, name_fault, payload, size_fault, tag_of, text_fault, value_fault, wire_string,
    MAX_DEPTH,
};
use vstd::prelude::*;
use vstd::utf8::{decode_utf8, decode_utf8_encode_utf8, encode_utf8, valid_utf8};

verus! {

/// Text that the strict decoder accepts encodes to the bytes it was read
/// from.
pub proof fn lemma_text_sound(raw: Seq<u8>, text: Seq<char>)
    requires
        text_of(raw, true) == Ok::<Seq<char>, crate::ser::error::ErrorView>(text),
    ensures
        encode_utf8(text) == raw,
{
    decode_utf8_encode_utf8(raw);
}

/// A C string that the strict decoder accepts is the C string of its text,
/// and its text holds no 0x00 byte.
pub proof fn lemma_cstring_sound(b: Seq<u8>, pos: int, end: int, text: Seq<char>, at: int)
    requires
        0 <= pos <= end <= b.len(),
        parse_cstring(b, pos, end, true) == Ok::<(Seq<char>, int), crate::ser::error::ErrorView>(
            (text, at),
        ),
    ensures
        pos < at <= end,
        b.subrange(pos, at) == cstring(text),
        !has_nul(encode_utf8(text)),
        name_fault(text) is None,
{
    lemma_first_zero(b, pos, end);
    let stop = first_zero(b, pos, end);
    lemma_text_sound(b.subrange(pos, stop), text);
    assert(b.subrange(pos, at) =~= b.subrange(pos, stop).push(0u8));
}

/// A string payload that the strict decoder accepts is the payload of its
/// text, and its text fits a length prefix.
pub proof fn lemma_string_sound(b: Seq<u8>, pos: int, end: int, text: Seq<char>, at: int)
    requires
        0 <= pos <= end <= b.len(),
        parse_string(b, pos, end, true) == Ok::<(Seq<char>, int), crate::ser::error::ErrorView>(
            (text, at),
        ),
    ensures
        pos + 5 <= at <= end,
        b.subrange(pos, at) == wire_string(text),
        text_fault(text) is None,
{
    let n = i32_from_le(b.subrange(pos, pos + 4));
    let raw = b.subrange(pos + 4, pos + 4 + n - 1);
    lemma_text_sound(raw, text);
    lemma_i32_le_bytes_round_trip(b.subrange(pos, pos + 4));
    assert(b.subrange(pos, at) =~= b.subrange(pos, pos + 4) + raw.push(0u8));
}

/// What soundness says of a value that was read: it has the tag it was
/// read under and the payload it was read from, and the encoder takes it
/// where the decoder refuses deprecated kinds.
pub open spec fn value_sound(tag: u8, b: Seq<u8>, pos: int, end: int, config: DecoderConfig, depth: nat) -> bool {
    let (v, next) = parse_value(tag, b, pos, end, config, depth)->Ok_0;
    &&& pos <= next <= end
    &&& tag_of(v) == tag
    &&& b.subrange(pos, next) == payload(v)
    &&& config.reject_deprecated ==> value_fault(v, config.max_document_bytes, depth) is None
}

/// Soundness for the values that are a fixed number of bytes.
#[verifier::rlimit(40)]
proof fn lemma_fixed_sound(tag: u8, b: Seq<u8>, pos: int, end: int, config: DecoderConfig, depth: nat)
    requires
        0 <= pos <= end <= b.len(),
        parse_value(tag, b, pos, end, config, depth) is Ok,
        !(is_deprecated_tag(tag) && config.reject_deprecated),
        tag == 0x01 || tag == 0x13 || tag == 0x09 || tag == 0x11 || tag == 0x12 || tag == 0x10 || tag
            == 0x06 || tag == 0x0A || tag == 0xFF || tag == 0x7F || tag == 0x07 || tag == 0x08,
    ensures
        value_sound(tag, b, pos, end, config, depth),
{
    if tag == 0x01 || tag == 0x13 {
        lemma_u64_le_bytes_round_trip(b.subrange(pos, pos + 8));
    } else if tag == 0x09 || tag == 0x11 || tag == 0x12 {
        lemma_i64_le_bytes_round_trip(b.subrange(pos, pos + 8));
    } else if tag == 0x10 {
        lemma_i32_le_bytes_round_trip(b.subrange(pos, pos + 4));
    } else if tag == 0x06 || tag == 0x0A || tag == 0xFF || tag == 0x7F {
        assert(b.subrange(pos, pos) =~= Seq::<u8>::empty());
    } else if tag == 0x07 {
    } else {
        assert(b.subrange(pos, pos + 1) =~= seq![b[pos]]);
    }
}

/// Soundness for the values that are made of text and bytes.
#[verifier::rlimit(40)]
proof fn lemma_flat_sound(tag: u8, b: Seq<u8>, pos: int, end: int, config: DecoderConfig, depth: nat)
    requires
        0 <= pos <= end <= b.len(),
        config.strict_utf8,
        parse_value(tag, b, pos, end, config, depth) is Ok,
        !(is_deprecated_tag(tag) && config.reject_deprecated),
        tag == 0x02 || tag == 0x0D || tag == 0x0E || tag == 0x05 || tag == 0x0B || tag == 0x0C,
    ensures
        value_sound(tag, b, pos, end, config, depth),
{
    let (v, next) = parse_value(tag, b, pos, end, config, depth)->Ok_0;
    if tag == 0x02 || tag == 0x0D || tag == 0x0E {
        let (text, at) = parse_string(b, pos, end, true)->Ok_0;
        lemma_string_sound(b, pos, end, text, at);
    } else if tag == 0x05 {
        let n = i32_from_le(b.subrange(pos, pos + 4));
        lemma_i32_le_bytes_round_trip(b.subrange(pos, pos + 4));
        assert(b.subrange(pos, next) =~= b.subrange(pos, pos + 4) + seq![b[pos + 4]] + b.subrange(
            pos + 5,
            pos + 5 + n,
        ));
    } else if tag == 0x0B {
        let (pattern, mid) = parse_cstring(b, pos, end, true)->Ok_0;
        lemma_cstring_sound(b, pos, end, pattern, mid);
        let (options, at) = parse_cstring(b, mid, end, true)->Ok_0;
        lemma_cstring_sound(b, mid, end, options, at);
        lemma_range_join(b, pos, mid, at);
    } else {
        let (collection, mid) = parse_string(b, pos, end, true)->Ok_0;
        lemma_string_sound(b, pos, end, collection, mid);
        lemma_range_join(b, pos, mid, mid + 12);
    }
}

/// Every value that the strict decoder accepts has the tag it was read
/// under and the payload it was read from; and the encoder takes it where
/// the decoder refuses deprecated kinds.
#[verifier::rlimit(40)]
pub proof fn lemma_value_sound(tag: u8, b: Seq<u8>, pos: int, end: int, config: DecoderConfig, depth: nat)
    requires
        0 <= pos <= end <= b.len(),
        config.strict_utf8,
        parse_value(tag, b, pos, end, config, depth) is Ok,
    ensures
        value_sound(tag, b, pos, end, config, depth),
    decreases end - pos, 1int,
{
    let (v, next) = parse_value(tag, b, pos, end, config, depth)->Ok_0;
    let limit = config.max_document_bytes;
    if is_deprecated_tag(tag) && config.reject_deprecated {
    } else if tag == 0x03 {
        lemma_document_sound(b, pos, end, config, depth);
    } else if tag == 0x04 {
        lemma_document_sound(b, pos, end, config, depth);
        let (fields, at) = parse_document(b, pos, end, config, depth)->Ok_0;
        lemma_array_keys_indexed(fields);
        lemma_items_as_fields(values_of(fields), limit, depth + 1);
        assert(v == ValueView::Array(values_of(fields)));
    } else if tag == 0x0F {
        let (code, mid) = parse_string(b, pos + 4, end, true)->Ok_0;
        lemma_string_sound(b, pos + 4, end, code, mid);
        lemma_document_sound(b, mid, end, config, depth);
        let (scope, at) = parse_document(b, mid, end, config, depth)->Ok_0;
        lemma_i32_le_bytes_round_trip(b.subrange(pos, pos + 4));
        lemma_range_join(b, pos, pos + 4, mid);
        lemma_range_join(b, pos, mid, at);
        assert(wire_string(code).len() == mid - pos - 4);
        assert(frame(fields_bytes(scope)).len() == at - mid);
    } else if tag == 0x01 || tag == 0x13 || tag == 0x09 || tag == 0x11 || tag == 0x12 || tag == 0x10
        || tag == 0x06 || tag == 0x0A || tag == 0xFF || tag == 0x7F || tag == 0x07 || tag == 0x08 {
        lemma_fixed_sound(tag, b, pos, end, config, depth);
    } else if tag == 0x02 || tag == 0x0D || tag == 0x0E || tag == 0x05 || tag == 0x0B || tag == 0x0C {
        lemma_flat_sound(tag, b, pos, end, config, depth);
    } else {
    }
}

/// Every framed document that the strict decoder accepts is the frame of
/// its fields.
pub proof fn lemma_document_sound(b: Seq<u8>, pos: int, end: int, config: DecoderConfig, depth: nat)
    requires
        0 <= pos <= end <= b.len(),
        config.strict_utf8,
        parse_document(b, pos, end, config, depth) is Ok,
    ensures
        ({
            let (d, next) = parse_document(b, pos, end, config, depth)->Ok_0;
            &&& pos + 5 <= next <= end
            &&& depth < MAX_DEPTH
            &&& b.subrange(pos, next) == frame(fields_bytes(d))
            &&& config.reject_deprecated ==> value_fault(
                ValueView::Document(d),
                config.max_document_bytes,
                depth,
            ) is None
        }),
    decreases end - pos, 0int,
{
    let (d, next) = parse_document(b, pos, end, config, depth)->Ok_0;
    let length = u32_from_le(b.subrange(pos, pos + 4));
    lemma_fields_sound(b, pos + 4, pos + length, config, depth + 1);
    lemma_u32_le_bytes_round_trip(b.subrange(pos, pos + 4));
    let body = fields_bytes(d);
    assert(b.subrange(pos + 4, pos + length) == body.push(0u8));
    assert(body.len() + 5 == length);
    lemma_range_join(b, pos, pos + 4, next);
}

/// Every run of fields that the strict decoder accepts is the wire form of
/// the fields, with the terminator behind it.
#[verifier::rlimit(100)]
#[verifier::spinoff_prover]
pub proof fn lemma_fields_sound(b: Seq<u8>, pos: int, end: int, config: DecoderConfig, depth: nat)
    requires
        0 <= pos <= end <= b.len(),
        config.strict_utf8,
        parse_fields(b, pos, end, config, depth) is Ok,
    ensures
        ({
            let d = parse_fields(b, pos, end, config, depth)->Ok_0;
            &&& pos < end
            &&& b.subrange(pos, end) == fields_bytes(d).push(0u8)
            &&& config.reject_deprecated ==> fields_fault(d, config.max_document_bytes, depth) is None
        }),
    decreases end - pos, 2int,
{
    let d = parse_fields(b, pos, end, config, depth)->Ok_0;
    let limit = config.max_document_bytes;
    if pos == end - 1 && b[pos] == 0 {
        assert(d =~= DocumentView::empty());
        assert(b.subrange(pos, end) =~= fields_bytes(d).push(0u8));
    } else {
        let (name, at) = parse_cstring(b, pos + 1, end, true)->Ok_0;
        lemma_cstring_sound(b, pos + 1, end, name, at);
        let tag = b[pos];
        let (value, next) = parse_value(tag, b, at, end, config, depth)->Ok_0;
        lemma_value_sound(tag, b, at, end, config, depth);
        assert(value_sound(tag, b, at, end, config, depth));
        let rest = parse_fields(b, next, end, config, depth)->Ok_0;
        lemma_fields_sound(b, next, end, config, depth);
        assert(d == seq![(name, value)] + rest);
        lemma_fields_bytes_prepend(name, value, rest);
        lemma_fields_fault_prepend(name, value, rest, limit, depth);
        assert(b.subrange(pos, next) =~= seq![tag] + b.subrange(pos + 1, at) + b.subrange(at, next));
        assert(b.subrange(pos, next) == element(name, value));
        lemma_range_join(b, pos, next, end);
        assert(b.subrange(pos, end) =~= fields_bytes(d).push(0u8));
    }
}

} // verus!
