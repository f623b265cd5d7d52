//! Whatever the encoder writes, the decoder reads back as the same value.

use crate::decimal::decimal;
use crate::deser::grammar::{
    first_zero, is_array_keys, parse_binary, parse_cstring, parse_document, parse_fields,
    parse_string, parse_value, text_of, values_of, DecoderConfig,
};
use crate::deser::lemmas::{
    indexed, lemma_fields_bytes_prepend, lemma_fields_fault_prepend, lemma_first_zero_at,
    lemma_items_as_fields, lemma_range_join, lemma_range_parts,
};
use crate::endian::{
    i32_from_le, le_bytes_i32, le_bytes_i64, le_bytes_u32, le_bytes_u64,
    lemma_i32_le_round_trip, lemma_i64_le_round_trip, lemma_u32_le_round_trip,
    lemma_u64_le_round_trip, u32_from_le,
};
use crate::ser::error::ErrorView;
use crate::types::value::{DocumentView, ValueView};
use crate::wire::{
    cstring, element, field_fault, fields_bytes, fields_fault, frame, has_nul, is_deprecated,
    items_bytes, items_fault, name_fault, payload, size_fault, tag_of, text_fault, value_fault,
    lemma_well_formed_field, lemma_well_formed_item, well_formed, wire_string, MAX_DEPTH,
    MAX_PREFIXED_LEN,
};
use vstd::prelude::*;
use vstd::utf8::{
    decode_utf8, encode_utf8, encode_utf8_decode_utf8, encode_utf8_valid_utf8, valid_utf8,
};

verus! {

/// The bytes of text are read back as the text.
pub proof fn lemma_text_complete(text: Seq<char>, strict: bool)
    ensures
        text_of(encode_utf8(text), strict) == Ok::<Seq<char>, ErrorView>(text),
{
    encode_utf8_valid_utf8(text);
    encode_utf8_decode_utf8(text);
}

/// A C string is read back as its text.
pub proof fn lemma_cstring_complete(b: Seq<u8>, pos: int, end: int, text: Seq<char>, strict: bool)
    requires
        0 <= pos,
        pos + cstring(text).len() <= end <= b.len(),
        b.subrange(pos, pos + cstring(text).len()) == cstring(text),
        !has_nul(encode_utf8(text)),
    ensures
        parse_cstring(b, pos, end, strict) == Ok::<(Seq<char>, int), ErrorView>(
            (text, pos + cstring(text).len()),
        ),
{
    let raw = encode_utf8(text);
    let stop = pos + raw.len();
    let piece = b.subrange(pos, pos + cstring(text).len());
    assert(b[stop] == 0) by {
        assert(piece[raw.len() as int] == cstring(text)[raw.len() as int]);
    }
    assert forall|i: int| pos <= i < stop implies b[i] != 0 by {
        assert(piece[i - pos] == cstring(text)[i - pos]);
        assert(raw[i - pos] != 0);
    }
    lemma_first_zero_at(b, pos, stop, end);
    assert(b.subrange(pos, stop) =~= raw) by {
        assert forall|i: int| 0 <= i < raw.len() implies b.subrange(pos, stop)[i] == raw[i] by {
            assert(piece[i] == cstring(text)[i]);
        }
    }
    lemma_text_complete(text, strict);
}

/// A string payload is read back as its text.
pub proof fn lemma_string_complete(b: Seq<u8>, pos: int, end: int, text: Seq<char>, strict: bool)
    requires
        0 <= pos,
        pos + wire_string(text).len() <= end <= b.len(),
        b.subrange(pos, pos + wire_string(text).len()) == wire_string(text),
        text_fault(text) is None,
    ensures
        wire_string(text).len() == encode_utf8(text).len() + 5,
        parse_string(b, pos, end, strict) == Ok::<(Seq<char>, int), ErrorView>(
            (text, pos + wire_string(text).len()),
        ),
{
    let raw = encode_utf8(text);
    let n = (raw.len() + 1) as i32;
    lemma_i32_le_round_trip(n);
    let prefix = le_bytes_i32(n);
    assert(wire_string(text) == prefix + raw.push(0u8));
    lemma_range_parts(b, pos, prefix, raw.push(0u8));
    assert(raw.push(0u8) =~= raw + seq![0u8]);
    assert(prefix.len() == 4);
    lemma_range_parts(b, pos + 4, raw, seq![0u8]);
    assert(b.subrange(pos + 4 + raw.len(), pos + 4 + raw.len() + 1)[0] == 0);
    lemma_text_complete(text, strict);
}

/// The parts of a field lie where the decoder looks for them.
pub proof fn lemma_field_ranges(b: Seq<u8>, pos: int, end: int, name: Seq<char>, v: ValueView, tail: Seq<u8>)
    requires
        0 <= pos <= end <= b.len(),
        b.subrange(pos, end) == element(name, v) + tail,
    ensures
        pos + element(name, v).len() + tail.len() == end,
        element(name, v).len() == 1 + cstring(name).len() + payload(v).len(),
        b[pos] == tag_of(v),
        b.subrange(pos + 1, pos + 1 + cstring(name).len()) == cstring(name),
        b.subrange(pos + 1 + cstring(name).len(), pos + element(name, v).len()) == payload(v),
        b.subrange(pos + element(name, v).len(), end) == tail,
{
    let e = element(name, v);
    assert((e + tail).len() == end - pos);
    lemma_range_parts(b, pos, e, tail);
    assert(e =~= seq![tag_of(v)] + (cstring(name) + payload(v)));
    lemma_range_parts(b, pos, seq![tag_of(v)], cstring(name) + payload(v));
    lemma_range_parts(b, pos + 1, cstring(name), payload(v));
    assert(b.subrange(pos, pos + 1)[0] == tag_of(v));
}

/// One field in front of fields that are read back is read back with them.
pub proof fn lemma_field_step(
    b: Seq<u8>,
    pos: int,
    end: int,
    config: DecoderConfig,
    depth: nat,
    name: Seq<char>,
    v: ValueView,
    rest: DocumentView,
)
    requires
        0 <= pos <= end <= b.len(),
        b.subrange(pos, end) == element(name, v) + fields_bytes(rest).push(0u8),
        name_fault(name) is None,
        parse_value(
            tag_of(v),
            b,
            pos + 1 + cstring(name).len(),
            end,
            config,
            depth,
        ) == Ok::<(ValueView, int), ErrorView>((v, pos + element(name, v).len())),
        parse_fields(b, pos + element(name, v).len(), end, config, depth) == Ok::<
            DocumentView,
            ErrorView,
        >(rest),
    ensures
        parse_fields(b, pos, end, config, depth) == Ok::<DocumentView, ErrorView>(
            seq![(name, v)] + rest,
        ),
{
    lemma_field_ranges(b, pos, end, name, v, fields_bytes(rest).push(0u8));
    lemma_cstring_complete(b, pos + 1, end, name, config.strict_utf8);
}

/// No field of a document without a fault has a fault.
pub proof fn lemma_fields_fault_none(d: DocumentView, k: int, limit: u32, depth: nat)
    requires
        0 <= k < d.len(),
        fields_fault(d, limit, depth) is None,
    ensures
        field_fault(d[k].0, d[k].1, limit, depth) is None,
        name_fault(d[k].0) is None,
        value_fault(d[k].1, limit, depth) is None,
    decreases d.len(),
{
    if k < d.len() - 1 {
        lemma_fields_fault_none(d.drop_last(), k, limit, depth);
    }
}

/// No value of an array without a fault has a fault.
pub proof fn lemma_items_fault_none(a: Seq<ValueView>, k: int, limit: u32, depth: nat)
    requires
        0 <= k < a.len(),
        items_fault(a, limit, depth) is None,
    ensures
        value_fault(a[k], limit, depth) is None,
    decreases a.len(),
{
    if k < a.len() - 1 {
        lemma_items_fault_none(a.drop_last(), k, limit, depth);
    }
}

/// What completeness says of a value: its payload is read back as the
/// value.
pub open spec fn value_complete(v: ValueView, b: Seq<u8>, pos: int, end: int, config: DecoderConfig, depth: nat) -> bool {
    parse_value(tag_of(v), b, pos, end, config, depth) == Ok::<(ValueView, int), ErrorView>(
        (v, pos + payload(v).len()),
    )
}

/// Completeness for the values that hold no other value.
#[verifier::rlimit(60)]
#[verifier::spinoff_prover]
proof fn lemma_flat_complete(v: ValueView, b: Seq<u8>, pos: int, end: int, config: DecoderConfig, depth: nat, limit: u32)
    requires
        !(v is Document) && !(v is Array) && !is_deprecated(v),
        well_formed(v),
        value_fault(v, limit, depth) is None,
        0 <= pos,
        pos + payload(v).len() <= end <= b.len(),
        b.subrange(pos, pos + payload(v).len()) == payload(v),
    ensures
        value_complete(v, b, pos, end, config, depth),
{
    match v {
        ValueView::Double(x) => {
            lemma_u64_le_round_trip(x);
        },
        ValueView::UInt64(x) => {
            lemma_u64_le_round_trip(x);
        },
        ValueView::UTCDateTime(x) => {
            lemma_i64_le_round_trip(x);
        },
        ValueView::Timestamp(x) => {
            lemma_i64_le_round_trip(x);
        },
        ValueView::Int64(x) => {
            lemma_i64_le_round_trip(x);
        },
        ValueView::Int32(x) => {
            lemma_i32_le_round_trip(x);
        },
        ValueView::String(s) => {
            lemma_string_complete(b, pos, end, s, config.strict_utf8);
        },
        ValueView::JavaScriptCode(s) => {
            lemma_string_complete(b, pos, end, s, config.strict_utf8);
        },
        ValueView::Binary { subtype, bytes } => {
            let n = bytes.len() as i32;
            lemma_i32_le_round_trip(n);
            assert(payload(v) =~= le_bytes_i32(n) + (seq![subtype] + bytes));
            lemma_range_parts(b, pos, le_bytes_i32(n), seq![subtype] + bytes);
            lemma_range_parts(b, pos + 4, seq![subtype], bytes);
            assert(b.subrange(pos + 4, pos + 5)[0] == subtype);
        },
        ValueView::RegularExpression { pattern, options } => {
            lemma_range_parts(b, pos, cstring(pattern), cstring(options));
            lemma_cstring_complete(b, pos, end, pattern, config.strict_utf8);
            lemma_cstring_complete(
                b,
                pos + cstring(pattern).len(),
                end,
                options,
                config.strict_utf8,
            );
        },
        ValueView::Boolean(x) => {
            assert(b.subrange(pos, pos + 1)[0] == payload(v)[0]);
        },
        _ => {},
    }
}

/// The frame of a body is read as a document where the body is read as
/// its fields.
pub proof fn lemma_frame_complete(b: Seq<u8>, pos: int, end: int, config: DecoderConfig, depth: nat, body: Seq<u8>, d: DocumentView)
    requires
        0 <= pos,
        pos + frame(body).len() <= end <= b.len(),
        b.subrange(pos, pos + frame(body).len()) == frame(body),
        depth < MAX_DEPTH,
        body.len() + 5 <= config.max_document_bytes,
        parse_fields(b, pos + 4, pos + 5 + body.len(), config, depth + 1) == Ok::<
            DocumentView,
            ErrorView,
        >(d),
    ensures
        parse_document(b, pos, end, config, depth) == Ok::<(DocumentView, int), ErrorView>(
            (d, pos + frame(body).len()),
        ),
{
    let length = (body.len() + 5) as u32;
    lemma_u32_le_round_trip(length);
    lemma_range_parts(b, pos, le_bytes_u32(length), body.push(0u8));
}

/// The body of a frame lies behind its length.
pub proof fn lemma_frame_body(b: Seq<u8>, pos: int, body: Seq<u8>)
    requires
        0 <= pos,
        pos + frame(body).len() <= b.len(),
        b.subrange(pos, pos + frame(body).len()) == frame(body),
        body.len() + 5 <= u32::MAX,
    ensures
        frame(body).len() == body.len() + 5,
        b.subrange(pos + 4, pos + 5 + body.len()) == body.push(0u8),
{
    let length = (body.len() + 5) as u32;
    lemma_u32_le_round_trip(length);
    lemma_range_parts(b, pos, le_bytes_u32(length), body.push(0u8));
}

/// Every value that the encoder takes is read back from its payload.
#[verifier::rlimit(60)]
pub proof fn lemma_value_complete(v: ValueView, b: Seq<u8>, pos: int, end: int, config: DecoderConfig, depth: nat, limit: u32)
    requires
        well_formed(v),
        value_fault(v, limit, depth) is None,
        limit <= config.max_document_bytes,
        0 <= pos,
        pos + payload(v).len() <= end <= b.len(),
        b.subrange(pos, pos + payload(v).len()) == payload(v),
    ensures
        value_complete(v, b, pos, end, config, depth),
    decreases v, 0int,
{
    match v {
        ValueView::Document(d) => {
            let body = fields_bytes(d);
            lemma_frame_body(b, pos, body);
            assert(d.skip(0) =~= d);
            lemma_fields_complete(d, 0, b, pos + 4, pos + 5 + body.len(), config, depth + 1, limit);
            lemma_frame_complete(b, pos, end, config, depth, body, d);
        },
        ValueView::Array(a) => {
            let body = items_bytes(a);
            lemma_frame_body(b, pos, body);
            lemma_items_as_fields(a, limit, depth + 1);
            assert(indexed(a).skip(0) =~= indexed(a));
            lemma_items_complete(a, 0, b, pos + 4, pos + 5 + body.len(), config, depth + 1, limit);
            lemma_frame_complete(b, pos, end, config, depth, body, indexed(a));
        },
        _ => {
            lemma_flat_complete(v, b, pos, end, config, depth, limit);
        },
    }
}

/// The fields of a document from the `k`-th on are read back from their
/// bytes.
#[verifier::rlimit(60)]
pub proof fn lemma_fields_complete(
    d: DocumentView,
    k: int,
    b: Seq<u8>,
    pos: int,
    end: int,
    config: DecoderConfig,
    depth: nat,
    limit: u32,
)
    requires
        0 <= k <= d.len(),
        well_formed(ValueView::Document(d)),
        fields_fault(d, limit, depth) is None,
        limit <= config.max_document_bytes,
        0 <= pos <= end <= b.len(),
        b.subrange(pos, end) == fields_bytes(d.skip(k)).push(0u8),
    ensures
        parse_fields(b, pos, end, config, depth) == Ok::<DocumentView, ErrorView>(d.skip(k)),
    decreases d, d.len() - k,
{
    if k == d.len() {
        assert(d.skip(k) =~= DocumentView::empty());
        assert(fields_bytes(d.skip(k)) =~= Seq::<u8>::empty());
        assert(b.subrange(pos, end).len() == 1);
        assert(b.subrange(pos, end)[0] == 0);
    } else {
        let (name, v) = d[k];
        let rest = d.skip(k + 1);
        assert(d.skip(k) =~= seq![(name, v)] + rest);
        lemma_fields_bytes_prepend(name, v, rest);
        lemma_fields_fault_none(d, k, limit, depth);
        let tail = fields_bytes(rest).push(0u8);
        assert(fields_bytes(d.skip(k)).push(0u8) =~= element(name, v) + tail);
        lemma_field_ranges(b, pos, end, name, v, tail);
        let at = pos + 1 + cstring(name).len();
        let next = pos + element(name, v).len();
        lemma_well_formed_field(d, k);
        lemma_value_complete(v, b, at, end, config, depth, limit);
        lemma_fields_complete(d, k + 1, b, next, end, config, depth, limit);
        lemma_field_step(b, pos, end, config, depth, name, v, rest);
    }
}

/// The values of an array from the `k`-th on are read back from their
/// bytes as fields named by their indices.
#[verifier::rlimit(60)]
pub proof fn lemma_items_complete(
    a: Seq<ValueView>,
    k: int,
    b: Seq<u8>,
    pos: int,
    end: int,
    config: DecoderConfig,
    depth: nat,
    limit: u32,
)
    requires
        0 <= k <= a.len(),
        well_formed(ValueView::Array(a)),
        items_fault(a, limit, depth) is None,
        limit <= config.max_document_bytes,
        0 <= pos <= end <= b.len(),
        b.subrange(pos, end) == fields_bytes(indexed(a).skip(k)).push(0u8),
    ensures
        parse_fields(b, pos, end, config, depth) == Ok::<DocumentView, ErrorView>(
            indexed(a).skip(k),
        ),
    decreases a, a.len() - k,
{
    let d = indexed(a);
    if k == a.len() {
        assert(d.skip(k) =~= DocumentView::empty());
        assert(fields_bytes(d.skip(k)) =~= Seq::<u8>::empty());
        assert(b.subrange(pos, end).len() == 1);
        assert(b.subrange(pos, end)[0] == 0);
    } else {
        let (name, v) = d[k];
        let rest = d.skip(k + 1);
        assert(v == a[k]);
        assert(d.skip(k) =~= seq![(name, v)] + rest);
        lemma_fields_bytes_prepend(name, v, rest);
        lemma_items_fault_none(a, k, limit, depth);
        crate::ser::bson::lemma_decimal_has_no_nul(k as nat);
        let tail = fields_bytes(rest).push(0u8);
        assert(fields_bytes(d.skip(k)).push(0u8) =~= element(name, v) + tail);
        lemma_field_ranges(b, pos, end, name, v, tail);
        let at = pos + 1 + cstring(name).len();
        let next = pos + element(name, v).len();
        lemma_well_formed_item(a, k);
        lemma_value_complete(a[k], b, at, end, config, depth, limit);
        lemma_items_complete(a, k + 1, b, next, end, config, depth, limit);
        lemma_field_step(b, pos, end, config, depth, name, v, rest);
    }
}

} // verus!
