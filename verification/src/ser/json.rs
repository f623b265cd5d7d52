//! The JSON serializer: the same traversal as the BSON serializer, with text
//! for output.
//!
//! Numbers, strings, truth values and null are written as JSON has them.
//! The kinds that JSON lacks follow the extended-JSON convention in its
//! relaxed form: an object with a key that begins with `$`. A finite double
//! is put out as a piece of its own, by its bit pattern, for the caller to
//! print; a double that is not finite is written as `null`.

use crate::base64::{base64, push_base64};
use crate::decimal::{decimal, push_decimal, push_signed_decimal, signed_decimal};
use crate::endian::{bits_of_i64, lemma_u64_le_round_trip, read_u64_le, write_i64_le};
use crate::ser::deprecated::{
    code_with_scope_message, db_pointer_message, symbol_message, undefined_message,
};
use crate::ser::error::{ErrorView, SerializeError};
use crate::ser::traits::{Call, Serializer};
use crate::text::{chars_of, code_of, push_char, push_str};
use crate::types::array::Array;
use crate::types::document::Document;
use crate::types::object_id::{hex_digit, hex_encode, hex_text, ObjectId};
use crate::types::value::{DocumentView, Value, ValueView};
use crate::wire::{deep_nesting_text, deprecated_text, is_deprecated, MAX_DEPTH};
use vstd::prelude::*;
use vstd::slice::slice_to_vec;

verus! {

/// One unit of JSON output: a character, by its code point, or a finite
/// double, by its bit pattern, that is still to be printed.
pub enum JsonAtom {
    Char(u32),
    Double(u64),
}

/// A piece of JSON output: text, or a finite double by its bit pattern.
#[derive(Debug, Clone, PartialEq)]
pub enum JsonPiece {
    Text(String),
    Double(u64),
}

/// The characters of `s` as output.
pub open spec fn text_atoms(s: Seq<char>) -> Seq<JsonAtom> {
    Seq::new(s.len(), |i: int| JsonAtom::Char(s[i] as u32))
}

/// The output that one piece stands for.
pub open spec fn piece_atoms(piece: JsonPiece) -> Seq<JsonAtom> {
    match piece {
        JsonPiece::Text(s) => text_atoms(s@),
        JsonPiece::Double(bits) => seq![JsonAtom::Double(bits)],
    }
}

/// The output that pieces stand for, one after the other.
pub open spec fn pieces_atoms(pieces: Seq<JsonPiece>) -> Seq<JsonAtom>
    decreases pieces.len(),
{
    if pieces.len() == 0 {
        Seq::empty()
    } else {
        pieces_atoms(pieces.drop_last()) + piece_atoms(pieces.last())
    }
}

/// Whether the double with the given bit pattern is finite: its exponent
/// bits are not all set.
pub open spec fn is_finite_bits(bits: u64) -> bool {
    (bits / 0x10_0000_0000_0000) % 0x800 != 0x7ff
}

/// Two spaces for each level of nesting, in pretty output.
pub open spec fn indent(pretty: bool, level: nat) -> Seq<char>
    decreases level,
{
    if !pretty || level == 0 {
        Seq::empty()
    } else {
        indent(pretty, (level - 1) as nat) + "  "@
    }
}

/// A line break, in pretty output.
pub open spec fn newline(pretty: bool) -> Seq<char> {
    if pretty {
        "\n"@
    } else {
        Seq::empty()
    }
}

/// What stands between two members: a comma, and a line break in pretty
/// output.
pub open spec fn separator(pretty: bool) -> Seq<char> {
    if pretty {
        ",\n"@
    } else {
        ","@
    }
}

/// One character inside a JSON string.
pub open spec fn escaped_char(c: char) -> Seq<char> {
    if c == '"' {
        "\\\""@
    } else if c == '\\' {
        "\\\\"@
    } else if c == '\n' {
        "\\n"@
    } else if c == '\r' {
        "\\r"@
    } else if c == '\t' {
        "\\t"@
    } else if (c as int) < 0x20 {
        "\\u00"@ + seq![hex_digit(c as int / 16), hex_digit(c as int % 16)]
    } else {
        seq![c]
    }
}

/// The characters of a text inside a JSON string.
pub open spec fn escaped(s: Seq<char>) -> Seq<char>
    decreases s.len(),
{
    if s.len() == 0 {
        Seq::empty()
    } else {
        escaped(s.drop_last()) + escaped_char(s.last())
    }
}

/// A JSON string: the escaped text between double quotes.
pub open spec fn json_string(s: Seq<char>) -> Seq<char> {
    "\""@ + escaped(s) + "\""@
}

/// The upper and the lower half of a timestamp's bit pattern: its time and
/// its increment.
pub open spec fn timestamp_time(t: i64) -> nat {
    (bits_of_i64(t) / 0x1_0000_0000) as nat
}

/// The increment of a timestamp: the lower half of its bit pattern.
pub open spec fn timestamp_increment(t: i64) -> nat {
    (bits_of_i64(t) % 0x1_0000_0000) as nat
}

/// The JSON of a value that holds no other value and is no double.
pub open spec fn json_scalar(v: ValueView) -> Seq<char> {
    match v {
        ValueView::String(s) => json_string(s),
        ValueView::Binary { subtype, bytes } => "{\"$binary\":{\"base64\":\""@ + base64(bytes)
            + "\",\"subType\":\""@ + hex_text(seq![subtype]) + "\"}}"@,
        ValueView::ObjectId(id) => "{\"$oid\":\""@ + hex_text(id) + "\"}"@,
        ValueView::Boolean(b) => if b { "true"@ } else { "false"@ },
        ValueView::UTCDateTime(t) => "{\"$date\":{\"$numberLong\":\""@ + signed_decimal(t as int)
            + "\"}}"@,
        ValueView::RegularExpression { pattern, options } =>
            "{\"$regularExpression\":{\"pattern\":"@ + json_string(pattern) + ",\"options\":"@
            + json_string(options) + "}}"@,
        ValueView::JavaScriptCode(code) => "{\"$code\":"@ + json_string(code) + "}"@,
        ValueView::Int32(x) => signed_decimal(x as int),
        ValueView::Timestamp(t) => "{\"$timestamp\":{\"t\":"@ + decimal(timestamp_time(t))
            + ",\"i\":"@ + decimal(timestamp_increment(t)) + "}}"@,
        ValueView::Int64(x) => signed_decimal(x as int),
        ValueView::UInt64(x) => decimal(x as nat),
        ValueView::MinKey => "{\"$minKey\":1}"@,
        ValueView::MaxKey => "{\"$maxKey\":1}"@,
        _ => "null"@,
    }
}

/// The JSON of a value that is written at the nesting level `level`.
pub open spec fn json_value(v: ValueView, pretty: bool, level: nat) -> Seq<JsonAtom>
    decreases v, 0int,
{
    match v {
        ValueView::Double(bits) => if is_finite_bits(bits) {
            seq![JsonAtom::Double(bits)]
        } else {
            text_atoms("null"@)
        },
        ValueView::Document(d) => text_atoms("{"@ + newline(pretty)) + json_fields(d, pretty, level + 1)
            + text_atoms(newline(pretty) + indent(pretty, level) + "}"@),
        ValueView::Array(a) => text_atoms("["@ + newline(pretty)) + json_items(a, pretty, level + 1)
            + text_atoms(newline(pretty) + indent(pretty, level) + "]"@),
        _ => text_atoms(json_scalar(v)),
    }
}

/// One member of an object: its indentation, its name, a colon and a
/// space, its value.
pub open spec fn json_field(name: Seq<char>, v: ValueView, pretty: bool, level: nat) -> Seq<JsonAtom>
    decreases v, 1int,
{
    text_atoms(indent(pretty, level) + json_string(name) + ": "@) + json_value(v, pretty, level)
}

/// The members of an object, with separators between them.
pub open spec fn json_fields(d: DocumentView, pretty: bool, level: nat) -> Seq<JsonAtom>
    decreases d, 2int,
{
    if d.len() == 0 {
        Seq::empty()
    } else if d.len() == 1 {
        json_field(d.last().0, d.last().1, pretty, level)
    } else {
        json_fields(d.drop_last(), pretty, level) + text_atoms(separator(pretty)) + json_field(
            d.last().0,
            d.last().1,
            pretty,
            level,
        )
    }
}

/// The items of an array, each behind its indentation, with separators
/// between them.
pub open spec fn json_items(a: Seq<ValueView>, pretty: bool, level: nat) -> Seq<JsonAtom>
    decreases a, 2int,
{
    if a.len() == 0 {
        Seq::empty()
    } else if a.len() == 1 {
        text_atoms(indent(pretty, level)) + json_value(a.last(), pretty, level)
    } else {
        json_items(a.drop_last(), pretty, level) + text_atoms(separator(pretty)) + text_atoms(
            indent(pretty, level),
        ) + json_value(a.last(), pretty, level)
    }
}

/// The failure that stops the writing of `v` at the nesting level `level`:
/// that of the first deprecated value or of the first document or array
/// that lies too deep.
pub open spec fn json_fault(v: ValueView, level: nat) -> Option<ErrorView>
    decreases v, 0int,
{
    match v {
        ValueView::Document(d) => if level >= MAX_DEPTH {
            Some(ErrorView::InvalidValue(deep_nesting_text()))
        } else {
            json_fields_fault(d, level + 1)
        },
        ValueView::Array(a) => if level >= MAX_DEPTH {
            Some(ErrorView::InvalidValue(deep_nesting_text()))
        } else {
            json_items_fault(a, level + 1)
        },
        _ => if is_deprecated(v) {
            Some(ErrorView::Deprecated(deprecated_text(v)))
        } else {
            None
        },
    }
}

/// The failure of the first field that has one.
pub open spec fn json_fields_fault(d: DocumentView, level: nat) -> Option<ErrorView>
    decreases d, 1int,
{
    if d.len() == 0 {
        None
    } else {
        match json_fields_fault(d.drop_last(), level) {
            Some(e) => Some(e),
            None => json_fault(d.last().1, level),
        }
    }
}

/// The failure of the first item that has one.
pub open spec fn json_items_fault(a: Seq<ValueView>, level: nat) -> Option<ErrorView>
    decreases a, 1int,
{
    if a.len() == 0 {
        None
    } else {
        match json_items_fault(a.drop_last(), level) {
            Some(e) => Some(e),
            None => json_fault(a.last(), level),
        }
    }
}

/// The mathematical state of a JSON serializer.
#[verifier::ext_equal]
pub struct JsonState {
    /// What was written so far.
    pub output: Seq<JsonAtom>,
    /// Whether the output is indented and broken into lines.
    pub pretty: bool,
    /// The number of objects and arrays that are open.
    pub level: nat,
}

/// The detail of the failure to close an object where none is open.
pub open spec fn none_open_text() -> Seq<char> {
    "no document is open"@
}

/// The state after a call, or the failure that stopped it.
pub open spec fn json_after(pre: JsonState, call: Call) -> Result<JsonState, ErrorView> {
    match call {
        Call::Value(v) => match json_fault(v, pre.level) {
            Some(e) => Err(e),
            None => Ok(JsonState { output: pre.output + json_value(v, pre.pretty, pre.level), ..pre }),
        },
        Call::FieldName(name) => Ok(
            JsonState {
                output: pre.output + text_atoms(indent(pre.pretty, pre.level) + json_string(name) + ": "@),
                ..pre
            },
        ),
        Call::StartDocument => if pre.level >= MAX_DEPTH {
            Err(ErrorView::InvalidValue(deep_nesting_text()))
        } else {
            Ok(
                JsonState {
                    output: pre.output + text_atoms("{"@ + newline(pre.pretty)),
                    level: pre.level + 1,
                    ..pre
                },
            )
        },
        Call::EndDocument => if pre.level == 0 {
            Err(ErrorView::InvalidDocument(none_open_text()))
        } else {
            Ok(
                JsonState {
                    output: pre.output + text_atoms(
                        newline(pre.pretty) + indent(pre.pretty, (pre.level - 1) as nat) + "}"@,
                    ),
                    level: (pre.level - 1) as nat,
                    ..pre
                },
            )
        },
    }
}

/// Whether `post` and `r` are what `expected` asks for: the state on
/// success, the failure otherwise. After a failure the state is not fixed.
pub open spec fn json_agrees(expected: Result<JsonState, ErrorView>, post: JsonState, r: Result<(), SerializeError>) -> bool {
    match expected {
        Ok(s) => r is Ok && post == s,
        Err(e) => r matches Err(err) && err@ == e,
    }
}

/// The characters of two texts, one after the other.
pub proof fn lemma_text_atoms_add(a: Seq<char>, b: Seq<char>)
    ensures
        text_atoms(a + b) == text_atoms(a) + text_atoms(b),
{
    assert(text_atoms(a + b) =~= text_atoms(a) + text_atoms(b));
}

/// A serializer that writes JSON.
pub struct JsonSerializer {
    pieces: Vec<JsonPiece>,
    output: String,
    pretty: bool,
    indent_level: usize,
}

impl View for JsonSerializer {
    type V = JsonState;

    closed spec fn view(&self) -> JsonState {
        JsonState {
            output: pieces_atoms(self.pieces@) + text_atoms(self.output@),
            pretty: self.pretty,
            level: self.indent_level as nat,
        }
    }
}

impl JsonSerializer {
    /// A serializer with nothing written and nothing open.
    pub fn new(pretty: bool) -> (s: JsonSerializer)
        ensures
            s@ == (JsonState { output: Seq::empty(), pretty, level: 0 }),
    {
        let s = JsonSerializer { pieces: Vec::new(), output: String::new(), pretty, indent_level: 0 };
        assert(s@.output =~= Seq::<JsonAtom>::empty());
        s
    }

    /// What was written, in pieces.
    pub fn into_pieces(self) -> (pieces: Vec<JsonPiece>)
        ensures
            pieces_atoms(pieces@) == self@.output,
    {
        let mut pieces = self.pieces;
        let ghost before = pieces@;
        pieces.push(JsonPiece::Text(self.output));
        assert(pieces@.drop_last() =~= before);
        pieces
    }

    /// Writes text.
    fn put(&mut self, text: &str)
        ensures
            final(self)@ == (JsonState { output: old(self)@.output + text_atoms(text@), ..old(self)@ }),
    {
        push_str(&mut self.output, text);
        proof {
            lemma_text_atoms_add(old(self).output@, text@);
            assert(self@.output =~= old(self)@.output + text_atoms(text@));
        }
    }

    /// Writes one character.
    fn put_char(&mut self, c: char)
        ensures
            final(self)@ == (JsonState { output: old(self)@.output + text_atoms(seq![c]), ..old(self)@ }),
    {
        push_char(&mut self.output, c);
        proof {
            assert(old(self).output@.push(c) =~= old(self).output@ + seq![c]);
            lemma_text_atoms_add(old(self).output@, seq![c]);
            assert(self@.output =~= old(self)@.output + text_atoms(seq![c]));
        }
    }

    /// Writes a finite double as a piece of its own.
    fn put_double(&mut self, bits: u64)
        ensures
            final(self)@ == (JsonState {
                output: old(self)@.output + seq![JsonAtom::Double(bits)],
                ..old(self)@
            }),
    {
        let mut text = String::new();
        std::mem::swap(&mut text, &mut self.output);
        let ghost pieces0 = self.pieces@;
        self.pieces.push(JsonPiece::Text(text));
        let ghost pieces1 = self.pieces@;
        self.pieces.push(JsonPiece::Double(bits));
        proof {
            assert(pieces1.drop_last() =~= pieces0);
            assert(self.pieces@.drop_last() =~= pieces1);
            assert(pieces1.last() == JsonPiece::Text(text));
            assert(pieces_atoms(pieces1) == pieces_atoms(pieces0) + text_atoms(old(self).output@));
            assert(self.pieces@.last() == JsonPiece::Double(bits));
            assert(pieces_atoms(self.pieces@) == pieces_atoms(pieces1) + seq![JsonAtom::Double(bits)]);
            assert(text_atoms(self.output@) =~= Seq::<JsonAtom>::empty());
            assert(self@.output =~= old(self)@.output + seq![JsonAtom::Double(bits)]);
        }
    }

    /// Writes the indentation of the current level, in pretty output.
    pub fn write_indent(&mut self)
        ensures
            final(self)@ == (JsonState {
                output: old(self)@.output + text_atoms(indent(old(self)@.pretty, old(self)@.level)),
                ..old(self)@
            }),
    {
        if self.pretty {
            let mut i: usize = 0;
            assert(self@.output =~= old(self)@.output + text_atoms(indent(true, 0)));
            while i < self.indent_level
                invariant
                    i <= self.indent_level,
                    self.pretty,
                    self.indent_level == old(self).indent_level,
                    self@ == (JsonState {
                        output: old(self)@.output + text_atoms(indent(true, i as nat)),
                        ..old(self)@
                    }),
                decreases self.indent_level - i,
            {
                self.put("  ");
                proof {
                    lemma_text_atoms_add(indent(true, i as nat), "  "@);
                    assert(self@.output =~= old(self)@.output + text_atoms(indent(true, (i + 1) as nat)));
                }
                i += 1;
            }
        } else {
            assert(self@.output =~= old(self)@.output + text_atoms(indent(false, old(self)@.level)));
        }
    }

    /// Writes a line break, in pretty output.
    pub fn write_newline(&mut self)
        ensures
            final(self)@ == (JsonState {
                output: old(self)@.output + text_atoms(newline(old(self)@.pretty)),
                ..old(self)@
            }),
    {
        if self.pretty {
            self.put_char('\n');
            proof {
                reveal_strlit("\n");
                assert("\n"@ =~= seq!['\n']);
            }
        } else {
            assert(self@.output =~= old(self)@.output + text_atoms(newline(false)));
        }
    }

    /// Writes what stands between two members.
    pub fn write_separator(&mut self)
        ensures
            final(self)@ == (JsonState {
                output: old(self)@.output + text_atoms(separator(old(self)@.pretty)),
                ..old(self)@
            }),
    {
        if self.pretty {
            self.put(",\n");
        } else {
            self.put_char(',');
            proof {
                reveal_strlit(",");
                assert(","@ =~= seq![',']);
            }
        }
    }
}

/// The character of a hexadecimal digit.
fn hex_digit_char(n: u8) -> (c: char)
    requires
        n < 16,
    ensures
        c == hex_digit(n as int),
{
    if n < 10 {
        (48u8 + n) as char
    } else {
        (87u8 + n) as char
    }
}

/// Appends a text as it stands inside a JSON string.
pub fn push_escaped(out: &mut String, text: &str)
    ensures
        final(out)@ == old(out)@ + escaped(text@),
{
    let letters = chars_of(text);
    let mut i: usize = 0;
    assert(text@.take(0) =~= Seq::<char>::empty());
    assert(out@ =~= old(out)@ + escaped(text@.take(0)));
    while i < letters.len()
        invariant
            i <= letters@.len(),
            letters@ == text@,
            out@ == old(out)@ + escaped(text@.take(i as int)),
        decreases letters.len() - i,
    {
        let c = letters[i];
        let code = code_of(c);
        let ghost before = out@;
        if code == 34 {
            push_str(out, "\\\"");
        } else if code == 92 {
            push_str(out, "\\\\");
        } else if code == 10 {
            push_str(out, "\\n");
        } else if code == 13 {
            push_str(out, "\\r");
        } else if code == 9 {
            push_str(out, "\\t");
        } else if code < 0x20 {
            push_str(out, "\\u00");
            push_char(out, hex_digit_char((code / 16) as u8));
            push_char(out, hex_digit_char((code % 16) as u8));
            assert(out@ =~= before + escaped_char(c));
        } else {
            push_char(out, c);
            assert(out@ =~= before + escaped_char(c));
        }
        proof {
            let next = text@.take(i + 1);
            assert(next.drop_last() =~= text@.take(i as int));
            assert(next.last() == c);
            assert(out@ == before + escaped_char(c));
            assert(out@ =~= old(out)@ + escaped(next));
        }
        i += 1;
    }
    assert(text@.take(letters@.len() as int) =~= text@);
}

/// Appends a JSON string.
pub fn push_json_string(out: &mut String, text: &str)
    ensures
        final(out)@ == old(out)@ + json_string(text@),
{
    push_str(out, "\"");
    push_escaped(out, text);
    push_str(out, "\"");
    assert(out@ =~= old(out)@ + json_string(text@));
}

/// Whether the double with the given bit pattern is finite.
pub fn is_finite(bits: u64) -> (finite: bool)
    ensures
        finite == is_finite_bits(bits),
{
    (bits / 0x10_0000_0000_0000) % 0x800 != 0x7ff
}

/// The JSON of a value that holds no other value and is no double.
fn scalar_text(value: &Value) -> (s: String)
    requires
        !(value@ is Document) && !(value@ is Array),
    ensures
        s@ == json_scalar(value@),
{
    let mut s = String::new();
    match value {
        Value::String(text) => {
            push_json_string(&mut s, text.as_str());
        },
        Value::Binary { subtype, bytes } => {
            push_str(&mut s, "{\"$binary\":{\"base64\":\"");
            push_base64(&mut s, bytes.as_slice());
            push_str(&mut s, "\",\"subType\":\"");
            let kind: [u8; 1] = [*subtype];
            let hex = hex_encode(kind.as_slice());
            assert(kind@ =~= seq![*subtype]);
            push_str(&mut s, hex.as_str());
            push_str(&mut s, "\"}}");
        },
        Value::ObjectId(id) => {
            push_str(&mut s, "{\"$oid\":\"");
            let hex = id.to_string();
            push_str(&mut s, hex.as_str());
            push_str(&mut s, "\"}");
        },
        Value::Boolean(b) => {
            if *b {
                push_str(&mut s, "true");
            } else {
                push_str(&mut s, "false");
            }
        },
        Value::UTCDateTime(t) => {
            push_str(&mut s, "{\"$date\":{\"$numberLong\":\"");
            push_signed_decimal(&mut s, *t);
            push_str(&mut s, "\"}}");
        },
        Value::RegularExpression { pattern, options } => {
            push_str(&mut s, "{\"$regularExpression\":{\"pattern\":");
            push_json_string(&mut s, pattern.as_str());
            push_str(&mut s, ",\"options\":");
            push_json_string(&mut s, options.as_str());
            push_str(&mut s, "}}");
        },
        Value::JavaScriptCode(code) => {
            push_str(&mut s, "{\"$code\":");
            push_json_string(&mut s, code.as_str());
            push_str(&mut s, "}");
        },
        Value::Int32(x) => {
            push_signed_decimal(&mut s, *x as i64);
        },
        Value::Timestamp(t) => {
            let bits = read_u64_le(write_i64_le(*t).as_slice());
            proof {
                lemma_u64_le_round_trip(bits_of_i64(*t));
            }
            push_str(&mut s, "{\"$timestamp\":{\"t\":");
            push_decimal(&mut s, bits / 0x1_0000_0000);
            push_str(&mut s, ",\"i\":");
            push_decimal(&mut s, bits % 0x1_0000_0000);
            push_str(&mut s, "}}");
        },
        Value::Int64(x) => {
            push_signed_decimal(&mut s, *x);
        },
        Value::UInt64(x) => {
            push_decimal(&mut s, *x);
        },
        Value::MinKey => {
            push_str(&mut s, "{\"$minKey\":1}");
        },
        Value::MaxKey => {
            push_str(&mut s, "{\"$maxKey\":1}");
        },
        _ => {
            push_str(&mut s, "null");
        },
    }
    assert(s@ =~= json_scalar(value@));
    s
}

/// The fault of a run of fields is the fault of the whole object where the
/// run has one.
pub proof fn lemma_json_fields_fault_take(d: DocumentView, k: int, level: nat)
    requires
        0 <= k <= d.len(),
        json_fields_fault(d.take(k), level) is Some,
    ensures
        json_fields_fault(d, level) == json_fields_fault(d.take(k), level),
    decreases d.len(),
{
    if k == d.len() {
        assert(d.take(k) =~= d);
    } else {
        assert(d.drop_last().take(k) =~= d.take(k));
        lemma_json_fields_fault_take(d.drop_last(), k, level);
    }
}

/// The fault of a run of items is the fault of the whole array where the
/// run has one.
pub proof fn lemma_json_items_fault_take(a: Seq<ValueView>, k: int, level: nat)
    requires
        0 <= k <= a.len(),
        json_items_fault(a.take(k), level) is Some,
    ensures
        json_items_fault(a, level) == json_items_fault(a.take(k), level),
    decreases a.len(),
{
    if k == a.len() {
        assert(a.take(k) =~= a);
    } else {
        assert(a.drop_last().take(k) =~= a.take(k));
        lemma_json_items_fault_take(a.drop_last(), k, level);
    }
}

impl JsonSerializer {
    /// Writes the name of a member: indentation, name, colon, space.
    fn take_field_name(&mut self, name: &str)
        ensures
            json_agrees(json_after(old(self)@, Call::FieldName(name@)), final(self)@, Ok(())),
    {
        self.write_indent();
        let mut text = String::new();
        push_json_string(&mut text, name);
        push_str(&mut text, ": ");
        self.put(text.as_str());
        proof {
            let pre = old(self)@;
            lemma_text_atoms_add(indent(pre.pretty, pre.level), json_string(name@) + ": "@);
            assert(text@ =~= json_string(name@) + ": "@);
            assert(indent(pre.pretty, pre.level) + (json_string(name@) + ": "@) =~= indent(
                pre.pretty,
                pre.level,
            ) + json_string(name@) + ": "@);
            assert(self@.output =~= pre.output + text_atoms(
                indent(pre.pretty, pre.level) + json_string(name@) + ": "@,
            ));
        }
    }

    /// Opens an object or an array with its bracket.
    fn open(&mut self, bracket: char) -> (r: Result<(), SerializeError>)
        ensures
            old(self)@.level >= MAX_DEPTH ==> (r matches Err(e) && e@ == ErrorView::InvalidValue(
                deep_nesting_text(),
            )),
            old(self)@.level < MAX_DEPTH ==> r is Ok && final(self)@ == (JsonState {
                output: old(self)@.output + text_atoms(seq![bracket] + newline(old(self)@.pretty)),
                level: old(self)@.level + 1,
                ..old(self)@
            }),
    {
        if self.indent_level >= MAX_DEPTH {
            return Err(SerializeError::InvalidValue("documents are nested too deeply".to_string()));
        }
        self.put_char(bracket);
        self.indent_level = self.indent_level + 1;
        self.write_newline();
        proof {
            lemma_text_atoms_add(seq![bracket], newline(old(self)@.pretty));
            assert(self@.output =~= old(self)@.output + text_atoms(
                seq![bracket] + newline(old(self)@.pretty),
            ));
        }
        Ok(())
    }

    /// Closes an object or an array with its bracket.
    fn close(&mut self, bracket: char) -> (r: Result<(), SerializeError>)
        ensures
            old(self)@.level == 0 ==> (r matches Err(e) && e@ == ErrorView::InvalidDocument(
                none_open_text(),
            )),
            old(self)@.level > 0 ==> r is Ok && final(self)@ == (JsonState {
                output: old(self)@.output + text_atoms(
                    newline(old(self)@.pretty) + indent(
                        old(self)@.pretty,
                        (old(self)@.level - 1) as nat,
                    ) + seq![bracket],
                ),
                level: (old(self)@.level - 1) as nat,
                ..old(self)@
            }),
    {
        if self.indent_level == 0 {
            return Err(SerializeError::InvalidDocument("no document is open".to_string()));
        }
        self.indent_level = self.indent_level - 1;
        self.write_newline();
        self.write_indent();
        self.put_char(bracket);
        proof {
            let pre = old(self)@;
            let level = (pre.level - 1) as nat;
            lemma_text_atoms_add(newline(pre.pretty), indent(pre.pretty, level));
            lemma_text_atoms_add(newline(pre.pretty) + indent(pre.pretty, level), seq![bracket]);
            assert(self@.output =~= pre.output + text_atoms(
                newline(pre.pretty) + indent(pre.pretty, level) + seq![bracket],
            ));
        }
        Ok(())
    }

    /// Writes an object with the fields of `doc`.
    #[verifier::loop_isolation(false)]
    fn emit_document(&mut self, doc: &Document) -> (r: Result<(), SerializeError>)
        ensures
            json_agrees(
                json_after(old(self)@, Call::Value(ValueView::Document(doc@))),
                final(self)@,
                r,
            ),
        decreases doc, 0int,
    {
        let ghost pre = self@;
        let ghost inner = pre.level + 1;
        proof {
            reveal_strlit("{");
            reveal_strlit("}");
            assert("{"@ =~= seq!['{']);
            assert("}"@ =~= seq!['}']);
        }
        match self.open('{') {
            Err(e) => {
                return Err(e);
            },
            Ok(()) => {},
        }
        let ghost opened = self@;
        let n = doc.len();
        let mut i: usize = 0;
        assert(doc@.take(0) =~= DocumentView::empty());
        assert(self@.output =~= opened.output + json_fields(doc@.take(0), pre.pretty, inner));
        while i < n
            invariant
                i <= n,
                n == doc@.len(),
                self@ == (JsonState {
                    output: opened.output + json_fields(doc@.take(i as int), pre.pretty, inner),
                    ..opened
                }),
                json_fields_fault(doc@.take(i as int), inner) is None,
            decreases n - i,
        {
            let (name, value) = doc.entry(i);
            let ghost next = doc@.take(i + 1);
            let ghost before = self@;
            proof {
                assert(next.drop_last() =~= doc@.take(i as int));
                assert(next.last() == doc@[i as int]);
                assert(next.len() == i + 1);
                assert(json_fields_fault(next, inner) == json_fault(next.last().1, inner));
            }
            if i > 0 {
                self.write_separator();
            }
            self.take_field_name(name.as_str());
            match self.emit_value(value) {
                Err(e) => {
                    proof {
                        lemma_json_fields_fault_take(doc@, i + 1, inner);
                    }
                    return Err(e);
                },
                Ok(()) => {},
            }
            proof {
                let shown = json_field(next.last().0, next.last().1, pre.pretty, inner);
                if i == 0 {
                    assert(json_fields(doc@.take(0), pre.pretty, inner) =~= Seq::<JsonAtom>::empty());
                    assert(json_fields(next, pre.pretty, inner) == shown);
                } else {
                    assert(json_fields(next, pre.pretty, inner) == json_fields(
                        doc@.take(i as int),
                        pre.pretty,
                        inner,
                    ) + text_atoms(separator(pre.pretty)) + shown);
                }
                assert(self@.output =~= opened.output + json_fields(next, pre.pretty, inner));
            }
            i += 1;
        }
        proof {
            assert(doc@.take(n as int) =~= doc@);
        }
        match self.close('}') {
            Err(e) => Err(e),
            Ok(()) => {
                assert(self@.output =~= pre.output + json_value(
                    ValueView::Document(doc@),
                    pre.pretty,
                    pre.level,
                ));
                Ok(())
            },
        }
    }

    /// Writes an array with the items of `array`.
    #[verifier::loop_isolation(false)]
    fn emit_array(&mut self, array: &Array) -> (r: Result<(), SerializeError>)
        ensures
            json_agrees(
                json_after(old(self)@, Call::Value(ValueView::Array(array@))),
                final(self)@,
                r,
            ),
        decreases array, 0int,
    {
        let ghost pre = self@;
        let ghost inner = pre.level + 1;
        proof {
            reveal_strlit("[");
            reveal_strlit("]");
            assert("["@ =~= seq!['[']);
            assert("]"@ =~= seq![']']);
        }
        match self.open('[') {
            Err(e) => {
                return Err(e);
            },
            Ok(()) => {},
        }
        let ghost opened = self@;
        let n = array.len();
        let mut i: usize = 0;
        assert(array@.take(0) =~= Seq::<ValueView>::empty());
        assert(self@.output =~= opened.output + json_items(array@.take(0), pre.pretty, inner));
        while i < n
            invariant
                i <= n,
                n == array@.len(),
                self@ == (JsonState {
                    output: opened.output + json_items(array@.take(i as int), pre.pretty, inner),
                    ..opened
                }),
                json_items_fault(array@.take(i as int), inner) is None,
            decreases n - i,
        {
            let value = array.item(i);
            let ghost next = array@.take(i + 1);
            proof {
                assert(next.drop_last() =~= array@.take(i as int));
                assert(next.last() == array@[i as int]);
                assert(next.len() == i + 1);
                assert(json_items_fault(next, inner) == json_fault(next.last(), inner));
            }
            if i > 0 {
                self.write_separator();
            }
            self.write_indent();
            match self.emit_value(value) {
                Err(e) => {
                    proof {
                        lemma_json_items_fault_take(array@, i + 1, inner);
                    }
                    return Err(e);
                },
                Ok(()) => {},
            }
            proof {
                let shown = text_atoms(indent(pre.pretty, inner)) + json_value(
                    next.last(),
                    pre.pretty,
                    inner,
                );
                if i == 0 {
                    assert(json_items(array@.take(0), pre.pretty, inner) =~= Seq::<JsonAtom>::empty());
                    assert(json_items(next, pre.pretty, inner) == shown);
                } else {
                    assert(json_items(next, pre.pretty, inner) == json_items(
                        array@.take(i as int),
                        pre.pretty,
                        inner,
                    ) + text_atoms(separator(pre.pretty)) + text_atoms(indent(pre.pretty, inner))
                        + json_value(next.last(), pre.pretty, inner));
                }
                assert(self@.output =~= opened.output + json_items(next, pre.pretty, inner));
            }
            i += 1;
        }
        proof {
            assert(array@.take(n as int) =~= array@);
        }
        match self.close(']') {
            Err(e) => Err(e),
            Ok(()) => {
                assert(self@.output =~= pre.output + json_value(
                    ValueView::Array(array@),
                    pre.pretty,
                    pre.level,
                ));
                Ok(())
            },
        }
    }

    /// Writes a value that holds no other value.
    fn emit_flat(&mut self, value: &Value) -> (r: Result<(), SerializeError>)
        requires
            !(value@ is Document) && !(value@ is Array),
        ensures
            json_agrees(json_after(old(self)@, Call::Value(value@)), final(self)@, r),
    {
        match value {
            Value::Double(bits) => {
                if is_finite(*bits) {
                    self.put_double(*bits);
                } else {
                    self.put("null");
                }
                Ok(())
            },
            Value::Undefined => Err(SerializeError::Deprecated(undefined_message())),
            Value::DBPointer { collection, id } => Err(
                SerializeError::Deprecated(db_pointer_message(collection.as_str(), *id)),
            ),
            Value::Symbol(symbol) => Err(SerializeError::Deprecated(symbol_message(symbol.as_str()))),
            Value::JavaScriptCodeWithScope { code, scope } => Err(
                SerializeError::Deprecated(code_with_scope_message(code.as_str(), scope)),
            ),
            _ => {
                let text = scalar_text(value);
                self.put(text.as_str());
                Ok(())
            },
        }
    }

    /// Writes a value.
    pub fn emit_value(&mut self, value: &Value) -> (r: Result<(), SerializeError>)
        ensures
            json_agrees(json_after(old(self)@, Call::Value(value@)), final(self)@, r),
        decreases value, 1int,
    {
        match value {
            Value::Document(doc) => self.emit_document(doc),
            Value::Array(array) => self.emit_array(array),
            _ => self.emit_flat(value),
        }
    }
}

impl Serializer for JsonSerializer {
    open spec fn emitted(pre: Self, call: Call, post: Self, r: Result<(), SerializeError>) -> bool {
        json_agrees(json_after(pre@, call), post@, r)
    }

    fn serialize_f64(&mut self, value: u64) -> (r: Result<(), SerializeError>) {
        self.emit_flat(&Value::Double(value))
    }

    fn serialize_string(&mut self, value: &str) -> (r: Result<(), SerializeError>) {
        self.emit_flat(&Value::String(value.to_owned()))
    }

    fn serialize_document(&mut self, value: &Document) -> (r: Result<(), SerializeError>) {
        self.emit_document(value)
    }

    fn serialize_array(&mut self, value: &Array) -> (r: Result<(), SerializeError>) {
        self.emit_array(value)
    }

    fn serialize_binary(&mut self, subtype: u8, value: &[u8]) -> (r: Result<(), SerializeError>) {
        self.emit_flat(&Value::Binary { subtype, bytes: slice_to_vec(value) })
    }

    fn serialize_undefined(&mut self) -> (r: Result<(), SerializeError>) {
        self.emit_flat(&Value::Undefined)
    }

    fn serialize_object_id(&mut self, value: ObjectId) -> (r: Result<(), SerializeError>) {
        self.emit_flat(&Value::ObjectId(value))
    }

    fn serialize_boolean(&mut self, value: bool) -> (r: Result<(), SerializeError>) {
        self.emit_flat(&Value::Boolean(value))
    }

    fn serialize_utc_datetime(&mut self, value: i64) -> (r: Result<(), SerializeError>) {
        self.emit_flat(&Value::UTCDateTime(value))
    }

    fn serialize_null(&mut self) -> (r: Result<(), SerializeError>) {
        self.emit_flat(&Value::Null)
    }

    fn serialize_regex(&mut self, pattern: &str, options: &str) -> (r: Result<(), SerializeError>) {
        self.emit_flat(
            &Value::RegularExpression { pattern: pattern.to_owned(), options: options.to_owned() },
        )
    }

    fn serialize_db_pointer(&mut self, collection: &str, id: ObjectId) -> (r: Result<
        (),
        SerializeError,
    >) {
        Err(SerializeError::Deprecated(db_pointer_message(collection, id)))
    }

    fn serialize_javascript_code(&mut self, code: &str) -> (r: Result<(), SerializeError>) {
        self.emit_flat(&Value::JavaScriptCode(code.to_owned()))
    }

    fn serialize_symbol(&mut self, symbol: &str) -> (r: Result<(), SerializeError>) {
        Err(SerializeError::Deprecated(symbol_message(symbol)))
    }

    fn serialize_javascript_code_with_scope(&mut self, code: &str, scope: &Document) -> (r: Result<
        (),
        SerializeError,
    >) {
        Err(SerializeError::Deprecated(code_with_scope_message(code, scope)))
    }

    fn serialize_i32(&mut self, value: i32) -> (r: Result<(), SerializeError>) {
        self.emit_flat(&Value::Int32(value))
    }

    fn serialize_timestamp(&mut self, value: i64) -> (r: Result<(), SerializeError>) {
        self.emit_flat(&Value::Timestamp(value))
    }

    fn serialize_i64(&mut self, value: i64) -> (r: Result<(), SerializeError>) {
        self.emit_flat(&Value::Int64(value))
    }

    fn serialize_u64(&mut self, value: u64) -> (r: Result<(), SerializeError>) {
        self.emit_flat(&Value::UInt64(value))
    }

    fn serialize_min_key(&mut self) -> (r: Result<(), SerializeError>) {
        self.emit_flat(&Value::MinKey)
    }

    fn serialize_max_key(&mut self) -> (r: Result<(), SerializeError>) {
        self.emit_flat(&Value::MaxKey)
    }

    fn start_document(&mut self) -> (r: Result<(), SerializeError>) {
        proof {
            reveal_strlit("{");
            assert("{"@ =~= seq!['{']);
        }
        self.open('{')
    }

    fn end_document(&mut self) -> (r: Result<(), SerializeError>) {
        proof {
            reveal_strlit("}");
            assert("}"@ =~= seq!['}']);
        }
        self.close('}')
    }

    fn serialize_field_name(&mut self, name: &str) -> (r: Result<(), SerializeError>) {
        self.take_field_name(name);
        Ok(())
    }
}

/// The JSON of a document that stands alone, or the failure that stops the
/// writer.
pub open spec fn json_of(d: DocumentView, pretty: bool) -> Result<Seq<JsonAtom>, ErrorView> {
    match json_fault(ValueView::Document(d), 0) {
        Some(e) => Err(e),
        None => Ok(json_value(ValueView::Document(d), pretty, 0)),
    }
}

/// Writes a document as JSON, in pieces: text, and each finite double by
/// its bit pattern, for the caller to print.
pub fn to_json(doc: &Document, pretty: bool) -> (r: Result<Vec<JsonPiece>, SerializeError>)
    ensures
        match json_of(doc@, pretty) {
            Ok(output) => r matches Ok(pieces) && pieces_atoms(pieces@) == output,
            Err(e) => r matches Err(err) && err@ == e,
        },
{
    let mut serializer = JsonSerializer::new(pretty);
    match serializer.emit_document(doc) {
        Err(e) => Err(e),
        Ok(()) => {
            assert(Seq::<JsonAtom>::empty() + json_value(ValueView::Document(doc@), pretty, 0)
                =~= json_value(ValueView::Document(doc@), pretty, 0));
            Ok(serializer.into_pieces())
        },
    }
}

} // verus!
