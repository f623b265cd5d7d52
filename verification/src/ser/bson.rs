//! The BSON serializer: writes tagged fields to a byte sink and patches the
//! length of each document into its frame when the document is closed.

use crate::decimal::{decimal, lemma_decimal_digits, u64_to_string};
use crate::endian::{le_bytes_i32, le_bytes_i64, le_bytes_u32, le_bytes_u64};
use crate::ser::deprecated::{
    code_with_scope_message, db_pointer_message, symbol_message, undefined_message,
};
use crate::ser::error::{ErrorView, SerializeError};
use crate::ser::traits::{Call, Serializer};
use crate::ser::writer::{overwritten, ByteWriter};
use crate::text::{chars_of, push_char, push_str};
use crate::types::array::Array;
use crate::types::document::Document;
use crate::types::object_id::ObjectId;
use crate::types::value::{DocumentView, Value, ValueView};
use crate::wire::{
    cstring, deep_nesting_text, deprecated_text, document_bytes, document_fault, element,
    field_fault, fields_bytes,
    fields_fault, frame, has_nul, items_bytes, items_fault, long_binary_text, long_text_text,
    name_fault, nul_in_name_text, nul_in_regex_text, payload, shortened_code, size_fault, tag_of,
    text_fault, value_fault, wire_string, DEFAULT_MAX_DOCUMENT_BYTES, MAX_DEPTH, MAX_PREFIXED_LEN,
};
use vstd::prelude::*;
use vstd::string::StringSliceAdditionalSpecFns;
use vstd::utf8::{encode_utf8, is_ascii_chars, is_ascii_chars_encode_utf8};

verus! {

/// What an encoder is configured with.
#[derive(Debug, Clone, Copy, PartialEq)]
pub struct EncoderConfig {
    /// The largest document, in bytes of its frame, that is written.
    pub max_document_bytes: u32,
    /// Whether deprecated kinds of values are refused. They are never
    /// written, so `false` is a configuration that is not supported.
    pub reject_deprecated: bool,
}

impl EncoderConfig {
    /// Documents of up to 16 MiB, deprecated kinds refused.
    pub fn new() -> (config: EncoderConfig)
        ensures
            config.max_document_bytes == DEFAULT_MAX_DOCUMENT_BYTES,
            config.reject_deprecated,
    {
        EncoderConfig { max_document_bytes: DEFAULT_MAX_DOCUMENT_BYTES, reject_deprecated: true }
    }
}

/// The mathematical state of a BSON serializer.
#[verifier::ext_equal]
pub struct BsonState {
    /// The bytes written so far.
    pub written: Seq<u8>,
    /// For each open document, outermost first, where its frame begins.
    pub open: Seq<int>,
    /// The name of the field whose value comes next, if one was given.
    pub pending: Option<Seq<char>>,
    /// The largest document that is written.
    pub limit: u32,
}

/// The detail of the failure to close a document where none is open.
pub open spec fn none_open_text() -> Seq<char> {
    "no document is open"@
}

/// The detail of the failure to close a document whose frame does not lie
/// in what was written.
pub open spec fn lost_frame_text() -> Seq<char> {
    "the frame of the open document is not in the output"@
}

/// The detail of the failure to make an encoder that writes deprecated
/// kinds of values.
pub open spec fn lenient_encoder_text() -> Seq<char> {
    "deprecated kinds of values are never encoded"@
}

/// What stands in front of a payload: the tag, and the name where one is
/// pending.
pub open spec fn header(pending: Option<Seq<char>>, tag: u8) -> Seq<u8> {
    match pending {
        Some(name) => seq![tag] + cstring(name),
        None => seq![tag],
    }
}

/// The state after a value was serialized, or the failure that stopped it.
pub open spec fn after_value(pre: BsonState, v: ValueView) -> Result<BsonState, ErrorView> {
    match value_fault(v, pre.limit, pre.open.len()) {
        Some(e) => Err(e),
        None => Ok(
            BsonState {
                written: pre.written + header(pre.pending, tag_of(v)) + payload(v),
                open: pre.open,
                pending: None,
                limit: pre.limit,
            },
        ),
    }
}

/// The state after a field name was given, or the failure on the name.
pub open spec fn after_field_name(pre: BsonState, name: Seq<char>) -> Result<BsonState, ErrorView> {
    match name_fault(name) {
        Some(e) => Err(e),
        None => Ok(
            BsonState { written: pre.written, open: pre.open, pending: Some(name), limit: pre.limit },
        ),
    }
}

/// The state after a document was opened: four bytes are reserved for its
/// length, and the place of its frame is remembered.
pub open spec fn after_start(pre: BsonState) -> Result<BsonState, ErrorView> {
    if pre.open.len() >= MAX_DEPTH {
        Err(ErrorView::InvalidValue(deep_nesting_text()))
    } else {
        Ok(
            BsonState {
                written: pre.written + seq![0u8, 0u8, 0u8, 0u8],
                open: pre.open.push(pre.written.len() as int),
                pending: pre.pending,
                limit: pre.limit,
            },
        )
    }
}

/// The state after the length of the innermost open document was patched
/// into its frame.
pub open spec fn after_length(pre: BsonState) -> Result<BsonState, ErrorView> {
    if pre.open.len() == 0 {
        Err(ErrorView::InvalidDocument(none_open_text()))
    } else if pre.open.last() < 0 || pre.open.last() + 4 > pre.written.len() {
        Err(ErrorView::InvalidDocument(lost_frame_text()))
    } else if pre.written.len() - pre.open.last() > pre.limit {
        Err(ErrorView::BufferOverflow)
    } else {
        Ok(
            BsonState {
                written: overwritten(
                    pre.written,
                    pre.open.last(),
                    le_bytes_u32((pre.written.len() - pre.open.last()) as u32),
                ),
                open: pre.open.drop_last(),
                pending: pre.pending,
                limit: pre.limit,
            },
        )
    }
}

/// The state after a document was closed: the terminator is written, then
/// the length is patched in.
pub open spec fn after_end(pre: BsonState) -> Result<BsonState, ErrorView> {
    after_length(
        BsonState { written: pre.written.push(0u8), open: pre.open, pending: pre.pending, limit: pre.limit },
    )
}

/// The state after a call, or the failure that stopped it.
pub open spec fn after(pre: BsonState, call: Call) -> Result<BsonState, ErrorView> {
    match call {
        Call::Value(v) => after_value(pre, v),
        Call::FieldName(name) => after_field_name(pre, name),
        Call::StartDocument => after_start(pre),
        Call::EndDocument => after_end(pre),
    }
}

/// Whether `post` and `r` are what `expected` asks for: the state on
/// success, the failure otherwise. After a failure the state is not fixed.
pub open spec fn agrees(expected: Result<BsonState, ErrorView>, post: BsonState, r: Result<(), SerializeError>) -> bool {
    match expected {
        Ok(s) => r is Ok && post == s,
        Err(e) => r matches Err(err) && err@ == e,
    }
}

/// Whether the byte 0x00 occurs in `bytes`.
pub fn contains_nul(bytes: &[u8]) -> (found: bool)
    ensures
        found == has_nul(bytes@),
{
    let mut i: usize = 0;
    while i < bytes.len()
        invariant
            i <= bytes@.len(),
            forall|j: int| 0 <= j < i ==> bytes@[j] != 0,
        decreases bytes.len() - i,
    {
        if bytes[i] == 0 {
            return true;
        }
        i += 1;
    }
    false
}

/// The base-10 text of a number holds no 0x00 byte.
pub proof fn lemma_decimal_has_no_nul(n: nat)
    ensures
        !has_nul(encode_utf8(decimal(n))),
        name_fault(decimal(n)) is None,
{
    lemma_decimal_digits(n);
    let text = decimal(n);
    assert(is_ascii_chars(text)) by {
        assert forall|i: int| 0 <= i < text.len() implies '\0' <= #[trigger] text[i] <= '\u{7f}' by {
            assert(crate::decimal::is_digit(text[i]));
        }
    }
    is_ascii_chars_encode_utf8(text);
    assert forall|i: int| 0 <= i < encode_utf8(text).len() implies #[trigger] encode_utf8(text)[i] != 0 by {
        assert(crate::decimal::is_digit(text[i]));
        assert(text[i] as u8 == encode_utf8(text)[i]);
    }
}

/// A serializer that writes BSON to a byte sink.
pub struct BsonSerializer {
    writer: ByteWriter,
    document_positions: Vec<u64>,
    pending_name: Option<String>,
    max_document_bytes: u32,
}

impl View for BsonSerializer {
    type V = BsonState;

    closed spec fn view(&self) -> BsonState {
        BsonState {
            written: self.writer.bytes().take(self.writer.cursor() as int),
            open: Seq::new(self.document_positions@.len(), |i: int| self.document_positions@[i] as int),
            pending: match self.pending_name {
                Some(name) => Some(name@),
                None => None,
            },
            limit: self.max_document_bytes,
        }
    }
}

impl BsonSerializer {
    /// A serializer that writes to `writer` from its cursor on, with no
    /// document open and documents of up to 16 MiB.
    pub fn new(writer: ByteWriter) -> (s: BsonSerializer)
        ensures
            s@.written == writer.bytes().take(writer.cursor() as int),
            s@.open == Seq::<int>::empty(),
            s@.pending is None,
            s@.limit == DEFAULT_MAX_DOCUMENT_BYTES,
    {
        let s = BsonSerializer {
            writer,
            document_positions: Vec::new(),
            pending_name: None,
            max_document_bytes: DEFAULT_MAX_DOCUMENT_BYTES,
        };
        assert(s@.open =~= Seq::<int>::empty());
        s
    }

    /// A serializer that writes to `writer` from its cursor on, as `config`
    /// says. A configuration that does not refuse deprecated kinds of values
    /// is itself refused.
    pub fn with_config(writer: ByteWriter, config: EncoderConfig) -> (r: Result<
        BsonSerializer,
        SerializeError,
    >)
        ensures
            config.reject_deprecated ==> (r matches Ok(s) && s@.written == writer.bytes().take(
                writer.cursor() as int,
            ) && s@.open == Seq::<int>::empty() && s@.pending is None && s@.limit
                == config.max_document_bytes),
            !config.reject_deprecated ==> (r matches Err(e) && e@ == ErrorView::NotSupported(
                lenient_encoder_text(),
            )),
    {
        if !config.reject_deprecated {
            return Err(
                SerializeError::NotSupported("deprecated kinds of values are never encoded".to_string()),
            );
        }
        let s = BsonSerializer {
            writer,
            document_positions: Vec::new(),
            pending_name: None,
            max_document_bytes: config.max_document_bytes,
        };
        assert(s@.open =~= Seq::<int>::empty());
        Ok(s)
    }

    /// The byte sink, with what was written to it.
    pub fn into_inner(self) -> (writer: ByteWriter)
        ensures
            writer.bytes().take(writer.cursor() as int) == self@.written,
    {
        self.writer
    }

    /// The position of the writer: the number of bytes written so far.
    pub fn current_position(&mut self) -> (r: Result<u64, SerializeError>)
        ensures
            r matches Ok(at) && at == old(self)@.written.len(),
            final(self)@ == old(self)@,
    {
        Ok(self.writer.position())
    }

    /// Writes `data` behind what was written.
    fn append(&mut self, data: &[u8])
        ensures
            final(self)@ == (BsonState { written: old(self)@.written + data@, ..old(self)@ }),
    {
        proof {
            self.writer.lemma_cursor_in_range();
        }
        self.writer.write_all(data);
        assert(self@.written =~= old(self)@.written + data@);
    }

    /// Writes one byte behind what was written.
    fn append_byte(&mut self, byte: u8)
        ensures
            final(self)@ == (BsonState { written: old(self)@.written.push(byte), ..old(self)@ }),
    {
        proof {
            self.writer.lemma_cursor_in_range();
        }
        self.writer.write_u8(byte);
        assert(self@.written =~= old(self)@.written.push(byte));
    }

    /// Writes the tag of a value, and the pending field name behind it.
    fn write_header(&mut self, tag: u8)
        ensures
            final(self)@ == (BsonState {
                written: old(self)@.written + header(old(self)@.pending, tag),
                pending: None,
                ..old(self)@
            }),
    {
        self.append_byte(tag);
        let name = self.pending_name.take();
        match name {
            Some(name) => {
                self.append(name.as_str().as_bytes());
                self.append_byte(0);
                assert(self@.written =~= old(self)@.written + header(old(self)@.pending, tag));
            },
            None => {
                assert(self@.written =~= old(self)@.written + header(old(self)@.pending, tag));
            },
        }
    }

    /// Writes a string payload: length, bytes, terminator. The text fits its
    /// length prefix.
    fn append_string(&mut self, text: &str)
        requires
            encode_utf8(text@).len() < MAX_PREFIXED_LEN,
        ensures
            final(self)@ == (BsonState { written: old(self)@.written + wire_string(text@), ..old(self)@ }),
    {
        let bytes = text.as_bytes();
        let n: i32 = (bytes.len() + 1) as i32;
        let prefix = crate::endian::write_i32_le(n);
        self.append(prefix.as_slice());
        self.append(bytes);
        self.append_byte(0);
        assert(self@.written =~= old(self)@.written + wire_string(text@));
    }

    /// Writes text as a C string: bytes, terminator.
    fn append_cstring(&mut self, text: &str)
        ensures
            final(self)@ == (BsonState { written: old(self)@.written + cstring(text@), ..old(self)@ }),
    {
        self.append(text.as_bytes());
        self.append_byte(0);
        assert(self@.written =~= old(self)@.written + cstring(text@));
    }

    /// Patches the length of the innermost open document into its frame:
    /// the number of bytes from the start of the frame to the cursor.
    pub fn write_document_length(&mut self) -> (r: Result<(), SerializeError>)
        ensures
            agrees(after_length(old(self)@), final(self)@, r),
    {
        let current = self.writer.position();
        let top = self.document_positions.pop();
        let start = match top {
            Some(start) => start,
            None => {
                return Err(SerializeError::InvalidDocument("no document is open".to_string()));
            },
        };
        assert(start == old(self)@.open.last());
        if start > current || current - start < 4 {
            return Err(
                SerializeError::InvalidDocument(
                    "the frame of the open document is not in the output".to_string(),
                ),
            );
        }
        let length = current - start;
        if length > self.max_document_bytes as u64 {
            return Err(SerializeError::BufferOverflow);
        }
        let ghost bytes = self.writer.bytes();
        let _ = self.writer.seek(start);
        self.writer.write_u32(length as u32);
        let _ = self.writer.seek(current);
        proof {
            let patch = le_bytes_u32(length as u32);
            assert(self.writer.bytes() =~= overwritten(bytes, start as int, patch));
            assert(self@.written =~= overwritten(old(self)@.written, start as int, patch));
            assert(self@.open =~= old(self)@.open.drop_last());
        }
        Ok(())
    }
}

/// The fault of a run of fields is the fault of the whole document where
/// the run has one.
pub proof fn lemma_fields_fault_take(d: DocumentView, k: int, limit: u32, depth: nat)
    requires
        0 <= k <= d.len(),
        fields_fault(d.take(k), limit, depth) is Some,
    ensures
        fields_fault(d, limit, depth) == fields_fault(d.take(k), limit, depth),
    decreases d.len(),
{
    if k == d.len() {
        assert(d.take(k) =~= d);
    } else {
        assert(d.drop_last().take(k) =~= d.take(k));
        lemma_fields_fault_take(d.drop_last(), k, limit, depth);
    }
}

/// The fault of a run of values is the fault of the whole array where the
/// run has one.
pub proof fn lemma_items_fault_take(a: Seq<ValueView>, k: int, limit: u32, depth: nat)
    requires
        0 <= k <= a.len(),
        items_fault(a.take(k), limit, depth) is Some,
    ensures
        items_fault(a, limit, depth) == items_fault(a.take(k), limit, depth),
    decreases a.len(),
{
    if k == a.len() {
        assert(a.take(k) =~= a);
    } else {
        assert(a.drop_last().take(k) =~= a.take(k));
        lemma_items_fault_take(a.drop_last(), k, limit, depth);
    }
}

/// A reserved length followed by a body and a terminator, with the length
/// patched in, is the frame of the body.
pub proof fn lemma_patched_frame(before: Seq<u8>, body: Seq<u8>)
    requires
        body.len() + 5 <= u32::MAX,
    ensures
        overwritten(
            (before + seq![0u8, 0u8, 0u8, 0u8] + body).push(0u8),
            before.len() as int,
            le_bytes_u32((body.len() + 5) as u32),
        ) == before + frame(body),
{
    let raw = (before + seq![0u8, 0u8, 0u8, 0u8] + body).push(0u8);
    let patch = le_bytes_u32((body.len() + 5) as u32);
    assert(patch.len() == 4);
    assert(overwritten(raw, before.len() as int, patch) =~= before + frame(body));
}

impl BsonSerializer {
    /// Writes a value that is a tag, a name and fixed bytes.
    fn emit_plain(&mut self, tag: u8, data: &[u8])
        ensures
            final(self)@ == (BsonState {
                written: old(self)@.written + header(old(self)@.pending, tag) + data@,
                pending: None,
                ..old(self)@
            }),
    {
        self.write_header(tag);
        self.append(data);
    }

    /// Writes a value whose payload is a string.
    fn emit_text(&mut self, tag: u8, text: &str) -> (r: Result<(), SerializeError>)
        ensures
            match text_fault(text@) {
                Some(e) => r matches Err(err) && err@ == e,
                None => r is Ok && final(self)@ == (BsonState {
                    written: old(self)@.written + header(old(self)@.pending, tag) + wire_string(text@),
                    pending: None,
                    ..old(self)@
                }),
            },
    {
        if text.as_bytes().len() >= MAX_PREFIXED_LEN {
            return Err(
                SerializeError::InvalidValue("text is too long for its length prefix".to_string()),
            );
        }
        self.write_header(tag);
        self.append_string(text);
        Ok(())
    }

    /// Opens a document: reserves the four bytes of its length.
    fn open_document(&mut self) -> (r: Result<(), SerializeError>)
        ensures
            agrees(after_start(old(self)@), final(self)@, r),
    {
        if self.document_positions.len() >= MAX_DEPTH {
            return Err(SerializeError::InvalidValue("documents are nested too deeply".to_string()));
        }
        let at = self.writer.position();
        self.document_positions.push(at);
        let zeros: [u8; 4] = [0, 0, 0, 0];
        self.append(zeros.as_slice());
        proof {
            assert(zeros@ =~= seq![0u8, 0u8, 0u8, 0u8]);
            assert(self@.open =~= old(self)@.open.push(old(self)@.written.len() as int));
        }
        Ok(())
    }

    /// Closes the innermost open document: writes its terminator and
    /// patches its length in.
    fn close_document(&mut self) -> (r: Result<(), SerializeError>)
        ensures
            agrees(after_end(old(self)@), final(self)@, r),
    {
        self.append_byte(0);
        self.write_document_length()
    }

    /// Takes the name of the field whose value comes next.
    fn take_field_name(&mut self, name: &str) -> (r: Result<(), SerializeError>)
        ensures
            agrees(after_field_name(old(self)@, name@), final(self)@, r),
    {
        if contains_nul(name.as_bytes()) {
            return Err(SerializeError::InvalidValue("field name holds a NUL byte".to_string()));
        }
        self.pending_name = Some(name.to_owned());
        Ok(())
    }

    /// Writes binary data: length, subtype, bytes.
    fn emit_binary(&mut self, subtype: u8, data: &[u8]) -> (r: Result<(), SerializeError>)
        ensures
            agrees(
                after_value(old(self)@, ValueView::Binary { subtype, bytes: data@ }),
                final(self)@,
                r,
            ),
    {
        if data.len() > MAX_PREFIXED_LEN {
            return Err(
                SerializeError::InvalidValue("binary data is too long for its length prefix".to_string()),
            );
        }
        self.write_header(0x05);
        let prefix = crate::endian::write_i32_le(data.len() as i32);
        self.append(prefix.as_slice());
        self.append_byte(subtype);
        self.append(data);
        assert(self@.written =~= old(self)@.written + header(old(self)@.pending, 0x05) + payload(
            ValueView::Binary { subtype, bytes: data@ },
        ));
        Ok(())
    }

    /// Writes a regular expression: pattern and options as C strings.
    fn emit_regex(&mut self, pattern: &str, options: &str) -> (r: Result<(), SerializeError>)
        ensures
            agrees(
                after_value(
                    old(self)@,
                    ValueView::RegularExpression { pattern: pattern@, options: options@ },
                ),
                final(self)@,
                r,
            ),
    {
        if contains_nul(pattern.as_bytes()) || contains_nul(options.as_bytes()) {
            return Err(SerializeError::InvalidValue("regular expression holds a NUL byte".to_string()));
        }
        self.write_header(0x0B);
        self.append_cstring(pattern);
        self.append_cstring(options);
        assert(self@.written =~= old(self)@.written + header(old(self)@.pending, 0x0B) + payload(
            ValueView::RegularExpression { pattern: pattern@, options: options@ },
        ));
        Ok(())
    }

    /// Writes the fields of `doc` in its frame, with no tag and no name in
    /// front.
    #[verifier::loop_isolation(false)]
    fn emit_framed(&mut self, doc: &Document) -> (r: Result<(), SerializeError>)
        requires
            old(self)@.pending is None,
        ensures
            match value_fault(ValueView::Document(doc@), old(self)@.limit, old(self)@.open.len()) {
                Some(e) => r matches Err(err) && err@ == e,
                None => r is Ok && final(self)@ == (BsonState {
                    written: old(self)@.written + document_bytes(doc@),
                    ..old(self)@
                }),
            },
        decreases doc, 0int,
    {
        let ghost pre = self@;
        let ghost depth = pre.open.len() + 1;
        match self.open_document() {
            Err(e) => {
                return Err(e);
            },
            Ok(()) => {},
        }
        let ghost opened = self@;
        let n = doc.len();
        let mut i: usize = 0;
        assert(doc@.take(0) =~= DocumentView::empty());
        while i < n
            invariant
                i <= n,
                n == doc@.len(),
                self@ == (BsonState {
                    written: opened.written + fields_bytes(doc@.take(i as int)),
                    ..opened
                }),
                fields_fault(doc@.take(i as int), pre.limit, depth) is None,
            decreases n - i,
        {
            let (name, value) = doc.entry(i);
            let ghost next = doc@.take(i + 1);
            proof {
                assert(next.drop_last() =~= doc@.take(i as int));
                assert(next.last() == doc@[i as int]);
                assert(next.len() == i + 1);
                assert(fields_fault(next, pre.limit, depth) == field_fault(
                    next.last().0,
                    next.last().1,
                    pre.limit,
                    depth,
                ));
                assert(fields_bytes(next) == fields_bytes(doc@.take(i as int)) + element(
                    next.last().0,
                    next.last().1,
                ));
            }
            match self.take_field_name(name.as_str()) {
                Err(e) => {
                    proof {
                        lemma_fields_fault_take(doc@, i + 1, pre.limit, depth);
                    }
                    return Err(e);
                },
                Ok(()) => {},
            }
            match self.emit_value(value) {
                Err(e) => {
                    proof {
                        lemma_fields_fault_take(doc@, i + 1, pre.limit, depth);
                    }
                    return Err(e);
                },
                Ok(()) => {},
            }
            proof {
                assert(self@.written =~= opened.written + fields_bytes(next));
            }
            i += 1;
        }
        proof {
            assert(doc@.take(n as int) =~= doc@);
            let body = fields_bytes(doc@);
            if body.len() + 5 <= pre.limit {
                lemma_patched_frame(pre.written, body);
            }
            assert(self@.written.push(0u8) =~= (pre.written + seq![0u8, 0u8, 0u8, 0u8] + body).push(0u8));
            assert(opened.open.drop_last() =~= pre.open);
        }
        self.close_document()
    }

    /// Writes an array: its values as the fields of a document, named by
    /// their index.
    #[verifier::loop_isolation(false)]
    fn emit_array(&mut self, array: &Array) -> (r: Result<(), SerializeError>)
        ensures
            agrees(after_value(old(self)@, ValueView::Array(array@)), final(self)@, r),
        decreases array, 0int,
    {
        let ghost pre = self@;
        let ghost depth = pre.open.len() + 1;
        self.write_header(0x04);
        let ghost headed = self@;
        match self.open_document() {
            Err(e) => {
                return Err(e);
            },
            Ok(()) => {},
        }
        let ghost opened = self@;
        let n = array.len();
        let mut i: usize = 0;
        assert(array@.take(0) =~= Seq::<ValueView>::empty());
        while i < n
            invariant
                i <= n,
                n == array@.len(),
                self@ == (BsonState {
                    written: opened.written + items_bytes(array@.take(i as int)),
                    ..opened
                }),
                items_fault(array@.take(i as int), pre.limit, depth) is None,
            decreases n - i,
        {
            let value = array.item(i);
            let ghost next = array@.take(i + 1);
            proof {
                assert(next.drop_last() =~= array@.take(i as int));
                assert(next.last() == array@[i as int]);
                assert(next.len() == i + 1);
                assert(items_fault(next, pre.limit, depth) == value_fault(next.last(), pre.limit, depth));
                assert(items_bytes(next) == items_bytes(array@.take(i as int)) + element(
                    decimal(i as nat),
                    next.last(),
                ));
                lemma_decimal_has_no_nul(i as nat);
            }
            let name = u64_to_string(i as u64);
            match self.take_field_name(name.as_str()) {
                Err(e) => {
                    return Err(e);
                },
                Ok(()) => {},
            }
            match self.emit_value(value) {
                Err(e) => {
                    proof {
                        lemma_items_fault_take(array@, i + 1, pre.limit, depth);
                    }
                    return Err(e);
                },
                Ok(()) => {},
            }
            proof {
                assert(self@.written =~= opened.written + items_bytes(next));
            }
            i += 1;
        }
        proof {
            assert(array@.take(n as int) =~= array@);
            let body = items_bytes(array@);
            if body.len() + 5 <= pre.limit {
                lemma_patched_frame(headed.written, body);
            }
            assert(self@.written.push(0u8) =~= (headed.written + seq![0u8, 0u8, 0u8, 0u8] + body).push(
                0u8,
            ));
            assert(opened.open.drop_last() =~= pre.open);
        }
        match self.close_document() {
            Err(e) => Err(e),
            Ok(()) => {
                assert(self@.written =~= pre.written + header(pre.pending, 0x04) + frame(
                    items_bytes(array@),
                ));
                Ok(())
            },
        }
    }

    /// Writes a nested document: tag, name, and the fields in their frame.
    fn emit_document(&mut self, doc: &Document) -> (r: Result<(), SerializeError>)
        ensures
            agrees(after_value(old(self)@, ValueView::Document(doc@)), final(self)@, r),
        decreases doc, 1int,
    {
        self.write_header(0x03);
        match self.emit_framed(doc) {
            Err(e) => Err(e),
            Ok(()) => {
                assert(self@.written =~= old(self)@.written + header(old(self)@.pending, 0x03)
                    + payload(ValueView::Document(doc@)));
                Ok(())
            },
        }
    }

    /// Writes a value: its tag, the pending name, its payload.
    pub fn emit_value(&mut self, value: &Value) -> (r: Result<(), SerializeError>)
        ensures
            agrees(after_value(old(self)@, value@), final(self)@, r),
        decreases value, 2int,
    {
        match value {
            Value::Double(bits) => {
                let data = crate::endian::write_u64_le(*bits);
                self.emit_plain(0x01, data.as_slice());
                Ok(())
            },
            Value::String(text) => self.emit_text(0x02, text.as_str()),
            Value::Document(doc) => self.emit_document(doc),
            Value::Array(array) => self.emit_array(array),
            Value::Binary { subtype, bytes } => self.emit_binary(*subtype, bytes.as_slice()),
            Value::Undefined => Err(SerializeError::Deprecated(undefined_message())),
            Value::ObjectId(id) => {
                self.emit_plain(0x07, id.as_bytes().as_slice());
                Ok(())
            },
            Value::Boolean(b) => {
                let data: [u8; 1] = [if *b { 1 } else { 0 }];
                self.emit_plain(0x08, data.as_slice());
                assert(data@ =~= payload(value@));
                Ok(())
            },
            Value::UTCDateTime(t) => {
                let data = crate::endian::write_i64_le(*t);
                self.emit_plain(0x09, data.as_slice());
                Ok(())
            },
            Value::Null => {
                self.write_header(0x0A);
                assert(self@.written =~= old(self)@.written + header(old(self)@.pending, 0x0A) + payload(
                    value@,
                ));
                Ok(())
            },
            Value::RegularExpression { pattern, options } => self.emit_regex(
                pattern.as_str(),
                options.as_str(),
            ),
            Value::DBPointer { collection, id } => Err(
                SerializeError::Deprecated(db_pointer_message(collection.as_str(), *id)),
            ),
            Value::JavaScriptCode(code) => self.emit_text(0x0D, code.as_str()),
            Value::Symbol(symbol) => Err(SerializeError::Deprecated(symbol_message(symbol.as_str()))),
            Value::JavaScriptCodeWithScope { code, scope } => Err(
                SerializeError::Deprecated(code_with_scope_message(code.as_str(), scope)),
            ),
            Value::Int32(x) => {
                let data = crate::endian::write_i32_le(*x);
                self.emit_plain(0x10, data.as_slice());
                Ok(())
            },
            Value::Timestamp(t) => {
                let data = crate::endian::write_i64_le(*t);
                self.emit_plain(0x11, data.as_slice());
                Ok(())
            },
            Value::Int64(x) => {
                let data = crate::endian::write_i64_le(*x);
                self.emit_plain(0x12, data.as_slice());
                Ok(())
            },
            Value::UInt64(x) => {
                let data = crate::endian::write_u64_le(*x);
                self.emit_plain(0x13, data.as_slice());
                Ok(())
            },
            Value::MinKey => {
                self.write_header(0xFF);
                assert(self@.written =~= old(self)@.written + header(old(self)@.pending, 0xFF) + payload(
                    value@,
                ));
                Ok(())
            },
            Value::MaxKey => {
                self.write_header(0x7F);
                assert(self@.written =~= old(self)@.written + header(old(self)@.pending, 0x7F) + payload(
                    value@,
                ));
                Ok(())
            },
        }
    }
}

impl Serializer for BsonSerializer {
    open spec fn emitted(pre: Self, call: Call, post: Self, r: Result<(), SerializeError>) -> bool {
        agrees(after(pre@, call), post@, r)
    }

    fn serialize_f64(&mut self, value: u64) -> (r: Result<(), SerializeError>) {
        let data = crate::endian::write_u64_le(value);
        self.emit_plain(0x01, data.as_slice());
        Ok(())
    }

    fn serialize_string(&mut self, value: &str) -> (r: Result<(), SerializeError>) {
        self.emit_text(0x02, value)
    }

    fn serialize_document(&mut self, value: &Document) -> (r: Result<(), SerializeError>) {
        self.emit_document(value)
    }

    fn serialize_array(&mut self, value: &Array) -> (r: Result<(), SerializeError>) {
        self.emit_array(value)
    }

    fn serialize_binary(&mut self, subtype: u8, value: &[u8]) -> (r: Result<(), SerializeError>) {
        self.emit_binary(subtype, value)
    }

    fn serialize_undefined(&mut self) -> (r: Result<(), SerializeError>) {
        Err(SerializeError::Deprecated(undefined_message()))
    }

    fn serialize_object_id(&mut self, value: ObjectId) -> (r: Result<(), SerializeError>) {
        self.emit_plain(0x07, value.as_bytes().as_slice());
        Ok(())
    }

    fn serialize_boolean(&mut self, value: bool) -> (r: Result<(), SerializeError>) {
        let data: [u8; 1] = [if value { 1 } else { 0 }];
        self.emit_plain(0x08, data.as_slice());
        assert(data@ =~= payload(ValueView::Boolean(value)));
        Ok(())
    }

    fn serialize_utc_datetime(&mut self, value: i64) -> (r: Result<(), SerializeError>) {
        let data = crate::endian::write_i64_le(value);
        self.emit_plain(0x09, data.as_slice());
        Ok(())
    }

    fn serialize_null(&mut self) -> (r: Result<(), SerializeError>) {
        self.write_header(0x0A);
        assert(self@.written =~= old(self)@.written + header(old(self)@.pending, 0x0A) + payload(
            ValueView::Null,
        ));
        Ok(())
    }

    fn serialize_regex(&mut self, pattern: &str, options: &str) -> (r: Result<(), SerializeError>) {
        self.emit_regex(pattern, options)
    }

    fn serialize_db_pointer(&mut self, collection: &str, id: ObjectId) -> (r: Result<
        (),
        SerializeError,
    >) {
        Err(SerializeError::Deprecated(db_pointer_message(collection, id)))
    }

    fn serialize_javascript_code(&mut self, code: &str) -> (r: Result<(), SerializeError>) {
        self.emit_text(0x0D, code)
    }

    fn serialize_symbol(&mut self, symbol: &str) -> (r: Result<(), SerializeError>) {
        Err(SerializeError::Deprecated(symbol_message(symbol)))
    }

    fn serialize_javascript_code_with_scope(&mut self, code: &str, scope: &Document) -> (r: Result<
        (),
        SerializeError,
    >) {
        Err(SerializeError::Deprecated(code_with_scope_message(code, scope)))
    }

    fn serialize_i32(&mut self, value: i32) -> (r: Result<(), SerializeError>) {
        let data = crate::endian::write_i32_le(value);
        self.emit_plain(0x10, data.as_slice());
        Ok(())
    }

    fn serialize_timestamp(&mut self, value: i64) -> (r: Result<(), SerializeError>) {
        let data = crate::endian::write_i64_le(value);
        self.emit_plain(0x11, data.as_slice());
        Ok(())
    }

    fn serialize_i64(&mut self, value: i64) -> (r: Result<(), SerializeError>) {
        let data = crate::endian::write_i64_le(value);
        self.emit_plain(0x12, data.as_slice());
        Ok(())
    }

    fn serialize_u64(&mut self, value: u64) -> (r: Result<(), SerializeError>) {
        let data = crate::endian::write_u64_le(value);
        self.emit_plain(0x13, data.as_slice());
        Ok(())
    }

    fn serialize_min_key(&mut self) -> (r: Result<(), SerializeError>) {
        self.write_header(0xFF);
        assert(self@.written =~= old(self)@.written + header(old(self)@.pending, 0xFF) + payload(
            ValueView::MinKey,
        ));
        Ok(())
    }

    fn serialize_max_key(&mut self) -> (r: Result<(), SerializeError>) {
        self.write_header(0x7F);
        assert(self@.written =~= old(self)@.written + header(old(self)@.pending, 0x7F) + payload(
            ValueView::MaxKey,
        ));
        Ok(())
    }

    fn start_document(&mut self) -> (r: Result<(), SerializeError>) {
        self.open_document()
    }

    fn end_document(&mut self) -> (r: Result<(), SerializeError>) {
        self.close_document()
    }

    fn serialize_field_name(&mut self, name: &str) -> (r: Result<(), SerializeError>) {
        self.take_field_name(name)
    }
}

/// What encoding a document that stands alone gives: its bytes, or the
/// failure that stops the encoder.
pub open spec fn encoded(d: DocumentView, config: EncoderConfig) -> Result<Seq<u8>, ErrorView> {
    if !config.reject_deprecated {
        Err(ErrorView::NotSupported(lenient_encoder_text()))
    } else {
        match document_fault(d, config.max_document_bytes) {
            Some(e) => Err(e),
            None => Ok(document_bytes(d)),
        }
    }
}

/// Encodes a document as `config` says.
pub fn to_bytes_with(doc: &Document, config: EncoderConfig) -> (r: Result<Vec<u8>, SerializeError>)
    ensures
        match encoded(doc@, config) {
            Ok(bytes) => r matches Ok(v) && v@ == bytes,
            Err(e) => r matches Err(err) && err@ == e,
        },
{
    let mut serializer = match BsonSerializer::with_config(ByteWriter::new(), config) {
        Ok(serializer) => serializer,
        Err(e) => {
            return Err(e);
        },
    };
    match serializer.emit_framed(doc) {
        Err(e) => Err(e),
        Ok(()) => {
            let writer = serializer.into_inner();
            proof {
                writer.lemma_cursor_in_range();
                assert(writer.bytes().take(writer.cursor() as int).len() == writer.cursor());
                assert(Seq::<u8>::empty() + document_bytes(doc@) =~= document_bytes(doc@));
            }
            let ghost written = writer.bytes().take(writer.cursor() as int);
            let at = writer.position();
            let mut bytes = writer.into_bytes();
            bytes.truncate(at as usize);
            assert(bytes@ =~= document_bytes(doc@));
            Ok(bytes)
        },
    }
}

/// Encodes a document: documents of up to 16 MiB, deprecated kinds refused.
pub fn to_bytes(doc: &Document) -> (r: Result<Vec<u8>, SerializeError>)
    ensures
        match encoded(doc@, EncoderConfig { max_document_bytes: DEFAULT_MAX_DOCUMENT_BYTES, reject_deprecated: true }) {
            Ok(bytes) => r matches Ok(v) && v@ == bytes,
            Err(e) => r matches Err(err) && err@ == e,
        },
{
    to_bytes_with(doc, EncoderConfig::new())
}

} // verus!
