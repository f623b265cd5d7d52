//! The text in which values are shown to a reader. It is no wire format.
//!
//! Code is cut to its first ten characters. A double is shown by its bit
//! pattern, in base 10.

use crate::decimal::{decimal, push_decimal, push_signed_decimal, signed_decimal};
use crate::text::{chars_of, push_char, push_str};
use crate::types::array::Array;
use crate::types::document::Document;
use crate::types::object_id::hex_text;
use crate::types::value::{DocumentView, Value, ValueView};
use vstd::prelude::*;

verus! {

/// The first ten characters of `code`, or all of it where it has fewer.
pub open spec fn code_start(code: Seq<char>) -> Seq<char> {
    code.take(if code.len() < 10 { code.len() as int } else { 10 })
}

/// The text of a value.
pub open spec fn value_text(v: ValueView) -> Seq<char>
    decreases v, 0int,
{
    match v {
        ValueView::Double(bits) => "Double(bits: "@ + decimal(bits as nat) + ")"@,
        ValueView::String(s) => s,
        ValueView::Document(d) => "{"@ + fields_text(d) + "}"@,
        ValueView::Array(a) => "["@ + items_text(a) + "]"@,
        ValueView::Binary { subtype, bytes } => "Binary(len: "@ + decimal(bytes.len()) + ")"@,
        ValueView::Undefined => "undefined"@,
        ValueView::ObjectId(id) => "ObjectID(\""@ + hex_text(id) + "\")"@,
        ValueView::Boolean(b) => if b { "true"@ } else { "false"@ },
        ValueView::UTCDateTime(t) => "DateTime("@ + signed_decimal(t as int) + ")"@,
        ValueView::Null => "null"@,
        ValueView::RegularExpression { pattern, options } => "/"@ + pattern + "/"@ + options,
        ValueView::DBPointer { collection, id } => "DBPointer("@ + collection + ", "@ + hex_text(id) + ")"@,
        ValueView::JavaScriptCode(code) => "JavaScriptCode("@ + code_start(code) + ")"@,
        ValueView::Symbol(s) => "Symbol("@ + s + ")"@,
        ValueView::JavaScriptCodeWithScope { code, scope } => "JavaScriptCodeWithScope(Code("@
            + code_start(code) + "), Scope("@ + ("{"@ + fields_text(scope) + "}"@) + "))"@,
        ValueView::Int32(x) => signed_decimal(x as int),
        ValueView::Timestamp(t) => "Timestamp("@ + signed_decimal(t as int) + ")"@,
        ValueView::Int64(x) => signed_decimal(x as int),
        ValueView::UInt64(x) => decimal(x as nat),
        ValueView::MinKey => "MinKey"@,
        ValueView::MaxKey => "MaxKey"@,
    }
}

/// The text of one field: its name in double quotes, a colon, its value.
pub open spec fn field_text(name: Seq<char>, v: ValueView) -> Seq<char>
    decreases v, 1int,
{
    "\""@ + name + "\": "@ + value_text(v)
}

/// The texts of the fields of a document, with a comma and a space between
/// two of them.
pub open spec fn fields_text(d: DocumentView) -> Seq<char>
    decreases d, 2int,
{
    if d.len() == 0 {
        Seq::empty()
    } else if d.len() == 1 {
        field_text(d.last().0, d.last().1)
    } else {
        fields_text(d.drop_last()) + ", "@ + field_text(d.last().0, d.last().1)
    }
}

/// The texts of the values of an array, with a comma and a space between
/// two of them.
pub open spec fn items_text(a: Seq<ValueView>) -> Seq<char>
    decreases a, 2int,
{
    if a.len() == 0 {
        Seq::empty()
    } else if a.len() == 1 {
        value_text(a.last())
    } else {
        items_text(a.drop_last()) + ", "@ + value_text(a.last())
    }
}

/// The text of a document: its fields between braces.
pub open spec fn document_text(d: DocumentView) -> Seq<char> {
    "{"@ + fields_text(d) + "}"@
}

/// Appends the first ten characters of `code` to `out`.
pub fn push_code_start(out: &mut String, code: &str)
    ensures
        final(out)@ == old(out)@ + code_start(code@),
{
    let chars = chars_of(code);
    let n: usize = if chars.len() < 10 { chars.len() } else { 10 };
    let mut i: usize = 0;
    while i < n
        invariant
            i <= n <= chars@.len(),
            chars@ == code@,
            out@ == old(out)@ + code@.take(i as int),
        decreases n - i,
    {
        push_char(out, chars[i]);
        assert(code@.take(i + 1) =~= code@.take(i as int).push(code@[i as int]));
        i += 1;
    }
}

impl Value {
    /// Appends the text of the value to `out`.
    pub fn write_text(&self, out: &mut String)
        ensures
            final(out)@ == old(out)@ + value_text(self@),
        decreases self, 0int,
    {
        match self {
            Value::Double(bits) => {
                push_str(out, "Double(bits: ");
                push_decimal(out, *bits);
                push_str(out, ")");
            },
            Value::String(s) => {
                push_str(out, s.as_str());
            },
            Value::Document(d) => {
                d.write_text(out);
            },
            Value::Array(a) => {
                a.write_text(out);
            },
            Value::Binary { subtype, bytes } => {
                push_str(out, "Binary(len: ");
                push_decimal(out, bytes.len() as u64);
                push_str(out, ")");
            },
            Value::Undefined => {
                push_str(out, "undefined");
            },
            Value::ObjectId(id) => {
                push_str(out, "ObjectID(\"");
                let hex = id.to_string();
                push_str(out, hex.as_str());
                push_str(out, "\")");
            },
            Value::Boolean(b) => {
                if *b {
                    push_str(out, "true");
                } else {
                    push_str(out, "false");
                }
            },
            Value::UTCDateTime(t) => {
                push_str(out, "DateTime(");
                push_signed_decimal(out, *t);
                push_str(out, ")");
            },
            Value::Null => {
                push_str(out, "null");
            },
            Value::RegularExpression { pattern, options } => {
                push_str(out, "/");
                push_str(out, pattern.as_str());
                push_str(out, "/");
                push_str(out, options.as_str());
            },
            Value::DBPointer { collection, id } => {
                push_str(out, "DBPointer(");
                push_str(out, collection.as_str());
                push_str(out, ", ");
                let hex = id.to_string();
                push_str(out, hex.as_str());
                push_str(out, ")");
            },
            Value::JavaScriptCode(code) => {
                push_str(out, "JavaScriptCode(");
                push_code_start(out, code.as_str());
                push_str(out, ")");
            },
            Value::Symbol(s) => {
                push_str(out, "Symbol(");
                push_str(out, s.as_str());
                push_str(out, ")");
            },
            Value::JavaScriptCodeWithScope { code, scope } => {
                push_str(out, "JavaScriptCodeWithScope(Code(");
                push_code_start(out, code.as_str());
                push_str(out, "), Scope(");
                scope.write_text(out);
                push_str(out, "))");
            },
            Value::Int32(x) => {
                push_signed_decimal(out, *x as i64);
            },
            Value::Timestamp(t) => {
                push_str(out, "Timestamp(");
                push_signed_decimal(out, *t);
                push_str(out, ")");
            },
            Value::Int64(x) => {
                push_signed_decimal(out, *x);
            },
            Value::UInt64(x) => {
                push_decimal(out, *x);
            },
            Value::MinKey => {
                push_str(out, "MinKey");
            },
            Value::MaxKey => {
                push_str(out, "MaxKey");
            },
        }
        assert(out@ =~= old(out)@ + value_text(self@));
    }

    /// The text of the value.
    pub fn to_string(&self) -> (s: String)
        ensures
            s@ == value_text(self@),
    {
        let mut s = String::new();
        self.write_text(&mut s);
        assert(s@ =~= value_text(self@));
        s
    }
}

impl Document {
    /// Appends the text of the document to `out`.
    #[verifier::loop_isolation(false)]
    pub fn write_text(&self, out: &mut String)
        ensures
            final(out)@ == old(out)@ + document_text(self@),
        decreases self, 1int,
    {
        push_str(out, "{");
        let n = self.len();
        let mut i: usize = 0;
        assert(self@.take(0) =~= DocumentView::empty());
        while i < n
            invariant
                i <= n,
                n == self@.len(),
                out@ == old(out)@ + "{"@ + fields_text(self@.take(i as int)),
            decreases n - i,
        {
            if i > 0 {
                push_str(out, ", ");
            }
            let (name, value) = self.entry(i);
            push_str(out, "\"");
            push_str(out, name.as_str());
            push_str(out, "\": ");
            value.write_text(out);
            proof {
                let next = self@.take(i + 1);
                assert(next.drop_last() =~= self@.take(i as int));
                assert(next.last() == self@[i as int]);
                assert(next.len() == i + 1);
                let shown = field_text(self@[i as int].0, self@[i as int].1);
                if i == 0 {
                    assert(fields_text(self@.take(0)) =~= Seq::<char>::empty());
                    assert(fields_text(next) == shown);
                } else {
                    assert(fields_text(next) == fields_text(self@.take(i as int)) + ", "@ + shown);
                }
                assert(out@ =~= old(out)@ + "{"@ + fields_text(next));
            }
            i += 1;
        }
        push_str(out, "}");
        assert(self@.take(n as int) =~= self@);
        assert(out@ =~= old(out)@ + document_text(self@));
    }

    /// The text of the document.
    pub fn to_string(&self) -> (s: String)
        ensures
            s@ == document_text(self@),
    {
        let mut s = String::new();
        self.write_text(&mut s);
        assert(s@ =~= document_text(self@));
        s
    }
}

impl Array {
    /// Appends the text of the array to `out`.
    #[verifier::loop_isolation(false)]
    pub fn write_text(&self, out: &mut String)
        ensures
            final(out)@ == old(out)@ + value_text(ValueView::Array(self@)),
        decreases self, 1int,
    {
        push_str(out, "[");
        let n = self.len();
        let mut i: usize = 0;
        assert(self@.take(0) =~= Seq::<ValueView>::empty());
        while i < n
            invariant
                i <= n,
                n == self@.len(),
                out@ == old(out)@ + "["@ + items_text(self@.take(i as int)),
            decreases n - i,
        {
            if i > 0 {
                push_str(out, ", ");
            }
            let value = self.item(i);
            value.write_text(out);
            proof {
                let next = self@.take(i + 1);
                assert(next.drop_last() =~= self@.take(i as int));
                assert(next.last() == self@[i as int]);
                assert(next.len() == i + 1);
                let shown = value_text(self@[i as int]);
                if i == 0 {
                    assert(items_text(self@.take(0)) =~= Seq::<char>::empty());
                    assert(items_text(next) == shown);
                } else {
                    assert(items_text(next) == items_text(self@.take(i as int)) + ", "@ + shown);
                }
                assert(out@ =~= old(out)@ + "["@ + items_text(next));
            }
            i += 1;
        }
        push_str(out, "]");
        assert(self@.take(n as int) =~= self@);
        assert(out@ =~= old(out)@ + value_text(ValueView::Array(self@)));
    }

    /// The text of the array.
    pub fn to_string(&self) -> (s: String)
        ensures
            s@ == value_text(ValueView::Array(self@)),
    {
        let mut s = String::new();
        self.write_text(&mut s);
        assert(s@ =~= value_text(ValueView::Array(self@)));
        s
    }
}

} // verus!
