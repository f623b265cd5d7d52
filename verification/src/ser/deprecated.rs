//! The details of the failures on deprecated kinds of values.

use crate::text::{chars_of, push_char, push_str};
use crate::types::document::Document;
use crate::types::object_id::ObjectId;
use crate::types::value::ValueView;
use crate::wire::{deprecated_text, shortened_code};
use vstd::prelude::*;

verus! {

/// The detail of the failure on the undefined value.
pub fn undefined_message() -> (s: String)
    ensures
        s@ == deprecated_text(ValueView::Undefined),
{
    "Undefined is deprecated.".to_string()
}

/// The detail of the failure on a pointer into a collection: it names the
/// collection and the identifier.
pub fn db_pointer_message(collection: &str, id: ObjectId) -> (s: String)
    ensures
        s@ == deprecated_text(ValueView::DBPointer { collection: collection@, id: id@ }),
{
    let mut s = String::new();
    push_str(&mut s, "DBPointer is deprecated. Collection: ");
    push_str(&mut s, collection);
    push_str(&mut s, ", ID: ");
    let hex = id.to_string();
    push_str(&mut s, hex.as_str());
    assert(s@ =~= deprecated_text(ValueView::DBPointer { collection: collection@, id: id@ }));
    s
}

/// The detail of the failure on a symbol: it names the symbol.
pub fn symbol_message(symbol: &str) -> (s: String)
    ensures
        s@ == deprecated_text(ValueView::Symbol(symbol@)),
{
    let mut s = String::new();
    push_str(&mut s, "Symbol is deprecated. Symbol: ");
    push_str(&mut s, symbol);
    assert(s@ =~= deprecated_text(ValueView::Symbol(symbol@)));
    s
}

/// Appends the first ten characters of `code` to `out`, and three dots
/// where `code` has more than a hundred characters.
pub fn push_shortened_code(out: &mut String, code: &str)
    ensures
        final(out)@ == old(out)@ + shortened_code(code@),
{
    let chars = chars_of(code);
    let n: usize = if chars.len() < 10 { chars.len() } else { 10 };
    let mut i: usize = 0;
    while i < n
        invariant
            i <= n <= chars@.len(),
            chars@ == code@,
            out@ == old(out)@ + code@.take(i as int),
        decreases n - i,
    {
        push_char(out, chars[i]);
        assert(code@.take(i + 1) =~= code@.take(i as int).push(code@[i as int]));
        i += 1;
    }
    if chars.len() > 100 {
        push_str(out, "...");
    }
    assert(out@ =~= old(out)@ + shortened_code(code@));
}

/// The detail of the failure on code with a scope: it shows the start of
/// the code and the scope.
pub fn code_with_scope_message(code: &str, scope: &Document) -> (s: String)
    ensures
        s@ == deprecated_text(ValueView::JavaScriptCodeWithScope { code: code@, scope: scope@ }),
{
    let mut s = String::new();
    push_str(&mut s, "JavaScript code with scope is deprecated. Code: ");
    push_shortened_code(&mut s, code);
    push_str(&mut s, ", Scope: ");
    scope.write_text(&mut s);
    assert(s@ =~= deprecated_text(
        ValueView::JavaScriptCodeWithScope { code: code@, scope: scope@ },
    ));
    s
}

} // verus!
