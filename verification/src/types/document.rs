//! Documents: named values in the order in which they were put in.

use crate::types::value::{DocumentView, Value, ValueView};
use vstd::prelude::*;

verus! {

/// The index of the first field at or after `from` whose name is `key`, or
/// the number of fields where there is none.
pub open spec fn find_from(d: DocumentView, key: Seq<char>, from: int) -> int
    decreases d.len() - from,
{
    if from < 0 || from >= d.len() {
        d.len() as int
    } else if d[from].0 == key {
        from
    } else {
        find_from(d, key, from + 1)
    }
}

/// The index of the first field named `key`, or the number of fields where
/// there is none.
pub open spec fn find_key(d: DocumentView, key: Seq<char>) -> int {
    find_from(d, key, 0)
}

/// Whether a field is named `key`.
pub open spec fn has_key(d: DocumentView, key: Seq<char>) -> bool {
    find_key(d, key) < d.len()
}

/// The value of the first field named `key`.
pub open spec fn value_of(d: DocumentView, key: Seq<char>) -> Option<ValueView> {
    if has_key(d, key) {
        Some(d[find_key(d, key)].1)
    } else {
        None
    }
}

/// The document with `value` under `key`: in the place of the first field of
/// that name, or at the end where there is none.
pub open spec fn with_field(d: DocumentView, key: Seq<char>, value: ValueView) -> DocumentView {
    if has_key(d, key) {
        d.update(find_key(d, key), (key, value))
    } else {
        d.push((key, value))
    }
}

/// The document without the fields named `key`.
pub open spec fn without_key(d: DocumentView, key: Seq<char>) -> DocumentView
    decreases d.len(),
{
    if d.len() == 0 {
        d
    } else if d.last().0 == key {
        without_key(d.drop_last(), key)
    } else {
        without_key(d.drop_last(), key).push(d.last())
    }
}

/// The first match lies in range, carries the key, and nothing before it
/// does.
pub proof fn lemma_find_from(d: DocumentView, key: Seq<char>, from: int)
    requires
        0 <= from <= d.len(),
    ensures
        from <= find_from(d, key, from) <= d.len(),
        find_from(d, key, from) < d.len() ==> d[find_from(d, key, from)].0 == key,
        forall|j: int| from <= j < find_from(d, key, from) ==> (#[trigger] d[j]).0 != key,
    decreases d.len() - from,
{
    if from < d.len() && d[from].0 != key {
        lemma_find_from(d, key, from + 1);
    }
}

/// A field is named `key` exactly where the search for it ends in range,
/// and it then ends at the first such field.
pub proof fn lemma_find_key(d: DocumentView, key: Seq<char>)
    ensures
        0 <= find_key(d, key) <= d.len(),
        has_key(d, key) <==> exists|i: int| 0 <= i < d.len() && (#[trigger] d[i]).0 == key,
        has_key(d, key) ==> d[find_key(d, key)].0 == key,
        forall|j: int| 0 <= j < find_key(d, key) ==> (#[trigger] d[j]).0 != key,
{
    lemma_find_from(d, key, 0);
}

/// Nothing in `without_key(d, key)` is named `key`, and the fields of other
/// names stay.
pub proof fn lemma_without_key(d: DocumentView, key: Seq<char>)
    ensures
        !has_key(without_key(d, key), key),
        without_key(d, key).len() <= d.len(),
        forall|other: Seq<char>| other != key ==> #[trigger] value_of(without_key(d, key), other) == value_of(d, other),
    decreases d.len(),
{
    let w = without_key(d, key);
    lemma_find_key(w, key);
    if d.len() > 0 {
        lemma_without_key(d.drop_last(), key);
        let w0 = without_key(d.drop_last(), key);
        lemma_find_key(w0, key);
        assert forall|other: Seq<char>| other != key implies #[trigger] value_of(w, other) == value_of(d, other) by {
            lemma_value_of_push(d.drop_last(), d.last(), other);
            assert(d.drop_last().push(d.last()) =~= d);
            assert(value_of(w0, other) == value_of(d.drop_last(), other));
            if d.last().0 != key {
                lemma_value_of_push(w0, d.last(), other);
            }
        }
    }
}

/// What a lookup finds after a field is added at the end.
pub proof fn lemma_value_of_push(d: DocumentView, field: (Seq<char>, ValueView), key: Seq<char>)
    ensures
        value_of(d.push(field), key) == (if has_key(d, key) {
            value_of(d, key)
        } else if field.0 == key {
            Some(field.1)
        } else {
            None
        }),
{
    let e = d.push(field);
    lemma_find_key(d, key);
    lemma_find_key(e, key);
    let i = find_key(d, key);
    let j = find_key(e, key);
    if i < d.len() {
        assert(e[i] == d[i]);
        if j < i {
            assert(e[j] == d[j]);
        }
        if i < j {
        }
    } else {
        if j < d.len() {
            assert(e[j] == d[j]);
        }
        if field.0 == key {
            assert(e[d.len() as int].0 == key);
        }
    }
}

/// A lookup after `with_field` finds the new value under its key and what
/// was there under every other.
pub proof fn lemma_with_field(d: DocumentView, key: Seq<char>, value: ValueView, other: Seq<char>)
    ensures
        value_of(with_field(d, key, value), key) == Some(value),
        other != key ==> value_of(with_field(d, key, value), other) == value_of(d, other),
        with_field(d, key, value).len() == (if has_key(d, key) {
            d.len()
        } else {
            d.len() + 1
        }),
{
    let e = with_field(d, key, value);
    lemma_find_key(d, key);
    lemma_find_key(d, other);
    lemma_find_key(e, key);
    lemma_find_key(e, other);
    if has_key(d, key) {
        let i = find_key(d, key);
        assert(e[i].0 == key);
        assert forall|j: int| 0 <= j < i implies (#[trigger] e[j]).0 != key by {
            assert(e[j] == d[j]);
        }
        if find_key(e, key) > i {
        }
        if other != key {
            let a = find_key(d, other);
            let b = find_key(e, other);
            if a < d.len() {
                assert(e[a] == d[a]);
            }
            if b < d.len() {
                assert(e[b].0 == d[b].0);
            }
            if a < b {
            }
            if b < a {
            }
        }
    } else {
        lemma_value_of_push(d, (key, value), key);
        lemma_value_of_push(d, (key, value), other);
    }
}

/// `Vec::capacity`: the number of fields that the vector can hold without
/// a new allocation, which is at least the number that it holds.
#[verifier::external_body]
fn vec_capacity(entries: &Vec<(String, Value)>) -> (capacity: usize)
    ensures
        capacity >= entries@.len(),
{
    entries.capacity()
}

/// An ordered collection of named values.
///
/// A name is looked up, replaced and removed by its first field. A document
/// that is built with [`Document::insert`] alone holds every name once.
#[derive(Debug, PartialEq)]
pub struct Document {
    entries: Vec<(String, Value)>,
}

impl View for Document {
    type V = DocumentView;

    closed spec fn view(&self) -> DocumentView
        decreases self,
    {
        Seq::new(
            self.entries@.len(),
            |i: int|
                if 0 <= i < self.entries@.len() {
                    (self.entries@[i].0@, self.entries@[i].1@)
                } else {
                    (Seq::<char>::empty(), ValueView::Null)
                },
        )
    }
}

impl Document {
    /// An empty document.
    pub fn new() -> (doc: Document)
        ensures
            doc@ == DocumentView::empty(),
    {
        let doc = Document { entries: Vec::new() };
        assert(doc@ =~= DocumentView::empty());
        doc
    }

    /// An empty document with room for `capacity` fields.
    pub fn new_with_capacity(capacity: usize) -> (doc: Document)
        ensures
            doc@ == DocumentView::empty(),
    {
        let doc = Document { entries: Vec::with_capacity(capacity) };
        assert(doc@ =~= DocumentView::empty());
        doc
    }

    /// The document of the given fields, in order.
    pub fn from_vec(entries: Vec<(String, Value)>) -> (doc: Document)
        ensures
            doc@.len() == entries@.len(),
            forall|i: int| 0 <= i < entries@.len() ==> doc@[i] == (entries@[i].0@, entries@[i].1@),
    {
        Document { entries }
    }

    /// The fields of the document in a vector, in order.
    pub fn into_vec(self) -> (entries: Vec<(String, Value)>)
        ensures
            self@.len() == entries@.len(),
            forall|i: int| 0 <= i < entries@.len() ==> self@[i] == (entries@[i].0@, entries@[i].1@),
    {
        self.entries
    }

    /// The index of the first field named `key`, or the number of fields.
    fn position(&self, key: &str) -> (i: usize)
        ensures
            i == find_key(self@, key@),
            i <= self.entries@.len(),
            self.entries@.len() == self@.len(),
    {
        let name = key.to_owned();
        let mut i: usize = 0;
        while i < self.entries.len()
            invariant
                i <= self.entries.len(),
                name@ == key@,
                find_from(self@, key@, 0) == find_from(self@, key@, i as int),
            decreases self.entries.len() - i,
        {
            if self.entries[i].0 == name {
                return i;
            }
            i += 1;
        }
        i
    }

    /// Puts `value` under `key`: in the place of the first field of that
    /// name, whose value is handed back, or at the end where there is none.
    pub fn insert(&mut self, key: &str, value: Value) -> (previous: Option<Value>)
        ensures
            final(self)@ == with_field(old(self)@, key@, value@),
            match value_of(old(self)@, key@) {
                Some(v) => previous matches Some(p) && p@ == v,
                None => previous is None,
            },
    {
        let i = self.position(key);
        if i < self.entries.len() {
            let ghost added = value@;
            let mut value = value;
            std::mem::swap(&mut self.entries[i].1, &mut value);
            proof {
                lemma_find_key(old(self)@, key@);
                assert(self.entries@.len() == old(self).entries@.len());
                assert(self.entries@[i as int].1@ == added);
                assert(self.entries@[i as int].0@ == key@);
                assert(forall|j: int| 0 <= j < self.entries@.len() && j != i ==> self.entries@[j] == old(self).entries@[j]);
            }
            assert(self@ =~= with_field(old(self)@, key@, added));
            Some(value)
        } else {
            self.entries.push((key.to_owned(), value));
            assert(self@ =~= with_field(old(self)@, key@, value@));
            None
        }
    }

    /// Adds a field at the end, whatever the names before it.
    pub fn push(&mut self, key: String, value: Value)
        ensures
            final(self)@ == old(self)@.push((key@, value@)),
    {
        self.entries.push((key, value));
        assert(self@ =~= old(self)@.push((key@, value@)));
    }

    /// The value of the first field named `key`.
    pub fn get(&self, key: &str) -> (r: Option<&Value>)
        ensures
            match value_of(self@, key@) {
                Some(v) => r matches Some(found) && found@ == v,
                None => r is None,
            },
    {
        let i = self.position(key);
        if i < self.entries.len() {
            Some(&self.entries[i].1)
        } else {
            None
        }
    }

    /// The value of the first field named `key`, to be changed in place.
    pub fn get_mut(&mut self, key: &str) -> (r: Option<&mut Value>)
        ensures
            match value_of(old(self)@, key@) {
                Some(v) => r matches Some(found) && found@ == v && final(self)@ == old(self)@.update(
                    find_key(old(self)@, key@),
                    (key@, final(found)@),
                ),
                None => r is None && final(self)@ == old(self)@,
            },
    {
        let i = self.position(key);
        if i < self.entries.len() {
            proof {
                lemma_find_key(old(self)@, key@);
            }
            Some(&mut self.entries[i].1)
        } else {
            None
        }
    }

    /// Removes every field named `key` and hands back the value of the
    /// first.
    pub fn remove(&mut self, key: &str) -> (removed: Option<Value>)
        ensures
            final(self)@ == without_key(old(self)@, key@),
            match value_of(old(self)@, key@) {
                Some(v) => removed matches Some(r) && r@ == v,
                None => removed is None,
            },
    {
        let name = key.to_owned();
        let mut removed: Option<Value> = None;
        let mut i: usize = 0;
        let ghost mut k: int = 0;
        proof {
            assert(self@.take(0) =~= without_key(old(self)@.take(0), key@));
            assert(self@.skip(0) =~= old(self)@.skip(0));
        }
        while i < self.entries.len()
            invariant
                name@ == key@,
                0 <= i <= self.entries@.len(),
                self.entries@.len() == self@.len(),
                0 <= k <= old(self)@.len(),
                self.entries@.len() - i == old(self)@.len() - k,
                self@.take(i as int) == without_key(old(self)@.take(k), key@),
                self@.skip(i as int) == old(self)@.skip(k),
                removed is None ==> find_key(old(self)@, key@) == find_from(old(self)@, key@, k),
                removed matches Some(r) ==> has_key(old(self)@, key@) && r@ == old(self)@[find_key(
                    old(self)@,
                    key@,
                )].1,
            decreases self.entries.len() - i,
        {
            let ghost before = self@;
            proof {
                assert(before.skip(i as int)[0] == old(self)@.skip(k)[0]);
                assert(old(self)@.take(k + 1).drop_last() =~= old(self)@.take(k));
                assert(old(self)@.take(k + 1).last() == old(self)@[k]);
            }
            if self.entries[i].0 == name {
                let field = self.entries.remove(i);
                if removed.is_none() {
                    removed = Some(field.1);
                }
                proof {
                    assert(self@.take(i as int) =~= before.take(i as int));
                    assert(self@.skip(i as int) =~= before.skip(i as int).skip(1));
                    assert(old(self)@.skip(k).skip(1) =~= old(self)@.skip(k + 1));
                    k = k + 1;
                }
            } else {
                i += 1;
                proof {
                    assert(self@.take(i as int) =~= before.take(i - 1).push(before[i - 1]));
                    assert(self@.skip(i as int) =~= before.skip(i - 1).skip(1));
                    assert(old(self)@.skip(k).skip(1) =~= old(self)@.skip(k + 1));
                    k = k + 1;
                }
            }
        }
        proof {
            assert(self@.take(i as int) =~= self@);
            assert(old(self)@.take(k) =~= old(self)@);
        }
        removed
    }

    /// Whether a field is named `key`.
    pub fn contains_key(&self, key: &str) -> (found: bool)
        ensures
            found == has_key(self@, key@),
    {
        let i = self.position(key);
        i < self.entries.len()
    }

    /// The number of fields that fit without a new allocation.
    pub fn capacity(&self) -> (capacity: usize)
        ensures
            capacity >= self@.len(),
    {
        vec_capacity(&self.entries)
    }

    /// The number of fields.
    pub fn len(&self) -> (n: usize)
        ensures
            n == self@.len(),
    {
        self.entries.len()
    }

    /// Whether the document holds no field.
    pub fn is_empty(&self) -> (empty: bool)
        ensures
            empty == (self@.len() == 0),
    {
        self.entries.len() == 0
    }

    /// Removes every field.
    pub fn clear(&mut self)
        ensures
            final(self)@ == DocumentView::empty(),
    {
        self.entries.clear();
        assert(self@ =~= DocumentView::empty());
    }

    /// The name and the value of the field at `index`.
    pub fn entry(&self, index: usize) -> (field: (&String, &Value))
        requires
            index < self@.len(),
        ensures
            field.0@ == self@[index as int].0,
            field.1@ == self@[index as int].1,
            decreases_to!(self => field.1),
    {
        (&self.entries[index].0, &self.entries[index].1)
    }

    /// The fields in order.
    pub fn iter(&self) -> (fields: Vec<(&String, &Value)>)
        ensures
            fields@.len() == self@.len(),
            forall|i: int|
                0 <= i < fields@.len() ==> (#[trigger] fields@[i]).0@ == self@[i].0 && fields@[i].1@
                    == self@[i].1,
    {
        let mut fields: Vec<(&String, &Value)> = Vec::new();
        let mut i: usize = 0;
        while i < self.entries.len()
            invariant
                i <= self.entries.len(),
                fields@.len() == i,
                forall|j: int|
                    0 <= j < i ==> (#[trigger] fields@[j]).0@ == self@[j].0 && fields@[j].1@
                        == self@[j].1,
            decreases self.entries.len() - i,
        {
            fields.push((&self.entries[i].0, &self.entries[i].1));
            i += 1;
        }
        fields
    }

    /// A copy of the document with everything it holds.
    #[verifier::loop_isolation(false)]
    pub fn deep_clone(&self) -> (copy: Document)
        ensures
            copy@ == self@,
        decreases self,
    {
        let mut entries: Vec<(String, Value)> = Vec::new();
        let mut i: usize = 0;
        while i < self.entries.len()
            invariant
                i <= self.entries.len(),
                entries@.len() == i,
                forall|j: int|
                    0 <= j < i ==> entries@[j].0@ == self.entries@[j].0@ && entries@[j].1@
                        == self.entries@[j].1@,
            decreases self.entries.len() - i,
        {
            let name = self.entries[i].0.clone();
            let value = self.entries[i].1.deep_clone();
            entries.push((name, value));
            i += 1;
        }
        let copy = Document { entries };
        assert(copy@ =~= self@);
        copy
    }
}

impl Document {
    /// The view of a document is well-formed.
    pub proof fn lemma_well_formed(&self)
        ensures
            crate::wire::well_formed_fields(self@),
        decreases self, 1int,
    {
        assert forall|i: int| 0 <= i < self@.len() implies crate::wire::well_formed(
            #[trigger] self@[i].1,
        ) by {
            self.entries@[i].1.lemma_well_formed();
        }
        crate::wire::lemma_well_formed_fields(self@);
    }
}

impl Clone for Document {
    fn clone(&self) -> (copy: Document)
        ensures
            copy@ == self@,
    {
        self.deep_clone()
    }
}

impl Default for Document {
    fn default() -> (doc: Document)
        ensures
            doc@ == DocumentView::empty(),
    {
        Document::new()
    }
}

impl From<Vec<(String, Value)>> for Document {
    fn from(entries: Vec<(String, Value)>) -> (doc: Document)
        ensures
            doc@.len() == entries@.len(),
            forall|i: int| 0 <= i < entries@.len() ==> doc@[i] == (entries@[i].0@, entries@[i].1@),
    {
        Document::from_vec(entries)
    }
}

impl vstd::std_specs::convert::FromSpecImpl<Vec<(String, Value)>> for Document {
    open spec fn obeys_from_spec() -> bool {
        false
    }

    open spec fn from_spec(entries: Vec<(String, Value)>) -> Document {
        arbitrary()
    }
}

impl From<Document> for Vec<(String, Value)> {
    fn from(doc: Document) -> (entries: Vec<(String, Value)>)
        ensures
            doc@.len() == entries@.len(),
            forall|i: int| 0 <= i < entries@.len() ==> doc@[i] == (entries@[i].0@, entries@[i].1@),
    {
        doc.into_vec()
    }
}

impl vstd::std_specs::convert::FromSpecImpl<Document> for Vec<(String, Value)> {
    open spec fn obeys_from_spec() -> bool {
        false
    }

    open spec fn from_spec(doc: Document) -> Vec<(String, Value)> {
        arbitrary()
    }
}

} // verus!
