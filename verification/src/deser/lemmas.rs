//! Facts about byte ranges, names and runs of fields that the laws of the
//! format rest on.

use crate::decimal::decimal;
use crate::deser::grammar::{first_zero, is_array_keys, values_of};
use crate::ser::bson::lemma_decimal_has_no_nul;
use crate::types::value::{DocumentView, ValueView};
use crate::wire::{
    element, field_fault, fields_bytes, fields_fault, has_nul, items_bytes, items_fault, name_fault,
    value_fault,
};
use vstd::prelude::*;

verus! {

/// A range that holds `x + y` holds `x` in front and `y` behind it.
pub proof fn lemma_range_parts(b: Seq<u8>, from: int, x: Seq<u8>, y: Seq<u8>)
    requires
        0 <= from,
        from + x.len() + y.len() <= b.len(),
        b.subrange(from, from + x.len() + y.len()) == x + y,
    ensures
        b.subrange(from, from + x.len()) == x,
        b.subrange(from + x.len(), from + x.len() + y.len()) == y,
{
    let whole = b.subrange(from, from + x.len() + y.len());
    assert(b.subrange(from, from + x.len()) =~= x) by {
        assert forall|i: int| 0 <= i < x.len() implies b.subrange(from, from + x.len())[i] == x[i] by {
            assert(whole[i] == (x + y)[i]);
        }
    }
    assert(b.subrange(from + x.len(), from + x.len() + y.len()) =~= y) by {
        assert forall|i: int| 0 <= i < y.len() implies b.subrange(
            from + x.len(),
            from + x.len() + y.len(),
        )[i] == y[i] by {
            assert(whole[x.len() + i] == (x + y)[x.len() + i]);
        }
    }
}

/// Two ranges that touch make one range.
pub proof fn lemma_range_join(b: Seq<u8>, from: int, mid: int, to: int)
    requires
        0 <= from <= mid <= to <= b.len(),
    ensures
        b.subrange(from, to) == b.subrange(from, mid) + b.subrange(mid, to),
{
    assert(b.subrange(from, to) =~= b.subrange(from, mid) + b.subrange(mid, to));
}

/// Where the search for a 0x00 byte ends: in range, at a 0x00 byte unless at
/// the end, with no 0x00 byte before it.
pub proof fn lemma_first_zero(b: Seq<u8>, from: int, end: int)
    requires
        0 <= from <= end <= b.len(),
    ensures
        from <= first_zero(b, from, end) <= end,
        first_zero(b, from, end) < end ==> b[first_zero(b, from, end)] == 0,
        forall|i: int| from <= i < first_zero(b, from, end) ==> b[i] != 0,
        !has_nul(b.subrange(from, first_zero(b, from, end))),
    decreases end - from,
{
    if from < end && b[from] != 0 {
        lemma_first_zero(b, from + 1, end);
    }
    let stop = first_zero(b, from, end);
    let run = b.subrange(from, stop);
    assert forall|i: int| 0 <= i < run.len() implies #[trigger] run[i] != 0 by {
        assert(run[i] == b[from + i]);
    }
}

/// The search for a 0x00 byte ends at `at` where `at` holds the first one.
pub proof fn lemma_first_zero_at(b: Seq<u8>, from: int, at: int, end: int)
    requires
        0 <= from <= at < end <= b.len(),
        b[at] == 0,
        forall|i: int| from <= i < at ==> b[i] != 0,
    ensures
        first_zero(b, from, end) == at,
    decreases at - from,
{
    if from < at {
        lemma_first_zero_at(b, from + 1, at, end);
    }
}

/// The bytes of a run of fields with one field in front.
pub proof fn lemma_fields_bytes_prepend(name: Seq<char>, v: ValueView, rest: DocumentView)
    ensures
        fields_bytes(seq![(name, v)] + rest) == element(name, v) + fields_bytes(rest),
    decreases rest.len(),
{
    let all = seq![(name, v)] + rest;
    if rest.len() == 0 {
        assert(all.drop_last() =~= DocumentView::empty());
        assert(fields_bytes(all.drop_last()) =~= Seq::<u8>::empty());
        assert(fields_bytes(all) =~= element(name, v) + fields_bytes(rest));
    } else {
        assert(all.drop_last() =~= seq![(name, v)] + rest.drop_last());
        assert(all.last() == rest.last());
        lemma_fields_bytes_prepend(name, v, rest.drop_last());
        assert(fields_bytes(all) =~= element(name, v) + fields_bytes(rest));
    }
}

/// The fault of a run of fields with one field in front.
pub proof fn lemma_fields_fault_prepend(name: Seq<char>, v: ValueView, rest: DocumentView, limit: u32, depth: nat)
    ensures
        fields_fault(seq![(name, v)] + rest, limit, depth) == (match field_fault(name, v, limit, depth) {
            Some(e) => Some(e),
            None => fields_fault(rest, limit, depth),
        }),
    decreases rest.len(),
{
    let all = seq![(name, v)] + rest;
    if rest.len() == 0 {
        assert(all.drop_last() =~= DocumentView::empty());
        assert(all.last() == (name, v));
        assert(fields_fault(all.drop_last(), limit, depth) is None);
        assert(fields_fault(rest, limit, depth) is None);
    } else {
        assert(all.drop_last() =~= seq![(name, v)] + rest.drop_last());
        assert(all.last() == rest.last());
        lemma_fields_fault_prepend(name, v, rest.drop_last(), limit, depth);
        assert(fields_fault(rest, limit, depth) == (match fields_fault(rest.drop_last(), limit, depth) {
            Some(e) => Some(e),
            None => field_fault(rest.last().0, rest.last().1, limit, depth),
        }));
    }
}

/// The fields that an array is on the wire: its values under their indices
/// in base 10.
pub open spec fn indexed(a: Seq<ValueView>) -> DocumentView {
    Seq::new(a.len(), |i: int| (decimal(i as nat), a[i]))
}

/// An array on the wire is the document of its indexed values, and fails
/// where that document fails.
pub proof fn lemma_items_as_fields(a: Seq<ValueView>, limit: u32, depth: nat)
    ensures
        items_bytes(a) == fields_bytes(indexed(a)),
        items_fault(a, limit, depth) == fields_fault(indexed(a), limit, depth),
        is_array_keys(indexed(a)),
        values_of(indexed(a)) == a,
    decreases a.len(),
{
    assert(values_of(indexed(a)) =~= a);
    if a.len() > 0 {
        lemma_items_as_fields(a.drop_last(), limit, depth);
        assert(indexed(a).drop_last() =~= indexed(a.drop_last()));
        assert(indexed(a).last() == (decimal((a.len() - 1) as nat), a.last()));
        lemma_decimal_has_no_nul((a.len() - 1) as nat);
        assert(field_fault(indexed(a).last().0, indexed(a).last().1, limit, depth) == value_fault(
            a.last(),
            limit,
            depth,
        ));
    } else {
        assert(indexed(a) =~= DocumentView::empty());
    }
}

/// Fields whose names count up from 0 are the indexed form of their values.
pub proof fn lemma_array_keys_indexed(fields: DocumentView)
    requires
        is_array_keys(fields),
    ensures
        fields == indexed(values_of(fields)),
{
    assert(fields =~= indexed(values_of(fields)));
}

} // verus!
