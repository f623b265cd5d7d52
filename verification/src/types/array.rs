//! Arrays: ordered sequences of values.

use crate::types::value::{Value, ValueView};
use vstd::prelude::*;

verus! {

/// An ordered sequence of values.
#[derive(Debug, PartialEq)]
pub struct Array {
    inner: Vec<Value>,
}

impl View for Array {
    type V = Seq<ValueView>;

    closed spec fn view(&self) -> Seq<ValueView>
        decreases self,
    {
        Seq::new(
            self.inner@.len(),
            |i: int|
                if 0 <= i < self.inner@.len() {
                    self.inner@[i]@
                } else {
                    ValueView::Null
                },
        )
    }
}

impl Array {
    /// An empty array.
    pub fn new() -> (array: Array)
        ensures
            array@ == Seq::<ValueView>::empty(),
    {
        let array = Array { inner: Vec::new() };
        assert(array@ =~= Seq::<ValueView>::empty());
        array
    }

    /// An empty array with room for `capacity` values.
    pub fn with_capacity(capacity: usize) -> (array: Array)
        ensures
            array@ == Seq::<ValueView>::empty(),
    {
        let array = Array { inner: Vec::with_capacity(capacity) };
        assert(array@ =~= Seq::<ValueView>::empty());
        array
    }

    /// The array of the values of `vec`, in order.
    pub fn from_vec(vec: Vec<Value>) -> (array: Array)
        ensures
            array@.len() == vec@.len(),
            forall|i: int| 0 <= i < vec@.len() ==> array@[i] == vec@[i]@,
    {
        Array { inner: vec }
    }

    /// The values of the array in a vector, in order.
    pub fn into_vec(self) -> (vec: Vec<Value>)
        ensures
            self@.len() == vec@.len(),
            forall|i: int| 0 <= i < vec@.len() ==> self@[i] == vec@[i]@,
    {
        self.inner
    }

    /// Adds `value` at the end.
    pub fn push(&mut self, value: Value)
        ensures
            final(self)@ == old(self)@.push(value@),
    {
        self.inner.push(value);
        assert(self@ =~= old(self)@.push(value@));
    }

    /// Takes the last value off, if there is one.
    pub fn pop(&mut self) -> (r: Option<Value>)
        ensures
            old(self)@.len() == 0 ==> r is None && final(self)@ == old(self)@,
            old(self)@.len() > 0 ==> (r matches Some(v) && v@ == old(self)@.last() && final(self)@
                == old(self)@.drop_last()),
    {
        let r = self.inner.pop();
        assert(old(self)@.len() > 0 ==> self@ =~= old(self)@.drop_last());
        assert(old(self)@.len() == 0 ==> self@ =~= old(self)@);
        r
    }

    /// The value at `index`, if there is one.
    pub fn get(&self, index: usize) -> (r: Option<&Value>)
        ensures
            index < self@.len() ==> (r matches Some(v) && v@ == self@[index as int]
                && decreases_to!(self => v)),
            index >= self@.len() ==> r is None,
    {
        if index < self.inner.len() {
            Some(&self.inner[index])
        } else {
            None
        }
    }

    /// The value at `index`.
    pub fn item(&self, index: usize) -> (value: &Value)
        requires
            index < self@.len(),
        ensures
            value@ == self@[index as int],
            decreases_to!(self => value),
    {
        &self.inner[index]
    }

    /// The value at `index`, to be changed in place, if there is one.
    pub fn get_mut(&mut self, index: usize) -> (r: Option<&mut Value>)
        ensures
            index < old(self)@.len() ==> (r matches Some(v) && v@ == old(self)@[index as int]
                && final(self)@ == old(self)@.update(index as int, final(v)@)),
            index >= old(self)@.len() ==> r is None && final(self)@ == old(self)@,
    {
        if index < self.inner.len() {
            Some(&mut self.inner[index])
        } else {
            None
        }
    }

    /// The number of values.
    pub fn len(&self) -> (n: usize)
        ensures
            n == self@.len(),
    {
        self.inner.len()
    }

    /// Whether the array holds no value.
    pub fn is_empty(&self) -> (empty: bool)
        ensures
            empty == (self@.len() == 0),
    {
        self.inner.len() == 0
    }

    /// Removes every value.
    pub fn clear(&mut self)
        ensures
            final(self)@ == Seq::<ValueView>::empty(),
    {
        self.inner.clear();
        assert(self@ =~= Seq::<ValueView>::empty());
    }

    /// The values in order.
    pub fn iter(&self) -> (items: Vec<&Value>)
        ensures
            items@.len() == self@.len(),
            forall|i: int| 0 <= i < items@.len() ==> (#[trigger] items@[i])@ == self@[i],
    {
        let mut items: Vec<&Value> = Vec::new();
        let mut i: usize = 0;
        while i < self.inner.len()
            invariant
                i <= self.inner.len(),
                items@.len() == i,
                forall|j: int| 0 <= j < i ==> (#[trigger] items@[j])@ == self@[j],
            decreases self.inner.len() - i,
        {
            items.push(&self.inner[i]);
            i += 1;
        }
        items
    }

    /// A copy of the array with everything it holds.
    #[verifier::loop_isolation(false)]
    pub fn deep_clone(&self) -> (copy: Array)
        ensures
            copy@ == self@,
        decreases self,
    {
        let mut inner: Vec<Value> = Vec::new();
        let mut i: usize = 0;
        while i < self.inner.len()
            invariant
                i <= self.inner.len(),
                inner@.len() == i,
                forall|j: int| 0 <= j < i ==> inner@[j]@ == self.inner@[j]@,
            decreases self.inner.len() - i,
        {
            inner.push(self.inner[i].deep_clone());
            i += 1;
        }
        let copy = Array { inner };
        assert(copy@ =~= self@);
        copy
    }
}

impl Array {
    /// The view of an array is well-formed.
    pub proof fn lemma_well_formed(&self)
        ensures
            crate::wire::well_formed_items(self@),
        decreases self, 1int,
    {
        assert forall|i: int| 0 <= i < self@.len() implies crate::wire::well_formed(
            #[trigger] self@[i],
        ) by {
            self.inner@[i].lemma_well_formed();
        }
        crate::wire::lemma_well_formed_items(self@);
    }
}

impl Clone for Array {
    fn clone(&self) -> (copy: Array)
        ensures
            copy@ == self@,
    {
        self.deep_clone()
    }
}

impl Default for Array {
    fn default() -> (array: Array)
        ensures
            array@ == Seq::<ValueView>::empty(),
    {
        Array::new()
    }
}

impl From<Vec<Value>> for Array {
    fn from(vec: Vec<Value>) -> (array: Array)
        ensures
            array@.len() == vec@.len(),
            forall|i: int| 0 <= i < vec@.len() ==> array@[i] == vec@[i]@,
    {
        Array::from_vec(vec)
    }
}

impl vstd::std_specs::convert::FromSpecImpl<Vec<Value>> for Array {
    open spec fn obeys_from_spec() -> bool {
        false
    }

    open spec fn from_spec(vec: Vec<Value>) -> Array {
        arbitrary()
    }
}

impl From<Array> for Vec<Value> {
    fn from(array: Array) -> (vec: Vec<Value>)
        ensures
            array@.len() == vec@.len(),
            forall|i: int| 0 <= i < vec@.len() ==> array@[i] == vec@[i]@,
    {
        array.into_vec()
    }
}

impl vstd::std_specs::convert::FromSpecImpl<Array> for Vec<Value> {
    open spec fn obeys_from_spec() -> bool {
        false
    }

    open spec fn from_spec(array: Array) -> Vec<Value> {
        arbitrary()
    }
}

} // verus!
