use crate::types::vector::Vector3;
use crate::wire::{items_content, Wire, WireValue};
use vstd::prelude::*;

verus! {

/// The way points of a path, in the order they are to be flown.
#[derive(Debug, PartialEq)]
pub struct Path(pub Vec<Vector3>);

impl Path {
    /// The wire form: a sequence of the way points, each as a vector is
    /// written.
    pub open spec fn encoded(self) -> Wire {
        Wire::Array(Seq::new(self.0@.len(), |i: int| self.0@[i].encoded()))
    }

    /// Writes the value in its wire form.
    pub fn to_msgpack(&self) -> (v: WireValue)
        ensures
            v@ == self.encoded(),
    {
        let mut items: Vec<WireValue> = Vec::new();
        let mut i: usize = 0;
        while i < self.0.len()
            invariant
                i <= self.0@.len(),
                items@.len() == i,
                forall|j: int| 0 <= j < i ==> (#[trigger] items@[j])@ == self.0@[j].encoded(),
            decreases self.0@.len() - i,
        {
            items.push(self.0[i].as_msgpack());
            i += 1;
        }
        assert(items_content(items@) =~= self.encoded()->Array_0);
        WireValue::Array(items)
    }
}

} // verus!
