//! Equality of multi-dimensional vectors.

use vstd::prelude::*;
use vstd::std_specs::cmp::PartialEqSpec;
use vstd::std_specs::cmp::PartialEqSpecImpl;
use crate::multi_vec::MultiVec;

verus! {

impl<T: PartialEq, const D: usize> PartialEq for MultiVec<T, D> {
    /// Whether the two hold equal cells one by one and have the same axes.
    fn eq(&self, other: &Self) -> (equal: bool) {
        let mine = self.as_ref();
        let theirs = other.as_ref();
        let len = mine.len();
        if len != theirs.len() {
            return false;
        }
        let my_axes = self.axes();
        let their_axes = other.axes();
        let mut k: usize = 0;
        while k < D
            invariant
                k <= D,
                my_axes@ == self.shape(),
                their_axes@ == other.shape(),
                forall|i: int| 0 <= i < k ==> my_axes@[i] == their_axes@[i],
            decreases D - k,
        {
            if my_axes[k] != their_axes[k] {
                return false;
            }
            k += 1;
        }
        let mut i: usize = 0;
        while i < len
            invariant
                i <= len,
                mine@ == self@,
                theirs@ == other@,
                len == self@.len(),
                len == other@.len(),
                self.shape() == other.shape(),
                T::obeys_eq_spec() ==> forall|j: int|
                    0 <= j < i ==> (#[trigger] self@[j]).eq_spec(&other@[j]),
            decreases len - i,
        {
            if mine[i] != theirs[i] {
                return false;
            }
            i += 1;
        }
        true
    }
}

impl<T: PartialEq, const D: usize> PartialEqSpecImpl for MultiVec<T, D> {
    open spec fn obeys_eq_spec() -> bool {
        T::obeys_eq_spec()
    }

    open spec fn eq_spec(&self, other: &Self) -> bool {
        &&& self@.len() == other@.len()
        &&& forall|j: int| 0 <= j < self@.len() ==> (#[trigger] self@[j]).eq_spec(&other@[j])
        &&& self.shape() == other.shape()
    }
}

impl<T: Eq, const D: usize> Eq for MultiVec<T, D> {
}

} // verus!
