//! The order of multi-dimensional vectors: by their cells first, as
//! sequences are ordered, and by their axes where the cells are equal.

use vstd::prelude::*;
use std::cmp::Ordering;
use vstd::std_specs::cmp::PartialOrdSpec;
use vstd::std_specs::cmp::PartialOrdSpecImpl;
use crate::multi_vec::MultiVec;

verus! {

/// How two sequences compare from position `from` on, where they agree
/// before it: by the first position at which their elements are not equal,
/// and by their lengths if there is none.
pub open spec fn compare_from<T: PartialOrd>(a: Seq<T>, b: Seq<T>, from: int) -> Option<Ordering>
    decreases a.len() - from,
{
    if from < 0 || from >= a.len() || from >= b.len() {
        if a.len() < b.len() {
            Some(Ordering::Less)
        } else if a.len() > b.len() {
            Some(Ordering::Greater)
        } else {
            Some(Ordering::Equal)
        }
    } else {
        match a[from].partial_cmp_spec(&b[from]) {
            Some(Ordering::Equal) => compare_from(a, b, from + 1),
            other => other,
        }
    }
}

impl<T: PartialOrd, const D: usize> PartialOrd for MultiVec<T, D> {
    /// Compares the cells as sequences, and the axes where the cells are
    /// equal.
    fn partial_cmp(&self, other: &Self) -> (out: Option<Ordering>) {
        let mine = self.as_ref();
        let theirs = other.as_ref();
        let my_len = mine.len();
        let their_len = theirs.len();
        let ghost mut at: int = 0;
        let mut i: usize = 0;
        while i < my_len && i < their_len
            invariant
                at == i,
                mine@ == self@,
                theirs@ == other@,
                my_len == self@.len(),
                their_len == other@.len(),
                T::obeys_partial_cmp_spec() ==> compare_from(self@, other@, 0) == compare_from(
                    self@,
                    other@,
                    at,
                ),
            decreases my_len - i,
        {
            let step = mine[i].partial_cmp(&theirs[i]);
            match step {
                Some(Ordering::Equal) => {},
                _ => {
                    return step;
                },
            }
            i += 1;
            proof {
                at = at + 1;
            }
        }
        if my_len < their_len {
            return Some(Ordering::Less);
        }
        if my_len > their_len {
            return Some(Ordering::Greater);
        }
        let my_axes = self.axes();
        let their_axes = other.axes();
        let ghost mut axis: int = 0;
        let mut k: usize = 0;
        while k < D
            invariant
                axis == k,
                k <= D,
                my_axes@ == self.shape(),
                their_axes@ == other.shape(),
                my_axes@.len() == D,
                their_axes@.len() == D,
                T::obeys_partial_cmp_spec() ==> compare_from(self@, other@, 0) == Some(
                    Ordering::Equal,
                ),
                compare_from(self.shape(), other.shape(), 0) == compare_from(
                    self.shape(),
                    other.shape(),
                    axis,
                ),
            decreases D - k,
        {
            let step = my_axes[k].partial_cmp(&their_axes[k]);
            match step {
                Some(Ordering::Equal) => {},
                _ => {
                    return step;
                },
            }
            k += 1;
            proof {
                axis = axis + 1;
            }
        }
        Some(Ordering::Equal)
    }
}

impl<T: PartialOrd, const D: usize> PartialOrdSpecImpl for MultiVec<T, D> {
    open spec fn obeys_partial_cmp_spec() -> bool {
        T::obeys_partial_cmp_spec()
    }

    open spec fn partial_cmp_spec(&self, other: &Self) -> Option<Ordering> {
        match compare_from(self@, other@, 0) {
            Some(Ordering::Equal) => compare_from(self.shape(), other.shape(), 0),
            other => other,
        }
    }
}

} // verus!
