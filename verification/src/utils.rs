//! Helpers shared by the codecs.

use vstd::prelude::*;
use vstd::slice::{slice_subrange, slice_to_vec};
use crate::multi_vec::MultiVec;

verus! {

/// Splits the encoded cells of a pair of matrices of `8 * bytes` rows of
/// `bytes` cells: the first matrix takes as many cells as its axes span, and
/// the second takes all that follow.
pub fn separate_one_and_zero_values(input: &[u8], bytes: usize) -> (out: (
    MultiVec<u8, 2>,
    MultiVec<u8, 2>,
))
    requires
        8 * bytes * bytes <= input@.len(),
    ensures
        out.0.shape() == seq![(8 * bytes) as usize, bytes],
        out.1.shape() == seq![(8 * bytes) as usize, bytes],
        out.0@ == input@.subrange(0, 8 * bytes * bytes),
        out.1@ == input@.subrange(8 * bytes * bytes, input@.len() as int),
{
    let len = input.len();
    proof {
        if bytes >= 1 {
            assert(8 * bytes <= 8 * bytes * bytes) by (nonlinear_arith)
                requires
                    bytes >= 1,
            ;
        }
        assert((8 * bytes) * bytes == 8 * bytes * bytes) by (nonlinear_arith);
    }
    let bits = bytes * 8;
    let cells = bits * bytes;
    let zero_values = MultiVec::from_parts(
        [bits, bytes],
        slice_to_vec(slice_subrange(input, 0, cells)),
    );
    let one_values = MultiVec::from_parts(
        [bits, bytes],
        slice_to_vec(slice_subrange(input, cells, len)),
    );
    (zero_values, one_values)
}

} // verus!
