//! Drawing bytes from a cryptographically secure random number generator.
//!
//! Randomness comes from `rand::rngs::StdRng` and from nothing else, so that
//! a generator that is not cryptographically secure cannot be handed in. A
//! caller with another secure generator seeds a standard one from it.

use vstd::prelude::*;
use rand::rngs::StdRng;
use rand::RngCore;
use crate::multi_vec::{lemma_volume_two, MultiVec};

verus! {

/// `rand::rngs::StdRng`, the standard cryptographically secure generator of
/// `rand`. Nothing is known of its state.
#[verifier::external_type_specification]
#[verifier::external_body]
pub struct ExStdRng(StdRng);

/// Calls `RngCore::fill_bytes` of `rand` on the standard generator, which
/// overwrites every byte of `dest`. Nothing is claimed of the bytes written.
#[verifier::external_body]
pub(crate) fn fill_random(rng: &mut StdRng, dest: &mut [u8])
    ensures
        final(dest)@.len() == old(dest)@.len(),
{
    rng.fill_bytes(dest);
}

/// Draws a full matrix of `rows` by `cols` random bytes.
pub fn random_matrix(rows: usize, cols: usize, rng: &mut StdRng) -> (out: MultiVec<u8, 2>)
    requires
        rows * cols <= usize::MAX,
    ensures
        out.shape() == seq![rows, cols],
        out@.len() == rows * cols,
{
    let axes = [rows, cols];
    proof {
        lemma_volume_two(axes@);
    }
    let mut out = MultiVec::fill(axes, 0u8);
    fill_random(rng, out.iter_mut());
    out
}

} // verus!
