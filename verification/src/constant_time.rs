//! Selection and comparison of secret bytes in time that does not depend on
//! the bytes.

use vstd::prelude::*;
use vstd::arithmetic::div_mod::lemma_fundamental_div_mod_converse;
use crate::model::{bit_of, digest_bit, select_cell, select_cells};
use crate::multi_vec::MultiVec;

verus! {

/// Calls `ConditionallySelectable::conditional_select` of `subtle` on two
/// bytes, with the `Choice` made from `bit`: the first byte for 0, the second
/// for 1, computed with a mask and without a branch.
#[verifier::external_body]
pub(crate) fn conditional_select(zero: u8, one: u8, bit: u8) -> (out: u8)
    requires
        bit <= 1,
    ensures
        out == select_cell(zero, one, bit),
{
    <u8 as subtle::ConditionallySelectable>::conditional_select(
        &zero,
        &one,
        subtle::Choice::from(bit),
    )
}

/// Calls `ConstantTimeEq::ct_eq` of `subtle` on two byte slices: whether they
/// have the same length and the same bytes. The time it takes depends on the
/// lengths alone.
#[verifier::external_body]
pub(crate) fn constant_time_eq(a: &[u8], b: &[u8]) -> (equal: bool)
    ensures
        equal == (a@ == b@),
{
    bool::from(subtle::ConstantTimeEq::ct_eq(a, b))
}

/// Returns bit `j` of a byte, the least significant bit being bit 0.
pub fn bit_at(byte: u8, j: u8) -> (bit: u8)
    requires
        j < 8,
    ensures
        bit == bit_of(byte, j),
        bit <= 1,
{
    let bit = (byte >> j) & 1;
    assert((byte >> j) & 1 <= 1) by (bit_vector);
    bit
}

/// Reveals one row of secrets for every bit of a digest: row `i` of the
/// result is row `i` of `one` where bit `i` of the digest is set and row `i`
/// of `zero` where it is not. Every cell of both matrices is read, and the
/// choice between them is made without a branch on the bit.
pub fn select_rows(zero: &MultiVec<u8, 2>, one: &MultiVec<u8, 2>, digest: &[u8]) -> (out: MultiVec<
    u8,
    2,
>)
    requires
        8 * digest@.len() * digest@.len() <= usize::MAX,
        zero@.len() == 8 * digest@.len() * digest@.len(),
        one@.len() == zero@.len(),
    ensures
        out.shape() == seq![(8 * digest@.len()) as usize, digest@.len() as usize],
        out@ == select_cells(zero@, one@, digest@, digest@.len()),
{
    let bytes = digest.len();
    let zero_cells = zero.as_ref();
    let one_cells = one.as_ref();
    let total = zero_cells.len();
    let mut cells: Vec<u8> = Vec::with_capacity(total);
    let mut k: usize = 0;
    while k < bytes
        invariant
            k <= bytes,
            bytes == digest@.len(),
            total == 8 * bytes * bytes,
            zero_cells@ == zero@,
            one_cells@ == one@,
            zero@.len() == total,
            one@.len() == total,
            cells@.len() == (8 * k) * bytes,
            forall|p: int|
                0 <= p < cells@.len() ==> cells@[p] == select_cell(
                    zero@[p],
                    one@[p],
                    digest_bit(digest@, p / (bytes as int)),
                ),
        decreases bytes - k,
    {
        let byte = digest[k];
        let mut j: u8 = 0;
        while j < 8
            invariant
                j <= 8,
                k < bytes,
                byte == digest@[k as int],
                bytes == digest@.len(),
                total == 8 * bytes * bytes,
                zero_cells@ == zero@,
                one_cells@ == one@,
                zero@.len() == total,
                one@.len() == total,
                cells@.len() == (8 * k + j) * bytes,
                forall|p: int|
                    0 <= p < cells@.len() ==> cells@[p] == select_cell(
                        zero@[p],
                        one@[p],
                        digest_bit(digest@, p / (bytes as int)),
                    ),
            decreases 8 - j,
        {
            let bit = bit_at(byte, j);
            let ghost row: int = 8 * k + j;
            let mut c: usize = 0;
            while c < bytes
                invariant
                    c <= bytes,
                    j < 8,
                    k < bytes,
                    row == 8 * k + j,
                    bit <= 1,
                    bit == digest_bit(digest@, row),
                    bytes == digest@.len(),
                    total == 8 * bytes * bytes,
                    zero_cells@ == zero@,
                    one_cells@ == one@,
                    zero@.len() == total,
                    one@.len() == total,
                    cells@.len() == row * bytes + c,
                    forall|p: int|
                        0 <= p < cells@.len() ==> cells@[p] == select_cell(
                            zero@[p],
                            one@[p],
                            digest_bit(digest@, p / (bytes as int)),
                        ),
                decreases bytes - c,
            {
                let pos = cells.len();
                proof {
                    assert(row * bytes + c < 8 * bytes * bytes) by (nonlinear_arith)
                        requires
                            0 <= row < 8 * bytes,
                            0 <= c < bytes,
                    ;
                    lemma_fundamental_div_mod_converse(pos as int, bytes as int, row, c as int);
                }
                let cell = conditional_select(zero_cells[pos], one_cells[pos], bit);
                cells.push(cell);
                c += 1;
            }
            proof {
                assert(row * bytes + bytes == (8 * k + (j + 1)) * bytes) by (nonlinear_arith)
                    requires
                        row == 8 * k + j,
                ;
            }
            j += 1;
        }
        proof {
            assert((8 * k + 8) * bytes == (8 * (k + 1)) * bytes) by (nonlinear_arith);
        }
        k += 1;
    }
    proof {
        assert((8 * bytes) * bytes == 8 * bytes * bytes) by (nonlinear_arith);
        if bytes >= 1 {
            assert(8 * bytes <= 8 * bytes * bytes) by (nonlinear_arith)
                requires
                    bytes >= 1,
            ;
        }
    }
    MultiVec::from_parts([8 * bytes, bytes], cells)
}

} // verus!
