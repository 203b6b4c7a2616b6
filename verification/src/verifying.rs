//! Verifying keys.

use vstd::prelude::*;
use std::marker::PhantomData;
use crate::constant_time::{bit_at, constant_time_eq};
use crate::error::{LamportError, LamportResult};
use crate::hash::{
    digest_bytes, has_key_shape, is_key_matrix, lemma_matrix_cells_bound, matrix_cells,
    LamportDigest,
};
use crate::model::{
    accepts, decode_verifying_key, digest_bit, encode_verifying_key, hashed_rows,
    lemma_flat_index, row, SigningKeyView, VerifyingKeyView,
};
use crate::multi_vec::MultiVec;
use crate::signature::Signature;
use crate::signing::SigningKey;
use crate::text::{hex_bytes, hex_decode, hex_encode, hex_text};
use crate::utils::separate_one_and_zero_values;

verus! {

/// Computes the digest of every row of a matrix of secrets.
pub fn hash_rows<T: LamportDigest>(secret: &MultiVec<u8, 2>) -> (public: MultiVec<u8, 2>)
    requires
        is_key_matrix::<T>(*secret),
    ensures
        is_key_matrix::<T>(public),
        hashed_rows::<T>(public@, secret@),
{
    let bits = T::digest_size_in_bits();
    let bytes = bits / 8;
    proof {
        lemma_matrix_cells_bound::<T>();
    }
    let ghost cols = digest_bytes::<T>();
    let mut cells: Vec<u8> = Vec::with_capacity(bits * bytes);
    let mut i: usize = 0;
    while i < bits
        invariant
            i <= bits,
            bits == T::bits(),
            bytes == cols,
            cols == digest_bytes::<T>(),
            cols > 0,
            is_key_matrix::<T>(*secret),
            cells@.len() == i * cols,
            forall|r: int|
                0 <= r < i ==> #[trigger] row(cells@, cols, r) == T::hash(row(secret@, cols, r)),
        decreases bits - i,
    {
        proof {
            lemma_flat_index(bits as int, cols as int, i as int, 0);
        }
        let digest = T::digest(&secret[i]);
        let ghost before = cells@;
        cells.extend_from_slice(digest.as_slice());
        proof {
            assert forall|r: int| 0 <= r < i implies #[trigger] row(cells@, cols, r) == T::hash(
                row(secret@, cols, r),
            ) by {
                lemma_flat_index(i as int, cols as int, r, 0);
                assert(row(cells@, cols, r) =~= row(before, cols, r));
            }
        }
        i += 1;
    }
    let public = MultiVec::from_parts([bits, bytes], cells);
    public
}

/// A verifying key: for every secret row of a signing key, its digest.
#[derive(Debug, PartialEq, Eq, PartialOrd, Ord, Hash)]
pub struct VerifyingKey<T: LamportDigest> {
    pub(crate) zero_values: MultiVec<u8, 2>,
    pub(crate) one_values: MultiVec<u8, 2>,
    pub(crate) algorithm: PhantomData<T>,
}

impl<T: LamportDigest> Clone for VerifyingKey<T> {
    fn clone(&self) -> (out: Self)
        ensures
            out@ == self@,
            out.wf(),
    {
        proof {
            use_type_invariant(self);
        }
        let zero_values = self.zero_values.clone();
        let one_values = self.one_values.clone();
        proof {
            assert(zero_values@ =~= self.zero_values@);
            assert(one_values@ =~= self.one_values@);
        }
        Self { zero_values, one_values, algorithm: PhantomData }
    }
}

impl<T: LamportDigest> View for VerifyingKey<T> {
    type V = VerifyingKeyView;

    open spec fn view(&self) -> VerifyingKeyView {
        VerifyingKeyView { zero: self.zero_matrix()@, one: self.one_matrix()@ }
    }
}

impl<T: LamportDigest> VerifyingKey<T> {
    /// The matrix of the digests of the secrets for the bit 0.
    pub closed spec fn zero_matrix(&self) -> MultiVec<u8, 2> {
        self.zero_values
    }

    /// The matrix of the digests of the secrets for the bit 1.
    pub closed spec fn one_matrix(&self) -> MultiVec<u8, 2> {
        self.one_values
    }

    /// Both matrices are full and have `B` rows of `B / 8` cells.
    pub open spec fn wf(&self) -> bool {
        &&& is_key_matrix::<T>(self.zero_matrix())
        &&& is_key_matrix::<T>(self.one_matrix())
    }

    /// Holds of every verifying key: its matrices have the shape of the
    /// digest.
    #[verifier::type_invariant]
    closed spec fn always_wf(&self) -> bool {
        self.wf()
    }

    /// This is the verifying key of the signing key: every row is the digest
    /// of the same row of the signing key.
    pub open spec fn belongs_to(&self, key: SigningKeyView) -> bool {
        &&& hashed_rows::<T>(self@.zero, key.zero)
        &&& hashed_rows::<T>(self@.one, key.one)
    }

    /// Returns the matrix of the digests of the secrets for the bit 0.
    pub fn zero_values(&self) -> (values: &MultiVec<u8, 2>)
        ensures
            *values == self.zero_matrix(),
            is_key_matrix::<T>(*values),
    {
        proof {
            use_type_invariant(self);
        }
        &self.zero_values
    }

    /// Returns the matrix of the digests of the secrets for the bit 1.
    pub fn one_values(&self) -> (values: &MultiVec<u8, 2>)
        ensures
            *values == self.one_matrix(),
            is_key_matrix::<T>(*values),
    {
        proof {
            use_type_invariant(self);
        }
        &self.one_values
    }

    /// Derives the [`VerifyingKey`] of a signing key.
    pub fn from(key: &SigningKey<T>) -> (out: Self)
        ensures
            out.wf(),
            out.belongs_to(key@),
    {
        let zero_values = hash_rows::<T>(key.zero_values());
        let one_values = hash_rows::<T>(key.one_values());
        Self { zero_values, one_values, algorithm: PhantomData }
    }

    /// Verifies the signature of the data: the signature must have the shape
    /// of the key, and the digest of each of its rows must be the row of this
    /// key that belongs to the value of the same bit of the digest of the data.
    pub fn verify(&self, signature: &Signature<T>, data: &[u8]) -> (result: LamportResult<()>)
        ensures
            result is Ok <==> signature.wf() && accepts::<T>(
                self@.zero,
                self@.one,
                signature@,
                T::hash(data@),
            ),
            result is Err ==> result->Err_0 == LamportError::InvalidSignatureBytes,
    {
        proof {
            use_type_invariant(self);
        }
        let data_hash = T::digest(data);
        let bits = T::digest_size_in_bits();
        let bytes = bits / 8;
        proof {
            lemma_matrix_cells_bound::<T>();
        }
        let ghost cols = digest_bytes::<T>();
        if !has_key_shape::<T>(signature.data()) {
            return Err(LamportError::InvalidSignatureBytes);
        }
        let mut valid = true;
        let mut k: usize = 0;
        while k < bytes
            invariant
                k <= bytes,
                bits == T::bits(),
                bytes == cols,
                cols == digest_bytes::<T>(),
                8 * cols == bits,
                self.wf(),
                signature.wf(),
                data_hash@ == T::hash(data@),
                data_hash@.len() == bytes,
                valid <==> forall|r: int|
                    0 <= r < 8 * k ==> T::hash(#[trigger] row(signature@, cols, r)) == row(
                        if digest_bit(data_hash@, r) == 1 {
                            self@.one
                        } else {
                            self@.zero
                        },
                        cols,
                        r,
                    ),
            decreases bytes - k,
        {
            let byte = data_hash[k];
            let mut j: u8 = 0;
            while j < 8
                invariant
                    j <= 8,
                    k < bytes,
                    byte == data_hash@[k as int],
                    bits == T::bits(),
                    bytes == cols,
                    cols == digest_bytes::<T>(),
                    8 * cols == bits,
                    self.wf(),
                    signature.wf(),
                    data_hash@ == T::hash(data@),
                    data_hash@.len() == bytes,
                    valid <==> forall|r: int|
                        0 <= r < 8 * k + j ==> T::hash(#[trigger] row(signature@, cols, r)) == row(
                            if digest_bit(data_hash@, r) == 1 {
                                self@.one
                            } else {
                                self@.zero
                            },
                            cols,
                            r,
                        ),
                decreases 8 - j,
            {
                let i = 8 * k + j as usize;
                let bit = bit_at(byte, j);
                proof {
                    lemma_flat_index(bits as int, cols as int, i as int, 0);
                }
                let revealed = T::digest(&signature.data()[i]);
                let expected = if bit == 1 {
                    &self.one_values()[i]
                } else {
                    &self.zero_values()[i]
                };
                let matches = constant_time_eq(revealed.as_slice(), expected);
                proof {
                    assert(signature.matrix().row(i as int) == row(signature@, cols, i as int));
                }
                if !matches {
                    valid = false;
                }
                j += 1;
            }
            k += 1;
        }
        if valid {
            Ok(())
        } else {
            Err(LamportError::InvalidSignatureBytes)
        }
    }

    /// Converts the [`VerifyingKey`] to canonical bytes: the zero digests, then
    /// the one digests.
    pub fn to_bytes(&self) -> (out: Vec<u8>)
        ensures
            out@ == encode_verifying_key(self@),
    {
        proof {
            use_type_invariant(self);
        }
        proof {
            lemma_matrix_cells_bound::<T>();
        }
        let mut out: Vec<u8> = Vec::with_capacity(2 * self.zero_values.len());
        out.extend_from_slice(self.zero_values.as_ref());
        out.extend_from_slice(self.one_values.as_ref());
        out
    }

    /// Converts the [`VerifyingKey`] to text: its canonical bytes in
    /// lowercase hexadecimal.
    pub fn to_hex(&self) -> (text: String)
        ensures
            text@ == hex_text(encode_verifying_key(self@)),
    {
        let bytes = self.to_bytes();
        hex_encode(bytes.as_slice())
    }

    /// Constructs a [`VerifyingKey`] from text: the hexadecimal digits of its
    /// canonical bytes, in either case.
    pub fn from_hex(text: &str) -> (result: LamportResult<Self>)
        ensures
            hex_bytes(text@) is Some && decode_verifying_key(
                hex_bytes(text@)->0,
                matrix_cells::<T>(),
            ) is Some ==> result is Ok && result->Ok_0.wf() && result->Ok_0@
                == decode_verifying_key(hex_bytes(text@)->0, matrix_cells::<T>())->0,
            hex_bytes(text@) is None || decode_verifying_key(
                hex_bytes(text@)->0,
                matrix_cells::<T>(),
            ) is None ==> result is Err && result->Err_0 == LamportError::InvalidSignatureBytes,
    {
        match hex_decode(text) {
            Some(bytes) => Self::from_bytes(bytes.as_slice()),
            None => Err(LamportError::InvalidSignatureBytes),
        }
    }

    /// Constructs a [`VerifyingKey`] from canonical bytes. Exactly
    /// `2 * B * B / 8` bytes are accepted.
    pub fn from_bytes(input: &[u8]) -> (result: LamportResult<Self>)
        ensures
            decode_verifying_key(input@, matrix_cells::<T>()) is Some ==> result is Ok
                && result->Ok_0.wf() && result->Ok_0@ == decode_verifying_key(
                input@,
                matrix_cells::<T>(),
            )->0,
            decode_verifying_key(input@, matrix_cells::<T>()) is None ==> result is Err
                && result->Err_0 == LamportError::InvalidSignatureBytes,
    {
        let bits = T::digest_size_in_bits();
        let bytes = bits / 8;
        proof {
            lemma_matrix_cells_bound::<T>();
            assert(8 * bytes * bytes == bits * bytes) by (nonlinear_arith)
                requires
                    8 * bytes == bits,
            ;
        }
        if input.len() != bits * bytes * 2 {
            return Err(LamportError::InvalidSignatureBytes);
        }
        let (zero_values, one_values) = separate_one_and_zero_values(input, bytes);
        Ok(Self { zero_values, one_values, algorithm: PhantomData })
    }
}

} // verus!
