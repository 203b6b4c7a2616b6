//! Signatures and shares of signatures.

use vstd::prelude::*;
use std::marker::PhantomData;
use crate::error::{LamportError, LamportResult};
use crate::hash::{is_key_matrix, lemma_matrix_cells_bound, matrix_cells, LamportDigest};
use crate::model::{
    decode_signature, decode_signature_share, encode_signature_share, SignatureShareView,
};
use crate::multi_vec::MultiVec;
use crate::shamir::{cells_of, combine_cells, combine_failure, combined_cells};
use crate::text::{hex_bytes, hex_decode, hex_encode, hex_text};

verus! {

/// A signature: for every bit of the digest of the message, the row of
/// secrets that belongs to the value of the bit.
#[derive(Debug, PartialEq, Eq, PartialOrd, Ord, Hash)]
pub struct Signature<T: LamportDigest> {
    pub(crate) data: MultiVec<u8, 2>,
    pub(crate) algorithm: PhantomData<T>,
}

impl<T: LamportDigest> View for Signature<T> {
    type V = Seq<u8>;

    /// The cells of the signature in storage order.
    open spec fn view(&self) -> Seq<u8> {
        self.matrix()@
    }
}

impl<T: LamportDigest> Signature<T> {
    /// The matrix of revealed secrets.
    pub closed spec fn matrix(&self) -> MultiVec<u8, 2> {
        self.data
    }

    /// The matrix is full and has `B` rows of `B / 8` cells.
    pub open spec fn wf(&self) -> bool {
        is_key_matrix::<T>(self.matrix())
    }

    /// Holds of every signature: its matrix has the shape of the digest.
    #[verifier::type_invariant]
    closed spec fn always_wf(&self) -> bool {
        self.wf()
    }

    /// Returns the matrix of revealed secrets.
    pub fn data(&self) -> (data: &MultiVec<u8, 2>)
        ensures
            *data == self.matrix(),
            is_key_matrix::<T>(*data),
    {
        proof {
            use_type_invariant(self);
        }
        &self.data
    }

    /// Wraps a matrix of revealed secrets.
    pub(crate) fn from_matrix(data: MultiVec<u8, 2>) -> (out: Self)
        requires
            is_key_matrix::<T>(data),
        ensures
            out.matrix() == data,
    {
        Self { data, algorithm: PhantomData }
    }

    /// Converts the [`Signature`] to canonical bytes: its cells in storage
    /// order.
    pub fn to_bytes(&self) -> (out: Vec<u8>)
        ensures
            out@ == self@,
    {
        let mut out: Vec<u8> = Vec::with_capacity(self.data.len());
        out.extend_from_slice(self.data.as_ref());
        out
    }

    /// Converts the [`Signature`] to text: its canonical bytes in lowercase
    /// hexadecimal.
    pub fn to_hex(&self) -> (text: String)
        ensures
            text@ == hex_text(self@),
    {
        hex_encode(self.data.as_ref())
    }

    /// Constructs a [`Signature`] from text: the hexadecimal digits of its
    /// canonical bytes, in either case.
    pub fn from_hex(text: &str) -> (result: LamportResult<Self>)
        ensures
            hex_bytes(text@) is Some && decode_signature(
                hex_bytes(text@)->0,
                matrix_cells::<T>(),
            ) is Some ==> result is Ok && result->Ok_0.wf() && result->Ok_0@ == hex_bytes(
                text@,
            )->0,
            hex_bytes(text@) is None || decode_signature(
                hex_bytes(text@)->0,
                matrix_cells::<T>(),
            ) is None ==> result is Err && result->Err_0 == LamportError::InvalidSignatureBytes,
    {
        match hex_decode(text) {
            Some(bytes) => Self::from_bytes(bytes.as_slice()),
            None => Err(LamportError::InvalidSignatureBytes),
        }
    }

    /// Constructs a [`Signature`] from canonical bytes. Exactly `B * B / 8`
    /// bytes are accepted.
    pub fn from_bytes(input: &[u8]) -> (result: LamportResult<Self>)
        ensures
            decode_signature(input@, matrix_cells::<T>()) is Some ==> result is Ok
                && result->Ok_0.wf() && result->Ok_0@ == decode_signature(
                input@,
                matrix_cells::<T>(),
            )->0,
            decode_signature(input@, matrix_cells::<T>()) is None ==> result is Err
                && result->Err_0 == LamportError::InvalidSignatureBytes,
    {
        let bits = T::digest_size_in_bits();
        let bytes = bits / 8;
        proof {
            lemma_matrix_cells_bound::<T>();
        }
        if input.len() != bits * bytes {
            return Err(LamportError::InvalidSignatureBytes);
        }
        let data = MultiVec::from_parts([bits, bytes], vstd::slice::slice_to_vec(input));
        Ok(Self { data, algorithm: PhantomData })
    }
}

impl<T: LamportDigest> Clone for Signature<T> {
    fn clone(&self) -> (out: Self)
        ensures
            out@ == self@,
            out.wf(),
    {
        proof {
            use_type_invariant(self);
        }
        let data = self.data.clone();
        Self { data, algorithm: PhantomData }
    }
}

/// A partial signature made by one share of a signing key. Enough of them
/// combine to the signature that the signing key itself would have made.
#[derive(Debug, PartialEq, Eq, PartialOrd, Ord, Hash)]
pub struct SignatureShare<T: LamportDigest> {
    pub(crate) identifier: u8,
    pub(crate) threshold: u8,
    pub(crate) data: MultiVec<u8, 2>,
    pub(crate) algorithm: PhantomData<T>,
}

impl<T: LamportDigest> View for SignatureShare<T> {
    type V = SignatureShareView;

    open spec fn view(&self) -> SignatureShareView {
        SignatureShareView {
            identifier: self.share_identifier(),
            threshold: self.share_threshold(),
            cells: self.matrix()@,
        }
    }
}

impl<T: LamportDigest> SignatureShare<T> {
    /// The identifier of the share.
    pub closed spec fn share_identifier(&self) -> u8 {
        self.identifier
    }

    /// The number of shares needed to combine.
    pub closed spec fn share_threshold(&self) -> u8 {
        self.threshold
    }

    /// The matrix of shares of revealed secrets.
    pub closed spec fn matrix(&self) -> MultiVec<u8, 2> {
        self.data
    }

    /// The matrix is full and has `B` rows of `B / 8` cells, the identifier
    /// is not zero and the threshold is at least 2.
    pub open spec fn wf(&self) -> bool {
        &&& is_key_matrix::<T>(self.matrix())
        &&& self@.identifier != 0
        &&& self@.threshold >= 2
    }

    /// Holds of every share: its matrix has the shape of the digest, and its
    /// identifier and threshold are in range.
    #[verifier::type_invariant]
    closed spec fn always_wf(&self) -> bool {
        self.wf()
    }

    /// Returns the identifier of the share.
    pub fn identifier(&self) -> (identifier: u8)
        ensures
            identifier == self@.identifier,
    {
        self.identifier
    }

    /// Returns the number of shares needed to combine.
    pub fn threshold(&self) -> (threshold: u8)
        ensures
            threshold == self@.threshold,
    {
        self.threshold
    }

    /// Returns the matrix of shares of revealed secrets.
    pub fn data(&self) -> (data: &MultiVec<u8, 2>)
        ensures
            *data == self.matrix(),
            is_key_matrix::<T>(*data),
    {
        proof {
            use_type_invariant(self);
        }
        &self.data
    }

    /// Puts a share together.
    pub(crate) fn from_parts(identifier: u8, threshold: u8, data: MultiVec<u8, 2>) -> (out: Self)
        requires
            is_key_matrix::<T>(data),
            identifier != 0,
            threshold >= 2,
        ensures
            out@.identifier == identifier,
            out@.threshold == threshold,
            out.matrix() == data,
    {
        Self { identifier, threshold, data, algorithm: PhantomData }
    }

    /// Converts the [`SignatureShare`] to canonical bytes: identifier and
    /// threshold, then the cells in storage order.
    pub fn to_bytes(&self) -> (out: Vec<u8>)
        ensures
            out@ == encode_signature_share(self@),
    {
        proof {
            use_type_invariant(self);
        }
        proof {
            lemma_matrix_cells_bound::<T>();
        }
        let mut out: Vec<u8> = Vec::with_capacity(2 + self.data.len());
        out.push(self.identifier);
        out.push(self.threshold);
        out.extend_from_slice(self.data.as_ref());
        out
    }

    /// Converts the [`SignatureShare`] to text: its canonical bytes in
    /// lowercase hexadecimal.
    pub fn to_hex(&self) -> (text: String)
        ensures
            text@ == hex_text(encode_signature_share(self@)),
    {
        let bytes = self.to_bytes();
        hex_encode(bytes.as_slice())
    }

    /// Constructs a [`SignatureShare`] from text: the hexadecimal digits of
    /// its canonical bytes, in either case.
    pub fn from_hex(text: &str) -> (result: LamportResult<Self>)
        ensures
            hex_bytes(text@) is Some && decode_signature_share(
                hex_bytes(text@)->0,
                matrix_cells::<T>(),
            ) is Some ==> result is Ok && result->Ok_0.wf() && result->Ok_0@
                == decode_signature_share(hex_bytes(text@)->0, matrix_cells::<T>())->0,
            hex_bytes(text@) is None || decode_signature_share(
                hex_bytes(text@)->0,
                matrix_cells::<T>(),
            ) is None ==> result is Err && result->Err_0 == LamportError::InvalidSignatureBytes,
    {
        match hex_decode(text) {
            Some(bytes) => Self::from_bytes(bytes.as_slice()),
            None => Err(LamportError::InvalidSignatureBytes),
        }
    }

    /// Constructs a [`SignatureShare`] from canonical bytes. Exactly
    /// `2 + B * B / 8` bytes are accepted, with an identifier other than zero
    /// and a threshold of at least 2.
    pub fn from_bytes(input: &[u8]) -> (result: LamportResult<Self>)
        ensures
            decode_signature_share(input@, matrix_cells::<T>()) is Some ==> result is Ok
                && result->Ok_0.wf() && result->Ok_0@ == decode_signature_share(
                input@,
                matrix_cells::<T>(),
            )->0,
            decode_signature_share(input@, matrix_cells::<T>()) is None ==> result is Err
                && result->Err_0 == LamportError::InvalidSignatureBytes,
    {
        let bits = T::digest_size_in_bits();
        let bytes = bits / 8;
        proof {
            lemma_matrix_cells_bound::<T>();
        }
        if input.len() != bits * bytes + 2 {
            return Err(LamportError::InvalidSignatureBytes);
        }
        let identifier = input[0];
        let threshold = input[1];
        if identifier == 0 {
            return Err(LamportError::InvalidSignatureBytes);
        }
        if threshold < 2 {
            return Err(LamportError::InvalidSignatureBytes);
        }
        let cells = vstd::slice::slice_to_vec(vstd::slice::slice_subrange(input, 2, input.len()));
        let data = MultiVec::from_parts([bits, bytes], cells);
        Ok(Self { identifier, threshold, data, algorithm: PhantomData })
    }
}

impl<T: LamportDigest> Clone for SignatureShare<T> {
    fn clone(&self) -> (out: Self)
        ensures
            out@ == self@,
            out.wf(),
    {
        proof {
            use_type_invariant(self);
        }
        let data = self.data.clone();
        proof {
            assert(data@ =~= self.data@);
        }
        Self {
            identifier: self.identifier,
            threshold: self.threshold,
            data,
            algorithm: PhantomData,
        }
    }
}

/// The identifiers of the shares, in their order.
pub open spec fn signature_share_ids<T: LamportDigest>(shares: Seq<SignatureShare<T>>) -> Seq<u8> {
    Seq::new(shares.len(), |j: int| shares[j]@.identifier)
}

/// The cells of the shares, in their order.
pub open spec fn signature_share_cells<T: LamportDigest>(shares: Seq<SignatureShare<T>>) -> Seq<
    Seq<u8>,
> {
    Seq::new(shares.len(), |j: int| shares[j]@.cells)
}

/// Whether all the shares name the threshold of the first.
pub open spec fn same_thresholds<T: LamportDigest>(shares: Seq<SignatureShare<T>>) -> bool {
    forall|j: int|
        0 <= j < shares.len() ==> (#[trigger] shares[j])@.threshold == shares[0]@.threshold
}

/// The error with which shares of a signature are refused, if they are:
/// fewer shares than the threshold that the first names, which no share at
/// all always is, then shares that name different thresholds, then two
/// shares with one identifier.
pub open spec fn signature_combine_failure<T: LamportDigest>(
    shares: Seq<SignatureShare<T>>,
) -> Option<LamportError> {
    if shares.len() == 0 || shares.len() < shares[0]@.threshold {
        Some(LamportError::VsssError(vsss_rs::Error::SharingMinThreshold))
    } else if !same_thresholds(shares) {
        Some(LamportError::InvalidSignatureBytes)
    } else if combine_failure(signature_share_ids(shares)) is Some {
        Some(LamportError::VsssError(combine_failure(signature_share_ids(shares))->0))
    } else {
        None
    }
}

impl<T: LamportDigest> Signature<T> {
    /// Combines shares of a signature into the signature: position by
    /// position, the shares are interpolated at zero over GF(256). At least
    /// as many shares as the threshold that the first names are needed, all
    /// naming that threshold, with different identifiers.
    pub fn combine(shares: &[SignatureShare<T>]) -> (result: LamportResult<Self>)
        ensures
            signature_combine_failure(shares@) is Some ==> result is Err && result->Err_0
                == signature_combine_failure(shares@)->0,
            signature_combine_failure(shares@) is None ==> result is Ok && result->Ok_0.wf()
                && result->Ok_0@ == combined_cells(
                signature_share_ids(shares@),
                signature_share_cells(shares@),
                matrix_cells::<T>(),
            ),
    {
        let count = shares.len();
        if count == 0 {
            return Err(LamportError::VsssError(vsss_rs::Error::SharingMinThreshold));
        }
        let threshold = shares[0].threshold;
        if count < threshold as usize {
            return Err(LamportError::VsssError(vsss_rs::Error::SharingMinThreshold));
        }
        let mut ids: Vec<u8> = Vec::with_capacity(count);
        let mut matrices: Vec<&MultiVec<u8, 2>> = Vec::with_capacity(count);
        let mut j: usize = 0;
        while j < count
            invariant
                j <= count,
                count == shares@.len(),
                count >= threshold,
                threshold == shares@[0]@.threshold,
                forall|k: int| 0 <= k < j ==> (#[trigger] shares@[k]).wf(),
                ids@.len() == j,
                matrices@.len() == j,
                forall|k: int| 0 <= k < j ==> ids@[k] == shares@[k]@.identifier,
                forall|k: int| 0 <= k < j ==> *matrices@[k] == shares@[k].matrix(),
                forall|k: int| 0 <= k < j ==> (#[trigger] shares@[k])@.threshold == threshold,
            decreases count - j,
        {
            let share = &shares[j];
            proof {
                use_type_invariant(share);
            }
            if share.threshold != threshold {
                return Err(LamportError::InvalidSignatureBytes);
            }
            ids.push(share.identifier);
            matrices.push(&share.data);
            j += 1;
        }
        let bits = T::digest_size_in_bits();
        let bytes = bits / 8;
        proof {
            lemma_matrix_cells_bound::<T>();
            assert(ids@ =~= signature_share_ids(shares@));
            assert(cells_of(matrices@) =~= signature_share_cells(shares@));
        }
        match combine_cells(ids.as_slice(), &matrices, bits * bytes) {
            Ok(cells) => Ok(Self::from_matrix(MultiVec::from_parts([bits, bytes], cells))),
            Err(error) => Err(LamportError::VsssError(error)),
        }
    }
}

} // verus!
