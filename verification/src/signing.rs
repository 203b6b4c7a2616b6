//! Signing keys and shares of signing keys.

use vstd::prelude::*;
use std::marker::PhantomData;
use rand::rngs::StdRng;
use crate::constant_time::select_rows;
use crate::error::{LamportError, LamportResult};
use crate::hash::{
    digest_bytes, is_key_matrix, lemma_matrix_cells_bound, matrix_cells, LamportDigest,
};
use crate::model::{
    after_signing, decode_signing_key, decode_signing_key_share, encode_signing_key,
    encode_signing_key_share, lemma_flat_index, partial_signature_of, share_after_signing,
    signature_of, wiped_cells, wiped_key, wiped_share, SigningKeyShareView, SigningKeyView,
};
use crate::multi_vec::{zeroize_bytes, MultiVec};
use crate::shamir::{
    cells_of, column, combine_cells, combine_failure, combined_cells, gather_share, is_sharing,
    share_cells, shares_at, split_cells, MAX_SHARES,
};
use crate::signature::{Signature, SignatureShare};
use crate::text::{hex_bytes, hex_decode, hex_encode, hex_text};
use crate::utils::separate_one_and_zero_values;

verus! {

/// A one-time signing key: a row of secrets for each value of each bit of a
/// digest, and a flag that records whether the key has signed.
#[derive(Debug, PartialEq, Eq, PartialOrd, Ord, Hash)]
pub struct SigningKey<T: LamportDigest> {
    pub(crate) zero_values: MultiVec<u8, 2>,
    pub(crate) one_values: MultiVec<u8, 2>,
    pub(crate) used: bool,
    pub(crate) algorithm: PhantomData<T>,
}

impl<T: LamportDigest> View for SigningKey<T> {
    type V = SigningKeyView;

    open spec fn view(&self) -> SigningKeyView {
        SigningKeyView {
            used: self.used_flag(),
            zero: self.zero_matrix()@,
            one: self.one_matrix()@,
        }
    }
}

impl<T: LamportDigest> SigningKey<T> {
    /// The matrix of the secrets for the bit 0.
    pub closed spec fn zero_matrix(&self) -> MultiVec<u8, 2> {
        self.zero_values
    }

    /// The matrix of the secrets for the bit 1.
    pub closed spec fn one_matrix(&self) -> MultiVec<u8, 2> {
        self.one_values
    }

    /// Whether the key has signed.
    pub closed spec fn used_flag(&self) -> bool {
        self.used
    }

    /// Both matrices are full and have `B` rows of `B / 8` cells.
    pub open spec fn wf(&self) -> bool {
        &&& is_key_matrix::<T>(self.zero_matrix())
        &&& is_key_matrix::<T>(self.one_matrix())
    }

    /// Holds of every signing key: its matrices have the shape of the digest.
    #[verifier::type_invariant]
    closed spec fn always_wf(&self) -> bool {
        self.wf()
    }

    /// Has this key been used.
    pub fn used(&self) -> (used: bool)
        ensures
            used == self@.used,
    {
        self.used
    }

    /// Returns the matrix of the secrets for the bit 0.
    pub fn zero_values(&self) -> (values: &MultiVec<u8, 2>)
        ensures
            *values == self.zero_matrix(),
            is_key_matrix::<T>(*values),
    {
        proof {
            use_type_invariant(self);
        }
        &self.zero_values
    }

    /// Returns the matrix of the secrets for the bit 1.
    pub fn one_values(&self) -> (values: &MultiVec<u8, 2>)
        ensures
            *values == self.one_matrix(),
            is_key_matrix::<T>(*values),
    {
        proof {
            use_type_invariant(self);
        }
        &self.one_values
    }

    /// Wipes the secrets: every cell of both matrices is overwritten with
    /// zero. The key keeps its shape and its flag.
    pub fn zeroize(&mut self)
        ensures
            final(self)@ == wiped_key(old(self)@),
            final(self).zero_matrix().shape() == old(self).zero_matrix().shape(),
            final(self).one_matrix().shape() == old(self).one_matrix().shape(),
            final(self).wf(),
    {
        proof {
            use_type_invariant(&*self);
        }
        self.zero_values.zeroize();
        self.one_values.zeroize();
        proof {
            assert(self.zero_values@ =~= wiped_cells(old(self).zero_values@));
            assert(self.one_values@ =~= wiped_cells(old(self).one_values@));
        }
    }

    /// Constructs a fresh [`SigningKey`] whose secrets are drawn from the
    /// specified generator, the zero secrets first.
    pub fn random(rng: &mut StdRng) -> (key: Self)
        ensures
            key.wf(),
            !key@.used,
    {
        let zero_values = T::random(rng);
        let one_values = T::random(rng);
        SigningKey { zero_values, one_values, used: false, algorithm: PhantomData }
    }

    /// Signs the data, once: the signature reveals, for every bit of the
    /// digest of the data, the row of secrets that belongs to the value of the
    /// bit. A key that has signed refuses to sign again.
    pub fn sign(&mut self, data: &[u8]) -> (result: LamportResult<Signature<T>>)
        ensures
            final(self).zero_matrix() == old(self).zero_matrix(),
            final(self).one_matrix() == old(self).one_matrix(),
            final(self)@ == after_signing(old(self)@),
            signature_of::<T>(old(self)@, data@) is None ==> result is Err && result->Err_0
                == LamportError::PrivateKeyReuseError,
            signature_of::<T>(old(self)@, data@) is Some ==> result is Ok && result->Ok_0.wf()
                && result->Ok_0@ == signature_of::<T>(old(self)@, data@)->0,
    {
        proof {
            use_type_invariant(&*self);
        }
        if self.used {
            return Err(LamportError::PrivateKeyReuseError);
        }
        let data_hash = T::digest(data);
        proof {
            lemma_matrix_cells_bound::<T>();
            let y = data_hash@.len();
            assert(8 * y * y == (8 * y) * y) by (nonlinear_arith);
        }
        let data = select_rows(&self.zero_values, &self.one_values, data_hash.as_slice());
        self.used = true;
        Ok(Signature::from_matrix(data))
    }

    /// Converts the [`SigningKey`] to canonical bytes: the flag, then the
    /// zero secrets, then the one secrets.
    pub fn to_bytes(&self) -> (out: Vec<u8>)
        ensures
            out@ == encode_signing_key(self@),
    {
        proof {
            use_type_invariant(self);
        }
        proof {
            lemma_matrix_cells_bound::<T>();
        }
        let mut out: Vec<u8> = Vec::with_capacity(1 + 2 * self.zero_values.len());
        out.push(if self.used { 1u8 } else { 0u8 });
        out.extend_from_slice(self.zero_values.as_ref());
        out.extend_from_slice(self.one_values.as_ref());
        out
    }

    /// Converts the [`SigningKey`] to text: its canonical bytes in lowercase
    /// hexadecimal.
    pub fn to_hex(&self) -> (text: String)
        ensures
            text@ == hex_text(encode_signing_key(self@)),
    {
        let mut bytes = self.to_bytes();
        let text = hex_encode(bytes.as_slice());
        zeroize_bytes(&mut bytes);
        text
    }

    /// Constructs a [`SigningKey`] from text: the hexadecimal digits of its
    /// canonical bytes, in either case.
    pub fn from_hex(text: &str) -> (result: LamportResult<Self>)
        ensures
            hex_bytes(text@) is Some && decode_signing_key(
                hex_bytes(text@)->0,
                matrix_cells::<T>(),
            ) is Some ==> result is Ok && result->Ok_0.wf() && result->Ok_0@ == decode_signing_key(
                hex_bytes(text@)->0,
                matrix_cells::<T>(),
            )->0,
            hex_bytes(text@) is None || decode_signing_key(
                hex_bytes(text@)->0,
                matrix_cells::<T>(),
            ) is None ==> result is Err && result->Err_0 == LamportError::InvalidPrivateKeyBytes,
    {
        match hex_decode(text) {
            Some(bytes) => {
                let mut bytes = bytes;
                let result = Self::from_bytes(bytes.as_slice());
                zeroize_bytes(&mut bytes);
                result
            },
            None => Err(LamportError::InvalidPrivateKeyBytes),
        }
    }

    /// Constructs a [`SigningKey`] from canonical bytes. Exactly
    /// `1 + 2 * B * B / 8` bytes are accepted; the key has signed if the first
    /// byte is 1.
    pub fn from_bytes(input: &[u8]) -> (result: LamportResult<Self>)
        ensures
            decode_signing_key(input@, matrix_cells::<T>()) is Some ==> result is Ok
                && result->Ok_0.wf() && result->Ok_0@ == decode_signing_key(
                input@,
                matrix_cells::<T>(),
            )->0,
            decode_signing_key(input@, matrix_cells::<T>()) is None ==> result is Err
                && result->Err_0 == LamportError::InvalidPrivateKeyBytes,
    {
        let bits = T::digest_size_in_bits();
        let bytes = bits / 8;
        proof {
            lemma_matrix_cells_bound::<T>();
            assert(8 * bytes * bytes == bits * bytes) by (nonlinear_arith)
                requires
                    8 * bytes == bits,
            ;
        }
        if input.len() != bits * bytes * 2 + 1 {
            return Err(LamportError::InvalidPrivateKeyBytes);
        }
        let used = input[0] == 1;
        let (zero_values, one_values) = separate_one_and_zero_values(
            vstd::slice::slice_subrange(input, 1, input.len()),
            bytes,
        );
        proof {
            let cells = matrix_cells::<T>() as int;
            let tail = input@.subrange(1, input@.len() as int);
            assert(tail.subrange(0, cells) =~= input@.subrange(1, 1 + cells));
            assert(tail.subrange(cells, tail.len() as int) =~= input@.subrange(
                1 + cells,
                1 + 2 * cells,
            ));
        }
        Ok(Self { used, zero_values, one_values, algorithm: PhantomData })
    }
}

/// A share of a signing key. Enough shares combine to the signing key, and
/// each share signs on its own, which gives a share of a signature.
#[derive(Debug, PartialEq, Eq, PartialOrd, Ord, Hash)]
pub struct SigningKeyShare<T: LamportDigest> {
    pub(crate) identifier: u8,
    pub(crate) zero_values: MultiVec<u8, 2>,
    pub(crate) one_values: MultiVec<u8, 2>,
    pub(crate) used: bool,
    pub(crate) threshold: u8,
    pub(crate) algorithm: PhantomData<T>,
}

impl<T: LamportDigest> View for SigningKeyShare<T> {
    type V = SigningKeyShareView;

    open spec fn view(&self) -> SigningKeyShareView {
        SigningKeyShareView {
            identifier: self.share_identifier(),
            threshold: self.share_threshold(),
            used: self.used_flag(),
            zero: self.zero_matrix()@,
            one: self.one_matrix()@,
        }
    }
}

impl<T: LamportDigest> SigningKeyShare<T> {
    /// The identifier of the share.
    pub closed spec fn share_identifier(&self) -> u8 {
        self.identifier
    }

    /// The number of shares needed to combine.
    pub closed spec fn share_threshold(&self) -> u8 {
        self.threshold
    }

    /// Whether the share has signed.
    pub closed spec fn used_flag(&self) -> bool {
        self.used
    }

    /// The matrix of the shares of the secrets for the bit 0.
    pub closed spec fn zero_matrix(&self) -> MultiVec<u8, 2> {
        self.zero_values
    }

    /// The matrix of the shares of the secrets for the bit 1.
    pub closed spec fn one_matrix(&self) -> MultiVec<u8, 2> {
        self.one_values
    }

    /// Both matrices are full and have `B` rows of `B / 8` cells, the
    /// identifier is not zero and the threshold is at least 2.
    pub open spec fn wf(&self) -> bool {
        &&& is_key_matrix::<T>(self.zero_matrix())
        &&& is_key_matrix::<T>(self.one_matrix())
        &&& self@.identifier != 0
        &&& self@.threshold >= 2
    }

    /// Holds of every share: its matrices have the shape of the digest, and
    /// its identifier and threshold are in range.
    #[verifier::type_invariant]
    closed spec fn always_wf(&self) -> bool {
        self.wf()
    }

    /// Returns the identifier of the share.
    pub fn identifier(&self) -> (identifier: u8)
        ensures
            identifier == self@.identifier,
    {
        self.identifier
    }

    /// Returns the number of shares needed to combine.
    pub fn threshold(&self) -> (threshold: u8)
        ensures
            threshold == self@.threshold,
    {
        self.threshold
    }

    /// Has this share been used.
    pub fn used(&self) -> (used: bool)
        ensures
            used == self@.used,
    {
        self.used
    }

    /// Wipes the shares of the secrets: every cell of both matrices is
    /// overwritten with zero. The share keeps its shape, its identifier, its
    /// threshold and its flag.
    pub fn zeroize(&mut self)
        ensures
            final(self)@ == wiped_share(old(self)@),
            final(self).zero_matrix().shape() == old(self).zero_matrix().shape(),
            final(self).one_matrix().shape() == old(self).one_matrix().shape(),
            final(self).wf(),
    {
        proof {
            use_type_invariant(&*self);
        }
        self.zero_values.zeroize();
        self.one_values.zeroize();
        proof {
            assert(self.zero_values@ =~= wiped_cells(old(self).zero_values@));
            assert(self.one_values@ =~= wiped_cells(old(self).one_values@));
        }
    }

    /// Signs the data, once, to create a [`SignatureShare`] with the
    /// identifier and the threshold of this share: for every bit of the digest
    /// of the data, the row of this share that belongs to the value of the bit.
    /// A share that has signed refuses to sign again.
    pub fn sign(&mut self, data: &[u8]) -> (result: LamportResult<SignatureShare<T>>)
        ensures
            final(self).zero_matrix() == old(self).zero_matrix(),
            final(self).one_matrix() == old(self).one_matrix(),
            final(self)@ == share_after_signing(old(self)@),
            partial_signature_of::<T>(old(self)@, data@) is None ==> result is Err
                && result->Err_0 == LamportError::PrivateKeyReuseError,
            partial_signature_of::<T>(old(self)@, data@) is Some ==> result is Ok
                && result->Ok_0.wf() && result->Ok_0@ == partial_signature_of::<T>(
                old(self)@,
                data@,
            )->0,
    {
        proof {
            use_type_invariant(&*self);
        }
        if self.used {
            return Err(LamportError::PrivateKeyReuseError);
        }
        let data_hash = T::digest(data);
        proof {
            lemma_matrix_cells_bound::<T>();
            let y = data_hash@.len();
            assert(8 * y * y == (8 * y) * y) by (nonlinear_arith);
        }
        let data = select_rows(&self.zero_values, &self.one_values, data_hash.as_slice());
        self.used = true;
        Ok(SignatureShare::from_parts(self.identifier, self.threshold, data))
    }

    /// Converts the [`SigningKeyShare`] to canonical bytes: identifier,
    /// threshold and flag, then the zero shares, then the one shares.
    pub fn to_bytes(&self) -> (out: Vec<u8>)
        ensures
            out@ == encode_signing_key_share(self@),
    {
        proof {
            use_type_invariant(self);
        }
        proof {
            lemma_matrix_cells_bound::<T>();
        }
        let mut out: Vec<u8> = Vec::with_capacity(3 + 2 * self.zero_values.len());
        out.push(self.identifier);
        out.push(self.threshold);
        out.push(if self.used { 1u8 } else { 0u8 });
        out.extend_from_slice(self.zero_values.as_ref());
        out.extend_from_slice(self.one_values.as_ref());
        out
    }

    /// Converts the [`SigningKeyShare`] to text: its canonical bytes in
    /// lowercase hexadecimal.
    pub fn to_hex(&self) -> (text: String)
        ensures
            text@ == hex_text(encode_signing_key_share(self@)),
    {
        let mut bytes = self.to_bytes();
        let text = hex_encode(bytes.as_slice());
        zeroize_bytes(&mut bytes);
        text
    }

    /// Constructs a [`SigningKeyShare`] from text: the hexadecimal digits of
    /// its canonical bytes, in either case.
    pub fn from_hex(text: &str) -> (result: LamportResult<Self>)
        ensures
            hex_bytes(text@) is Some && decode_signing_key_share(
                hex_bytes(text@)->0,
                matrix_cells::<T>(),
            ) is Some ==> result is Ok && result->Ok_0.wf() && result->Ok_0@
                == decode_signing_key_share(hex_bytes(text@)->0, matrix_cells::<T>())->0,
            hex_bytes(text@) is None || decode_signing_key_share(
                hex_bytes(text@)->0,
                matrix_cells::<T>(),
            ) is None ==> result is Err && result->Err_0 == LamportError::InvalidPrivateKeyBytes,
    {
        match hex_decode(text) {
            Some(bytes) => {
                let mut bytes = bytes;
                let result = Self::from_bytes(bytes.as_slice());
                zeroize_bytes(&mut bytes);
                result
            },
            None => Err(LamportError::InvalidPrivateKeyBytes),
        }
    }

    /// Constructs a [`SigningKeyShare`] from canonical bytes. Exactly
    /// `3 + 2 * B * B / 8` bytes are accepted, with an identifier other than
    /// zero and a threshold of at least 2; the share has signed if the third
    /// byte is 1.
    pub fn from_bytes(input: &[u8]) -> (result: LamportResult<Self>)
        ensures
            decode_signing_key_share(input@, matrix_cells::<T>()) is Some ==> result is Ok
                && result->Ok_0.wf() && result->Ok_0@ == decode_signing_key_share(
                input@,
                matrix_cells::<T>(),
            )->0,
            decode_signing_key_share(input@, matrix_cells::<T>()) is None ==> result is Err
                && result->Err_0 == LamportError::InvalidPrivateKeyBytes,
    {
        let bits = T::digest_size_in_bits();
        let bytes = bits / 8;
        proof {
            lemma_matrix_cells_bound::<T>();
            assert(8 * bytes * bytes == bits * bytes) by (nonlinear_arith)
                requires
                    8 * bytes == bits,
            ;
        }
        if input.len() != bits * bytes * 2 + 3 {
            return Err(LamportError::InvalidPrivateKeyBytes);
        }
        let identifier = input[0];
        let threshold = input[1];
        if identifier == 0 {
            return Err(LamportError::InvalidPrivateKeyBytes);
        }
        if threshold < 2 {
            return Err(LamportError::InvalidPrivateKeyBytes);
        }
        let used = input[2] == 1;
        let (zero_values, one_values) = separate_one_and_zero_values(
            vstd::slice::slice_subrange(input, 3, input.len()),
            bytes,
        );
        proof {
            let cells = matrix_cells::<T>() as int;
            let tail = input@.subrange(3, input@.len() as int);
            assert(tail.subrange(0, cells) =~= input@.subrange(3, 3 + cells));
            assert(tail.subrange(cells, tail.len() as int) =~= input@.subrange(
                3 + cells,
                3 + 2 * cells,
            ));
        }
        Ok(Self { identifier, used, threshold, zero_values, one_values, algorithm: PhantomData })
    }
}

impl<T: LamportDigest> Clone for SigningKey<T> {
    /// Copies the key together with its flag. The flag of each copy is its
    /// own: a key that is copied before it signs gives two keys that each sign
    /// once, which the scheme does not bear. Copy a key that has not signed
    /// only to move it.
    fn clone(&self) -> (out: Self)
        ensures
            out@ == self@,
            out.wf(),
    {
        proof {
            use_type_invariant(self);
        }
        let zero_values = self.zero_values.clone();
        let one_values = self.one_values.clone();
        proof {
            assert(zero_values@ =~= self.zero_values@);
            assert(one_values@ =~= self.one_values@);
        }
        Self { zero_values, one_values, used: self.used, algorithm: PhantomData }
    }
}

impl<T: LamportDigest> Clone for SigningKeyShare<T> {
    /// Copies the share together with its flag. The flag of each copy is its
    /// own, as for a signing key.
    fn clone(&self) -> (out: Self)
        ensures
            out@ == self@,
            out.wf(),
    {
        proof {
            use_type_invariant(self);
        }
        let zero_values = self.zero_values.clone();
        let one_values = self.one_values.clone();
        proof {
            assert(zero_values@ =~= self.zero_values@);
            assert(one_values@ =~= self.one_values@);
        }
        Self {
            identifier: self.identifier,
            zero_values,
            one_values,
            used: self.used,
            threshold: self.threshold,
            algorithm: PhantomData,
        }
    }
}

impl<T: LamportDigest> Drop for SigningKey<T> {
    /// Wipes the secrets when the key goes away.
    fn drop(&mut self)
        opens_invariants none
        no_unwind
    {
        proof {
            use_type_invariant(&*self);
        }
        self.zero_values.zeroize();
        self.one_values.zeroize();
    }
}

impl<T: LamportDigest> Drop for SigningKeyShare<T> {
    /// Wipes the shares of the secrets when the share goes away.
    fn drop(&mut self)
        opens_invariants none
        no_unwind
    {
        proof {
            use_type_invariant(&*self);
        }
        self.zero_values.zeroize();
        self.one_values.zeroize();
    }
}

/// The identifiers of the shares, in their order.
pub open spec fn key_share_ids<T: LamportDigest>(shares: Seq<SigningKeyShare<T>>) -> Seq<u8> {
    Seq::new(shares.len(), |j: int| shares[j]@.identifier)
}

/// The cells of the zero matrices of the shares, in their order.
pub open spec fn key_share_zero_cells<T: LamportDigest>(shares: Seq<SigningKeyShare<T>>) -> Seq<
    Seq<u8>,
> {
    Seq::new(shares.len(), |j: int| shares[j]@.zero)
}

/// The cells of the one matrices of the shares, in their order.
pub open spec fn key_share_one_cells<T: LamportDigest>(shares: Seq<SigningKeyShare<T>>) -> Seq<
    Seq<u8>,
> {
    Seq::new(shares.len(), |j: int| shares[j]@.one)
}

/// Whether one of the shares has signed.
pub open spec fn any_used<T: LamportDigest>(shares: Seq<SigningKeyShare<T>>) -> bool {
    exists|j: int| 0 <= j < shares.len() && (#[trigger] shares[j])@.used
}

/// The shares are those of one split of the key: share `j` has the identifier
/// `j + 1`, all name the threshold and carry the flag of the key, and at
/// every position of either matrix the cells of the shares are shares of the
/// cell of the key.
pub open spec fn is_split_of<T: LamportDigest>(
    shares: Seq<SigningKeyShare<T>>,
    key: SigningKeyView,
    threshold: nat,
) -> bool {
    &&& forall|j: int|
        0 <= j < shares.len() ==> {
            &&& (#[trigger] shares[j]).wf()
            &&& shares[j]@.identifier == j + 1
            &&& shares[j]@.threshold == threshold
            &&& shares[j]@.used == key.used
        }
    &&& forall|cell: int|
        0 <= cell < key.zero.len() ==> is_sharing(
            #[trigger] column(key_share_zero_cells(shares), cell),
            threshold,
            key.zero[cell],
        )
    &&& forall|cell: int|
        0 <= cell < key.one.len() ==> is_sharing(
            #[trigger] column(key_share_one_cells(shares), cell),
            threshold,
            key.one[cell],
        )
}

/// The error with which shares of a signing key are refused, if they are:
/// fewer shares than the threshold that the first names, which no share at
/// all always is, then two shares with one identifier.
pub open spec fn key_combine_failure<T: LamportDigest>(shares: Seq<SigningKeyShare<T>>) -> Option<
    LamportError,
> {
    if shares.len() == 0 || shares.len() < shares[0]@.threshold {
        Some(LamportError::VsssError(vsss_rs::Error::SharingMinThreshold))
    } else if combine_failure(key_share_ids(shares)) is Some {
        Some(LamportError::VsssError(combine_failure(key_share_ids(shares))->0))
    } else {
        None
    }
}

/// The decimal digits of a number.
pub open spec fn decimal(value: nat) -> Seq<char>
    decreases value,
{
    if value < 10 {
        seq![(0x30 + value) as char]
    } else {
        decimal(value / 10).push((0x30 + value % 10) as char)
    }
}

/// The message that says which value no identifier can hold.
pub open spec fn identifier_text(value: usize) -> Seq<char> {
    "unable to create identifier for "@ + decimal(value as nat)
}

/// Calls `format!` of std, which writes the text and then the value in
/// decimal digits.
#[verifier::external_body]
fn identifier_message(value: usize) -> (message: String)
    ensures
        message@ == identifier_text(value),
{
    format!("unable to create identifier for {}", value)
}

impl<T: LamportDigest> SigningKey<T> {
    /// Create secret shares of the signing key where `threshold` are required
    /// to combine back into this secret: every secret byte is split on its
    /// own, and share `j` takes the share with the identifier `j + 1` of every
    /// byte. The threshold must be at least 2, and there must be at least as
    /// many shares as the threshold and at most 255. A number of shares or a
    /// threshold that no identifier can hold is refused with a message that
    /// names it; what else cannot be shared is refused by the sharing layer.
    pub fn split(&self, threshold: usize, shares: usize, rng: &mut StdRng) -> (result:
        LamportResult<Vec<SigningKeyShare<T>>>)
        ensures
            shares >= 1 && threshold > MAX_SHARES ==> result is Err && result->Err_0 is General
                && result->Err_0->General_0@ == identifier_text(threshold),
            shares > MAX_SHARES && threshold <= MAX_SHARES ==> result is Err
                && result->Err_0 is General && result->Err_0->General_0@ == identifier_text(
                (MAX_SHARES + 1) as usize,
            ),
            shares < threshold && (shares == 0 || threshold <= MAX_SHARES) ==> result is Err
                && result->Err_0 == LamportError::VsssError(
                vsss_rs::Error::SharingLimitLessThanThreshold,
            ),
            threshold <= shares <= MAX_SHARES && threshold < 2 ==> result is Err && result->Err_0
                == LamportError::VsssError(vsss_rs::Error::SharingMinThreshold),
            2 <= threshold <= shares <= MAX_SHARES ==> result is Ok && result->Ok_0@.len()
                == shares && is_split_of(result->Ok_0@, self@, threshold as nat),
    {
        proof {
            use_type_invariant(self);
        }
        if shares >= 1 && threshold > MAX_SHARES {
            return Err(LamportError::General(identifier_message(threshold)));
        }
        if shares > MAX_SHARES {
            return Err(LamportError::General(identifier_message(MAX_SHARES + 1)));
        }
        let bits = T::digest_size_in_bits();
        let bytes = bits / 8;
        proof {
            lemma_matrix_cells_bound::<T>();
        }
        let cells = bits * bytes;
        let mut zero_flat = match split_cells(self.zero_values.as_ref(), threshold, shares, rng) {
            Ok(flat) => flat,
            Err(error) => {
                return Err(LamportError::VsssError(error));
            },
        };
        let mut one_flat = match split_cells(self.one_values.as_ref(), threshold, shares, rng) {
            Ok(flat) => flat,
            Err(error) => {
                zeroize_bytes(&mut zero_flat);
                return Err(LamportError::VsssError(error));
            },
        };
        let mut output: Vec<SigningKeyShare<T>> = Vec::with_capacity(shares);
        let mut j: usize = 0;
        while j < shares
            invariant
                j <= shares,
                2 <= threshold <= shares <= MAX_SHARES,
                bits == T::bits(),
                bytes == digest_bytes::<T>(),
                cells == matrix_cells::<T>(),
                zero_flat@.len() == cells * shares,
                one_flat@.len() == cells * shares,
                output@.len() == j,
                forall|s: int|
                    0 <= s < j ==> {
                        &&& (#[trigger] output@[s]).wf()
                        &&& output@[s]@.identifier == s + 1
                        &&& output@[s]@.threshold == threshold
                        &&& output@[s]@.used == self@.used
                        &&& output@[s]@.zero == share_cells(
                            zero_flat@,
                            s,
                            shares as nat,
                            cells as nat,
                        )
                        &&& output@[s]@.one == share_cells(
                            one_flat@,
                            s,
                            shares as nat,
                            cells as nat,
                        )
                    },
            decreases shares - j,
        {
            let zero_values = MultiVec::from_parts(
                [bits, bytes],
                gather_share(zero_flat.as_slice(), j, shares, cells),
            );
            let one_values = MultiVec::from_parts(
                [bits, bytes],
                gather_share(one_flat.as_slice(), j, shares, cells),
            );
            output.push(
                SigningKeyShare {
                    identifier: (j + 1) as u8,
                    zero_values,
                    one_values,
                    used: self.used,
                    threshold: threshold as u8,
                    algorithm: PhantomData,
                },
            );
            j += 1;
        }
        proof {
            assert forall|cell: int| 0 <= cell < self@.zero.len() implies is_sharing(
                #[trigger] column(key_share_zero_cells(output@), cell),
                threshold as nat,
                self@.zero[cell],
            ) by {
                lemma_flat_index(cells as int, shares as int, cell, 0);
                assert(column(key_share_zero_cells(output@), cell) =~= shares_at(
                    zero_flat@,
                    cell,
                    shares as nat,
                ));
            }
            assert forall|cell: int| 0 <= cell < self@.one.len() implies is_sharing(
                #[trigger] column(key_share_one_cells(output@), cell),
                threshold as nat,
                self@.one[cell],
            ) by {
                lemma_flat_index(cells as int, shares as int, cell, 0);
                assert(column(key_share_one_cells(output@), cell) =~= shares_at(
                    one_flat@,
                    cell,
                    shares as nat,
                ));
            }
        }
        zeroize_bytes(&mut zero_flat);
        zeroize_bytes(&mut one_flat);
        Ok(output)
    }

    /// Reconstruct the signing key from the secret shares created by `split`:
    /// position by position, the shares are interpolated at zero over
    /// GF(256). At least as many shares as the threshold of the first are
    /// needed, with different identifiers. The key has signed if one of the
    /// shares has.
    pub fn combine(shares: &[SigningKeyShare<T>]) -> (result: LamportResult<Self>)
        ensures
            key_combine_failure(shares@) is Some ==> result is Err && result->Err_0
                == key_combine_failure(shares@)->0,
            key_combine_failure(shares@) is None ==> result is Ok && result->Ok_0.wf()
                && result->Ok_0@.used == any_used(shares@) && result->Ok_0@.zero
                == combined_cells(
                key_share_ids(shares@),
                key_share_zero_cells(shares@),
                matrix_cells::<T>(),
            ) && result->Ok_0@.one == combined_cells(
                key_share_ids(shares@),
                key_share_one_cells(shares@),
                matrix_cells::<T>(),
            ),
    {
        let count = shares.len();
        if count == 0 {
            return Err(LamportError::VsssError(vsss_rs::Error::SharingMinThreshold));
        }
        if count < shares[0].threshold as usize {
            return Err(LamportError::VsssError(vsss_rs::Error::SharingMinThreshold));
        }
        let mut used = false;
        let mut ids: Vec<u8> = Vec::with_capacity(count);
        let mut zeros: Vec<&MultiVec<u8, 2>> = Vec::with_capacity(count);
        let mut ones: Vec<&MultiVec<u8, 2>> = Vec::with_capacity(count);
        let mut j: usize = 0;
        while j < count
            invariant
                j <= count,
                count == shares@.len(),
                forall|k: int| 0 <= k < j ==> (#[trigger] shares@[k]).wf(),
                ids@.len() == j,
                zeros@.len() == j,
                ones@.len() == j,
                forall|k: int| 0 <= k < j ==> ids@[k] == shares@[k]@.identifier,
                forall|k: int| 0 <= k < j ==> *zeros@[k] == shares@[k].zero_matrix(),
                forall|k: int| 0 <= k < j ==> *ones@[k] == shares@[k].one_matrix(),
                used <==> exists|k: int| 0 <= k < j && (#[trigger] shares@[k])@.used,
            decreases count - j,
        {
            let share = &shares[j];
            proof {
                use_type_invariant(share);
            }
            ids.push(share.identifier);
            zeros.push(&share.zero_values);
            ones.push(&share.one_values);
            if shares[j].used {
                used = true;
            }
            j += 1;
        }
        let bits = T::digest_size_in_bits();
        let bytes = bits / 8;
        proof {
            lemma_matrix_cells_bound::<T>();
            assert(ids@ =~= key_share_ids(shares@));
            assert(cells_of(zeros@) =~= key_share_zero_cells(shares@));
            assert(cells_of(ones@) =~= key_share_one_cells(shares@));
        }
        let zero_cells = match combine_cells(ids.as_slice(), &zeros, bits * bytes) {
            Ok(cells) => cells,
            Err(error) => {
                return Err(LamportError::VsssError(error));
            },
        };
        let one_cells = match combine_cells(ids.as_slice(), &ones, bits * bytes) {
            Ok(cells) => cells,
            Err(error) => {
                return Err(LamportError::VsssError(error));
            },
        };
        Ok(
            Self {
                zero_values: MultiVec::from_parts([bits, bytes], zero_cells),
                one_values: MultiVec::from_parts([bits, bytes], one_cells),
                used,
                algorithm: PhantomData,
            },
        )
    }
}

} // verus!
