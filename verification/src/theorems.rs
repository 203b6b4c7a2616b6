//! What holds of the scheme as a whole: the codecs round-trip, a signature
//! is accepted for the message it was made for, and shares of keys and of
//! signatures combine to the key and to its signature.

use vstd::prelude::*;
use vstd::arithmetic::div_mod::lemma_fundamental_div_mod_converse;
use crate::error::LamportError;
use crate::hash::{
    digest_bytes, is_key_matrix, lemma_matrix_cells_bound, matrix_cells, LamportDigest,
};
use crate::model::{
    accepts, after_signing, decode_signature, decode_signature_share, decode_signing_key,
    decode_signing_key_share, decode_verifying_key, digest_bit, encode_signature_share,
    encode_signing_key, encode_signing_key_share, encode_verifying_key, hashed_rows,
    partial_signature_of, row, select_cells, share_after_signing, signature_of,
    SignatureShareView, SigningKeyShareView, SigningKeyView, VerifyingKeyView,
};
use crate::multi_vec::{lemma_volume_two, MultiVec};
use crate::shamir::{
    column, combine_failure, combined_cells, has_duplicate, has_zero, is_sharing, picked,
    picked_secret, sequential_ids, valid_picks,
};
use crate::signature::{
    same_thresholds, signature_combine_failure, signature_share_cells, signature_share_ids,
    SignatureShare,
};
use crate::signing::{
    any_used, is_split_of, key_combine_failure, key_share_ids, key_share_one_cells,
    key_share_zero_cells, SigningKeyShare,
};

verus! {

/// Decoding the canonical bytes of a signing key gives the key back.
pub proof fn theorem_signing_key_round_trip(key: SigningKeyView, cells: nat)
    requires
        key.zero.len() == cells,
        key.one.len() == cells,
    ensures
        decode_signing_key(encode_signing_key(key), cells) == Some(key),
{
    let bytes = encode_signing_key(key);
    let decoded = decode_signing_key(bytes, cells)->0;
    assert(decoded.zero =~= key.zero);
    assert(decoded.one =~= key.one);
}

/// Encoding a signing key that was decoded from bytes gives the bytes back,
/// where their first byte is a flag, 0 or 1.
pub proof fn theorem_signing_key_bytes_round_trip(bytes: Seq<u8>, cells: nat)
    requires
        decode_signing_key(bytes, cells) is Some,
        bytes[0] <= 1,
    ensures
        encode_signing_key(decode_signing_key(bytes, cells)->0) == bytes,
{
}

/// Decoding the canonical bytes of a verifying key gives the key back.
pub proof fn theorem_verifying_key_round_trip(key: VerifyingKeyView, cells: nat)
    requires
        key.zero.len() == cells,
        key.one.len() == cells,
    ensures
        decode_verifying_key(encode_verifying_key(key), cells) == Some(key),
{
    let bytes = encode_verifying_key(key);
    let decoded = decode_verifying_key(bytes, cells)->0;
    assert(decoded.zero =~= key.zero);
    assert(decoded.one =~= key.one);
}

/// Encoding a verifying key that was decoded from bytes gives the bytes back.
pub proof fn theorem_verifying_key_bytes_round_trip(bytes: Seq<u8>, cells: nat)
    requires
        decode_verifying_key(bytes, cells) is Some,
    ensures
        encode_verifying_key(decode_verifying_key(bytes, cells)->0) == bytes,
{
}

/// The canonical bytes of a signature are its cells, and decoding them gives
/// the signature back.
pub proof fn theorem_signature_round_trip(signature: Seq<u8>, cells: nat)
    requires
        signature.len() == cells,
    ensures
        decode_signature(signature, cells) == Some(signature),
{
}

/// Decoding the canonical bytes of a share of a signing key gives the share
/// back.
pub proof fn theorem_signing_key_share_round_trip(share: SigningKeyShareView, cells: nat)
    requires
        share.zero.len() == cells,
        share.one.len() == cells,
        share.identifier != 0,
        share.threshold >= 2,
    ensures
        decode_signing_key_share(encode_signing_key_share(share), cells) == Some(share),
{
    let bytes = encode_signing_key_share(share);
    let decoded = decode_signing_key_share(bytes, cells)->0;
    assert(decoded.zero =~= share.zero);
    assert(decoded.one =~= share.one);
}

/// Encoding a share of a signing key that was decoded from bytes gives the
/// bytes back, where their third byte is a flag, 0 or 1.
pub proof fn theorem_signing_key_share_bytes_round_trip(bytes: Seq<u8>, cells: nat)
    requires
        decode_signing_key_share(bytes, cells) is Some,
        bytes[2] <= 1,
    ensures
        encode_signing_key_share(decode_signing_key_share(bytes, cells)->0) == bytes,
{
}

/// Decoding the canonical bytes of a share of a signature gives the share
/// back.
pub proof fn theorem_signature_share_round_trip(share: SignatureShareView, cells: nat)
    requires
        share.cells.len() == cells,
        share.identifier != 0,
        share.threshold >= 2,
    ensures
        decode_signature_share(encode_signature_share(share), cells) == Some(share),
{
    let bytes = encode_signature_share(share);
    let decoded = decode_signature_share(bytes, cells)->0;
    assert(decoded.cells =~= share.cells);
}

/// Encoding a share of a signature that was decoded from bytes gives the
/// bytes back.
pub proof fn theorem_signature_share_bytes_round_trip(bytes: Seq<u8>, cells: nat)
    requires
        decode_signature_share(bytes, cells) is Some,
    ensures
        encode_signature_share(decode_signature_share(bytes, cells)->0) == bytes,
{
}

/// A signing key signs once: after it was asked to sign a message, it makes
/// no signature, whatever the message.
pub proof fn theorem_sign_once<T: LamportDigest>(key: SigningKeyView, second: Seq<u8>)
    ensures
        after_signing(key).used,
        signature_of::<T>(after_signing(key), second) is None,
{
}

/// A share of a signing key signs once: after it was asked to sign a
/// message, it makes no share of a signature, whatever the message.
pub proof fn theorem_share_signs_once<T: LamportDigest>(
    share: SigningKeyShareView,
    second: Seq<u8>,
)
    ensures
        share_after_signing(share).used,
        partial_signature_of::<T>(share_after_signing(share), second) is None,
{
}

/// The matrices of keys and signatures have one row for each bit of a
/// digest and one cell in a row for each byte of a digest, and they are full.
pub proof fn theorem_key_matrix_shape<T: LamportDigest>(matrix: MultiVec<u8, 2>)
    requires
        is_key_matrix::<T>(matrix),
    ensures
        matrix.rows() == T::bits(),
        matrix.cols() * 8 == T::bits(),
        matrix.is_full(),
        matrix@.len() == matrix.rows() * matrix.cols(),
{
    lemma_matrix_cells_bound::<T>();
    lemma_volume_two(matrix.shape());
}

/// Row `i` of what a digest reveals is row `i` of the one secrets where bit
/// `i` of the digest is set, and row `i` of the zero secrets where it is not.
pub proof fn lemma_selected_row(zero: Seq<u8>, one: Seq<u8>, digest: Seq<u8>, cols: nat, i: int)
    requires
        cols > 0,
        0 <= i,
        (i + 1) * cols <= zero.len(),
        one.len() == zero.len(),
    ensures
        row(select_cells(zero, one, digest, cols), cols, i) == row(
            if digest_bit(digest, i) == 1 {
                one
            } else {
                zero
            },
            cols,
            i,
        ),
{
    let selected = select_cells(zero, one, digest, cols);
    let source = if digest_bit(digest, i) == 1 {
        one
    } else {
        zero
    };
    assert(i * cols + cols == (i + 1) * cols) by (nonlinear_arith);
    assert(0 <= i * cols) by (nonlinear_arith)
        requires
            0 <= i,
            0 <= cols,
    ;
    assert forall|c: int| 0 <= c < cols implies row(selected, cols, i)[c] == row(
        source,
        cols,
        i,
    )[c] by {
        lemma_fundamental_div_mod_converse(i * cols + c, cols as int, i, c);
    }
}

/// The signature that a signing key makes for a message is accepted, for
/// that message, by the verifying key of the signing key.
pub proof fn theorem_verify_after_sign<T: LamportDigest>(
    key: SigningKeyView,
    public: VerifyingKeyView,
    message: Seq<u8>,
)
    requires
        key.zero.len() == matrix_cells::<T>(),
        key.one.len() == matrix_cells::<T>(),
        hashed_rows::<T>(public.zero, key.zero),
        hashed_rows::<T>(public.one, key.one),
    ensures
        accepts::<T>(
            public.zero,
            public.one,
            select_cells(key.zero, key.one, T::hash(message), digest_bytes::<T>()),
            T::hash(message),
        ),
{
    lemma_matrix_cells_bound::<T>();
    let cols = digest_bytes::<T>();
    let digest = T::hash(message);
    let signature = select_cells(key.zero, key.one, digest, cols);
    assert forall|i: int| 0 <= i < T::bits() implies T::hash(#[trigger] row(signature, cols, i))
        == row(
        if digest_bit(digest, i) == 1 {
            public.one
        } else {
            public.zero
        },
        cols,
        i,
    ) by {
        assert((i + 1) * cols <= T::bits() * cols) by (nonlinear_arith)
            requires
                i + 1 <= T::bits(),
                0 <= cols,
        ;
        lemma_selected_row(key.zero, key.one, digest, cols, i);
    }
}

/// A signature made for one message is accepted for another message only
/// where the digest fails to tell the secrets apart: at every bit in which
/// the digests of the two messages differ, the zero secret and the one
/// secret of the key have the same digest.
pub proof fn theorem_message_binding<T: LamportDigest>(
    key: SigningKeyView,
    public: VerifyingKeyView,
    message: Seq<u8>,
    other: Seq<u8>,
    i: int,
)
    requires
        key.zero.len() == matrix_cells::<T>(),
        key.one.len() == matrix_cells::<T>(),
        hashed_rows::<T>(public.zero, key.zero),
        hashed_rows::<T>(public.one, key.one),
        accepts::<T>(
            public.zero,
            public.one,
            select_cells(key.zero, key.one, T::hash(message), digest_bytes::<T>()),
            T::hash(other),
        ),
        0 <= i < T::bits(),
        (digest_bit(T::hash(message), i) == 1) != (digest_bit(T::hash(other), i) == 1),
    ensures
        T::hash(row(key.zero, digest_bytes::<T>(), i)) == T::hash(
            row(key.one, digest_bytes::<T>(), i),
        ),
{
    lemma_matrix_cells_bound::<T>();
    let cols = digest_bytes::<T>();
    let signature = select_cells(key.zero, key.one, T::hash(message), cols);
    assert((i + 1) * cols <= T::bits() * cols) by (nonlinear_arith)
        requires
            i + 1 <= T::bits(),
            0 <= cols,
    ;
    lemma_selected_row(key.zero, key.one, T::hash(message), cols, i);
    assert(T::hash(row(signature, cols, i)) == row(
        if digest_bit(T::hash(other), i) == 1 {
            public.one
        } else {
            public.zero
        },
        cols,
        i,
    ));
}

/// The shares at the chosen positions, in the order of the choice.
pub open spec fn picked_shares<T: LamportDigest>(
    all: Seq<SigningKeyShare<T>>,
    picks: Seq<int>,
) -> Seq<SigningKeyShare<T>> {
    Seq::new(picks.len(), |k: int| all[picks[k]])
}

/// Shares with the identifiers `1, 2, ..` at different positions are not
/// refused for their identifiers.
proof fn lemma_picked_ids_accepted<T: LamportDigest>(
    key: SigningKeyView,
    all: Seq<SigningKeyShare<T>>,
    threshold: nat,
    picks: Seq<int>,
)
    requires
        threshold >= 2,
        is_split_of(all, key, threshold),
        valid_picks(picks, all.len(), threshold),
    ensures
        combine_failure(key_share_ids(picked_shares(all, picks))) is None,
        picked(sequential_ids(all.len()), picks) == key_share_ids(picked_shares(all, picks)),
{
}

/// Any choice of at least `threshold` of the shares of one split of a
/// signing key combines to that key: nothing refuses them, and every cell
/// and the flag of the key come back.
pub proof fn theorem_combine_after_split<T: LamportDigest>(
    key: SigningKeyView,
    all: Seq<SigningKeyShare<T>>,
    threshold: nat,
    picks: Seq<int>,
)
    requires
        key.zero.len() == matrix_cells::<T>(),
        key.one.len() == matrix_cells::<T>(),
        threshold >= 2,
        is_split_of(all, key, threshold),
        valid_picks(picks, all.len(), threshold),
    ensures
        key_combine_failure(picked_shares(all, picks)) is None,
        combined_cells(
            key_share_ids(picked_shares(all, picks)),
            key_share_zero_cells(picked_shares(all, picks)),
            matrix_cells::<T>(),
        ) == key.zero,
        combined_cells(
            key_share_ids(picked_shares(all, picks)),
            key_share_one_cells(picked_shares(all, picks)),
            matrix_cells::<T>(),
        ) == key.one,
        any_used(picked_shares(all, picks)) == key.used,
{
    let subset = picked_shares(all, picks);
    let ids = key_share_ids(subset);
    let cells = matrix_cells::<T>();
    lemma_picked_ids_accepted(key, all, threshold, picks);
    let zero = combined_cells(ids, key_share_zero_cells(subset), cells);
    let one = combined_cells(ids, key_share_one_cells(subset), cells);
    assert forall|cell: int| 0 <= cell < cells implies zero[cell] == key.zero[cell] by {
        let ys = column(key_share_zero_cells(all), cell);
        assert(picked(ys, picks) =~= column(key_share_zero_cells(subset), cell));
        assert(picked_secret(ys, picks) == key.zero[cell]);
    }
    assert forall|cell: int| 0 <= cell < cells implies one[cell] == key.one[cell] by {
        let ys = column(key_share_one_cells(all), cell);
        assert(picked(ys, picks) =~= column(key_share_one_cells(subset), cell));
        assert(picked_secret(ys, picks) == key.one[cell]);
    }
}

/// Fewer shares of one split of a signing key than the threshold, none at
/// all among them, are refused for being too few.
pub proof fn theorem_combine_needs_threshold<T: LamportDigest>(
    key: SigningKeyView,
    all: Seq<SigningKeyShare<T>>,
    threshold: nat,
    picks: Seq<int>,
)
    requires
        is_split_of(all, key, threshold),
        picks.len() < threshold,
        forall|k: int| 0 <= k < picks.len() ==> 0 <= #[trigger] picks[k] < all.len(),
    ensures
        key_combine_failure(picked_shares(all, picks)) == Some(
            LamportError::VsssError(vsss_rs::Error::SharingMinThreshold),
        ),
{
}

/// The share of a signature is the one that the share of a signing key makes
/// for the message, the share of the key taken as it was before it signed.
pub open spec fn is_partial_signature<T: LamportDigest>(
    share: SigningKeyShareView,
    message: Seq<u8>,
    partial: SignatureShare<T>,
) -> bool {
    &&& partial.wf()
    &&& partial_signature_of::<T>(share, message) == Some(partial@)
}

/// The shares of a signature that at least `threshold` of the shares of one
/// split of a signing key make for a message combine to the signature that
/// the signing key itself makes for the message.
pub proof fn theorem_partial_signatures_combine<T: LamportDigest>(
    key: SigningKeyView,
    all: Seq<SigningKeyShare<T>>,
    threshold: nat,
    picks: Seq<int>,
    message: Seq<u8>,
    partial: Seq<SignatureShare<T>>,
)
    requires
        key.zero.len() == matrix_cells::<T>(),
        key.one.len() == matrix_cells::<T>(),
        threshold >= 2,
        is_split_of(all, key, threshold),
        valid_picks(picks, all.len(), threshold),
        partial.len() == picks.len(),
        forall|k: int|
            0 <= k < picks.len() ==> is_partial_signature(
                all[picks[k]]@,
                message,
                #[trigger] partial[k],
            ),
    ensures
        signature_combine_failure(partial) is None,
        combined_cells(
            signature_share_ids(partial),
            signature_share_cells(partial),
            matrix_cells::<T>(),
        ) == select_cells(key.zero, key.one, T::hash(message), digest_bytes::<T>()),
{
    lemma_matrix_cells_bound::<T>();
    let subset = picked_shares(all, picks);
    let ids = signature_share_ids(partial);
    let cells = matrix_cells::<T>();
    let cols = digest_bytes::<T>();
    let digest = T::hash(message);
    lemma_picked_ids_accepted(key, all, threshold, picks);
    assert(ids =~= key_share_ids(subset));
    let combined = combined_cells(ids, signature_share_cells(partial), cells);
    let signature = select_cells(key.zero, key.one, digest, cols);
    assert forall|cell: int| 0 <= cell < cells implies combined[cell] == signature[cell] by {
        let one = digest_bit(digest, cell / (cols as int)) == 1;
        let ys = if one {
            column(key_share_one_cells(all), cell)
        } else {
            column(key_share_zero_cells(all), cell)
        };
        assert(picked(ys, picks) =~= column(signature_share_cells(partial), cell));
        assert(picked_secret(ys, picks) == if one { key.one[cell] } else { key.zero[cell] });
    }
}

/// The shares of a signature that at least `threshold` of the shares of one
/// split of a signing key make for a message combine to a signature that the
/// verifying key of the signing key accepts for the message.
pub proof fn theorem_combined_signature_verifies<T: LamportDigest>(
    key: SigningKeyView,
    public: VerifyingKeyView,
    all: Seq<SigningKeyShare<T>>,
    threshold: nat,
    picks: Seq<int>,
    message: Seq<u8>,
    partial: Seq<SignatureShare<T>>,
)
    requires
        key.zero.len() == matrix_cells::<T>(),
        key.one.len() == matrix_cells::<T>(),
        hashed_rows::<T>(public.zero, key.zero),
        hashed_rows::<T>(public.one, key.one),
        threshold >= 2,
        is_split_of(all, key, threshold),
        valid_picks(picks, all.len(), threshold),
        partial.len() == picks.len(),
        forall|k: int|
            0 <= k < picks.len() ==> is_partial_signature(
                all[picks[k]]@,
                message,
                #[trigger] partial[k],
            ),
    ensures
        signature_combine_failure(partial) is None,
        accepts::<T>(
            public.zero,
            public.one,
            combined_cells(
                signature_share_ids(partial),
                signature_share_cells(partial),
                matrix_cells::<T>(),
            ),
            T::hash(message),
        ),
{
    theorem_partial_signatures_combine(key, all, threshold, picks, message, partial);
    theorem_verify_after_sign::<T>(key, public, message);
}

/// No share of a signature at all, and fewer shares than the threshold that
/// the first names, are refused for being too few, whatever they hold.
pub proof fn theorem_partial_signatures_need_threshold<T: LamportDigest>(
    partial: Seq<SignatureShare<T>>,
)
    requires
        partial.len() == 0 || partial.len() < partial[0]@.threshold,
    ensures
        signature_combine_failure(partial) == Some(
            LamportError::VsssError(vsss_rs::Error::SharingMinThreshold),
        ),
{
}

/// The shares of a signature that fewer shares of one split of a signing key
/// than the threshold make for a message are refused for being too few.
pub proof fn theorem_too_few_partial_signatures<T: LamportDigest>(
    key: SigningKeyView,
    all: Seq<SigningKeyShare<T>>,
    threshold: nat,
    picks: Seq<int>,
    message: Seq<u8>,
    partial: Seq<SignatureShare<T>>,
)
    requires
        is_split_of(all, key, threshold),
        picks.len() < threshold,
        forall|k: int| 0 <= k < picks.len() ==> 0 <= #[trigger] picks[k] < all.len(),
        partial.len() == picks.len(),
        forall|k: int|
            0 <= k < picks.len() ==> is_partial_signature(
                all[picks[k]]@,
                message,
                #[trigger] partial[k],
            ),
    ensures
        signature_combine_failure(partial) == Some(
            LamportError::VsssError(vsss_rs::Error::SharingMinThreshold),
        ),
{
}

} // verus!
