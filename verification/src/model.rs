//! The mathematical model of keys and signatures.
//!
//! A key or signature matrix of `B` rows of `Y = B / 8` bytes is modelled by
//! the sequence of its cells in storage order, row after row. Row `i` belongs
//! to bit `i` of a message digest, where bit `8 * k + j` of a digest `d` is
//! bit `j` of the byte `d[k]`, the least significant bit being bit 0.

use vstd::prelude::*;
use crate::hash::{digest_bytes, matrix_cells, LamportDigest};

verus! {

/// Bit `j` of a byte, the least significant bit being bit 0.
pub open spec fn bit_of(byte: u8, j: u8) -> u8 {
    (byte >> j) & 1
}

/// Bit `i` of a digest: bit `i % 8` of its byte `i / 8`.
pub open spec fn digest_bit(digest: Seq<u8>, i: int) -> u8 {
    bit_of(digest[i / 8], (i % 8) as u8)
}

/// The first byte for the bit 0, the second for the bit 1.
pub open spec fn select_cell(zero: u8, one: u8, bit: u8) -> u8 {
    if bit == 1 {
        one
    } else {
        zero
    }
}

/// The cells that a digest reveals: row `i` is row `i` of `one` where bit
/// `i` of the digest is set, and row `i` of `zero` where it is not.
pub open spec fn select_cells(zero: Seq<u8>, one: Seq<u8>, digest: Seq<u8>, cols: nat) -> Seq<u8> {
    Seq::new(
        zero.len(),
        |k: int| select_cell(zero[k], one[k], digest_bit(digest, k / (cols as int))),
    )
}

/// Row `i` of the cells of a matrix with `cols` cells in a row.
pub open spec fn row(cells: Seq<u8>, cols: nat, i: int) -> Seq<u8> {
    cells.subrange(i * cols, (i + 1) * cols)
}

/// Position `j` of row `i` of a buffer of `rows` rows of `cols` cells.
pub proof fn lemma_flat_index(rows: int, cols: int, i: int, j: int)
    requires
        0 <= i < rows,
        0 <= j < cols,
    ensures
        0 <= i * cols + j < rows * cols,
        i * cols + cols == (i + 1) * cols,
        (i + 1) * cols <= rows * cols,
        0 <= i * cols,
{
    assert(0 <= i * cols) by (nonlinear_arith)
        requires
            0 <= i,
            0 <= cols,
    ;
    assert(i * cols + cols == (i + 1) * cols) by (nonlinear_arith);
    assert((i + 1) * cols <= rows * cols) by (nonlinear_arith)
        requires
            i + 1 <= rows,
            0 <= cols,
    ;
}

/// Every row of `public` is the digest of the same row of `secret`.
pub open spec fn hashed_rows<T: LamportDigest>(public: Seq<u8>, secret: Seq<u8>) -> bool {
    &&& public.len() == matrix_cells::<T>()
    &&& forall|i: int|
        0 <= i < T::bits() ==> #[trigger] row(public, digest_bytes::<T>(), i) == T::hash(
            row(secret, digest_bytes::<T>(), i),
        )
}

/// The signature reveals, for every bit of the digest, a row whose digest is
/// the row of the verifying key that belongs to the value of the bit.
pub open spec fn accepts<T: LamportDigest>(
    public_zero: Seq<u8>,
    public_one: Seq<u8>,
    signature: Seq<u8>,
    digest: Seq<u8>,
) -> bool {
    &&& signature.len() == matrix_cells::<T>()
    &&& forall|i: int|
        0 <= i < T::bits() ==> T::hash(#[trigger] row(signature, digest_bytes::<T>(), i)) == row(
            if digest_bit(digest, i) == 1 {
                public_one
            } else {
                public_zero
            },
            digest_bytes::<T>(),
            i,
        )
}

/// The byte that encodes the single-use flag.
pub open spec fn flag_byte(used: bool) -> u8 {
    if used {
        1
    } else {
        0
    }
}

/// What a signing key holds.
pub struct SigningKeyView {
    /// Whether the key has signed.
    pub used: bool,
    /// The cells of the secrets for the bit 0.
    pub zero: Seq<u8>,
    /// The cells of the secrets for the bit 1.
    pub one: Seq<u8>,
}

/// What a verifying key holds.
pub struct VerifyingKeyView {
    /// The cells of the digests of the secrets for the bit 0.
    pub zero: Seq<u8>,
    /// The cells of the digests of the secrets for the bit 1.
    pub one: Seq<u8>,
}

/// What a share of a signing key holds.
pub struct SigningKeyShareView {
    /// The identifier of the share.
    pub identifier: u8,
    /// The number of shares needed to combine.
    pub threshold: u8,
    /// Whether the share has signed.
    pub used: bool,
    /// The cells of the shares of the secrets for the bit 0.
    pub zero: Seq<u8>,
    /// The cells of the shares of the secrets for the bit 1.
    pub one: Seq<u8>,
}

/// What a share of a signature holds.
pub struct SignatureShareView {
    /// The identifier of the share.
    pub identifier: u8,
    /// The number of shares needed to combine.
    pub threshold: u8,
    /// The cells of the share.
    pub cells: Seq<u8>,
}

/// As many cells as there were, every one of them zero.
pub open spec fn wiped_cells(cells: Seq<u8>) -> Seq<u8> {
    Seq::new(cells.len(), |i: int| 0u8)
}

/// The signing key after its secrets were wiped: every cell is zero, and the
/// flag is as it was.
pub open spec fn wiped_key(key: SigningKeyView) -> SigningKeyView {
    SigningKeyView { used: key.used, zero: wiped_cells(key.zero), one: wiped_cells(key.one) }
}

/// The share of a signing key after it was wiped: every cell is zero, and
/// identifier, threshold and flag are as they were.
pub open spec fn wiped_share(share: SigningKeyShareView) -> SigningKeyShareView {
    SigningKeyShareView {
        identifier: share.identifier,
        threshold: share.threshold,
        used: share.used,
        zero: wiped_cells(share.zero),
        one: wiped_cells(share.one),
    }
}

/// The signing key after it was asked to sign: it holds the same secrets and
/// counts as used, whether it signed or refused.
pub open spec fn after_signing(key: SigningKeyView) -> SigningKeyView {
    SigningKeyView { used: true, zero: key.zero, one: key.one }
}

/// The signature that the signing key makes for the message, if it has not
/// signed before: the rows that the digest of the message reveals.
pub open spec fn signature_of<T: LamportDigest>(key: SigningKeyView, message: Seq<u8>) -> Option<
    Seq<u8>,
> {
    if key.used {
        None
    } else {
        Some(select_cells(key.zero, key.one, T::hash(message), digest_bytes::<T>()))
    }
}

/// The share of a signing key after it was asked to sign: it holds the same
/// cells under the same identifier and threshold, and counts as used.
pub open spec fn share_after_signing(share: SigningKeyShareView) -> SigningKeyShareView {
    SigningKeyShareView {
        identifier: share.identifier,
        threshold: share.threshold,
        used: true,
        zero: share.zero,
        one: share.one,
    }
}

/// The share of a signature that the share of a signing key makes for the
/// message, if it has not signed before: the rows of the share that the
/// digest of the message reveals, under the identifier and the threshold of
/// the share.
pub open spec fn partial_signature_of<T: LamportDigest>(
    share: SigningKeyShareView,
    message: Seq<u8>,
) -> Option<SignatureShareView> {
    if share.used {
        None
    } else {
        Some(
            SignatureShareView {
                identifier: share.identifier,
                threshold: share.threshold,
                cells: select_cells(share.zero, share.one, T::hash(message), digest_bytes::<T>()),
            },
        )
    }
}

/// The canonical bytes of a signing key: the flag, then the cells of the
/// zero secrets, then those of the one secrets.
pub open spec fn encode_signing_key(key: SigningKeyView) -> Seq<u8> {
    seq![flag_byte(key.used)] + key.zero + key.one
}

/// The signing key with matrices of `cells` cells that the bytes encode,
/// if their number is right.
pub open spec fn decode_signing_key(bytes: Seq<u8>, count: nat) -> Option<SigningKeyView> {
    let cells = count as int;
    if bytes.len() == 1 + 2 * cells {
        Some(
            SigningKeyView {
                used: bytes[0] == 1,
                zero: bytes.subrange(1, 1 + cells),
                one: bytes.subrange(1 + cells, 1 + 2 * cells),
            },
        )
    } else {
        None
    }
}

/// The canonical bytes of a verifying key: the cells of the zero digests,
/// then those of the one digests.
pub open spec fn encode_verifying_key(key: VerifyingKeyView) -> Seq<u8> {
    key.zero + key.one
}

/// The verifying key with matrices of `cells` cells that the bytes encode,
/// if their number is right.
pub open spec fn decode_verifying_key(bytes: Seq<u8>, count: nat) -> Option<VerifyingKeyView> {
    let cells = count as int;
    if bytes.len() == 2 * cells {
        Some(
            VerifyingKeyView {
                zero: bytes.subrange(0, cells),
                one: bytes.subrange(cells, 2 * cells),
            },
        )
    } else {
        None
    }
}

/// The signature of `cells` cells that the bytes encode, if their number is
/// right. The canonical bytes of a signature are its cells.
pub open spec fn decode_signature(bytes: Seq<u8>, cells: nat) -> Option<Seq<u8>> {
    if bytes.len() == cells {
        Some(bytes)
    } else {
        None
    }
}

/// The canonical bytes of a share of a signing key: identifier, threshold
/// and flag, then the cells of the zero shares, then those of the one shares.
pub open spec fn encode_signing_key_share(share: SigningKeyShareView) -> Seq<u8> {
    seq![share.identifier, share.threshold, flag_byte(share.used)] + share.zero + share.one
}

/// The share of a signing key with matrices of `cells` cells that the bytes
/// encode, if their number is right, the identifier is not zero and the
/// threshold is at least 2.
pub open spec fn decode_signing_key_share(bytes: Seq<u8>, count: nat) -> Option<
    SigningKeyShareView,
> {
    let cells = count as int;
    if bytes.len() == 3 + 2 * cells && bytes[0] != 0 && bytes[1] >= 2 {
        Some(
            SigningKeyShareView {
                identifier: bytes[0],
                threshold: bytes[1],
                used: bytes[2] == 1,
                zero: bytes.subrange(3, 3 + cells),
                one: bytes.subrange(3 + cells, 3 + 2 * cells),
            },
        )
    } else {
        None
    }
}

/// The canonical bytes of a share of a signature: identifier and threshold,
/// then the cells.
pub open spec fn encode_signature_share(share: SignatureShareView) -> Seq<u8> {
    seq![share.identifier, share.threshold] + share.cells
}

/// The share of a signature of `cells` cells that the bytes encode, if their
/// number is right, the identifier is not zero and the threshold is at
/// least 2.
pub open spec fn decode_signature_share(bytes: Seq<u8>, count: nat) -> Option<SignatureShareView> {
    let cells = count as int;
    if bytes.len() == 2 + cells && bytes[0] != 0 && bytes[1] >= 2 {
        Some(
            SignatureShareView {
                identifier: bytes[0],
                threshold: bytes[1],
                cells: bytes.subrange(2, 2 + cells),
            },
        )
    } else {
        None
    }
}

} // verus!
