//! Shamir secret sharing of single bytes over GF(256).
//!
//! A secret byte is the value at zero of a polynomial over GF(256) of degree
//! below the threshold; share `x` is the point of the polynomial at `x`. The
//! field arithmetic is that of `vsss_rs`.

use vstd::prelude::*;
use rand::rngs::StdRng;
use vsss_rs::Error;
use crate::model::lemma_flat_index;
use crate::multi_vec::{zeroize_bytes, MultiVec};

verus! {

/// The largest number of shares: the identifiers are the non-zero bytes.
pub const MAX_SHARES: usize = 255;

/// What `vsss_rs::combine_shares` computes over GF(256) from the points with
/// x-coordinates `xs` and y-coordinates `ys` when it accepts them: the value
/// at zero of the polynomial of lowest degree through the points.
pub uninterp spec fn gf256_interpolate(xs: Seq<u8>, ys: Seq<u8>) -> u8;

/// Whether some identifier is zero.
pub open spec fn has_zero(xs: Seq<u8>) -> bool {
    exists|i: int| 0 <= i < xs.len() && xs[i] == 0
}

/// Whether two identifiers are equal.
pub open spec fn has_duplicate(xs: Seq<u8>) -> bool {
    exists|i: int, j: int| 0 <= i < j < xs.len() && xs[i] == xs[j]
}

/// The error with which points of the given identifiers are refused, if they
/// are: fewer than two points, then an identifier of zero, then two equal
/// identifiers.
pub open spec fn combine_failure(xs: Seq<u8>) -> Option<Error> {
    if xs.len() < 2 {
        Some(Error::SharingMinThreshold)
    } else if has_zero(xs) {
        Some(Error::SharingInvalidIdentifier)
    } else if has_duplicate(xs) {
        Some(Error::SharingDuplicateIdentifier)
    } else {
        None
    }
}

/// A choice of at least `threshold` different positions among `count`.
pub open spec fn valid_picks(picks: Seq<int>, count: nat, threshold: nat) -> bool {
    &&& picks.len() >= threshold
    &&& forall|k: int| 0 <= k < picks.len() ==> 0 <= #[trigger] picks[k] < count
    &&& forall|j: int, k: int| 0 <= j < k < picks.len() ==> picks[j] != picks[k]
}

/// The values at the chosen positions, in the order of the choice.
pub open spec fn picked(values: Seq<u8>, picks: Seq<int>) -> Seq<u8> {
    Seq::new(picks.len(), |k: int| values[picks[k]])
}

/// The identifiers that a split hands out, in their order: `1, 2, .., count`.
pub open spec fn sequential_ids(count: nat) -> Seq<u8> {
    Seq::new(count, |i: int| (i + 1) as u8)
}

/// The byte that the shares at the chosen positions combine to, where the
/// share at position `i` has the identifier `i + 1`.
pub open spec fn picked_secret(ys: Seq<u8>, picks: Seq<int>) -> u8 {
    gf256_interpolate(picked(sequential_ids(ys.len()), picks), picked(ys, picks))
}

/// The bytes are shares of `secret`, the share at position `i` with the
/// identifier `i + 1`: any `threshold` or more of them combine to `secret`.
pub open spec fn is_sharing(ys: Seq<u8>, threshold: nat, secret: u8) -> bool {
    forall|picks: Seq<int>|
        valid_picks(picks, ys.len(), threshold) ==> #[trigger] picked_secret(ys, picks) == secret
}

/// Calls `vsss_rs::shamir::split_secret` over `Gf256` with one-byte
/// identifiers. It refuses a limit below the threshold, then a threshold
/// below 2. Otherwise it draws a polynomial of degree `threshold - 1` with
/// the secret as its value at zero and hands out its points at
/// `1, 2, .., limit` in that order: the identifiers come first in the
/// result, the shares second. That any `threshold` of these points combine
/// to the secret again is the purpose of the scheme; it is taken from
/// `vsss_rs`, not proved here.
#[verifier::external_body]
pub(crate) fn split_byte(threshold: usize, limit: usize, secret: u8, rng: &mut StdRng) -> (out:
    Result<(Vec<u8>, Vec<u8>), Error>)
    requires
        limit <= MAX_SHARES,
    ensures
        limit < threshold ==> out is Err && out->Err_0 == Error::SharingLimitLessThanThreshold,
        threshold <= limit && threshold < 2 ==> out is Err && out->Err_0
            == Error::SharingMinThreshold,
        2 <= threshold <= limit ==> out is Ok && out->Ok_0.0@ == sequential_ids(limit as nat)
            && out->Ok_0.1@.len() == limit && is_sharing(out->Ok_0.1@, threshold as nat, secret),
{
    let shares = vsss_rs::shamir::split_secret::<vsss_rs::Gf256, u8, [u8; 2]>(
        threshold,
        limit,
        vsss_rs::Gf256(secret),
        rng,
    )?;
    Ok(shares.iter().map(|share| (share[0], share[1])).unzip())
}

/// Calls `vsss_rs::combine_shares` over `Gf256` on the points
/// `(xs[i], ys[i])`. It refuses fewer than two points, then an identifier of
/// zero, then two equal identifiers, and otherwise interpolates at zero.
#[verifier::external_body]
pub(crate) fn combine_bytes(xs: &[u8], ys: &[u8]) -> (out: Result<u8, Error>)
    requires
        xs@.len() == ys@.len(),
    ensures
        combine_failure(xs@) is Some ==> out is Err && out->Err_0 == combine_failure(xs@)->0,
        combine_failure(xs@) is None ==> out is Ok && out->Ok_0 == gf256_interpolate(xs@, ys@),
{
    let shares: Vec<[u8; 2]> = xs.iter().zip(ys.iter()).map(|(x, y)| [*x, *y]).collect();
    let secret = vsss_rs::combine_shares::<vsss_rs::Gf256, u8, [u8; 2]>(&shares)?;
    Ok(secret.0)
}

/// The shares of the secret at position `cell`, where the shares of all
/// secrets stand in one buffer, those of one secret side by side.
pub open spec fn shares_at(flat: Seq<u8>, cell: int, count: nat) -> Seq<u8> {
    flat.subrange(cell * count, (cell + 1) * count)
}

/// What share `j` holds of every secret.
pub open spec fn share_cells(flat: Seq<u8>, j: int, count: nat, cells: nat) -> Seq<u8> {
    Seq::new(cells, |cell: int| flat[cell * count + j])
}

/// Splits every secret byte into `shares` shares with the given threshold.
/// The shares of one secret stand side by side in the result, in the order
/// of their identifiers `1, 2, .., shares`. Fewer shares than the threshold
/// are refused, then a threshold below 2, whether there is a secret or not.
pub fn split_cells(secrets: &[u8], threshold: usize, shares: usize, rng: &mut StdRng) -> (out:
    Result<Vec<u8>, Error>)
    requires
        shares <= MAX_SHARES,
    ensures
        shares < threshold ==> out is Err && out->Err_0 == Error::SharingLimitLessThanThreshold,
        threshold <= shares && threshold < 2 ==> out is Err && out->Err_0
            == Error::SharingMinThreshold,
        2 <= threshold <= shares ==> out is Ok && out->Ok_0@.len() == secrets@.len() * shares
            && forall|cell: int|
            0 <= cell < secrets@.len() ==> is_sharing(
                #[trigger] shares_at(out->Ok_0@, cell, shares as nat),
                threshold as nat,
                secrets@[cell],
            ),
{
    if shares < threshold {
        return Err(Error::SharingLimitLessThanThreshold);
    }
    if threshold < 2 {
        return Err(Error::SharingMinThreshold);
    }
    let count = secrets.len();
    let mut flat: Vec<u8> = match count.checked_mul(shares) {
        Some(total) => Vec::with_capacity(total),
        None => Vec::new(),
    };
    let mut i: usize = 0;
    while i < count
        invariant
            i <= count,
            count == secrets@.len(),
            2 <= threshold <= shares <= MAX_SHARES,
            flat@.len() == i * shares,
            forall|cell: int|
                0 <= cell < i ==> is_sharing(
                    #[trigger] shares_at(flat@, cell, shares as nat),
                    threshold as nat,
                    secrets@[cell],
                ),
        decreases count - i,
    {
        let (ids, mut ys) = match split_byte(threshold, shares, secrets[i], rng) {
            Ok(points) => points,
            Err(error) => {
                zeroize_bytes(&mut flat);
                return Err(error);
            },
        };
        assert(forall|k: int| 0 <= k < shares ==> ids@[k] == k + 1);
        let ghost before = flat@;
        let mut j: usize = 0;
        while j < shares
            invariant
                j <= shares,
                i < count,
                ys@.len() == shares,
                flat@.len() == i * shares + j,
                forall|k: int| 0 <= k < before.len() ==> flat@[k] == before[k],
                before.len() == i * shares,
                forall|k: int| 0 <= k < j ==> flat@[i * shares + k] == ys@[k],
            decreases shares - j,
        {
            flat.push(ys[j]);
            j += 1;
        }
        proof {
            assert(i * shares + shares == (i + 1) * shares) by (nonlinear_arith);
            assert(shares_at(flat@, i as int, shares as nat) =~= ys@);
            assert forall|cell: int| 0 <= cell < i implies is_sharing(
                #[trigger] shares_at(flat@, cell, shares as nat),
                threshold as nat,
                secrets@[cell],
            ) by {
                lemma_flat_index(i as int, shares as int, cell, 0);
                assert(shares_at(flat@, cell, shares as nat) =~= shares_at(
                    before,
                    cell,
                    shares as nat,
                ));
            }
        }
        zeroize_bytes(&mut ys);
        i += 1;
    }
    Ok(flat)
}

/// Collects what share `j` holds of every secret.
pub fn gather_share(flat: &[u8], j: usize, shares: usize, cells: usize) -> (out: Vec<u8>)
    requires
        j < shares,
        flat@.len() == cells * shares,
    ensures
        out@ == share_cells(flat@, j as int, shares as nat, cells as nat),
{
    let total = flat.len();
    let mut out: Vec<u8> = Vec::with_capacity(cells);
    let mut cell: usize = 0;
    while cell < cells
        invariant
            cell <= cells,
            j < shares,
            total == flat@.len(),
            flat@.len() == cells * shares,
            out@.len() == cell,
            forall|c: int| 0 <= c < cell ==> out@[c] == flat@[c * shares + j],
        decreases cells - cell,
    {
        proof {
            lemma_flat_index(cells as int, shares as int, cell as int, j as int);
        }
        out.push(flat[cell * shares + j]);
        cell += 1;
    }
    out
}

/// The cells of each matrix.
pub open spec fn cells_of(matrices: Seq<&MultiVec<u8, 2>>) -> Seq<Seq<u8>> {
    Seq::new(matrices.len(), |j: int| matrices[j]@)
}

/// What the shares hold at position `cell`, in the order of the shares.
pub open spec fn column(matrices: Seq<Seq<u8>>, cell: int) -> Seq<u8> {
    Seq::new(matrices.len(), |j: int| matrices[j][cell])
}

/// The secrets that shares with the given identifiers combine to, position
/// by position.
pub open spec fn combined_cells(xs: Seq<u8>, matrices: Seq<Seq<u8>>, cells: nat) -> Seq<u8> {
    Seq::new(cells, |cell: int| gf256_interpolate(xs, column(matrices, cell)))
}

/// Combines the shares of every secret: position by position, the shares
/// that the matrices hold are interpolated at zero. Identifiers that cannot
/// be combined are refused whether there is a position or not.
pub fn combine_cells(xs: &[u8], matrices: &Vec<&MultiVec<u8, 2>>, cells: usize) -> (out: Result<
    Vec<u8>,
    Error,
>)
    requires
        xs@.len() == matrices@.len(),
        forall|j: int| 0 <= j < matrices@.len() ==> (#[trigger] matrices@[j])@.len() == cells,
    ensures
        combine_failure(xs@) is Some ==> out is Err && out->Err_0 == combine_failure(xs@)->0,
        combine_failure(xs@) is None ==> out is Ok && out->Ok_0@ == combined_cells(
            xs@,
            cells_of(matrices@),
            cells as nat,
        ),
{
    let count = matrices.len();
    let mut out: Vec<u8> = Vec::with_capacity(cells);
    let mut ys: Vec<u8> = Vec::with_capacity(count);
    while ys.len() < count
        invariant
            ys@.len() <= count,
        decreases count - ys@.len(),
    {
        ys.push(0);
    }
    if cells == 0 {
        let tried = combine_bytes(xs, ys.as_slice());
        zeroize_bytes(&mut ys);
        return match tried {
            Ok(_) => Ok(out),
            Err(error) => Err(error),
        };
    }
    let mut cell: usize = 0;
    while cell < cells
        invariant
            cell <= cells,
            cells > 0,
            count == matrices@.len(),
            xs@.len() == count,
            ys@.len() == count,
            forall|j: int| 0 <= j < matrices@.len() ==> (#[trigger] matrices@[j])@.len() == cells,
            cell > 0 ==> combine_failure(xs@) is None,
            out@.len() == cell,
            forall|c: int|
                0 <= c < cell ==> out@[c] == gf256_interpolate(
                    xs@,
                    column(cells_of(matrices@), c),
                ),
        decreases cells - cell,
    {
        let mut j: usize = 0;
        while j < count
            invariant
                j <= count,
                cell < cells,
                count == matrices@.len(),
                forall|k: int|
                    0 <= k < matrices@.len() ==> (#[trigger] matrices@[k])@.len() == cells,
                ys@.len() == count,
                forall|k: int| 0 <= k < j ==> ys@[k] == matrices@[k]@[cell as int],
            decreases count - j,
        {
            let matrix = matrices[j];
            ys.set(j, matrix.as_ref()[cell]);
            j += 1;
        }
        proof {
            assert(ys@ =~= column(cells_of(matrices@), cell as int));
        }
        match combine_bytes(xs, ys.as_slice()) {
            Ok(secret) => {
                out.push(secret);
            },
            Err(error) => {
                zeroize_bytes(&mut ys);
                zeroize_bytes(&mut out);
                return Err(error);
            },
        }
        cell += 1;
    }
    zeroize_bytes(&mut ys);
    Ok(out)
}

} // verus!
