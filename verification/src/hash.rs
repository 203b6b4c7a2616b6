//! The digest capability that keys and signatures are built over.
//!
//! A [`LamportDigest`] fixes the number of bits `B` of a message digest, which
//! is also the number of rows of every key and signature matrix, and the digest
//! function itself. Hash functions with a native output size are adapted by
//! [`LamportFixedDigest`]; extendable-output functions by
//! [`LamportExtendableDigest`], which always reads 32 bytes.

use vstd::prelude::*;
use std::marker::PhantomData;
use rand::rngs::StdRng;
use crate::multi_vec::MultiVec;
use crate::random::random_matrix;

verus! {

/// The largest digest size in bits that keys can be built over. It keeps the
/// size of an encoded key within `usize` on every platform.
pub const MAX_DIGEST_BITS: usize = 65536;

/// The number of bytes that an extendable-output function is asked for.
pub const EXTENDABLE_OUTPUT_BYTES: usize = 32;

/// A digest size that keys can be built over: a positive multiple of 8,
/// at most [`MAX_DIGEST_BITS`].
pub open spec fn supported_bits(bits: nat) -> bool {
    0 < bits <= MAX_DIGEST_BITS && bits % 8 == 0
}

/// A matrix of `bits` rows of `bits / 8` cells is not empty, and its size
/// fits in `usize` with room to spare.
pub proof fn lemma_cells_bound(bits: nat)
    requires
        supported_bits(bits),
    ensures
        (bits / 8) * 8 == bits,
        0 < bits / 8 <= 8192,
        0 < bits * (bits / 8) <= 0x2000_0000,
{
    let y = bits / 8;
    assert(bits * y <= 65536 * 8192) by (nonlinear_arith)
        requires
            bits <= 65536,
            y <= 8192,
    ;
    assert(0 < bits * y) by (nonlinear_arith)
        requires
            0 < bits,
            0 < y,
    ;
}

/// A hash function with a native output size.
pub trait FixedHash {
    /// The output size in bits.
    spec fn output_bits() -> nat;

    /// The hash of `data`.
    spec fn hash(data: Seq<u8>) -> Seq<u8>;

    /// The output size is one that keys can be built over.
    proof fn output_bits_supported()
        ensures
            supported_bits(Self::output_bits()),
    ;

    /// Returns the output size in bits.
    fn output_size_in_bits() -> (bits: usize)
        ensures
            bits == Self::output_bits(),
    ;

    /// Computes the hash of `data`.
    fn digest(data: &[u8]) -> (out: Vec<u8>)
        ensures
            out@ == Self::hash(data@),
            out@.len() * 8 == Self::output_bits(),
    ;
}

/// A hash function with extendable output.
pub trait ExtendableHash {
    /// The first `len` bytes of the output for `data`.
    spec fn hash(data: Seq<u8>, len: nat) -> Seq<u8>;

    /// Computes the first `len` bytes of the output for `data`.
    fn digest_xof(data: &[u8], len: usize) -> (out: Vec<u8>)
        ensures
            out@ == Self::hash(data@, len as nat),
            out@.len() == len,
    ;
}

/// The digest that a Lamport key is built over.
pub trait LamportDigest {
    /// The digest size in bits, `B`.
    spec fn bits() -> nat;

    /// The digest of `data`.
    spec fn hash(data: Seq<u8>) -> Seq<u8>;

    /// The digest size is one that keys can be built over.
    proof fn bits_supported()
        ensures
            supported_bits(Self::bits()),
    ;

    /// Returns the digest size in bits.
    fn digest_size_in_bits() -> (bits: usize)
        ensures
            bits == Self::bits(),
    ;

    /// Computes the digest of `data`: `B / 8` bytes that depend on `data` alone.
    fn digest(data: &[u8]) -> (out: Vec<u8>)
        ensures
            out@ == Self::hash(data@),
            out@.len() * 8 == Self::bits(),
    ;

    /// Draws a full matrix of `B` rows of `B / 8` random bytes.
    fn random(rng: &mut StdRng) -> (out: MultiVec<u8, 2>)
        ensures
            out.shape() == seq![Self::bits() as usize, (Self::bits() / 8) as usize],
            out@.len() == Self::bits() * (Self::bits() / 8),
    ;
}

/// The number of bytes of a digest, `B / 8`, which is also the number of
/// cells in a row of a key or signature matrix.
pub open spec fn digest_bytes<T: LamportDigest + ?Sized>() -> nat {
    T::bits() / 8
}

/// The number of cells of a key or signature matrix, `B * B / 8`.
pub open spec fn matrix_cells<T: LamportDigest + ?Sized>() -> nat {
    T::bits() * digest_bytes::<T>()
}

/// A full matrix of `B` rows of `B / 8` bytes.
pub open spec fn is_key_matrix<T: LamportDigest + ?Sized>(m: MultiVec<u8, 2>) -> bool {
    &&& m.shape() == seq![T::bits() as usize, digest_bytes::<T>() as usize]
    &&& m@.len() == matrix_cells::<T>()
}

/// The size of an encoded key fits in `usize` with room to spare.
pub proof fn lemma_matrix_cells_bound<T: LamportDigest + ?Sized>()
    ensures
        supported_bits(T::bits()),
        digest_bytes::<T>() * 8 == T::bits(),
        0 < digest_bytes::<T>() <= 8192,
        0 < matrix_cells::<T>() <= 0x2000_0000,
{
    T::bits_supported();
    lemma_cells_bound(T::bits());
}

/// Whether the matrix is full and has `B` rows of `B / 8` cells.
pub fn has_key_shape<T: LamportDigest>(m: &MultiVec<u8, 2>) -> (ok: bool)
    ensures
        ok == is_key_matrix::<T>(*m),
{
    let bits = T::digest_size_in_bits();
    let bytes = bits / 8;
    proof {
        lemma_matrix_cells_bound::<T>();
    }
    let axes = m.axes();
    let ok = axes[0] == bits && axes[1] == bytes && m.len() == bits * bytes;
    proof {
        if ok {
            assert(m.shape() =~= seq![bits, bytes]);
        }
    }
    ok
}

/// Adapts a hash function with a native output size: the digest size and the
/// digest are those of the hash function.
#[derive(Debug, PartialEq, Eq, PartialOrd, Ord, Hash, Default)]
pub struct LamportFixedDigest<H: FixedHash> {
    hasher: PhantomData<H>,
}

impl<H: FixedHash> Clone for LamportFixedDigest<H> {
    fn clone(&self) -> (out: Self) {
        Self { hasher: PhantomData }
    }
}

impl<H: FixedHash> LamportDigest for LamportFixedDigest<H> {
    open spec fn bits() -> nat {
        H::output_bits()
    }

    open spec fn hash(data: Seq<u8>) -> Seq<u8> {
        H::hash(data)
    }

    proof fn bits_supported() {
        H::output_bits_supported();
    }

    fn digest_size_in_bits() -> (bits: usize) {
        H::output_size_in_bits()
    }

    fn digest(data: &[u8]) -> (out: Vec<u8>) {
        H::digest(data)
    }

    fn random(rng: &mut StdRng) -> (out: MultiVec<u8, 2>) {
        let bits = H::output_size_in_bits();
        proof {
            H::output_bits_supported();
            lemma_cells_bound(H::output_bits());
        }
        random_matrix(bits, bits / 8, rng)
    }
}

/// Adapts an extendable-output function: the digest is its first 32 bytes of
/// output, so the digest size is 256 bits whatever the function.
#[derive(Debug, PartialEq, Eq, PartialOrd, Ord, Hash, Default)]
pub struct LamportExtendableDigest<X: ExtendableHash> {
    hasher: PhantomData<X>,
}

impl<X: ExtendableHash> Clone for LamportExtendableDigest<X> {
    fn clone(&self) -> (out: Self) {
        Self { hasher: PhantomData }
    }
}

impl<X: ExtendableHash> LamportDigest for LamportExtendableDigest<X> {
    open spec fn bits() -> nat {
        (EXTENDABLE_OUTPUT_BYTES * 8) as nat
    }

    open spec fn hash(data: Seq<u8>) -> Seq<u8> {
        X::hash(data, EXTENDABLE_OUTPUT_BYTES as nat)
    }

    proof fn bits_supported() {
    }

    fn digest_size_in_bits() -> (bits: usize) {
        EXTENDABLE_OUTPUT_BYTES * 8
    }

    fn digest(data: &[u8]) -> (out: Vec<u8>) {
        X::digest_xof(data, EXTENDABLE_OUTPUT_BYTES)
    }

    fn random(rng: &mut StdRng) -> (out: MultiVec<u8, 2>) {
        random_matrix(EXTENDABLE_OUTPUT_BYTES * 8, EXTENDABLE_OUTPUT_BYTES, rng)
    }
}

/// What `sha2::Sha256` returns for `data`.
pub uninterp spec fn sha256(data: Seq<u8>) -> Seq<u8>;

/// Calls `Digest::digest` of `sha2::Sha256`, a function of the input alone
/// with 32 bytes of output.
#[verifier::external_body]
fn sha256_digest(data: &[u8]) -> (out: Vec<u8>)
    ensures
        out@ == sha256(data@),
        out@.len() == 32,
{
    <sha2::Sha256 as sha2::Digest>::digest(data).to_vec()
}

/// SHA-256.
#[derive(Debug, Clone, Copy, PartialEq, Eq, PartialOrd, Ord, Hash, Default)]
pub struct Sha256;

impl FixedHash for Sha256 {
    open spec fn output_bits() -> nat {
        256
    }

    open spec fn hash(data: Seq<u8>) -> Seq<u8> {
        sha256(data)
    }

    proof fn output_bits_supported() {
    }

    fn output_size_in_bits() -> (bits: usize) {
        256
    }

    fn digest(data: &[u8]) -> (out: Vec<u8>) {
        sha256_digest(data)
    }
}

/// What `sha2::Sha384` returns for `data`.
pub uninterp spec fn sha384(data: Seq<u8>) -> Seq<u8>;

/// Calls `Digest::digest` of `sha2::Sha384`, a function of the input alone
/// with 48 bytes of output.
#[verifier::external_body]
fn sha384_digest(data: &[u8]) -> (out: Vec<u8>)
    ensures
        out@ == sha384(data@),
        out@.len() == 48,
{
    <sha2::Sha384 as sha2::Digest>::digest(data).to_vec()
}

/// SHA-384.
#[derive(Debug, Clone, Copy, PartialEq, Eq, PartialOrd, Ord, Hash, Default)]
pub struct Sha384;

impl FixedHash for Sha384 {
    open spec fn output_bits() -> nat {
        384
    }

    open spec fn hash(data: Seq<u8>) -> Seq<u8> {
        sha384(data)
    }

    proof fn output_bits_supported() {
    }

    fn output_size_in_bits() -> (bits: usize) {
        384
    }

    fn digest(data: &[u8]) -> (out: Vec<u8>) {
        sha384_digest(data)
    }
}

/// What `sha2::Sha512` returns for `data`.
pub uninterp spec fn sha512(data: Seq<u8>) -> Seq<u8>;

/// Calls `Digest::digest` of `sha2::Sha512`, a function of the input alone
/// with 64 bytes of output.
#[verifier::external_body]
fn sha512_digest(data: &[u8]) -> (out: Vec<u8>)
    ensures
        out@ == sha512(data@),
        out@.len() == 64,
{
    <sha2::Sha512 as sha2::Digest>::digest(data).to_vec()
}

/// SHA-512.
#[derive(Debug, Clone, Copy, PartialEq, Eq, PartialOrd, Ord, Hash, Default)]
pub struct Sha512;

impl FixedHash for Sha512 {
    open spec fn output_bits() -> nat {
        512
    }

    open spec fn hash(data: Seq<u8>) -> Seq<u8> {
        sha512(data)
    }

    proof fn output_bits_supported() {
    }

    fn output_size_in_bits() -> (bits: usize) {
        512
    }

    fn digest(data: &[u8]) -> (out: Vec<u8>) {
        sha512_digest(data)
    }
}

/// What `sha3::Sha3_256` returns for `data`.
pub uninterp spec fn sha3_256(data: Seq<u8>) -> Seq<u8>;

/// Calls `Digest::digest` of `sha3::Sha3_256`, a function of the input alone
/// with 32 bytes of output.
#[verifier::external_body]
fn sha3_256_digest(data: &[u8]) -> (out: Vec<u8>)
    ensures
        out@ == sha3_256(data@),
        out@.len() == 32,
{
    <sha3::Sha3_256 as sha3::Digest>::digest(data).to_vec()
}

/// SHA3-256.
#[derive(Debug, Clone, Copy, PartialEq, Eq, PartialOrd, Ord, Hash, Default)]
pub struct Sha3_256;

impl FixedHash for Sha3_256 {
    open spec fn output_bits() -> nat {
        256
    }

    open spec fn hash(data: Seq<u8>) -> Seq<u8> {
        sha3_256(data)
    }

    proof fn output_bits_supported() {
    }

    fn output_size_in_bits() -> (bits: usize) {
        256
    }

    fn digest(data: &[u8]) -> (out: Vec<u8>) {
        sha3_256_digest(data)
    }
}

/// What `sha3::Sha3_512` returns for `data`.
pub uninterp spec fn sha3_512(data: Seq<u8>) -> Seq<u8>;

/// Calls `Digest::digest` of `sha3::Sha3_512`, a function of the input alone
/// with 64 bytes of output.
#[verifier::external_body]
fn sha3_512_digest(data: &[u8]) -> (out: Vec<u8>)
    ensures
        out@ == sha3_512(data@),
        out@.len() == 64,
{
    <sha3::Sha3_512 as sha3::Digest>::digest(data).to_vec()
}

/// SHA3-512.
#[derive(Debug, Clone, Copy, PartialEq, Eq, PartialOrd, Ord, Hash, Default)]
pub struct Sha3_512;

impl FixedHash for Sha3_512 {
    open spec fn output_bits() -> nat {
        512
    }

    open spec fn hash(data: Seq<u8>) -> Seq<u8> {
        sha3_512(data)
    }

    proof fn output_bits_supported() {
    }

    fn output_size_in_bits() -> (bits: usize) {
        512
    }

    fn digest(data: &[u8]) -> (out: Vec<u8>) {
        sha3_512_digest(data)
    }
}

/// What `blake2::Blake2s256` returns for `data`.
pub uninterp spec fn blake2s256(data: Seq<u8>) -> Seq<u8>;

/// Calls `Digest::digest` of `blake2::Blake2s256`, a function of the input alone
/// with 32 bytes of output.
#[verifier::external_body]
fn blake2s256_digest(data: &[u8]) -> (out: Vec<u8>)
    ensures
        out@ == blake2s256(data@),
        out@.len() == 32,
{
    <blake2::Blake2s256 as blake2::Digest>::digest(data).to_vec()
}

/// BLAKE2s-256.
#[derive(Debug, Clone, Copy, PartialEq, Eq, PartialOrd, Ord, Hash, Default)]
pub struct Blake2s256;

impl FixedHash for Blake2s256 {
    open spec fn output_bits() -> nat {
        256
    }

    open spec fn hash(data: Seq<u8>) -> Seq<u8> {
        blake2s256(data)
    }

    proof fn output_bits_supported() {
    }

    fn output_size_in_bits() -> (bits: usize) {
        256
    }

    fn digest(data: &[u8]) -> (out: Vec<u8>) {
        blake2s256_digest(data)
    }
}

/// What `blake2::Blake2b512` returns for `data`.
pub uninterp spec fn blake2b512(data: Seq<u8>) -> Seq<u8>;

/// Calls `Digest::digest` of `blake2::Blake2b512`, a function of the input alone
/// with 64 bytes of output.
#[verifier::external_body]
fn blake2b512_digest(data: &[u8]) -> (out: Vec<u8>)
    ensures
        out@ == blake2b512(data@),
        out@.len() == 64,
{
    <blake2::Blake2b512 as blake2::Digest>::digest(data).to_vec()
}

/// BLAKE2b-512.
#[derive(Debug, Clone, Copy, PartialEq, Eq, PartialOrd, Ord, Hash, Default)]
pub struct Blake2b512;

impl FixedHash for Blake2b512 {
    open spec fn output_bits() -> nat {
        512
    }

    open spec fn hash(data: Seq<u8>) -> Seq<u8> {
        blake2b512(data)
    }

    proof fn output_bits_supported() {
    }

    fn output_size_in_bits() -> (bits: usize) {
        512
    }

    fn digest(data: &[u8]) -> (out: Vec<u8>) {
        blake2b512_digest(data)
    }
}

/// What `whirlpool::Whirlpool` returns for `data`.
pub uninterp spec fn whirlpool(data: Seq<u8>) -> Seq<u8>;

/// Calls `Digest::digest` of `whirlpool::Whirlpool`, a function of the input alone
/// with 64 bytes of output.
#[verifier::external_body]
fn whirlpool_digest(data: &[u8]) -> (out: Vec<u8>)
    ensures
        out@ == whirlpool(data@),
        out@.len() == 64,
{
    <whirlpool::Whirlpool as whirlpool::Digest>::digest(data).to_vec()
}

/// Whirlpool.
#[derive(Debug, Clone, Copy, PartialEq, Eq, PartialOrd, Ord, Hash, Default)]
pub struct Whirlpool;

impl FixedHash for Whirlpool {
    open spec fn output_bits() -> nat {
        512
    }

    open spec fn hash(data: Seq<u8>) -> Seq<u8> {
        whirlpool(data)
    }

    proof fn output_bits_supported() {
    }

    fn output_size_in_bits() -> (bits: usize) {
        512
    }

    fn digest(data: &[u8]) -> (out: Vec<u8>) {
        whirlpool_digest(data)
    }
}

/// What `sha3::Shake128` returns for `data` when `len` bytes are read.
pub uninterp spec fn shake128(data: Seq<u8>, len: nat) -> Seq<u8>;

/// Calls `ExtendableOutput::digest_xof` of `sha3::Shake128` on a buffer of
/// `len` bytes, which it fills with output that depends on the input and the
/// length alone.
#[verifier::external_body]
fn shake128_digest(data: &[u8], len: usize) -> (out: Vec<u8>)
    ensures
        out@ == shake128(data@, len as nat),
        out@.len() == len,
{
    let mut out = vec![0u8; len];
    <sha3::Shake128 as sha3::digest::ExtendableOutput>::digest_xof(data, &mut out);
    out
}

/// SHAKE-128.
#[derive(Debug, Clone, Copy, PartialEq, Eq, PartialOrd, Ord, Hash, Default)]
pub struct Shake128;

impl ExtendableHash for Shake128 {
    open spec fn hash(data: Seq<u8>, len: nat) -> Seq<u8> {
        shake128(data, len)
    }

    fn digest_xof(data: &[u8], len: usize) -> (out: Vec<u8>) {
        shake128_digest(data, len)
    }
}

/// What `sha3::Shake256` returns for `data` when `len` bytes are read.
pub uninterp spec fn shake256(data: Seq<u8>, len: nat) -> Seq<u8>;

/// Calls `ExtendableOutput::digest_xof` of `sha3::Shake256` on a buffer of
/// `len` bytes, which it fills with output that depends on the input and the
/// length alone.
#[verifier::external_body]
fn shake256_digest(data: &[u8], len: usize) -> (out: Vec<u8>)
    ensures
        out@ == shake256(data@, len as nat),
        out@.len() == len,
{
    let mut out = vec![0u8; len];
    <sha3::Shake256 as sha3::digest::ExtendableOutput>::digest_xof(data, &mut out);
    out
}

/// SHAKE-256.
#[derive(Debug, Clone, Copy, PartialEq, Eq, PartialOrd, Ord, Hash, Default)]
pub struct Shake256;

impl ExtendableHash for Shake256 {
    open spec fn hash(data: Seq<u8>, len: nat) -> Seq<u8> {
        shake256(data, len)
    }

    fn digest_xof(data: &[u8], len: usize) -> (out: Vec<u8>) {
        shake256_digest(data, len)
    }
}

} // verus!
