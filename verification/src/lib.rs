//! Lamport one-time signatures over an arbitrary digest, with Shamir sharing of
//! signing keys over GF(256).
//!
//! A [`SigningKey`] holds two rows of secret bytes for every bit of a message
//! digest and signs one message by revealing, for every bit of the digest of
//! the message, the row that belongs to the value of the bit. The
//! [`VerifyingKey`] holds the digest of every row. A signing key can be split
//! into shares of which a threshold combine to the key again; each share
//! signs on its own, and the shares of a signature combine to the signature
//! of the key.
//!
//! # Usage
//!
//! ```
//! use lamport_signature_plus::hash::Sha256;
//! use lamport_signature_plus::{generate_keys, LamportFixedDigest, Signature};
//! use rand::rngs::StdRng;
//! use rand::SeedableRng;
//!
//! let mut rng = StdRng::from_entropy();
//! let (mut signing_key, verifying_key) = generate_keys::<LamportFixedDigest<Sha256>>(&mut rng);
//!
//! let mut shares = signing_key.split(3, 5, &mut rng).expect("3 of 5 is a valid split");
//! let partial: Vec<_> = shares
//!     .iter_mut()
//!     .take(3)
//!     .map(|share| share.sign(b"Hello, World!").expect("a fresh share signs"))
//!     .collect();
//! let combined = Signature::combine(&partial).expect("three shares are enough");
//! assert!(verifying_key.verify(&combined, b"Hello, World!").is_ok());
//!
//! let signature = signing_key.sign(b"Hello, World!").expect("a fresh key signs");
//! assert!(verifying_key.verify(&signature, b"Hello, World!").is_ok());
//! assert!(signing_key.sign(b"Hello, World!").is_err());
//! ```
//!
//! # Digests
//!
//! Keys are built over a [`LamportDigest`]. A hash function with a native
//! output size is used through [`LamportFixedDigest`], a function with
//! extendable output through [`LamportExtendableDigest`], which reads 32
//! bytes. The module [`hash`] holds the hash functions that are at hand.
//!
//! # One signature for each key
//!
//! A [`SigningKey`] signs once. A second signature would reveal more of the
//! secrets, so a key that has signed refuses, and so does a share.

pub mod constant_time;
pub mod equality;
pub mod error;
pub mod hash;
pub mod model;
pub mod multi_vec;
pub mod order;
pub mod random;
pub mod shamir;
pub mod signature;
pub mod signing;
pub mod text;
pub mod theorems;
pub mod utils;
pub mod verifying;

pub use error::{LamportError, LamportResult};
pub use hash::{
    ExtendableHash, FixedHash, LamportDigest, LamportExtendableDigest, LamportFixedDigest,
};
pub use multi_vec::MultiVec;
pub use signature::{Signature, SignatureShare};
pub use signing::{SigningKey, SigningKeyShare};
pub use verifying::VerifyingKey;

use rand::rngs::StdRng;
use vstd::prelude::*;

verus! {

/// Generate a new pair of keys: a fresh signing key and its verifying key.
pub fn generate_keys<T: LamportDigest>(rng: &mut StdRng) -> (keys: (
    SigningKey<T>,
    VerifyingKey<T>,
))
    ensures
        keys.0.wf(),
        !keys.0@.used,
        keys.1.wf(),
        keys.1.belongs_to(keys.0@),
{
    let sk = SigningKey::<T>::random(rng);
    let pk = VerifyingKey::from(&sk);
    (sk, pk)
}

} // verus!
