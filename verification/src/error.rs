//! Error values returned by the library.

use vstd::prelude::*;

verus! {

/// `vsss_rs::Error`, the errors of the secret-sharing layer, with the
/// variants that `vsss_rs` declares. None of them holds a value.
#[verifier::external_type_specification]
pub struct ExVsssError(vsss_rs::Error);

/// Errors in the Lamport signing scheme.
#[derive(Debug)]
pub enum LamportError {
    /// The secret-sharing layer failed.
    VsssError(vsss_rs::Error),
    /// A signing key or signing-key share was asked to sign a second time.
    PrivateKeyReuseError,
    /// The bytes of a signing key or signing-key share are not valid.
    InvalidPrivateKeyBytes,
    /// The bytes of a signature or signature share are not valid.
    InvalidSignatureBytes,
    /// A parameter is outside the range that can be represented.
    General(String),
}

impl From<vsss_rs::Error> for LamportError {
    fn from(err: vsss_rs::Error) -> (out: Self) {
        LamportError::VsssError(err)
    }
}

impl vstd::std_specs::convert::FromSpecImpl<vsss_rs::Error> for LamportError {
    open spec fn obeys_from_spec() -> bool {
        true
    }

    open spec fn from_spec(err: vsss_rs::Error) -> Self {
        LamportError::VsssError(err)
    }
}

impl From<&vsss_rs::Error> for LamportError {
    fn from(err: &vsss_rs::Error) -> (out: Self) {
        LamportError::VsssError(*err)
    }
}

impl vstd::std_specs::convert::FromSpecImpl<&vsss_rs::Error> for LamportError {
    open spec fn obeys_from_spec() -> bool {
        true
    }

    open spec fn from_spec(err: &vsss_rs::Error) -> Self {
        LamportError::VsssError(*err)
    }
}

/// Result type of the library.
pub type LamportResult<T> = Result<T, LamportError>;

} // verus!
