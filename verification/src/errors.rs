//! The failure taxonomy of an authentication attempt.
//!
//! `Validation` names malformed or missing input; `Authentication` is the
//! one generic answer for a signature that did not verify, so that a caller
//! learns nothing of which encoding or permutation was tried.

use vstd::prelude::*;

verus! {

/// Why an input was rejected before any signature was checked.
#[derive(Clone, Copy, Debug, PartialEq, Eq, Structural)]
pub enum ValidationFault {
    /// Neither the raw init data nor the legacy triple of hash, auth date
    /// and user was present.
    MissingCredentials,
    /// The init data carries no `hash` field and no `signature` field.
    HashMissing,
    /// The init data carries only a `signature` field, whose Ed25519 scheme
    /// is not checked here.
    SignatureUnsupported,
    /// The init data carries no `user` field.
    UserMissing,
    /// The user field is not a JSON object with an integer `id`.
    UserJsonInvalid,
}

/// A classified failure.
#[derive(Clone, Copy, Debug, PartialEq, Eq, Structural)]
pub enum AuthError {
    /// Malformed or missing input, with its reason.
    Validation(ValidationFault),
    /// The signature did not verify.
    Authentication,
}

} // verus!
