//! Structural failures of registration and key recovery.

use vstd::prelude::*;

verus! {

/// Why a registration step or a key recovery failed. Failed proofs, wrong
/// passwords and forged identity claims are not errors: they come back as
/// `false`.
#[derive(Debug, Clone, Copy, PartialEq, Eq, Structural)]
pub enum ZkError {
    /// The registration authority has no group parameters yet.
    NotInitialized,
    /// The user, gateway or pseudonym is registered already.
    DuplicateRegistration,
    /// No gateway is registered under that identifier.
    UnknownGateway,
    /// The gateway never minted that PUF challenge.
    UnknownChallenge,
    /// No credential is stored under that pseudonym.
    UnknownPseudonym,
    /// Biometric sample and helper data differ in length.
    LengthMismatch,
    /// The random search for group parameters or a fresh value gave up.
    SearchExhausted,
    /// The offered group parameters are not a prime and a generator of it.
    InvalidParameters,
}

} // verus!
