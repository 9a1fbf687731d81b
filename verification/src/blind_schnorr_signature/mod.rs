//! Blind Schnorr signatures: a three-round protocol that leaves the verifier
//! with an ordinary signature which the signer cannot link to the session.

pub mod signer;
pub mod verifying;
