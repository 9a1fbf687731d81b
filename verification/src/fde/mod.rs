//! Blind fair signature exchange: the verifier's side of the three-round,
//! cut-and-choose session, and the signer's under the names of this module.

pub mod signer;
pub mod verifying;
