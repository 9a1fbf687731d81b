//! Blind fair signature exchange: the signer's side of the three-round,
//! cut-and-choose session.

pub mod signer;
