//! Schnorr signatures over the group.

pub mod key;
pub mod signature;
pub mod signer;
pub mod util;
pub mod verifying;
