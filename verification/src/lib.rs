//! Schnorr-style signature protocols over the BN254 G1 group: plain and blind
//! Schnorr signatures, fair signature exchange and its blind, cut-and-choose
//! variant.

pub mod blind_fse;
pub mod blind_schnorr_signature;
pub mod commitment;
pub mod fde;
pub mod field;
pub mod fse;
pub mod group;
pub mod hash;
pub mod modular;
pub mod schnorr_signature;
