//! Fair signature exchange: a batch of Schnorr signatures, committed to in a
//! way that anyone can check, and released all at once by a single scalar.

pub mod protocol;
