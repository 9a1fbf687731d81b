//! The signer of a session, under the names of this module.

use crate::blind_fse::signer::{
    BFDESigner, BFDESignerFirstRoundMessage, BFDESignerSecondRoundMessage,
    BFDESignerSecretRandomness,
};
use vstd::prelude::*;

verus! {

pub type FDESigner = BFDESigner;

pub type FDESignerSecretRandomness = BFDESignerSecretRandomness;

pub type FDESignerFirstRoundMessage = BFDESignerFirstRoundMessage;

pub type FDESignerSecondRoundMessage = BFDESignerSecondRoundMessage;

} // verus!
