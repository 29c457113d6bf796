//! What the control surface reports when it refuses a request.

use crate::keys::Pubkey;
use crate::token::CodecError;
use vstd::prelude::*;

verus! {

/// What is wrong with the parameters of a request.
#[derive(Clone, Copy, Debug, PartialEq, Eq)]
pub enum ParamsFault {
    /// A new token account was asked for without a mint.
    MissingMint,
    /// A new token account was asked for without an owner.
    MissingOwner,
    /// The working snapshot holds no account at the address.
    AccountNotFound(Pubkey),
    /// The account's data could not be unpacked as a token account.
    Codec(CodecError),
}

/// Why a request was refused.
#[derive(Debug, PartialEq, Eq)]
pub enum ControlError {
    /// The slot to warp to is not ahead of the working tip.
    InvalidWarpSlot,
    /// The parameters are missing something or name something unusable.
    InvalidParams(ParamsFault),
    /// The account at the address is not owned by the token program.
    NotATokenAccount(Pubkey),
    /// The account could not be fetched from the remote ledger.
    RemoteFetch {
        /// The endpoint that was asked.
        endpoint: String,
        /// What the remote query reported.
        cause: String,
    },
}

} // verus!
