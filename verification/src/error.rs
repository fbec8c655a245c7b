//! The error taxonomy shared by every operation.

use vstd::prelude::*;

verus! {

/// Why a request was rejected.  Every handler reports the first failing
/// precondition and leaves all accounts untouched.
#[derive(Clone, Copy, Debug, PartialEq, Eq, Structural)]
pub enum CampaignError {
    /// The instruction bytes do not decode to any request.
    InvalidInstruction,
    /// The stored record bytes do not decode to an initialized record.
    AccountDataError,
    /// An account's address or embedded identity fails re-derivation.
    AccountMismatch,
    /// An account that must be fresh already carries a balance.
    AccountAlreadyInitialized,
    /// The withdrawing signer is not the stored authority.
    WrongAuthority,
    /// The caller did not sign the request.
    MissingSignature,
    /// The record account is not controlled by this program.
    WrongOwner,
    /// The paying account cannot cover the requested movement.
    InsufficientFunds,
    /// A balance or the running total would wrap around.
    Overflow,
}

} // verus!
