//! The value-level model of a ledger account handed to an operation.
//!
//! The host passes each operation an ordered list of account handles; the
//! adapter around this library reads each handle into one of these plain
//! values and writes the result back.  Nothing here is trusted: every field
//! is caller-controlled except `is_signer`, which the host has verified
//! cryptographically.

use vstd::prelude::*;

verus! {

/// One account as an operation sees it.
pub struct Account {
    /// The account's address.
    pub key: [u8; 32],
    /// Its native value balance.
    pub lamports: u64,
    /// The program identity permitted to mutate its contents.
    pub owner: [u8; 32],
    /// Whether the caller cryptographically authorized this account.
    pub is_signer: bool,
    /// Its structured contents.
    pub data: Vec<u8>,
}

/// The mathematical value of an account.
#[verifier::ext_equal]
pub ghost struct AccountView {
    pub key: Seq<u8>,
    pub lamports: u64,
    pub owner: Seq<u8>,
    pub is_signer: bool,
    pub data: Seq<u8>,
}

impl View for Account {
    type V = AccountView;

    open spec fn view(&self) -> AccountView {
        AccountView {
            key: self.key@,
            lamports: self.lamports,
            owner: self.owner@,
            is_signer: self.is_signer,
            data: self.data@,
        }
    }
}

} // verus!
