//! Address derivation and the authorization checks reused by every
//! operation.
//!
//! The two addresses this program owns are derived deterministically: the
//! record address from the domain tag `"campaign"` and the authority's
//! identity, the vault address from the domain tag `"vault"` and the record
//! address.  Callers cannot be trusted to supply the right accounts, so
//! every address used as a key is re-derived here and compared.

use vstd::prelude::*;
use vstd::assert_seqs_equal;

use crate::account::Account;
use crate::error::CampaignError;

verus! {

/// The domain tag of a campaign record address: the ASCII bytes "campaign".
pub open spec fn campaign_tag() -> Seq<u8> {
    seq![99u8, 97u8, 109u8, 112u8, 97u8, 105u8, 103u8, 110u8]
}

/// The domain tag of a vault address: the ASCII bytes "vault".
pub open spec fn vault_tag() -> Seq<u8> {
    seq![118u8, 97u8, 117u8, 108u8, 116u8]
}

/// The address and nonce that the host's derivation rule assigns to a
/// domain tag and a 32-byte seed under a program identity, or nothing in
/// the statistically improbable case that no nonce works.
pub uninterp spec fn pda_of(tag: Seq<u8>, seed: Seq<u8>, program: Seq<u8>) -> Option<(Seq<u8>, u8)>;

/// The ASCII bytes "campaign" as a buffer.
fn campaign_tag_bytes() -> (v: Vec<u8>)
    ensures
        v@ == campaign_tag(),
{
    let mut v: Vec<u8> = Vec::new();
    v.push(99);
    v.push(97);
    v.push(109);
    v.push(112);
    v.push(97);
    v.push(105);
    v.push(103);
    v.push(110);
    proof {
        assert_seqs_equal!(v@ == campaign_tag());
    }
    v
}

/// The ASCII bytes "vault" as a buffer.
fn vault_tag_bytes() -> (v: Vec<u8>)
    ensures
        v@ == vault_tag(),
{
    let mut v: Vec<u8> = Vec::new();
    v.push(118);
    v.push(97);
    v.push(117);
    v.push(108);
    v.push(116);
    proof {
        assert_seqs_equal!(v@ == vault_tag());
    }
    v
}

/// Relies on `Pubkey::try_find_program_address`: the derived address and
/// its bump nonce are a deterministic function of the seed bytes and the
/// program identity alone, and the search returns `None` only when no
/// nonce yields a valid address.
#[verifier::external_body]
fn find_pda(tag: &Vec<u8>, seed: &[u8; 32], program: &[u8; 32]) -> (r: Option<([u8; 32], u8)>)
    ensures
        match r {
            Some(p) => pda_of(tag@, seed@, program@) == Some((p.0@, p.1)),
            None => pda_of(tag@, seed@, program@) is None,
        },
{
    let program_id = solana_program::pubkey::Pubkey::new_from_array(*program);
    let found = solana_program::pubkey::Pubkey::try_find_program_address(
        &[tag.as_slice(), seed.as_slice()],
        &program_id,
    );
    found.map(|(address, bump)| (address.to_bytes(), bump))
}

/// Derives the canonical record address of `authority`'s campaign under
/// `program_id`, with the nonce that made the derivation succeed.
pub fn derive_campaign_address(authority: &[u8; 32], program_id: &[u8; 32]) -> (r: Option<
    ([u8; 32], u8),
>)
    ensures
        match r {
            Some(p) => pda_of(campaign_tag(), authority@, program_id@) == Some((p.0@, p.1)),
            None => pda_of(campaign_tag(), authority@, program_id@) is None,
        },
{
    let tag = campaign_tag_bytes();
    find_pda(&tag, authority, program_id)
}

/// Derives the canonical vault address of the campaign whose record lives
/// at `record_key` under `program_id`.
pub fn derive_vault_address(record_key: &[u8; 32], program_id: &[u8; 32]) -> (r: Option<
    ([u8; 32], u8),
>)
    ensures
        match r {
            Some(p) => pda_of(vault_tag(), record_key@, program_id@) == Some((p.0@, p.1)),
            None => pda_of(vault_tag(), record_key@, program_id@) is None,
        },
{
    let tag = vault_tag_bytes();
    find_pda(&tag, record_key, program_id)
}

/// Compares two addresses byte for byte.
pub fn keys_equal(a: &[u8; 32], b: &[u8; 32]) -> (r: bool)
    ensures
        r <==> a@ == b@,
{
    let mut i: usize = 0;
    while i < 32
        invariant
            i <= 32,
            forall|j: int| 0 <= j < i ==> a@[j] == b@[j],
        decreases 32 - i,
    {
        if a[i] != b[i] {
            return false;
        }
        i += 1;
    }
    proof {
        assert_seqs_equal!(a@ == b@);
    }
    true
}

/// Fails unless the caller cryptographically authorized this account.
pub fn require_signer(account: &Account) -> (r: Result<(), CampaignError>)
    ensures
        r is Ok <==> account@.is_signer,
        r is Err ==> r->Err_0 == CampaignError::MissingSignature,
{
    if account.is_signer {
        Ok(())
    } else {
        Err(CampaignError::MissingSignature)
    }
}

/// Fails unless the account is controlled by the expected program; required
/// before trusting any structured contents.
pub fn require_owner(account: &Account, expected_program: &[u8; 32]) -> (r: Result<
    (),
    CampaignError,
>)
    ensures
        r is Ok <==> account@.owner == expected_program@,
        r is Err ==> r->Err_0 == CampaignError::WrongOwner,
{
    if keys_equal(&account.owner, expected_program) {
        Ok(())
    } else {
        Err(CampaignError::WrongOwner)
    }
}

/// Fails unless an account address equals an independently derived one:
/// the anti-spoofing check at the heart of every operation.
pub fn require_address_match(actual: &[u8; 32], expected: &[u8; 32]) -> (r: Result<
    (),
    CampaignError,
>)
    ensures
        r is Ok <==> actual@ == expected@,
        r is Err ==> r->Err_0 == CampaignError::AccountMismatch,
{
    if keys_equal(actual, expected) {
        Ok(())
    } else {
        Err(CampaignError::AccountMismatch)
    }
}

/// Fails unless the account carries no balance yet; used at initialization
/// as the sign that its address has not been allocated before.
pub fn require_uninitialized_balance(account: &Account) -> (r: Result<(), CampaignError>)
    ensures
        r is Ok <==> account@.lamports == 0,
        r is Err ==> r->Err_0 == CampaignError::AccountAlreadyInitialized,
{
    if account.lamports == 0 {
        Ok(())
    } else {
        Err(CampaignError::AccountAlreadyInitialized)
    }
}

} // verus!
