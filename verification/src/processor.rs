//! The state machine: the three operation handlers.
//!
//! Each handler takes the caller's account, the campaign record account and
//! the vault account as plain values, validates every precondition against
//! re-derived addresses and the stored record, and only then applies its
//! effects.  A handler that fails leaves all three accounts exactly as they
//! were: the first failing precondition aborts the whole operation.

use vstd::prelude::*;

use crate::account::{Account, AccountView};
use crate::auth::{
    campaign_tag, derive_campaign_address, derive_vault_address, keys_equal, pda_of,
    require_address_match, require_owner, require_signer, require_uninitialized_balance, vault_tag,
};
use crate::error::CampaignError;
use crate::state::{
    lemma_decode_encode, lemma_decoded_wf, spec_decode, spec_encode, Campaign, CampaignView,
    RECORD_LEN,
};

verus! {

/// What the host charges to keep an account alive, under the host's default
/// rent configuration: a fixed rate for each byte of the account plus a
/// 128-byte storage overhead.
pub open spec fn rent_exempt_minimum(data_len: int) -> int {
    (128 + data_len) * 6960
}

/// Relies on `Rent::minimum_balance` under `Rent::default()`: the minimum
/// balance is (128 + data_len) * 6960 lamports, the default rate being 6960
/// lamports per byte, and the call is defined for any length up to the
/// host's 10 MiB account cap.
#[verifier::external_body]
fn rent_minimum_balance(data_len: usize) -> (r: u64)
    requires
        data_len <= 10485760,
    ensures
        r == rent_exempt_minimum(data_len as int),
{
    solana_program::rent::Rent::default().minimum_balance(data_len)
}

/// Which error, if any, stops a campaign start, and on success the bump
/// nonce of the record's derived address.  The checks run in this order:
/// the caller signs; the record account stands at the derived record
/// address; it carries no balance yet; the vault account stands at the
/// derived vault address; it carries no balance yet; the caller can pay
/// for both accounts.
pub open spec fn init_check(
    program: Seq<u8>,
    caller: AccountView,
    record: AccountView,
    vault: AccountView,
) -> Result<u8, CampaignError> {
    if !caller.is_signer {
        Err(CampaignError::MissingSignature)
    } else {
        match pda_of(campaign_tag(), caller.key, program) {
            None => Err(CampaignError::AccountMismatch),
            Some((record_addr, bump)) => {
                if record.key != record_addr {
                    Err(CampaignError::AccountMismatch)
                } else if record.lamports != 0 {
                    Err(CampaignError::AccountAlreadyInitialized)
                } else {
                    match pda_of(vault_tag(), record.key, program) {
                        None => Err(CampaignError::AccountMismatch),
                        Some((vault_addr, _vault_bump)) => {
                            if vault.key != vault_addr {
                                Err(CampaignError::AccountMismatch)
                            } else if vault.lamports != 0 {
                                Err(CampaignError::AccountAlreadyInitialized)
                            } else if caller.lamports < rent_exempt_minimum(RECORD_LEN as int)
                                + rent_exempt_minimum(0) {
                                Err(CampaignError::InsufficientFunds)
                            } else {
                                Ok(bump)
                            }
                        },
                    }
                }
            },
        }
    }
}

/// The record written by a successful campaign start.
pub open spec fn init_record_view(
    caller: AccountView,
    vault: AccountView,
    target: u64,
    description: Seq<u8>,
    bump: u8,
) -> CampaignView {
    CampaignView {
        is_initialized: true,
        authority: caller.key,
        vault: vault.key,
        description,
        target,
        amount_raised: 0,
        bump,
    }
}

/// The caller after a successful campaign start: it paid for both accounts.
pub open spec fn init_caller_post(caller: AccountView) -> AccountView {
    AccountView {
        lamports: (caller.lamports - rent_exempt_minimum(RECORD_LEN as int) - rent_exempt_minimum(
            0,
        )) as u64,
        ..caller
    }
}

/// The record account after a successful campaign start: allocated at the
/// record length, owned by the program, holding the encoded record.
pub open spec fn init_record_post(
    caller: AccountView,
    record: AccountView,
    vault: AccountView,
    program: Seq<u8>,
    target: u64,
    description: Seq<u8>,
    bump: u8,
) -> AccountView {
    AccountView {
        lamports: rent_exempt_minimum(RECORD_LEN as int) as u64,
        owner: program,
        data: spec_encode(init_record_view(caller, vault, target, description, bump)),
        ..record
    }
}

/// The vault account after a successful campaign start: allocated empty,
/// owned by the program.
pub open spec fn init_vault_post(vault: AccountView, program: Seq<u8>) -> AccountView {
    AccountView { lamports: rent_exempt_minimum(0) as u64, owner: program, data: Seq::empty(), ..vault }
}

/// The whole contract of a campaign start: on the first failing check the
/// error comes back and nothing moves; otherwise the three accounts step to
/// their post-states.
pub open spec fn init_full(
    program: Seq<u8>,
    c0: AccountView,
    r0: AccountView,
    v0: AccountView,
    target: u64,
    description: Seq<u8>,
    c1: AccountView,
    r1: AccountView,
    v1: AccountView,
    res: Result<(), CampaignError>,
) -> bool {
    match init_check(program, c0, r0, v0) {
        Ok(bump) => {
            &&& res == Ok::<(), CampaignError>(())
            &&& c1 == init_caller_post(c0)
            &&& r1 == init_record_post(c0, r0, v0, program, target, description, bump)
            &&& v1 == init_vault_post(v0, program)
        },
        Err(e) => {
            &&& res == Err::<(), CampaignError>(e)
            &&& c1 == c0
            &&& r1 == r0
            &&& v1 == v0
        },
    }
}

/// Which error, if any, stops a donation.  The checks run in this order:
/// the donor signs; the record account is owned by this program; its bytes
/// decode to an initialized record; the vault argument equals the record's
/// stored vault address; the donor can pay; neither the vault balance nor
/// the running total would wrap.
pub open spec fn donate_check(
    program: Seq<u8>,
    caller: AccountView,
    record: AccountView,
    vault: AccountView,
    amount: u64,
) -> Result<(), CampaignError> {
    if !caller.is_signer {
        Err(CampaignError::MissingSignature)
    } else if record.owner != program {
        Err(CampaignError::WrongOwner)
    } else if spec_decode(record.data) is None || !spec_decode(record.data)->0.is_initialized {
        Err(CampaignError::AccountDataError)
    } else if spec_decode(record.data)->0.vault != vault.key {
        Err(CampaignError::AccountMismatch)
    } else if caller.lamports < amount {
        Err(CampaignError::InsufficientFunds)
    } else if vault.lamports + amount > u64::MAX {
        Err(CampaignError::Overflow)
    } else if spec_decode(record.data)->0.amount_raised + amount > u64::MAX {
        Err(CampaignError::Overflow)
    } else {
        Ok(())
    }
}

/// The donor after a successful donation.
pub open spec fn donate_caller_post(caller: AccountView, amount: u64) -> AccountView {
    AccountView { lamports: (caller.lamports - amount) as u64, ..caller }
}

/// The vault after a successful donation.
pub open spec fn donate_vault_post(vault: AccountView, amount: u64) -> AccountView {
    AccountView { lamports: (vault.lamports + amount) as u64, ..vault }
}

/// The record account after a successful donation: the same record with
/// the running total raised by the amount, re-encoded in place.
pub open spec fn donate_record_post(record: AccountView, amount: u64) -> AccountView {
    let c = spec_decode(record.data)->0;
    AccountView {
        data: spec_encode(
            CampaignView { amount_raised: (c.amount_raised + amount) as u64, ..c },
        ) + record.data.skip(RECORD_LEN as int),
        ..record
    }
}

/// The whole contract of a donation.
pub open spec fn donate_full(
    program: Seq<u8>,
    c0: AccountView,
    r0: AccountView,
    v0: AccountView,
    amount: u64,
    c1: AccountView,
    r1: AccountView,
    v1: AccountView,
    res: Result<(), CampaignError>,
) -> bool {
    match donate_check(program, c0, r0, v0, amount) {
        Ok(()) => {
            &&& res == Ok::<(), CampaignError>(())
            &&& c1 == donate_caller_post(c0, amount)
            &&& r1 == donate_record_post(r0, amount)
            &&& v1 == donate_vault_post(v0, amount)
        },
        Err(e) => {
            &&& res == Err::<(), CampaignError>(e)
            &&& c1 == c0
            &&& r1 == r0
            &&& v1 == v0
        },
    }
}

/// Which error, if any, stops a withdrawal.  The checks run in this order:
/// the caller signs; the record account stands at the address derived from
/// the caller's own identity; its bytes decode to an initialized record;
/// the stored authority is the caller; the stored bump equals the
/// re-derived nonce; the caller's balance can absorb both accounts.
pub open spec fn withdraw_check(
    program: Seq<u8>,
    caller: AccountView,
    record: AccountView,
    vault: AccountView,
) -> Result<(), CampaignError> {
    if !caller.is_signer {
        Err(CampaignError::MissingSignature)
    } else {
        match pda_of(campaign_tag(), caller.key, program) {
            None => Err(CampaignError::AccountMismatch),
            Some((record_addr, bump)) => {
                if record.key != record_addr {
                    Err(CampaignError::AccountMismatch)
                } else if spec_decode(record.data) is None || !spec_decode(
                    record.data,
                )->0.is_initialized {
                    Err(CampaignError::AccountDataError)
                } else if spec_decode(record.data)->0.authority != caller.key {
                    Err(CampaignError::WrongAuthority)
                } else if spec_decode(record.data)->0.bump != bump {
                    Err(CampaignError::AccountMismatch)
                } else if caller.lamports + vault.lamports + record.lamports > u64::MAX {
                    Err(CampaignError::Overflow)
                } else {
                    Ok(())
                }
            },
        }
    }
}

/// The authority after a successful withdrawal: it absorbed both balances.
pub open spec fn withdraw_caller_post(
    caller: AccountView,
    record: AccountView,
    vault: AccountView,
) -> AccountView {
    AccountView {
        lamports: (caller.lamports + vault.lamports + record.lamports) as u64,
        ..caller
    }
}

/// The record account after a successful withdrawal: drained and with
/// every byte zeroed, so a later read can never see a valid record.
pub open spec fn withdraw_record_post(record: AccountView) -> AccountView {
    AccountView {
        lamports: 0,
        data: Seq::new(record.data.len(), |i: int| 0u8),
        ..record
    }
}

/// The vault after a successful withdrawal: drained.
pub open spec fn withdraw_vault_post(vault: AccountView) -> AccountView {
    AccountView { lamports: 0, ..vault }
}

/// The whole contract of a withdrawal.
pub open spec fn withdraw_full(
    program: Seq<u8>,
    c0: AccountView,
    r0: AccountView,
    v0: AccountView,
    c1: AccountView,
    r1: AccountView,
    v1: AccountView,
    res: Result<(), CampaignError>,
) -> bool {
    match withdraw_check(program, c0, r0, v0) {
        Ok(()) => {
            &&& res == Ok::<(), CampaignError>(())
            &&& c1 == withdraw_caller_post(c0, r0, v0)
            &&& r1 == withdraw_record_post(r0)
            &&& v1 == withdraw_vault_post(v0)
        },
        Err(e) => {
            &&& res == Err::<(), CampaignError>(e)
            &&& c1 == c0
            &&& r1 == r0
            &&& v1 == v0
        },
    }
}

/// Starting a campaign and then decoding its record gives back exactly an
/// initialized record carrying the caller as authority, the supplied vault
/// address, the given target and description, nothing raised yet, and the
/// derivation nonce.
pub proof fn lemma_init_then_decode(
    program: Seq<u8>,
    c0: AccountView,
    r0: AccountView,
    v0: AccountView,
    target: u64,
    description: Seq<u8>,
    bump: u8,
)
    requires
        c0.key.len() == 32,
        v0.key.len() == 32,
        description.len() == 200,
        init_check(program, c0, r0, v0) == Ok::<u8, CampaignError>(bump),
    ensures
        spec_decode(init_record_post(c0, r0, v0, program, target, description, bump).data)
            == Some(init_record_view(c0, v0, target, description, bump)),
{
    let c = init_record_view(c0, v0, target, description, bump);
    lemma_decode_encode(c, Seq::empty());
    assert(spec_encode(c) + Seq::<u8>::empty() =~= spec_encode(c));
}

/// Starting a campaign is not idempotent: after one success, any second
/// start against the same record — whoever signs it with the same
/// authority identity, whatever vault account it names — stops with
/// `AccountAlreadyInitialized`.
pub proof fn lemma_init_not_idempotent(
    program: Seq<u8>,
    c0: AccountView,
    r0: AccountView,
    v0: AccountView,
    target: u64,
    description: Seq<u8>,
    bump: u8,
    c2: AccountView,
    v2: AccountView,
)
    requires
        init_check(program, c0, r0, v0) == Ok::<u8, CampaignError>(bump),
        c2.is_signer,
        c2.key == c0.key,
    ensures
        init_check(program, c2, init_record_post(c0, r0, v0, program, target, description, bump), v2)
            == Err::<u8, CampaignError>(CampaignError::AccountAlreadyInitialized),
{
}

/// The sum of a batch of donation amounts.
pub open spec fn sum_of(amounts: Seq<u64>) -> int
    decreases amounts.len(),
{
    if amounts.len() == 0 {
        0
    } else {
        amounts[0] + sum_of(amounts.drop_first())
    }
}

/// A sum of donation amounts is never negative.
pub proof fn lemma_sum_of_nonneg(amounts: Seq<u64>)
    ensures
        sum_of(amounts) >= 0,
    decreases amounts.len(),
{
    if amounts.len() > 0 {
        lemma_sum_of_nonneg(amounts.drop_first());
    }
}

/// The record account after a batch of successful donations, applied in
/// order.
pub open spec fn donate_seq_record(record: AccountView, amounts: Seq<u64>) -> AccountView
    decreases amounts.len(),
{
    if amounts.len() == 0 {
        record
    } else {
        donate_seq_record(donate_record_post(record, amounts[0]), amounts.drop_first())
    }
}

/// The vault account after a batch of successful donations, applied in
/// order.
pub open spec fn donate_seq_vault(vault: AccountView, amounts: Seq<u64>) -> AccountView
    decreases amounts.len(),
{
    if amounts.len() == 0 {
        vault
    } else {
        donate_seq_vault(donate_vault_post(vault, amounts[0]), amounts.drop_first())
    }
}

/// Conservation over any batch of successful donations: the running total
/// rises by exactly the sum of the amounts, the vault balance rises by the
/// same sum, and the record stays an initialized record pointing at the
/// same vault.
pub proof fn lemma_donations_sum(record: AccountView, vault: AccountView, amounts: Seq<u64>)
    requires
        spec_decode(record.data) is Some,
        spec_decode(record.data)->0.is_initialized,
        spec_decode(record.data)->0.amount_raised + sum_of(amounts) <= u64::MAX,
        vault.lamports + sum_of(amounts) <= u64::MAX,
    ensures
        ({
            let rn = donate_seq_record(record, amounts);
            let vn = donate_seq_vault(vault, amounts);
            &&& spec_decode(rn.data) is Some
            &&& spec_decode(rn.data)->0.is_initialized
            &&& spec_decode(rn.data)->0.amount_raised == spec_decode(record.data)->0.amount_raised
                + sum_of(amounts)
            &&& spec_decode(rn.data)->0.vault == spec_decode(record.data)->0.vault
            &&& rn.key == record.key
            &&& rn.owner == record.owner
            &&& vn.lamports == vault.lamports + sum_of(amounts)
            &&& vn.key == vault.key
        }),
    decreases amounts.len(),
{
    if amounts.len() > 0 {
        let a = amounts[0];
        let rest = amounts.drop_first();
        lemma_sum_of_nonneg(rest);
        let c = spec_decode(record.data)->0;
        lemma_decoded_wf(record.data);
        let c1 = CampaignView { amount_raised: (c.amount_raised + a) as u64, ..c };
        lemma_decode_encode(c1, record.data.skip(RECORD_LEN as int));
        assert(spec_decode(donate_record_post(record, a).data) == Some(c1));
        lemma_donations_sum(donate_record_post(record, a), donate_vault_post(vault, a), rest);
    }
}

/// One donation out of such a batch goes through: whenever the record is
/// an initialized record of this program naming the supplied vault, any
/// signing donor who can pay an amount that fits passes every check.
pub proof fn lemma_donate_step_ok(
    program: Seq<u8>,
    caller: AccountView,
    record: AccountView,
    vault: AccountView,
    amount: u64,
)
    requires
        caller.is_signer,
        record.owner == program,
        spec_decode(record.data) is Some,
        spec_decode(record.data)->0.is_initialized,
        spec_decode(record.data)->0.vault == vault.key,
        caller.lamports >= amount,
        vault.lamports + amount <= u64::MAX,
        spec_decode(record.data)->0.amount_raised + amount <= u64::MAX,
    ensures
        donate_check(program, caller, record, vault, amount) == Ok::<(), CampaignError>(()),
{
}

/// A donation whose amount would wrap the running total stops with
/// `Overflow` — and, by the handler's contract, leaves the total and every
/// balance exactly as they were.
pub proof fn lemma_donate_overflow(
    program: Seq<u8>,
    caller: AccountView,
    record: AccountView,
    vault: AccountView,
    amount: u64,
)
    requires
        caller.is_signer,
        record.owner == program,
        spec_decode(record.data) is Some,
        spec_decode(record.data)->0.is_initialized,
        spec_decode(record.data)->0.vault == vault.key,
        caller.lamports >= amount,
        spec_decode(record.data)->0.amount_raised + amount > u64::MAX,
    ensures
        donate_check(program, caller, record, vault, amount) == Err::<(), CampaignError>(
            CampaignError::Overflow,
        ),
{
}

/// A donation naming any account other than the record's stored vault
/// stops with `AccountMismatch`, whatever the amount.
pub proof fn lemma_donate_wrong_vault(
    program: Seq<u8>,
    caller: AccountView,
    record: AccountView,
    vault: AccountView,
    amount: u64,
)
    requires
        caller.is_signer,
        record.owner == program,
        spec_decode(record.data) is Some,
        spec_decode(record.data)->0.is_initialized,
        spec_decode(record.data)->0.vault != vault.key,
    ensures
        donate_check(program, caller, record, vault, amount) == Err::<(), CampaignError>(
            CampaignError::AccountMismatch,
        ),
{
}

/// A withdrawal signed by any identity other than the stored authority
/// stops with `WrongAuthority`, even from the record's own derived
/// address.
pub proof fn lemma_withdraw_wrong_authority(
    program: Seq<u8>,
    caller: AccountView,
    record: AccountView,
    vault: AccountView,
)
    requires
        caller.is_signer,
        pda_of(campaign_tag(), caller.key, program) is Some,
        record.key == (pda_of(campaign_tag(), caller.key, program)->0).0,
        spec_decode(record.data) is Some,
        spec_decode(record.data)->0.is_initialized,
        spec_decode(record.data)->0.authority != caller.key,
    ensures
        withdraw_check(program, caller, record, vault) == Err::<(), CampaignError>(
            CampaignError::WrongAuthority,
        ),
{
}

/// A successful withdrawal moves both balances, whole, to the caller,
/// leaves the record's bytes all zero, and makes any later initialized
/// read of the record impossible.
pub proof fn lemma_withdraw_drains(
    program: Seq<u8>,
    caller: AccountView,
    record: AccountView,
    vault: AccountView,
)
    requires
        withdraw_check(program, caller, record, vault) == Ok::<(), CampaignError>(()),
    ensures
        withdraw_caller_post(caller, record, vault).lamports == caller.lamports + vault.lamports
            + record.lamports,
        withdraw_vault_post(vault).lamports == 0,
        withdraw_record_post(record).lamports == 0,
        forall|i: int|
            0 <= i < withdraw_record_post(record).data.len() ==> withdraw_record_post(
                record,
            ).data[i] == 0,
        spec_decode(withdraw_record_post(record).data) is Some,
        !spec_decode(withdraw_record_post(record).data)->0.is_initialized,
{
    assert(record.data.len() >= RECORD_LEN);
    assert(withdraw_record_post(record).data[0] == 0);
}

/// The dispatcher over the three operation handlers.
pub struct Processor;

impl Processor {
    /// Starts a campaign: validates the caller and both derived addresses,
    /// then allocates and writes the record and the vault as one group.
    pub fn process_init_campaign(
        caller: &mut Account,
        record: &mut Account,
        vault: &mut Account,
        program_id: &[u8; 32],
        target: u64,
        description: [u8; 200],
    ) -> (r: Result<(), CampaignError>)
        ensures
            init_full(
                program_id@,
                old(caller)@,
                old(record)@,
                old(vault)@,
                target,
                description@,
                final(caller)@,
                final(record)@,
                final(vault)@,
                r,
            ),
    {
        require_signer(&*caller)?;
        let (record_addr, bump) = match derive_campaign_address(&caller.key, program_id) {
            None => {
                return Err(CampaignError::AccountMismatch);
            },
            Some(p) => p,
        };
        require_address_match(&record.key, &record_addr)?;
        require_uninitialized_balance(&*record)?;
        let (vault_addr, _vault_bump) = match derive_vault_address(&record.key, program_id) {
            None => {
                return Err(CampaignError::AccountMismatch);
            },
            Some(p) => p,
        };
        require_address_match(&vault.key, &vault_addr)?;
        require_uninitialized_balance(&*vault)?;
        let record_rent = rent_minimum_balance(RECORD_LEN);
        let vault_rent = rent_minimum_balance(0);
        if caller.lamports < record_rent || caller.lamports - record_rent < vault_rent {
            return Err(CampaignError::InsufficientFunds);
        }
        caller.lamports = caller.lamports - record_rent - vault_rent;
        let campaign = Campaign {
            is_initialized: true,
            authority: caller.key,
            vault: vault.key,
            description,
            target,
            amount_raised: 0,
            bump,
        };
        let mut data: Vec<u8> = Vec::new();
        let mut i: usize = 0;
        while i < RECORD_LEN
            invariant
                i <= RECORD_LEN,
                data@.len() == i,
            decreases RECORD_LEN - i,
        {
            data.push(0);
            i += 1;
        }
        campaign.pack_into_slice(&mut data);
        proof {
            lemma_decode_encode(campaign@, Seq::empty());
            assert(data@ =~= spec_encode(campaign@));
            assert(campaign@ =~= init_record_view(
                old(caller)@,
                old(vault)@,
                target,
                description@,
                bump,
            ));
        }
        record.lamports = record_rent;
        record.owner = *program_id;
        record.data = data;
        vault.lamports = vault_rent;
        vault.owner = *program_id;
        vault.data = Vec::new();
        proof {
            assert(record@ =~= init_record_post(
                old(caller)@,
                old(record)@,
                old(vault)@,
                program_id@,
                target,
                description@,
                bump,
            ));
            assert(caller@ =~= init_caller_post(old(caller)@));
            assert(vault@.data =~= Seq::<u8>::empty());
            assert(vault@ =~= init_vault_post(old(vault)@, program_id@));
        }
        Ok(())
    }

    /// Accepts a donation: validates the donor, the record and the stored
    /// vault address, then moves the amount and raises the running total.
    pub fn process_donate(
        caller: &mut Account,
        record: &mut Account,
        vault: &mut Account,
        program_id: &[u8; 32],
        amount: u64,
    ) -> (r: Result<(), CampaignError>)
        ensures
            donate_full(
                program_id@,
                old(caller)@,
                old(record)@,
                old(vault)@,
                amount,
                final(caller)@,
                final(record)@,
                final(vault)@,
                r,
            ),
    {
        require_signer(&*caller)?;
        require_owner(&*record, program_id)?;
        let campaign = Campaign::unpack(record.data.as_slice())?;
        if !keys_equal(&campaign.vault, &vault.key) {
            return Err(CampaignError::AccountMismatch);
        }
        if caller.lamports < amount {
            return Err(CampaignError::InsufficientFunds);
        }
        let new_vault_lamports = match vault.lamports.checked_add(amount) {
            None => {
                return Err(CampaignError::Overflow);
            },
            Some(x) => x,
        };
        let new_raised = match campaign.amount_raised.checked_add(amount) {
            None => {
                return Err(CampaignError::Overflow);
            },
            Some(x) => x,
        };
        let updated = Campaign { amount_raised: new_raised, ..campaign };
        caller.lamports = caller.lamports - amount;
        vault.lamports = new_vault_lamports;
        updated.pack_into_slice(&mut record.data);
        proof {
            let c = spec_decode(old(record)@.data)->0;
            assert(updated@ =~= CampaignView { amount_raised: (c.amount_raised + amount) as u64, ..c });
            assert(record@ =~= donate_record_post(old(record)@, amount));
            assert(caller@ =~= donate_caller_post(old(caller)@, amount));
            assert(vault@ =~= donate_vault_post(old(vault)@, amount));
        }
        Ok(())
    }

    /// Withdraws everything: validates the caller against the stored
    /// authority and the re-derived address and nonce, then drains both
    /// accounts to the caller and zeroes the record's bytes.
    pub fn process_withdraw(
        caller: &mut Account,
        record: &mut Account,
        vault: &mut Account,
        program_id: &[u8; 32],
    ) -> (r: Result<(), CampaignError>)
        ensures
            withdraw_full(
                program_id@,
                old(caller)@,
                old(record)@,
                old(vault)@,
                final(caller)@,
                final(record)@,
                final(vault)@,
                r,
            ),
    {
        require_signer(&*caller)?;
        let (record_addr, bump) = match derive_campaign_address(&caller.key, program_id) {
            None => {
                return Err(CampaignError::AccountMismatch);
            },
            Some(p) => p,
        };
        require_address_match(&record.key, &record_addr)?;
        let campaign = Campaign::unpack(record.data.as_slice())?;
        if !keys_equal(&campaign.authority, &caller.key) {
            return Err(CampaignError::WrongAuthority);
        }
        if campaign.bump != bump {
            return Err(CampaignError::AccountMismatch);
        }
        let with_vault = match caller.lamports.checked_add(vault.lamports) {
            None => {
                return Err(CampaignError::Overflow);
            },
            Some(x) => x,
        };
        let total = match with_vault.checked_add(record.lamports) {
            None => {
                return Err(CampaignError::Overflow);
            },
            Some(x) => x,
        };
        caller.lamports = total;
        vault.lamports = 0;
        record.lamports = 0;
        let n = record.data.len();
        let mut i: usize = 0;
        while i < n
            invariant
                i <= n,
                record.data@.len() == n,
                record@.key == old(record)@.key,
                record@.owner == old(record)@.owner,
                record@.is_signer == old(record)@.is_signer,
                record@.lamports == 0,
                forall|j: int| 0 <= j < i ==> record.data@[j] == 0,
            decreases n - i,
        {
            record.data[i] = 0;
            i += 1;
        }
        proof {
            assert(record@.data =~= Seq::new(old(record)@.data.len(), |j: int| 0u8));
            assert(record@ =~= withdraw_record_post(old(record)@));
            assert(caller@ =~= withdraw_caller_post(old(caller)@, old(record)@, old(vault)@));
            assert(vault@ =~= withdraw_vault_post(old(vault)@));
        }
        Ok(())
    }

    /// Decodes a request and runs the matching handler on the three
    /// caller-supplied accounts.
    pub fn process(
        program_id: &[u8; 32],
        caller: &mut Account,
        record: &mut Account,
        vault: &mut Account,
        instruction_data: &[u8],
    ) -> (r: Result<(), CampaignError>)
        ensures
            ({
                let s = instruction_data@;
                if !crate::instruction::wire_ok(s) {
                    &&& r == Err::<(), CampaignError>(CampaignError::InvalidInstruction)
                    &&& final(caller)@ == old(caller)@
                    &&& final(record)@ == old(record)@
                    &&& final(vault)@ == old(vault)@
                } else if s[0] == 0 {
                    init_full(
                        program_id@,
                        old(caller)@,
                        old(record)@,
                        old(vault)@,
                        vstd::bytes::spec_u64_from_le_bytes(s.subrange(1, 9)),
                        s.subrange(9, 209),
                        final(caller)@,
                        final(record)@,
                        final(vault)@,
                        r,
                    )
                } else if s[0] == 1 {
                    donate_full(
                        program_id@,
                        old(caller)@,
                        old(record)@,
                        old(vault)@,
                        vstd::bytes::spec_u64_from_le_bytes(s.subrange(1, 9)),
                        final(caller)@,
                        final(record)@,
                        final(vault)@,
                        r,
                    )
                } else {
                    withdraw_full(
                        program_id@,
                        old(caller)@,
                        old(record)@,
                        old(vault)@,
                        final(caller)@,
                        final(record)@,
                        final(vault)@,
                        r,
                    )
                }
            }),
    {
        let instruction = match crate::instruction::Instruction::unpack(instruction_data) {
            Err(e) => {
                return Err(e);
            },
            Ok(instruction) => instruction,
        };
        match instruction {
            crate::instruction::Instruction::InitCampaign { target, description } => {
                Self::process_init_campaign(caller, record, vault, program_id, target, description)
            },
            crate::instruction::Instruction::Donate { amount } => {
                Self::process_donate(caller, record, vault, program_id, amount)
            },
            crate::instruction::Instruction::Withdraw {  } => {
                Self::process_withdraw(caller, record, vault, program_id)
            },
        }
    }
}

} // verus!
