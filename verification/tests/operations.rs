use crowdfund::account::Account;
use crowdfund::auth::{derive_campaign_address, derive_vault_address};
use crowdfund::error::CampaignError;
use crowdfund::processor::Processor;
use crowdfund::state::{Campaign, RECORD_LEN};

const PROGRAM_ID: [u8; 32] = [9u8; 32];
const RECORD_RENT: u64 = 2_853_600;
const VAULT_RENT: u64 = 890_880;

fn wallet(key: [u8; 32], lamports: u64) -> Account {
    Account {
        key,
        lamports,
        owner: [0u8; 32],
        is_signer: true,
        data: Vec::new(),
    }
}

fn fresh_campaign_accounts(authority_key: [u8; 32]) -> (Account, Account) {
    let (record_key, _bump) = derive_campaign_address(&authority_key, &PROGRAM_ID).unwrap();
    let (vault_key, _vault_bump) = derive_vault_address(&record_key, &PROGRAM_ID).unwrap();
    let record = Account {
        key: record_key,
        lamports: 0,
        owner: [0u8; 32],
        is_signer: false,
        data: Vec::new(),
    };
    let vault = Account {
        key: vault_key,
        lamports: 0,
        owner: [0u8; 32],
        is_signer: false,
        data: Vec::new(),
    };
    (record, vault)
}

fn description_bytes(text: &str) -> [u8; 200] {
    let mut d = [0u8; 200];
    d[..text.len()].copy_from_slice(text.as_bytes());
    d
}

#[test]
fn test_derivation_is_deterministic() {
    let a = derive_campaign_address(&[1u8; 32], &PROGRAM_ID).unwrap();
    let b = derive_campaign_address(&[1u8; 32], &PROGRAM_ID).unwrap();
    assert_eq!(a, b);
    let v1 = derive_vault_address(&a.0, &PROGRAM_ID).unwrap();
    let v2 = derive_vault_address(&a.0, &PROGRAM_ID).unwrap();
    assert_eq!(v1, v2);
    assert_ne!(a.0, v1.0);
}

#[test]
fn test_init_creates_record() {
    let mut authority = wallet([1u8; 32], 10_000_000);
    let (mut record, mut vault) = fresh_campaign_accounts(authority.key);
    let r = Processor::process_init_campaign(
        &mut authority,
        &mut record,
        &mut vault,
        &PROGRAM_ID,
        1000,
        description_bytes("Help"),
    );
    assert_eq!(r, Ok(()));
    assert_eq!(authority.lamports, 10_000_000 - RECORD_RENT - VAULT_RENT);
    assert_eq!(record.lamports, RECORD_RENT);
    assert_eq!(record.owner, PROGRAM_ID);
    assert_eq!(record.data.len(), RECORD_LEN);
    assert_eq!(vault.lamports, VAULT_RENT);
    assert_eq!(vault.owner, PROGRAM_ID);
    assert!(vault.data.is_empty());
    let c = Campaign::unpack(record.data.as_slice()).unwrap();
    assert!(c.is_initialized);
    assert_eq!(c.authority, authority.key);
    assert_eq!(c.vault, vault.key);
    assert_eq!(c.description, description_bytes("Help"));
    assert_eq!(c.target, 1000);
    assert_eq!(c.amount_raised, 0);
}

#[test]
fn test_init_requires_signer() {
    let mut authority = wallet([1u8; 32], 10_000_000);
    authority.is_signer = false;
    let (mut record, mut vault) = fresh_campaign_accounts(authority.key);
    let r = Processor::process_init_campaign(
        &mut authority,
        &mut record,
        &mut vault,
        &PROGRAM_ID,
        1000,
        [0u8; 200],
    );
    assert_eq!(r, Err(CampaignError::MissingSignature));
    assert_eq!(authority.lamports, 10_000_000);
    assert!(record.data.is_empty());
}

#[test]
fn test_init_wrong_record_address() {
    let mut authority = wallet([1u8; 32], 10_000_000);
    let (mut record, mut vault) = fresh_campaign_accounts(authority.key);
    record.key = [3u8; 32];
    let r = Processor::process_init_campaign(
        &mut authority,
        &mut record,
        &mut vault,
        &PROGRAM_ID,
        1000,
        [0u8; 200],
    );
    assert_eq!(r, Err(CampaignError::AccountMismatch));
    assert_eq!(authority.lamports, 10_000_000);
}

#[test]
fn test_init_wrong_vault_address() {
    let mut authority = wallet([1u8; 32], 10_000_000);
    let (mut record, mut vault) = fresh_campaign_accounts(authority.key);
    vault.key = [4u8; 32];
    let r = Processor::process_init_campaign(
        &mut authority,
        &mut record,
        &mut vault,
        &PROGRAM_ID,
        1000,
        [0u8; 200],
    );
    assert_eq!(r, Err(CampaignError::AccountMismatch));
}

#[test]
fn test_init_twice_fails() {
    let mut authority = wallet([1u8; 32], 10_000_000);
    let (mut record, mut vault) = fresh_campaign_accounts(authority.key);
    Processor::process_init_campaign(
        &mut authority,
        &mut record,
        &mut vault,
        &PROGRAM_ID,
        1000,
        [0u8; 200],
    )
    .unwrap();
    let record_before = record.data.clone();
    let r = Processor::process_init_campaign(
        &mut authority,
        &mut record,
        &mut vault,
        &PROGRAM_ID,
        2000,
        [1u8; 200],
    );
    assert_eq!(r, Err(CampaignError::AccountAlreadyInitialized));
    assert_eq!(record.data, record_before);
    assert_eq!(record.lamports, RECORD_RENT);
}

#[test]
fn test_init_insufficient_funds() {
    let mut authority = wallet([1u8; 32], RECORD_RENT + VAULT_RENT - 1);
    let (mut record, mut vault) = fresh_campaign_accounts(authority.key);
    let r = Processor::process_init_campaign(
        &mut authority,
        &mut record,
        &mut vault,
        &PROGRAM_ID,
        1000,
        [0u8; 200],
    );
    assert_eq!(r, Err(CampaignError::InsufficientFunds));
    assert_eq!(authority.lamports, RECORD_RENT + VAULT_RENT - 1);
    assert_eq!(record.lamports, 0);
    assert_eq!(vault.lamports, 0);
}

#[test]
fn test_donate_accumulates() {
    let mut authority = wallet([1u8; 32], 10_000_000);
    let (mut record, mut vault) = fresh_campaign_accounts(authority.key);
    Processor::process_init_campaign(
        &mut authority,
        &mut record,
        &mut vault,
        &PROGRAM_ID,
        1000,
        description_bytes("Help"),
    )
    .unwrap();
    let mut donor_b = wallet([2u8; 32], 5_000);
    let mut donor_c = wallet([3u8; 32], 5_000);
    let r = Processor::process_donate(&mut donor_b, &mut record, &mut vault, &PROGRAM_ID, 300);
    assert_eq!(r, Ok(()));
    let r = Processor::process_donate(&mut donor_c, &mut record, &mut vault, &PROGRAM_ID, 250);
    assert_eq!(r, Ok(()));
    assert_eq!(donor_b.lamports, 4_700);
    assert_eq!(donor_c.lamports, 4_750);
    assert_eq!(vault.lamports, VAULT_RENT + 550);
    let c = Campaign::unpack(record.data.as_slice()).unwrap();
    assert_eq!(c.amount_raised, 550);
}

#[test]
fn test_donate_requires_signer() {
    let mut authority = wallet([1u8; 32], 10_000_000);
    let (mut record, mut vault) = fresh_campaign_accounts(authority.key);
    Processor::process_init_campaign(
        &mut authority,
        &mut record,
        &mut vault,
        &PROGRAM_ID,
        1000,
        [0u8; 200],
    )
    .unwrap();
    let mut donor = wallet([2u8; 32], 5_000);
    donor.is_signer = false;
    let r = Processor::process_donate(&mut donor, &mut record, &mut vault, &PROGRAM_ID, 300);
    assert_eq!(r, Err(CampaignError::MissingSignature));
    assert_eq!(donor.lamports, 5_000);
    assert_eq!(vault.lamports, VAULT_RENT);
}

#[test]
fn test_donate_wrong_owner() {
    let mut authority = wallet([1u8; 32], 10_000_000);
    let (mut record, mut vault) = fresh_campaign_accounts(authority.key);
    Processor::process_init_campaign(
        &mut authority,
        &mut record,
        &mut vault,
        &PROGRAM_ID,
        1000,
        [0u8; 200],
    )
    .unwrap();
    record.owner = [5u8; 32];
    let mut donor = wallet([2u8; 32], 5_000);
    let r = Processor::process_donate(&mut donor, &mut record, &mut vault, &PROGRAM_ID, 300);
    assert_eq!(r, Err(CampaignError::WrongOwner));
}

#[test]
fn test_donate_uninitialized_record() {
    let mut record = Account {
        key: [6u8; 32],
        lamports: RECORD_RENT,
        owner: PROGRAM_ID,
        is_signer: false,
        data: vec![0u8; RECORD_LEN],
    };
    let mut vault = Account {
        key: [7u8; 32],
        lamports: 0,
        owner: PROGRAM_ID,
        is_signer: false,
        data: Vec::new(),
    };
    let mut donor = wallet([2u8; 32], 5_000);
    let r = Processor::process_donate(&mut donor, &mut record, &mut vault, &PROGRAM_ID, 300);
    assert_eq!(r, Err(CampaignError::AccountDataError));
}

#[test]
fn test_donate_wrong_vault() {
    let mut authority = wallet([1u8; 32], 10_000_000);
    let (mut record, mut vault) = fresh_campaign_accounts(authority.key);
    Processor::process_init_campaign(
        &mut authority,
        &mut record,
        &mut vault,
        &PROGRAM_ID,
        1000,
        [0u8; 200],
    )
    .unwrap();
    let record_before = record.data.clone();
    let mut decoy = Account {
        key: [8u8; 32],
        lamports: 77,
        owner: PROGRAM_ID,
        is_signer: false,
        data: Vec::new(),
    };
    let mut donor = wallet([2u8; 32], 5_000);
    let r = Processor::process_donate(&mut donor, &mut record, &mut decoy, &PROGRAM_ID, 300);
    assert_eq!(r, Err(CampaignError::AccountMismatch));
    assert_eq!(record.data, record_before);
    assert_eq!(donor.lamports, 5_000);
    assert_eq!(decoy.lamports, 77);
}

#[test]
fn test_donate_overflow_leaves_total_unchanged() {
    let near_max = u64::MAX - 100;
    let campaign = Campaign {
        is_initialized: true,
        authority: [1u8; 32],
        vault: [7u8; 32],
        description: [0u8; 200],
        target: 1000,
        amount_raised: near_max,
        bump: 255,
    };
    let mut data = vec![0u8; RECORD_LEN];
    campaign.pack_into_slice(&mut data);
    let mut record = Account {
        key: [6u8; 32],
        lamports: RECORD_RENT,
        owner: PROGRAM_ID,
        is_signer: false,
        data,
    };
    let mut vault = Account {
        key: [7u8; 32],
        lamports: 500,
        owner: PROGRAM_ID,
        is_signer: false,
        data: Vec::new(),
    };
    let mut donor = wallet([2u8; 32], 5_000);
    let r = Processor::process_donate(&mut donor, &mut record, &mut vault, &PROGRAM_ID, 200);
    assert_eq!(r, Err(CampaignError::Overflow));
    let c = Campaign::unpack(record.data.as_slice()).unwrap();
    assert_eq!(c.amount_raised, near_max);
    assert_eq!(donor.lamports, 5_000);
    assert_eq!(vault.lamports, 500);
}

#[test]
fn test_withdraw_wrong_authority() {
    let mut authority = wallet([1u8; 32], 10_000_000);
    let (mut record, mut vault) = fresh_campaign_accounts(authority.key);
    Processor::process_init_campaign(
        &mut authority,
        &mut record,
        &mut vault,
        &PROGRAM_ID,
        1000,
        [0u8; 200],
    )
    .unwrap();
    // An intruder parks the authority's record bytes at its own derived
    // address: the stored authority still names someone else.
    let mut intruder = wallet([2u8; 32], 1_000);
    let (mut forged_record, _) = fresh_campaign_accounts(intruder.key);
    forged_record.lamports = record.lamports;
    forged_record.owner = PROGRAM_ID;
    forged_record.data = record.data.clone();
    let before = forged_record.data.clone();
    let r = Processor::process_withdraw(&mut intruder, &mut forged_record, &mut vault, &PROGRAM_ID);
    assert_eq!(r, Err(CampaignError::WrongAuthority));
    assert_eq!(intruder.lamports, 1_000);
    assert_eq!(forged_record.data, before);
    assert_eq!(vault.lamports, VAULT_RENT);
}

#[test]
fn test_withdraw_wrong_record_address() {
    let mut authority = wallet([1u8; 32], 10_000_000);
    let (mut record, mut vault) = fresh_campaign_accounts(authority.key);
    Processor::process_init_campaign(
        &mut authority,
        &mut record,
        &mut vault,
        &PROGRAM_ID,
        1000,
        [0u8; 200],
    )
    .unwrap();
    record.key = [3u8; 32];
    let r = Processor::process_withdraw(&mut authority, &mut record, &mut vault, &PROGRAM_ID);
    assert_eq!(r, Err(CampaignError::AccountMismatch));
}

#[test]
fn test_withdraw_bump_mismatch() {
    let mut authority = wallet([1u8; 32], 10_000_000);
    let (mut record, mut vault) = fresh_campaign_accounts(authority.key);
    Processor::process_init_campaign(
        &mut authority,
        &mut record,
        &mut vault,
        &PROGRAM_ID,
        1000,
        [0u8; 200],
    )
    .unwrap();
    let mut c = Campaign::unpack(record.data.as_slice()).unwrap();
    c.bump = c.bump.wrapping_add(1);
    c.pack_into_slice(&mut record.data);
    let r = Processor::process_withdraw(&mut authority, &mut record, &mut vault, &PROGRAM_ID);
    assert_eq!(r, Err(CampaignError::AccountMismatch));
    assert_eq!(vault.lamports, VAULT_RENT);
}

#[test]
fn test_full_campaign_flow() {
    let mut authority = wallet([1u8; 32], 10_000_000);
    let (mut record, mut vault) = fresh_campaign_accounts(authority.key);
    Processor::process_init_campaign(
        &mut authority,
        &mut record,
        &mut vault,
        &PROGRAM_ID,
        1000,
        description_bytes("Help"),
    )
    .unwrap();
    let mut donor_b = wallet([2u8; 32], 5_000);
    let mut donor_c = wallet([3u8; 32], 5_000);
    Processor::process_donate(&mut donor_b, &mut record, &mut vault, &PROGRAM_ID, 300).unwrap();
    Processor::process_donate(&mut donor_c, &mut record, &mut vault, &PROGRAM_ID, 250).unwrap();
    let c = Campaign::unpack(record.data.as_slice()).unwrap();
    assert_eq!(c.amount_raised, 550);
    let authority_before = authority.lamports;
    let vault_balance = vault.lamports;
    let record_balance = record.lamports;
    let r = Processor::process_withdraw(&mut authority, &mut record, &mut vault, &PROGRAM_ID);
    assert_eq!(r, Ok(()));
    assert_eq!(authority.lamports, authority_before + vault_balance + record_balance);
    assert_eq!(vault.lamports, 0);
    assert_eq!(record.lamports, 0);
    assert!(record.data.iter().all(|b| *b == 0));
    assert!(matches!(
        Campaign::unpack(record.data.as_slice()),
        Err(CampaignError::AccountDataError)
    ));
}

#[test]
fn test_process_dispatches_wire_requests() {
    let mut authority = wallet([1u8; 32], 10_000_000);
    let (mut record, mut vault) = fresh_campaign_accounts(authority.key);
    let mut init = vec![0u8];
    init.extend_from_slice(&1000u64.to_le_bytes());
    init.extend_from_slice(&description_bytes("Help"));
    Processor::process(
        &PROGRAM_ID,
        &mut authority,
        &mut record,
        &mut vault,
        init.as_slice(),
    )
    .unwrap();
    let mut donor = wallet([2u8; 32], 5_000);
    let mut donate = vec![1u8];
    donate.extend_from_slice(&550u64.to_le_bytes());
    Processor::process(
        &PROGRAM_ID,
        &mut donor,
        &mut record,
        &mut vault,
        donate.as_slice(),
    )
    .unwrap();
    let c = Campaign::unpack(record.data.as_slice()).unwrap();
    assert_eq!(c.amount_raised, 550);
    let before = authority.lamports;
    Processor::process(
        &PROGRAM_ID,
        &mut authority,
        &mut record,
        &mut vault,
        &[2u8],
    )
    .unwrap();
    assert_eq!(authority.lamports, before + VAULT_RENT + 550 + RECORD_RENT);
    assert_eq!(record.lamports, 0);
}

#[test]
fn test_process_rejects_malformed_request() {
    let mut authority = wallet([1u8; 32], 10_000_000);
    let (mut record, mut vault) = fresh_campaign_accounts(authority.key);
    let r = Processor::process(
        &PROGRAM_ID,
        &mut authority,
        &mut record,
        &mut vault,
        &[9u8],
    );
    assert_eq!(r, Err(CampaignError::InvalidInstruction));
    assert_eq!(authority.lamports, 10_000_000);
}
