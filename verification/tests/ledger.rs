use tokenvesting::calculator::withdrawable_amount;
use tokenvesting::errors::VestingError;
use tokenvesting::ledger::VestingLedger;
use tokenvesting::records::{ConfigId, GrantId};

const OWNER: u64 = 11;
const MINT: u64 = 22;
const TREASURY: u64 = 33;
const BENEFICIARY: u64 = 44;

fn ledger_with_config(name: &[u8]) -> (VestingLedger, ConfigId) {
    let mut l = VestingLedger::new();
    let id = l.create_config(OWNER, MINT, TREASURY, name.to_vec()).unwrap();
    (l, id)
}

fn ledger_with_grant() -> (VestingLedger, GrantId) {
    let (mut l, cfg) = ledger_with_config(b"Acme");
    let gid = l
        .create_grant(OWNER, &cfg, BENEFICIARY, 0, 100, 1000, 1000)
        .unwrap();
    (l, gid)
}

#[test]
fn create_config_stores_the_record() {
    let (l, id) = ledger_with_config(b"Acme");
    assert_eq!(id.name, b"Acme".to_vec());
    let c = l.get_config(&id).unwrap();
    assert_eq!(c.owner, OWNER);
    assert_eq!(c.token_mint, MINT);
    assert_eq!(c.treasury_account, TREASURY);
    assert_eq!(c.company_name, b"Acme".to_vec());
}

#[test]
fn duplicate_config_fails_the_second_time() {
    let (mut l, _) = ledger_with_config(b"Acme");
    let second = l.create_config(OWNER, MINT, TREASURY, b"Acme".to_vec());
    assert_eq!(second.unwrap_err(), VestingError::DuplicateConfig);
    // a different name is still fine
    assert!(l.create_config(OWNER, MINT, TREASURY, b"Globex".to_vec()).is_ok());
}

#[test]
fn empty_config_name_is_invalid() {
    let mut l = VestingLedger::new();
    let r = l.create_config(OWNER, MINT, TREASURY, Vec::new());
    assert_eq!(r.unwrap_err(), VestingError::InvalidInput);
}

#[test]
fn oversized_config_name_is_invalid() {
    let mut l = VestingLedger::new();
    let thirty = vec![b'x'; 30];
    assert!(l.create_config(OWNER, MINT, TREASURY, thirty).is_ok());
    let thirty_one = vec![b'y'; 31];
    let r = l.create_config(OWNER, MINT, TREASURY, thirty_one);
    assert_eq!(r.unwrap_err(), VestingError::InvalidInput);
}

#[test]
fn create_grant_by_non_owner_is_unauthorized() {
    let (mut l, cfg) = ledger_with_config(b"Acme");
    let r = l.create_grant(OWNER + 1, &cfg, BENEFICIARY, 0, 100, 1000, 1000);
    assert_eq!(r.unwrap_err(), VestingError::Unauthorized);
}

#[test]
fn create_grant_under_missing_config_is_not_found() {
    let (mut l, _) = ledger_with_config(b"Acme");
    let ghost_cfg = ConfigId { name: b"Globex".to_vec() };
    let r = l.create_grant(OWNER, &ghost_cfg, BENEFICIARY, 0, 100, 1000, 1000);
    assert_eq!(r.unwrap_err(), VestingError::NotFound);
}

#[test]
fn create_grant_rejects_unordered_schedule() {
    let (mut l, cfg) = ledger_with_config(b"Acme");
    let cliff_before_start = l.create_grant(OWNER, &cfg, BENEFICIARY, 100, 50, 1000, 1000);
    assert_eq!(cliff_before_start.unwrap_err(), VestingError::InvalidSchedule);
    let end_before_cliff = l.create_grant(OWNER, &cfg, BENEFICIARY, 0, 100, 99, 1000);
    assert_eq!(end_before_cliff.unwrap_err(), VestingError::InvalidSchedule);
}

#[test]
fn create_grant_rejects_negative_total() {
    let (mut l, cfg) = ledger_with_config(b"Acme");
    let r = l.create_grant(OWNER, &cfg, BENEFICIARY, 0, 100, 1000, -1);
    assert_eq!(r.unwrap_err(), VestingError::InvalidInput);
}

#[test]
fn duplicate_grant_fails_the_second_time() {
    let (mut l, gid) = ledger_with_grant();
    assert_eq!(gid.config_name, b"Acme".to_vec());
    assert_eq!(gid.beneficiary, BENEFICIARY);
    let cfg = ConfigId { name: b"Acme".to_vec() };
    let again = l.create_grant(OWNER, &cfg, BENEFICIARY, 5, 105, 1005, 500);
    assert_eq!(again.unwrap_err(), VestingError::DuplicateGrant);
    // the same config may still grant to another beneficiary
    assert!(l.create_grant(OWNER, &cfg, BENEFICIARY + 1, 0, 100, 1000, 500).is_ok());
}

#[test]
fn created_grant_starts_with_nothing_withdrawn() {
    let (l, gid) = ledger_with_grant();
    let g = l.get_grant(&gid).unwrap();
    assert_eq!(g.beneficiary, BENEFICIARY);
    assert_eq!(g.start_time, 0);
    assert_eq!(g.cliff_time, 100);
    assert_eq!(g.end_time, 1000);
    assert_eq!(g.total_amount, 1000);
    assert_eq!(g.withdrawn_amount, 0);
    assert_eq!(g.config_name, b"Acme".to_vec());
}

#[test]
fn withdrawal_on_missing_grant_is_not_found() {
    let mut l = VestingLedger::new();
    let gid = GrantId { config_name: b"Acme".to_vec(), beneficiary: BENEFICIARY };
    let r = l.record_withdrawal(&gid, 550, 10);
    assert_eq!(r.unwrap_err(), VestingError::NotFound);
}

#[test]
fn negative_withdrawal_is_invalid() {
    let (mut l, gid) = ledger_with_grant();
    let r = l.record_withdrawal(&gid, 550, -5);
    assert_eq!(r.unwrap_err(), VestingError::InvalidInput);
}

#[test]
fn withdrawal_before_cliff_is_refused() {
    let (mut l, gid) = ledger_with_grant();
    let r = l.withdraw(&gid, 50, 1);
    assert_eq!(r, Err(VestingError::InsufficientUnlocked));
    assert_eq!(l.get_grant(&gid).unwrap().withdrawn_amount, 0);
}

#[test]
fn withdrawal_never_exceeds_unlocked() {
    let (mut l, gid) = ledger_with_grant();
    // at now = 550 exactly 550 is unlocked
    let too_much = l.withdraw(&gid, 550, 551);
    assert_eq!(too_much, Err(VestingError::InsufficientUnlocked));
    assert_eq!(l.get_grant(&gid).unwrap().withdrawn_amount, 0);
    assert_eq!(l.withdraw(&gid, 550, 200), Ok(200));
    let g = l.get_grant(&gid).unwrap();
    assert_eq!(g.withdrawn_amount, 200);
    assert!(g.withdrawn_amount <= 550);
    // the remainder is still available, but not more
    assert_eq!(withdrawable_amount(l.get_grant(&gid).unwrap(), 550), 350);
    assert_eq!(l.withdraw(&gid, 550, 351), Err(VestingError::InsufficientUnlocked));
    assert_eq!(l.withdraw(&gid, 550, 350), Ok(350));
    assert_eq!(l.get_grant(&gid).unwrap().withdrawn_amount, 550);
}

#[test]
fn full_amount_attempts_have_a_single_winner() {
    let (mut l, gid) = ledger_with_grant();
    let full = withdrawable_amount(l.get_grant(&gid).unwrap(), 550);
    assert_eq!(full, 550);
    let mut successes = 0;
    let mut refusals = 0;
    let mut attempt = 0;
    while attempt < 5 {
        match l.withdraw(&gid, 550, full) {
            Ok(paid) => {
                assert_eq!(paid, full);
                successes += 1;
            }
            Err(e) => {
                assert_eq!(e, VestingError::InsufficientUnlocked);
                refusals += 1;
            }
        }
        attempt += 1;
    }
    assert_eq!(successes, 1);
    assert_eq!(refusals, 4);
}

#[test]
fn fully_vested_grant_pays_out_and_stays_queryable() {
    let (mut l, gid) = ledger_with_grant();
    assert_eq!(l.withdraw(&gid, 2000, 1000), Ok(1000));
    let g = l.get_grant(&gid).unwrap();
    assert_eq!(g.withdrawn_amount, 1000);
    assert_eq!(withdrawable_amount(g, 2000), 0);
    assert_eq!(l.withdraw(&gid, 2000, 1), Err(VestingError::InsufficientUnlocked));
}

#[test]
fn zero_amount_withdrawal_succeeds_and_changes_nothing() {
    let (mut l, gid) = ledger_with_grant();
    assert_eq!(l.withdraw(&gid, 550, 0), Ok(0));
    assert_eq!(l.get_grant(&gid).unwrap().withdrawn_amount, 0);
}
