use lucia_vesting::clock::MAX_TIMESTAMP;
use lucia_vesting::{
    initialize, release_lucia_vesting, Beneficiary, DataAccount, Initialize, Pubkey, Release,
    VestingError, MAX_BENEFICIARIES,
};

fn id(tag: u8) -> Pubkey {
    Pubkey { bytes: [tag; 32] }
}

fn holder(tag: u8) -> Beneficiary {
    Beneficiary {
        key: id(tag),
        allocated_tokens: 1_000_000,
        claimed_tokens: 0,
        unlock_tge: 10,
        lockup_period: 3_600,
        unlock_duration: 86_400,
        vesting_end_month: 12,
        confirm_round: 0,
    }
}

fn setup_request() -> Initialize {
    Initialize {
        sender: id(200),
        escrow_wallet: id(201),
        token_mint: id(202),
        mint_decimals: 6,
        wallet_amount: 5_000_000,
    }
}

fn fresh_account(beneficiaries: Vec<Beneficiary>) -> DataAccount {
    initialize(&setup_request(), beneficiaries, 5_000_000, 6).unwrap().0
}

#[test]
fn setup_creates_a_pending_account() {
    let list = vec![holder(1), holder(2)];
    let (account, deposit) = initialize(&setup_request(), list.clone(), 5_000_000, 6).unwrap();
    assert_eq!(deposit, 5_000_000_000_000);
    assert_eq!(
        account,
        DataAccount {
            state: 0,
            token_amount: 5_000_000,
            initializer: id(200),
            escrow_wallet: id(201),
            token_mint: id(202),
            initialized_at: 0,
            beneficiaries: list,
            decimals: 6,
            is_initialized: 1,
            contract_end_month: 0,
        }
    );
    assert!(account.is_well_formed());
}

#[test]
fn setup_rejects_other_decimals() {
    assert_eq!(
        initialize(&setup_request(), vec![holder(1)], 5_000_000, 9),
        Err(VestingError::InvalidDecimals)
    );
}

#[test]
fn setup_rejects_an_amount_beyond_the_wallet() {
    assert_eq!(
        initialize(&setup_request(), vec![holder(1)], 5_000_001, 6),
        Err(VestingError::InsufficientFunds)
    );
}

#[test]
fn setup_holds_at_most_fifty_beneficiaries() {
    assert_eq!(MAX_BENEFICIARIES, 50);
    let fifty: Vec<Beneficiary> = (0..50).map(holder).collect();
    assert!(initialize(&setup_request(), fifty, 1, 6).is_ok());
    let fifty_one: Vec<Beneficiary> = (0..51).map(holder).collect();
    assert_eq!(
        initialize(&setup_request(), fifty_one, 1, 6),
        Err(VestingError::TooManyBeneficiaries)
    );
}

#[test]
fn setup_rejects_a_schedule_without_rounds() {
    let broken = Beneficiary { vesting_end_month: 0, ..holder(2) };
    assert_eq!(
        initialize(&setup_request(), vec![holder(1), broken], 1, 6),
        Err(VestingError::InvalidArgument)
    );
}

#[test]
fn setup_rejects_values_beyond_signed_range() {
    for broken in [
        Beneficiary { allocated_tokens: 1 << 63, ..holder(1) },
        Beneficiary { unlock_duration: 1 << 63, ..holder(1) },
        Beneficiary { vesting_end_month: 1 << 63, ..holder(1) },
        Beneficiary { lockup_period: -1, ..holder(1) },
        Beneficiary { unlock_tge: 101, ..holder(1) },
    ] {
        assert!(!broken.is_valid());
        assert_eq!(
            initialize(&setup_request(), vec![broken], 1, 6),
            Err(VestingError::InvalidArgument)
        );
    }
    let widest = Beneficiary {
        allocated_tokens: i64::MAX as u64,
        unlock_duration: i64::MAX as u64,
        vesting_end_month: i64::MAX as u64,
        lockup_period: i64::MAX,
        unlock_tge: 100,
        ..holder(1)
    };
    assert!(widest.is_valid());
    assert!(initialize(&setup_request(), vec![widest], 1, 6).is_ok());
}

#[test]
fn setup_rejects_a_deposit_that_overflows() {
    let ctx = Initialize { mint_decimals: 19, wallet_amount: u64::MAX, ..setup_request() };
    assert_eq!(initialize(&ctx, vec![holder(1)], 1, 19).unwrap().1, 10_000_000_000_000_000_000);
    assert_eq!(initialize(&ctx, vec![holder(1)], 2, 19), Err(VestingError::Overflow));
}

#[test]
fn setup_checks_in_order() {
    let broken = Beneficiary { vesting_end_month: 0, ..holder(1) };
    let crowd: Vec<Beneficiary> = (0..51).map(|_| broken).collect();
    let ctx = Initialize { wallet_amount: 10, ..setup_request() };
    assert_eq!(initialize(&ctx, crowd.clone(), 11, 7), Err(VestingError::InvalidDecimals));
    assert_eq!(initialize(&ctx, crowd.clone(), 11, 6), Err(VestingError::InsufficientFunds));
    assert_eq!(initialize(&ctx, crowd, 10, 6), Err(VestingError::TooManyBeneficiaries));
}

#[test]
fn release_activates_once() {
    let mut account = fresh_account(vec![holder(1)]);
    let before = account.clone();
    let ctx = Release { sender: id(200), current_time: 1_700_000_000 };
    assert_eq!(release_lucia_vesting(&ctx, &mut account, 1), Ok(()));
    assert_eq!(
        account,
        DataAccount { state: 1, initialized_at: 1_700_000_000, ..before }
    );
    assert!(account.is_well_formed());

    let released = account.clone();
    let again = Release { sender: id(200), current_time: 1_800_000_000 };
    assert_eq!(
        release_lucia_vesting(&again, &mut account, 2),
        Err(VestingError::AlreadyInitialized)
    );
    assert_eq!(account, released);
}

#[test]
fn release_keeps_the_state_it_is_given() {
    let mut account = fresh_account(vec![holder(1)]);
    let ctx = Release { sender: id(200), current_time: 0 };
    assert_eq!(release_lucia_vesting(&ctx, &mut account, 7), Ok(()));
    assert_eq!(account.state, 7);
    assert_eq!(account.initialized_at, 0);
}

#[test]
fn release_by_another_sender_is_rejected() {
    let mut account = fresh_account(vec![holder(1)]);
    let before = account.clone();
    let ctx = Release { sender: id(1), current_time: 1_700_000_000 };
    assert_eq!(release_lucia_vesting(&ctx, &mut account, 1), Err(VestingError::InvalidSender));
    assert_eq!(account, before);
}

#[test]
fn release_rejects_state_zero_and_negative_time() {
    let mut account = fresh_account(vec![holder(1)]);
    let before = account.clone();
    let ctx = Release { sender: id(200), current_time: 1_700_000_000 };
    assert_eq!(release_lucia_vesting(&ctx, &mut account, 0), Err(VestingError::InvalidArgument));
    let ctx = Release { sender: id(200), current_time: -1 };
    assert_eq!(release_lucia_vesting(&ctx, &mut account, 1), Err(VestingError::InvalidArgument));
    assert_eq!(account, before);
}

#[test]
fn release_rejects_schedules_beyond_the_calendar() {
    let span = 3_600 + 86_400;
    let mut account = fresh_account(vec![holder(1), holder(2)]);
    let before = account.clone();
    let late = Release { sender: id(200), current_time: MAX_TIMESTAMP - span + 1 };
    assert_eq!(release_lucia_vesting(&late, &mut account, 1), Err(VestingError::InvalidArgument));
    assert_eq!(account, before);
    let last = Release { sender: id(200), current_time: MAX_TIMESTAMP - span };
    assert_eq!(release_lucia_vesting(&last, &mut account, 1), Ok(()));
    assert!(account.beneficiaries[0].ends_in_time(account.initialized_at));
}

#[test]
fn release_rejects_an_account_that_is_not_well_formed() {
    let mut account = fresh_account(vec![holder(1)]);
    account.beneficiaries[0].vesting_end_month = 0;
    assert!(!account.is_well_formed());
    let ctx = Release { sender: id(200), current_time: 1_700_000_000 };
    assert_eq!(release_lucia_vesting(&ctx, &mut account, 1), Err(VestingError::InvalidArgument));
    assert_eq!(account.state, 0);
}

#[test]
fn well_formedness_is_tested_at_run_time() {
    let mut account = fresh_account(vec![holder(1)]);
    assert!(account.is_well_formed());
    account.state = 1;
    account.initialized_at = u64::MAX;
    assert!(!account.is_well_formed());
    account.initialized_at = (MAX_TIMESTAMP - 3_600 - 86_400) as u64;
    assert!(account.is_well_formed());
    account.initialized_at += 1;
    assert!(!account.is_well_formed());
    account.state = 0;
    assert!(account.is_well_formed());
    account.beneficiaries = (0..51).map(holder).collect();
    assert!(!account.is_well_formed());
}
