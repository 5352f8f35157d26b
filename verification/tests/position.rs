use staking::Address;
use staking::ErrorCode;
use staking::UserStake;

fn key(byte: u8) -> Address {
    Address::new([byte; 32])
}

#[test]
fn a_new_position_is_empty() {
    let p = UserStake::open(key(1), key(2), 77);
    assert_eq!(p.user, key(1));
    assert_eq!(p.pool, key(2));
    assert_eq!(p.amount, 0);
    assert_eq!(p.last_update, 77);
    assert_eq!(p.rewards, 0);
}

#[test]
fn apply_stake_adds_and_restarts_accrual() {
    let mut p = UserStake::open(key(1), key(2), 0);
    assert_eq!(p.apply_stake(500, 10), Ok(()));
    assert_eq!(p.amount, 500);
    assert_eq!(p.last_update, 10);
    assert_eq!(p.apply_stake(250, 20), Ok(()));
    assert_eq!(p.amount, 750);
    assert_eq!(p.last_update, 20);
    assert_eq!(p.rewards, 0);
    assert_eq!(p.user, key(1));
    assert_eq!(p.pool, key(2));
}

#[test]
fn apply_stake_resets_unclaimed_reward() {
    let mut p = UserStake { user: key(1), pool: key(2), amount: 10, last_update: 5, rewards: 9 };
    assert_eq!(p.apply_stake(1, 6), Ok(()));
    assert_eq!(p.rewards, 0);
    assert_eq!(p.amount, 11);
}

#[test]
fn apply_stake_refuses_a_principal_beyond_64_bits() {
    let mut p = UserStake { user: key(1), pool: key(2), amount: u64::MAX - 4, last_update: 5, rewards: 3 };
    let before = p;
    assert_eq!(p.apply_stake(5, 9), Err(ErrorCode::ArithmeticOverflow));
    assert_eq!(p, before);
    assert_eq!(p.apply_stake(4, 9), Ok(()));
    assert_eq!(p.amount, u64::MAX);
}

#[test]
fn apply_unstake_pays_principal_and_reward() {
    let mut p = UserStake { user: key(1), pool: key(2), amount: 1_000_000, last_update: 0, rewards: 0 };
    assert_eq!(p.apply_unstake(1_000_000, 31_536_000, 5), Ok(1_050_000));
    assert_eq!(p.amount, 0);
    assert_eq!(p.last_update, 31_536_000);
    assert_eq!(p.rewards, 0);
}

#[test]
fn a_partial_unstake_earns_on_the_whole_principal() {
    let mut p = UserStake { user: key(1), pool: key(2), amount: 1_000_000, last_update: 0, rewards: 0 };
    assert_eq!(p.apply_unstake(1, 31_536_000, 5), Ok(50_001));
    assert_eq!(p.amount, 999_999);
    assert_eq!(p.last_update, 31_536_000);
    // The interval starts anew: nothing more has accrued at the same instant.
    assert_eq!(p.apply_unstake(999_999, 31_536_000, 5), Ok(999_999));
    assert_eq!(p.amount, 0);
}

#[test]
fn apply_unstake_refuses_more_than_is_staked() {
    let mut p = UserStake { user: key(1), pool: key(2), amount: 50, last_update: 3, rewards: 0 };
    let before = p;
    assert_eq!(p.apply_unstake(100, 10, 5), Err(ErrorCode::InsufficientStake));
    assert_eq!(p, before);
    assert_eq!(p.apply_unstake(51, 10, 5), Err(ErrorCode::InsufficientStake));
    assert_eq!(p, before);
}

#[test]
fn apply_unstake_refuses_nothing() {
    let mut p = UserStake { user: key(1), pool: key(2), amount: 50, last_update: 3, rewards: 0 };
    let before = p;
    assert_eq!(p.apply_unstake(0, 10, 5), Err(ErrorCode::InsufficientStake));
    assert_eq!(p, before);
    let mut empty = UserStake::open(key(1), key(2), 0);
    assert_eq!(empty.apply_unstake(0, 10, 5), Err(ErrorCode::InsufficientStake));
    assert_eq!(empty.apply_unstake(1, 10, 5), Err(ErrorCode::InsufficientStake));
}

#[test]
fn apply_unstake_refuses_a_payout_beyond_64_bits() {
    let mut p = UserStake { user: key(1), pool: key(2), amount: u64::MAX, last_update: 0, rewards: 0 };
    let before = p;
    // The reward alone is u64::MAX after a year at 100 percent.
    assert_eq!(p.apply_unstake(1, 31_536_000, 100), Err(ErrorCode::ArithmeticOverflow));
    assert_eq!(p, before);
    assert_eq!(p.apply_unstake(u64::MAX, 31_536_000, 100), Err(ErrorCode::ArithmeticOverflow));
    assert_eq!(p, before);
    // With no time gone the whole principal can be had.
    assert_eq!(p.apply_unstake(u64::MAX, 0, 100), Ok(u64::MAX));
    assert_eq!(p.amount, 0);
}

#[test]
fn a_clock_that_went_back_pays_principal_only() {
    let mut p = UserStake { user: key(1), pool: key(2), amount: 1_000_000, last_update: 1_000, rewards: 0 };
    assert_eq!(p.apply_unstake(400_000, 10, 100), Ok(400_000));
    assert_eq!(p.amount, 600_000);
    assert_eq!(p.last_update, 10);
}

#[test]
fn stake_then_unstake_at_the_same_instant_returns_the_principal() {
    let mut p = UserStake { user: key(1), pool: key(2), amount: 70, last_update: 0, rewards: 0 };
    assert_eq!(p.apply_stake(1_000, 31_536_000), Ok(()));
    assert_eq!(p.apply_unstake(1_000, 31_536_000, 100), Ok(1_000));
    assert_eq!(p.amount, 70);
}
