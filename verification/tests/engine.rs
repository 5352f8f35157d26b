use staking::Address;
use staking::Engine;
use staking::ErrorCode;
use staking::PoolState;
use staking::StakingPool;
use staking::UserStake;

const YEAR: i64 = 31_536_000;

fn key(byte: u8) -> Address {
    Address::new([byte; 32])
}

fn admin() -> Address {
    key(1)
}

fn running(apy: u8) -> (Engine, Address) {
    let mut engine = Engine::new();
    let pool_key = engine.initialize(admin(), key(2), key(3), apy, &key(9)).unwrap();
    (engine, pool_key)
}

fn total(engine: &Engine) -> u64 {
    match engine.state() {
        PoolState::Active(pool) => pool.total_staked,
        _ => panic!("the pool is not active"),
    }
}

#[test]
fn a_new_engine_has_no_pool() {
    let engine = Engine::new();
    assert_eq!(engine.state(), PoolState::Uninitialized);
    assert_eq!(engine.position(&key(10)), None);
}

#[test]
fn engine_initialize_creates_the_pool() {
    let mut engine = Engine::new();
    let pool_key = engine.initialize(admin(), key(2), key(3), 5, &key(9)).unwrap();
    assert_eq!(engine.address(), pool_key);
    match engine.state() {
        PoolState::Active(pool) => {
            assert_eq!(
                pool,
                StakingPool {
                    authority: admin(),
                    token_mint: key(2),
                    token_vault: key(3),
                    bump: pool.bump,
                    total_staked: 0,
                    apy: 5,
                }
            );
        }
        _ => panic!("the pool is not active"),
    }
}

#[test]
fn engine_initialize_refuses_a_second_pool() {
    let (mut engine, pool_key) = running(5);
    let before = engine.state();
    assert_eq!(
        engine.initialize(key(4), key(5), key(6), 7, &key(9)),
        Err(ErrorCode::AlreadyExists)
    );
    assert_eq!(engine.state(), before);
    assert_eq!(engine.address(), pool_key);
}

#[test]
fn engine_refuses_everything_before_the_pool_exists() {
    let mut engine = Engine::new();
    assert_eq!(engine.stake(key(10), 5, 0), Err(ErrorCode::PoolNotActive));
    assert_eq!(engine.unstake(key(10), 5, 0), Err(ErrorCode::PoolNotActive));
    assert_eq!(engine.close(admin(), 0), Err(ErrorCode::PoolNotActive));
    assert_eq!(engine.open_or_get_position(key(10), 0), Err(ErrorCode::PoolNotActive));
    assert_eq!(engine.state(), PoolState::Uninitialized);
    assert_eq!(engine.position(&key(10)), None);
}

#[test]
fn open_or_get_position_opens_once() {
    let (mut engine, pool_key) = running(5);
    let opened = engine.open_or_get_position(key(10), 40).unwrap();
    assert_eq!(
        opened,
        UserStake { user: key(10), pool: pool_key, amount: 0, last_update: 40, rewards: 0 }
    );
    assert_eq!(engine.position(&key(10)), Some(opened));
    assert_eq!(engine.open_or_get_position(key(10), 99), Ok(opened));
    assert_eq!(engine.stake(key(10), 25, 50), Ok(()));
    let staked = engine.open_or_get_position(key(10), 99).unwrap();
    assert_eq!(staked.amount, 25);
    assert_eq!(staked.last_update, 50);
    assert_eq!(engine.position(&key(11)), None);
    assert_eq!(total(&engine), 25);
}

#[test]
fn engine_pays_a_twentieth_on_top_after_one_year_at_five_percent() {
    let (mut engine, pool_key) = running(5);
    assert_eq!(engine.stake(key(10), 1_000_000, 0), Ok(()));
    assert_eq!(total(&engine), 1_000_000);
    assert_eq!(engine.unstake(key(10), 1_000_000, YEAR), Ok(1_050_000));
    assert_eq!(total(&engine), 0);
    assert_eq!(
        engine.position(&key(10)),
        Some(UserStake { user: key(10), pool: pool_key, amount: 0, last_update: YEAR, rewards: 0 })
    );
}

#[test]
fn engine_keeps_two_users_of_one_pool_apart() {
    let (mut engine, pool_key) = running(5);
    assert_eq!(engine.stake(key(10), 500, 0), Ok(()));
    assert_eq!(engine.stake(key(11), 300, 0), Ok(()));
    assert_eq!(total(&engine), 800);
    let y = engine.position(&key(11));
    assert_eq!(
        y,
        Some(UserStake { user: key(11), pool: pool_key, amount: 300, last_update: 0, rewards: 0 })
    );
    assert_eq!(engine.unstake(key(10), 500, 10), Ok(500));
    assert_eq!(engine.position(&key(11)), y);
    assert_eq!(total(&engine), 300);
    assert_eq!(engine.position(&key(10)).unwrap().amount, 0);
    // What Y earns is what Y alone would have earned.
    assert_eq!(engine.unstake(key(11), 300, YEAR), Ok(315));
    assert_eq!(total(&engine), 0);
}

#[test]
fn engine_refuses_an_unstake_beyond_the_position() {
    let (mut engine, _) = running(5);
    assert_eq!(engine.stake(key(10), 50, 0), Ok(()));
    assert_eq!(engine.stake(key(11), 500, 0), Ok(()));
    let before = (engine.state(), engine.position(&key(10)), engine.position(&key(11)));
    assert_eq!(engine.unstake(key(10), 100, 10), Err(ErrorCode::InsufficientStake));
    assert_eq!(
        (engine.state(), engine.position(&key(10)), engine.position(&key(11))),
        before
    );
    assert_eq!(engine.unstake(key(10), 0, 10), Err(ErrorCode::InsufficientStake));
    assert_eq!(engine.unstake(key(12), 1, 10), Err(ErrorCode::InsufficientStake));
    assert_eq!(engine.position(&key(12)), None);
    assert_eq!(
        (engine.state(), engine.position(&key(10)), engine.position(&key(11))),
        before
    );
}

#[test]
fn engine_close_hands_the_dust_to_the_administrator() {
    let (mut engine, _) = running(5);
    assert_eq!(engine.stake(key(10), 1_000, 0), Ok(()));
    assert_eq!(engine.unstake(key(10), 1_000, 0), Ok(1_000));
    assert_eq!(engine.close(admin(), 3), Ok(Some(3)));
    assert_eq!(engine.state(), PoolState::Closed);
    assert_eq!(engine.close(admin(), 0), Err(ErrorCode::PoolNotActive));
    assert_eq!(engine.close(admin(), 3), Err(ErrorCode::PoolNotActive));
    assert_eq!(engine.state(), PoolState::Closed);
}

#[test]
fn a_closed_engine_stays_closed() {
    let (mut engine, pool_key) = running(5);
    assert_eq!(engine.stake(key(10), 7, 0), Ok(()));
    assert_eq!(engine.unstake(key(10), 7, 5), Ok(7));
    assert_eq!(engine.close(admin(), 0), Ok(None));
    assert_eq!(engine.initialize(admin(), key(2), key(3), 5, &key(9)), Err(ErrorCode::AlreadyExists));
    assert_eq!(engine.stake(key(10), 5, 0), Err(ErrorCode::PoolNotActive));
    assert_eq!(engine.unstake(key(10), 5, 0), Err(ErrorCode::PoolNotActive));
    assert_eq!(engine.open_or_get_position(key(12), 0), Err(ErrorCode::PoolNotActive));
    assert_eq!(engine.state(), PoolState::Closed);
    assert_eq!(engine.address(), pool_key);
    assert_eq!(engine.position(&key(10)).unwrap().amount, 0);
    assert_eq!(engine.position(&key(12)), None);
}

#[test]
fn engine_close_refuses_a_stranger_and_a_pool_with_principal() {
    let (mut engine, _) = running(5);
    assert_eq!(engine.close(key(66), 3), Err(ErrorCode::Unauthorized));
    assert_eq!(engine.stake(key(10), 1, 0), Ok(()));
    assert_eq!(engine.close(admin(), 3), Err(ErrorCode::PoolNotEmpty));
    assert_eq!(engine.close(key(66), 3), Err(ErrorCode::Unauthorized));
    assert_eq!(total(&engine), 1);
    assert_eq!(engine.unstake(key(10), 1, 0), Ok(1));
    assert_eq!(engine.close(admin(), 0), Ok(None));
}

#[test]
fn engine_stake_refuses_a_total_beyond_64_bits() {
    let (mut engine, _) = running(5);
    assert_eq!(engine.stake(key(10), u64::MAX - 5, 0), Ok(()));
    let before = (engine.state(), engine.position(&key(10)));
    assert_eq!(engine.stake(key(11), 6, 0), Err(ErrorCode::ArithmeticOverflow));
    // The refused stake has opened no position.
    assert_eq!(engine.position(&key(11)), None);
    assert_eq!(engine.stake(key(10), 6, 0), Err(ErrorCode::ArithmeticOverflow));
    assert_eq!((engine.state(), engine.position(&key(10))), before);
    assert_eq!(engine.stake(key(11), 5, 0), Ok(()));
    assert_eq!(total(&engine), u64::MAX);
}

#[test]
fn engine_unstake_refuses_a_payout_beyond_64_bits() {
    let (mut engine, _) = running(100);
    assert_eq!(engine.stake(key(10), u64::MAX, 0), Ok(()));
    let before = (engine.state(), engine.position(&key(10)));
    assert_eq!(engine.unstake(key(10), 1, YEAR), Err(ErrorCode::ArithmeticOverflow));
    assert_eq!((engine.state(), engine.position(&key(10))), before);
}

#[test]
fn the_total_is_the_sum_of_the_positions() {
    let (mut engine, _) = running(7);
    let users = [key(10), key(11), key(12), key(13)];
    let mut now = 0;
    for round in 0..6u64 {
        for (i, user) in users.iter().enumerate() {
            now += 1_000;
            assert_eq!(engine.stake(*user, 100 * (i as u64 + 1) + round, now), Ok(()));
        }
        now += 1_000;
        assert!(engine.unstake(users[(round % 4) as usize], 50 + round, now).is_ok());
        let sum: u64 = users.iter().map(|u| engine.position(u).unwrap().amount).sum();
        assert_eq!(total(&engine), sum);
    }
    assert_eq!(total(&engine), 6 * 1_000 + 4 * 15 - (6 * 50 + 15));
}

#[test]
fn engine_stake_then_unstake_at_once_returns_the_principal() {
    let (mut engine, _) = running(100);
    assert_eq!(engine.stake(key(10), 400, 5), Ok(()));
    let pool_before = engine.state();
    assert_eq!(engine.stake(key(10), 123, 10 * YEAR), Ok(()));
    assert_eq!(engine.unstake(key(10), 123, 10 * YEAR), Ok(123));
    assert_eq!(engine.state(), pool_before);
    assert_eq!(engine.position(&key(10)).unwrap().amount, 400);
}

#[test]
fn a_stake_gives_up_what_had_accrued() {
    let (mut engine, _) = running(10);
    assert_eq!(engine.stake(key(10), 1_000, 0), Ok(()));
    // A year later 100 would be due; a further stake starts the interval anew.
    assert_eq!(engine.stake(key(10), 1_000, YEAR), Ok(()));
    assert_eq!(engine.unstake(key(10), 2_000, YEAR), Ok(2_000));
}

#[test]
fn an_emptied_position_can_be_staked_into_again() {
    let (mut engine, pool_key) = running(5);
    assert_eq!(engine.stake(key(10), 40, 0), Ok(()));
    assert_eq!(engine.unstake(key(10), 40, 100), Ok(40));
    assert_eq!(engine.position(&key(10)).unwrap().amount, 0);
    assert_eq!(engine.stake(key(10), 1_000_000, 200), Ok(()));
    assert_eq!(
        engine.position(&key(10)),
        Some(UserStake {
            user: key(10),
            pool: pool_key,
            amount: 1_000_000,
            last_update: 200,
            rewards: 0
        })
    );
    assert_eq!(engine.unstake(key(10), 1_000_000, 200 + YEAR), Ok(1_050_000));
    assert_eq!(total(&engine), 0);
}

#[test]
fn the_vault_covers_the_principal_while_its_margin_bears_the_reward() {
    let (mut engine, _) = running(5);
    // Funded from outside the pool, to pay one reward.
    let mut vault: u64 = 50_000;
    assert_eq!(engine.stake(key(10), 1_000_000, 0), Ok(()));
    vault += 1_000_000;
    assert_eq!(engine.stake(key(11), 500_000, 0), Ok(()));
    vault += 500_000;
    assert_eq!(vault - total(&engine), 50_000);

    let payout = engine.unstake(key(10), 1_000_000, YEAR).unwrap();
    assert_eq!(payout, 1_050_000);
    vault -= payout;
    assert_eq!(vault, 500_000);
    assert!(vault >= total(&engine));

    // The margin is spent: the next reward is paid out of principal.
    let payout = engine.unstake(key(11), 100_000, YEAR).unwrap();
    assert_eq!(payout, 125_000);
    vault -= payout;
    assert_eq!(total(&engine), 400_000);
    assert_eq!(vault, 375_000);
    assert!(vault < total(&engine));
}

#[test]
fn a_copy_of_the_engine_undoes_an_operation() {
    let (mut engine, _) = running(5);
    assert_eq!(engine.stake(key(10), 1_000, 0), Ok(()));
    let before = engine.clone();
    assert_eq!(engine.unstake(key(10), 400, YEAR), Ok(450));
    assert_eq!(total(&engine), 600);
    // The transfer failed: go back to the copy.
    engine = before;
    assert_eq!(total(&engine), 1_000);
    assert_eq!(engine.position(&key(10)).unwrap().amount, 1_000);
    assert_eq!(engine.position(&key(10)).unwrap().last_update, 0);
    assert_eq!(engine.unstake(key(10), 400, YEAR), Ok(450));
}
