//! The four operations on a pool, each on a snapshot of the records it touches.
//!
//! An operation reads and rewrites only the snapshot it is given. It moves no
//! funds: `stake` leaves it to the caller to have the amount deposited,
//! `unstake` answers the payout to withdraw, and `close_pool` the residue to
//! hand to the administrator. A caller that stores the snapshot back only once
//! the transfer went through keeps vault and ledger in step.

use crate::address::Address;
use crate::authority::derive_address;
use crate::authority::pool_address_seeds;
use crate::authority::pool_seeds;
use crate::authority::program_address;
use crate::error::ErrorCode;
use crate::pool::PoolState;
use crate::pool::StakingPool;
use crate::pool::MAX_ANNUAL_RATE;
use crate::position::UserStake;
use crate::reward::lemma_reward_zero;
use vstd::prelude::*;

verus! {

/// What the creation of a pool touches.
#[derive(Clone, Copy, Debug, PartialEq, Eq)]
pub struct InitializePool {
    /// Who creates the pool and will administer it.
    pub authority: Address,
    /// The asset the pool is to accept.
    pub token_mint: Address,
    /// The vault that is to hold the deposits.
    pub token_vault: Address,
    /// The pool's record, as stored under its key.
    pub pool: PoolState,
}

/// What a stake touches.
#[derive(Clone, Copy, Debug, PartialEq, Eq)]
pub struct Stake {
    /// The depositor.
    pub user: Address,
    /// The address of the pool.
    pub pool_key: Address,
    /// The pool's record.
    pub pool: StakingPool,
    /// The depositor's position: the stored one, or an empty one at the first
    /// stake.
    pub user_stake: UserStake,
}

/// What an unstake touches.
#[derive(Clone, Copy, Debug, PartialEq, Eq)]
pub struct Unstake {
    /// The pool's record.
    pub pool: StakingPool,
    /// The position that is drawn on.
    pub user_stake: UserStake,
}

/// What the closing of a pool touches.
#[derive(Clone, Copy, Debug, PartialEq, Eq)]
pub struct ClosePool {
    /// Who asks for the pool to be closed.
    pub authority: Address,
    /// The pool's record, as stored under its key.
    pub pool: PoolState,
    /// What the vault holds.
    pub vault_balance: u64,
}

impl InitializePool {
    /// What a creation answers once the derivation of the pool's address has
    /// given `derived`: that address, or the reason for refusing.
    pub open spec fn outcome(self, derived: Option<(Address, u8)>) -> Result<Address, ErrorCode> {
        if !(self.pool is Uninitialized) {
            Err(ErrorCode::AlreadyExists)
        } else {
            match derived {
                Some((key, _)) => Ok(key),
                None => Err(ErrorCode::NoDerivedAddress),
            }
        }
    }

    /// The snapshot once the pool is created with `bump` and `apy`.
    pub open spec fn initialized(self, bump: u8, apy: u8) -> InitializePool {
        InitializePool {
            pool: PoolState::Active(
                StakingPool::created(self.authority, self.token_mint, self.token_vault, bump, apy),
            ),
            ..self
        }
    }
}

impl Stake {
    /// Whether `amount` more fits into both the position and the pool's total.
    pub open spec fn fits(self, amount: u64) -> bool {
        &&& self.user_stake.amount + amount <= u64::MAX
        &&& self.pool.total_staked + amount <= u64::MAX
    }

    /// The snapshot once `amount` is staked at `now`.
    pub open spec fn staked(self, amount: u64, now: i64) -> Stake
        recommends
            self.fits(amount),
    {
        Stake {
            pool: self.pool.after_stake(amount),
            user_stake: (UserStake {
                user: self.user,
                pool: self.pool_key,
                ..self.user_stake
            }).after_stake(amount, now),
            ..self
        }
    }
}

impl Unstake {
    /// What an unstake of `amount` at `now` answers: the payout, or the reason
    /// for refusing.
    pub open spec fn outcome(self, amount: u64, now: i64) -> Result<u64, ErrorCode> {
        match self.user_stake.unstake_outcome(amount, now, self.pool.apy) {
            Ok(payout) => if amount > self.pool.total_staked {
                Err(ErrorCode::ArithmeticOverflow)
            } else {
                Ok(payout)
            },
            Err(e) => Err(e),
        }
    }

    /// The snapshot once `amount` is withdrawn at `now`.
    pub open spec fn unstaked(self, amount: u64, now: i64) -> Unstake
        recommends
            amount <= self.user_stake.amount,
            amount <= self.pool.total_staked,
    {
        Unstake {
            pool: self.pool.after_unstake(amount),
            user_stake: self.user_stake.after_unstake(amount, now),
        }
    }
}

impl ClosePool {
    /// What a close answers: the residue to hand to the administrator, if the
    /// vault holds any, or the reason for refusing.
    pub open spec fn outcome(self) -> Result<Option<u64>, ErrorCode> {
        match self.pool {
            PoolState::Active(pool) => if pool.authority != self.authority {
                Err(ErrorCode::Unauthorized)
            } else if pool.total_staked != 0 {
                Err(ErrorCode::PoolNotEmpty)
            } else if self.vault_balance > 0 {
                Ok(Some(self.vault_balance))
            } else {
                Ok(None)
            },
            _ => Err(ErrorCode::PoolNotActive),
        }
    }
}

/// Creates the pool, given what the derivation of its address has yielded.
///
/// Fails with `AlreadyExists` where the key ever held a pool, else with
/// `NoDerivedAddress` where `derived` is `None`. On success the pool is active
/// with nothing staked, under the rate `apy` and the derived bump seed, and the
/// derived address is returned.
pub fn initialize_pool_with(
    ctx: &mut InitializePool,
    derived: Option<(Address, u8)>,
    apy: u8,
) -> (r: Result<Address, ErrorCode>)
    requires
        apy <= MAX_ANNUAL_RATE,
    ensures
        r == old(ctx).outcome(derived),
        r is Ok ==> (derived matches Some((_, bump)) && *final(ctx) == old(ctx).initialized(
            bump,
            apy,
        )),
        r is Err ==> *final(ctx) == *old(ctx),
{
    match ctx.pool {
        PoolState::Uninitialized => {},
        _ => {
            return Err(ErrorCode::AlreadyExists);
        },
    }
    match derived {
        Some((key, bump)) => {
            ctx.pool = PoolState::Active(
                StakingPool::new(ctx.authority, ctx.token_mint, ctx.token_vault, bump, apy),
            );
            Ok(key)
        },
        None => Err(ErrorCode::NoDerivedAddress),
    }
}

/// Creates the pool for `ctx.token_mint` under the program at `program_id`.
///
/// The pool's own address and its bump seed are derived from `POOL_SEED`, the
/// asset's address and `program_id`. Fails with `AlreadyExists` where the key
/// ever held a pool, else with `NoDerivedAddress` where the derivation yields
/// nothing; a failure changes nothing. On success the pool is active with
/// nothing staked, and its derived address is returned.
pub fn initialize_pool(ctx: &mut InitializePool, program_id: &Address, apy: u8) -> (r: Result<
    Address,
    ErrorCode,
>)
    requires
        apy <= MAX_ANNUAL_RATE,
    ensures
        !(old(ctx).pool is Uninitialized) ==> r == Err::<Address, ErrorCode>(
            ErrorCode::AlreadyExists,
        ),
        old(ctx).pool is Uninitialized ==> match program_address(
            pool_seeds(old(ctx).token_mint),
            program_id@,
        ) {
            Some((key, bump)) => r is Ok && r->Ok_0@ == key && *final(ctx) == old(ctx).initialized(
                bump,
                apy,
            ),
            None => r == Err::<Address, ErrorCode>(ErrorCode::NoDerivedAddress),
        },
        r is Err ==> *final(ctx) == *old(ctx),
{
    match ctx.pool {
        PoolState::Uninitialized => {},
        _ => {
            return Err(ErrorCode::AlreadyExists);
        },
    }
    let seeds = pool_address_seeds(&ctx.token_mint);
    let derived = match derive_address(&seeds, program_id) {
        Ok(found) => Some(found),
        Err(_) => None,
    };
    initialize_pool_with(ctx, derived, apy)
}

/// Stakes `amount` for `ctx.user` at `now`.
///
/// The position is made out to the user and the pool, `amount` is added to its
/// principal and to the pool's total, and its accrual starts anew at `now`.
/// Fails with `ArithmeticOverflow`, changing nothing, exactly where one of the
/// two sums would not fit in 64 bits. The caller has `amount` deposited into
/// the vault.
pub fn stake(ctx: &mut Stake, amount: u64, now: i64) -> (r: Result<(), ErrorCode>)
    requires
        amount > 0,
    ensures
        r is Ok <==> old(ctx).fits(amount),
        r is Ok ==> *final(ctx) == old(ctx).staked(amount, now),
        r is Err ==> r == Err::<(), ErrorCode>(ErrorCode::ArithmeticOverflow) && *final(ctx)
            == *old(ctx),
{
    let mut position = ctx.user_stake;
    position.user = ctx.user;
    position.pool = ctx.pool_key;
    let mut pool = ctx.pool;
    match position.apply_stake(amount, now) {
        Ok(()) => {},
        Err(e) => {
            return Err(e);
        },
    }
    match pool.record_stake(amount) {
        Ok(()) => {},
        Err(e) => {
            return Err(e);
        },
    }
    ctx.user_stake = position;
    ctx.pool = pool;
    Ok(())
}

/// Withdraws `amount` from `ctx.user_stake` at `now` and answers the payout:
/// `amount` plus the reward accrued on the whole principal since the position
/// was last touched, at the pool's rate.
///
/// Fails with `InsufficientStake` where `amount` is zero or more than the
/// position holds; else with `ArithmeticOverflow` where the payout would not
/// fit in 64 bits, or where the pool's total is less than `amount`. A failure
/// changes nothing. The caller has exactly the payout withdrawn from the
/// vault, under the pool's own authority.
pub fn unstake(ctx: &mut Unstake, amount: u64, now: i64) -> (r: Result<u64, ErrorCode>)
    ensures
        r == old(ctx).outcome(amount, now),
        r is Ok ==> *final(ctx) == old(ctx).unstaked(amount, now),
        r is Err ==> *final(ctx) == *old(ctx),
{
    let mut position = ctx.user_stake;
    let mut pool = ctx.pool;
    let payout = match position.apply_unstake(amount, now, pool.apy) {
        Ok(payout) => payout,
        Err(e) => {
            return Err(e);
        },
    };
    match pool.record_unstake(amount) {
        Ok(()) => {},
        Err(e) => {
            return Err(e);
        },
    }
    ctx.user_stake = position;
    ctx.pool = pool;
    Ok(payout)
}

/// Closes the pool on behalf of `ctx.authority`.
///
/// Fails with `PoolNotActive` where there is no active pool, else with
/// `Unauthorized` where the caller is not its administrator, else with
/// `PoolNotEmpty` where any principal is still staked; a failure changes
/// nothing. On success the pool is closed for good, and the answer is the
/// residue that the caller has transferred from the vault to the
/// administrator before the vault itself is closed: all the vault holds, or
/// `None` where it is empty.
pub fn close_pool(ctx: &mut ClosePool) -> (r: Result<Option<u64>, ErrorCode>)
    ensures
        r == old(ctx).outcome(),
        r is Ok ==> *final(ctx) == (ClosePool { pool: PoolState::Closed, ..*old(ctx) }),
        r is Err ==> *final(ctx) == *old(ctx),
{
    let pool = match ctx.pool {
        PoolState::Active(pool) => pool,
        _ => {
            return Err(ErrorCode::PoolNotActive);
        },
    };
    if pool.authority != ctx.authority {
        return Err(ErrorCode::Unauthorized);
    }
    if pool.total_staked != 0 {
        return Err(ErrorCode::PoolNotEmpty);
    }
    ctx.pool = PoolState::Closed;
    if ctx.vault_balance > 0 {
        Ok(Some(ctx.vault_balance))
    } else {
        Ok(None)
    }
}

/// Staking an amount and withdrawing it again at the same instant earns no
/// reward: the payout is the amount, and position and pool hold what they held
/// before the stake.
pub proof fn lemma_stake_then_unstake_returns_principal(ctx: Stake, amount: u64, now: i64)
    requires
        amount > 0,
        ctx.fits(amount),
    ensures
        ({
            let staked = ctx.staked(amount, now);
            let back = Unstake { pool: staked.pool, user_stake: staked.user_stake };
            &&& staked.user_stake.accrued(now, staked.pool.apy) == 0
            &&& back.outcome(amount, now) == Ok::<u64, ErrorCode>(amount)
            &&& back.unstaked(amount, now).pool == ctx.pool
            &&& back.unstaked(amount, now).user_stake.amount == ctx.user_stake.amount
            &&& back.unstaked(amount, now).user_stake == staked.user_stake.after_unstake(
                amount,
                now,
            )
        }),
{
    let staked = ctx.staked(amount, now);
    lemma_reward_zero(staked.user_stake.amount, now, now, staked.pool.apy);
}

} // verus!
