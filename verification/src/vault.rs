//! What the vault has to hold.
//!
//! The ledger moves no funds, so it cannot see the vault; it can say what each
//! operation does to the margin between the vault and the principal owed. A
//! stake leaves the margin as it is. An unstake pays the reward out of it: the
//! vault goes on covering the principal exactly where the margin was at least
//! the reward, so rewards have to be funded from outside the pool.

use crate::instructions::Stake;
use crate::instructions::Unstake;
use crate::pool::StakingPool;
use vstd::prelude::*;

verus! {

/// The vault holds at least the principal staked in `pool`.
pub open spec fn covers(vault_balance: int, pool: StakingPool) -> bool {
    vault_balance >= pool.total_staked
}

/// What the vault holds beyond the principal staked in `pool`.
pub open spec fn margin(vault_balance: int, pool: StakingPool) -> int {
    vault_balance - pool.total_staked
}

/// A vault covers a pool that was just created, whatever it holds.
pub proof fn lemma_new_pool_is_covered(pool: StakingPool, vault_balance: int)
    requires
        pool.total_staked == 0,
        vault_balance >= 0,
    ensures
        covers(vault_balance, pool),
{
}

/// A stake with its deposit leaves the margin unchanged: a vault that covered
/// the principal before still does.
pub proof fn lemma_stake_keeps_cover(ctx: Stake, amount: u64, now: i64, vault_balance: int)
    requires
        ctx.fits(amount),
    ensures
        margin(vault_balance + amount, ctx.staked(amount, now).pool) == margin(
            vault_balance,
            ctx.pool,
        ),
        covers(vault_balance, ctx.pool) ==> covers(
            vault_balance + amount,
            ctx.staked(amount, now).pool,
        ),
{
}

/// An unstake with its withdrawal lowers the margin by the reward paid.
pub proof fn lemma_unstake_pays_reward_from_margin(
    ctx: Unstake,
    amount: u64,
    now: i64,
    vault_balance: int,
)
    requires
        ctx.outcome(amount, now) is Ok,
    ensures
        margin(vault_balance, ctx.pool) - ctx.user_stake.accrued(now, ctx.pool.apy) == margin(
            vault_balance,
            ctx.unstaked(amount, now).pool,
        ) - ctx.outcome(amount, now)->Ok_0,
{
}

/// An unstake whose reward the margin can bear is paid in full, and leaves a
/// vault that still covers the principal.
pub proof fn lemma_unstake_keeps_cover(ctx: Unstake, amount: u64, now: i64, vault_balance: int)
    requires
        ctx.outcome(amount, now) is Ok,
        ctx.user_stake.accrued(now, ctx.pool.apy) <= margin(vault_balance, ctx.pool),
    ensures
        vault_balance >= ctx.outcome(amount, now)->Ok_0,
        covers(vault_balance - ctx.outcome(amount, now)->Ok_0, ctx.unstaked(amount, now).pool),
{
}

/// An unstake whose reward exceeds the margin cannot be paid without
/// uncovering principal.
pub proof fn lemma_unstake_beyond_margin_uncovers(
    ctx: Unstake,
    amount: u64,
    now: i64,
    vault_balance: int,
)
    requires
        ctx.outcome(amount, now) is Ok,
        ctx.user_stake.accrued(now, ctx.pool.apy) > margin(vault_balance, ctx.pool),
    ensures
        vault_balance - ctx.outcome(amount, now)->Ok_0 < ctx.unstaked(
            amount,
            now,
        ).pool.total_staked,
{
}

} // verus!
