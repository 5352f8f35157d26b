//! The pool's aggregate record and its life cycle.

use crate::address::Address;
use crate::error::ErrorCode;
use vstd::prelude::*;

verus! {

/// The highest annual rate a pool can be created with, in percent.
pub const MAX_ANNUAL_RATE: u8 = 100;

/// The shared record of one pool.
#[derive(Clone, Copy, Debug, PartialEq, Eq)]
pub struct StakingPool {
    /// The administrator, who alone may close the pool.
    pub authority: Address,
    /// The asset the pool accepts.
    pub token_mint: Address,
    /// The vault that holds every deposit.
    pub token_vault: Address,
    /// The bump seed that, with the pool's seeds, yields its own address, by
    /// which the pool authorises transfers out of the vault.
    pub bump: u8,
    /// The sum of the principal of all positions in this pool.
    pub total_staked: u64,
    /// The annual reward rate in percent.
    pub apy: u8,
}

/// Where a pool stands in its life: it is created once, serves stakes and
/// unstakes while active, and once closed stays closed.
#[derive(Clone, Copy, Debug, PartialEq, Eq)]
pub enum PoolState {
    /// No pool was created under this key yet.
    Uninitialized,
    /// The pool serves stakes and unstakes.
    Active(StakingPool),
    /// The pool was closed and its record given up.
    Closed,
}

impl StakingPool {
    /// The record of a pool that was just created: nothing staked yet.
    pub open spec fn created(
        authority: Address,
        token_mint: Address,
        token_vault: Address,
        bump: u8,
        apy: u8,
    ) -> StakingPool {
        StakingPool { authority, token_mint, token_vault, bump, total_staked: 0, apy }
    }

    /// The pool once `amount` more is staked.
    pub open spec fn after_stake(self, amount: u64) -> StakingPool
        recommends
            self.total_staked + amount <= u64::MAX,
    {
        StakingPool { total_staked: (self.total_staked + amount) as u64, ..self }
    }

    /// The pool once `amount` is withdrawn.
    pub open spec fn after_unstake(self, amount: u64) -> StakingPool
        recommends
            amount <= self.total_staked,
    {
        StakingPool { total_staked: (self.total_staked - amount) as u64, ..self }
    }

    /// Creates the record of a pool with nothing staked.
    pub fn new(
        authority: Address,
        token_mint: Address,
        token_vault: Address,
        bump: u8,
        apy: u8,
    ) -> (pool: StakingPool)
        requires
            apy <= MAX_ANNUAL_RATE,
        ensures
            pool == StakingPool::created(authority, token_mint, token_vault, bump, apy),
    {
        StakingPool { authority, token_mint, token_vault, bump, total_staked: 0, apy }
    }

    /// Adds `amount` to the total staked.
    ///
    /// Fails with `ArithmeticOverflow`, changing nothing, exactly where the
    /// total would not fit in 64 bits.
    pub fn record_stake(&mut self, amount: u64) -> (r: Result<(), ErrorCode>)
        ensures
            r is Ok <==> old(self).total_staked + amount <= u64::MAX,
            r is Ok ==> *final(self) == old(self).after_stake(amount),
            r is Err ==> r == Err::<(), ErrorCode>(ErrorCode::ArithmeticOverflow) && *final(self)
                == *old(self),
    {
        match self.total_staked.checked_add(amount) {
            Some(total) => {
                self.total_staked = total;
                Ok(())
            },
            None => Err(ErrorCode::ArithmeticOverflow),
        }
    }

    /// Takes `amount` off the total staked.
    ///
    /// Fails with `ArithmeticOverflow`, changing nothing, exactly where
    /// `amount` is more than the total. A caller that has checked the amount
    /// against a position of this pool never sees that failure, unless the
    /// pool and its positions have come apart.
    pub fn record_unstake(&mut self, amount: u64) -> (r: Result<(), ErrorCode>)
        ensures
            r is Ok <==> amount <= old(self).total_staked,
            r is Ok ==> *final(self) == old(self).after_unstake(amount),
            r is Err ==> r == Err::<(), ErrorCode>(ErrorCode::ArithmeticOverflow) && *final(self)
                == *old(self),
    {
        match self.total_staked.checked_sub(amount) {
            Some(total) => {
                self.total_staked = total;
                Ok(())
            },
            None => Err(ErrorCode::ArithmeticOverflow),
        }
    }
}

} // verus!
