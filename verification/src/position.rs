//! One depositor's stake in a pool.

use crate::address::Address;
use crate::error::ErrorCode;
use crate::reward::calculate_rewards;
use crate::reward::reward;
use vstd::prelude::*;

verus! {

/// The record of one user's principal in one pool.
///
/// A position is opened at the user's first stake and is never deleted: its
/// principal may fall to zero and rise again. Reward is worked out when
/// principal is withdrawn, over the time since `last_update`; a stake starts
/// that interval anew, so what had accrued on the earlier principal since the
/// last change is given up.
#[derive(Clone, Copy, Debug, PartialEq, Eq)]
pub struct UserStake {
    /// The depositor.
    pub user: Address,
    /// The pool this position belongs to.
    pub pool: Address,
    /// Principal currently staked.
    pub amount: u64,
    /// Time of the last stake or unstake, in seconds.
    pub last_update: i64,
    /// Reward accrued and not yet paid; zero after every stake and unstake.
    pub rewards: u64,
}

impl UserStake {
    /// The position of `user` in `pool` before anything is staked.
    pub open spec fn opened(user: Address, pool: Address, now: i64) -> UserStake {
        UserStake { user, pool, amount: 0, last_update: now, rewards: 0 }
    }

    /// The position once `amount` more is staked at `now`.
    pub open spec fn after_stake(self, amount: u64, now: i64) -> UserStake
        recommends
            self.amount + amount <= u64::MAX,
    {
        UserStake {
            amount: (self.amount + amount) as u64,
            last_update: now,
            rewards: 0,
            ..self
        }
    }

    /// The position once `amount` is withdrawn at `now`.
    pub open spec fn after_unstake(self, amount: u64, now: i64) -> UserStake
        recommends
            amount <= self.amount,
    {
        UserStake {
            amount: (self.amount - amount) as u64,
            last_update: now,
            rewards: 0,
            ..self
        }
    }

    /// The reward the whole principal has earned since `last_update`.
    pub open spec fn accrued(self, now: i64, apy: u8) -> u64 {
        reward(self.amount, self.last_update, now, apy)
    }

    /// What an unstake of `amount` at `now` answers: the payout, which is
    /// `amount` plus the accrued reward, or the reason for refusing.
    pub open spec fn unstake_outcome(self, amount: u64, now: i64, apy: u8) -> Result<
        u64,
        ErrorCode,
    > {
        if amount == 0 || amount > self.amount {
            Err(ErrorCode::InsufficientStake)
        } else if amount + self.accrued(now, apy) > u64::MAX {
            Err(ErrorCode::ArithmeticOverflow)
        } else {
            Ok((amount + self.accrued(now, apy)) as u64)
        }
    }

    /// Opens the position of `user` in `pool`: no principal, no reward, last
    /// touched at `now`.
    pub fn open(user: Address, pool: Address, now: i64) -> (position: UserStake)
        ensures
            position == UserStake::opened(user, pool, now),
    {
        UserStake { user, pool, amount: 0, last_update: now, rewards: 0 }
    }

    /// Adds `amount` to the principal at `now`.
    ///
    /// Fails with `ArithmeticOverflow`, changing nothing, exactly where the new
    /// principal would not fit in 64 bits. The caller has the same amount
    /// deposited into the vault.
    pub fn apply_stake(&mut self, amount: u64, now: i64) -> (r: Result<(), ErrorCode>)
        requires
            amount > 0,
        ensures
            r is Ok <==> old(self).amount + amount <= u64::MAX,
            r is Ok ==> *final(self) == old(self).after_stake(amount, now),
            r is Err ==> r == Err::<(), ErrorCode>(ErrorCode::ArithmeticOverflow) && *final(self)
                == *old(self),
    {
        match self.amount.checked_add(amount) {
            Some(total) => {
                self.amount = total;
                self.last_update = now;
                self.rewards = 0;
                Ok(())
            },
            None => Err(ErrorCode::ArithmeticOverflow),
        }
    }

    /// Withdraws `amount` of the principal at `now` and answers the payout:
    /// `amount` plus the reward that the whole principal earned since
    /// `last_update` at `apy` percent a year.
    ///
    /// Fails with `InsufficientStake` where `amount` is zero or more than the
    /// principal, and with `ArithmeticOverflow` where the payout would not fit
    /// in 64 bits. A failure changes nothing. The caller has exactly the
    /// payout withdrawn from the vault.
    pub fn apply_unstake(&mut self, amount: u64, now: i64, apy: u8) -> (r: Result<u64, ErrorCode>)
        ensures
            r == old(self).unstake_outcome(amount, now, apy),
            r is Ok ==> *final(self) == old(self).after_unstake(amount, now),
            r is Err ==> *final(self) == *old(self),
    {
        if amount == 0 || amount > self.amount {
            return Err(ErrorCode::InsufficientStake);
        }
        let rewards = calculate_rewards(self.amount, self.last_update, now, apy);
        match amount.checked_add(rewards) {
            Some(payout) => {
                self.amount = self.amount - amount;
                self.last_update = now;
                self.rewards = 0;
                Ok(payout)
            },
            None => Err(ErrorCode::ArithmeticOverflow),
        }
    }
}

} // verus!
