//! One pool with all its positions, kept in memory.
//!
//! The engine is the whole ledger of a pool: its record, its life cycle and
//! one position for each user that ever staked. Between any two operations
//! the pool's total equals the sum of the positions' principal.
//!
//! Like the operations it is built from, the engine moves no funds. A caller
//! whose transfer fails after an operation went through puts back the copy of
//! the engine it took before.

use crate::address::Address;
use crate::authority::pool_seeds;
use crate::authority::program_address;
use crate::error::ErrorCode;
use crate::instructions::close_pool;
use crate::instructions::initialize_pool;
use crate::instructions::stake;
use crate::instructions::unstake;
use crate::instructions::ClosePool;
use crate::instructions::InitializePool;
use crate::instructions::Stake;
use crate::instructions::Unstake;
use crate::pool::PoolState;
use crate::pool::StakingPool;
use crate::pool::MAX_ANNUAL_RATE;
use crate::position::UserStake;
use vstd::prelude::*;

verus! {

/// The sum of the principal of `positions`.
pub open spec fn total_principal(positions: Seq<UserStake>) -> nat
    decreases positions.len(),
{
    if positions.len() == 0 {
        0
    } else {
        total_principal(positions.drop_last()) + positions.last().amount as nat
    }
}

/// No two of `positions` belong to the same user.
pub open spec fn distinct_users(positions: Seq<UserStake>) -> bool {
    forall|i: int, j: int|
        0 <= i < j < positions.len() ==> (#[trigger] positions[i]).user != (
        #[trigger] positions[j]).user
}

/// Whether one of `positions` belongs to `user`.
pub open spec fn has_position(positions: Seq<UserStake>, user: Address) -> bool {
    exists|i: int| 0 <= i < positions.len() && (#[trigger] positions[i]).user == user
}

/// The position of `user` among `positions`, if there is one.
pub open spec fn lookup(positions: Seq<UserStake>, user: Address) -> Option<UserStake> {
    if has_position(positions, user) {
        Some(
            positions[choose|i: int|
                0 <= i < positions.len() && (#[trigger] positions[i]).user == user],
        )
    } else {
        None
    }
}

/// Among positions of distinct users, the position of a user is the one that
/// names that user.
pub proof fn lemma_lookup_found(positions: Seq<UserStake>, i: int)
    requires
        distinct_users(positions),
        0 <= i < positions.len(),
    ensures
        lookup(positions, positions[i].user) == Some(positions[i]),
{
    let user = positions[i].user;
    let j = choose|j: int| 0 <= j < positions.len() && (#[trigger] positions[j]).user == user;
    if j < i {
        assert(positions[j].user != positions[i].user);
    }
    if i < j {
        assert(positions[i].user != positions[j].user);
    }
}

/// No position holds more than the sum of all.
pub proof fn lemma_principal_within_total(positions: Seq<UserStake>, i: int)
    requires
        0 <= i < positions.len(),
    ensures
        positions[i].amount <= total_principal(positions),
    decreases positions.len(),
{
    if i < positions.len() - 1 {
        lemma_principal_within_total(positions.drop_last(), i);
    }
}

/// Replacing one position changes the sum by the difference in principal.
pub proof fn lemma_total_after_update(positions: Seq<UserStake>, i: int, position: UserStake)
    requires
        0 <= i < positions.len(),
    ensures
        total_principal(positions.update(i, position)) == total_principal(positions)
            - positions[i].amount + position.amount,
    decreases positions.len(),
{
    let updated = positions.update(i, position);
    if i == positions.len() - 1 {
        assert(updated.drop_last() =~= positions.drop_last());
    } else {
        assert(updated.drop_last() =~= positions.drop_last().update(i, position));
        lemma_total_after_update(positions.drop_last(), i, position);
    }
}

/// A new position adds its principal to the sum.
pub proof fn lemma_total_after_push(positions: Seq<UserStake>, position: UserStake)
    ensures
        total_principal(positions.push(position)) == total_principal(positions) + position.amount,
{
    assert(positions.push(position).drop_last() =~= positions);
}

/// A stake keeps the pool's total in step with the positions: where the total
/// was the sum of the principal, it fits whenever the pool's sum fits, and it
/// is the sum again once the staked position is stored back in its place.
pub proof fn lemma_stake_keeps_total(
    positions: Seq<UserStake>,
    i: int,
    ctx: Stake,
    amount: u64,
    now: i64,
)
    requires
        0 <= i < positions.len(),
        positions[i].amount == ctx.user_stake.amount,
        ctx.pool.total_staked == total_principal(positions),
        ctx.pool.total_staked + amount <= u64::MAX,
    ensures
        ctx.fits(amount),
        ctx.staked(amount, now).pool.total_staked == total_principal(
            positions.update(i, ctx.staked(amount, now).user_stake),
        ),
{
    lemma_principal_within_total(positions, i);
    lemma_total_after_update(positions, i, ctx.staked(amount, now).user_stake);
}

/// A first stake keeps the pool's total in step with the positions: where the
/// total was the sum of the principal, it is the sum again once the position
/// that was opened for the stake is stored with the others.
pub proof fn lemma_first_stake_keeps_total(
    positions: Seq<UserStake>,
    ctx: Stake,
    amount: u64,
    now: i64,
)
    requires
        ctx.user_stake.amount == 0,
        ctx.pool.total_staked == total_principal(positions),
        ctx.pool.total_staked + amount <= u64::MAX,
    ensures
        ctx.fits(amount),
        ctx.staked(amount, now).pool.total_staked == total_principal(
            positions.push(ctx.staked(amount, now).user_stake),
        ),
{
    lemma_total_after_push(positions, ctx.staked(amount, now).user_stake);
}

/// An unstake keeps the pool's total in step with the positions: where the
/// total was the sum of the principal, the pool never holds less than the
/// position asks for, and the total is the sum again once the position is
/// stored back in its place.
pub proof fn lemma_unstake_keeps_total(
    positions: Seq<UserStake>,
    i: int,
    ctx: Unstake,
    amount: u64,
    now: i64,
)
    requires
        0 <= i < positions.len(),
        positions[i].amount == ctx.user_stake.amount,
        ctx.pool.total_staked == total_principal(positions),
    ensures
        ctx.outcome(amount, now) == ctx.user_stake.unstake_outcome(amount, now, ctx.pool.apy),
        ctx.outcome(amount, now) is Ok ==> ctx.unstaked(amount, now).pool.total_staked
            == total_principal(positions.update(i, ctx.unstaked(amount, now).user_stake)),
{
    lemma_principal_within_total(positions, i);
    lemma_total_after_update(positions, i, ctx.unstaked(amount, now).user_stake);
}

/// Rewriting the position of one user keeps the users distinct, and the
/// rewritten position is that user's.
pub proof fn lemma_update_own(positions: Seq<UserStake>, i: int, position: UserStake)
    requires
        distinct_users(positions),
        0 <= i < positions.len(),
        position.user == positions[i].user,
    ensures
        distinct_users(positions.update(i, position)),
        lookup(positions.update(i, position), position.user) == Some(position),
{
    let updated = positions.update(i, position);
    assert forall|a: int, b: int| 0 <= a < b < updated.len() implies (#[trigger] updated[a]).user
        != (#[trigger] updated[b]).user by {
        assert(updated[a].user == positions[a].user);
        assert(updated[b].user == positions[b].user);
    }
    lemma_lookup_found(updated, i);
}

/// Rewriting the position of one user leaves every other user's position as it
/// was.
pub proof fn lemma_update_keeps_others(
    positions: Seq<UserStake>,
    i: int,
    position: UserStake,
    other: Address,
)
    requires
        distinct_users(positions),
        0 <= i < positions.len(),
        position.user == positions[i].user,
        other != position.user,
    ensures
        lookup(positions.update(i, position), other) == lookup(positions, other),
{
    let updated = positions.update(i, position);
    lemma_update_own(positions, i, position);
    if has_position(positions, other) {
        let k = choose|k: int| 0 <= k < positions.len() && (#[trigger] positions[k]).user == other;
        assert(updated[k] == positions[k]);
        lemma_lookup_found(positions, k);
        lemma_lookup_found(updated, k);
    } else if has_position(updated, other) {
        let k = choose|k: int| 0 <= k < updated.len() && (#[trigger] updated[k]).user == other;
        assert(positions[k].user == other);
    }
}

/// Opening a position for a user that has none keeps the users distinct, and
/// the new position is that user's.
pub proof fn lemma_push_own(positions: Seq<UserStake>, position: UserStake)
    requires
        distinct_users(positions),
        !has_position(positions, position.user),
    ensures
        distinct_users(positions.push(position)),
        lookup(positions.push(position), position.user) == Some(position),
{
    let pushed = positions.push(position);
    assert forall|a: int, b: int| 0 <= a < b < pushed.len() implies (#[trigger] pushed[a]).user != (
    #[trigger] pushed[b]).user by {
        assert(pushed[a] == positions[a]);
        if b < positions.len() {
            assert(pushed[b] == positions[b]);
        }
    }
    lemma_lookup_found(pushed, positions.len() as int);
}

/// Opening a position for a user that has none leaves every other user's
/// position as it was.
pub proof fn lemma_push_keeps_others(
    positions: Seq<UserStake>,
    position: UserStake,
    other: Address,
)
    requires
        distinct_users(positions),
        !has_position(positions, position.user),
        other != position.user,
    ensures
        lookup(positions.push(position), other) == lookup(positions, other),
{
    let pushed = positions.push(position);
    lemma_push_own(positions, position);
    if has_position(positions, other) {
        let k = choose|k: int| 0 <= k < positions.len() && (#[trigger] positions[k]).user == other;
        assert(pushed[k] == positions[k]);
        lemma_lookup_found(positions, k);
        lemma_lookup_found(pushed, k);
    } else if has_position(pushed, other) {
        let k = choose|k: int| 0 <= k < pushed.len() && (#[trigger] pushed[k]).user == other;
        assert(positions[k].user == other);
    }
}

/// A pool and the positions of its users.
#[derive(Debug)]
pub struct Engine {
    pool_key: Address,
    pool: PoolState,
    positions: Vec<UserStake>,
}

impl Clone for Engine {
    /// A copy of the engine as it stands.
    fn clone(&self) -> (copy: Engine)
        ensures
            copy.pool_key() == self.pool_key(),
            copy.pool() == self.pool(),
            copy.positions() == self.positions(),
    {
        let mut positions: Vec<UserStake> = Vec::new();
        let mut i: usize = 0;
        while i < self.positions.len()
            invariant
                i <= self.positions.len(),
                positions@ == self.positions@.subrange(0, i as int),
            decreases self.positions.len() - i,
        {
            positions.push(self.positions[i]);
            i += 1;
        }
        assert(self.positions@.subrange(0, self.positions@.len() as int) == self.positions@);
        Engine { pool_key: self.pool_key, pool: self.pool, positions }
    }
}

impl Engine {
    /// The pool's own address; meaningful once the pool was created.
    pub closed spec fn pool_key(&self) -> Address {
        self.pool_key
    }

    /// The pool's record and where it stands in its life.
    pub closed spec fn pool(&self) -> PoolState {
        self.pool
    }

    /// The positions, one for each user that ever staked.
    pub closed spec fn positions(&self) -> Seq<UserStake> {
        self.positions@
    }

    /// The position of `user`, if one was ever opened.
    pub open spec fn position_of(&self, user: Address) -> Option<UserStake> {
        lookup(self.positions(), user)
    }

    /// The position of `user`, or the empty one it would be opened with at `now`.
    pub open spec fn position_or_opened(&self, user: Address, now: i64) -> UserStake {
        match self.position_of(user) {
            Some(position) => position,
            None => UserStake::opened(user, self.pool_key(), now),
        }
    }

    /// What holds of the engine between operations: each user has at most one
    /// position, every position belongs to this pool, and the pool's total is
    /// the sum of the positions' principal. Before the pool exists there are no
    /// positions, and a closed pool has left no principal behind.
    pub open spec fn wf(&self) -> bool {
        &&& distinct_users(self.positions())
        &&& forall|i: int|
            0 <= i < self.positions().len() ==> (#[trigger] self.positions()[i]).pool
                == self.pool_key()
        &&& match self.pool() {
            PoolState::Uninitialized => self.positions().len() == 0,
            PoolState::Active(pool) => {
                &&& pool.total_staked == total_principal(self.positions())
                &&& pool.apy <= MAX_ANNUAL_RATE
            },
            PoolState::Closed => total_principal(self.positions()) == 0,
        }
    }

    /// An engine whose pool does not exist yet. Until it does, the pool's
    /// address reads as all zeros.
    pub fn new() -> (engine: Engine)
        ensures
            engine.wf(),
            engine.pool() is Uninitialized,
            engine.positions().len() == 0,
            forall|i: int| 0 <= i < 32 ==> engine.pool_key().bytes[i] == 0,
    {
        Engine {
            pool_key: Address::new([0u8; 32]),
            pool: PoolState::Uninitialized,
            positions: Vec::new(),
        }
    }

    /// The pool's record and state.
    pub fn state(&self) -> (state: PoolState)
        ensures
            state == self.pool(),
    {
        self.pool
    }

    /// The pool's own address.
    pub fn address(&self) -> (key: Address)
        ensures
            key == self.pool_key(),
    {
        self.pool_key
    }

    /// Where among the positions the one of `user` stands.
    fn find(&self, user: &Address) -> (found: Option<usize>)
        requires
            self.wf(),
        ensures
            match found {
                Some(i) => i < self.positions().len() && self.positions()[i as int].user == *user
                    && self.position_of(*user) == Some(self.positions()[i as int]),
                None => !has_position(self.positions(), *user),
            },
    {
        let mut i: usize = 0;
        while i < self.positions.len()
            invariant
                i <= self.positions.len(),
                distinct_users(self.positions@),
                forall|k: int| 0 <= k < i ==> (#[trigger] self.positions@[k]).user != *user,
            decreases self.positions.len() - i,
        {
            if self.positions[i].user == *user {
                proof {
                    lemma_lookup_found(self.positions@, i as int);
                }
                return Some(i);
            }
            i += 1;
        }
        None
    }

    /// The position of `user`, if one was ever opened.
    pub fn position(&self, user: &Address) -> (found: Option<UserStake>)
        requires
            self.wf(),
        ensures
            found == self.position_of(*user),
    {
        match self.find(user) {
            Some(i) => Some(self.positions[i]),
            None => None,
        }
    }

    /// Creates the pool for `token_mint` under the program at `program_id`.
    ///
    /// Fails with `AlreadyExists` where the engine ever held a pool, else with
    /// `NoDerivedAddress` where no address can be derived for the pool; a
    /// failure changes nothing. On success the pool is active with nothing
    /// staked, and its derived address is kept and returned.
    pub fn initialize(
        &mut self,
        authority: Address,
        token_mint: Address,
        token_vault: Address,
        apy: u8,
        program_id: &Address,
    ) -> (r: Result<Address, ErrorCode>)
        requires
            old(self).wf(),
            apy <= MAX_ANNUAL_RATE,
        ensures
            final(self).wf(),
            !(old(self).pool() is Uninitialized) ==> r == Err::<Address, ErrorCode>(
                ErrorCode::AlreadyExists,
            ),
            old(self).pool() is Uninitialized ==> match program_address(
                pool_seeds(token_mint),
                program_id@,
            ) {
                Some((key, bump)) => {
                    &&& r is Ok
                    &&& r->Ok_0@ == key
                    &&& final(self).pool_key() == r->Ok_0
                    &&& final(self).pool() == PoolState::Active(
                        StakingPool::created(authority, token_mint, token_vault, bump, apy),
                    )
                    &&& final(self).positions() == old(self).positions()
                },
                None => r == Err::<Address, ErrorCode>(ErrorCode::NoDerivedAddress),
            },
            r is Err ==> *final(self) == *old(self),
    {
        let mut ctx = InitializePool { authority, token_mint, token_vault, pool: self.pool };
        match initialize_pool(&mut ctx, program_id, apy) {
            Ok(key) => {
                self.pool_key = key;
                self.pool = ctx.pool;
                Ok(key)
            },
            Err(e) => Err(e),
        }
    }

    /// Returns the position of `user`, opening an empty one at `now` where the
    /// user has none.
    ///
    /// Fails with `PoolNotActive`, changing nothing, where there is no active
    /// pool. Nobody else's position and nothing of the pool changes.
    pub fn open_or_get_position(&mut self, user: Address, now: i64) -> (r: Result<
        UserStake,
        ErrorCode,
    >)
        requires
            old(self).wf(),
        ensures
            final(self).wf(),
            final(self).pool() == old(self).pool(),
            final(self).pool_key() == old(self).pool_key(),
            match r {
                Ok(position) => {
                    &&& old(self).pool() is Active
                    &&& position == old(self).position_or_opened(user, now)
                    &&& final(self).position_of(user) == Some(position)
                    &&& forall|other: Address|
                        other != user ==> final(self).position_of(other) == old(self).position_of(
                            other,
                        )
                },
                Err(e) => {
                    &&& !(old(self).pool() is Active)
                    &&& e == ErrorCode::PoolNotActive
                    &&& *final(self) == *old(self)
                },
            },
    {
        match self.pool {
            PoolState::Active(_) => {},
            _ => {
                return Err(ErrorCode::PoolNotActive);
            },
        }
        match self.find(&user) {
            Some(i) => Ok(self.positions[i]),
            None => {
                let position = UserStake::open(user, self.pool_key, now);
                proof {
                    lemma_total_after_push(self.positions@, position);
                    assert forall|other: Address| other != user implies lookup(
                        self.positions@.push(position),
                        other,
                    ) == lookup(self.positions@, other) by {
                        lemma_push_keeps_others(self.positions@, position, other);
                    }
                    lemma_push_own(self.positions@, position);
                }
                self.positions.push(position);
                Ok(position)
            },
        }
    }

    /// Stakes `amount` for `user` at `now`, opening the user's position where
    /// there is none.
    ///
    /// Fails with `PoolNotActive` where there is no active pool, and with
    /// `ArithmeticOverflow` exactly where the pool's total would not fit in 64
    /// bits; a failure changes nothing, and opens no position. On success the
    /// principal of the position and the pool's total have grown by `amount`
    /// and the position's accrual starts anew at `now`. Nobody else's position
    /// changes. The caller has `amount` deposited into the vault.
    pub fn stake(&mut self, user: Address, amount: u64, now: i64) -> (r: Result<(), ErrorCode>)
        requires
            old(self).wf(),
            amount > 0,
        ensures
            final(self).wf(),
            final(self).pool_key() == old(self).pool_key(),
            match old(self).pool() {
                PoolState::Active(pool) => {
                    &&& r is Ok <==> pool.total_staked + amount <= u64::MAX
                    &&& r is Err ==> r == Err::<(), ErrorCode>(ErrorCode::ArithmeticOverflow)
                    &&& r is Ok ==> {
                        &&& final(self).pool() == PoolState::Active(pool.after_stake(amount))
                        &&& final(self).position_of(user) == Some(
                            old(self).position_or_opened(user, now).after_stake(amount, now),
                        )
                        &&& forall|other: Address|
                            other != user ==> final(self).position_of(other) == old(
                                self,
                            ).position_of(other)
                    }
                },
                _ => r == Err::<(), ErrorCode>(ErrorCode::PoolNotActive),
            },
            r is Err ==> *final(self) == *old(self),
    {
        let pool = match self.pool {
            PoolState::Active(pool) => pool,
            _ => {
                return Err(ErrorCode::PoolNotActive);
            },
        };
        let found = self.find(&user);
        let base = match found {
            Some(i) => self.positions[i],
            None => UserStake::open(user, self.pool_key, now),
        };
        let mut ctx = Stake { user, pool_key: self.pool_key, pool, user_stake: base };
        let ghost before = self.positions@;
        let ghost asked = ctx;
        proof {
            if pool.total_staked + amount <= u64::MAX {
                match found {
                    Some(i) => lemma_stake_keeps_total(before, i as int, asked, amount, now),
                    None => lemma_first_stake_keeps_total(before, asked, amount, now),
                }
            }
        }
        match stake(&mut ctx, amount, now) {
            Ok(()) => {},
            Err(e) => {
                return Err(e);
            },
        }
        match found {
            Some(i) => {
                proof {
                    assert forall|other: Address| other != user implies lookup(
                        before.update(i as int, ctx.user_stake),
                        other,
                    ) == lookup(before, other) by {
                        lemma_update_keeps_others(before, i as int, ctx.user_stake, other);
                    }
                    lemma_update_own(before, i as int, ctx.user_stake);
                }
                self.positions[i] = ctx.user_stake;
            },
            None => {
                proof {
                    assert forall|other: Address| other != user implies lookup(
                        before.push(ctx.user_stake),
                        other,
                    ) == lookup(before, other) by {
                        lemma_push_keeps_others(before, ctx.user_stake, other);
                    }
                    lemma_push_own(before, ctx.user_stake);
                }
                self.positions.push(ctx.user_stake);
            },
        }
        self.pool = PoolState::Active(ctx.pool);
        Ok(())
    }

    /// Withdraws `amount` from the position of `user` at `now` and answers the
    /// payout: `amount` plus the reward accrued on the whole principal since
    /// the position was last touched.
    ///
    /// Fails with `PoolNotActive` where there is no active pool; with
    /// `InsufficientStake` where `amount` is zero or more than the user has
    /// staked, which is nothing where the user has no position; and with
    /// `ArithmeticOverflow` where the payout would not fit in 64 bits. A
    /// failure changes nothing. Nobody else's position changes. The caller has
    /// exactly the payout withdrawn from the vault.
    pub fn unstake(&mut self, user: Address, amount: u64, now: i64) -> (r: Result<u64, ErrorCode>)
        requires
            old(self).wf(),
        ensures
            final(self).wf(),
            final(self).pool_key() == old(self).pool_key(),
            match old(self).pool() {
                PoolState::Active(pool) => match old(self).position_of(user) {
                    Some(position) => {
                        &&& r == position.unstake_outcome(amount, now, pool.apy)
                        &&& r is Ok ==> {
                            &&& final(self).pool() == PoolState::Active(
                                pool.after_unstake(amount),
                            )
                            &&& final(self).position_of(user) == Some(
                                position.after_unstake(amount, now),
                            )
                            &&& forall|other: Address|
                                other != user ==> final(self).position_of(other) == old(
                                    self,
                                ).position_of(other)
                        }
                    },
                    None => r == Err::<u64, ErrorCode>(ErrorCode::InsufficientStake),
                },
                _ => r == Err::<u64, ErrorCode>(ErrorCode::PoolNotActive),
            },
            r is Err ==> *final(self) == *old(self),
    {
        let pool = match self.pool {
            PoolState::Active(pool) => pool,
            _ => {
                return Err(ErrorCode::PoolNotActive);
            },
        };
        let i = match self.find(&user) {
            Some(i) => i,
            None => {
                return Err(ErrorCode::InsufficientStake);
            },
        };
        let mut ctx = Unstake { pool, user_stake: self.positions[i] };
        proof {
            lemma_unstake_keeps_total(self.positions@, i as int, ctx, amount, now);
        }
        let payout = match unstake(&mut ctx, amount, now) {
            Ok(payout) => payout,
            Err(e) => {
                return Err(e);
            },
        };
        proof {
            let before = self.positions@;
            assert forall|other: Address| other != user implies lookup(
                before.update(i as int, ctx.user_stake),
                other,
            ) == lookup(before, other) by {
                lemma_update_keeps_others(before, i as int, ctx.user_stake, other);
            }
            lemma_update_own(before, i as int, ctx.user_stake);
        }
        self.positions[i] = ctx.user_stake;
        self.pool = PoolState::Active(ctx.pool);
        Ok(payout)
    }

    /// Closes the pool on behalf of `administrator`, the vault holding
    /// `vault_balance`.
    ///
    /// Fails with `PoolNotActive` where there is no active pool, so also on a
    /// second close; else with `Unauthorized` where `administrator` is not the
    /// pool's; else with `PoolNotEmpty` where principal is still staked. A
    /// failure changes nothing. On success the pool is closed for good, and the
    /// answer is the residue that the caller has transferred from the vault to
    /// the administrator before the vault is closed: `vault_balance`, or `None`
    /// where the vault is empty.
    pub fn close(&mut self, administrator: Address, vault_balance: u64) -> (r: Result<
        Option<u64>,
        ErrorCode,
    >)
        requires
            old(self).wf(),
        ensures
            final(self).wf(),
            r == (ClosePool {
                authority: administrator,
                pool: old(self).pool(),
                vault_balance,
            }).outcome(),
            r is Ok ==> {
                &&& final(self).pool() is Closed
                &&& final(self).positions() == old(self).positions()
                &&& final(self).pool_key() == old(self).pool_key()
            },
            r is Err ==> *final(self) == *old(self),
    {
        let mut ctx = ClosePool { authority: administrator, pool: self.pool, vault_balance };
        match close_pool(&mut ctx) {
            Ok(residue) => {
                self.pool = ctx.pool;
                Ok(residue)
            },
            Err(e) => Err(e),
        }
    }
}

} // verus!
