//! A staking ledger: deposits of one asset into a shared pool, rewards that
//! accrue with time at a fixed annual rate, and withdrawals of principal plus
//! reward, all in checked integer arithmetic.
//!
//! The library decides and records; it moves no funds. Each operation says
//! which custody transfer the caller has to request, and changes nothing
//! where it fails.
//!
//! Everything here is proved against its contract but one call: the address a
//! pool derives for itself is computed by the Solana SDK, and `authority`
//! takes its result on trust, under a name of its own.

pub mod address;
pub mod authority;
pub mod engine;
pub mod error;
pub mod instructions;
pub mod pool;
pub mod position;
pub mod reward;
pub mod vault;

pub use address::Address;
pub use engine::Engine;
pub use error::ErrorCode;
pub use instructions::close_pool;
pub use instructions::initialize_pool;
pub use instructions::stake;
pub use instructions::unstake;
pub use instructions::ClosePool;
pub use instructions::InitializePool;
pub use instructions::Stake;
pub use instructions::Unstake;
pub use pool::PoolState;
pub use pool::StakingPool;
pub use position::UserStake;
pub use reward::calculate_rewards;
