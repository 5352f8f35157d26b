//! The ways an operation can fail.

use vstd::prelude::*;

verus! {

/// Why an operation was refused. Every failure is final: nothing is retried,
/// and the operation that failed has changed nothing.
#[derive(Clone, Copy, Debug, PartialEq, Eq, Structural)]
pub enum ErrorCode {
    /// An unstake asks for nothing, or for more than the position holds.
    InsufficientStake,
    /// The caller is not the pool's administrator.
    Unauthorized,
    /// A close was asked for while principal is still staked.
    PoolNotEmpty,
    /// A checked sum would exceed, or a checked difference would fall below,
    /// what 64 bits can hold.
    ArithmeticOverflow,
    /// A pool was already created under this key.
    AlreadyExists,
    /// The pool was never initialised, or has been closed.
    PoolNotActive,
    /// No address could be derived for the pool from its seeds.
    NoDerivedAddress,
}

impl ErrorCode {
    /// A short description for the caller.
    pub fn message(&self) -> (text: &'static str)
        ensures
            text@ == match *self {
                ErrorCode::InsufficientStake => "Insufficient stake amount"@,
                ErrorCode::Unauthorized => "Unauthorized operation"@,
                ErrorCode::PoolNotEmpty => "Pool is not empty"@,
                ErrorCode::ArithmeticOverflow => "Arithmetic overflow"@,
                ErrorCode::AlreadyExists => "Pool already exists"@,
                ErrorCode::PoolNotActive => "Pool is not active"@,
                ErrorCode::NoDerivedAddress => "No address can be derived"@,
            },
    {
        match self {
            ErrorCode::InsufficientStake => "Insufficient stake amount",
            ErrorCode::Unauthorized => "Unauthorized operation",
            ErrorCode::PoolNotEmpty => "Pool is not empty",
            ErrorCode::ArithmeticOverflow => "Arithmetic overflow",
            ErrorCode::AlreadyExists => "Pool already exists",
            ErrorCode::PoolNotActive => "Pool is not active",
            ErrorCode::NoDerivedAddress => "No address can be derived",
        }
    }
}

} // verus!
