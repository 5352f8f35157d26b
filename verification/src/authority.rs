//! The address a pool derives for itself.
//!
//! A pool authorises transfers out of its vault under an address of its own,
//! derived from fixed seeds and the program's address. Nobody holds a key to
//! that address: whoever can present the seeds and the bump seed acts as the
//! pool.

use crate::address::Address;
use crate::error::ErrorCode;
use vstd::prelude::*;

verus! {

/// The first seed of a pool's address: the text `staking_pool`.
pub const POOL_SEED: [u8; 12] = [115, 116, 97, 107, 105, 110, 103, 95, 112, 111, 111, 108];

/// The most seeds an address can be derived from, the bump seed not counted.
pub const MAX_SEEDS: usize = 15;

/// The greatest length of one seed.
pub const MAX_SEED_LEN: usize = 32;

/// The derived address and bump seed for `seeds` under `program_id`, or `None`
/// where there is none. Its value is whatever the address derivation of the
/// Solana runtime gives: a hash of the seeds, a bump seed and the program's
/// address, at the highest bump seed for which the hash is no point of the
/// ed25519 curve.
pub uninterp spec fn program_address(seeds: Seq<Seq<u8>>, program_id: Seq<u8>) -> Option<
    (Seq<u8>, u8),
>;

/// The seeds from which the pool for `token_mint` derives its address.
pub open spec fn pool_seeds(token_mint: Address) -> Seq<Seq<u8>> {
    seq![POOL_SEED@, token_mint@]
}

/// The seeds by which the pool for `token_mint` signs: its address seeds and
/// the bump seed.
pub open spec fn pool_signer_seeds(token_mint: Address, bump: u8) -> Seq<Seq<u8>> {
    seq![POOL_SEED@, token_mint@, seq![bump]]
}

/// The seeds by which the authority over the vault of the pool at `pool_key`
/// signs.
pub open spec fn vault_authority_seeds(pool_key: Address, bump: u8) -> Seq<Seq<u8>> {
    seq![pool_key@, seq![bump]]
}

/// A derivation result with its address as bytes.
pub open spec fn derived_bytes(derived: Option<(Address, u8)>) -> Option<(Seq<u8>, u8)> {
    match derived {
        Some((address, bump)) => Some((address@, bump)),
        None => None,
    }
}

/// Calls `Pubkey::try_find_program_address` of `anchor_lang` (the address type
/// of the Solana SDK). Trusted: the result is `program_address` of the same
/// seeds and program address, and there is none where sixteen or more seeds
/// are given or one seed is longer than 32 bytes, the two cases in which the
/// SDK gives up before hashing.
#[verifier::external_body]
fn try_find_program_address(seeds: &Vec<Vec<u8>>, program_id: &Address) -> (derived: Option<
    (Address, u8),
>)
    ensures
        derived_bytes(derived) == program_address(seeds.deep_view(), program_id@),
        seeds.len() > MAX_SEEDS ==> derived is None,
        (exists|i: int| 0 <= i < seeds.len() && seeds[i].len() > MAX_SEED_LEN) ==> derived is None,
{
    let parts: Vec<&[u8]> = seeds.iter().map(|seed| seed.as_slice()).collect();
    let id = anchor_lang::prelude::Pubkey::new_from_array(program_id.bytes);
    match anchor_lang::prelude::Pubkey::try_find_program_address(&parts, &id) {
        Some((key, bump)) => Some((Address { bytes: key.to_bytes() }, bump)),
        None => None,
    }
}

/// Derives the address and bump seed for `seeds` under `program_id`.
///
/// Fails with `NoDerivedAddress` exactly where the derivation yields nothing,
/// as it does for more than `MAX_SEEDS` seeds or a seed longer than
/// `MAX_SEED_LEN`.
pub fn derive_address(seeds: &Vec<Vec<u8>>, program_id: &Address) -> (r: Result<
    (Address, u8),
    ErrorCode,
>)
    ensures
        match r {
            Ok(found) => program_address(seeds.deep_view(), program_id@) == Some(
                (found.0@, found.1),
            ),
            Err(e) => e == ErrorCode::NoDerivedAddress && program_address(
                seeds.deep_view(),
                program_id@,
            ) is None,
        },
        seeds.len() > MAX_SEEDS ==> r is Err,
        (exists|i: int| 0 <= i < seeds.len() && seeds[i].len() > MAX_SEED_LEN) ==> r is Err,
{
    match try_find_program_address(seeds, program_id) {
        Some(found) => Ok(found),
        None => Err(ErrorCode::NoDerivedAddress),
    }
}

/// The bytes of `POOL_SEED`.
fn pool_seed() -> (seed: Vec<u8>)
    ensures
        seed@ == POOL_SEED@,
{
    let mut seed: Vec<u8> = Vec::new();
    let mut i: usize = 0;
    while i < 12
        invariant
            i <= 12,
            seed@ == POOL_SEED@.subrange(0, i as int),
        decreases 12 - i,
    {
        seed.push(POOL_SEED[i]);
        i += 1;
    }
    assert(POOL_SEED@.subrange(0, 12) == POOL_SEED@);
    seed
}

/// Builds the seeds from which the pool for `token_mint` derives its address.
pub fn pool_address_seeds(token_mint: &Address) -> (seeds: Vec<Vec<u8>>)
    ensures
        seeds.deep_view() == pool_seeds(*token_mint),
{
    let mut seeds: Vec<Vec<u8>> = Vec::new();
    seeds.push(pool_seed());
    seeds.push(token_mint.to_vec());
    assert(seeds.deep_view() =~~= pool_seeds(*token_mint));
    seeds
}

/// Builds the seeds by which the pool for `token_mint` signs a transfer out
/// of its vault.
pub fn pool_signing_seeds(token_mint: &Address, bump: u8) -> (seeds: Vec<Vec<u8>>)
    ensures
        seeds.deep_view() == pool_signer_seeds(*token_mint, bump),
{
    let mut seeds: Vec<Vec<u8>> = Vec::new();
    seeds.push(pool_seed());
    seeds.push(token_mint.to_vec());
    let mut last: Vec<u8> = Vec::new();
    last.push(bump);
    seeds.push(last);
    assert(seeds.deep_view() =~~= pool_signer_seeds(*token_mint, bump));
    seeds
}

/// Builds the seeds by which the authority over the vault of the pool at
/// `pool_key` signs when the pool is closed.
pub fn vault_signing_seeds(pool_key: &Address, bump: u8) -> (seeds: Vec<Vec<u8>>)
    ensures
        seeds.deep_view() == vault_authority_seeds(*pool_key, bump),
{
    let mut seeds: Vec<Vec<u8>> = Vec::new();
    seeds.push(pool_key.to_vec());
    let mut last: Vec<u8> = Vec::new();
    last.push(bump);
    seeds.push(last);
    assert(seeds.deep_view() =~~= vault_authority_seeds(*pool_key, bump));
    seeds
}

} // verus!
