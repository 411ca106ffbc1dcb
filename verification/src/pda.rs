use vstd::prelude::*;
use crate::address::Address;
use anchor_lang::prelude::Pubkey;

verus! {

/// The literal seed of every allow-list record's address: the bytes of
/// `whitelist`.
pub const WHITELIST_SEED: [u8; 9] = [119, 104, 105, 116, 101, 108, 105, 115, 116];

/// Position of the receiving owner in a transfer's account list.
pub const OWNER_INDEX: u8 = 3;

/// The address that the ledger derives from `seeds` for the program
/// `program_id`, with the bump that makes it one; `None` where it derives
/// none. It stands for what `Pubkey::try_find_program_address` returns: a
/// search over bumps for a SHA-256 digest that is no point of the curve,
/// which is not written out here.
pub uninterp spec fn program_address(seeds: Seq<Seq<u8>>, program_id: Seq<u8>) -> Option<(Seq<u8>, u8)>;

/// The views of the seeds, in order.
pub open spec fn seed_views(seeds: Seq<Vec<u8>>) -> Seq<Seq<u8>> {
    Seq::new(seeds.len(), |i: int| seeds[i]@)
}

/// The view of a derived address and its bump.
pub open spec fn derived_view(derived: Option<(Address, u8)>) -> Option<(Seq<u8>, u8)> {
    match derived {
        Some((address, bump)) => Some((address@, bump)),
        None => None,
    }
}

/// The seeds of the allow-list record of `user`: the literal, then the
/// user's address.
pub open spec fn whitelist_seeds(user: Seq<u8>) -> Seq<Seq<u8>> {
    seq![WHITELIST_SEED@, user]
}

/// Where the allow-list record of `user` lives under `program_id`.
pub open spec fn whitelist_address(user: Seq<u8>, program_id: Seq<u8>) -> Option<(Seq<u8>, u8)> {
    program_address(whitelist_seeds(user), program_id)
}

/// The bytes of the literal seed.
pub fn whitelist_seed() -> (v: Vec<u8>)
    ensures
        v@ == WHITELIST_SEED@,
{
    let mut v: Vec<u8> = Vec::new();
    let mut i: usize = 0;
    while i < 9
        invariant
            i <= 9,
            v@.len() == i,
            forall|k: int| 0 <= k < i ==> v@[k] == WHITELIST_SEED[k],
        decreases 9 - i,
    {
        v.push(WHITELIST_SEED[i]);
        i += 1;
    }
    assert(v@ =~= WHITELIST_SEED@);
    v
}

/// Derives the address of the allow-list record of `user`, and its bump.
pub fn find_whitelist_address(user: &Address, program_id: &Address) -> (r: Option<(Address, u8)>)
    ensures
        derived_view(r) == whitelist_address(user@, program_id@),
{
    let mut seeds: Vec<Vec<u8>> = Vec::new();
    seeds.push(whitelist_seed());
    seeds.push(user.to_vec());
    assert(seed_views(seeds@) =~= whitelist_seeds(user@));
    find_program_address(&seeds, program_id)
}

/// Calls `Pubkey::try_find_program_address`, which anchor-lang hands on from
/// solana-pubkey. Its result depends on the seeds and the program alone;
/// nothing more is believed of it.
#[verifier::external_body]
pub(crate) fn find_program_address(seeds: &Vec<Vec<u8>>, program_id: &Address) -> (r: Option<(Address, u8)>)
    ensures
        derived_view(r) == program_address(seed_views(seeds@), program_id@),
{
    let slices: Vec<&[u8]> = seeds.iter().map(|seed| seed.as_slice()).collect();
    Pubkey::try_find_program_address(&slices, &Pubkey::new_from_array(program_id.bytes)).map(|(key, bump)| (Address { bytes: key.to_bytes() }, bump))
}

} // verus!
