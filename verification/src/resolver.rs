use vstd::prelude::*;
use crate::address::Address;
use crate::error::HookError;
use crate::pda::{
    derived_view, find_program_address, program_address, seed_views, whitelist_address,
    whitelist_seed, OWNER_INDEX, WHITELIST_SEED,
};
use crate::seeds::{address_config, lemma_packed_seeds_covers, seeds_fit, Seed, SeedView};
use spl_tlv_account_resolution::solana_program_error::ProgramError;

verus! {

/// The error type of the account resolution crate; nothing is read from it.
#[verifier::external_type_specification]
#[verifier::external_body]
pub struct ExProgramError(spl_tlv_account_resolution::solana_program_error::ProgramError);

/// Tag of a rule whose address is derived from seeds under the hook's own
/// program.
pub const DERIVED_ADDRESS_RULE: u8 = 1;

/// A resolution rule: how to find one auxiliary account of a transfer, and
/// whether it must sign and may be written.
#[derive(Clone, Copy, Debug)]
pub struct ExtraAccountMeta {
    /// What kind of rule this is.
    pub discriminator: u8,
    /// For a derived address, the packed seeds followed by zeros.
    pub address_config: [u8; 32],
    /// Whether the account must sign.
    pub is_signer: bool,
    /// Whether the account may be written.
    pub is_writable: bool,
}

impl ExtraAccountMeta {
    /// Whether this is the rule that derives an address from `seeds`, with
    /// the given flags.
    pub open spec fn is_derived_from(self, seeds: Seq<SeedView>, is_signer: bool, is_writable: bool) -> bool {
        &&& self.discriminator == DERIVED_ADDRESS_RULE
        &&& self.address_config@ == address_config(seeds)
        &&& self.is_signer == is_signer
        &&& self.is_writable == is_writable
    }

    /// Two rules derived from the same seeds with the same flags are equal.
    pub proof fn lemma_derived_unique(a: ExtraAccountMeta, b: ExtraAccountMeta, seeds: Seq<SeedView>, is_signer: bool, is_writable: bool)
        requires
            a.is_derived_from(seeds, is_signer, is_writable),
            b.is_derived_from(seeds, is_signer, is_writable),
        ensures
            a == b,
    {
        assert(a.address_config =~= b.address_config);
    }

    /// The rule that derives an address from `seeds`. It exists where the
    /// packed seeds take at most 32 bytes.
    pub fn new_with_seeds(seeds: &Vec<Seed>, is_signer: bool, is_writable: bool) -> (r: Result<ExtraAccountMeta, HookError>)
        ensures
            r is Ok <==> seeds_fit(seeds.deep_view()),
            r matches Ok(meta) ==> meta.is_derived_from(seeds.deep_view(), is_signer, is_writable),
            r matches Err(e) ==> e == HookError::SerializationSizingFailure,
    {
        let mut i: usize = 0;
        while i < seeds.len()
            invariant
                i <= seeds@.len(),
                forall|k: int| 0 <= k < i ==> (#[trigger] seeds.deep_view()[k]).packed_len() <= 32,
            decreases seeds@.len() - i,
        {
            match &seeds[i] {
                Seed::Literal { bytes } => {
                    if bytes.len() > 30 {
                        proof {
                            lemma_packed_seeds_covers(seeds.deep_view(), i as int);
                        }
                        return Err(HookError::SerializationSizingFailure);
                    }
                },
                Seed::AccountKey { .. } => {},
            }
            i += 1;
        }
        match pack_seeds_into_rule(seeds, is_signer, is_writable) {
            Ok(meta) => Ok(meta),
            Err(_) => Err(HookError::SerializationSizingFailure),
        }
    }
}

/// The seeds of the one rule of this hook: the literal `whitelist`, then the
/// address of the receiving owner, who stands at position 3 of a transfer's
/// accounts.
pub open spec fn whitelist_rule_seeds() -> Seq<SeedView> {
    seq![SeedView::Literal { bytes: WHITELIST_SEED@ }, SeedView::AccountKey { index: OWNER_INDEX }]
}

/// Whether `metas` is the rule list of this hook: the one rule that derives
/// the address of the receiving owner's allow-list record, an account that
/// neither signs nor is written.
pub open spec fn is_whitelist_rules(metas: Seq<ExtraAccountMeta>) -> bool {
    metas.len() == 1 && metas[0].is_derived_from(whitelist_rule_seeds(), false, false)
}

/// The views of the addresses, in order.
pub open spec fn address_views(keys: Seq<Address>) -> Seq<Seq<u8>> {
    Seq::new(keys.len(), |i: int| keys[i]@)
}

/// Whether every position that the seeds name exists among `keys`.
pub open spec fn seeds_resolvable(seeds: Seq<SeedView>, keys: Seq<Seq<u8>>) -> bool {
    forall|i: int|
        0 <= i < seeds.len() ==> (#[trigger] seeds[i] matches SeedView::AccountKey { index }
            ==> index < keys.len())
}

/// The bytes that the seeds stand for in a transfer with the accounts `keys`.
pub open spec fn seed_values(seeds: Seq<SeedView>, keys: Seq<Seq<u8>>) -> Seq<Seq<u8>> {
    Seq::new(seeds.len(), |i: int| seeds[i].value(keys))
}

/// The address that a rule with these seeds names in a transfer with the
/// accounts `keys`, for the hook `program_id`; `None` where a seed names a
/// position that the transfer lacks, or the ledger derives no address.
pub open spec fn resolved_address(seeds: Seq<SeedView>, keys: Seq<Seq<u8>>, program_id: Seq<u8>) -> Option<(Seq<u8>, u8)> {
    if seeds_resolvable(seeds, keys) {
        program_address(seed_values(seeds, keys), program_id)
    } else {
        None
    }
}

/// The seeds of the one rule of this hook.
pub fn whitelist_rule() -> (seeds: Vec<Seed>)
    ensures
        seeds.deep_view() == whitelist_rule_seeds(),
{
    let mut seeds: Vec<Seed> = Vec::new();
    seeds.push(Seed::Literal { bytes: whitelist_seed() });
    seeds.push(Seed::AccountKey { index: OWNER_INDEX });
    assert(seeds.deep_view() =~= whitelist_rule_seeds());
    seeds
}

/// Resolves the seeds of a rule against the accounts of a transfer.
pub fn resolve(seeds: &Vec<Seed>, keys: &Vec<Address>, program_id: &Address) -> (r: Option<(Address, u8)>)
    ensures
        derived_view(r) == resolved_address(seeds.deep_view(), address_views(keys@), program_id@),
{
    let mut values: Vec<Vec<u8>> = Vec::new();
    let mut i: usize = 0;
    while i < seeds.len()
        invariant
            i <= seeds@.len(),
            values@.len() == i,
            seeds_resolvable(seeds.deep_view().take(i as int), address_views(keys@)),
            forall|k: int|
                0 <= k < i ==> (#[trigger] values@[k])@ == seeds.deep_view()[k].value(
                    address_views(keys@),
                ),
        decreases seeds@.len() - i,
    {
        match &seeds[i] {
            Seed::Literal { bytes } => {
                let copy = bytes.clone();
                assert(copy@ =~= bytes@);
                values.push(copy);
            },
            Seed::AccountKey { index } => {
                if (*index as usize) >= keys.len() {
                    assert(!seeds_resolvable(seeds.deep_view(), address_views(keys@))) by {
                        assert(seeds.deep_view()[i as int] matches SeedView::AccountKey { index: x }
                            && x >= keys@.len());
                    }
                    return None;
                }
                values.push(keys[*index as usize].to_vec());
            },
        }
        assert(seeds_resolvable(seeds.deep_view().take(i + 1), address_views(keys@))) by {
            assert forall|k: int| 0 <= k < i + 1 implies (#[trigger] seeds.deep_view().take(
                i + 1,
            )[k] matches SeedView::AccountKey { index } ==> index < address_views(keys@).len()) by {
                if k < i {
                    assert(seeds.deep_view().take(i as int)[k] == seeds.deep_view()[k]);
                }
            }
        }
        i += 1;
    }
    assert(seeds.deep_view().take(i as int) =~= seeds.deep_view());
    assert(seed_views(values@) =~= seed_values(seeds.deep_view(), address_views(keys@)));
    find_program_address(&values, program_id)
}

/// The rule of this hook names, in every transfer, the address of the
/// receiving owner's allow-list record.
pub proof fn lemma_whitelist_rule_resolves(keys: Seq<Seq<u8>>, program_id: Seq<u8>)
    requires
        keys.len() > OWNER_INDEX,
    ensures
        resolved_address(whitelist_rule_seeds(), keys, program_id) == whitelist_address(
            keys[OWNER_INDEX as int],
            program_id,
        ),
{
    assert(seed_values(whitelist_rule_seeds(), keys) =~= crate::pda::whitelist_seeds(
        keys[OWNER_INDEX as int],
    ));
}

/// Calls `ExtraAccountMeta::new_with_seeds` of spl-tlv-account-resolution.
/// Believed of it: it succeeds exactly where the packed seeds take at most 32
/// bytes, and the rule it then gives has tag 1, the packed seeds followed by
/// zeros, and the two flags as given. A seed that takes more than 32 bytes
/// on its own is kept away from it: the outside function computes a seed's
/// length in one byte, which a long literal overflows.
#[verifier::external_body]
fn pack_seeds_into_rule(seeds: &Vec<Seed>, is_signer: bool, is_writable: bool) -> (r: Result<ExtraAccountMeta, ProgramError>)
    requires
        forall|k: int|
            0 <= k < seeds.deep_view().len() ==> (#[trigger] seeds.deep_view()[k]).packed_len() <= 32,
    ensures
        r is Ok <==> seeds_fit(seeds.deep_view()),
        r matches Ok(meta) ==> meta.is_derived_from(seeds.deep_view(), is_signer, is_writable),
{
    let outside: Vec<spl_tlv_account_resolution::seeds::Seed> = seeds.iter().map(|seed| match seed {
        Seed::Literal { bytes } => spl_tlv_account_resolution::seeds::Seed::Literal { bytes: bytes.clone() },
        Seed::AccountKey { index } => spl_tlv_account_resolution::seeds::Seed::AccountKey { index: *index },
    }).collect();
    spl_tlv_account_resolution::account::ExtraAccountMeta::new_with_seeds(&outside, is_signer, is_writable).map(|meta| ExtraAccountMeta {
        discriminator: meta.discriminator,
        address_config: meta.address_config,
        is_signer: meta.is_signer.into(),
        is_writable: meta.is_writable.into(),
    })
}

} // verus!
