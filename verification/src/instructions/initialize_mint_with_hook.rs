use vstd::prelude::*;
use crate::address::Address;
use crate::error::HookError;
use crate::metadata::{
    is_blank, metadata_bytes, metadata_len, zeros, ExtraAccountMetaList, EXECUTE_DISCRIMINATOR,
};
use crate::pda::WHITELIST_SEED;
use crate::resolver::{is_whitelist_rules, whitelist_rule, whitelist_rule_seeds, ExtraAccountMeta};
use crate::seeds::{address_config, packed_seeds, seeds_fit};

verus! {

/// Bytes of the resolver metadata of this hook: one rule.
pub const METADATA_SPACE: usize = 51;

/// The resolver metadata of this hook as it lies in storage: the type tag,
/// 39 for the bytes that follow the length, 1 for the number of rules, then
/// the rule: derived under the hook's own program, from the literal
/// `whitelist` (tag 1, nine bytes) and the address of the account at
/// position 3 (tag 3), an account that neither signs nor is written.
pub open spec fn whitelist_metadata() -> Seq<u8> {
    seq![
        105u8, 37, 101, 197, 75, 251, 102, 26,
        39, 0, 0, 0,
        1, 0, 0, 0,
        1,
        1, 9, 119, 104, 105, 116, 101, 108, 105, 115, 116,
        3, 3,
        0, 0, 0, 0, 0, 0, 0, 0, 0, 0, 0, 0, 0, 0, 0, 0, 0, 0, 0,
        0,
        0,
    ]
}

/// The seeds of the rule fit it: packed, they take 13 bytes.
pub proof fn lemma_whitelist_rule_fits()
    ensures
        seeds_fit(whitelist_rule_seeds()),
        packed_seeds(whitelist_rule_seeds()) == seq![
            1u8, 9, 119, 104, 105, 116, 101, 108, 105, 115, 116, 3, 3,
        ],
{
    reveal_with_fuel(packed_seeds, 3);
    let seeds = whitelist_rule_seeds();
    assert(WHITELIST_SEED@ =~= seq![119u8, 104, 105, 116, 101, 108, 105, 115, 116]);
    assert(seeds.drop_last().drop_last() =~= Seq::empty());
    assert(seeds.drop_last().last() == seeds[0]);
    assert(packed_seeds(seeds) =~= seq![
        1u8, 9, 119, 104, 105, 116, 101, 108, 105, 115, 116, 3, 3,
    ]);
}

/// Whatever computes the rule list of this hook, what is stored for it is
/// the same bytes.
pub proof fn lemma_whitelist_metadata(metas: Seq<ExtraAccountMeta>)
    requires
        is_whitelist_rules(metas),
    ensures
        metadata_bytes(metas) == whitelist_metadata(),
        metadata_len(metas.len()) == METADATA_SPACE,
{
    lemma_whitelist_rule_fits();
    reveal_with_fuel(crate::metadata::rules_bytes, 2);
    assert(metas.drop_last() =~= Seq::empty());
    let config = address_config(whitelist_rule_seeds());
    assert(config =~= seq![
        1u8, 9, 119, 104, 105, 116, 101, 108, 105, 115, 116, 3, 3,
        0, 0, 0, 0, 0, 0, 0, 0, 0, 0, 0, 0, 0, 0, 0, 0, 0, 0, 0,
    ]);
    assert(EXECUTE_DISCRIMINATOR@ =~= seq![105u8, 37, 101, 197, 75, 251, 102, 26]);
    assert(metadata_bytes(metas) =~= whitelist_metadata());
}

/// The accounts of the instruction that sets an asset up with this hook: who
/// pays, the asset, and the storage reserved for the resolver metadata.
#[derive(Debug)]
pub struct InitializeMintWithHook {
    pub payer: Address,
    pub mint: Address,
    pub extra_account_meta_list: Vec<u8>,
}

impl InitializeMintWithHook {
    /// Writes the resolver metadata of the hook into the storage reserved
    /// for it. The storage must be blank and hold at least 51 bytes; else
    /// nothing is written.
    pub fn initialize_mint_with_hook(&mut self) -> (r: Result<(), HookError>)
        ensures
            r is Ok <==> is_blank(old(self).extra_account_meta_list@) && old(
                self,
            ).extra_account_meta_list@.len() >= METADATA_SPACE,
            r is Ok ==> final(self).extra_account_meta_list@ == whitelist_metadata() + zeros(
                (old(self).extra_account_meta_list@.len() - METADATA_SPACE) as nat,
            ),
            r is Err ==> final(self).extra_account_meta_list@ == old(self).extra_account_meta_list@,
            final(self).extra_account_meta_list@.len() == old(self).extra_account_meta_list@.len(),
            r matches Err(e) ==> e == (if is_blank(old(self).extra_account_meta_list@) {
                HookError::SerializationSizingFailure
            } else {
                HookError::DuplicateOrMissingEntry
            }),
            final(self).payer == old(self).payer,
            final(self).mint == old(self).mint,
    {
        let extra_account_metas = match Self::get_extra_account_metas() {
            Ok(metas) => metas,
            Err(e) => {
                return Err(e);
            },
        };
        proof {
            lemma_whitelist_metadata(extra_account_metas@);
        }
        ExtraAccountMetaList::init(&mut self.extra_account_meta_list, &extra_account_metas)
    }

    /// The rule list of the hook: the one rule that names the allow-list
    /// record of the receiving owner.
    pub fn get_extra_account_metas() -> (r: Result<Vec<ExtraAccountMeta>, HookError>)
        ensures
            r matches Ok(metas) && is_whitelist_rules(metas@),
    {
        let seeds = whitelist_rule();
        proof {
            lemma_whitelist_rule_fits();
        }
        match ExtraAccountMeta::new_with_seeds(&seeds, false, false) {
            Ok(meta) => {
                let mut metas: Vec<ExtraAccountMeta> = Vec::new();
                metas.push(meta);
                Ok(metas)
            },
            Err(e) => Err(e),
        }
    }

    /// Number of bytes to reserve for the resolver metadata of the hook.
    pub fn space() -> (r: Result<usize, HookError>)
        ensures
            r == Ok::<usize, HookError>(METADATA_SPACE),
    {
        match Self::get_extra_account_metas() {
            Ok(metas) => ExtraAccountMetaList::size_of(metas.len()),
            Err(e) => Err(e),
        }
    }
}

} // verus!
