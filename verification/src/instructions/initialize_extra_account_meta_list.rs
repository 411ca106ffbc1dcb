use vstd::prelude::*;
use crate::address::Address;
use crate::error::HookError;
use crate::instructions::initialize_mint_with_hook::InitializeMintWithHook;
use crate::resolver::{is_whitelist_rules, ExtraAccountMeta};

verus! {

/// The accounts of the instruction that writes the resolver metadata for an
/// asset that exists already: who pays, the asset, and the storage reserved
/// for the metadata.
#[derive(Debug)]
pub struct InitializeExtraAccountMetaList {
    pub payer: Address,
    pub mint: Address,
    pub extra_account_meta_list: Vec<u8>,
}

impl InitializeExtraAccountMetaList {
    /// The rule list of the hook, the same for every asset.
    pub fn extra_account_metas() -> (r: Result<Vec<ExtraAccountMeta>, HookError>)
        ensures
            r matches Ok(metas) && is_whitelist_rules(metas@),
    {
        InitializeMintWithHook::get_extra_account_metas()
    }
}

} // verus!
