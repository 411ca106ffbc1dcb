//! An allow-list gate for transfers of an asset: a hook that lets a transfer
//! pass only where the receiving owner is on the list, the rule by which the
//! transfer engine finds the record that the hook reads, and the list itself
//! with the funds reserved for its storage.

use vstd::prelude::*;

pub mod address;
pub mod error;
pub mod instructions;
pub mod laws;
pub mod metadata;
pub mod pda;
pub mod resolver;
pub mod seeds;
pub mod store;
pub mod whitelist;

pub use address::Address;
pub use error::HookError;
pub use instructions::{
    AddToWhitelist, AddToWhitelistBumps, Decision, InitializeExtraAccountMetaList,
    InitializeMintWithHook, RemoveFromWhitelist, ResolvedAccount, TransferAccounts, TransferHook,
};
pub use metadata::ExtraAccountMetaList;
pub use resolver::ExtraAccountMeta;
pub use seeds::Seed;
pub use store::AllowListStore;
pub use whitelist::Whitelist;

use instructions::initialize_mint_with_hook::{
    lemma_whitelist_metadata, whitelist_metadata, METADATA_SPACE,
};
use instructions::transfer_hook::{allows, attached_view};
use metadata::{is_blank, zeros};

verus! {

/// Sets an asset up with the hook: writes the resolver metadata into the
/// storage reserved for it.
pub fn initialize_mint_with_hook(ctx: &mut InitializeMintWithHook) -> (r: Result<(), HookError>)
    ensures
        r is Ok <==> is_blank(old(ctx).extra_account_meta_list@) && old(
            ctx,
        ).extra_account_meta_list@.len() >= METADATA_SPACE,
        r is Ok ==> final(ctx).extra_account_meta_list@ == whitelist_metadata() + zeros(
            (old(ctx).extra_account_meta_list@.len() - METADATA_SPACE) as nat,
        ),
        r is Err ==> final(ctx).extra_account_meta_list@ == old(ctx).extra_account_meta_list@,
        final(ctx).extra_account_meta_list@.len() == old(ctx).extra_account_meta_list@.len(),
        r matches Err(e) ==> e == (if is_blank(old(ctx).extra_account_meta_list@) {
            HookError::SerializationSizingFailure
        } else {
            HookError::DuplicateOrMissingEntry
        }),
        final(ctx).payer == old(ctx).payer,
        final(ctx).mint == old(ctx).mint,
{
    ctx.initialize_mint_with_hook()
}

/// Puts `user` on the allow-list.
pub fn add_to_whitelist(store: &mut AllowListStore, user: Address) -> (r: Result<(), HookError>)
    requires
        old(store).wf(),
    ensures
        final(store).wf(),
        final(store)@ == old(store)@.after_add(user@),
        r == old(store)@.add_outcome(user@),
{
    store.add(user)
}

/// Takes `user` off the allow-list.
pub fn remove_from_whitelist(store: &mut AllowListStore, user: Address) -> (r: Result<(), HookError>)
    requires
        old(store).wf(),
    ensures
        final(store).wf(),
        final(store)@ == old(store)@.after_remove(user@),
        r is Ok,
{
    store.remove(user)
}

/// Writes the resolver metadata of the hook for an asset that exists
/// already, into the storage reserved for it. The storage must be blank and
/// hold at least 51 bytes; else nothing is written.
pub fn initialize_transfer_hook(ctx: &mut InitializeExtraAccountMetaList) -> (r: Result<(), HookError>)
    ensures
        r is Ok <==> is_blank(old(ctx).extra_account_meta_list@) && old(
            ctx,
        ).extra_account_meta_list@.len() >= METADATA_SPACE,
        r is Ok ==> final(ctx).extra_account_meta_list@ == whitelist_metadata() + zeros(
            (old(ctx).extra_account_meta_list@.len() - METADATA_SPACE) as nat,
        ),
        r is Err ==> final(ctx).extra_account_meta_list@ == old(ctx).extra_account_meta_list@,
        final(ctx).extra_account_meta_list@.len() == old(ctx).extra_account_meta_list@.len(),
        r matches Err(e) ==> e == (if is_blank(old(ctx).extra_account_meta_list@) {
            HookError::SerializationSizingFailure
        } else {
            HookError::DuplicateOrMissingEntry
        }),
        final(ctx).payer == old(ctx).payer,
        final(ctx).mint == old(ctx).mint,
{
    let extra_account_metas = match InitializeExtraAccountMetaList::extra_account_metas() {
        Ok(metas) => metas,
        Err(e) => {
            return Err(e);
        },
    };
    proof {
        lemma_whitelist_metadata(extra_account_metas@);
    }
    ExtraAccountMetaList::init(&mut ctx.extra_account_meta_list, &extra_account_metas)
}

/// The hook: lets the transfer pass, or aborts it.
pub fn transfer_hook(ctx: &TransferHook, amount: u64) -> (r: Result<(), HookError>)
    ensures
        r is Ok <==> allows(ctx.transfer.owner@, ctx.program_id@, attached_view(ctx.whitelist)),
        r matches Err(e) ==> e == HookError::ValidationRejection,
{
    ctx.transfer_hook(amount)
}

} // verus!
