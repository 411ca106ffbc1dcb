pub mod initialize_extra_account_meta_list;
pub mod initialize_mint_with_hook;
pub mod transfer_hook;
pub mod whitelist_operations;

pub use initialize_extra_account_meta_list::InitializeExtraAccountMetaList;
pub use initialize_mint_with_hook::InitializeMintWithHook;
pub use transfer_hook::{Decision, ResolvedAccount, TransferAccounts, TransferHook};
pub use whitelist_operations::{AddToWhitelist, AddToWhitelistBumps, RemoveFromWhitelist};
