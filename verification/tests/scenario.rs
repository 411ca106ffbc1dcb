use std::str::FromStr;

use anchor_lang::prelude::Pubkey;
use whitelist_transfer_hook::{
    add_to_whitelist, initialize_mint_with_hook, remove_from_whitelist, transfer_hook, Address,
    AllowListStore, HookError, InitializeMintWithHook, TransferAccounts,
};

fn transfer_to(owner: Address) -> TransferAccounts {
    TransferAccounts {
        source_token: Address::new([10; 32]),
        mint: Address::new([11; 32]),
        destination_token: Address::new([12; 32]),
        owner,
        extra_account_meta_list: Address::new([13; 32]),
    }
}

#[test]
fn end_to_end_allow_then_reject() {
    let program = Address::new(
        Pubkey::from_str("DhzyDgCmmQzVC4vEcj2zRGUyN8Mt5JynfdGLKkBcRGaX").unwrap().to_bytes(),
    );
    let admin = Address::new([1; 32]);
    let a = Address::new([0xA; 32]);
    let b = Address::new([0xB; 32]);

    let mut setup = InitializeMintWithHook {
        payer: admin,
        mint: Address::new([11; 32]),
        extra_account_meta_list: vec![0u8; InitializeMintWithHook::space().unwrap()],
    };
    assert_eq!(initialize_mint_with_hook(&mut setup), Ok(()));

    let mut store = AllowListStore::new(program, admin, 10_000_000, 1_183_200);
    assert_eq!(add_to_whitelist(&mut store, a), Ok(()));
    assert_eq!(transfer_hook(&store.attach(transfer_to(a)), 100), Ok(()));

    assert_eq!(remove_from_whitelist(&mut store, a), Ok(()));
    assert_eq!(
        transfer_hook(&store.attach(transfer_to(a)), 100),
        Err(HookError::ValidationRejection)
    );

    assert_eq!(
        transfer_hook(&store.attach(transfer_to(b)), 100),
        Err(HookError::ValidationRejection)
    );
    assert_eq!(store.admin_lamports(), 10_000_000);
    assert_eq!(store.len(), 0);
}
