use anchor_lang::prelude::Pubkey;
use whitelist_transfer_hook::instructions::InitializeExtraAccountMetaList;
use whitelist_transfer_hook::pda::{find_whitelist_address, whitelist_seed, OWNER_INDEX};
use whitelist_transfer_hook::resolver::{resolve, whitelist_rule};
use whitelist_transfer_hook::{Address, ExtraAccountMeta, HookError, InitializeMintWithHook, Seed};

fn address(fill: u8) -> Address {
    Address::new([fill; 32])
}

fn expected_config() -> [u8; 32] {
    let mut config = [0u8; 32];
    config[0] = 1;
    config[1] = 9;
    config[2..11].copy_from_slice(b"whitelist");
    config[11] = 3;
    config[12] = 3;
    config
}

#[test]
fn rule_list_holds_the_one_whitelist_rule() {
    let metas = InitializeMintWithHook::get_extra_account_metas().unwrap();
    assert_eq!(metas.len(), 1);
    assert_eq!(metas[0].discriminator, 1);
    assert_eq!(metas[0].address_config, expected_config());
    assert!(!metas[0].is_signer);
    assert!(!metas[0].is_writable);
}

#[test]
fn rule_list_is_the_same_on_every_call() {
    let first = InitializeMintWithHook::get_extra_account_metas().unwrap();
    let second = InitializeMintWithHook::get_extra_account_metas().unwrap();
    let third = InitializeExtraAccountMetaList::extra_account_metas().unwrap();
    assert_eq!(first.len(), second.len());
    assert_eq!(first.len(), third.len());
    for i in 0..first.len() {
        assert_eq!(first[i].discriminator, second[i].discriminator);
        assert_eq!(first[i].address_config, second[i].address_config);
        assert_eq!(first[i].is_signer, second[i].is_signer);
        assert_eq!(first[i].is_writable, second[i].is_writable);
        assert_eq!(first[i].address_config, third[i].address_config);
    }
}

#[test]
fn rule_agrees_with_the_account_resolution_crate() {
    let outside = spl_tlv_account_resolution::account::ExtraAccountMeta::new_with_seeds(
        &[
            spl_tlv_account_resolution::seeds::Seed::Literal { bytes: b"whitelist".to_vec() },
            spl_tlv_account_resolution::seeds::Seed::AccountKey { index: 3 },
        ],
        false,
        false,
    )
    .unwrap();
    let metas = InitializeMintWithHook::get_extra_account_metas().unwrap();
    assert_eq!(metas[0].discriminator, outside.discriminator);
    assert_eq!(metas[0].address_config, outside.address_config);
    assert_eq!(metas[0].is_signer, bool::from(outside.is_signer));
    assert_eq!(metas[0].is_writable, bool::from(outside.is_writable));
}

#[test]
fn whitelist_rule_seeds_are_literal_then_owner() {
    let seeds = whitelist_rule();
    assert_eq!(seeds.len(), 2);
    assert!(matches!(&seeds[0], Seed::Literal { bytes } if bytes.as_slice() == b"whitelist"));
    assert!(matches!(&seeds[1], Seed::AccountKey { index: 3 }));
    assert_eq!(OWNER_INDEX, 3);
    assert_eq!(whitelist_seed(), b"whitelist".to_vec());
}

#[test]
fn new_with_seeds_keeps_the_flags() {
    let seeds = vec![Seed::AccountKey { index: 7 }];
    let meta = ExtraAccountMeta::new_with_seeds(&seeds, true, false).unwrap();
    assert_eq!(meta.discriminator, 1);
    assert!(meta.is_signer);
    assert!(!meta.is_writable);
    let mut config = [0u8; 32];
    config[0] = 3;
    config[1] = 7;
    assert_eq!(meta.address_config, config);
    let meta = ExtraAccountMeta::new_with_seeds(&seeds, false, true).unwrap();
    assert!(!meta.is_signer);
    assert!(meta.is_writable);
}

#[test]
fn new_with_seeds_of_nothing_is_all_zeros() {
    let seeds: Vec<Seed> = Vec::new();
    let meta = ExtraAccountMeta::new_with_seeds(&seeds, false, false).unwrap();
    assert_eq!(meta.discriminator, 1);
    assert_eq!(meta.address_config, [0u8; 32]);
}

#[test]
fn new_with_seeds_takes_exactly_32_bytes() {
    let seeds = vec![Seed::Literal { bytes: vec![5u8; 28] }, Seed::AccountKey { index: 1 }];
    let meta = ExtraAccountMeta::new_with_seeds(&seeds, false, false).unwrap();
    let mut config = [5u8; 32];
    config[0] = 1;
    config[1] = 28;
    config[30] = 3;
    config[31] = 1;
    assert_eq!(meta.address_config, config);
}

#[test]
fn new_with_seeds_refuses_33_bytes() {
    let seeds = vec![Seed::Literal { bytes: vec![5u8; 29] }, Seed::AccountKey { index: 1 }];
    assert_eq!(
        ExtraAccountMeta::new_with_seeds(&seeds, false, false).unwrap_err(),
        HookError::SerializationSizingFailure
    );
    let seeds = vec![Seed::Literal { bytes: vec![5u8; 31] }];
    assert_eq!(
        ExtraAccountMeta::new_with_seeds(&seeds, false, false).unwrap_err(),
        HookError::SerializationSizingFailure
    );
}

#[test]
fn new_with_seeds_refuses_a_long_literal() {
    for len in [254usize, 255, 256, 300, 1000] {
        let seeds = vec![Seed::AccountKey { index: 1 }, Seed::Literal { bytes: vec![1u8; len] }];
        assert_eq!(
            ExtraAccountMeta::new_with_seeds(&seeds, false, false).unwrap_err(),
            HookError::SerializationSizingFailure
        );
    }
}

#[test]
fn derived_address_is_the_ledgers() {
    let program = address(9);
    let user = address(4);
    let (expected, expected_bump) = Pubkey::find_program_address(
        &[b"whitelist", &[4u8; 32]],
        &Pubkey::new_from_array([9u8; 32]),
    );
    let (found, bump) = find_whitelist_address(&user, &program).unwrap();
    assert_eq!(found.bytes, expected.to_bytes());
    assert_eq!(bump, expected_bump);
    assert_ne!(found.bytes, user.bytes);
}

#[test]
fn derived_address_depends_on_user_and_program() {
    let (a, _) = find_whitelist_address(&address(1), &address(9)).unwrap();
    let (b, _) = find_whitelist_address(&address(2), &address(9)).unwrap();
    let (c, _) = find_whitelist_address(&address(1), &address(8)).unwrap();
    let (again, _) = find_whitelist_address(&address(1), &address(9)).unwrap();
    assert!(a != b);
    assert!(a != c);
    assert!(a == again);
}

#[test]
fn rule_resolves_to_the_record_of_the_owner() {
    let program = address(9);
    let owner = address(4);
    let keys = vec![address(10), address(11), address(12), owner, address(13)];
    let resolved = resolve(&whitelist_rule(), &keys, &program).unwrap();
    let derived = find_whitelist_address(&owner, &program).unwrap();
    assert!(resolved.0 == derived.0);
    assert_eq!(resolved.1, derived.1);
}

#[test]
fn rule_does_not_resolve_without_the_owner() {
    let keys = vec![address(10), address(11), address(12)];
    assert!(resolve(&whitelist_rule(), &keys, &address(9)).is_none());
}

#[test]
fn resolve_takes_literals_and_keys_in_order() {
    let program = address(9);
    let keys = vec![address(1), address(2)];
    let seeds = vec![
        Seed::AccountKey { index: 1 },
        Seed::Literal { bytes: b"x".to_vec() },
        Seed::AccountKey { index: 0 },
    ];
    let (expected, expected_bump) = Pubkey::find_program_address(
        &[&[2u8; 32], b"x", &[1u8; 32]],
        &Pubkey::new_from_array([9u8; 32]),
    );
    let (found, bump) = resolve(&seeds, &keys, &program).unwrap();
    assert_eq!(found.bytes, expected.to_bytes());
    assert_eq!(bump, expected_bump);
}

#[test]
fn resolve_gives_nothing_for_a_seed_that_is_too_long() {
    let seeds = vec![Seed::Literal { bytes: vec![0u8; 33] }];
    assert!(resolve(&seeds, &Vec::new(), &address(9)).is_none());
}

#[test]
fn addresses_compare_by_their_bytes() {
    let mut bytes = [3u8; 32];
    let a = Address::new(bytes);
    let b = Address::new(bytes);
    bytes[31] = 4;
    let c = Address::new(bytes);
    assert!(a == b);
    assert!(a != c);
    assert_eq!(a.to_vec(), vec![3u8; 32]);
}
