use spl_discriminator::SplDiscriminate;
use spl_transfer_hook_interface::instruction::ExecuteInstruction;
use whitelist_transfer_hook::instructions::initialize_mint_with_hook::METADATA_SPACE;
use whitelist_transfer_hook::metadata::{EXECUTE_DISCRIMINATOR, HEADER_LEN, MAX_RULES, RULE_LEN};
use whitelist_transfer_hook::{
    initialize_mint_with_hook, initialize_transfer_hook, Address, ExtraAccountMeta,
    ExtraAccountMetaList, HookError, InitializeExtraAccountMetaList, InitializeMintWithHook, Seed,
};

fn expected_metadata() -> Vec<u8> {
    let mut bytes = vec![105u8, 37, 101, 197, 75, 251, 102, 26];
    bytes.extend_from_slice(&[39, 0, 0, 0]);
    bytes.extend_from_slice(&[1, 0, 0, 0]);
    bytes.push(1);
    bytes.extend_from_slice(&[1, 9]);
    bytes.extend_from_slice(b"whitelist");
    bytes.extend_from_slice(&[3, 3]);
    bytes.extend_from_slice(&[0u8; 19]);
    bytes.extend_from_slice(&[0, 0]);
    bytes
}

fn mint_accounts(space: usize) -> InitializeMintWithHook {
    InitializeMintWithHook {
        payer: Address::new([1; 32]),
        mint: Address::new([2; 32]),
        extra_account_meta_list: vec![0u8; space],
    }
}

#[test]
fn execute_tag_is_the_interfaces() {
    assert_eq!(&EXECUTE_DISCRIMINATOR[..], ExecuteInstruction::SPL_DISCRIMINATOR_SLICE);
}

#[test]
fn size_of_counts_header_and_rules() {
    assert_eq!(ExtraAccountMetaList::size_of(0), Ok(16));
    assert_eq!(ExtraAccountMetaList::size_of(1), Ok(51));
    assert_eq!(ExtraAccountMetaList::size_of(2), Ok(86));
    assert_eq!(ExtraAccountMetaList::size_of(10), Ok(HEADER_LEN + 10 * RULE_LEN));
}

#[test]
fn size_of_agrees_with_the_account_resolution_crate() {
    for n in [0usize, 1, 2, 3, 100, 65_536] {
        assert_eq!(
            ExtraAccountMetaList::size_of(n).unwrap(),
            spl_tlv_account_resolution::state::ExtraAccountMetaList::size_of(n).unwrap()
        );
    }
}

#[test]
fn size_of_fails_where_the_size_does_not_fit() {
    assert_eq!(
        ExtraAccountMetaList::size_of(usize::MAX),
        Err(HookError::SerializationSizingFailure)
    );
    let last = (usize::MAX - 16) / 35;
    assert_eq!(ExtraAccountMetaList::size_of(last), Ok(16 + 35 * last));
    assert_eq!(
        ExtraAccountMetaList::size_of(last + 1),
        Err(HookError::SerializationSizingFailure)
    );
}

#[test]
fn space_of_the_hook_is_51_bytes() {
    assert_eq!(InitializeMintWithHook::space(), Ok(51));
    assert_eq!(METADATA_SPACE, 51);
}

#[test]
fn initialize_mint_writes_the_metadata() {
    let mut accounts = mint_accounts(51);
    assert_eq!(accounts.initialize_mint_with_hook(), Ok(()));
    assert_eq!(accounts.extra_account_meta_list, expected_metadata());
    assert!(accounts.payer == Address::new([1; 32]));
    assert!(accounts.mint == Address::new([2; 32]));
}

#[test]
fn initialize_mint_leaves_the_rest_blank() {
    let mut accounts = mint_accounts(80);
    assert_eq!(initialize_mint_with_hook(&mut accounts), Ok(()));
    let mut expected = expected_metadata();
    expected.extend_from_slice(&[0u8; 29]);
    assert_eq!(accounts.extra_account_meta_list, expected);
}

#[test]
fn initialize_mint_refuses_storage_that_is_too_small() {
    for space in [0usize, 8, 12, 16, 50] {
        let mut accounts = mint_accounts(space);
        assert_eq!(
            accounts.initialize_mint_with_hook(),
            Err(HookError::SerializationSizingFailure)
        );
        assert_eq!(accounts.extra_account_meta_list, vec![0u8; space]);
    }
}

#[test]
fn initialize_mint_refuses_storage_that_was_written() {
    let mut accounts = mint_accounts(51);
    assert_eq!(accounts.initialize_mint_with_hook(), Ok(()));
    assert_eq!(accounts.initialize_mint_with_hook(), Err(HookError::DuplicateOrMissingEntry));
    assert_eq!(accounts.extra_account_meta_list, expected_metadata());

    let mut accounts = mint_accounts(51);
    accounts.extra_account_meta_list[50] = 1;
    let before = accounts.extra_account_meta_list.clone();
    assert_eq!(accounts.initialize_mint_with_hook(), Err(HookError::DuplicateOrMissingEntry));
    assert_eq!(accounts.extra_account_meta_list, before);

    let mut accounts = mint_accounts(3);
    accounts.extra_account_meta_list[0] = 1;
    assert_eq!(accounts.initialize_mint_with_hook(), Err(HookError::DuplicateOrMissingEntry));
}

#[test]
fn initialize_transfer_hook_writes_the_same_metadata() {
    let mut accounts = InitializeExtraAccountMetaList {
        payer: Address::new([1; 32]),
        mint: Address::new([2; 32]),
        extra_account_meta_list: vec![0u8; 51],
    };
    assert_eq!(initialize_transfer_hook(&mut accounts), Ok(()));
    assert_eq!(accounts.extra_account_meta_list, expected_metadata());
    assert_eq!(initialize_transfer_hook(&mut accounts), Err(HookError::DuplicateOrMissingEntry));

    let mut small = InitializeExtraAccountMetaList {
        payer: Address::new([1; 32]),
        mint: Address::new([2; 32]),
        extra_account_meta_list: vec![0u8; 50],
    };
    assert_eq!(initialize_transfer_hook(&mut small), Err(HookError::SerializationSizingFailure));
    assert_eq!(small.extra_account_meta_list, vec![0u8; 50]);
}

#[test]
fn init_writes_rules_in_order() {
    let first = ExtraAccountMeta::new_with_seeds(&vec![Seed::AccountKey { index: 2 }], true, false)
        .unwrap();
    let second =
        ExtraAccountMeta::new_with_seeds(&vec![Seed::Literal { bytes: vec![7, 8] }], false, true)
            .unwrap();
    let mut data = vec![0u8; 90];
    assert_eq!(ExtraAccountMetaList::init(&mut data, &vec![first, second]), Ok(()));
    let mut expected = vec![105u8, 37, 101, 197, 75, 251, 102, 26];
    expected.extend_from_slice(&[74, 0, 0, 0]);
    expected.extend_from_slice(&[2, 0, 0, 0]);
    expected.push(1);
    expected.extend_from_slice(&[3, 2]);
    expected.extend_from_slice(&[0u8; 30]);
    expected.extend_from_slice(&[1, 0]);
    expected.push(1);
    expected.extend_from_slice(&[1, 2, 7, 8]);
    expected.extend_from_slice(&[0u8; 28]);
    expected.extend_from_slice(&[0, 1]);
    expected.extend_from_slice(&[0u8; 4]);
    assert_eq!(data, expected);
}

#[test]
fn init_of_no_rules_writes_the_header() {
    let mut data = vec![0u8; 16];
    assert_eq!(ExtraAccountMetaList::init(&mut data, &Vec::new()), Ok(()));
    assert_eq!(data, vec![105u8, 37, 101, 197, 75, 251, 102, 26, 4, 0, 0, 0, 0, 0, 0, 0]);
    let mut short = vec![0u8; 15];
    assert_eq!(
        ExtraAccountMetaList::init(&mut short, &Vec::new()),
        Err(HookError::SerializationSizingFailure)
    );
    assert_eq!(short, vec![0u8; 15]);
}

#[test]
fn init_length_field_carries_over_256() {
    let rule = ExtraAccountMeta::new_with_seeds(&vec![Seed::AccountKey { index: 2 }], false, false)
        .unwrap();
    let rules = vec![rule; 8];
    let mut data = vec![0u8; 16 + 35 * 8];
    assert_eq!(ExtraAccountMetaList::init(&mut data, &rules), Ok(()));
    assert_eq!(&data[8..12], &[28, 1, 0, 0]);
    assert_eq!(&data[12..16], &[8, 0, 0, 0]);
    assert_eq!(&data[16..19], &[1, 3, 2]);
    assert_eq!(&data[16 + 35 * 7..16 + 35 * 7 + 3], &[1, 3, 2]);
}

#[test]
fn blank_storage_is_all_zeros() {
    assert!(ExtraAccountMetaList::is_blank(&Vec::new()));
    assert!(ExtraAccountMetaList::is_blank(&vec![0u8; 100]));
    let mut data = vec![0u8; 100];
    data[99] = 1;
    assert!(!ExtraAccountMetaList::is_blank(&data));
}

#[test]
fn most_rules_that_a_length_field_can_hold() {
    assert_eq!(MAX_RULES, (u32::MAX as usize - 4) / 35);
}
