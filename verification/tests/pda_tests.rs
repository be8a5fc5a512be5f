use papaya::{get_token_account_pda, get_token_vault_seed};

#[test]
fn seed_spells_partition_index_in_ascii() {
    assert_eq!(get_token_vault_seed(0), b"token_vault_0".to_vec());
    assert_eq!(get_token_vault_seed(3), b"token_vault_3".to_vec());
    assert_eq!(get_token_vault_seed(9), b"token_vault_9".to_vec());
    assert_eq!(get_token_vault_seed(42), b"token_vault_42".to_vec());
    assert_eq!(get_token_vault_seed(255), b"token_vault_255".to_vec());
}

#[test]
fn derived_address_matches_direct_derivation() {
    let mint = vec![7u8; 32];
    let program_id = vec![9u8; 32];
    let (key, bump) = get_token_account_pda(&mint, 3, &program_id).unwrap();
    assert_eq!(key.len(), 32);

    let seed = get_token_vault_seed(3);
    let mint_key = solana_pubkey::Pubkey::new_from_array([7u8; 32]);
    let pid = solana_pubkey::Pubkey::new_from_array([9u8; 32]);
    let (expected, expected_bump) =
        solana_pubkey::Pubkey::try_find_program_address(&[&seed, mint_key.as_ref()], &pid).unwrap();
    assert_eq!(key, expected.to_bytes().to_vec());
    assert_eq!(bump, expected_bump);
    // The derivation really transformed its inputs.
    assert_ne!(key, mint);
    assert_ne!(key, program_id);
}

#[test]
fn derived_address_depends_on_partition() {
    let mint = vec![7u8; 32];
    let program_id = vec![9u8; 32];
    let a = get_token_account_pda(&mint, 0, &program_id).unwrap().0;
    let b = get_token_account_pda(&mint, 1, &program_id).unwrap().0;
    assert_ne!(a, b);
    // And it is deterministic.
    let a_again = get_token_account_pda(&mint, 0, &program_id).unwrap().0;
    assert_eq!(a, a_again);
}
