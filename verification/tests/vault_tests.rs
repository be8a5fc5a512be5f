use papaya::{
    create_papaya_vault, create_vault_token_account, get_optimal_vault_for_deposit, get_vault_info,
    PapayaError, Vault,
};

fn token() -> Vec<u8> {
    vec![7u8; 32]
}

fn fresh_vault() -> Vault {
    Vault::new(token())
}

#[test]
fn create_splits_evenly_when_divisible() {
    let mut vault = fresh_vault();
    create_papaya_vault(&mut vault, 100, 10_000, 6, 100, &token()).unwrap();
    assert_eq!(vault.vault_amounts, vec![10u64; 10]);
    assert_eq!(vault.start_pool, 100);
    assert_eq!(vault.total_amount(), 100);
}

#[test]
fn create_gives_remainder_to_first_partitions() {
    let mut vault = fresh_vault();
    create_papaya_vault(&mut vault, 105, 10_000, 6, 105, &token()).unwrap();
    assert_eq!(vault.vault_amounts, vec![11, 11, 11, 11, 11, 10, 10, 10, 10, 10]);
    assert_eq!(vault.total_amount(), 105);
}

#[test]
fn create_sum_matches_total_for_awkward_amounts() {
    for amount in [1u64, 9, 10, 19, 1_234_567_891] {
        let mut vault = fresh_vault();
        create_papaya_vault(&mut vault, amount, 10_000, 6, amount, &token()).unwrap();
        let total: u64 = vault.vault_amounts.iter().sum();
        assert_eq!(total, amount);
        for capacity in &vault.vault_amounts {
            assert!(*capacity == amount / 10 || *capacity == amount / 10 + 1);
        }
    }
}

#[test]
fn create_rejects_zero_amount() {
    let mut vault = fresh_vault();
    assert_eq!(
        create_papaya_vault(&mut vault, 0, 10_000, 6, 100, &token()),
        Err(PapayaError::InvalidAmount)
    );
    assert_eq!(vault.start_pool, 0);
}

#[test]
fn create_rejects_existing_pool() {
    let mut vault = fresh_vault();
    create_papaya_vault(&mut vault, 100, 10_000, 6, 100, &token()).unwrap();
    assert_eq!(
        create_papaya_vault(&mut vault, 200, 10_000, 6, 200, &token()),
        Err(PapayaError::AlreadyExists)
    );
    assert_eq!(vault.start_pool, 100);
}

#[test]
fn create_rejects_poor_creator() {
    let mut vault = fresh_vault();
    assert_eq!(
        create_papaya_vault(&mut vault, 100, 10_000, 6, 99, &token()),
        Err(PapayaError::InsufficientFunds)
    );
}

#[test]
fn seeding_amount_is_partition_capacity() {
    let mut vault = fresh_vault();
    create_papaya_vault(&mut vault, 105, 10_000, 6, 105, &token()).unwrap();
    assert_eq!(create_vault_token_account(&vault, 0), Ok(11));
    assert_eq!(create_vault_token_account(&vault, 9), Ok(10));
    assert_eq!(create_vault_token_account(&vault, 10), Err(PapayaError::OutOfRange));
}

#[test]
fn deposit_targets_least_staked_partition() {
    let mut vault = fresh_vault();
    create_papaya_vault(&mut vault, 100, 10_000, 6, 100, &token()).unwrap();
    assert_eq!(vault.get_vault_index_for_deposit(), 0);
    vault.vault_amounts_staked = vec![5, 3, 9, 3, 4, 8, 7, 6, 5, 4];
    assert_eq!(vault.get_vault_index_for_deposit(), 1);
    assert_eq!(get_optimal_vault_for_deposit(&vault), 1);
}

#[test]
fn withdrawal_partition_is_first_able_to_pay() {
    let mut vault = fresh_vault();
    create_papaya_vault(&mut vault, 100, 10_000, 6, 100, &token()).unwrap();
    vault.vault_amounts = vec![1, 2, 30, 4, 5, 60, 7, 8, 9, 10];
    assert_eq!(vault.get_vault_index_for_withdrawal(20), Some(2));
    assert_eq!(vault.get_vault_index_for_withdrawal(31), Some(5));
    assert_eq!(vault.get_vault_index_for_withdrawal(61), None);
    assert_eq!(vault.get_vault_index_for_withdrawal(0), Some(0));
}

#[test]
fn vault_info_snapshots_every_field() {
    let mut vault = fresh_vault();
    create_papaya_vault(&mut vault, 105, 12_345, 8, 105, &token()).unwrap();
    let info = get_vault_info(&vault);
    assert_eq!(info.token, token());
    assert_eq!(info.vault_amounts, vault.vault_amounts);
    assert_eq!(info.vault_amounts_staked, vault.vault_amounts_staked);
    assert_eq!(info.total_amount, 105);
    assert_eq!(info.total_staked, 0);
    assert_eq!(info.start_pool, 105);
    assert_eq!(info.base_rate, 12_345);
    assert_eq!(info.base_hour, 8);
    assert_eq!(info.total_stakers, 0);
    assert_eq!(info.current_stakers, 0);
}
