use papaya::{
    create_papaya_vault, deposit_papaya, get_token_account_pda, withdraw_papaya, PapayaError,
    UserInteractions, Vault,
};

const HOUR_S: i64 = 3_600;

fn mint() -> Vec<u8> {
    vec![7u8; 32]
}

fn program_id() -> Vec<u8> {
    vec![9u8; 32]
}

fn pda_for(partition: u8) -> Vec<u8> {
    get_token_account_pda(&mint(), partition, &program_id()).unwrap().0
}

fn pool(amount: u64, rate: u32, hours: u32) -> Vault {
    let mut vault = Vault::new(mint());
    create_papaya_vault(&mut vault, amount, rate, hours, amount, &mint()).unwrap();
    vault
}

fn stake(vault: &mut Vault, user: &mut UserInteractions, amount: u64, slot: u32, partition: u8, now: u64) {
    deposit_papaya(
        vault, user, amount, slot, partition, now, amount, &pda_for(partition), &program_id(),
    )
    .unwrap();
}

#[test]
fn deposit_records_slot_and_partition() {
    let mut vault = pool(1_000_000_000_000, 10_000, 6);
    let mut user = UserInteractions::new();
    stake(&mut vault, &mut user, 1_000_000_000, 2, 3, 50);
    assert_eq!(user.total_deposits, vec![0, 0, 1_000_000_000, 0, 0]);
    assert_eq!(user.time_deposits, vec![0, 0, 50, 0, 0]);
    assert_eq!(user.stake_deposits, vec![0, 0, 50, 0, 0]);
    assert_eq!(user.vault_indices, vec![0, 0, 3, 0, 0]);
    assert_eq!(vault.vault_amounts_staked[3], 1_000_000_000);
    assert_eq!(vault.total_stakers, 1);
    assert_eq!(vault.current_stakers, 1);
}

#[test]
fn deposit_counts_a_depositor_once() {
    let mut vault = pool(1_000_000_000_000, 10_000, 6);
    let mut user = UserInteractions::new();
    stake(&mut vault, &mut user, 1_000_000_000, 0, 0, 50);
    stake(&mut vault, &mut user, 2_000_000_000, 1, 1, 60);
    assert_eq!(vault.total_stakers, 1);
    assert_eq!(vault.current_stakers, 1);
}

#[test]
fn deposit_into_occupied_slot_changes_nothing() {
    let mut vault = pool(1_000_000_000_000, 10_000, 6);
    let mut user = UserInteractions::new();
    stake(&mut vault, &mut user, 1_000_000_000, 1, 2, 50);
    let staked_before = vault.vault_amounts_staked.clone();
    let deposits_before = user.total_deposits.clone();
    let r = deposit_papaya(
        &mut vault, &mut user, 5_000_000_000, 1, 4, 90, 5_000_000_000, &pda_for(4), &program_id(),
    );
    assert_eq!(r, Err(PapayaError::AlreadyStaked));
    assert_eq!(vault.vault_amounts_staked, staked_before);
    assert_eq!(user.total_deposits, deposits_before);
    assert_eq!(user.stake_deposits, vec![0, 50, 0, 0, 0]);
    assert_eq!(vault.total_stakers, 1);
    assert_eq!(vault.current_stakers, 1);
}

#[test]
fn deposit_rejects_amount_outside_range() {
    let mut vault = pool(1_000_000_000_000, 10_000, 6);
    let mut user = UserInteractions::new();
    let too_small = deposit_papaya(
        &mut vault, &mut user, 99_999_999, 0, 0, 50, 99_999_999, &pda_for(0), &program_id(),
    );
    assert_eq!(too_small, Err(PapayaError::InvalidAmount));
    let too_big = deposit_papaya(
        &mut vault, &mut user, 10_000_000_000_001, 0, 0, 50, u64::MAX, &pda_for(0), &program_id(),
    );
    assert_eq!(too_big, Err(PapayaError::InvalidAmount));
}

#[test]
fn deposit_rejects_bad_indices() {
    let mut vault = pool(1_000_000_000_000, 10_000, 6);
    let mut user = UserInteractions::new();
    let bad_slot = deposit_papaya(
        &mut vault, &mut user, 1_000_000_000, 5, 0, 50, 1_000_000_000, &pda_for(0), &program_id(),
    );
    assert_eq!(bad_slot, Err(PapayaError::OutOfRange));
    let bad_partition = deposit_papaya(
        &mut vault, &mut user, 1_000_000_000, 0, 10, 50, 1_000_000_000, &pda_for(0), &program_id(),
    );
    assert_eq!(bad_partition, Err(PapayaError::OutOfRange));
}

#[test]
fn deposit_rejects_poor_depositor() {
    let mut vault = pool(1_000_000_000_000, 10_000, 6);
    let mut user = UserInteractions::new();
    let r = deposit_papaya(
        &mut vault, &mut user, 1_000_000_000, 0, 0, 50, 999_999_999, &pda_for(0), &program_id(),
    );
    assert_eq!(r, Err(PapayaError::InsufficientFunds));
}

#[test]
fn deposit_rejects_wrong_custodial_account() {
    let mut vault = pool(1_000_000_000_000, 10_000, 6);
    let mut user = UserInteractions::new();
    let r = deposit_papaya(
        &mut vault, &mut user, 1_000_000_000, 0, 0, 50, 1_000_000_000, &pda_for(1), &program_id(),
    );
    assert_eq!(r, Err(PapayaError::InvalidVaultAccount));
    assert_eq!(user.total_deposits, vec![0; 5]);
}

#[test]
fn withdraw_rejects_negative_time() {
    let mut vault = pool(1_000_000_000_000, 10_000, 6);
    let mut user = UserInteractions::new();
    stake(&mut vault, &mut user, 1_000_000_000, 0, 0, 50);
    let r = withdraw_papaya(&mut vault, &mut user, 0, false, -1, &pda_for(0), &program_id());
    assert_eq!(r, Err(PapayaError::TimeConversionError));
}

#[test]
fn withdraw_rejects_empty_slot() {
    let mut vault = pool(1_000_000_000_000, 10_000, 6);
    let mut user = UserInteractions::new();
    let r = withdraw_papaya(&mut vault, &mut user, 0, false, 100, &pda_for(0), &program_id());
    assert_eq!(r, Err(PapayaError::NoDeposits));
}

#[test]
fn withdraw_rejects_bad_slot_index() {
    let mut vault = pool(1_000_000_000_000, 10_000, 6);
    let mut user = UserInteractions::new();
    let r = withdraw_papaya(&mut vault, &mut user, 5, false, 100, &pda_for(0), &program_id());
    assert_eq!(r, Err(PapayaError::OutOfRange));
}

#[test]
fn withdraw_rejects_wrong_custodial_account() {
    let mut vault = pool(1_000_000_000_000, 10_000, 6);
    let mut user = UserInteractions::new();
    stake(&mut vault, &mut user, 1_000_000_000, 0, 2, 50);
    let r = withdraw_papaya(&mut vault, &mut user, 0, false, 100, &pda_for(3), &program_id());
    assert_eq!(r, Err(PapayaError::InvalidVaultAccount));
}

#[test]
fn full_withdraw_zeroes_slot_and_returns_principal() {
    let mut vault = pool(1_000_000_000_000, 10_000, 6);
    let mut user = UserInteractions::new();
    stake(&mut vault, &mut user, 1_000_000_000, 2, 3, 0);
    // One hour held: no completed period, reward zero, principal back.
    let r = withdraw_papaya(&mut vault, &mut user, 2, false, HOUR_S, &pda_for(3), &program_id());
    assert_eq!(r, Ok(1_000_000_000));
    assert_eq!(user.total_deposits, vec![0; 5]);
    assert_eq!(user.time_deposits, vec![0; 5]);
    assert_eq!(user.stake_deposits, vec![0; 5]);
    assert_eq!(user.vault_indices, vec![0; 5]);
    assert_eq!(vault.vault_amounts_staked[3], 0);
    assert_eq!(vault.total_stakers, 1);
    assert_eq!(vault.current_stakers, 0);
}

#[test]
fn full_withdraw_after_window_pays_compounded_total() {
    // Partition capacity 1e11 of a 1e12 pool: fill ratio one tenth, rate
    // 10.0, six-hour period, full window: one percent at each of four steps.
    let mut vault = pool(1_000_000_000_000, 10_000, 6);
    let mut user = UserInteractions::new();
    stake(&mut vault, &mut user, 1_000_000_000, 0, 4, 0);
    let r = withdraw_papaya(&mut vault, &mut user, 0, false, 24 * HOUR_S, &pda_for(4), &program_id());
    assert_eq!(r, Ok(1_040_604_010));
    // The gain left the partition's capacity; the principal never did.
    assert_eq!(vault.vault_amounts[4], 100_000_000_000 - 40_604_010);
    assert_eq!(vault.vault_amounts_staked[4], 0);
    assert_eq!(vault.current_stakers, 0);
}

#[test]
fn reward_only_claim_pays_gain_and_keeps_stake() {
    let mut vault = pool(1_000_000_000_000, 10_000, 6);
    let mut user = UserInteractions::new();
    stake(&mut vault, &mut user, 1_000_000_000, 0, 4, 0);
    let r = withdraw_papaya(&mut vault, &mut user, 0, true, 24 * HOUR_S, &pda_for(4), &program_id());
    assert_eq!(r, Ok(40_604_010));
    assert_eq!(user.total_deposits[0], 1_000_000_000);
    assert_eq!(user.stake_deposits[0], (24 * HOUR_S) as u64);
    assert_eq!(user.time_deposits[0], 0);
    assert_eq!(vault.vault_amounts_staked[4], 1_000_000_000);
    assert_eq!(vault.current_stakers, 1);
}

#[test]
fn reward_only_claim_with_no_gain_pays_nothing_but_advances_clock() {
    let mut vault = pool(1_000_000_000_000, 10_000, 6);
    let mut user = UserInteractions::new();
    stake(&mut vault, &mut user, 1_000_000_000, 1, 2, 0);
    // Three hours held: computed reward is zero, at most the principal.
    let r = withdraw_papaya(&mut vault, &mut user, 1, true, 3 * HOUR_S, &pda_for(2), &program_id());
    assert_eq!(r, Ok(0));
    assert_eq!(user.total_deposits[1], 1_000_000_000);
    assert_eq!(user.stake_deposits[1], (3 * HOUR_S) as u64);
    assert_eq!(vault.current_stakers, 1);
}

#[test]
fn withdraw_fails_when_partition_cannot_fund_gain() {
    // A tiny pool: partition capacity 100, fill ratio one tenth, but an
    // enormous rate makes the gain far exceed the capacity.
    let mut vault = pool(1_000, 100_000_000, 6);
    let mut user = UserInteractions::new();
    stake(&mut vault, &mut user, 100_000_000, 0, 0, 0);
    let deposits_before = user.total_deposits.clone();
    let r = withdraw_papaya(&mut vault, &mut user, 0, false, 24 * HOUR_S, &pda_for(0), &program_id());
    assert_eq!(r, Err(PapayaError::EmptyVault));
    assert_eq!(user.total_deposits, deposits_before);
    assert_eq!(vault.vault_amounts[0], 100);
}

#[test]
fn withdraw_fails_on_staked_underflow() {
    let mut vault = pool(1_000_000_000_000, 10_000, 6);
    let mut user = UserInteractions::new();
    stake(&mut vault, &mut user, 1_000_000_000, 0, 0, 0);
    // A corrupted partition balance cannot cover the principal.
    vault.vault_amounts_staked[0] = 1;
    let r = withdraw_papaya(&mut vault, &mut user, 0, false, HOUR_S, &pda_for(0), &program_id());
    assert_eq!(r, Err(PapayaError::MathOverflow));
}

#[test]
fn staker_gauge_falls_only_when_last_slot_closes() {
    let mut vault = pool(1_000_000_000_000, 10_000, 6);
    let mut user = UserInteractions::new();
    stake(&mut vault, &mut user, 1_000_000_000, 0, 0, 0);
    stake(&mut vault, &mut user, 1_000_000_000, 3, 1, 0);
    assert_eq!(vault.current_stakers, 1);
    withdraw_papaya(&mut vault, &mut user, 0, false, HOUR_S, &pda_for(0), &program_id()).unwrap();
    assert_eq!(vault.current_stakers, 1);
    withdraw_papaya(&mut vault, &mut user, 3, false, HOUR_S, &pda_for(1), &program_id()).unwrap();
    assert_eq!(vault.current_stakers, 0);
    assert_eq!(vault.total_stakers, 1);
}
