//! A token staking and reward-accrual engine over a partitioned vault pool.
//!
//! A pool's funding is split at initialization into ten fixed partitions,
//! each a reserve that pays rewards for the principal staked against it.
//! Depositors hold up to five concurrent stake slots per token; rewards
//! compound once per completed accrual period, scaled by the partition's
//! fill ratio, over a capped holding window. Caller identity, fund custody
//! and persistent addressing belong to the hosting environment; this crate
//! is the deterministic accounting core, with its behaviour stated in
//! contracts and proved.

mod engine;
mod errors;
mod ledger;
mod pda;
mod reward;
mod vault;

pub use engine::{
    create_papaya_vault, create_vault_token_account, deposit_papaya, get_optimal_vault_for_deposit,
    get_vault_info, lemma_partition_split_even, lemma_reward_deduction_never_overdraws,
    spec_create_err, spec_deposit_err, spec_elapsed_ms, spec_partition_share, spec_slot_gain,
    spec_slot_reward, spec_withdraw_err, spec_withdraw_payout, withdraw_papaya, MAX_DEPOSIT,
    MIN_DEPOSIT,
};
pub use errors::PapayaError;
pub use ledger::{spec_active_count, UserInteractions, SLOT_COUNT};
pub use pda::{get_token_account_pda, get_token_vault_seed, pda_of, spec_seed_bytes};
pub use reward::{
    calculate_reward, lemma_reward_monotone_in_elapsed, lemma_reward_monotone_in_fill,
    lemma_reward_zero_before_first_period, reward_or_zero, spec_compound, spec_held_hours,
    spec_reward, spec_step, MAX_HELD_HOURS, MS_PER_HOUR, RATE_SCALE,
};
pub use vault::{sum64, Vault, VaultInfo, PARTITION_COUNT};
