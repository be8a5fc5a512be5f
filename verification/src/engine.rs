use vstd::prelude::*;
use crate::errors::PapayaError;
use crate::ledger::{spec_active_count, UserInteractions, SLOT_COUNT};
use crate::pda::{bytes_equal, get_token_account_pda, pda_of, spec_seed_bytes};
use crate::vault::{
    copy_bytes, copy_u64s, lemma_sum64_elem_le, lemma_sum64_push, lemma_sum64_update, sum64,
    Vault, VaultInfo, PARTITION_COUNT,
};

verus! {

/// Smallest amount one deposit may stake.
pub const MIN_DEPOSIT: u64 = 100_000_000;

/// Largest amount one deposit may stake.
pub const MAX_DEPOSIT: u64 = 10_000_000_000_000;

/// The error, if any, of a deposit against pool `v` and ledger record `u`;
/// errors in the order they are checked.
pub open spec fn spec_deposit_err(
    v: Vault,
    u: UserInteractions,
    amount: u64,
    index: u32,
    vault_index: u8,
    depositor_balance: u64,
    supplied: Seq<u8>,
    program_id: Seq<u8>,
) -> Option<PapayaError> {
    if !(MIN_DEPOSIT <= amount && amount <= MAX_DEPOSIT) {
        Some(PapayaError::InvalidAmount)
    } else if index >= SLOT_COUNT {
        Some(PapayaError::OutOfRange)
    } else if vault_index >= PARTITION_COUNT {
        Some(PapayaError::OutOfRange)
    } else if depositor_balance < amount {
        Some(PapayaError::InsufficientFunds)
    } else if !(pda_of(spec_seed_bytes(vault_index), v.token@, program_id) matches Some(p)
        && p.0 == supplied) {
        Some(PapayaError::InvalidVaultAccount)
    } else if u.total_deposits@[index as int] != 0 {
        Some(PapayaError::AlreadyStaked)
    } else if sum64(v.vault_amounts_staked@) + amount > u64::MAX {
        Some(PapayaError::MathOverflow)
    } else if spec_active_count(u.total_deposits@) == 0
        && (v.total_stakers == u64::MAX || v.current_stakers == u64::MAX) {
        Some(PapayaError::MathOverflow)
    } else {
        None
    }
}

/// The error, if any, of initializing a pool of `amount` with the pool in
/// state `v` and the creator holding `creator_balance`; errors in the order
/// they are checked.
pub open spec fn spec_create_err(v: Vault, amount: u64, creator_balance: u64) -> Option<PapayaError> {
    if amount == 0 {
        Some(PapayaError::InvalidAmount)
    } else if sum64(v.vault_amounts@) != 0 {
        Some(PapayaError::AlreadyExists)
    } else if creator_balance < amount {
        Some(PapayaError::InsufficientFunds)
    } else {
        None
    }
}

/// Capacity preallocated to partition `i` when `amount` is split: the even
/// share, plus one of the remainder for the first `amount % 10` partitions.
pub open spec fn spec_partition_share(amount: u64, i: int) -> u64 {
    ((amount / 10) + if i < amount % 10 { 1int } else { 0int }) as u64
}

/// Law: the split gives every partition the even tenth of the pool or one
/// more: each capacity is within one of `amount / 10`. The ten shares sum
/// exactly to `amount`, as `create_papaya_vault` ensures.
pub proof fn lemma_partition_split_even(amount: u64)
    ensures
        forall|i: int| 0 <= i < PARTITION_COUNT
            ==> amount / 10 <= #[trigger] spec_partition_share(amount, i) <= amount / 10 + 1,
{
}

/// Law: a withdrawal that succeeds deducts at most the assigned partition's
/// capacity: the deduction never overdraws, so capacities never fall below
/// zero.
pub proof fn lemma_reward_deduction_never_overdraws(
    v: Vault,
    u: UserInteractions,
    index: u32,
    reward_only: bool,
    now_ts: i64,
    supplied: Seq<u8>,
    program_id: Seq<u8>,
)
    requires
        v.wf(),
        u.wf(),
        spec_withdraw_err(v, u, index, reward_only, now_ts, supplied, program_id) is None,
    ensures
        0 <= spec_slot_gain(v, u, index as int, now_ts as u64)
            <= v.vault_amounts@[u.vault_indices@[index as int] as int],
{
}

/// Initializes the vault pool: splits `amount` into ten partition capacities
/// that sum exactly to `amount`, fixes `start_pool` and the accrual
/// parameters, and zeroes all staked balances and staker gauges.
///
/// Fails `InvalidAmount` on a zero amount, `AlreadyExists` when the pool
/// already holds capacity, and `InsufficientFunds` when the creator cannot
/// fund it; a failed call changes nothing.
pub fn create_papaya_vault(
    vault: &mut Vault,
    amount: u64,
    base_rate: u32,
    base_hour: u32,
    creator_balance: u64,
    token: &Vec<u8>,
) -> (r: Result<(), PapayaError>)
    requires
        old(vault).wf(),
        token@.len() == 32,
    ensures
        final(vault).wf(),
        match r {
            Ok(()) => {
                &&& spec_create_err(*old(vault), amount, creator_balance) is None
                &&& final(vault).token@ == token@
                &&& final(vault).vault_amounts@.len() == PARTITION_COUNT
                &&& forall|i: int| 0 <= i < PARTITION_COUNT
                    ==> final(vault).vault_amounts@[i] == spec_partition_share(amount, i)
                &&& sum64(final(vault).vault_amounts@) == amount
                &&& forall|i: int| 0 <= i < PARTITION_COUNT
                    ==> final(vault).vault_amounts_staked@[i] == 0u64
                &&& final(vault).start_pool == amount
                &&& final(vault).base_rate == base_rate
                &&& final(vault).base_hour == base_hour
                &&& final(vault).total_stakers == 0
                &&& final(vault).current_stakers == 0
            },
            Err(e) => {
                &&& Some(e) == spec_create_err(*old(vault), amount, creator_balance)
                &&& *final(vault) == *old(vault)
            },
        },
{
    if amount == 0 {
        return Err(PapayaError::InvalidAmount);
    }
    if vault.total_amount() != 0 {
        return Err(PapayaError::AlreadyExists);
    }
    if creator_balance < amount {
        return Err(PapayaError::InsufficientFunds);
    }

    let base: u64 = amount / 10;
    let remainder: u64 = amount % 10;

    let mut amounts: Vec<u64> = Vec::new();
    let mut staked: Vec<u64> = Vec::new();
    let mut i: usize = 0;
    while i < PARTITION_COUNT
        invariant
            i <= PARTITION_COUNT,
            base == amount / 10,
            remainder == amount % 10,
            amounts@.len() == i,
            staked@.len() == i,
            forall|j: int| 0 <= j < i ==> amounts@[j] == spec_partition_share(amount, j),
            forall|j: int| 0 <= j < i ==> staked@[j] == 0u64,
            sum64(amounts@) == i * (amount / 10)
                + (if i <= amount % 10 { i as int } else { (amount % 10) as int }),
            sum64(staked@) == 0,
        decreases PARTITION_COUNT - i,
    {
        let share: u64 = if (i as u64) < remainder {
            proof {
                vstd::arithmetic::div_mod::lemma_div_is_ordered(amount as int, u64::MAX as int, 10);
            }
            base + 1
        } else {
            base
        };
        proof {
            lemma_sum64_push(amounts@, share);
            lemma_sum64_push(staked@, 0u64);
            assert((i + 1) * (amount / 10) == i * (amount / 10) + (amount / 10))
                by (nonlinear_arith);
        }
        amounts.push(share);
        staked.push(0);
        i = i + 1;
    }
    proof {
        vstd::arithmetic::div_mod::lemma_fundamental_div_mod(amount as int, 10);
    }
    vault.token = copy_bytes(token);
    vault.vault_amounts = amounts;
    vault.vault_amounts_staked = staked;
    vault.start_pool = amount;
    vault.base_rate = base_rate;
    vault.base_hour = base_hour;
    vault.total_stakers = 0;
    vault.current_stakers = 0;
    Ok(())
}

/// Stakes `amount` into slot `index`, assigned to partition `vault_index`:
/// validates the request, opens the slot with both clocks at `now`, adds the
/// principal to the partition's staked balance, and steps both staker gauges
/// when this is the depositor's first active slot. The caller then moves
/// `amount` from the depositor to the partition's custodial balance.
///
/// A failed call returns the one error `spec_deposit_err` names and changes
/// nothing.
pub fn deposit_papaya(
    vault: &mut Vault,
    user: &mut UserInteractions,
    amount: u64,
    index: u32,
    vault_index: u8,
    now: u64,
    depositor_balance: u64,
    supplied_vault_account: &Vec<u8>,
    program_id: &Vec<u8>,
) -> (r: Result<(), PapayaError>)
    requires
        old(vault).wf(),
        old(user).wf(),
        program_id@.len() == 32,
    ensures
        final(vault).wf(),
        final(user).wf(),
        match r {
            Ok(()) => {
                &&& spec_deposit_err(
                    *old(vault), *old(user), amount, index, vault_index,
                    depositor_balance, supplied_vault_account@, program_id@,
                ) is None
                &&& final(user).total_deposits@
                    == old(user).total_deposits@.update(index as int, amount)
                &&& final(user).time_deposits@
                    == old(user).time_deposits@.update(index as int, now)
                &&& final(user).stake_deposits@
                    == old(user).stake_deposits@.update(index as int, now)
                &&& final(user).vault_indices@
                    == old(user).vault_indices@.update(index as int, vault_index)
                &&& final(vault).vault_amounts_staked@
                    == old(vault).vault_amounts_staked@.update(
                        vault_index as int,
                        (old(vault).vault_amounts_staked@[vault_index as int] + amount) as u64,
                    )
                &&& final(vault).vault_amounts@ == old(vault).vault_amounts@
                &&& final(vault).token@ == old(vault).token@
                &&& final(vault).start_pool == old(vault).start_pool
                &&& final(vault).base_rate == old(vault).base_rate
                &&& final(vault).base_hour == old(vault).base_hour
                &&& (if spec_active_count(old(user).total_deposits@) == 0 {
                    final(vault).total_stakers == old(vault).total_stakers + 1
                        && final(vault).current_stakers == old(vault).current_stakers + 1
                } else {
                    final(vault).total_stakers == old(vault).total_stakers
                        && final(vault).current_stakers == old(vault).current_stakers
                })
            },
            Err(e) => {
                &&& Some(e) == spec_deposit_err(
                    *old(vault), *old(user), amount, index, vault_index,
                    depositor_balance, supplied_vault_account@, program_id@,
                )
                &&& *final(vault) == *old(vault)
                &&& *final(user) == *old(user)
            },
        },
{
    if !(amount >= MIN_DEPOSIT && amount <= MAX_DEPOSIT) {
        return Err(PapayaError::InvalidAmount);
    }
    if index as usize >= SLOT_COUNT {
        return Err(PapayaError::OutOfRange);
    }
    if vault_index as usize >= PARTITION_COUNT {
        return Err(PapayaError::OutOfRange);
    }
    if depositor_balance < amount {
        return Err(PapayaError::InsufficientFunds);
    }
    let expected = get_token_account_pda(&vault.token, vault_index, program_id);
    let address_ok = match &expected {
        Some(p) => bytes_equal(&p.0, supplied_vault_account),
        None => false,
    };
    if !address_ok {
        return Err(PapayaError::InvalidVaultAccount);
    }
    let slot = index as usize;
    if user.total_deposits[slot] != 0 {
        return Err(PapayaError::AlreadyStaked);
    }
    let staked_total = vault.total_staked();
    if amount > u64::MAX - staked_total {
        return Err(PapayaError::MathOverflow);
    }
    let first_active = user.active_slots() == 0;
    if first_active && (vault.total_stakers == u64::MAX || vault.current_stakers == u64::MAX) {
        return Err(PapayaError::MathOverflow);
    }

    match user.open_slot(slot, amount, vault_index, now) {
        Ok(()) => {}
        Err(e) => {
            // The slot was checked empty above, so opening it cannot fail.
            return Err(e);
        }
    }
    proof {
        lemma_sum64_elem_le(vault.vault_amounts_staked@, vault_index as int);
        lemma_sum64_update(
            vault.vault_amounts_staked@, vault_index as int,
            (vault.vault_amounts_staked@[vault_index as int] + amount) as u64,
        );
    }
    let partition_staked = vault.vault_amounts_staked[vault_index as usize];
    vault.vault_amounts_staked.set(vault_index as usize, partition_staked + amount);
    if first_active {
        vault.total_stakers = vault.total_stakers + 1;
        vault.current_stakers = vault.current_stakers + 1;
    }
    Ok(())
}

/// Elapsed holding time in milliseconds: the seconds from the slot's reward
/// clock to `now`, times a thousand, saturating in both steps.
pub open spec fn spec_elapsed_ms(now: u64, stake_time: u64) -> u64 {
    let diff: int = if now >= stake_time { now - stake_time } else { 0 };
    if diff * 1000 > u64::MAX { u64::MAX } else { (diff * 1000) as u64 }
}

/// The reward computed for a slot at time `now`: the slot's principal held
/// since its reward clock, under the pool's accrual parameters and the
/// assigned partition's fill ratio.
pub open spec fn spec_slot_reward(v: Vault, u: UserInteractions, slot: int, now: u64) -> Option<u64> {
    crate::reward::spec_reward(
        u.total_deposits@[slot],
        spec_elapsed_ms(now, u.stake_deposits@[slot]),
        v.base_hour as u64,
        v.base_rate,
        v.vault_amounts@[u.vault_indices@[slot] as int],
        v.start_pool,
    )
}

/// The gain a slot's withdrawal deducts from its partition's capacity:
/// reward minus principal when the reward exceeds the principal, else zero.
pub open spec fn spec_slot_gain(v: Vault, u: UserInteractions, slot: int, now: u64) -> int {
    match spec_slot_reward(v, u, slot, now) {
        Some(rw) => if rw > u.total_deposits@[slot] {
            rw - u.total_deposits@[slot]
        } else {
            0int
        },
        None => 0int,
    }
}

/// What a withdrawal pays out: the gain alone on a reward-only claim, the
/// principal plus the gain on a full withdrawal.
pub open spec fn spec_withdraw_payout(
    v: Vault, u: UserInteractions, slot: int, now: u64, reward_only: bool,
) -> int {
    if reward_only {
        spec_slot_gain(v, u, slot, now)
    } else {
        u.total_deposits@[slot] + spec_slot_gain(v, u, slot, now)
    }
}

/// The error, if any, of a withdrawal against pool `v` and ledger record `u`;
/// errors in the order they are checked.
pub open spec fn spec_withdraw_err(
    v: Vault,
    u: UserInteractions,
    index: u32,
    reward_only: bool,
    now_ts: i64,
    supplied: Seq<u8>,
    program_id: Seq<u8>,
) -> Option<PapayaError> {
    if now_ts < 0 {
        Some(PapayaError::TimeConversionError)
    } else if index >= SLOT_COUNT {
        Some(PapayaError::OutOfRange)
    } else if u.total_deposits@[index as int] == 0 {
        Some(PapayaError::NoDeposits)
    } else if u.vault_indices@[index as int] >= PARTITION_COUNT {
        Some(PapayaError::OutOfRange)
    } else if !(pda_of(
        spec_seed_bytes(u.vault_indices@[index as int]), v.token@, program_id,
    ) matches Some(p) && p.0 == supplied) {
        Some(PapayaError::InvalidVaultAccount)
    } else if spec_slot_gain(v, u, index as int, now_ts as u64)
        > v.vault_amounts@[u.vault_indices@[index as int] as int] {
        Some(PapayaError::EmptyVault)
    } else if !reward_only
        && v.vault_amounts_staked@[u.vault_indices@[index as int] as int]
            < u.total_deposits@[index as int] {
        Some(PapayaError::MathOverflow)
    } else {
        None
    }
}

/// Withdraws from slot `index` at time `now_ts`: computes the slot's reward,
/// deducts any gain from the assigned partition's capacity, and either
/// restarts the slot's reward clock (`reward_only`) or zeroes the slot and
/// returns its principal with the gain. A depositor whose last active slot
/// closes leaves the live staker gauge; the lifetime gauge never decreases.
/// The caller then moves the returned payout, when nonzero, from the
/// partition's custodial balance to the withdrawer.
///
/// A failed call returns the one error `spec_withdraw_err` names and changes
/// nothing.
pub fn withdraw_papaya(
    vault: &mut Vault,
    user: &mut UserInteractions,
    index: u32,
    reward_only: bool,
    now_ts: i64,
    supplied_vault_account: &Vec<u8>,
    program_id: &Vec<u8>,
) -> (r: Result<u64, PapayaError>)
    requires
        old(vault).wf(),
        old(user).wf(),
        program_id@.len() == 32,
    ensures
        final(vault).wf(),
        final(user).wf(),
        match r {
            Ok(payout) => {
                &&& spec_withdraw_err(
                    *old(vault), *old(user), index, reward_only, now_ts,
                    supplied_vault_account@, program_id@,
                ) is None
                &&& payout == spec_withdraw_payout(
                    *old(vault), *old(user), index as int, now_ts as u64, reward_only,
                )
                &&& final(vault).vault_amounts@ == old(vault).vault_amounts@.update(
                    old(user).vault_indices@[index as int] as int,
                    (old(vault).vault_amounts@[old(user).vault_indices@[index as int] as int]
                        - spec_slot_gain(*old(vault), *old(user), index as int, now_ts as u64)) as u64,
                )
                &&& final(vault).token@ == old(vault).token@
                &&& final(vault).start_pool == old(vault).start_pool
                &&& final(vault).base_rate == old(vault).base_rate
                &&& final(vault).base_hour == old(vault).base_hour
                &&& final(vault).total_stakers == old(vault).total_stakers
                &&& (if reward_only {
                    final(user).total_deposits@ == old(user).total_deposits@
                        && final(user).time_deposits@ == old(user).time_deposits@
                        && final(user).stake_deposits@
                            == old(user).stake_deposits@.update(index as int, now_ts as u64)
                        && final(user).vault_indices@ == old(user).vault_indices@
                        && final(vault).vault_amounts_staked@ == old(vault).vault_amounts_staked@
                        && final(vault).current_stakers == old(vault).current_stakers
                } else {
                    final(user).total_deposits@
                        == old(user).total_deposits@.update(index as int, 0u64)
                        && final(user).time_deposits@
                            == old(user).time_deposits@.update(index as int, 0u64)
                        && final(user).stake_deposits@
                            == old(user).stake_deposits@.update(index as int, 0u64)
                        && final(user).vault_indices@
                            == old(user).vault_indices@.update(index as int, 0u8)
                        && final(vault).vault_amounts_staked@
                            == old(vault).vault_amounts_staked@.update(
                                old(user).vault_indices@[index as int] as int,
                                (old(vault).vault_amounts_staked@[
                                    old(user).vault_indices@[index as int] as int
                                ] - old(user).total_deposits@[index as int]) as u64,
                            )
                        && final(vault).current_stakers == (
                            if spec_active_count(
                                old(user).total_deposits@.update(index as int, 0u64),
                            ) == 0 {
                                if old(vault).current_stakers > 0 {
                                    (old(vault).current_stakers - 1) as u64
                                } else {
                                    0u64
                                }
                            } else {
                                old(vault).current_stakers
                            }
                        )
                })
            },
            Err(e) => {
                &&& Some(e) == spec_withdraw_err(
                    *old(vault), *old(user), index, reward_only, now_ts,
                    supplied_vault_account@, program_id@,
                )
                &&& *final(vault) == *old(vault)
                &&& *final(user) == *old(user)
            },
        },
{
    if now_ts < 0 {
        return Err(PapayaError::TimeConversionError);
    }
    let now = now_ts as u64;
    if index as usize >= SLOT_COUNT {
        return Err(PapayaError::OutOfRange);
    }
    let slot = index as usize;
    let amount = user.total_deposits[slot];
    if amount == 0 {
        return Err(PapayaError::NoDeposits);
    }
    let vault_index = user.vault_indices[slot];
    if vault_index as usize >= PARTITION_COUNT {
        return Err(PapayaError::OutOfRange);
    }
    let vi = vault_index as usize;
    let expected = get_token_account_pda(&vault.token, vault_index, program_id);
    let address_ok = match &expected {
        Some(p) => bytes_equal(&p.0, supplied_vault_account),
        None => false,
    };
    if !address_ok {
        return Err(PapayaError::InvalidVaultAccount);
    }

    let stake_time = user.stake_deposits[slot];
    let seconds_held: u64 = if now >= stake_time {
        now - stake_time
    } else {
        0
    };
    let time_elapsed: u64 = if seconds_held <= u64::MAX / 1000 {
        seconds_held * 1000
    } else {
        u64::MAX
    };
    proof {
        lemma_sum64_elem_le(vault.vault_amounts@, vi as int);
        assert(time_elapsed == spec_elapsed_ms(now, stake_time));
    }
    let capacity = vault.vault_amounts[vi];
    let reward_opt = crate::reward::calculate_reward(
        amount, time_elapsed, vault.base_hour as u64, vault.base_rate, capacity, vault.start_pool,
    );
    let gain: u64 = match reward_opt {
        Some(rw) => if rw > amount {
            rw - amount
        } else {
            0
        },
        None => 0,
    };
    if gain > capacity {
        return Err(PapayaError::EmptyVault);
    }
    if !reward_only && vault.vault_amounts_staked[vi] < amount {
        return Err(PapayaError::MathOverflow);
    }
    let payout: u64 = if reward_only {
        gain
    } else {
        amount + gain
    };

    proof {
        lemma_sum64_update(vault.vault_amounts@, vi as int, (capacity - gain) as u64);
    }
    vault.vault_amounts.set(vi, capacity - gain);
    if reward_only {
        user.touch_slot(slot, now);
    } else {
        user.close_slot(slot);
        proof {
            lemma_sum64_update(
                vault.vault_amounts_staked@, vi as int,
                (vault.vault_amounts_staked@[vi as int] - amount) as u64,
            );
        }
        let partition_staked = vault.vault_amounts_staked[vi];
        vault.vault_amounts_staked.set(vi, partition_staked - amount);
        if user.active_slots() == 0 {
            vault.current_stakers = if vault.current_stakers > 0 {
                vault.current_stakers - 1
            } else {
                0
            };
        }
    }
    Ok(payout)
}

/// The one-time seeding transfer for a partition: returns the capacity to
/// move into the partition's custodial balance (zero means nothing to do),
/// or `OutOfRange` for an index past the last partition.
pub fn create_vault_token_account(vault: &Vault, vault_index: u8) -> (r: Result<u64, PapayaError>)
    requires
        vault.wf(),
    ensures
        match r {
            Ok(t) => vault_index < PARTITION_COUNT && t == vault.vault_amounts@[vault_index as int],
            Err(e) => e == PapayaError::OutOfRange && vault_index >= PARTITION_COUNT,
        },
{
    if vault_index as usize >= PARTITION_COUNT {
        return Err(PapayaError::OutOfRange);
    }
    Ok(vault.vault_amounts[vault_index as usize])
}

/// A snapshot of every partition balance, the totals, the accrual parameters
/// and the staker gauges.
pub fn get_vault_info(vault: &Vault) -> (r: VaultInfo)
    requires
        vault.wf(),
    ensures
        r.token@ == vault.token@,
        r.vault_amounts@ == vault.vault_amounts@,
        r.vault_amounts_staked@ == vault.vault_amounts_staked@,
        r.total_amount == sum64(vault.vault_amounts@),
        r.total_staked == sum64(vault.vault_amounts_staked@),
        r.start_pool == vault.start_pool,
        r.base_rate == vault.base_rate,
        r.base_hour == vault.base_hour,
        r.total_stakers == vault.total_stakers,
        r.current_stakers == vault.current_stakers,
{
    VaultInfo {
        token: copy_bytes(&vault.token),
        vault_amounts: copy_u64s(&vault.vault_amounts),
        vault_amounts_staked: copy_u64s(&vault.vault_amounts_staked),
        total_amount: vault.total_amount(),
        total_staked: vault.total_staked(),
        start_pool: vault.start_pool,
        base_rate: vault.base_rate,
        base_hour: vault.base_hour,
        total_stakers: vault.total_stakers,
        current_stakers: vault.current_stakers,
    }
}

/// The partition a new deposit should target: least staked, lowest index
/// on ties.
pub fn get_optimal_vault_for_deposit(vault: &Vault) -> (r: u8)
    requires
        vault.wf(),
    ensures
        r < PARTITION_COUNT,
        forall|j: int| 0 <= j < PARTITION_COUNT
            ==> vault.vault_amounts_staked@[r as int] <= vault.vault_amounts_staked@[j],
        forall|j: int| 0 <= j < r
            ==> vault.vault_amounts_staked@[j] > vault.vault_amounts_staked@[r as int],
{
    vault.get_vault_index_for_deposit() as u8
}

} // verus!
