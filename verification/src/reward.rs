use vstd::prelude::*;

verus! {

/// Milliseconds in one hour.
pub const MS_PER_HOUR: u64 = 3_600_000;

/// Hard cap on the hours counted toward one claim: a single accrual window.
pub const MAX_HELD_HOURS: u64 = 24;

/// Scale of the accrual rate: a rate of `r` thousandths stands for the
/// fractional rate `r / 1000` percent-points. A step multiplies the running
/// value by `1 + (rate * fill_ratio) / 100`, so with this scale the step gain
/// is `value * rate * capacity / (100_000 * start_pool)`, rounded down twice
/// as `spec_step` spells out.
pub const RATE_SCALE: u64 = 100_000;

/// Whole hours counted for a holding of `elapsed_ms` milliseconds,
/// truncated and capped at one accrual window.
pub open spec fn spec_held_hours(elapsed_ms: int) -> int {
    if elapsed_ms / (MS_PER_HOUR as int) > (MAX_HELD_HOURS as int) {
        MAX_HELD_HOURS as int
    } else {
        elapsed_ms / (MS_PER_HOUR as int)
    }
}

/// One compounding step: the running value grows by its share of the
/// fill-weighted rate, rounding down after each division, and saturates
/// at `u64::MAX`.
pub open spec fn spec_step(cur: int, rate: int, capacity: int, start_pool: int) -> int {
    let grown = cur + ((cur * capacity / start_pool) * rate) / (RATE_SCALE as int);
    if grown > u64::MAX { u64::MAX as int } else { grown }
}

/// `steps` compounding steps applied to `cur`.
pub open spec fn spec_compound(cur: int, steps: nat, rate: int, capacity: int, start_pool: int) -> int
    decreases steps,
{
    if steps == 0 {
        cur
    } else {
        spec_compound(spec_step(cur, rate, capacity, start_pool), (steps - 1) as nat, rate, capacity, start_pool)
    }
}

/// The reward owed for `amount` held `elapsed_ms`: `None` when the inputs make
/// no reward applicable, `Some(0)` before the first completed period, and
/// otherwise the new total value after one compounding step per completed
/// period within the capped holding window.
pub open spec fn spec_reward(
    amount: u64,
    elapsed_ms: u64,
    period_hours: u64,
    rate: u32,
    capacity: u64,
    start_pool: u64,
) -> Option<u64> {
    if capacity == 0 || start_pool == 0 || period_hours == 0 {
        None
    } else {
        let held = spec_held_hours(elapsed_ms as int);
        if held < period_hours {
            Some(0u64)
        } else {
            Some(
                spec_compound(
                    amount as int,
                    (held / (period_hours as int)) as nat,
                    rate as int,
                    capacity as int,
                    start_pool as int,
                ) as u64,
            )
        }
    }
}

/// The number a reward outcome stands for: zero where no reward applies.
pub open spec fn reward_or_zero(r: Option<u64>) -> int {
    match r {
        Some(v) => v as int,
        None => 0,
    }
}

/// Computes the compounded reward from elapsed holding time, the accrual
/// parameters, and the pool's fill ratio `capacity / start_pool`.
///
/// Returns `None` when no reward is applicable (empty partition, empty pool,
/// or a zero period), `Some(0)` before the first completed period, and
/// otherwise the new total value including principal, compounded once per
/// completed period and floored.
pub fn calculate_reward(
    amount: u64,
    time_elapsed_ms: u64,
    base_hour: u64,
    base_rate: u32,
    total_vault_amount: u64,
    start_pool: u64,
) -> (r: Option<u64>)
    requires
        total_vault_amount <= start_pool,
    ensures
        r == spec_reward(amount, time_elapsed_ms, base_hour, base_rate, total_vault_amount, start_pool),
{
    if total_vault_amount == 0 || start_pool == 0 || base_hour == 0 {
        return None;
    }

    let mut held_hours: u64 = time_elapsed_ms / MS_PER_HOUR;
    if held_hours > MAX_HELD_HOURS {
        held_hours = MAX_HELD_HOURS;
    }
    if held_hours < base_hour {
        return Some(0);
    }

    let steps: u64 = held_hours / base_hour;
    let mut current: u64 = amount;
    let mut i: u64 = 0;
    while i < steps
        invariant
            i <= steps,
            0 < total_vault_amount <= start_pool,
            current as int == spec_compound(
                amount as int,
                i as nat,
                base_rate as int,
                total_vault_amount as int,
                start_pool as int,
            ),
        decreases steps - i,
    {
        proof {
            vstd::arithmetic::mul::lemma_mul_upper_bound(
                current as int, u64::MAX as int, total_vault_amount as int, u64::MAX as int);
            lemma_scaled_le(current as int, total_vault_amount as int, start_pool as int);
        }
        let scaled: u128 = (current as u128) * (total_vault_amount as u128) / (start_pool as u128);
        proof {
            vstd::arithmetic::mul::lemma_mul_upper_bound(
                scaled as int, u64::MAX as int, base_rate as int, u32::MAX as int);
            vstd::arithmetic::div_mod::lemma_div_is_ordered(
                0, scaled as int * base_rate as int, RATE_SCALE as int);
        }
        let gain: u128 = scaled * (base_rate as u128) / (RATE_SCALE as u128);
        let next: u128 = (current as u128) + gain;
        proof {
            lemma_compound_snoc(
                amount as int, i as nat, base_rate as int, total_vault_amount as int, start_pool as int);
        }
        current = if next > u64::MAX as u128 { u64::MAX } else { next as u64 };
        i = i + 1;
    }
    Some(current)
}

/// One step keeps the value between its input and the saturation bound.
proof fn lemma_step_bounds(cur: int, rate: int, capacity: int, start_pool: int)
    requires
        0 <= cur <= u64::MAX,
        0 <= capacity <= start_pool,
        0 < start_pool,
        0 <= rate,
    ensures
        cur <= spec_step(cur, rate, capacity, start_pool) <= u64::MAX,
{
    lemma_scaled_le(cur, capacity, start_pool);
    let scaled = cur * capacity / start_pool;
    assert(scaled * rate >= 0) by (nonlinear_arith)
        requires 0 <= scaled && 0 <= rate;
    vstd::arithmetic::div_mod::lemma_div_is_ordered(0, scaled * rate, RATE_SCALE as int);
}

/// Compounding keeps the value between its input and the saturation bound.
proof fn lemma_compound_bounds(cur: int, steps: nat, rate: int, capacity: int, start_pool: int)
    requires
        0 <= cur <= u64::MAX,
        0 <= capacity <= start_pool,
        0 < start_pool,
        0 <= rate,
    ensures
        cur <= spec_compound(cur, steps, rate, capacity, start_pool) <= u64::MAX,
    decreases steps,
{
    if steps > 0 {
        lemma_step_bounds(cur, rate, capacity, start_pool);
        lemma_compound_bounds(spec_step(cur, rate, capacity, start_pool), (steps - 1) as nat, rate, capacity, start_pool);
    }
}

/// One step is monotone in the running value and in the partition capacity.
proof fn lemma_step_monotone(cur1: int, cur2: int, rate: int, cap1: int, cap2: int, start_pool: int)
    requires
        0 <= cur1 <= cur2 <= u64::MAX,
        0 <= cap1 <= cap2 <= start_pool,
        0 < start_pool,
        0 <= rate,
    ensures
        spec_step(cur1, rate, cap1, start_pool) <= spec_step(cur2, rate, cap2, start_pool),
{
    assert(cur1 * cap1 <= cur2 * cap2) by (nonlinear_arith)
        requires 0 <= cur1 <= cur2 && 0 <= cap1 <= cap2;
    vstd::arithmetic::div_mod::lemma_div_is_ordered(cur1 * cap1, cur2 * cap2, start_pool);
    let s1 = cur1 * cap1 / start_pool;
    let s2 = cur2 * cap2 / start_pool;
    lemma_scaled_le(cur1, cap1, start_pool);
    vstd::arithmetic::mul::lemma_mul_inequality(s1, s2, rate);
    vstd::arithmetic::div_mod::lemma_div_is_ordered(s1 * rate, s2 * rate, RATE_SCALE as int);
}

/// Compounding is monotone in the starting value and in the partition capacity.
proof fn lemma_compound_monotone(
    cur1: int, cur2: int, steps: nat, rate: int, cap1: int, cap2: int, start_pool: int,
)
    requires
        0 <= cur1 <= cur2 <= u64::MAX,
        0 <= cap1 <= cap2 <= start_pool,
        0 < start_pool,
        0 <= rate,
    ensures
        spec_compound(cur1, steps, rate, cap1, start_pool)
            <= spec_compound(cur2, steps, rate, cap2, start_pool),
    decreases steps,
{
    if steps > 0 {
        lemma_step_monotone(cur1, cur2, rate, cap1, cap2, start_pool);
        lemma_step_bounds(cur1, rate, cap1, start_pool);
        lemma_step_bounds(cur2, rate, cap2, start_pool);
        lemma_compound_monotone(
            spec_step(cur1, rate, cap1, start_pool),
            spec_step(cur2, rate, cap2, start_pool),
            (steps - 1) as nat, rate, cap1, cap2, start_pool,
        );
    }
}

/// Compounding splits: `a + b` steps are `a` steps followed by `b` steps.
proof fn lemma_compound_add(cur: int, a: nat, b: nat, rate: int, capacity: int, start_pool: int)
    ensures
        spec_compound(cur, (a + b) as nat, rate, capacity, start_pool)
            == spec_compound(spec_compound(cur, a, rate, capacity, start_pool), b, rate, capacity, start_pool),
    decreases a,
{
    if a > 0 {
        lemma_compound_add(spec_step(cur, rate, capacity, start_pool), (a - 1) as nat, b, rate, capacity, start_pool);
    }
}

/// Compounding is monotone in the number of steps.
proof fn lemma_compound_steps_monotone(
    cur: int, steps1: nat, steps2: nat, rate: int, capacity: int, start_pool: int,
)
    requires
        0 <= cur <= u64::MAX,
        0 <= capacity <= start_pool,
        0 < start_pool,
        0 <= rate,
        steps1 <= steps2,
    ensures
        spec_compound(cur, steps1, rate, capacity, start_pool)
            <= spec_compound(cur, steps2, rate, capacity, start_pool),
{
    lemma_compound_bounds(cur, steps1, rate, capacity, start_pool);
    lemma_compound_add(cur, steps1, (steps2 - steps1) as nat, rate, capacity, start_pool);
    lemma_compound_bounds(
        spec_compound(cur, steps1, rate, capacity, start_pool),
        (steps2 - steps1) as nat, rate, capacity, start_pool,
    );
}

/// Law: a holding shorter than one accrual period earns no reward,
/// whatever the principal and the rate.
pub proof fn lemma_reward_zero_before_first_period(
    amount: u64, elapsed_ms: u64, period_hours: u64, rate: u32, capacity: u64, start_pool: u64,
)
    requires
        capacity > 0,
        start_pool > 0,
        period_hours > 0,
        spec_held_hours(elapsed_ms as int) < period_hours,
    ensures
        spec_reward(amount, elapsed_ms, period_hours, rate, capacity, start_pool) == Some(0u64),
{
}

/// Law: the reward is non-decreasing in the elapsed holding time.
pub proof fn lemma_reward_monotone_in_elapsed(
    amount: u64, elapsed1: u64, elapsed2: u64, period_hours: u64, rate: u32, capacity: u64, start_pool: u64,
)
    requires
        capacity <= start_pool,
        elapsed1 <= elapsed2,
    ensures
        reward_or_zero(spec_reward(amount, elapsed1, period_hours, rate, capacity, start_pool))
            <= reward_or_zero(spec_reward(amount, elapsed2, period_hours, rate, capacity, start_pool)),
{
    if capacity == 0 || start_pool == 0 || period_hours == 0 {
    } else {
        vstd::arithmetic::div_mod::lemma_div_is_ordered(
            elapsed1 as int, elapsed2 as int, MS_PER_HOUR as int);
        let held1 = spec_held_hours(elapsed1 as int);
        let held2 = spec_held_hours(elapsed2 as int);
        assert(0 <= held1 <= held2) by {
            vstd::arithmetic::div_mod::lemma_div_is_ordered(0, elapsed1 as int, MS_PER_HOUR as int);
        }
        if held1 < period_hours {
            if held2 >= period_hours {
                lemma_compound_bounds(
                    amount as int, (held2 / (period_hours as int)) as nat,
                    rate as int, capacity as int, start_pool as int,
                );
            }
        } else {
            vstd::arithmetic::div_mod::lemma_div_is_ordered(held1, held2, period_hours as int);
            vstd::arithmetic::div_mod::lemma_div_is_ordered(0, held1, period_hours as int);
            lemma_compound_steps_monotone(
                amount as int,
                (held1 / (period_hours as int)) as nat,
                (held2 / (period_hours as int)) as nat,
                rate as int, capacity as int, start_pool as int,
            );
            lemma_compound_bounds(
                amount as int, (held1 / (period_hours as int)) as nat,
                rate as int, capacity as int, start_pool as int,
            );
            lemma_compound_bounds(
                amount as int, (held2 / (period_hours as int)) as nat,
                rate as int, capacity as int, start_pool as int,
            );
        }
    }
}

/// Law: the reward is non-decreasing in the pool's fill ratio: a better
/// funded partition never pays less, all else equal.
pub proof fn lemma_reward_monotone_in_fill(
    amount: u64, elapsed_ms: u64, period_hours: u64, rate: u32, cap1: u64, cap2: u64, start_pool: u64,
)
    requires
        0 < cap1 <= cap2 <= start_pool,
    ensures
        reward_or_zero(spec_reward(amount, elapsed_ms, period_hours, rate, cap1, start_pool))
            <= reward_or_zero(spec_reward(amount, elapsed_ms, period_hours, rate, cap2, start_pool)),
{
    if period_hours == 0 {
    } else {
        let held = spec_held_hours(elapsed_ms as int);
        if held >= period_hours {
            vstd::arithmetic::div_mod::lemma_div_is_ordered(0, held, period_hours as int);
            let steps = (held / (period_hours as int)) as nat;
            lemma_compound_monotone(
                amount as int, amount as int, steps,
                rate as int, cap1 as int, cap2 as int, start_pool as int,
            );
            lemma_compound_bounds(amount as int, steps, rate as int, cap1 as int, start_pool as int);
            lemma_compound_bounds(amount as int, steps, rate as int, cap2 as int, start_pool as int);
        }
    }
}

/// Compounding one more step applies `spec_step` to the compounded value.
proof fn lemma_compound_snoc(cur: int, steps: nat, rate: int, capacity: int, start_pool: int)
    ensures
        spec_compound(cur, (steps + 1) as nat, rate, capacity, start_pool)
            == spec_step(spec_compound(cur, steps, rate, capacity, start_pool), rate, capacity, start_pool),
    decreases steps,
{
    reveal_with_fuel(spec_compound, 2);
    if steps > 0 {
        lemma_compound_snoc(spec_step(cur, rate, capacity, start_pool), (steps - 1) as nat, rate, capacity, start_pool);
    }
}

/// With a fill ratio of at most one, the scaled value never exceeds the value.
proof fn lemma_scaled_le(cur: int, capacity: int, start_pool: int)
    requires
        0 <= cur,
        0 <= capacity <= start_pool,
        0 < start_pool,
    ensures
        0 <= cur * capacity / start_pool <= cur,
{
    vstd::arithmetic::mul::lemma_mul_inequality(capacity, start_pool, cur);
    assert(cur * capacity == capacity * cur) by (nonlinear_arith);
    assert(cur * start_pool == start_pool * cur) by (nonlinear_arith);
    vstd::arithmetic::div_mod::lemma_div_is_ordered(cur * capacity, cur * start_pool, start_pool);
    vstd::arithmetic::div_mod::lemma_div_multiples_vanish(cur, start_pool);
    assert(cur * capacity >= 0) by (nonlinear_arith)
        requires 0 <= cur && 0 <= capacity;
    vstd::arithmetic::div_mod::lemma_div_is_ordered(0, cur * capacity, start_pool);
}

} // verus!
