use papaya::calculate_reward;

fn hours_ms(h: u64) -> u64 {
    h * 3_600_000
}

#[test]
fn reward_not_applicable_on_empty_partition() {
    assert_eq!(calculate_reward(1_000_000_000, hours_ms(24), 6, 10_000, 0, 100), None);
}

#[test]
fn reward_not_applicable_on_zero_start_pool() {
    assert_eq!(calculate_reward(1_000_000_000, hours_ms(24), 6, 10_000, 0, 0), None);
}

#[test]
fn reward_not_applicable_on_zero_period() {
    assert_eq!(calculate_reward(1_000_000_000, hours_ms(24), 0, 10_000, 100, 100), None);
}

#[test]
fn reward_zero_before_first_period() {
    // About three hours held against a six-hour period: no completed period.
    assert_eq!(
        calculate_reward(1_000_000_000, hours_ms(3) + 123, 6, 10_000, 500, 1_000),
        Some(0)
    );
}

#[test]
fn reward_compounds_four_times_over_full_window() {
    // Full fill ratio, 10.0 rate, six-hour period: factor 1.1 at hours
    // 6, 12, 18 and 24.
    assert_eq!(
        calculate_reward(1_000_000_000, hours_ms(24), 6, 10_000, 1_000_000_000, 1_000_000_000),
        Some(1_464_100_000)
    );
}

#[test]
fn reward_caps_held_hours_at_one_window() {
    // A week held pays the same as the 24-hour cap.
    let day = calculate_reward(1_000_000_000, hours_ms(24), 6, 10_000, 1_000, 1_000);
    let week = calculate_reward(1_000_000_000, hours_ms(7 * 24), 6, 10_000, 1_000, 1_000);
    assert_eq!(day, week);
}

#[test]
fn reward_monotone_in_elapsed_time() {
    let mut prev = 0u64;
    for h in 0..25u64 {
        let r = calculate_reward(5_000_000_000, hours_ms(h), 6, 25_000, 700, 1_000).unwrap();
        assert!(r >= prev);
        prev = r;
    }
}

#[test]
fn reward_monotone_in_fill_ratio() {
    let lean = calculate_reward(5_000_000_000, hours_ms(24), 6, 25_000, 300, 1_000).unwrap();
    let full = calculate_reward(5_000_000_000, hours_ms(24), 6, 25_000, 900, 1_000).unwrap();
    assert!(lean <= full);
}

#[test]
fn reward_with_partial_fill_compounds_exactly() {
    // Fill ratio one tenth and rate 10.0: one percent per period.
    assert_eq!(
        calculate_reward(
            1_000_000_000,
            hours_ms(24),
            6,
            10_000,
            100_000_000_000,
            1_000_000_000_000
        ),
        Some(1_040_604_010)
    );
}

#[test]
fn reward_zero_rate_returns_principal() {
    assert_eq!(
        calculate_reward(1_000_000_000, hours_ms(24), 6, 0, 1_000, 1_000),
        Some(1_000_000_000)
    );
}
