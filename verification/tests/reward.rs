use staking::calculate_rewards;
use staking::reward::RATE_DENOMINATOR;
use staking::reward::SECONDS_PER_YEAR;

const YEAR: i64 = 31_536_000;

#[test]
fn constants_describe_a_365_day_year() {
    assert_eq!(SECONDS_PER_YEAR, 365 * 24 * 60 * 60);
    assert_eq!(RATE_DENOMINATOR, 100 * SECONDS_PER_YEAR as u128);
}

#[test]
fn one_year_at_five_percent_earns_a_twentieth() {
    assert_eq!(calculate_rewards(1_000_000, 0, YEAR, 5), 50_000);
}

#[test]
fn reward_matches_the_formula_on_uneven_inputs() {
    assert_eq!(calculate_rewards(1_000_000_000, 0, 1_000_000, 7), 2_219_685);
    assert_eq!(calculate_rewards(1000, 100, 100 + 86_400 * 30, 12), 10);
    assert_eq!(
        calculate_rewards(123_456_789, 1_700_000_000, 1_731_536_000, 10),
        12_345_679
    );
    assert_eq!(calculate_rewards(1_000_000_000_000, 0, 15_768_000, 1), 5_000_000_000);
}

#[test]
fn a_clock_that_went_back_earns_nothing() {
    assert_eq!(calculate_rewards(1_000_000, 100, 99, 5), 0);
    assert_eq!(calculate_rewards(u64::MAX, i64::MAX, i64::MIN, 100), 0);
    assert_eq!(calculate_rewards(1, 0, -1, 100), 0);
}

#[test]
fn no_time_no_principal_or_no_rate_earns_nothing() {
    assert_eq!(calculate_rewards(1_000_000, 42, 42, 5), 0);
    assert_eq!(calculate_rewards(0, 0, YEAR, 5), 0);
    assert_eq!(calculate_rewards(1_000_000, 0, YEAR, 0), 0);
}

#[test]
fn a_tie_rounds_up_and_less_rounds_down() {
    // 1_576_800_000 / 3_153_600_000 is exactly one half.
    assert_eq!(calculate_rewards(1_576_800_000, 0, 1, 1), 1);
    assert_eq!(calculate_rewards(1_576_799_999, 0, 1, 1), 0);
    // 1.5, 0.5 and 0.49 units after one year.
    assert_eq!(calculate_rewards(3, 0, YEAR, 50), 2);
    assert_eq!(calculate_rewards(1, 0, YEAR, 50), 1);
    assert_eq!(calculate_rewards(1, 0, YEAR, 49), 0);
}

#[test]
fn small_stakes_over_short_times_round_to_nothing() {
    assert_eq!(calculate_rewards(500, 0, 10, 5), 0);
    assert_eq!(calculate_rewards(300, 0, 10, 5), 0);
}

#[test]
fn the_whole_range_of_the_asset_is_exact() {
    assert_eq!(calculate_rewards(u64::MAX, 0, YEAR, 100), u64::MAX);
    assert_eq!(calculate_rewards(u64::MAX - 1, 0, YEAR, 100), u64::MAX - 1);
    assert_eq!(calculate_rewards(u64::MAX, 0, YEAR, 50), 9_223_372_036_854_775_808);
}

#[test]
fn a_reward_beyond_64_bits_is_held_at_the_maximum() {
    assert_eq!(calculate_rewards(u64::MAX, 0, 2 * YEAR, 100), u64::MAX);
    assert_eq!(calculate_rewards(u64::MAX, i64::MIN, i64::MAX, 255), u64::MAX);
    assert_eq!(calculate_rewards(u64::MAX, 0, 1 << 62, 255), u64::MAX);
}

#[test]
fn reward_never_decreases_with_time() {
    let mut last = 0;
    let mut now = -5;
    while now <= 40 * YEAR {
        let r = calculate_rewards(987_654_321, 0, now, 13);
        assert!(r >= last);
        last = r;
        now += 7_777_777;
    }
    assert_eq!(calculate_rewards(800, 0, 10 * YEAR, 5), 400);
}
