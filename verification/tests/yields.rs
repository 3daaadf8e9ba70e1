use wheatgame::{compute_yield, is_golden_hour, PlotTier};

#[test]
fn maxed_out_farmer_earns_eight_point_three_one_times() {
    let y = compute_yield(100, PlotTier::Diamond, 4, true, false, 10, true, true);
    assert_eq!(y, 831);
}

#[test]
fn neutral_farmer_earns_the_base() {
    assert_eq!(compute_yield(100, PlotTier::Bronze, 1, false, false, 0, false, false), 100);
    assert_eq!(compute_yield(123_456, PlotTier::Bronze, 1, false, false, 7, false, false), 123_456);
}

#[test]
fn each_multiplier_alone() {
    assert_eq!(compute_yield(10_000, PlotTier::Silver, 1, false, false, 0, false, false), 15_000);
    assert_eq!(compute_yield(10_000, PlotTier::Gold, 1, false, false, 0, false, false), 20_000);
    assert_eq!(compute_yield(10_000, PlotTier::Bronze, 2, false, false, 0, false, false), 12_500);
    assert_eq!(compute_yield(10_000, PlotTier::Bronze, 3, false, false, 0, false, false), 15_000);
    assert_eq!(compute_yield(10_000, PlotTier::Bronze, 0, false, false, 0, false, false), 10_000);
    assert_eq!(compute_yield(10_000, PlotTier::Bronze, 1, true, false, 4, false, false), 11_000);
    assert_eq!(compute_yield(10_000, PlotTier::Bronze, 1, false, false, 0, true, false), 10_500);
    assert_eq!(compute_yield(10_000, PlotTier::Bronze, 1, false, false, 0, false, true), 12_000);
    // Leadership only counts inside a tribe.
    assert_eq!(compute_yield(10_000, PlotTier::Bronze, 1, false, true, 10, false, false), 10_000);
}

#[test]
fn tribe_leader_bonus_scales_with_members() {
    assert_eq!(compute_yield(10_000, PlotTier::Bronze, 1, true, true, 10, false, false), 14_500);
    assert_eq!(compute_yield(10_000, PlotTier::Bronze, 1, true, true, 1, false, false), 10_000);
    assert_eq!(compute_yield(10_000, PlotTier::Bronze, 1, true, true, 0, false, false), 10_000);
    assert_eq!(compute_yield(10_000, PlotTier::Bronze, 1, true, true, 3, false, false), 11_000);
}

#[test]
fn each_step_rounds_down() {
    // 7 -> 10 (x1.5) -> 12 (x1.25) -> 13 (x1.1) -> 13 (x1.05) -> 15 (x1.2)
    assert_eq!(compute_yield(7, PlotTier::Silver, 2, true, false, 2, true, true), 15);
}

#[test]
fn huge_base_saturates() {
    assert_eq!(compute_yield(u64::MAX, PlotTier::Bronze, 1, false, false, 0, false, false), u64::MAX);
}

#[test]
fn golden_hour_is_the_first_hour_of_each_six() {
    assert!(is_golden_hour(0));
    assert!(is_golden_hour(3_599));
    assert!(!is_golden_hour(3_600));
    assert!(!is_golden_hour(21_599));
    assert!(is_golden_hour(21_600));
    assert!(is_golden_hour(21_600 * 1000 + 42));
    assert!(!is_golden_hour(-1));
    assert!(is_golden_hour(-21_600));
    assert!(is_golden_hour(-18_001));
    assert!(!is_golden_hour(-18_000 + 1));
}

#[test]
fn large_base_is_scaled_exactly_until_the_cap() {
    let half = u64::MAX / 2;
    assert_eq!(compute_yield(half, PlotTier::Bronze, 1, false, false, 0, false, false), half);
    assert_eq!(compute_yield(half, PlotTier::Silver, 1, false, false, 0, false, false), 13_835_058_055_282_163_710);
    assert_eq!(compute_yield(half, PlotTier::Diamond, 1, false, false, 0, false, false), u64::MAX);
    let third = u64::MAX / 3;
    assert_eq!(compute_yield(third, PlotTier::Silver, 1, false, false, 0, false, false), third / 2 * 3 + (third % 2) * 3 / 2);
}
