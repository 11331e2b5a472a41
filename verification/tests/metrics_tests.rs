use solana_ui::solana::{SolanaClient, ValidatorInfo};

#[test]
fn test_skip_rate_empty_history() {
    let history: Vec<(u64, u64, u64)> = Vec::new();
    assert_eq!(ValidatorInfo::calculate_skip_rate(&history), (0, 0));
}

#[test]
fn test_skip_rate_no_new_credits_is_zero() {
    // credits <= previous credits: skip rate 0, credits still reported.
    let history = vec![(10, 100, 200)];
    assert_eq!(ValidatorInfo::calculate_skip_rate(&history), (100, 0));
    let equal = vec![(10, 200, 200)];
    assert_eq!(ValidatorInfo::calculate_skip_rate(&equal), (200, 0));
}

#[test]
fn test_skip_rate_half_epoch() {
    // A gap of half the approximate epoch gives a 50.00% skip rate.
    let history = vec![(1, 50, 40), (2, 216_100, 100)];
    assert_eq!(ValidatorInfo::calculate_skip_rate(&history), (216_100, 5000));
}

#[test]
fn test_skip_rate_saturates_at_zero() {
    let full = vec![(3, 432_000, 0)];
    assert_eq!(ValidatorInfo::calculate_skip_rate(&full), (432_000, 0));
    let over = vec![(3, 900_000, 100)];
    assert_eq!(ValidatorInfo::calculate_skip_rate(&over), (900_000, 0));
}

#[test]
fn test_skip_rate_decreases_as_gap_grows() {
    let mut last = 10_001;
    for gap in [1u64, 100, 10_000, 100_000, 431_999, 432_000] {
        let history = vec![(1, gap, 0)];
        let (_, rate) = ValidatorInfo::calculate_skip_rate(&history);
        assert!(rate <= last);
        assert!(rate <= 10_000);
        last = rate;
    }
    assert_eq!(last, 0);
}

#[test]
fn test_epoch_start_current_epoch() {
    // For the current epoch the start is the absolute slot minus the index.
    assert_eq!(SolanaClient::calculate_epoch_start_slot(5, 5, 1000, 100, 432_000, 0), 900);
}

#[test]
fn test_epoch_start_epoch_zero() {
    assert_eq!(SolanaClient::calculate_epoch_start_slot(0, 3, 1000, 100, 432_000, 0), 0);
}

#[test]
fn test_epoch_start_warmup() {
    // 2 * 32 = 64 lies inside the warmup period ending at slot 1000.
    assert_eq!(SolanaClient::calculate_epoch_start_slot(2, 9, 5000, 1, 32, 1000), 32);
}

#[test]
fn test_epoch_start_normal() {
    // 3 * 100 = 300 >= 250: first_normal_slot + (target - 1) * slots_per_epoch.
    assert_eq!(SolanaClient::calculate_epoch_start_slot(3, 9, 5000, 1, 100, 250), 450);
}

#[test]
fn test_slot_to_timestamp_rounding() {
    // 25 slots ahead at 2.5 slots/s is 10 seconds.
    assert_eq!(SolanaClient::slot_to_timestamp(1025, 1000, 50_000), 50_010);
    // 0.4 s rounds down, 0.8 s rounds up, ties go away from zero.
    assert_eq!(SolanaClient::slot_to_timestamp(1001, 1000, 50_000), 50_000);
    assert_eq!(SolanaClient::slot_to_timestamp(1002, 1000, 50_000), 50_001);
    assert_eq!(SolanaClient::slot_to_timestamp(999, 1000, 50_000), 50_000);
    assert_eq!(SolanaClient::slot_to_timestamp(998, 1000, 50_000), 49_999);
    assert_eq!(SolanaClient::slot_to_timestamp(1000, 1000, 50_000), 50_000);
}

#[test]
fn test_format_time_difference_minutes_seconds() {
    assert_eq!(SolanaClient::format_time_difference(0, 90), "1m 30s");
}

#[test]
fn test_format_time_difference_now() {
    assert_eq!(SolanaClient::format_time_difference(12345, 12345), "now");
}

#[test]
fn test_format_time_difference_past_omits_seconds() {
    // 3700 s in the past is 1h 1m 40s; seconds are omitted once hours show.
    assert_eq!(SolanaClient::format_time_difference(3700, 0), "1h 1m ago");
}

#[test]
fn test_format_time_difference_days() {
    // 2 days, 3 hours, 4 minutes ahead; no seconds once days and hours show.
    let delta = 2 * 86_400 + 3 * 3_600 + 4 * 60 + 5;
    assert_eq!(SolanaClient::format_time_difference(1_000, 1_000 + delta), "2d 3h 4m");
}

#[test]
fn test_format_time_difference_seconds_only_past() {
    assert_eq!(SolanaClient::format_time_difference(100, 55), "45s ago");
}
