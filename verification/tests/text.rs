use pairchat::clock::elapsed;
use pairchat::clock::get_timestamp;
use pairchat::clock::timestamp_of;
use pairchat::text::decimal_string;
use pairchat::text::format_duration;

#[test]
fn format_duration_brackets() {
    assert_eq!(format_duration(0), "now");
    assert_eq!(format_duration(4999), "now");
    assert_eq!(format_duration(5000), "5s");
    assert_eq!(format_duration(59999), "59s");
    assert_eq!(format_duration(60000), "1m");
    assert_eq!(format_duration(3599999), "59m");
    assert_eq!(format_duration(3600000), "1h");
}

#[test]
fn format_duration_rounds_down() {
    assert_eq!(format_duration(5999), "5s");
    assert_eq!(format_duration(119_999), "1m");
    assert_eq!(format_duration(120_000), "2m");
    assert_eq!(format_duration(7_199_999), "1h");
    assert_eq!(format_duration(86_400_000), "24h");
}

#[test]
fn format_duration_of_the_largest_age() {
    assert_eq!(format_duration(u64::MAX), "5124095576030h");
}

#[test]
fn decimal_string_matches_std() {
    for n in [0u64, 1, 9, 10, 11, 99, 100, 101, 12345, 1_000_000, u64::MAX - 1, u64::MAX] {
        assert_eq!(decimal_string(n), format!("{}", n));
    }
}

#[test]
fn elapsed_measures_forward_and_saturates() {
    assert_eq!(elapsed(1_000, 1_250), 250);
    assert_eq!(elapsed(1_000, 1_000), 0);
    assert_eq!(elapsed(1_250, 1_000), 0);
    assert_eq!(elapsed(0, u64::MAX), u64::MAX);
}

#[test]
fn get_timestamp_reads_a_plausible_clock() {
    let first = get_timestamp();
    let second = get_timestamp();
    // later than the first of January 2020, in milliseconds
    assert!(first > 1_577_836_800_000);
    assert!(elapsed(first, second) < 60_000);
}

#[test]
fn timestamp_of_clamps_the_reading() {
    assert_eq!(timestamp_of(None), 0);
    assert_eq!(timestamp_of(Some(0)), 0);
    assert_eq!(timestamp_of(Some(1_700_000_000_000)), 1_700_000_000_000);
    assert_eq!(timestamp_of(Some(u64::MAX as u128)), u64::MAX);
    assert_eq!(timestamp_of(Some(u64::MAX as u128 + 1)), u64::MAX);
    assert_eq!(timestamp_of(Some(u128::MAX)), u64::MAX);
}
