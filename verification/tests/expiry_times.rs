use polymarket_btc_arb::expiry::{remaining_seconds, seconds_to_expiry, seconds_to_expiry_at};

// 2026-01-01T00:00:00Z
const NEW_YEAR_2026: i64 = 1_767_225_600;

#[test]
fn rfc3339_end_date() {
    let r = seconds_to_expiry_at(Some("2026-01-01T01:00:00Z"), NEW_YEAR_2026, 0);
    assert_eq!(r, Some(3600));
    let r = seconds_to_expiry_at(Some("2026-01-01T01:00:00+01:00"), NEW_YEAR_2026 - 10, 0);
    assert_eq!(r, Some(10));
}

#[test]
fn rfc3339_whole_seconds_truncate() {
    let r = seconds_to_expiry_at(Some("2026-01-01T00:00:10Z"), NEW_YEAR_2026, 500_000_000);
    assert_eq!(r, Some(9));
    let r = seconds_to_expiry_at(Some("2026-01-01T00:00:01Z"), NEW_YEAR_2026, 500_000_000);
    assert_eq!(r, None);
}

#[test]
fn plain_date_end_of_day() {
    let r = seconds_to_expiry_at(Some("2026-01-01"), NEW_YEAR_2026, 0);
    assert_eq!(r, Some(86_399));
}

#[test]
fn expired_or_unreadable_dates() {
    assert_eq!(seconds_to_expiry_at(Some("2025-12-31T23:00:00Z"), NEW_YEAR_2026, 0), None);
    assert_eq!(seconds_to_expiry_at(Some("2026-01-01T00:00:00Z"), NEW_YEAR_2026, 0), None);
    assert_eq!(seconds_to_expiry_at(Some("next tuesday"), NEW_YEAR_2026, 0), None);
    assert_eq!(seconds_to_expiry_at(None, NEW_YEAR_2026, 0), None);
}

#[test]
fn far_future_from_now() {
    let r = seconds_to_expiry(Some("2999-01-01T00:00:00Z"));
    assert!(r.unwrap() > 0);
    assert_eq!(seconds_to_expiry(Some("2000-01-01")), None);
}

#[test]
fn reading_order() {
    assert_eq!(remaining_seconds(Some(5), Some(100)), Some(5));
    assert_eq!(remaining_seconds(Some(-5), Some(100)), None);
    assert_eq!(remaining_seconds(None, Some(100)), Some(100));
    assert_eq!(remaining_seconds(None, Some(0)), None);
    assert_eq!(remaining_seconds(None, None), None);
}
