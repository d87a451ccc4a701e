use tg_spending_tracker::calendar::{
    dated, window_between, month_window, month_window_at, next_month, parse_date, window_contains,
};
use tg_spending_tracker::db::DBError;

#[test]
fn test_parse_date() {
    assert_eq!(parse_date("1970-01-01").unwrap(), 0);
    assert_eq!(parse_date("2025-01-01").unwrap(), 1735689600);
    assert_eq!(parse_date("2025-01-15").unwrap(), 1736899200);
    assert_eq!(parse_date("2025-02-01").unwrap(), 1738368000);
    assert_eq!(parse_date("1969-12-31").unwrap(), -86400);
}

#[test]
fn test_parse_date_rejects() {
    for bad in ["", "yesterday", "2025-13-01", "2025-02-30", "2025/01/01", "01-01-2025", "2025-01"] {
        match parse_date(bad) {
            Err(DBError::DateFormatError(given)) => assert_eq!(given, bad),
            other => panic!("{:?}", other),
        }
    }
}

#[test]
fn test_next_month() {
    assert_eq!(next_month(2025, 1), Some((2025, 2)));
    assert_eq!(next_month(2025, 11), Some((2025, 12)));
    assert_eq!(next_month(2025, 12), Some((2026, 1)));
    assert_eq!(next_month(i32::MAX, 12), None);
    assert_eq!(next_month(i32::MAX, 11), Some((i32::MAX, 12)));
    assert_eq!(next_month(2025, u32::MAX), None);
}

#[test]
fn test_month_window() {
    assert_eq!(month_window(2025, 1), Some((1735689600, 1738368000)));
    assert_eq!(month_window(2024, 2), Some((1706745600, 1709251200)));
    assert_eq!(month_window(2025, 12), Some((1764547200, 1767225600)));
    assert_eq!(month_window(2025, 0), None);
    assert_eq!(month_window(2025, 13), None);
    assert_eq!(month_window(i32::MAX, 1), None);
}

#[test]
fn test_month_window_at() {
    assert_eq!(month_window_at(1736899200), Some((1735689600, 1738368000)));
    assert_eq!(month_window_at(1735689600), Some((1735689600, 1738368000)));
    assert_eq!(month_window_at(1738367999), Some((1735689600, 1738368000)));
    assert_eq!(month_window_at(1738368000), Some((1738368000, 1740787200)));
    assert_eq!(month_window_at(-1), Some((-2678400, 0)));
    assert_eq!(month_window_at(i64::MAX), None);
    assert_eq!(month_window_at(i64::MIN), None);
}

#[test]
fn test_window_contains() {
    assert!(window_contains(5, None, None));
    assert!(window_contains(5, Some(5), None));
    assert!(!window_contains(4, Some(5), None));
    assert!(window_contains(4, None, Some(5)));
    assert!(!window_contains(5, None, Some(5)));
    assert!(window_contains(5, Some(5), Some(6)));
    assert!(!window_contains(5, Some(5), Some(5)));
    assert!(!window_contains(5, Some(6), Some(4)));
}

#[test]
fn test_dated() {
    assert_eq!(dated(Some(7), "whatever").unwrap(), 7);
    match dated(None, "whatever") {
        Err(DBError::DateFormatError(given)) => assert_eq!(given, "whatever"),
        other => panic!("{:?}", other),
    }
}

#[test]
fn test_window_between() {
    assert_eq!(window_between(Some(1), Some(2)), Some((1, 2)));
    assert_eq!(window_between(Some(2), Some(1)), Some((2, 1)));
    assert_eq!(window_between(None, Some(2)), None);
    assert_eq!(window_between(Some(1), None), None);
    assert_eq!(window_between(None, None), None);
}
