use casual_mailer::date::{add_months, is_on_or_before, Date};
use casual_mailer::queue::{due_buckets, is_bucket_due};

fn d(year: i32, month: u32, day: u32) -> Date {
    Date { year, month, day }
}

#[test]
fn add_months_keeps_day_up_to_28() {
    assert_eq!(add_months(d(2024, 3, 15), 1), Some(d(2024, 4, 15)));
    assert_eq!(add_months(d(2024, 3, 28), 1), Some(d(2024, 4, 28)));
}

#[test]
fn add_months_clamps_late_days_to_28() {
    assert_eq!(add_months(d(2024, 1, 31), 1), Some(d(2024, 2, 28)));
    assert_eq!(add_months(d(2024, 1, 29), 2), Some(d(2024, 3, 28)));
}

#[test]
fn add_months_wraps_into_following_years() {
    assert_eq!(add_months(d(2024, 11, 15), 3), Some(d(2025, 2, 15)));
    assert_eq!(add_months(d(2024, 12, 1), 12), Some(d(2025, 12, 1)));
    assert_eq!(add_months(d(2024, 12, 1), 25), Some(d(2027, 1, 1)));
}

#[test]
fn add_months_refuses_years_beyond_range() {
    assert_eq!(add_months(d(262142, 12, 1), 1), None);
    assert_eq!(add_months(d(262142, 11, 1), 1), Some(d(262142, 12, 1)));
}

#[test]
fn validity_follows_the_calendar() {
    assert!(d(2024, 2, 29).is_valid());
    assert!(!d(2023, 2, 29).is_valid());
    assert!(!d(2023, 4, 31).is_valid());
    assert!(!d(2023, 13, 1).is_valid());
    assert!(!d(2023, 1, 0).is_valid());
}

#[test]
fn calendar_order() {
    assert!(is_on_or_before(&d(2024, 5, 1), &d(2024, 5, 1)));
    assert!(is_on_or_before(&d(2023, 12, 31), &d(2024, 1, 1)));
    assert!(!is_on_or_before(&d(2024, 5, 2), &d(2024, 5, 1)));
    assert!(!is_on_or_before(&d(2024, 6, 1), &d(2024, 5, 30)));
}

#[test]
fn buckets_due_on_or_before_today_in_order() {
    let names = vec![
        "2024-01-01".to_string(),
        "notes".to_string(),
        "2024-05-02".to_string(),
        "2024-05-01".to_string(),
        "2024-13-01".to_string(),
    ];
    let due = due_buckets(&names, &d(2024, 5, 1));
    assert_eq!(due, vec!["2024-01-01".to_string(), "2024-05-01".to_string()]);
}

#[test]
fn odd_bucket_names_are_not_due() {
    let today = d(2024, 5, 1);
    assert!(!is_bucket_due("", &today));
    assert!(!is_bucket_due("2024-02-30", &today));
    assert!(!is_bucket_due("yesterday", &today));
    assert!(is_bucket_due("2023-12-31", &today));
}
