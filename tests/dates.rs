use cosmic_money::dates::{
    get_month_date_range, leap_year, month_length, next_month, previous_month, Date, DateTime,
};

#[test]
fn month_range_of_leap_february() {
    let (start, end) = get_month_date_range(2024, 2);
    assert_eq!(start, Date { year: 2024, month: 2, day: 1 });
    assert_eq!(end, Date { year: 2024, month: 2, day: 29 });
}

#[test]
fn month_range_of_common_february() {
    let (_, end) = get_month_date_range(2023, 2);
    assert_eq!(end, Date { year: 2023, month: 2, day: 28 });
    let (_, end) = get_month_date_range(1900, 2);
    assert_eq!(end, Date { year: 1900, month: 2, day: 28 });
    let (_, end) = get_month_date_range(2000, 2);
    assert_eq!(end, Date { year: 2000, month: 2, day: 29 });
}

#[test]
fn month_range_of_december_rolls_over() {
    let (start, end) = get_month_date_range(2023, 12);
    assert_eq!(start, Date { year: 2023, month: 12, day: 1 });
    assert_eq!(end, Date { year: 2023, month: 12, day: 31 });
}

#[test]
fn month_range_of_april() {
    let (_, end) = get_month_date_range(2025, 4);
    assert_eq!(end, Date { year: 2025, month: 4, day: 30 });
}

#[test]
fn leap_years_and_month_lengths() {
    assert!(leap_year(2024));
    assert!(!leap_year(2023));
    assert!(!leap_year(2100));
    assert!(leap_year(2000));
    assert!(leap_year(-4));
    assert_eq!(month_length(2024, 2), 29);
    assert_eq!(month_length(2024, 9), 30);
    assert_eq!(month_length(2024, 1), 31);
}

#[test]
fn date_validity() {
    assert!(Date { year: 2024, month: 2, day: 29 }.is_valid());
    assert!(!Date { year: 2023, month: 2, day: 29 }.is_valid());
    assert!(!Date { year: 2023, month: 13, day: 1 }.is_valid());
    let noon = Date { year: 2024, month: 1, day: 1 }.and_hms(12, 0, 0);
    assert!(noon.is_valid());
    assert!(!DateTime { hour: 24, ..noon }.is_valid());
}

#[test]
fn month_steps() {
    assert_eq!(previous_month(2024, 1), (2023, 12));
    assert_eq!(previous_month(2024, 5), (2024, 4));
    assert_eq!(next_month(2024, 12), (2025, 1));
    assert_eq!(next_month(2024, 5), (2024, 6));
}
