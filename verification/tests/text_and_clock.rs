use fuel_station::clock::get_nowtime_str;
use fuel_station::text::{format_datetime, push_int, push_nat, push_pad2};

#[test]
fn datetime_is_zero_padded() {
    assert_eq!(format_datetime(2023, 5, 7, 9, 3), "2023-05-07 09:03");
}

#[test]
fn datetime_two_digit_fields_are_kept() {
    assert_eq!(format_datetime(2024, 12, 31, 23, 59), "2024-12-31 23:59");
}

#[test]
fn datetime_short_and_negative_years() {
    assert_eq!(format_datetime(5, 1, 1, 0, 0), "5-01-01 00:00");
    assert_eq!(format_datetime(-44, 3, 15, 12, 0), "-44-03-15 12:00");
}

#[test]
fn datetime_extreme_years() {
    assert_eq!(format_datetime(i32::MIN, 1, 2, 3, 4), "-2147483648-01-02 03:04");
    assert_eq!(format_datetime(i32::MAX, 10, 20, 10, 40), "2147483647-10-20 10:40");
}

#[test]
fn decimal_text_of_numbers() {
    let mut s = String::new();
    push_nat(&mut s, 0);
    assert_eq!(s, "0");
    let mut s = String::from("x=");
    push_nat(&mut s, 1234567890);
    assert_eq!(s, "x=1234567890");
    let mut s = String::new();
    push_nat(&mut s, u64::MAX);
    assert_eq!(s, u64::MAX.to_string());
    let mut s = String::new();
    push_int(&mut s, -907);
    assert_eq!(s, "-907");
    let mut s = String::new();
    push_pad2(&mut s, 7);
    push_pad2(&mut s, 10);
    push_pad2(&mut s, 123);
    assert_eq!(s, "0710123");
}

#[test]
fn now_has_the_timestamp_layout() {
    let now = get_nowtime_str();
    let b = now.as_bytes();
    assert_eq!(b.len(), 16);
    assert_eq!(b[4], b'-');
    assert_eq!(b[7], b'-');
    assert_eq!(b[10], b' ');
    assert_eq!(b[13], b':');
    for (i, c) in b.iter().enumerate() {
        if i != 4 && i != 7 && i != 10 && i != 13 {
            assert!(c.is_ascii_digit());
        }
    }
    let month: u32 = now[5..7].parse().unwrap();
    let hour: u32 = now[11..13].parse().unwrap();
    assert!((1..=12).contains(&month));
    assert!(hour <= 23);
}

#[test]
fn timestamps_order_as_moments() {
    let a = format_datetime(2023, 5, 7, 9, 3);
    let b = format_datetime(2023, 5, 7, 10, 0);
    let c = format_datetime(2023, 12, 1, 0, 0);
    let d = format_datetime(2024, 1, 1, 0, 0);
    assert!(a < b && b < c && c < d);
    assert_eq!(format_datetime(2023, 5, 7, 9, 3), a);
    assert!(format_datetime(2023, 9, 30, 23, 59) < format_datetime(2023, 10, 1, 0, 0));
}

#[test]
fn time_text_and_clock_arguments() {
    assert_eq!(fuel_station::clock::time_text(Some((2023, 5, 7, 9, 3))), "2023-05-07 09:03");
    assert_eq!(fuel_station::clock::time_text(None), "unknown time");
    assert_eq!(fuel_station::clock::local_args(1_700_000_000, 5), Some((1_700_000_000, 5)));
    assert_eq!(fuel_station::clock::local_args(i64::MAX as u64, 0), Some((i64::MAX, 0)));
    assert_eq!(fuel_station::clock::local_args(i64::MAX as u64 + 1, 0), None);
}

#[test]
fn decimal_text_of_the_smallest_integer() {
    let mut s = String::new();
    push_int(&mut s, i64::MIN);
    assert_eq!(s, i64::MIN.to_string());
}
