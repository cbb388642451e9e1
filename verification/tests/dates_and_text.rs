use dijo::archive::bucket_filename;
use dijo::clock;
use dijo::cursor::{Absolute, Cursor};
use dijo::date::{Date, days_in_month, is_leap_year, month_lower, month_title};
use dijo::strnum::{pad2_string, pad4_string, signed_string, u32_string};

fn d(year: u32, month: u32, day: u32) -> Date {
    Date { year, month, day }
}

#[test]
fn leap_years() {
    assert!(is_leap_year(2024));
    assert!(!is_leap_year(1900));
    assert!(is_leap_year(2000));
    assert!(!is_leap_year(2023));
    assert_eq!(days_in_month(2024, 2), 29);
    assert_eq!(days_in_month(1900, 2), 28);
    assert_eq!(days_in_month(2024, 4), 30);
    assert_eq!(days_in_month(2024, 1), 31);
}

#[test]
fn succ_and_pred_roll_over() {
    assert_eq!(d(2024, 2, 28).succ_day(), d(2024, 2, 29));
    assert_eq!(d(2024, 2, 29).succ_day(), d(2024, 3, 1));
    assert_eq!(d(2023, 12, 31).succ_day(), d(2024, 1, 1));
    assert_eq!(d(2024, 3, 1).pred_day(), d(2024, 2, 29));
    assert_eq!(d(2024, 1, 1).pred_day(), d(2023, 12, 31));
    assert_eq!(d(1, 1, 1).pred_day(), d(1, 1, 1));
}

#[test]
fn month_paging_clamps_day() {
    assert_eq!(d(2024, 1, 31).month_forward(), d(2024, 2, 29));
    assert_eq!(d(2023, 1, 31).month_forward(), d(2023, 2, 28));
    assert_eq!(d(2024, 3, 31).month_backward(), d(2024, 2, 29));
    assert_eq!(d(2024, 12, 15).month_forward(), d(2025, 1, 15));
    assert_eq!(d(2024, 1, 15).month_backward(), d(2023, 12, 15));
}

#[test]
fn day_numbers_difference() {
    let a = d(2024, 2, 28).day_number();
    let b = d(2024, 3, 1).day_number();
    assert_eq!(b - a, 2);
    let c = d(2023, 12, 31).day_number();
    let e = d(2024, 1, 1).day_number();
    assert_eq!(e - c, 1);
    assert_eq!(d(1, 1, 1).day_number(), 0);
}

#[test]
fn iso_rendering() {
    assert_eq!(d(2024, 3, 5).iso_string(), "2024-03-05");
    assert_eq!(d(33, 12, 25).iso_string(), "0033-12-25");
}

#[test]
fn month_names() {
    assert_eq!(month_lower(3), "mar");
    assert_eq!(month_lower(12), "dec");
    assert_eq!(month_title(3), "Mar");
    assert_eq!(month_title(10), "Oct");
}

#[test]
fn archive_bucket_names() {
    assert_eq!(bucket_filename(2024, 3), "mar_2024.json");
    assert_eq!(bucket_filename(2021, 12), "dec_2021.json");
}

#[test]
fn decimal_rendering() {
    assert_eq!(u32_string(0), "0");
    assert_eq!(u32_string(12345), "12345");
    assert_eq!(pad2_string(7), "07");
    assert_eq!(pad2_string(42), "42");
    assert_eq!(pad4_string(42), "0042");
    assert_eq!(pad4_string(2024), "2024");
    assert_eq!(signed_string(-3), "-3");
    assert_eq!(signed_string(15), "15");
}

#[test]
fn cursor_small_seek_clamps_at_today() {
    let today = d(2024, 3, 5);
    let mut c = Cursor::at(today);
    c.small_seek(Absolute::Right, today);
    assert_eq!(c.0, today);
    c.small_seek(Absolute::Left, today);
    assert_eq!(c.0, d(2024, 3, 4));
    c.small_seek(Absolute::Right, today);
    assert_eq!(c.0, today);
    c.small_seek(Absolute::Up, today);
    assert_eq!(c.0, d(2024, 2, 27));
    c.small_seek(Absolute::Down, today);
    assert_eq!(c.0, today);
    c.small_seek(Absolute::Down, today);
    assert_eq!(c.0, today);
}

#[test]
fn cursor_month_paging() {
    let mut c = Cursor::at(d(2024, 1, 31));
    c.month_forward();
    assert_eq!(c.0, d(2024, 2, 29));
    c.month_backward();
    assert_eq!(c.0, d(2024, 1, 29));
}

#[test]
fn cursor_reset_lands_on_a_real_day() {
    let mut c = Cursor::at(d(1999, 7, 4));
    c.reset();
    assert!(c.0.valid());
    assert_eq!(c.0, clock::today());
}

#[test]
fn clock_reports_a_real_day() {
    let t = clock::today();
    assert!(t.valid());
    assert!(t.year >= 2024);
}
