use dijo::bit::{Bit, CustomBool};
use dijo::count::Count;
use dijo::date::Date;
use dijo::events::{TrackEvent, ViewMode, default_auto};
use dijo::float::Float;
use dijo::variant::HabitVariant;

fn d(year: u32, month: u32, day: u32) -> Date {
    Date { year, month, day }
}

#[test]
fn bit_increment_records_true() {
    let mut h = Bit::new("meditate");
    let day = d(2024, 3, 5);
    h.modify(day, TrackEvent::Increment);
    assert_eq!(h.get_by_date(day), Some(CustomBool(true)));
    assert!(h.reached_goal(day));
    assert_eq!(h.remaining(day), 0);
}

#[test]
fn bit_decrement_after_increment_leaves_recorded_false() {
    // One decrement after one increment does not return the date to absent:
    // it leaves a recorded false; only a second decrement removes the entry.
    let mut h = Bit::new("meditate");
    let day = d(2024, 3, 5);
    h.modify(day, TrackEvent::Increment);
    h.modify(day, TrackEvent::Decrement);
    assert_eq!(h.get_by_date(day), Some(CustomBool(false)));
    assert!(!h.reached_goal(day));
    assert_eq!(h.remaining(day), 1);
    h.modify(day, TrackEvent::Decrement);
    assert_eq!(h.get_by_date(day), None);
}

#[test]
fn bit_decrement_on_absent_is_noop() {
    let mut h = Bit::new("meditate");
    let day = d(2024, 3, 5);
    h.modify(day, TrackEvent::Decrement);
    assert_eq!(h.get_by_date(day), None);
    assert_eq!(h.remaining(day), 1);
    assert!(!h.reached_goal(day));
}

#[test]
fn count_round_trip_returns_to_absent() {
    let mut h = Count::new("read", 3);
    let day = d(2024, 3, 5);
    for _ in 0..4 {
        h.modify(day, TrackEvent::Increment);
    }
    assert_eq!(h.get_by_date(day), Some(4));
    for _ in 0..4 {
        h.modify(day, TrackEvent::Decrement);
    }
    assert_eq!(h.get_by_date(day), None);
}

#[test]
fn count_decrement_to_zero_removes_entry() {
    let mut h = Count::new("read", 3);
    let day = d(2024, 3, 5);
    h.modify(day, TrackEvent::Increment);
    assert_eq!(h.get_by_date(day), Some(1));
    h.modify(day, TrackEvent::Decrement);
    assert_eq!(h.get_by_date(day), None);
}

#[test]
fn count_remaining_zero_iff_reached() {
    let mut h = Count::new("read", 3);
    let day = d(2024, 3, 5);
    assert_eq!(h.remaining(day), 3);
    assert!(!h.reached_goal(day));
    h.modify(day, TrackEvent::Increment);
    h.modify(day, TrackEvent::Increment);
    assert_eq!(h.remaining(day), 1);
    assert!(!h.reached_goal(day));
    h.modify(day, TrackEvent::Increment);
    assert_eq!(h.remaining(day), 0);
    assert!(h.reached_goal(day));
    h.modify(day, TrackEvent::Increment);
    assert_eq!(h.remaining(day), 0);
    assert!(h.reached_goal(day));
}

#[test]
fn count_zero_goal_absent_is_the_exception() {
    // The one divergence from "remaining is zero exactly when reached": a
    // counted habit with goal 0 and no entry has nothing outstanding but has
    // not reached its goal.
    let h = Count::new("idle", 0);
    let day = d(2024, 3, 5);
    assert_eq!(h.remaining(day), 0);
    assert!(!h.reached_goal(day));
}

#[test]
fn float_steps_at_precision() {
    let mut h = Float::new("run", 25, 1);
    let day = d(2024, 3, 5);
    h.modify(day, TrackEvent::Increment);
    h.modify(day, TrackEvent::Increment);
    assert_eq!(h.get_by_date(day), Some(2));
    assert_eq!(h.remaining(day), 23);
    assert!(!h.reached_goal(day));
    h.insert_entry(day, 30);
    assert!(h.reached_goal(day));
    assert_eq!(h.remaining(day), 0);
    h.modify(day, TrackEvent::Decrement);
    assert_eq!(h.get_by_date(day), Some(29));
}

#[test]
fn insert_entry_overwrites() {
    let mut h = Count::new("read", 3);
    let day = d(2024, 3, 5);
    h.insert_entry(day, 7);
    h.insert_entry(day, 2);
    assert_eq!(h.get_by_date(day), Some(2));
    assert_eq!(h.get_dates(), vec![day]);
}

#[test]
fn variant_uniform_surface() {
    let day = d(2024, 3, 5);
    let mut v = HabitVariant::Count(Count::new("read", 3));
    assert_eq!(v.name(), "read".to_string());
    assert_eq!(v.goal(), 3);
    v.modify(day, TrackEvent::Increment);
    assert!(v.has_entry(day));
    assert_eq!(v.remaining(day), 2);
    assert!(!v.reached_goal(day));

    let b = HabitVariant::Bit(Bit::new("meditate"));
    assert_eq!(b.goal(), 1);
    assert_eq!(b.remaining(day), 1);
}

#[test]
fn variant_missed_dates_in_current_month() {
    let today = d(2024, 3, 5);
    let mut h = HabitVariant::Count(Count::new("read", 3));
    h.modify(d(2024, 3, 1), TrackEvent::Increment);
    h.modify(d(2024, 3, 3), TrackEvent::Increment);
    let missed = h.missed_dates(today);
    assert_eq!(missed, vec![d(2024, 3, 2), d(2024, 3, 4)]);
}

#[test]
fn custom_bool_from_bool() {
    assert_eq!(CustomBool::from(true), CustomBool(true));
    assert_eq!(CustomBool::from(false), CustomBool(false));
}

#[test]
fn view_mode_labels() {
    assert_eq!(ViewMode::Day.label(), "DAY");
    assert_eq!(ViewMode::Week.label(), "WEEK");
    assert_eq!(ViewMode::Month.label(), "MONTH");
    assert_eq!(ViewMode::Year.label(), "YEAR");
    assert_eq!(ViewMode::default(), ViewMode::Day);
}

#[test]
fn default_auto_is_false() {
    assert!(!default_auto());
    assert!(!Count::new("x", 1).auto);
}
