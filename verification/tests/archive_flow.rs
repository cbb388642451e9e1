use dijo::archive::plan_archive;
use dijo::collection::App;
use dijo::command::{Command, GoalKind, SideEffect};
use dijo::count::Count;
use dijo::date::Date;
use dijo::events::TrackEvent;
use dijo::message::MessageKind;
use dijo::variant::HabitVariant;

fn d(year: u32, month: u32, day: u32) -> Date {
    Date { year, month, day }
}

fn count_of(h: &HabitVariant, day: Date) -> Option<u32> {
    match h {
        HabitVariant::Count(c) => c.get_by_date(day),
        _ => None,
    }
}

/// Two months of entries; after planning, the live side holds only the
/// current month and the other month sits in exactly one bucket with
/// exactly its own entries.
#[test]
fn archive_partitions_by_month() {
    let today = d(2024, 3, 5);
    let mut app = App::new();
    app.parse_command(Ok(Command::Add("read".to_string(), Some(GoalKind::Count(3)))));
    app.modify_habit(0, d(2024, 2, 10), TrackEvent::Increment);
    app.modify_habit(0, d(2024, 2, 11), TrackEvent::Increment);
    app.modify_habit(0, d(2024, 3, 1), TrackEvent::Increment);

    let plan = plan_archive(&app.habits, today);

    // The live side keeps only current-month entries.
    assert_eq!(plan.live.len(), 1);
    let live = &plan.live[0];
    assert_eq!(live.name(), "read");
    assert_eq!(live.get_dates(), vec![d(2024, 3, 1)]);
    assert_eq!(count_of(live, d(2024, 3, 1)), Some(1));
    assert!(!live.has_entry(d(2024, 2, 10)));

    // One bucket, for February, named deterministically, holding exactly
    // the February entries with their values.
    assert_eq!(plan.buckets.len(), 1);
    let b = &plan.buckets[0];
    assert_eq!((b.year, b.month), (2024, 2));
    assert_eq!(b.filename, "feb_2024.json");
    assert_eq!(b.habits.len(), 1);
    let copy = &b.habits[0];
    assert_eq!(copy.name(), "read");
    assert_eq!(copy.goal(), 3);
    let mut dates = copy.get_dates();
    dates.sort_by_key(|x| x.day);
    assert_eq!(dates, vec![d(2024, 2, 10), d(2024, 2, 11)]);
    assert_eq!(count_of(copy, d(2024, 2, 10)), Some(1));
    assert!(!copy.has_entry(d(2024, 3, 1)));

    // Mass conservation: every original entry is in exactly one of the two
    // sides, and the counts add up.
    let total = plan.live[0].get_dates().len() + b.habits[0].get_dates().len();
    assert_eq!(total, app.habit_at(0).get_dates().len());
}

#[test]
fn archive_drops_habit_without_current_entries() {
    let today = d(2024, 3, 5);
    let mut app = App::new();
    app.parse_command(Ok(Command::Add("old".to_string(), Some(GoalKind::Count(1)))));
    app.parse_command(Ok(Command::Add("fresh".to_string(), Some(GoalKind::Count(1)))));
    app.modify_habit(0, d(2024, 1, 7), TrackEvent::Increment);
    app.modify_habit(1, d(2024, 3, 2), TrackEvent::Increment);

    let plan = plan_archive(&app.habits, today);
    assert_eq!(plan.live.len(), 1);
    assert_eq!(plan.live[0].name(), "fresh");
    assert_eq!(plan.buckets.len(), 1);
    assert_eq!((plan.buckets[0].year, plan.buckets[0].month), (2024, 1));
    assert_eq!(plan.buckets[0].filename, "jan_2024.json");
    assert_eq!(plan.buckets[0].habits.len(), 1);
    assert_eq!(plan.buckets[0].habits[0].name(), "old");
}

#[test]
fn archive_groups_several_months_and_habits() {
    let today = d(2024, 3, 5);
    let mut app = App::new();
    app.parse_command(Ok(Command::Add("a".to_string(), Some(GoalKind::Count(1)))));
    app.parse_command(Ok(Command::Add("b".to_string(), Some(GoalKind::Bit))));
    app.modify_habit(0, d(2024, 1, 7), TrackEvent::Increment);
    app.modify_habit(0, d(2024, 2, 8), TrackEvent::Increment);
    app.modify_habit(1, d(2024, 2, 9), TrackEvent::Increment);
    app.modify_habit(1, d(2023, 12, 9), TrackEvent::Increment);

    let plan = plan_archive(&app.habits, today);
    assert!(plan.live.is_empty());
    assert_eq!(plan.buckets.len(), 3);
    let mut keys: Vec<(u32, u32)> = plan.buckets.iter().map(|b| (b.year, b.month)).collect();
    keys.sort();
    assert_eq!(keys, vec![(2023, 12), (2024, 1), (2024, 2)]);
    for b in &plan.buckets {
        if (b.year, b.month) == (2024, 2) {
            assert_eq!(b.habits.len(), 2);
            assert_eq!(b.habits[0].name(), "a");
            assert_eq!(b.habits[1].name(), "b");
        } else {
            assert_eq!(b.habits.len(), 1);
        }
    }
}

#[test]
fn commit_archive_replaces_live_and_reports() {
    let today = d(2024, 3, 5);
    let mut app = App::new();
    app.parse_command(Ok(Command::Add("read".to_string(), Some(GoalKind::Count(3)))));
    app.modify_habit(0, d(2024, 2, 10), TrackEvent::Increment);
    app.modify_habit(0, d(2024, 3, 1), TrackEvent::Increment);

    let plan = plan_archive(&app.habits, today);
    let archived = plan.buckets.len() as u32;
    app.commit_archive(plan.live, archived);
    assert_eq!(app.habits.len(), 1);
    assert_eq!(app.focus, 0);
    assert!(!app.habit_at(0).has_entry(d(2024, 2, 10)));
    assert!(app.habit_at(0).has_entry(d(2024, 3, 1)));
    assert_eq!(app.message.msg, "Archived 1 month(s) of habits");
}

#[test]
fn commit_archive_with_nothing_old() {
    let mut app = App::new();
    app.parse_command(Ok(Command::Add("read".to_string(), Some(GoalKind::Count(3)))));
    let today = d(2024, 3, 5);
    app.modify_habit(0, d(2024, 3, 1), TrackEvent::Increment);
    let plan = plan_archive(&app.habits, today);
    assert!(plan.buckets.is_empty());
    app.commit_archive(plan.live, 0);
    assert_eq!(app.message.msg, "No old months to archive");
}

#[test]
fn archive_write_failure_keeps_collection() {
    let mut app = App::new();
    app.parse_command(Ok(Command::Add("read".to_string(), Some(GoalKind::Count(3)))));
    app.modify_habit(0, d(2024, 2, 10), TrackEvent::Increment);
    let before = app.habits.len();
    app.archive_write_failed();
    assert_eq!(app.habits.len(), before);
    assert!(app.habit_at(0).has_entry(d(2024, 2, 10)));
    assert_eq!(app.message.msg, "Failed to write archive file");
    assert_eq!(app.message.kind, MessageKind::Error);
}

#[test]
fn archive_command_asks_for_archive_and_save() {
    let mut app = App::new();
    let eff = app.parse_command(Ok(Command::Archive));
    assert_eq!(eff, SideEffect::ArchiveAndSave);
}

#[test]
fn filtered_copy_keeps_metadata() {
    let mut c = Count::new("read", 7);
    c.modify(d(2024, 2, 10), TrackEvent::Increment);
    let v = HabitVariant::Count(c);
    let part = v.filtered_to_month(2024, 2);
    assert_eq!(part.name(), "read");
    assert_eq!(part.goal(), 7);
    assert_eq!(part.get_dates(), vec![d(2024, 2, 10)]);
    let empty = v.filtered_to_month(2024, 3);
    assert!(empty.get_dates().is_empty());
}
