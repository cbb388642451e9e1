use dijo::collection::{App, GRID_WIDTH, VIEW_HEIGHT, VIEW_WIDTH};
use dijo::command::{Command, CommandLineError, GoalKind, SideEffect};
use dijo::count::Count;
use dijo::cursor::{Absolute, Cursor};
use dijo::date::Date;
use dijo::events::{TrackEvent, ViewMode};
use dijo::message::{Message, MessageKind};
use dijo::variant::HabitVariant;

fn d(year: u32, month: u32, day: u32) -> Date {
    Date { year, month, day }
}

fn app_with(names: &[&str]) -> App {
    let mut app = App::new();
    for n in names {
        let eff = app.parse_command(Ok(Command::Add(n.to_string(), Some(GoalKind::Count(3)))));
        assert_eq!(eff, SideEffect::Stay);
    }
    app
}

#[test]
fn add_then_track_to_goal() {
    let mut app = App::new();
    let today = dijo::clock::today();
    app.parse_command(Ok(Command::Add("read".to_string(), Some(GoalKind::Count(3)))));
    assert_eq!(app.list_habits(), vec!["read".to_string()]);
    app.modify_habit(0, today, TrackEvent::Increment);
    app.modify_habit(0, today, TrackEvent::Increment);
    assert_eq!(app.habit_at(0).remaining(today), 1);
    assert!(!app.habit_at(0).reached_goal(today));
    app.modify_habit(0, today, TrackEvent::Increment);
    assert_eq!(app.habit_at(0).remaining(today), 0);
    assert!(app.habit_at(0).reached_goal(today));
}

#[test]
fn boolean_decrement_without_entry_is_noop() {
    let mut app = App::new();
    let day = d(2024, 3, 5);
    app.parse_command(Ok(Command::Add("meditate".to_string(), Some(GoalKind::Bit))));
    app.modify_habit(0, day, TrackEvent::Decrement);
    assert!(!app.habit_at(0).has_entry(day));
    assert_eq!(app.habit_at(0).remaining(day), 1);
}

#[test]
fn add_duplicate_name_is_rejected() {
    let mut app = app_with(&["read"]);
    let eff = app.parse_command(Ok(Command::Add("read".to_string(), Some(GoalKind::Bit))));
    assert_eq!(eff, SideEffect::Stay);
    assert_eq!(app.habits.len(), 1);
    assert_eq!(app.message.kind, MessageKind::Error);
    assert_eq!(app.message.msg, "Habit `read` already exist");
}

#[test]
fn add_without_goal_makes_zero_count() {
    let mut app = App::new();
    app.parse_command(Ok(Command::Add("water".to_string(), None)));
    assert_eq!(app.habit_at(0).goal(), 0);
    assert!(matches!(app.habit_at(0), HabitVariant::Count(_)));
}

#[test]
fn add_float_reports_and_appends() {
    let mut app = App::new();
    app.parse_command(Ok(Command::Add("run".to_string(), Some(GoalKind::Float(25, 1)))));
    assert_eq!(app.habits.len(), 1);
    assert_eq!(app.message.msg, "Added floating habit");
    assert_eq!(app.message.kind, MessageKind::Error);
    assert!(matches!(app.habit_at(0), HabitVariant::Float(_)));
}

#[test]
fn delete_unknown_name_reports_error() {
    let mut app = app_with(&["read", "write"]);
    app.set_focus(Absolute::Right);
    assert_eq!(app.focus, 1);
    app.parse_command(Ok(Command::Delete("sleep".to_string())));
    assert_eq!(app.habits.len(), 2);
    assert_eq!(app.focus, 1);
    assert_eq!(app.message.kind, MessageKind::Error);
    assert_eq!(app.message.msg, "Could not delete habit `sleep`");
}

#[test]
fn delete_resets_focus() {
    let mut app = app_with(&["read", "write", "sleep"]);
    app.set_focus(Absolute::Right);
    app.set_focus(Absolute::Right);
    assert_eq!(app.focus, 2);
    app.parse_command(Ok(Command::Delete("write".to_string())));
    assert_eq!(app.list_habits(), vec!["read".to_string(), "sleep".to_string()]);
    assert_eq!(app.focus, 0);
}

#[test]
fn focus_stays_in_bounds() {
    let mut app = app_with(&["a", "b", "c", "d", "e"]);
    assert_eq!(app.focus, 0);
    app.set_focus(Absolute::Left);
    assert_eq!(app.focus, 0);
    app.set_focus(Absolute::Right);
    assert_eq!(app.focus, 1);
    app.set_focus(Absolute::Down);
    assert_eq!(app.focus, 4);
    app.set_focus(Absolute::Down);
    assert_eq!(app.focus, 4);
    app.set_focus(Absolute::Up);
    assert_eq!(app.focus, 1);
    app.set_focus(Absolute::Up);
    assert_eq!(app.focus, 0);
    for _ in 0..10 {
        app.set_focus(Absolute::Right);
        assert!(app.focus < app.habits.len());
    }
    assert_eq!(app.focus, 4);
}

#[test]
fn focus_moves_ignored_when_empty() {
    let mut app = App::new();
    app.set_focus(Absolute::Right);
    assert_eq!(app.focus, 0);
    app.set_focus(Absolute::Down);
    assert_eq!(app.focus, 0);
}

#[test]
fn parse_error_sets_error_message() {
    let mut app = App::new();
    let eff = app.parse_command(Err(CommandLineError::InvalidCommand("frobnicate".to_string())));
    assert_eq!(eff, SideEffect::Stay);
    assert_eq!(app.message.kind, MessageKind::Error);
    assert_eq!(app.message.msg, "Invalid command: `frobnicate`");

    app.parse_command(Err(CommandLineError::NotEnoughArgs("add".to_string(), 1)));
    assert_eq!(app.message.msg, "add expects at least 1 argument(s)");

    app.parse_command(Err(CommandLineError::InvalidArg(2)));
    assert_eq!(app.message.msg, "Invalid argument at position 2");
}

#[test]
fn commands_map_to_side_effects() {
    let mut app = App::new();
    assert_eq!(app.parse_command(Ok(Command::Write)), SideEffect::Save);
    assert_eq!(app.parse_command(Ok(Command::Quit)), SideEffect::SaveAndQuit);
    assert_eq!(app.parse_command(Ok(Command::WriteAndQuit)), SideEffect::SaveAndQuit);
    assert_eq!(app.parse_command(Ok(Command::Archive)), SideEffect::ArchiveAndSave);
    assert_eq!(app.parse_command(Ok(Command::Blank)), SideEffect::Stay);
}

#[test]
fn help_topics() {
    let mut app = App::new();
    app.parse_command(Ok(Command::Help(Some("add".to_string()))));
    assert_eq!(app.message.msg, "add <habit-name> [goal]     (alias: a)");
    app.parse_command(Ok(Command::Help(Some("q".to_string()))));
    assert_eq!(app.message.msg, "quit dijo");
    app.parse_command(Ok(Command::Help(Some("xyzzy".to_string()))));
    assert_eq!(app.message.msg, "unknown command or help topic.");
    app.parse_command(Ok(Command::Help(None)));
    assert_eq!(app.message.msg, "help <command>|commands|keys");
}

#[test]
fn month_navigation_broadcasts() {
    let mut app = app_with(&["read"]);
    let start = d(2024, 1, 31);
    app.reset_cursor_on(start);
    assert_eq!(app.cursor.0, start);
    assert_eq!(app.habit_at(0).inner_data_ref().cursor.0, start);
    app.parse_command(Ok(Command::MonthNext));
    assert_eq!(app.cursor.0, d(2024, 2, 29));
    assert_eq!(app.habit_at(0).inner_data_ref().cursor.0, d(2024, 2, 29));
    app.parse_command(Ok(Command::MonthPrev));
    assert_eq!(app.cursor.0, d(2024, 1, 29));
    assert_eq!(app.habit_at(0).inner_data_ref().cursor.0, d(2024, 1, 29));
}

#[test]
fn move_cursor_broadcasts() {
    let mut app = app_with(&["read"]);
    let today = d(2024, 3, 5);
    app.reset_cursor_on(today);
    app.move_cursor_on(Absolute::Left, today);
    assert_eq!(app.cursor.0, d(2024, 3, 4));
    assert_eq!(app.habit_at(0).inner_data_ref().cursor.0, d(2024, 3, 4));
}

#[test]
fn clock_driven_cursor_moves() {
    let mut app = app_with(&["read"]);
    app.reset_cursor();
    let start = app.cursor.0;
    app.move_cursor(Absolute::Left);
    assert_eq!(app.cursor.0, start.pred_day());
    assert_eq!(app.habit_at(0).inner_data_ref().cursor.0, start.pred_day());
}

#[test]
fn view_modes_per_habit() {
    let mut app = app_with(&["read", "write"]);
    assert_eq!(app.get_mode(), ViewMode::Day);
    app.set_mode(ViewMode::Week);
    assert_eq!(app.get_mode(), ViewMode::Week);
    app.set_focus(Absolute::Right);
    assert_eq!(app.get_mode(), ViewMode::Day);
}

#[test]
fn empty_app_mode_is_day() {
    let mut app = App::new();
    assert_eq!(app.get_mode(), ViewMode::Day);
    app.set_mode(ViewMode::Year);
    assert_eq!(app.get_mode(), ViewMode::Day);
}

#[test]
fn status_line_exact() {
    let today = d(2024, 3, 5);
    let mut app = App {
        habits: Vec::new(),
        focus: 0,
        cursor: Cursor::at(today),
        message: Message::startup(),
    };
    let mut read = Count::new("read", 3);
    read.modify(today, TrackEvent::Increment);
    app.habits.push(HabitVariant::Count(read));
    app.habits.push(HabitVariant::Count(Count::new("write", 2)));

    let s = app.status_on(today);
    assert_eq!(s.0, "Today: 1 completed, 4 remaining --DAY--");
    assert_eq!(s.1, "05/Mar/24");
}

#[test]
fn status_line_days_ago() {
    let today = d(2024, 3, 5);
    let app = App {
        habits: Vec::new(),
        focus: 0,
        cursor: Cursor::at(d(2024, 3, 4)),
        message: Message::startup(),
    };
    let s = app.status_on(today);
    assert_eq!(s.0, "Today: 0 completed, 0 remaining --DAY--");
    assert_eq!(s.1, "2024-03-04 (1 day ago)");

    let app2 = App {
        habits: Vec::new(),
        focus: 0,
        cursor: Cursor::at(d(2024, 2, 28)),
        message: Message::startup(),
    };
    assert_eq!(app2.status_on(today).1, "2024-02-28 (6 days ago)");
}

#[test]
fn max_size_counts_rows() {
    let mut app = App::new();
    assert_eq!(app.max_size(), (GRID_WIDTH * VIEW_WIDTH, 2));
    app = app_with(&["a", "b", "c", "d"]);
    assert_eq!(app.max_size(), (GRID_WIDTH * VIEW_WIDTH, VIEW_HEIGHT * 2 + 2));
}

#[test]
fn missed_report_for_named_habit() {
    let today = d(2024, 3, 5);
    let mut app = app_with(&["read"]);
    app.modify_habit(0, d(2024, 3, 1), TrackEvent::Increment);
    app.modify_habit(0, d(2024, 3, 3), TrackEvent::Increment);
    let rows = app.missed_by_name_on("read", today);
    assert_eq!(rows, vec!["2024-03-02".to_string(), "2024-03-04".to_string()]);
    let none = app.missed_by_name_on("absent", today);
    assert!(none.is_empty());
}

#[test]
fn status_with_clock_today() {
    let mut app = App::new();
    app.reset_cursor();
    let s = app.status();
    assert_eq!(s.0, "Today: 0 completed, 0 remaining --DAY--");
    // The cursor sits on today, so the right half is the "DD/Mon/YY" form.
    assert_eq!(s.1.len(), 9);
    assert_eq!(s.1.chars().nth(2), Some('/'));
    assert_eq!(s.1.chars().nth(6), Some('/'));
}

#[test]
fn clear_message_empties_text() {
    let mut app = App::new();
    assert!(!app.message.contents().is_empty());
    app.clear_message();
    assert!(app.message.contents().is_empty());
    assert_eq!(app.message.kind(), MessageKind::Info);
}
