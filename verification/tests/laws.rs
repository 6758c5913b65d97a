use std::collections::HashMap;

use aevum::app::{App, InputMode};
use aevum::date::Date;
use aevum::keys::{Action, KeyInput};
use aevum::store::date_key;

fn d(year: i32, month: u32, day: u32) -> Date {
    Date { year, month, day }
}

fn app_on(today: Date, entries: &[(Date, &[&str])]) -> App {
    let mut m = HashMap::new();
    for (date, list) in entries {
        m.insert(date_key(*date), list.iter().map(|s| s.to_string()).collect::<Vec<String>>());
    }
    App::new_on(today, m)
}

#[test]
fn next_then_previous_month_is_identity() {
    for today in [d(2024, 1, 15), d(2024, 12, 15), d(1999, 6, 30)] {
        let mut app = app_on(today, &[]);
        let start = app.current_month;
        app.next_month();
        app.prev_month();
        assert_eq!(app.current_month, start);
        app.prev_month();
        app.next_month();
        assert_eq!(app.current_month, start);
    }
}

#[test]
fn year_forward_and_back_is_identity_except_leap_day() {
    let mut app = app_on(d(2023, 10, 31), &[]);
    app.next_year();
    app.prev_year();
    assert_eq!(app.selected_date, d(2023, 10, 31));
    let mut leap = app_on(d(2024, 2, 29), &[]);
    leap.next_year();
    leap.prev_year();
    assert_eq!(leap.selected_date, d(2024, 2, 28));
}

#[test]
fn moving_and_moving_back_is_identity() {
    for (start, n) in [(d(2024, 2, 28), 1i64), (d(2023, 12, 31), 7), (d(2024, 3, 1), -1), (d(1, 1, 1), 400)] {
        let mut app = app_on(start, &[]);
        app.next_month();
        app.move_selection(n);
        app.move_selection(-n);
        assert_eq!(app.selected_date, start);
        assert_eq!(app.current_month, Date { day: 1, ..start });
    }
}

#[test]
fn selection_down_then_up_is_identity() {
    let day = d(2024, 5, 5);
    let mut app = app_on(day, &[(day, &["a", "b", "c"])]);
    for i in 0..3 {
        app.event_selection = Some(i);
        app.next_event();
        app.prev_event();
        assert_eq!(app.event_selection, Some(i));
        app.prev_event();
        app.next_event();
        assert_eq!(app.event_selection, Some(i));
    }
    app.menu_selection = Some(1);
    app.next_menu_item();
    app.prev_menu_item();
    assert_eq!(app.menu_selection, Some(1));
}

#[test]
fn every_change_to_events_is_saved() {
    let day = d(2024, 5, 5);
    let mut app = app_on(day, &[(day, &["a"])]);
    let keys = [
        KeyInput::Char('a'),
        KeyInput::Char('x'),
        KeyInput::Enter,
        KeyInput::Char('r'),
        KeyInput::Down,
        KeyInput::Char('d'),
        KeyInput::Enter,
        KeyInput::Char('/'),
        KeyInput::Char('a'),
        KeyInput::Esc,
        KeyInput::Right,
        KeyInput::Char('r'),
    ];
    for key in keys {
        let before = app.events.clone();
        let act = app.handle_key(key);
        if app.events != before {
            assert_eq!(act, Action::SaveEvents);
        }
    }
    assert!(app.events.is_empty());
}

#[test]
fn only_normal_mode_quits() {
    let mut app = app_on(d(2024, 5, 5), &[]);
    app.handle_key(KeyInput::Char('a'));
    assert_eq!(app.handle_key(KeyInput::Char('q')), Action::Continue);
    assert_eq!(app.handle_key(KeyInput::Esc), Action::Continue);
    assert_eq!(app.input_mode, InputMode::Normal);
    app.handle_key(KeyInput::Char('/'));
    assert_eq!(app.handle_key(KeyInput::Char('q')), Action::Continue);
    assert_eq!(app.handle_key(KeyInput::Esc), Action::Continue);
    app.handle_key(KeyInput::Char('m'));
    assert_eq!(app.handle_key(KeyInput::Char('q')), Action::Continue);
    assert_eq!(app.input_mode, InputMode::Normal);
    assert_eq!(app.handle_key(KeyInput::Char('q')), Action::Quit);
}

#[test]
fn csv_import_appends_per_day_in_record_order() {
    let day = d(2024, 5, 5);
    let mut app = app_on(day, &[(day, &["first"])]);
    let records: Vec<Vec<String>> = [
        ["2024-05-05", "second"],
        ["2024-05-06", "other"],
        ["2024-05-05", "third"],
    ]
    .iter()
    .map(|r| r.iter().map(|s| s.to_string()).collect())
    .collect();
    assert_eq!(app.import_csv_records(&records), 3);
    assert_eq!(
        app.events.get(&date_key(day)),
        Some(&vec!["first".to_string(), "second".to_string(), "third".to_string()])
    );
}

#[test]
fn moving_down_len_times_comes_back() {
    let day = d(2024, 5, 5);
    let mut app = app_on(day, &[(day, &["a", "b", "c", "d"])]);
    for start in 0..4 {
        app.event_selection = Some(start);
        for n in 1..=4 {
            app.next_event();
            assert_eq!(app.event_selection, Some((start + n) % 4));
        }
        assert_eq!(app.event_selection, Some(start));
    }
}

#[test]
fn menu_is_at_most_one_level_deep() {
    let mut app = app_on(d(2024, 5, 5), &[]);
    let keys = [
        KeyInput::Char('m'),
        KeyInput::Enter,
        KeyInput::Char('k'),
        KeyInput::Down,
        KeyInput::Char('q'),
        KeyInput::Enter,
        KeyInput::Esc,
        KeyInput::Esc,
        KeyInput::Esc,
    ];
    for key in keys {
        app.handle_key(key);
        assert!(app.menu_depth <= 1);
    }
}

#[test]
fn keys_only_touch_the_selected_day() {
    let day = d(2024, 5, 5);
    let other = d(2024, 5, 6);
    let mut app = app_on(day, &[(day, &["a"]), (other, &["keep"])]);
    for key in [KeyInput::Char('a'), KeyInput::Char('z'), KeyInput::Enter, KeyInput::Char('r'), KeyInput::Enter] {
        app.handle_key(key);
        assert_eq!(app.events.get(&date_key(other)), Some(&vec!["keep".to_string()]));
    }
    assert_eq!(app.events.get(&date_key(day)), Some(&vec!["z".to_string()]));
}

#[test]
fn removing_mode_only_on_days_with_events() {
    let mut app = app_on(d(2024, 1, 1), &[(d(2024, 1, 1), &["one", "two"])]);
    app.handle_key(KeyInput::Char('r'));
    assert_eq!(app.input_mode, InputMode::Removing);
    assert_eq!(app.handle_key(KeyInput::Char('d')), Action::SaveEvents);
    assert_eq!(app.input_mode, InputMode::Removing);
    assert_eq!(app.handle_key(KeyInput::Delete), Action::SaveEvents);
    assert!(!app.events.contains_key(&date_key(d(2024, 1, 1))));
    assert_eq!(app.input_mode, InputMode::Normal);
    app.handle_key(KeyInput::Char('r'));
    assert_eq!(app.input_mode, InputMode::Normal);
}

#[test]
fn every_key_clears_the_status_line() {
    let mut app = app_on(d(2024, 1, 1), &[]);
    for key in [KeyInput::Right, KeyInput::Char('a'), KeyInput::Char('x'), KeyInput::Esc, KeyInput::Other] {
        app.status_message = "old news".to_string();
        app.handle_key(key);
        assert_eq!(app.status_message, "");
    }
}

#[test]
fn longer_query_keeps_only_matches() {
    let entries: &[(Date, &[&str])] = &[
        (d(2024, 1, 2), &["Team Meeting", "Dentist"]),
        (d(2023, 12, 30), &["meet Anna", "Meeting notes"]),
    ];
    let mut short = app_on(d(2024, 1, 1), entries);
    short.search_query = "Meet".to_string();
    short.search_events();
    let mut long = app_on(d(2024, 1, 1), entries);
    long.search_query = "Meeting".to_string();
    long.search_events();
    let kept: Vec<(Date, String)> =
        short.search_results.iter().filter(|r| r.1.to_lowercase().contains("meeting")).cloned().collect();
    assert_eq!(short.search_results.len(), 3);
    assert_eq!(long.search_results, kept);
    assert_eq!(long.search_results.len(), 2);
}
