use std::collections::HashMap;

use aevum::app::{App, InputMode, MenuCommand};
use aevum::date::{Date, MAX_YEAR};
use aevum::store::{date_key, key_to_date};

fn d(year: i32, month: u32, day: u32) -> Date {
    Date { year, month, day }
}

fn events(entries: &[(Date, &[&str])]) -> HashMap<u64, Vec<String>> {
    let mut m = HashMap::new();
    for (date, list) in entries {
        m.insert(date_key(*date), list.iter().map(|s| s.to_string()).collect());
    }
    m
}

fn list(app: &App, date: Date) -> Option<Vec<String>> {
    app.events.get(&date_key(date)).cloned()
}

#[test]
fn keys_round_trip() {
    for date in [d(2024, 2, 29), d(-262143, 1, 1), d(262142, 12, 31), d(1, 1, 1)] {
        assert_eq!(key_to_date(date_key(date)), date);
    }
    assert!(date_key(d(2024, 1, 31)) < date_key(d(2024, 2, 1)));
    assert!(date_key(d(2023, 12, 31)) < date_key(d(2024, 1, 1)));
}

#[test]
fn new_app_starts_on_today() {
    let app = App::new_on(d(2024, 5, 17), events(&[(d(2024, 5, 17), &["dentist"])]));
    assert_eq!(app.current_month, d(2024, 5, 1));
    assert_eq!(app.selected_date, d(2024, 5, 17));
    assert_eq!(app.input_mode, InputMode::Normal);
    assert_eq!(app.event_selection, Some(0));
    assert!(app.status_message.is_empty());
    let empty = App::new_on(d(2024, 5, 18), events(&[(d(2024, 5, 17), &["dentist"])]));
    assert_eq!(empty.event_selection, None);
    let empty_list = App::new_on(d(2024, 5, 17), events(&[(d(2024, 5, 17), &[])]));
    assert_eq!(empty_list.event_selection, None);
}

#[test]
fn months_step_over_year_ends() {
    let mut app = App::new_on(d(2024, 12, 10), HashMap::new());
    app.next_month();
    assert_eq!(app.current_month, d(2025, 1, 1));
    assert_eq!(app.selected_date, d(2024, 12, 10));
    app.prev_month();
    app.prev_month();
    assert_eq!(app.current_month, d(2024, 11, 1));
    let mut jan = App::new_on(d(2024, 1, 3), HashMap::new());
    jan.prev_month();
    assert_eq!(jan.current_month, d(2023, 12, 1));
    jan.next_month();
    assert_eq!(jan.current_month, d(2024, 1, 1));
}

#[test]
fn years_keep_the_day_but_29_february() {
    let mut app = App::new_on(d(2024, 2, 29), events(&[(d(2025, 2, 28), &["x"])]));
    app.next_year();
    assert_eq!(app.current_month, d(2025, 2, 1));
    assert_eq!(app.selected_date, d(2025, 2, 28));
    assert_eq!(app.event_selection, Some(0));
    app.prev_year();
    assert_eq!(app.selected_date, d(2024, 2, 28));
    let mut other = App::new_on(d(2024, 7, 4), HashMap::new());
    other.next_year();
    other.prev_year();
    assert_eq!(other.selected_date, d(2024, 7, 4));
    assert_eq!(other.current_month, d(2024, 7, 1));
}

#[test]
fn moving_the_cursor() {
    let mut app = App::new_on(d(2024, 1, 31), events(&[(d(2024, 2, 1), &["a", "b"])]));
    app.next_month();
    app.next_month();
    app.move_selection(1);
    assert_eq!(app.selected_date, d(2024, 2, 1));
    assert_eq!(app.current_month, d(2024, 2, 1));
    assert_eq!(app.event_selection, Some(0));
    app.move_selection(-1);
    assert_eq!(app.selected_date, d(2024, 1, 31));
    assert_eq!(app.event_selection, None);
    app.move_selection(-7);
    assert_eq!(app.selected_date, d(2024, 1, 24));
    app.move_selection(7);
    assert_eq!(app.selected_date, d(2024, 1, 31));
    let mut edge = App::new_on(d(MAX_YEAR, 12, 31), HashMap::new());
    edge.move_selection(1);
    assert_eq!(edge.selected_date, d(MAX_YEAR, 12, 31));
}

#[test]
fn event_selection_wraps() {
    let mut app = App::new_on(d(2024, 3, 3), events(&[(d(2024, 3, 3), &["a", "b", "c"])]));
    assert_eq!(app.event_selection, Some(0));
    app.next_event();
    app.next_event();
    assert_eq!(app.event_selection, Some(2));
    app.next_event();
    assert_eq!(app.event_selection, Some(0));
    app.prev_event();
    assert_eq!(app.event_selection, Some(2));
    app.prev_event();
    assert_eq!(app.event_selection, Some(1));
    app.event_selection = None;
    app.prev_event();
    assert_eq!(app.event_selection, Some(0));
    let mut none = App::new_on(d(2024, 3, 4), events(&[(d(2024, 3, 3), &["a"])]));
    none.next_event();
    assert_eq!(none.event_selection, None);
}

#[test]
fn deleting_events() {
    let day = d(2024, 3, 3);
    let mut app = App::new_on(day, events(&[(day, &["a", "b", "c"]), (d(2024, 3, 4), &["keep"])]));
    app.next_event();
    assert!(app.delete_selected_event());
    assert_eq!(list(&app, day), Some(vec!["a".to_string(), "c".to_string()]));
    assert_eq!(app.event_selection, Some(0));
    assert!(app.delete_selected_event());
    assert!(app.delete_selected_event());
    assert_eq!(list(&app, day), None);
    assert_eq!(app.event_selection, None);
    assert!(!app.delete_selected_event());
    assert_eq!(list(&app, d(2024, 3, 4)), Some(vec!["keep".to_string()]));
    let mut stale = App::new_on(day, events(&[(day, &["a"])]));
    stale.event_selection = Some(5);
    assert!(!stale.delete_selected_event());
    assert_eq!(list(&stale, day), Some(vec!["a".to_string()]));
}

#[test]
fn jumping_to_today() {
    let mut app = App::new_on(d(2020, 6, 6), events(&[(d(2024, 1, 2), &["x"])]));
    app.jump_to_today(d(2024, 1, 2));
    assert_eq!(app.selected_date, d(2024, 1, 2));
    assert_eq!(app.current_month, d(2024, 1, 1));
    assert_eq!(app.event_selection, Some(0));
    assert_eq!(app.status_message, "Jumped to today");
    app.go_to_today();
    assert_eq!(app.status_message, "Jumped to today");
    assert_eq!(app.current_month.day, 1);
}

#[test]
fn menu_navigation_and_commands() {
    let mut app = App::new_on(d(2024, 1, 1), HashMap::new());
    app.menu_selection = Some(0);
    app.next_menu_item();
    assert_eq!(app.menu_selection, Some(1));
    app.next_menu_item();
    assert_eq!(app.menu_selection, Some(0));
    app.prev_menu_item();
    assert_eq!(app.menu_selection, Some(1));
    app.input_mode = InputMode::Menu;
    assert_eq!(app.execute_menu_action(), MenuCommand::Nothing);
    assert_eq!(app.menu_depth, 1);
    assert_eq!(app.menu_parent_index, 1);
    assert_eq!(app.menu_selection, Some(0));
    assert_eq!(app.execute_menu_action(), MenuCommand::ImportCsv);
    assert_eq!(app.menu_depth, 0);
    assert_eq!(app.input_mode, InputMode::Normal);
    app.menu_parent_index = 0;
    app.menu_depth = 1;
    app.menu_selection = Some(1);
    assert_eq!(app.execute_menu_action(), MenuCommand::ExportIcs);
    app.menu_selection = None;
    assert_eq!(app.execute_menu_action(), MenuCommand::Nothing);
}
