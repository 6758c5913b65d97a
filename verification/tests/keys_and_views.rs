use std::collections::HashMap;

use aevum::app::{App, InputMode, MenuCommand};
use aevum::date::{Date, MAX_YEAR};
use aevum::keys::{Action, KeyInput};
use aevum::store::date_key;
use aevum::view::{centered_percentages, centered_rect, Area, InputStyle};

fn d(year: i32, month: u32, day: u32) -> Date {
    Date { year, month, day }
}

fn app_on(today: Date, entries: &[(Date, &[&str])]) -> App {
    let mut m = HashMap::new();
    for (date, list) in entries {
        m.insert(date_key(*date), list.iter().map(|s| s.to_string()).collect::<Vec<String>>());
    }
    App::new_on(today, m)
}

fn typed(app: &mut App, text: &str) {
    for c in text.chars() {
        assert_eq!(app.handle_key(KeyInput::Char(c)), Action::Continue);
    }
}

#[test]
fn adding_an_event_by_keys() {
    let day = d(2024, 6, 1);
    let mut app = app_on(day, &[]);
    app.status_message = "old".to_string();
    assert_eq!(app.handle_key(KeyInput::Char('a')), Action::Continue);
    assert!(app.status_message.is_empty());
    assert_eq!(app.input_mode, InputMode::Editing);
    typed(&mut app, "Gym!");
    assert_eq!(app.handle_key(KeyInput::Backspace), Action::Continue);
    assert_eq!(app.input_text, "Gym");
    assert_eq!(app.handle_key(KeyInput::Enter), Action::SaveEvents);
    assert_eq!(app.input_mode, InputMode::Normal);
    assert!(app.input_text.is_empty());
    assert_eq!(app.events.get(&date_key(day)), Some(&vec!["Gym".to_string()]));
    assert_eq!(app.event_selection, Some(0));
    // An empty input adds nothing.
    app.handle_key(KeyInput::Char('a'));
    assert_eq!(app.handle_key(KeyInput::Enter), Action::Continue);
    assert_eq!(app.events.get(&date_key(day)).map(|l| l.len()), Some(1));
}

#[test]
fn removing_events_by_keys() {
    let day = d(2024, 6, 1);
    let mut app = app_on(day, &[(day, &["a", "b"])]);
    app.handle_key(KeyInput::Char('r'));
    assert_eq!(app.input_mode, InputMode::Removing);
    app.handle_key(KeyInput::Char('j'));
    assert_eq!(app.event_selection, Some(1));
    assert_eq!(app.handle_key(KeyInput::Char('d')), Action::SaveEvents);
    assert_eq!(app.events.get(&date_key(day)), Some(&vec!["a".to_string()]));
    assert_eq!(app.input_mode, InputMode::Removing);
    assert_eq!(app.handle_key(KeyInput::Delete), Action::SaveEvents);
    assert_eq!(app.events.get(&date_key(day)), None);
    assert_eq!(app.input_mode, InputMode::Normal);
    // 'r' on a day without events stays in normal mode.
    app.handle_key(KeyInput::Char('r'));
    assert_eq!(app.input_mode, InputMode::Normal);
}

#[test]
fn normal_mode_keys() {
    let mut app = app_on(d(2024, 6, 1), &[]);
    app.handle_key(KeyInput::Right);
    assert_eq!(app.selected_date, d(2024, 6, 2));
    app.handle_key(KeyInput::Up);
    assert_eq!(app.selected_date, d(2024, 5, 26));
    assert_eq!(app.current_month, d(2024, 5, 1));
    app.handle_key(KeyInput::Down);
    app.handle_key(KeyInput::Left);
    assert_eq!(app.selected_date, d(2024, 6, 1));
    app.handle_key(KeyInput::Char('n'));
    assert_eq!(app.current_month, d(2024, 7, 1));
    app.handle_key(KeyInput::Char('p'));
    app.handle_key(KeyInput::Char('p'));
    assert_eq!(app.current_month, d(2024, 5, 1));
    app.handle_key(KeyInput::Char('N'));
    assert_eq!(app.selected_date, d(2025, 6, 1));
    app.handle_key(KeyInput::Char('P'));
    assert_eq!(app.selected_date, d(2024, 6, 1));
    assert_eq!(app.handle_key(KeyInput::Char('t')), Action::GoToToday);
    assert_eq!(app.handle_key(KeyInput::Char('x')), Action::Continue);
    assert_eq!(app.handle_key(KeyInput::Char('q')), Action::Quit);
    assert_eq!(app.handle_key(KeyInput::Esc), Action::Quit);
}

#[test]
fn unsafe_keys_are_reported() {
    let app = app_on(d(MAX_YEAR, 12, 31), &[]);
    assert!(!app.key_is_safe(KeyInput::Char('n')));
    assert!(!app.key_is_safe(KeyInput::Char('N')));
    assert!(app.key_is_safe(KeyInput::Char('p')));
    assert!(app.key_is_safe(KeyInput::Right));
    let mid = app_on(d(2024, 1, 1), &[]);
    assert!(mid.key_is_safe(KeyInput::Char('n')));
}

#[test]
fn menu_by_keys() {
    let mut app = app_on(d(2024, 6, 1), &[]);
    app.handle_key(KeyInput::Char('m'));
    assert_eq!(app.input_mode, InputMode::Menu);
    assert_eq!(app.menu_selection, Some(0));
    app.handle_key(KeyInput::Down);
    assert_eq!(app.handle_key(KeyInput::Enter), Action::Continue);
    assert_eq!(app.menu_depth, 1);
    assert_eq!(app.menu_parent_index, 1);
    app.handle_key(KeyInput::Char('q'));
    assert_eq!(app.menu_depth, 0);
    assert_eq!(app.menu_selection, Some(1));
    app.handle_key(KeyInput::Char('k'));
    app.handle_key(KeyInput::Enter);
    app.handle_key(KeyInput::Char('j'));
    assert_eq!(app.handle_key(KeyInput::Enter), Action::RunMenuCommand(MenuCommand::ExportIcs));
    assert_eq!(app.input_mode, InputMode::Normal);
    app.handle_key(KeyInput::Char('m'));
    app.handle_key(KeyInput::Esc);
    assert_eq!(app.input_mode, InputMode::Normal);
}

#[test]
fn search_by_keys() {
    let mut app = app_on(d(2024, 6, 1), &[(d(2024, 9, 9), &["Party"]), (d(2024, 7, 7), &["parade"])]);
    app.handle_key(KeyInput::Char('/'));
    assert_eq!(app.input_mode, InputMode::Search);
    typed(&mut app, "par");
    assert_eq!(app.search_query, "par");
    assert_eq!(app.search_results.len(), 2);
    app.handle_key(KeyInput::Down);
    assert_eq!(app.selected_date, d(2024, 9, 9));
    app.handle_key(KeyInput::Backspace);
    assert_eq!(app.search_query, "pa");
    typed(&mut app, "rt");
    assert_eq!(app.search_query, "part");
    assert_eq!(app.search_results.len(), 1);
    assert_eq!(app.handle_key(KeyInput::Enter), Action::Continue);
    assert_eq!(app.input_mode, InputMode::Normal);
    assert_eq!(app.selected_date, d(2024, 9, 9));
}

#[test]
fn calendar_grid_of_a_month() {
    // September 2024 starts on a Sunday and has 30 days.
    let app = app_on(d(2024, 9, 10), &[(d(2024, 9, 3), &["x"]), (d(2024, 9, 4), &[])]);
    let cells = app.calendar_cells_on(d(2024, 9, 5));
    assert_eq!(cells.len(), 35);
    assert_eq!(cells[0].as_ref().map(|c| c.day), Some(1));
    assert_eq!(cells[2].as_ref().map(|c| c.label.clone()), Some("3*".to_string()));
    assert_eq!(cells[3].as_ref().map(|c| c.label.clone()), Some("4".to_string()));
    assert!(cells[4].as_ref().unwrap().is_today);
    assert!(cells[9].as_ref().unwrap().is_selected);
    assert!(cells[29].is_some());
    assert!(cells[30].is_none());
    // June 2024 starts on a Saturday: six blanks first.
    let june = app_on(d(2024, 6, 1), &[]);
    let cells = june.calendar_cells_on(d(2024, 6, 1));
    assert_eq!(cells.len(), 42);
    assert!(cells[5].is_none());
    assert_eq!(cells[6].as_ref().map(|c| c.day), Some(1));
    assert_eq!(cells[35].as_ref().map(|c| c.day), Some(30));
    // February 2015 fills exactly four rows.
    let feb = app_on(d(2015, 2, 1), &[]);
    assert_eq!(feb.calendar_cells_on(d(2015, 2, 1)).len(), 28);
}

#[test]
fn sidebar_and_menu_views() {
    let day = d(2024, 1, 1);
    let mut app = app_on(day, &[(day, &["New year"])]);
    let v = app.sidebar_view();
    assert_eq!(v.date_header, "Mon, Jan 01");
    assert!(!v.shows_search_results);
    assert_eq!(v.list_title, "Events");
    assert_eq!(v.items, vec!["• New year".to_string()]);
    assert_eq!(v.input_title, "Instructions");
    assert_eq!(v.input_style, InputStyle::Plain);
    app.status_message = "Exported to events.csv".to_string();
    let v = app.sidebar_view();
    assert_eq!(v.input_title, "Status");
    assert_eq!(v.input_text, "Exported to events.csv");
    assert_eq!(v.input_style, InputStyle::Green);
    app.status_message.clear();
    app.move_selection(1);
    assert_eq!(app.sidebar_view().items, vec!["No events".to_string()]);
    app.handle_key(KeyInput::Char('/'));
    typed(&mut app, "new");
    let v = app.sidebar_view();
    assert!(v.shows_search_results);
    assert_eq!(v.list_title, "Search Results");
    assert_eq!(v.items, vec!["01/01: New year".to_string()]);
    assert_eq!(v.input_title, "Search Mode");
    assert_eq!(v.input_text, "new");
    assert_eq!(v.input_style, InputStyle::Yellow);
    assert!(app.menu_view().is_none());
    app.handle_key(KeyInput::Esc);
    app.handle_key(KeyInput::Char('m'));
    let m = app.menu_view().unwrap();
    assert_eq!(m.title, " Main Menu ");
    assert_eq!(m.items, vec!["Export...".to_string(), "Import...".to_string()]);
    app.handle_key(KeyInput::Enter);
    let m = app.menu_view().unwrap();
    assert_eq!(m.title, " Export Menu ");
    assert_eq!(m.items, vec!["CSV File".to_string(), "iCalendar (.ics)".to_string()]);
    assert_eq!(centered_percentages(30), (35, 30, 35));
    assert_eq!(centered_percentages(100), (0, 100, 0));
}

#[test]
fn menu_box_in_the_middle() {
    let full = Area { x: 0, y: 0, width: 100, height: 100 };
    assert_eq!(centered_rect(30, 30, full), Area { x: 35, y: 35, width: 30, height: 30 });
    let shifted = Area { x: 10, y: 5, width: 100, height: 100 };
    assert_eq!(centered_rect(30, 30, shifted), Area { x: 45, y: 40, width: 30, height: 30 });
    let whole = centered_rect(100, 100, full);
    assert_eq!(whole, full);
}

#[test]
fn menu_box_lies_within_the_screen() {
    for r in [
        Area { x: 3, y: 7, width: 17, height: 13 },
        Area { x: 0, y: 0, width: 1, height: 1 },
        Area { x: 65000, y: 65000, width: 1000, height: 1000 },
    ] {
        let c = centered_rect(30, 30, r);
        let right = (r.x as u32 + r.width as u32).min(u16::MAX as u32);
        let bottom = (r.y as u32 + r.height as u32).min(u16::MAX as u32);
        assert!(r.x <= c.x && c.x as u32 + c.width as u32 <= right);
        assert!(r.y <= c.y && c.y as u32 + c.height as u32 <= bottom);
    }
}
