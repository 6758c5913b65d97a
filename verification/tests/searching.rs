use std::collections::HashMap;

use aevum::app::App;
use aevum::date::Date;
use aevum::store::date_key;

fn d(year: i32, month: u32, day: u32) -> Date {
    Date { year, month, day }
}

fn app_with(entries: &[(Date, &[&str])]) -> App {
    let mut m = HashMap::new();
    for (date, list) in entries {
        m.insert(date_key(*date), list.iter().map(|s| s.to_string()).collect::<Vec<String>>());
    }
    App::new_on(d(2024, 1, 1), m)
}

fn results(app: &App) -> Vec<(Date, String)> {
    app.search_results.clone()
}

#[test]
fn search_finds_matches_in_calendar_order() {
    let mut app = app_with(&[
        (d(2024, 5, 2), &["Team Meeting", "lunch"]),
        (d(2023, 12, 30), &["meeting prep"]),
        (d(2024, 1, 15), &["dentist", "MEETING notes"]),
    ]);
    app.search_query = "meet".to_string();
    app.search_events();
    assert_eq!(
        results(&app),
        vec![
            (d(2023, 12, 30), "meeting prep".to_string()),
            (d(2024, 1, 15), "MEETING notes".to_string()),
            (d(2024, 5, 2), "Team Meeting".to_string()),
        ]
    );
    assert_eq!(app.search_selection, Some(0));
}

#[test]
fn search_query_is_case_insensitive() {
    let mut app = app_with(&[(d(2024, 5, 2), &["lunch"])]);
    app.search_query = "LUN".to_string();
    app.search_events();
    assert_eq!(results(&app), vec![(d(2024, 5, 2), "lunch".to_string())]);
}

#[test]
fn empty_or_missing_search() {
    let mut app = app_with(&[(d(2024, 5, 2), &["lunch"])]);
    app.search_query = String::new();
    app.search_events();
    assert!(app.search_results.is_empty());
    assert_eq!(app.search_selection, None);
    app.search_query = "zzz".to_string();
    app.search_events();
    assert!(app.search_results.is_empty());
    assert_eq!(app.search_selection, None);
}

#[test]
fn search_result_does_not_depend_on_insertion_order() {
    let a = [(d(2024, 3, 1), &["x1", "y"][..]), (d(2022, 3, 1), &["x2"][..]), (d(2023, 3, 1), &["x3"][..])];
    let mut b = a;
    b.reverse();
    let mut app_a = app_with(&a);
    let mut app_b = app_with(&b);
    app_a.search_query = "x".to_string();
    app_b.search_query = "x".to_string();
    app_a.search_events();
    app_b.search_events();
    assert_eq!(results(&app_a), results(&app_b));
    assert_eq!(results(&app_a)[0].0, d(2022, 3, 1));
}

#[test]
fn search_results_move_the_calendar() {
    let mut app = app_with(&[(d(2024, 5, 2), &["a1"]), (d(2024, 8, 9), &["a2", "b"])]);
    app.search_query = "a".to_string();
    app.search_events();
    app.next_search_result();
    assert_eq!(app.search_selection, Some(1));
    assert_eq!(app.selected_date, d(2024, 8, 9));
    assert_eq!(app.current_month, d(2024, 8, 1));
    assert_eq!(app.event_selection, Some(0));
    app.next_search_result();
    assert_eq!(app.search_selection, Some(0));
    assert_eq!(app.selected_date, d(2024, 5, 2));
    app.prev_search_result();
    assert_eq!(app.search_selection, Some(1));
    app.search_selection = Some(9);
    app.sync_calendar_to_search_result();
    assert_eq!(app.selected_date, d(2024, 8, 9));
    let mut none = app_with(&[]);
    none.next_search_result();
    assert_eq!(none.search_selection, None);
}
