use std::collections::HashMap;

use aevum::app::App;
use aevum::date::{Date, MAX_YEAR, MIN_YEAR};
use aevum::store::date_key;

fn d(year: i32, month: u32, day: u32) -> Date {
    Date { year, month, day }
}

fn app_on(today: Date) -> App {
    App::new_on(today, HashMap::new())
}

fn moved(from: Date, days: i64) -> Date {
    let mut app = app_on(from);
    app.move_selection(days);
    app.selected_date
}

#[test]
fn month_starts_exist() {
    let mut app = app_on(d(2024, 2, 29));
    assert_eq!(app.current_month, d(2024, 2, 1));
    app.next_year();
    assert_eq!(app.selected_date, d(2025, 2, 28));
    app.next_year();
    app.next_year();
    assert_eq!(app.selected_date, d(2027, 2, 28));
    let mut century = app_on(d(2000, 2, 29));
    century.prev_year();
    assert_eq!(century.selected_date, d(1999, 2, 28));
    let mut last = app_on(d(MAX_YEAR, 11, 30));
    last.next_month();
    assert_eq!(last.current_month, d(MAX_YEAR, 12, 1));
    let mut first = app_on(d(MIN_YEAR, 2, 1));
    first.prev_month();
    assert_eq!(first.current_month, d(MIN_YEAR, 1, 1));
}

#[test]
fn add_days_crosses_months_and_years() {
    assert_eq!(moved(d(2024, 2, 28), 1), d(2024, 2, 29));
    assert_eq!(moved(d(2023, 2, 28), 1), d(2023, 3, 1));
    assert_eq!(moved(d(2024, 3, 1), -1), d(2024, 2, 29));
    assert_eq!(moved(d(2023, 12, 31), 1), d(2024, 1, 1));
    assert_eq!(moved(d(2024, 1, 3), -7), d(2023, 12, 27));
    assert_eq!(moved(d(2024, 1, 1), 366), d(2025, 1, 1));
    assert_eq!(moved(d(1900, 2, 28), 1), d(1900, 3, 1));
    assert_eq!(moved(d(MAX_YEAR, 12, 31), 1), d(MAX_YEAR, 12, 31));
    assert_eq!(moved(d(MIN_YEAR, 1, 1), -1), d(MIN_YEAR, 1, 1));
    assert_eq!(moved(d(MIN_YEAR, 1, 1), 1), d(MIN_YEAR, 1, 2));
}

#[test]
fn month_grids_follow_weekdays() {
    // 2024-01-01 was a Monday, 1970-01-01 a Thursday, 0001-01-01 a Monday.
    for (month, blanks) in [(d(2024, 1, 1), 1usize), (d(1970, 1, 1), 4), (d(1, 1, 1), 1), (d(2024, 9, 1), 0)] {
        let cells = app_on(month).calendar_cells_on(month);
        assert!(cells[..blanks].iter().all(|c| c.is_none()));
        assert_eq!(cells[blanks].as_ref().map(|c| c.day), Some(1));
    }
    // February of a leap year has 29 days.
    let cells = app_on(d(2024, 2, 1)).calendar_cells_on(d(2024, 2, 1));
    assert_eq!(cells.iter().filter(|c| c.is_some()).count(), 29);
    let cells = app_on(d(2100, 2, 1)).calendar_cells_on(d(2100, 2, 1));
    assert_eq!(cells.iter().filter(|c| c.is_some()).count(), 28);
    let cells = app_on(d(2024, 12, 1)).calendar_cells_on(d(2024, 12, 1));
    assert_eq!(cells.iter().filter(|c| c.is_some()).count(), 31);
}

#[test]
fn date_texts() {
    let mut m = HashMap::new();
    for date in [d(2024, 3, 5), d(7, 1, 9), d(10000, 1, 1), d(-1, 12, 31)] {
        m.insert(date_key(date), vec!["x".to_string()]);
    }
    let app = App::new_on(d(2024, 1, 1), m);
    let dates: Vec<String> = app.csv_rows().into_iter().skip(1).map(|r| r.0).collect();
    assert_eq!(dates, vec!["-0001-12-31", "0007-01-09", "2024-03-05", "+10000-01-01"]);
    assert_eq!(app.month_title(), "January 2024");
    assert_eq!(app.sidebar_view().date_header, "Mon, Jan 01");
    assert_eq!(app_on(d(2023, 11, 5)).month_title(), "November 2023");
}

#[test]
fn parse_dates_of_csv_records() {
    let mut app = app_on(d(2024, 1, 1));
    let records = vec![
        vec!["2024-03-05".to_string(), "a".to_string()],
        vec!["2023-02-29".to_string(), "b".to_string()],
        vec!["not a date".to_string(), "c".to_string()],
        vec!["".to_string(), "d".to_string()],
    ];
    assert_eq!(app.import_csv_records(&records), 1);
    assert_eq!(app.events.get(&date_key(d(2024, 3, 5))), Some(&vec!["a".to_string()]));
}

#[test]
fn today_is_a_real_day() {
    let app = App::new(HashMap::new());
    let t = app.selected_date;
    assert_eq!(app.current_month, Date { year: t.year, month: t.month, day: 1 });
    let cells = app.calendar_cells();
    assert!(cells.iter().any(|c| c.as_ref().is_some_and(|c| c.is_today && c.is_selected)));
    let mut other = app_on(d(2001, 1, 1));
    other.go_to_today();
    assert_eq!(other.status_message, "Jumped to today");
    assert_eq!(other.selected_date, t);
}

#[test]
fn screen_date_texts() {
    let mut app = app_on(d(10000, 12, 25));
    assert_eq!(app.month_title(), "December +10000");
    let v = app.sidebar_view();
    assert_eq!(v.date_header, "Mon, Dec 25");
    app = app_on(d(7, 9, 3));
    assert_eq!(app.month_title(), "September 0007");
    assert_eq!(app.sidebar_view().date_header, "Mon, Sep 03");
    app = app_on(d(-44, 3, 15));
    assert_eq!(app.month_title(), "March -0044");
}

#[test]
fn decimal_notation() {
    assert_eq!(aevum::text::decimal_string(0), "0");
    assert_eq!(aevum::text::decimal_string(7), "7");
    assert_eq!(aevum::text::decimal_string(10), "10");
    assert_eq!(aevum::text::decimal_string(2024), "2024");
    assert_eq!(aevum::text::decimal_string(u64::MAX), u64::MAX.to_string());
}
