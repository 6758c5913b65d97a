use std::collections::HashMap;

use aevum::app::App;
use aevum::date::Date;
use aevum::store::date_key;
use aevum::persist::events_from_json;
use aevum::transfer::{DataFile, IcsComponent};

fn d(year: i32, month: u32, day: u32) -> Date {
    Date { year, month, day }
}

fn app_on(today: Date, entries: &[(Date, &[&str])]) -> App {
    let mut m = HashMap::new();
    for (date, list) in entries {
        m.insert(date_key(*date), list.iter().map(|s| s.to_string()).collect::<Vec<String>>());
    }
    App::new_on(today, m)
}

fn rec(fields: &[&str]) -> Vec<String> {
    fields.iter().map(|s| s.to_string()).collect()
}

#[test]
fn csv_rows_in_calendar_order() {
    let app = app_on(d(2024, 1, 1), &[(d(2024, 2, 1), &["b1", "b2"]), (d(2023, 5, 6), &["a"])]);
    let rows = app.csv_rows();
    let rows: Vec<(&str, &str)> = rows.iter().map(|(x, y)| (x.as_str(), y.as_str())).collect();
    assert_eq!(rows, vec![("Date", "Event"), ("2023-05-06", "a"), ("2024-02-01", "b1"), ("2024-02-01", "b2")]);
}

#[test]
fn csv_import_adds_dated_records() {
    let mut app = app_on(d(2024, 1, 1), &[(d(2024, 1, 1), &["old"])]);
    let records = vec![
        rec(&["2024-01-01", "new"]),
        rec(&["garbage", "skipped"]),
        rec(&["2024-02-30", "no such day"]),
        rec(&["2024-03-05"]),
        rec(&["2024-03-05", "spring", "extra"]),
    ];
    let count = app.import_csv_records(&records);
    assert_eq!(count, 2);
    assert_eq!(app.events.get(&date_key(d(2024, 1, 1))), Some(&rec(&["old", "new"])));
    assert_eq!(app.events.get(&date_key(d(2024, 3, 5))), Some(&rec(&["spring"])));
    assert_eq!(app.events.len(), 2);
    app.finish_import(count, DataFile::Csv);
    assert_eq!(app.status_message, "Imported 2 events from events.csv");
    assert_eq!(app.event_selection, Some(0));
}

#[test]
fn ics_import() {
    let text = "BEGIN:VCALENDAR\r\nVERSION:2.0\r\nPRODID:test\r\n\
BEGIN:VEVENT\r\nUID:1\r\nSUMMARY:Trip\r\nDTSTART;VALUE=DATE:20240310\r\nEND:VEVENT\r\n\
BEGIN:VEVENT\r\nUID:2\r\nDTSTART:20240311T100000Z\r\nEND:VEVENT\r\n\
BEGIN:VEVENT\r\nUID:3\r\nSUMMARY:No start\r\nEND:VEVENT\r\n\
BEGIN:VTODO\r\nUID:4\r\nSUMMARY:Todo\r\nDTSTART;VALUE=DATE:20240312\r\nEND:VTODO\r\n\
END:VCALENDAR\r\n";
    let mut app = app_on(d(2024, 1, 1), &[]);
    let count = app.import_ics_text(text).unwrap();
    assert_eq!(count, 2);
    assert_eq!(app.events.get(&date_key(d(2024, 3, 10))), Some(&rec(&["Trip"])));
    assert_eq!(app.events.get(&date_key(d(2024, 3, 11))), Some(&rec(&["No summary"])));
    app.finish_import(count, DataFile::Ics);
    assert_eq!(app.status_message, "Imported 2 events from events.ics");
    let mut untouched = app_on(d(2024, 1, 1), &[(d(2024, 1, 1), &["a"])]);
    assert!(untouched.import_ics_text("this is not a calendar").is_err());
    assert_eq!(untouched.events.len(), 1);
}

#[test]
fn ics_export_round_trip() {
    let app = app_on(d(2024, 1, 1), &[(d(2024, 4, 1), &["Fools"]), (d(2024, 1, 2), &["Back to work"])]);
    let text = app.ics_text();
    assert!(text.starts_with("BEGIN:VCALENDAR\r\n"));
    assert!(text.ends_with("END:VCALENDAR\r\n"));
    assert!(text.contains("SUMMARY:Fools"));
    assert!(text.find("SUMMARY:Back to work").unwrap() < text.find("SUMMARY:Fools").unwrap());
    let mut other = app_on(d(2024, 1, 1), &[]);
    assert_eq!(other.import_ics_text(&text), Ok(2));
    assert_eq!(other.events.get(&date_key(d(2024, 4, 1))), Some(&rec(&["Fools"])));
    assert_eq!(other.events.get(&date_key(d(2024, 1, 2))), Some(&rec(&["Back to work"])));
}

#[test]
fn status_messages() {
    let mut app = app_on(d(2024, 1, 1), &[]);
    app.report_export(DataFile::Csv);
    assert_eq!(app.status_message, "Exported to events.csv");
    app.report_export(DataFile::Ics);
    assert_eq!(app.status_message, "Exported to events.ics");
    app.report_missing(DataFile::Csv);
    assert_eq!(app.status_message, "events.csv not found");
    app.report_missing(DataFile::Ics);
    assert_eq!(app.status_message, "events.ics not found");
    app.finish_import(0, DataFile::Csv);
    assert_eq!(app.status_message, "Imported 0 events from events.csv");
}

#[test]
fn csv_export_then_import_gives_the_events_back() {
    let source = app_on(d(2024, 1, 1), &[(d(2024, 2, 1), &["b1", "b2"]), (d(1999, 12, 31), &["party"])]);
    let records: Vec<Vec<String>> = source.csv_rows().into_iter().skip(1).map(|(a, b)| vec![a, b]).collect();
    let mut target = app_on(d(2024, 1, 1), &[]);
    assert_eq!(target.import_csv_records(&records), 3);
    assert_eq!(target.events, source.events);
}

#[test]
fn events_file_round_trip() {
    let app = app_on(d(2024, 1, 1), &[(d(2024, 2, 1), &["b1", "b2"]), (d(1999, 12, 31), &["party"]), (d(2024, 3, 3), &[])]);
    let text = app.events_json().unwrap();
    assert!(text.find("1999-12-31").unwrap() < text.find("2024-02-01").unwrap());
    let back = events_from_json(&text).unwrap();
    assert_eq!(back, app.events);
    let parsed = events_from_json("{\"2024-01-02\": [\"a\", \"b\"]}").unwrap();
    assert_eq!(parsed.get(&date_key(d(2024, 1, 2))), Some(&rec(&["a", "b"])));
    assert_eq!(parsed.len(), 1);
    assert!(events_from_json("not json").is_none());
    assert!(events_from_json("{\"2024-02-30\": []}").is_none());
    assert_eq!(events_from_json("{}").map(|m| m.len()), Some(0));
}

#[test]
fn csv_bytes_of_the_export() {
    let app = app_on(d(2024, 1, 1), &[(d(2024, 2, 1), &["b1", "b, with comma"]), (d(2023, 5, 6), &["a"])]);
    let bytes = app.csv_bytes().unwrap();
    assert_eq!(
        String::from_utf8(bytes).unwrap(),
        "Date,Event\n2023-05-06,a\n2024-02-01,b1\n2024-02-01,\"b, with comma\"\n"
    );
}

#[test]
fn csv_bytes_import() {
    let mut app = app_on(d(2024, 1, 1), &[]);
    let text = "Date,Event\n2024-01-01,new\nnot a date,skipped\n2024-03-05,\"spring, early\"\n";
    assert_eq!(app.import_csv_bytes(text.as_bytes()), Ok(2));
    assert_eq!(app.events.get(&date_key(d(2024, 1, 1))), Some(&rec(&["new"])));
    assert_eq!(app.events.get(&date_key(d(2024, 3, 5))), Some(&rec(&["spring, early"])));
    assert_eq!(app.events.len(), 2);
}

#[test]
fn csv_bytes_import_stops_at_an_error() {
    let mut app = app_on(d(2024, 1, 1), &[]);
    let text = "Date,Event\n2024-01-01,kept\n2024-01-02,too,many\n2024-01-03,never read\n";
    assert!(app.import_csv_bytes(text.as_bytes()).is_err());
    assert_eq!(app.events.get(&date_key(d(2024, 1, 1))), Some(&rec(&["kept"])));
    assert_eq!(app.events.len(), 1);
}

#[test]
fn csv_bytes_round_trip() {
    let source = app_on(d(2024, 1, 1), &[(d(2024, 2, 1), &["b1", "b2"]), (d(1999, 12, 31), &["party \"1999\""])]);
    let bytes = source.csv_bytes().unwrap();
    let mut target = app_on(d(2024, 1, 1), &[]);
    assert_eq!(target.import_csv_bytes(&bytes), Ok(3));
    assert_eq!(target.events, source.events);
}

#[test]
fn ics_text_layout() {
    let app = app_on(d(2024, 1, 1), &[(d(2024, 4, 1), &["Fools; really, yes\\no"]), (d(2024, 1, 2), &["Back to work"])]);
    let text = app.ics_text();
    let lines: Vec<&str> = text.split("\r\n").collect();
    assert!(lines[5].starts_with("DTSTAMP:"));
    assert!(lines[9].starts_with("UID:"));
    assert!(lines[12].starts_with("DTSTAMP:"));
    assert!(lines[16].starts_with("UID:"));
    let kept: Vec<&str> = lines
        .into_iter()
        .filter(|l| !l.starts_with("DTSTAMP:") && !l.starts_with("UID:"))
        .collect();
    assert_eq!(
        kept.join("\r\n"),
        "BEGIN:VCALENDAR\r\nVERSION:2.0\r\nPRODID:ICALENDAR-RS\r\nCALSCALE:GREGORIAN\r\n\
BEGIN:VEVENT\r\nDTEND;VALUE=DATE:20240102\r\nDTSTART;VALUE=DATE:20240102\r\nSUMMARY:Back to work\r\nEND:VEVENT\r\n\
BEGIN:VEVENT\r\nDTEND;VALUE=DATE:20240401\r\nDTSTART;VALUE=DATE:20240401\r\nSUMMARY:Fools\\; really\\, yes\\\\no\r\nEND:VEVENT\r\n\
END:VCALENDAR\r\n"
    );
}

#[test]
fn ics_components_import() {
    let mut app = app_on(d(2024, 1, 1), &[(d(2024, 3, 10), &["old"])]);
    let components = vec![
        IcsComponent { is_event: true, summary: Some("Trip".to_string()), start: Some(d(2024, 3, 10)) },
        IcsComponent { is_event: true, summary: None, start: Some(d(2024, 3, 11)) },
        IcsComponent { is_event: true, summary: Some("No start".to_string()), start: None },
        IcsComponent { is_event: false, summary: Some("Todo".to_string()), start: Some(d(2024, 3, 12)) },
        IcsComponent { is_event: true, summary: Some("No such day".to_string()), start: Some(d(2023, 2, 29)) },
    ];
    assert_eq!(app.import_ics_components(&components), 2);
    assert_eq!(app.events.get(&date_key(d(2024, 3, 10))), Some(&rec(&["old", "Trip"])));
    assert_eq!(app.events.get(&date_key(d(2024, 3, 11))), Some(&rec(&["No summary"])));
    assert_eq!(app.events.len(), 2);
}

#[test]
fn entries_make_the_event_map() {
    let m = aevum::persist::events_from_entries(vec![
        (d(1999, 12, 31), rec(&["party"])),
        (d(2024, 2, 1), rec(&["b1", "b2"])),
        (d(2024, 3, 3), rec(&[])),
    ]);
    assert_eq!(m.len(), 3);
    assert_eq!(m.get(&date_key(d(2024, 2, 1))), Some(&rec(&["b1", "b2"])));
    assert_eq!(m.get(&date_key(d(2024, 3, 3))), Some(&rec(&[])));
}

#[test]
fn ics_round_trip_with_escapes_and_long_lines() {
    let long = "A very long summary of a meeting, with commas; semicolons \\ and backslashes, that surely folds";
    let source = app_on(d(2024, 1, 1), &[(d(2024, 5, 6), &[long, "x"]), (d(1970, 1, 1), &["epoch"]), (d(2024, 6, 1), &[])]);
    let text = source.ics_text();
    assert!(text.contains("\r\n "));
    let mut target = app_on(d(2024, 1, 1), &[]);
    assert_eq!(target.import_ics_text(&text), Ok(3));
    assert_eq!(target.events.get(&date_key(d(2024, 5, 6))), Some(&rec(&[long, "x"])));
    assert_eq!(target.events.get(&date_key(d(1970, 1, 1))), Some(&rec(&["epoch"])));
    assert_eq!(target.events.len(), 2);
}

#[test]
fn csv_round_trip_keeps_days_with_events() {
    let source = app_on(
        d(2024, 1, 1),
        &[(d(2024, 5, 6), &["line\nbreak", "quote \" and, comma", ""]), (d(10000, 1, 1), &["far"]), (d(2024, 6, 1), &[])],
    );
    let bytes = source.csv_bytes().unwrap();
    let mut target = app_on(d(2024, 1, 1), &[]);
    assert_eq!(target.import_csv_bytes(&bytes), Ok(4));
    assert_eq!(target.events.get(&date_key(d(2024, 5, 6))), Some(&rec(&["line\nbreak", "quote \" and, comma", ""])));
    assert_eq!(target.events.get(&date_key(d(10000, 1, 1))), Some(&rec(&["far"])));
    assert_eq!(target.events.len(), 2);
}
