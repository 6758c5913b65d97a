use chrono::Datelike;
use icalendar::{CalendarComponent, CalendarDateTime, Component, DatePerhapsTime, EventLike};
use vstd::prelude::*;

use crate::app::{day_list, selection_for, App};
use crate::date::{date_from_ymd, date_text, is_valid_ymd, iso_date_text, parse_date, parsed_date, two_digits, year_text, Date};
use crate::store::{date_key, is_date_key, key_date, key_of, key_to_date, lists_keys_in_order, sorted_keys, strictly_increasing};
use crate::text::{decimal, decimal_string};

verus! {

broadcast use vstd::std_specs::hash::group_hash_axioms;

/// The two exchange formats of the menu.
#[derive(Clone, Copy, Debug, PartialEq, Eq, Structural)]
pub enum DataFile {
    Csv,
    Ics,
}

/// The file name of an exchange format.
pub open spec fn data_file_name(f: DataFile) -> Seq<char> {
    match f {
        DataFile::Csv => "events.csv"@,
        DataFile::Ics => "events.ics"@,
    }
}

/// The date format of the CSV file.
pub open spec fn csv_date_pattern() -> Seq<char> {
    "%Y-%m-%d"@
}

/// The texts of a list of strings.
pub open spec fn texts(v: Seq<String>) -> Seq<Seq<char>> {
    v.map_values(|s: String| s@)
}

/// The event map with each day's list taken as texts.
pub open spec fn events_view(m: Map<u64, Vec<String>>) -> Map<u64, Seq<Seq<char>>> {
    m.map_values(|v: Vec<String>| texts(v@))
}

/// The event map (as texts) after `text` was appended to the list of day `d`.
pub open spec fn with_event(m: Map<u64, Seq<Seq<char>>>, d: Date, text: Seq<char>) -> Map<u64, Seq<Seq<char>>> {
    let k = key_of(d) as u64;
    m.insert(k, (if m.contains_key(k) { m[k] } else { Seq::empty() }).push(text))
}

/// The day a CSV record names: a record of at least two fields whose first
/// field reads as a date (`chrono` reads only days that exist).
pub open spec fn csv_record_date(r: Seq<Seq<char>>) -> Option<Date> {
    if r.len() >= 2 {
        match parsed_date(r[0], csv_date_pattern()) {
            Some(ymd) => if is_valid_ymd(ymd.0 as int, ymd.1 as int, ymd.2 as int) {
                Some(Date { year: ymd.0, month: ymd.1, day: ymd.2 })
            } else {
                None
            },
            None => None,
        }
    } else {
        None
    }
}

/// The event map and the count of added events after importing CSV records
/// in order: each record that names a day adds its second field to that day.
pub open spec fn csv_import(m: Map<u64, Seq<Seq<char>>>, records: Seq<Seq<Seq<char>>>) -> (Map<u64, Seq<Seq<char>>>, nat)
    decreases records.len(),
{
    if records.len() == 0 {
        (m, 0)
    } else {
        let prev = csv_import(m, records.drop_last());
        let r = records.last();
        match csv_record_date(r) {
            Some(d) => (with_event(prev.0, d, r[1]), prev.1 + 1),
            None => prev,
        }
    }
}

/// What `csv` reads from the bytes of a CSV file with its default settings
/// (comma-separated, the first row a header that is skipped, every row as long
/// as the header): the fields of the records read before the first error, and
/// that error's message if one stopped the reading.
pub uninterp spec fn csv_records_of(bytes: Seq<u8>) -> (Seq<Seq<Seq<char>>>, Option<Seq<char>>);

/// The bytes that `csv` writes for the given rows with its default settings,
/// or the message of the error it reports.
pub uninterp spec fn csv_bytes_of(rows: Seq<(Seq<char>, Seq<char>)>) -> Result<Seq<u8>, Seq<char>>;

/// Reads the records of a CSV file's bytes.
///
/// Calls `csv::Reader::from_reader` and walks `records`, taking each record's
/// fields as strings and stopping at the first error. The result is named
/// `csv_records_of`.
#[verifier::external_body]
fn read_csv_records(bytes: &[u8]) -> (r: (Vec<Vec<String>>, Option<String>))
    ensures
        csv_records_of(bytes@) == (
            r.0@.map_values(|rec: Vec<String>| texts(rec@)),
            match r.1 {
                Some(e) => Some(e@),
                None => None,
            },
        ),
{
    let mut reader = csv::Reader::from_reader(bytes);
    let mut records: Vec<Vec<String>> = Vec::new();
    for result in reader.records() {
        match result {
            Ok(record) => records.push(record.iter().map(|field| field.to_string()).collect()),
            Err(e) => return (records, Some(e.to_string())),
        }
    }
    (records, None)
}

/// Writes rows of two fields as CSV bytes.
///
/// Calls `csv::Writer::from_writer` on an empty `Vec<u8>`, `write_record` for
/// each row in order, and `into_inner`. The result is named `csv_bytes_of`.
///
/// `csv` reads the bytes back as the rows: with its default settings the
/// writer quotes a field that holds a comma, a quote (doubled inside), CR or
/// LF, and ends each record with LF; the reader with its default settings
/// splits and unquotes the same way, takes the first row as the header and
/// skips it, and, every row having two fields, reports no error.
#[verifier::external_body]
fn write_csv_rows(rows: &Vec<(String, String)>) -> (r: Result<Vec<u8>, String>)
    ensures
        csv_bytes_of(rows@.map_values(|row: (String, String)| (row.0@, row.1@))) == match r {
            Ok(b) => Ok(b@),
            Err(e) => Err(e@),
        },
        rows@.len() > 0 ==> (r matches Ok(b) ==> csv_records_of(b@) == (
            rows@.skip(1).map_values(|row: (String, String)| seq![row.0@, row.1@]),
            None::<Seq<char>>,
        )),
{
    let mut writer = csv::Writer::from_writer(Vec::new());
    for (date, event) in rows {
        writer.write_record([date, event]).map_err(|e| e.to_string())?;
    }
    writer.into_inner().map_err(|e| e.to_string())
}

/// A component of an iCalendar file, as plain values: whether it is an event
/// (`VEVENT`), and for an event its summary and the date part of its start.
pub struct IcsComponent {
    pub is_event: bool,
    pub summary: Option<String>,
    pub start: Option<Date>,
}

/// A component read from a calendar, as plain values.
pub open spec fn ics_component_view(c: IcsComponent) -> (bool, Option<Seq<char>>, Option<(i32, u32, u32)>) {
    (
        c.is_event,
        match c.summary {
            Some(s) => Some(s@),
            None => None,
        },
        match c.start {
            Some(d) => Some(d.ymd()),
            None => None,
        },
    )
}

/// The components that `icalendar` reads from a calendar text, in order, or
/// `None` when it cannot read the text.
pub uninterp spec fn ics_components_of(text: Seq<char>) -> Option<Seq<(bool, Option<Seq<char>>, Option<(i32, u32, u32)>)>>;

/// The components a calendar holds, as plain values, in order.
pub uninterp spec fn calendar_components(cal: icalendar::Calendar) -> Seq<(bool, Option<Seq<char>>, Option<(i32, u32, u32)>)>;

/// The day an event read from a calendar is kept under: the date part of its
/// start. Other components and events without a start have none.
pub open spec fn ics_event_date(c: (bool, Option<Seq<char>>, Option<(i32, u32, u32)>)) -> Option<Date> {
    match c.2 {
        Some(ymd) => if c.0 && is_valid_ymd(ymd.0 as int, ymd.1 as int, ymd.2 as int) {
            Some(Date { year: ymd.0, month: ymd.1, day: ymd.2 })
        } else {
            None
        },
        None => None,
    }
}

/// The text an event read from a calendar is kept under: its summary, or "No summary".
pub open spec fn ics_event_text(c: (bool, Option<Seq<char>>, Option<(i32, u32, u32)>)) -> Seq<char> {
    match c.1 {
        Some(s) => s,
        None => "No summary"@,
    }
}

/// The event map and the count after importing iCalendar events in order:
/// each event with a start date adds its summary (or "No summary") to that day.
pub open spec fn ics_import(m: Map<u64, Seq<Seq<char>>>, evs: Seq<(bool, Option<Seq<char>>, Option<(i32, u32, u32)>)>) -> (Map<u64, Seq<Seq<char>>>, nat)
    decreases evs.len(),
{
    if evs.len() == 0 {
        (m, 0)
    } else {
        let prev = ics_import(m, evs.drop_last());
        let e = evs.last();
        match ics_event_date(e) {
            Some(d) => (with_event(prev.0, d, ics_event_text(e)), prev.1 + 1),
            None => prev,
        }
    }
}

/// The CSV rows of the days with keys `ks`, in that order: date text and event text.
pub open spec fn csv_rows_of(ks: Seq<u64>, events: Map<u64, Vec<String>>) -> Seq<(Seq<char>, Seq<char>)>
    decreases ks.len(),
{
    if ks.len() == 0 {
        Seq::empty()
    } else {
        let k = ks.last();
        csv_rows_of(ks.drop_last(), events) + events[k]@.map_values(|s: String| (iso_date_text(key_date(k)), s@))
    }
}

/// The records of the CSV export of the days with keys `ks`, header left out.
pub open spec fn csv_records_for(ks: Seq<u64>, events: Map<u64, Vec<String>>) -> Seq<Seq<Seq<char>>> {
    csv_rows_of(ks, events).map_values(|r: (Seq<char>, Seq<char>)| seq![r.0, r.1])
}

/// The days of an event map (as texts) that have at least one event.
pub open spec fn nonempty_days(m: Map<u64, Seq<Seq<char>>>) -> Map<u64, Seq<Seq<char>>> {
    Map::new(|k: u64| m.contains_key(k) && m[k].len() > 0, |k: u64| m[k])
}

/// `chrono` reads back the date text of every day of `ks` that has events.
pub open spec fn dates_read_back(ks: Seq<u64>, events: Map<u64, Vec<String>>) -> bool {
    forall|i: int|
        0 <= i < ks.len() && events[ks[i]]@.len() > 0 ==> #[trigger] parsed_date(
            iso_date_text(key_date(ks[i])),
            csv_date_pattern(),
        ) == Some(key_date(ks[i]).ymd())
}

/// The header row of the CSV file.
pub open spec fn csv_header() -> (Seq<char>, Seq<char>) {
    ("Date"@, "Event"@)
}

/// The status line after a successful export.
pub open spec fn export_message(f: DataFile) -> Seq<char> {
    "Exported to "@ + data_file_name(f)
}

/// The status line when the file to import does not exist.
pub open spec fn missing_message(f: DataFile) -> Seq<char> {
    data_file_name(f) + " not found"@
}

/// The status line after `count` events were imported.
pub open spec fn import_message(count: nat, f: DataFile) -> Seq<char> {
    "Imported "@ + decimal(count) + " events from "@ + data_file_name(f)
}

/// Reads a calendar from its text.
///
/// Calls `str::parse` into `icalendar::Calendar`, which fails with a message
/// when the text is not a calendar. What it reads is named: the components of
/// the calendar are `ics_components_of` the text.
///
/// It reads back a text that `icalendar` wrote for all-day events with
/// printable ASCII summaries in years 0..=9999: `unfold` removes the CRLF and
/// space that folding put in; each property line is split at its first `:`
/// after the key and parameters and its value taken up to the CRLF, a `TEXT`
/// value (such as `SUMMARY`) unescaped by the exact inverse of the escaping;
/// the `VEVENT`s become events in order; and a `DTSTART` with `VALUE=DATE`
/// is read with `%Y%m%d`, whose unsigned year takes four digits.
#[verifier::external_body]
fn parse_calendar(text: &str) -> (r: Result<icalendar::Calendar, String>)
    ensures
        match r {
            Ok(cal) => ics_components_of(text@) == Some(calendar_components(cal)),
            Err(_) => ics_components_of(text@) is None,
        },
        r matches Ok(cal) ==> forall|es: Seq<(Seq<char>, (i32, u32, u32))>|
            #[trigger] ics_export_readable(es) && ics_written(text@, es, |line: Seq<char>| ics_folded_line(line))
                ==> calendar_components(cal) == ics_read_view(es),
        r is Err ==> forall|es: Seq<(Seq<char>, (i32, u32, u32))>|
            #[trigger] ics_export_readable(es) ==> !ics_written(text@, es, |line: Seq<char>| ics_folded_line(line)),
{
    text.parse::<icalendar::Calendar>()
}

/// The number of components of a calendar.
///
/// Calls `Vec::len` on the calendar's `components`.
#[verifier::external_body]
fn calendar_len(cal: &icalendar::Calendar) -> (r: usize)
    ensures
        r == calendar_components(*cal).len(),
{
    cal.components.len()
}

/// Component `i` of a calendar, as plain values.
///
/// Reads `components[i]`; for an event, `get_summary` and the date part of
/// `get_start` (the date of a `DATE`, or of a floating, UTC or zoned
/// date-time).
#[verifier::external_body]
fn calendar_component(cal: &icalendar::Calendar, i: usize) -> (r: IcsComponent)
    requires
        i < calendar_components(*cal).len(),
    ensures
        ics_component_view(r) == calendar_components(*cal)[i as int],
{
    match &cal.components[i] {
        CalendarComponent::Event(e) => IcsComponent {
            is_event: true,
            summary: e.get_summary().map(|s| s.to_string()),
            start: e.get_start().map(|p| match p {
                DatePerhapsTime::Date(d) => d,
                DatePerhapsTime::DateTime(CalendarDateTime::Floating(f)) => f.date(),
                DatePerhapsTime::DateTime(CalendarDateTime::Utc(u)) => u.date_naive(),
                DatePerhapsTime::DateTime(CalendarDateTime::WithTimezone { date_time, .. }) => date_time.date(),
            }).map(|d| Date { year: d.year(), month: d.month(), day: d.day() }),
        },
        _ => IcsComponent { is_event: false, summary: None, start: None },
    }
}

/// `icalendar::Calendar`, the calendar built for the iCalendar export.
#[verifier::external_type_specification]
#[verifier::external_body]
pub struct ExCalendar(icalendar::Calendar);

/// `icalendar::CalendarComponent`, an entry of a calendar. Nothing here reads
/// one; it is declared because `Calendar`'s `Deref` names it.
#[verifier::external_type_specification]
#[verifier::external_body]
pub struct ExCalendarComponent(icalendar::CalendarComponent);

/// The all-day events a calendar holds, as (summary, date), in order.
pub uninterp spec fn calendar_entries(cal: icalendar::Calendar) -> Seq<(Seq<char>, (i32, u32, u32))>;

/// The calendar holds the three properties that `Calendar::new` sets and, as
/// components, only all-day events made by `push_all_day_event` (a summary
/// and the same date as start and end, nothing else).
pub uninterp spec fn is_plain_event_calendar(cal: icalendar::Calendar) -> bool;

/// A calendar with no events.
///
/// Calls `icalendar::Calendar::new`, whose component list starts empty and
/// whose properties are `VERSION`, `PRODID` and `CALSCALE`.
#[verifier::external_body]
fn new_calendar() -> (cal: icalendar::Calendar)
    ensures
        calendar_entries(cal) == Seq::<(Seq<char>, (i32, u32, u32))>::empty(),
        is_plain_event_calendar(cal),
{
    icalendar::Calendar::new()
}

/// Appends an all-day event with the given summary on the given day.
///
/// Builds the event with `icalendar::Event::new`, `summary`, `all_day` and
/// `done`, and appends it with `Calendar::push`. The event gets the
/// properties `SUMMARY`, `DTSTART` and `DTEND` (both the date, as a `DATE`);
/// it has no identifier or time stamp until the calendar is written.
#[verifier::external_body]
fn push_all_day_event(cal: &mut icalendar::Calendar, summary: &str, date: Date)
    requires
        date.valid(),
    ensures
        calendar_entries(*final(cal)) == calendar_entries(*old(cal)).push((summary@, date.ymd())),
        is_plain_event_calendar(*old(cal)) ==> is_plain_event_calendar(*final(cal)),
{
    let day = chrono::NaiveDate::from_ymd_opt(date.year, date.month, date.day).unwrap();
    cal.push(icalendar::Event::new().summary(summary).all_day(day).done());
}

/// The first line of a calendar text.
pub open spec fn ics_begin() -> Seq<char> {
    "BEGIN:VCALENDAR\r\n"@
}

/// The last line of a calendar text.
pub open spec fn ics_end() -> Seq<char> {
    "END:VCALENDAR\r\n"@
}

/// The lines of the three properties that `Calendar::new` sets.
pub open spec fn ics_calendar_properties() -> Seq<char> {
    "VERSION:2.0\r\nPRODID:ICALENDAR-RS\r\nCALSCALE:GREGORIAN\r\n"@
}

/// The number of bytes of a character in UTF-8.
pub open spec fn utf8_width(c: char) -> nat {
    let n = c as u32;
    if n < 0x80 { 1 } else if n < 0x800 { 2 } else if n < 0x10000 { 3 } else { 4 }
}

/// The number of bytes of a text in UTF-8.
pub open spec fn utf8_len(s: Seq<char>) -> nat
    decreases s.len(),
{
    if s.len() == 0 { 0 } else { utf8_len(s.drop_last()) + utf8_width(s.last()) }
}

/// A content line of more than 75 bytes as `icalendar` folds it: cut into
/// pieces joined by CRLF and a space (its final CRLF not included).
pub uninterp spec fn ics_folded_line(line: Seq<char>) -> Seq<char>;

/// A content line as `icalendar` writes it, with its CRLF: a line of at most
/// 75 bytes as it is, a longer one as `fold` gives it.
pub open spec fn ics_content_line(line: Seq<char>, fold: spec_fn(Seq<char>) -> Seq<char>) -> Seq<char> {
    (if utf8_len(line) <= 75 { line } else { fold(line) }) + "\r\n"@
}

/// A character of a `TEXT` value as `icalendar` escapes it: a backslash, comma,
/// semicolon or newline gets a backslash before it (a newline as `\n`).
pub open spec fn ics_escaped_char(c: char) -> Seq<char> {
    if c == '\\' {
        seq!['\\', '\\']
    } else if c == ',' {
        seq!['\\', ',']
    } else if c == ';' {
        seq!['\\', ';']
    } else if c == '\n' {
        seq!['\\', 'n']
    } else {
        seq![c]
    }
}

/// A `TEXT` value as `icalendar` escapes it, character by character.
pub open spec fn ics_escaped(s: Seq<char>) -> Seq<char>
    decreases s.len(),
{
    if s.len() == 0 { Seq::empty() } else { ics_escaped(s.drop_last()) + ics_escaped_char(s.last()) }
}

/// A date as `%Y%m%d` writes it, such as `20240131`.
pub open spec fn ics_date(ymd: (i32, u32, u32)) -> Seq<char> {
    year_text(ymd.0 as int) + two_digits(ymd.1) + two_digits(ymd.2)
}

/// One all-day event as `icalendar` writes it. `generated` is the time stamp
/// and the identifier it generates when writing; `fold` folds long lines.
pub open spec fn ics_vevent_text(
    e: (Seq<char>, (i32, u32, u32)),
    generated: (Seq<char>, Seq<char>),
    fold: spec_fn(Seq<char>) -> Seq<char>,
) -> Seq<char> {
    "BEGIN:VEVENT\r\n"@
        + "DTSTAMP:"@ + generated.0 + "\r\n"@
        + "DTEND;VALUE=DATE:"@ + ics_date(e.1) + "\r\n"@
        + "DTSTART;VALUE=DATE:"@ + ics_date(e.1) + "\r\n"@
        + ics_content_line("SUMMARY:"@ + ics_escaped(e.0), fold)
        + "UID:"@ + generated.1 + "\r\n"@
        + "END:VEVENT\r\n"@
}

/// The events, one after the other, each with its generated stamp and identifier.
pub open spec fn ics_vevents_text(
    es: Seq<(Seq<char>, (i32, u32, u32))>,
    generated: Seq<(Seq<char>, Seq<char>)>,
    fold: spec_fn(Seq<char>) -> Seq<char>,
) -> Seq<char>
    decreases es.len(),
{
    if es.len() == 0 {
        Seq::empty()
    } else {
        ics_vevents_text(es.drop_last(), generated.drop_last(), fold) + ics_vevent_text(es.last(), generated.last(), fold)
    }
}

/// `t` is a text that `icalendar` writes for a calendar of the three default
/// properties and the all-day events `es`: the frame, the properties, then
/// one `VEVENT` per event in order, for some generated time stamps and
/// identifiers, long lines folded by `fold`.
pub open spec fn ics_written(t: Seq<char>, es: Seq<(Seq<char>, (i32, u32, u32))>, fold: spec_fn(Seq<char>) -> Seq<char>) -> bool {
    exists|generated: Seq<(Seq<char>, Seq<char>)>| {
        &&& generated.len() == es.len()
        &&& forall|i: int| 0 <= i < generated.len() ==> ics_token(#[trigger] generated[i].0) && ics_token(generated[i].1)
        &&& t == ics_begin() + ics_calendar_properties() + ics_vevents_text(es, generated, fold) + ics_end()
    }
}

/// A generated value: ASCII letters, digits, `+` and `-` only.
pub open spec fn ics_token(s: Seq<char>) -> bool {
    forall|i: int|
        0 <= i < s.len() ==> {
            let c = #[trigger] s[i] as u32;
            (48 <= c <= 57) || (65 <= c <= 90) || (97 <= c <= 122) || c == 43 || c == 45
        }
}

/// A text of printable ASCII characters (space to `~`).
pub open spec fn printable_ascii(s: Seq<char>) -> bool {
    forall|i: int| 0 <= i < s.len() ==> 32 <= (#[trigger] s[i] as u32) <= 126
}

/// Entries whose written calendar `icalendar` reads back: each summary is
/// printable ASCII and each day exists, in a year of 0..=9999.
pub open spec fn ics_export_readable(es: Seq<(Seq<char>, (i32, u32, u32))>) -> bool {
    forall|i: int|
        0 <= i < es.len() ==> {
            &&& printable_ascii(#[trigger] es[i].0)
            &&& 0 <= es[i].1.0 <= 9999
            &&& is_valid_ymd(es[i].1.0 as int, es[i].1.1 as int, es[i].1.2 as int)
        }
}

/// The components read back from a written calendar of the entries: one
/// event per entry, with its summary and its start date.
pub open spec fn ics_read_view(es: Seq<(Seq<char>, (i32, u32, u32))>) -> Seq<(bool, Option<Seq<char>>, Option<(i32, u32, u32)>)> {
    es.map_values(|e: (Seq<char>, (i32, u32, u32))| (true, Some(e.0), Some(e.1)))
}

/// The text of a calendar.
///
/// Calls `ToString::to_string` on the `icalendar::Calendar`, whose `Display`
/// writes `BEGIN:VCALENDAR`, the calendar's properties, its components and
/// `END:VCALENDAR`, each content line folded past 75 bytes and ended by CRLF;
/// it never reports an error, so the call does not panic. An event is written
/// as `BEGIN:VEVENT`, a `DTSTAMP` of the current time (it has none of its own),
/// its properties in the order of their names (`DTEND`, `DTSTART`,
/// `SUMMARY`, the summary escaped as `TEXT`), a `UID` of a fresh random UUID,
/// and `END:VEVENT`. The time stamps (`%Y%m%dT%H%M%SZ`) and identifiers
/// (hyphenated hexadecimal) depend on the clock and on chance; only that they
/// are made of ASCII letters, digits, `+` and `-` is stated. How a line
/// longer than 75 bytes is folded is named `ics_folded_line`.
#[verifier::external_body]
fn calendar_text(cal: &icalendar::Calendar) -> (r: String)
    requires
        is_plain_event_calendar(*cal),
    ensures
        ics_written(r@, calendar_entries(*cal), |line: Seq<char>| ics_folded_line(line)),
{
    cal.to_string()
}

/// The (summary, date) entries of the days with keys `ks`, in that order.
pub open spec fn ics_entries_of(ks: Seq<u64>, events: Map<u64, Vec<String>>) -> Seq<(Seq<char>, (i32, u32, u32))>
    decreases ks.len(),
{
    if ks.len() == 0 {
        Seq::empty()
    } else {
        let k = ks.last();
        ics_entries_of(ks.drop_last(), events) + events[k]@.map_values(|s: String| (s@, key_date(k).ymd()))
    }
}

/// Importing two runs of records one after the other is importing the first,
/// then the second into the result.
proof fn lemma_csv_import_append(m: Map<u64, Seq<Seq<char>>>, a: Seq<Seq<Seq<char>>>, b: Seq<Seq<Seq<char>>>)
    ensures
        csv_import(m, a + b) == (
            csv_import(csv_import(m, a).0, b).0,
            csv_import(m, a).1 + csv_import(csv_import(m, a).0, b).1,
        ),
    decreases b.len(),
{
    if b.len() == 0 {
        assert(a + b =~= a);
    } else {
        lemma_csv_import_append(m, a, b.drop_last());
        assert((a + b).drop_last() =~= a + b.drop_last());
        assert((a + b).last() == b.last());
    }
}

/// Importing the exported records of one day `d` that is not yet in the map
/// gives the day its list, and counts every record.
proof fn lemma_csv_import_day(m: Map<u64, Seq<Seq<char>>>, d: Date, list: Seq<String>)
    requires
        d.valid(),
        !m.contains_key(key_of(d) as u64),
        list.len() > 0 ==> parsed_date(iso_date_text(d), csv_date_pattern()) == Some(d.ymd()),
    ensures
        csv_import(m, list.map_values(|s: String| seq![iso_date_text(d), s@])) == (
            if list.len() > 0 { m.insert(key_of(d) as u64, texts(list)) } else { m },
            list.len(),
        ),
    decreases list.len(),
{
    let recs = list.map_values(|s: String| seq![iso_date_text(d), s@]);
    if list.len() == 0 {
        assert(recs.len() == 0);
    } else {
        let pre = list.drop_last();
        lemma_csv_import_day(m, d, pre);
        assert(recs.drop_last() =~= pre.map_values(|s: String| seq![iso_date_text(d), s@]));
        let r = recs.last();
        assert(r == seq![iso_date_text(d), list.last()@]);
        assert(r[0] == iso_date_text(d));
        assert(r[1] == list.last()@);
        assert(csv_record_date(r) == Some(d));
        let k = key_of(d) as u64;
        if pre.len() == 0 {
            assert(texts(list) =~= seq![list.last()@]);
            assert(m.insert(k, seq![list.last()@]) =~= with_event(m, d, list.last()@));
        } else {
            assert(texts(list) =~= texts(pre).push(list.last()@));
            assert(m.insert(k, texts(list)) =~= with_event(m.insert(k, texts(pre)), d, list.last()@));
        }
    }
}

/// Importing the records of the CSV export of the days `ks` into an empty map
/// gives each of those days that has events its list, and counts every record.
proof fn lemma_csv_import_export(ks: Seq<u64>, events: Map<u64, Vec<String>>)
    requires
        strictly_increasing(ks),
        forall|i: int| 0 <= i < ks.len() ==> events.contains_key(#[trigger] ks[i]) && is_date_key(ks[i]),
        dates_read_back(ks, events),
    ensures
        csv_import(Map::empty(), csv_records_for(ks, events)) == (
            Map::new(|k: u64| ks.contains(k) && events[k]@.len() > 0, |k: u64| texts(events[k]@)),
            csv_records_for(ks, events).len(),
        ),
    decreases ks.len(),
{
    if ks.len() == 0 {
        assert(csv_records_for(ks, events).len() == 0);
        assert(Map::new(|k: u64| ks.contains(k) && events[k]@.len() > 0, |k: u64| texts(events[k]@))
            =~= Map::<u64, Seq<Seq<char>>>::empty());
    } else {
        let pre = ks.drop_last();
        let k = ks.last();
        assert(dates_read_back(pre, events)) by {
            assert forall|i: int| 0 <= i < pre.len() && events[pre[i]]@.len() > 0 implies #[trigger] parsed_date(
                iso_date_text(key_date(pre[i])),
                csv_date_pattern(),
            ) == Some(key_date(pre[i]).ymd()) by {
                assert(pre[i] == ks[i]);
            }
        }
        assert(forall|i: int| 0 <= i < pre.len() ==> pre[i] == ks[i]);
        lemma_csv_import_export(pre, events);
        let d = key_date(k);
        assert(is_date_key(ks[ks.len() - 1]));
        let list = events[k]@;
        let day = list.map_values(|s: String| seq![iso_date_text(d), s@]);
        assert(csv_rows_of(ks, events) == csv_rows_of(pre, events) + list.map_values(|s: String| (iso_date_text(key_date(k)), s@)));
        assert(csv_records_for(ks, events) =~= csv_records_for(pre, events) + day);
        lemma_csv_import_append(Map::empty(), csv_records_for(pre, events), day);
        let before = Map::new(|x: u64| pre.contains(x) && events[x]@.len() > 0, |x: u64| texts(events[x]@));
        assert(!pre.contains(k)) by {
            if pre.contains(k) {
                let i = choose|i: int| 0 <= i < pre.len() && pre[i] == k;
                assert(ks[i] < ks[ks.len() - 1]);
            }
        }
        assert(!before.contains_key(key_of(d) as u64));
        if list.len() > 0 {
            assert(events[ks[ks.len() - 1]]@.len() > 0);
        }
        lemma_csv_import_day(before, d, list);
        assert forall|x: u64| ks.contains(x) <==> (pre.contains(x) || x == k) by {
            if ks.contains(x) {
                let i = choose|i: int| 0 <= i < ks.len() && ks[i] == x;
                if i < ks.len() - 1 {
                    assert(pre[i] == x);
                }
            }
            if pre.contains(x) {
                let i = choose|i: int| 0 <= i < pre.len() && pre[i] == x;
                assert(ks[i] == x);
            }
            if x == k {
                assert(ks[ks.len() - 1] == x);
            }
        }
        let after = Map::new(|x: u64| ks.contains(x) && events[x]@.len() > 0, |x: u64| texts(events[x]@));
        if list.len() > 0 {
            assert(before.insert(k, texts(list)) =~= after);
        } else {
            assert(before =~= after);
        }
    }
}

impl App {
    /// The calendar of the iCalendar export: one all-day event per event,
    /// days in calendar order and each day's events in list order.
    pub fn ics_calendar(&self) -> (cal: icalendar::Calendar)
        requires
            self.wf(),
        ensures
            exists|ks: Seq<u64>| lists_keys_in_order(ks, self.events@) && calendar_entries(cal) == ics_entries_of(ks, self.events@),
            is_plain_event_calendar(cal),
    {
        let keys = sorted_keys(&self.events);
        let mut cal = new_calendar();
        let mut n: usize = 0;
        while n < keys.len()
            invariant
                n <= keys.len(),
                self.wf(),
                lists_keys_in_order(keys@, self.events@),
                calendar_entries(cal) == ics_entries_of(keys@.take(n as int), self.events@),
                is_plain_event_calendar(cal),
            decreases keys.len() - n,
        {
            let k = keys[n];
            assert(keys@.contains(k));
            let d = key_to_date(k);
            let list = self.events.get(&k).unwrap();
            let ghost prefix = calendar_entries(cal);
            let mut j: usize = 0;
            while j < list.len()
                invariant
                    j <= list.len(),
                    d.valid(),
                    calendar_entries(cal) == prefix + list@.take(j as int).map_values(|s: String| (s@, d.ymd())),
                    is_plain_event_calendar(cal),
                decreases list.len() - j,
            {
                push_all_day_event(&mut cal, list[j].as_str(), d);
                assert(list@.take(j + 1).map_values(|s: String| (s@, d.ymd())) =~= list@.take(j as int).map_values(
                    |s: String| (s@, d.ymd()),
                ).push((list@[j as int]@, d.ymd())));
                j = j + 1;
            }
            assert(list@.take(list@.len() as int) =~= list@);
            assert(keys@.take(n + 1).drop_last() =~= keys@.take(n as int));
            n = n + 1;
        }
        assert(keys@.take(keys@.len() as int) =~= keys@);
        cal
    }

    /// The text of the iCalendar export: `ics_calendar` as `icalendar` writes
    /// it, one all-day `VEVENT` per event, days in calendar order and each
    /// day's events in list order.
    pub fn ics_text(&self) -> (r: String)
        requires
            self.wf(),
        ensures
            exists|ks: Seq<u64>| lists_keys_in_order(ks, self.events@) && ics_written(
                r@,
                ics_entries_of(ks, self.events@),
                |line: Seq<char>| ics_folded_line(line),
            ),
    {
        let cal = self.ics_calendar();
        calendar_text(&cal)
    }

    /// Appends `text` to the events of day `d`.
    fn add_event_text(&mut self, d: Date, text: String)
        requires
            old(self).wf(),
            d.valid(),
        ensures
            final(self).wf(),
            events_view(final(self).events@) == with_event(events_view(old(self).events@), d, text@),
            *final(self) == (App { events: final(self).events, ..*old(self) }),
    {
        let key = date_key(d);
        let ghost before = self.events@;
        let mut list = match self.events.remove(&key) {
            Some(list) => list,
            None => Vec::new(),
        };
        list.push(text);
        self.events.insert(key, list);
        assert(events_view(self.events@) =~= with_event(events_view(before), d, text@)) by {
            assert(self.events@[key]@ =~= day_list(before, d).push(text));
            if before.contains_key(key) {
                assert(texts(self.events@[key]@) =~= texts(before[key]@).push(text@));
            } else {
                assert(texts(self.events@[key]@) =~= Seq::<Seq<char>>::empty().push(text@));
            }
        }
    }

    /// Adds the events of CSV records: every record of at least two fields
    /// whose first field reads as a `%Y-%m-%d` date adds its second field to
    /// that day. Returns how many events were added.
    pub fn import_csv_records(&mut self, records: &Vec<Vec<String>>) -> (count: usize)
        requires
            old(self).wf(),
        ensures
            final(self).wf(),
            events_view(final(self).events@) == csv_import(events_view(old(self).events@), records@.map_values(|r: Vec<String>| texts(r@))).0,
            count == csv_import(events_view(old(self).events@), records@.map_values(|r: Vec<String>| texts(r@))).1,
            *final(self) == (App { events: final(self).events, ..*old(self) }),
    {
        let ghost start = *self;
        let ghost recs = records@.map_values(|r: Vec<String>| texts(r@));
        let mut count: usize = 0;
        let mut i: usize = 0;
        while i < records.len()
            invariant
                i <= records.len(),
                count <= i,
                self.wf(),
                recs == records@.map_values(|r: Vec<String>| texts(r@)),
                events_view(self.events@) == csv_import(events_view(start.events@), recs.take(i as int)).0,
                count == csv_import(events_view(start.events@), recs.take(i as int)).1,
                *self == (App { events: self.events, ..start }),
            decreases records.len() - i,
        {
            assert(recs.take(i + 1).drop_last() =~= recs.take(i as int));
            let rec = &records[i];
            assert(recs[i as int] == texts(rec@));
            if rec.len() >= 2 {
                let date = parse_date(rec[0].as_str(), "%Y-%m-%d");
                if let Some(d) = date {
                    self.add_event_text(d, rec[1].clone());
                    count = count + 1;
                }
            }
            i = i + 1;
        }
        assert(recs.take(records@.len() as int) =~= recs);
        count
    }

    /// Adds the events of a CSV file's bytes, record by record as
    /// `import_csv_records` does. Returns how many events were added, or the
    /// message of the error that stopped the reading; the records read before
    /// the error are added either way.
    pub fn import_csv_bytes(&mut self, bytes: &[u8]) -> (r: Result<usize, String>)
        requires
            old(self).wf(),
        ensures
            final(self).wf(),
            events_view(final(self).events@) == csv_import(events_view(old(self).events@), csv_records_of(bytes@).0).0,
            *final(self) == (App { events: final(self).events, ..*old(self) }),
            match r {
                Ok(count) => {
                    &&& csv_records_of(bytes@).1 is None
                    &&& count == csv_import(events_view(old(self).events@), csv_records_of(bytes@).0).1
                },
                Err(e) => csv_records_of(bytes@).1 == Some(e@),
            },
    {
        let (records, failure) = read_csv_records(bytes);
        let count = self.import_csv_records(&records);
        match failure {
            Some(e) => Err(e),
            None => Ok(count),
        }
    }

    /// Adds the events among calendar components, in order: every event with
    /// a start date adds its summary ("No summary" without one) to the day it
    /// starts on. Returns how many events were added.
    pub fn import_ics_components(&mut self, components: &Vec<IcsComponent>) -> (count: usize)
        requires
            old(self).wf(),
        ensures
            final(self).wf(),
            events_view(final(self).events@) == ics_import(
                events_view(old(self).events@),
                components@.map_values(|c: IcsComponent| ics_component_view(c)),
            ).0,
            count == ics_import(
                events_view(old(self).events@),
                components@.map_values(|c: IcsComponent| ics_component_view(c)),
            ).1,
            *final(self) == (App { events: final(self).events, ..*old(self) }),
    {
        let ghost start = *self;
        let ghost cs = components@.map_values(|c: IcsComponent| ics_component_view(c));
        let mut count: usize = 0;
        let mut i: usize = 0;
        while i < components.len()
            invariant
                i <= components.len(),
                cs == components@.map_values(|c: IcsComponent| ics_component_view(c)),
                count <= i,
                self.wf(),
                events_view(self.events@) == ics_import(events_view(start.events@), cs.take(i as int)).0,
                count == ics_import(events_view(start.events@), cs.take(i as int)).1,
                *self == (App { events: self.events, ..start }),
            decreases components.len() - i,
        {
            assert(cs.take(i + 1).drop_last() =~= cs.take(i as int));
            let c = &components[i];
            assert(cs[i as int] == ics_component_view(*c));
            if c.is_event {
                if let Some(start_day) = c.start {
                    if let Some(d) = date_from_ymd(start_day.year, start_day.month, start_day.day) {
                        let text = match &c.summary {
                            Some(s) => s.clone(),
                            None => String::from_str("No summary"),
                        };
                        self.add_event_text(d, text);
                        count = count + 1;
                    }
                }
            }
            i = i + 1;
        }
        assert(cs.take(components@.len() as int) =~= cs);
        count
    }

    /// Adds the events of a calendar text (see `import_ics_components`).
    /// Returns how many events were added; fails, changing nothing, when the
    /// text is not a calendar.
    pub fn import_ics_text(&mut self, text: &str) -> (r: Result<usize, String>)
        requires
            old(self).wf(),
        ensures
            final(self).wf(),
            ics_components_of(text@) is None ==> r is Err && *final(self) == *old(self),
            ics_components_of(text@) matches Some(cs) ==> {
                &&& r matches Ok(count) && count == ics_import(events_view(old(self).events@), cs).1
                &&& events_view(final(self).events@) == ics_import(events_view(old(self).events@), cs).0
                &&& *final(self) == (App { events: final(self).events, ..*old(self) })
            },
            forall|es: Seq<(Seq<char>, (i32, u32, u32))>|
                #[trigger] ics_export_readable(es) && ics_written(text@, es, |line: Seq<char>| ics_folded_line(line)) ==> {
                &&& r matches Ok(count) && count == ics_import(events_view(old(self).events@), ics_read_view(es)).1
                &&& events_view(final(self).events@) == ics_import(events_view(old(self).events@), ics_read_view(es)).0
            },
    {
        let cal = match parse_calendar(text) {
            Ok(cal) => cal,
            Err(e) => {
                return Err(e);
            },
        };
        let ghost cs = calendar_components(cal);
        let n = calendar_len(&cal);
        let mut components: Vec<IcsComponent> = Vec::new();
        let mut i: usize = 0;
        while i < n
            invariant
                i <= n,
                n == cs.len(),
                cs == calendar_components(cal),
                components@.map_values(|c: IcsComponent| ics_component_view(c)) == cs.take(i as int),
            decreases n - i,
        {
            let c = calendar_component(&cal, i);
            let ghost before = components@;
            components.push(c);
            assert(components@.map_values(|c: IcsComponent| ics_component_view(c)) =~= before.map_values(
                |c: IcsComponent| ics_component_view(c),
            ).push(cs[i as int]));
            assert(cs.take(i + 1) =~= cs.take(i as int).push(cs[i as int]));
            i = i + 1;
        }
        assert(cs.take(n as int) =~= cs);
        let count = self.import_ics_components(&components);
        Ok(count)
    }

    /// Rows of the CSV export: the header, then one row (date, event) per event,
    /// days in calendar order and each day's events in list order.
    pub fn csv_rows(&self) -> (rows: Vec<(String, String)>)
        requires
            self.wf(),
        ensures
            exists|ks: Seq<u64>| {
                &&& lists_keys_in_order(ks, self.events@)
                &&& rows@.map_values(|r: (String, String)| (r.0@, r.1@)) == seq![csv_header()] + csv_rows_of(ks, self.events@)
                &&& dates_read_back(ks, self.events@)
            },
    {
        let keys = sorted_keys(&self.events);
        let mut rows: Vec<(String, String)> = Vec::new();
        rows.push((String::from_str("Date"), String::from_str("Event")));
        let mut n: usize = 0;
        while n < keys.len()
            invariant
                n <= keys.len(),
                self.wf(),
                lists_keys_in_order(keys@, self.events@),
                rows@.map_values(|r: (String, String)| (r.0@, r.1@)) == seq![csv_header()] + csv_rows_of(
                    keys@.take(n as int),
                    self.events@,
                ),
                dates_read_back(keys@.take(n as int), self.events@),
            decreases keys.len() - n,
        {
            let k = keys[n];
            assert(keys@.contains(k));
            let d = key_to_date(k);
            let list = self.events.get(&k).unwrap();
            let ghost prefix = rows@.map_values(|r: (String, String)| (r.0@, r.1@));
            let mut j: usize = 0;
            while j < list.len()
                invariant
                    j <= list.len(),
                    d.valid(),
                    rows@.map_values(|r: (String, String)| (r.0@, r.1@)) == prefix + list@.take(j as int).map_values(
                        |s: String| (iso_date_text(d), s@),
                    ),
                    j > 0 ==> parsed_date(iso_date_text(d), csv_date_pattern()) == Some(d.ymd()),
                decreases list.len() - j,
            {
                let ghost before = rows@;
                let t = date_text(d);
                let c = list[j].clone();
                let ghost pair = (t@, c@);
                rows.push((t, c));
                assert(rows@.map_values(|r: (String, String)| (r.0@, r.1@)) =~= before.map_values(
                    |r: (String, String)| (r.0@, r.1@),
                ).push(pair));
                assert(list@.take(j + 1).map_values(|s: String| (iso_date_text(d), s@)) =~= list@.take(
                    j as int,
                ).map_values(|s: String| (iso_date_text(d), s@)).push((iso_date_text(d), list@[j as int]@)));
                j = j + 1;
            }
            assert(list@.take(list@.len() as int) =~= list@);
            assert(keys@.take(n + 1).drop_last() =~= keys@.take(n as int));
            assert(dates_read_back(keys@.take(n + 1), self.events@)) by {
                assert forall|i: int|
                    0 <= i < n + 1 && self.events@[keys@.take(n + 1)[i]]@.len() > 0 implies #[trigger] parsed_date(
                    iso_date_text(key_date(keys@.take(n + 1)[i])),
                    csv_date_pattern(),
                ) == Some(key_date(keys@.take(n + 1)[i]).ymd()) by {
                    if i < n {
                        assert(keys@.take(n + 1)[i] == keys@.take(n as int)[i]);
                    } else {
                        assert(keys@.take(n + 1)[i] == k);
                    }
                }
            }
            n = n + 1;
        }
        assert(keys@.take(keys@.len() as int) =~= keys@);
        rows
    }

    /// The bytes of the CSV export: the rows of `csv_rows` as `csv` writes
    /// them, or the message of the error it reports.
    pub fn csv_bytes(&self) -> (r: Result<Vec<u8>, String>)
        requires
            self.wf(),
        ensures
            exists|ks: Seq<u64>| {
                &&& lists_keys_in_order(ks, self.events@)
                &&& csv_bytes_of(seq![csv_header()] + csv_rows_of(ks, self.events@)) == match r {
                    Ok(b) => Ok(b@),
                    Err(e) => Err(e@),
                }
            },
            r matches Ok(b) ==> {
                &&& csv_records_of(b@).1 is None
                &&& csv_import(Map::empty(), csv_records_of(b@).0) == (
                    nonempty_days(events_view(self.events@)),
                    csv_records_of(b@).0.len(),
                )
            },
    {
        let rows = self.csv_rows();
        let r = write_csv_rows(&rows);
        proof {
            let ks = choose|ks: Seq<u64>| {
                &&& lists_keys_in_order(ks, self.events@)
                &&& rows@.map_values(|r: (String, String)| (r.0@, r.1@)) == seq![csv_header()] + csv_rows_of(ks, self.events@)
                &&& dates_read_back(ks, self.events@)
            };
            let rv = rows@.map_values(|r: (String, String)| (r.0@, r.1@));
            assert(rows@.len() == rv.len());
            assert(rows@.skip(1).map_values(|row: (String, String)| seq![row.0@, row.1@]) =~= csv_records_for(ks, self.events@)) by {
                assert forall|i: int| 0 <= i < rows@.len() - 1 implies #[trigger] rows@.skip(1)[i].0@ == csv_rows_of(ks, self.events@)[i].0
                    && rows@.skip(1)[i].1@ == csv_rows_of(ks, self.events@)[i].1 by {
                    assert(rv[i + 1] == csv_rows_of(ks, self.events@)[i]);
                }
            }
            assert forall|i: int| 0 <= i < ks.len() implies self.events@.contains_key(#[trigger] ks[i]) && is_date_key(ks[i]) by {
                assert(ks.contains(ks[i]));
            }
            lemma_csv_import_export(ks, self.events@);
            assert(Map::new(|k: u64| ks.contains(k) && self.events@[k]@.len() > 0, |k: u64| texts(self.events@[k]@))
                =~= nonempty_days(events_view(self.events@)));
        }
        r
    }

    /// Says on the status line that the export to `f` went through.
    pub fn report_export(&mut self, f: DataFile)
        ensures
            final(self).status_message@ == export_message(f),
            *final(self) == (App { status_message: final(self).status_message, ..*old(self) }),
    {
        let mut msg = String::from_str("Exported to ");
        match f {
            DataFile::Csv => msg.append("events.csv"),
            DataFile::Ics => msg.append("events.ics"),
        }
        self.status_message = msg;
    }

    /// Says on the status line that the file to import from does not exist.
    pub fn report_missing(&mut self, f: DataFile)
        ensures
            final(self).status_message@ == missing_message(f),
            *final(self) == (App { status_message: final(self).status_message, ..*old(self) }),
    {
        let mut msg = match f {
            DataFile::Csv => String::from_str("events.csv"),
            DataFile::Ics => String::from_str("events.ics"),
        };
        msg.append(" not found");
        self.status_message = msg;
    }

    /// Ends an import of `count` events from `f`: the event selection follows
    /// the new events and the status line gives the count.
    pub fn finish_import(&mut self, count: usize, f: DataFile)
        requires
            old(self).wf(),
        ensures
            final(self).wf(),
            final(self).status_message@ == import_message(count as nat, f),
            *final(self) == (App {
                status_message: final(self).status_message,
                event_selection: selection_for(old(self).events@, old(self).selected_date),
                ..*old(self)
            }),
    {
        self.update_event_selection();
        let mut msg = String::from_str("Imported ");
        let n = decimal_string(count as u64);
        msg.append(n.as_str());
        msg.append(" events from ");
        match f {
            DataFile::Csv => msg.append("events.csv"),
            DataFile::Ics => msg.append("events.ics"),
        }
        self.status_message = msg;
    }
}

} // verus!
