use chrono::Datelike;
use vstd::prelude::*;

use crate::text::decimal;

verus! {

/// The first year that `chrono::NaiveDate` can hold.
pub const MIN_YEAR: i32 = -262143;

/// The last year that `chrono::NaiveDate` can hold.
pub const MAX_YEAR: i32 = 262142;

/// Gregorian leap-year rule, on the proleptic calendar.
pub open spec fn is_leap_year(y: int) -> bool {
    y % 4 == 0 && (y % 100 != 0 || y % 400 == 0)
}

/// Number of days of month `m` (1..=12) of year `y`.
pub open spec fn days_in_month(y: int, m: int) -> int {
    if m == 2 {
        if is_leap_year(y) { 29 } else { 28 }
    } else if m == 4 || m == 6 || m == 9 || m == 11 {
        30
    } else {
        31
    }
}

/// A year, month and day that name an existing day that `chrono` can represent.
pub open spec fn is_valid_ymd(y: int, m: int, d: int) -> bool {
    &&& MIN_YEAR <= y <= MAX_YEAR
    &&& 1 <= m <= 12
    &&& 1 <= d <= days_in_month(y, m)
}

/// Days from 0001-01-01 to the first day of year `y`.
pub open spec fn days_before_year(y: int) -> int {
    let p = y - 1;
    365 * p + p / 4 - p / 100 + p / 400
}

/// Days from the first day of year `y` to the first day of month `m`.
pub open spec fn days_before_month(y: int, m: int) -> int
    decreases m,
{
    if m <= 1 {
        0
    } else {
        days_before_month(y, m - 1) + days_in_month(y, m - 1)
    }
}

/// Days from 0001-01-01 (day number 0, a Monday) to the given day.
pub open spec fn day_number(y: int, m: int, d: int) -> int {
    days_before_year(y) + days_before_month(y, m) + d - 1
}

/// The day number of the first day `chrono` can represent.
pub open spec fn first_day_number() -> int {
    day_number(MIN_YEAR as int, 1, 1)
}

/// The day number of the last day `chrono` can represent.
pub open spec fn last_day_number() -> int {
    day_number(MAX_YEAR as int, 12, 31)
}

/// A calendar day, held as plain values.
#[derive(Clone, Copy, Debug, PartialEq, Eq, Structural)]
pub struct Date {
    pub year: i32,
    pub month: u32,
    pub day: u32,
}

impl Date {
    pub open spec fn valid(self) -> bool {
        is_valid_ymd(self.year as int, self.month as int, self.day as int)
    }

    pub open spec fn number(self) -> int {
        day_number(self.year as int, self.month as int, self.day as int)
    }

    /// The first day of this date's month.
    pub open spec fn month_start(self) -> Date {
        Date { year: self.year, month: self.month, day: 1 }
    }

    /// The day after this one, where `chrono` can represent it.
    pub open spec fn next_day(self) -> Option<Date> {
        if (self.day as int) < days_in_month(self.year as int, self.month as int) {
            Some(Date { year: self.year, month: self.month, day: (self.day + 1) as u32 })
        } else if self.month < 12 {
            Some(Date { year: self.year, month: (self.month + 1) as u32, day: 1 })
        } else if self.year < MAX_YEAR {
            Some(Date { year: (self.year + 1) as i32, month: 1, day: 1 })
        } else {
            None
        }
    }

    /// Day of the week, counted from Sunday (0) to Saturday (6).
    pub open spec fn weekday_from_sunday(self) -> int {
        (self.number() + 1) % 7
    }

    /// The date as a triple of plain values.
    pub open spec fn ymd(self) -> (i32, u32, u32) {
        (self.year, self.month, self.day)
    }
}

/// The largest number of days that `chrono::TimeDelta::days` accepts.
pub open spec fn max_delta_days() -> int {
    106751991167
}

/// Makes the date of the given year, month and day, if that day exists.
///
/// Calls `chrono::NaiveDate::from_ymd_opt`, which returns a date exactly when
/// the month is 1..=12, the day exists in that month and the year lies in
/// `MIN_YEAR..=MAX_YEAR`.
#[verifier::external_body]
pub(crate) fn date_from_ymd(year: i32, month: u32, day: u32) -> (r: Option<Date>)
    ensures
        r == (if is_valid_ymd(year as int, month as int, day as int) {
            Some(Date { year, month, day })
        } else {
            None
        }),
{
    chrono::NaiveDate::from_ymd_opt(year, month, day).map(
        |d| Date { year: d.year(), month: d.month(), day: d.day() },
    )
}

/// The date `days` days after `date` (before it, for a negative count).
///
/// Calls `chrono::NaiveDate::checked_add_signed` with `chrono::TimeDelta::days(days)`.
/// The result is the day whose day number is that of `date` plus `days`, and
/// `None` exactly when no representable day has that number. `TimeDelta::days`
/// panics beyond `max_delta_days()`, which `requires` leaves out.
#[verifier::external_body]
pub(crate) fn date_add_days(date: Date, days: i64) -> (r: Option<Date>)
    requires
        date.valid(),
        -max_delta_days() <= days <= max_delta_days(),
    ensures
        r is Some <==> first_day_number() <= date.number() + days <= last_day_number(),
        r matches Some(d) ==> d.valid() && d.number() == date.number() + days,
{
    let d = chrono::NaiveDate::from_ymd_opt(date.year, date.month, date.day).unwrap();
    d.checked_add_signed(chrono::TimeDelta::days(days)).map(
        |n| Date { year: n.year(), month: n.month(), day: n.day() },
    )
}


/// `s` with zeros in front up to `width` characters.
pub open spec fn zero_padded(s: Seq<char>, width: nat) -> Seq<char> {
    if s.len() >= width {
        s
    } else {
        Seq::new((width - s.len()) as nat, |i: int| '0') + s
    }
}

/// A year as `chrono` writes it: four digits or more, with a sign outside 0..=9999.
pub open spec fn year_text(y: int) -> Seq<char> {
    if 0 <= y <= 9999 {
        zero_padded(decimal(y as nat), 4)
    } else if y > 9999 {
        seq!['+'] + zero_padded(decimal(y as nat), 4)
    } else {
        seq!['-'] + zero_padded(decimal((-y) as nat), 4)
    }
}

/// A date as `chrono` writes it: `YYYY-MM-DD`.
pub open spec fn iso_date_text(d: Date) -> Seq<char> {
    year_text(d.year as int) + seq!['-'] + zero_padded(decimal(d.month as nat), 2) + seq!['-'] + zero_padded(
        decimal(d.day as nat),
        2,
    )
}

/// The date that `chrono::NaiveDate::parse_from_str` reads from `text` with
/// the format `pattern`, if it reads one.
pub uninterp spec fn parsed_date(text: Seq<char>, pattern: Seq<char>) -> Option<(i32, u32, u32)>;

/// The text of a date, as `NaiveDate`'s `Display` writes it.
///
/// Calls `ToString::to_string` on the `chrono::NaiveDate`; chrono writes the
/// year with four digits (zero-padded) when it lies in 0..=9999 and with an
/// explicit sign and at least four digits otherwise, then `-`, the two-digit
/// month, `-` and the two-digit day.
///
/// `parse_from_str` with `%Y-%m-%d` reads that text back as the same date:
/// `%Y` reads an explicitly signed year with any number of digits and an
/// unsigned one with up to four, `%m` and `%d` two digits each (the items
/// that `NaiveDate`'s `FromStr` also uses, whose tests read back the first
/// and last representable days).
#[verifier::external_body]
pub(crate) fn date_text(date: Date) -> (r: String)
    requires
        date.valid(),
    ensures
        r@ == iso_date_text(date),
        parsed_date(r@, "%Y-%m-%d"@) == Some(date.ymd()),
{
    chrono::NaiveDate::from_ymd_opt(date.year, date.month, date.day).unwrap().to_string()
}

/// Reads a date from `text` in the format `pattern`.
///
/// Calls `chrono::NaiveDate::parse_from_str`. What it reads is named
/// `parsed_date`; a date it returns is always one that exists.
#[verifier::external_body]
pub(crate) fn parse_date(text: &str, pattern: &str) -> (r: Option<Date>)
    ensures
        r == (match parsed_date(text@, pattern@) {
            Some(ymd) => Some(Date { year: ymd.0, month: ymd.1, day: ymd.2 }),
            None => None,
        }),
        r matches Some(d) ==> d.valid(),
{
    chrono::NaiveDate::parse_from_str(text, pattern).ok().map(
        |d| Date { year: d.year(), month: d.month(), day: d.day() },
    )
}

/// The day after `date`, where `chrono` can represent it.
///
/// Calls `chrono::NaiveDate::succ_opt`, which returns the next calendar day
/// and `None` after the last representable day.
#[verifier::external_body]
pub(crate) fn next_date(date: Date) -> (r: Option<Date>)
    requires
        date.valid(),
    ensures
        r == date.next_day(),
{
    chrono::NaiveDate::from_ymd_opt(date.year, date.month, date.day).unwrap().succ_opt().map(
        |n| Date { year: n.year(), month: n.month(), day: n.day() },
    )
}

/// Day of the week of `date`, from Sunday (0) to Saturday (6).
///
/// Calls `chrono::Datelike::weekday` and `Weekday::num_days_from_sunday`. In
/// the proleptic Gregorian calendar 0001-01-01 (day number 0) is a Monday, so
/// the result is `(day number + 1) mod 7`.
#[verifier::external_body]
pub(crate) fn weekday_from_sunday(date: Date) -> (r: u32)
    requires
        date.valid(),
    ensures
        r == date.weekday_from_sunday(),
{
    chrono::NaiveDate::from_ymd_opt(date.year, date.month, date.day).unwrap().weekday().num_days_from_sunday()
}

/// The three `strftime` patterns the screen uses.
pub open spec fn is_screen_pattern(pattern: Seq<char>) -> bool {
    pattern == "%B %Y"@ || pattern == "%a, %b %d"@ || pattern == "%m/%d"@
}

/// The English name of month `m` (1..=12), as `%B` writes it.
pub open spec fn month_name(m: u32) -> Seq<char> {
    if m == 1 { "January"@ }
    else if m == 2 { "February"@ }
    else if m == 3 { "March"@ }
    else if m == 4 { "April"@ }
    else if m == 5 { "May"@ }
    else if m == 6 { "June"@ }
    else if m == 7 { "July"@ }
    else if m == 8 { "August"@ }
    else if m == 9 { "September"@ }
    else if m == 10 { "October"@ }
    else if m == 11 { "November"@ }
    else { "December"@ }
}

/// The three-letter name of weekday `w`, counted from Sunday (0), as `%a` writes it.
pub open spec fn weekday_abbreviation(w: int) -> Seq<char> {
    if w == 0 { "Sun"@ }
    else if w == 1 { "Mon"@ }
    else if w == 2 { "Tue"@ }
    else if w == 3 { "Wed"@ }
    else if w == 4 { "Thu"@ }
    else if w == 5 { "Fri"@ }
    else { "Sat"@ }
}

/// A number of at most two digits, zero-padded to two, as `%m` and `%d` write it.
pub open spec fn two_digits(n: u32) -> Seq<char> {
    zero_padded(decimal(n as nat), 2)
}

/// The text `chrono` writes for a date with one of the screen's patterns:
/// `%B %Y` gives "January 2024", `%a, %b %d` gives "Mon, Jan 01" (the month's
/// three-letter name is the start of its full name), `%m/%d` gives "01/31".
/// Other patterns are not used and give the empty text here.
pub open spec fn formatted_date(date: (i32, u32, u32), pattern: Seq<char>) -> Seq<char> {
    let d = Date { year: date.0, month: date.1, day: date.2 };
    if pattern == "%B %Y"@ {
        month_name(d.month) + " "@ + year_text(d.year as int)
    } else if pattern == "%a, %b %d"@ {
        weekday_abbreviation(d.weekday_from_sunday()) + ", "@ + month_name(d.month).take(3) + " "@ + two_digits(d.day)
    } else if pattern == "%m/%d"@ {
        two_digits(d.month) + "/"@ + two_digits(d.day)
    } else {
        Seq::empty()
    }
}

/// The text of `date` written with `pattern`.
///
/// Calls `chrono::NaiveDate::format` and `to_string`. With chrono's default
/// (English) names, `%B` writes the month's full name, `%b` its first three
/// letters, `%a` the weekday's three-letter name, `%m` and `%d` two digits and
/// `%Y` the year as `year_text` has it. `to_string` panics on a pattern that
/// `chrono` cannot write, so `requires` admits only the patterns the screen uses.
#[verifier::external_body]
pub(crate) fn format_date(date: Date, pattern: &str) -> (r: String)
    requires
        date.valid(),
        is_screen_pattern(pattern@),
    ensures
        r@ == formatted_date(date.ymd(), pattern@),
{
    chrono::NaiveDate::from_ymd_opt(date.year, date.month, date.day).unwrap().format(pattern).to_string()
}

/// Today's date in the local time zone.
///
/// Calls `chrono::Local::now` and takes the `date_naive` of the result. The day
/// depends on the clock and the time zone, so only that it is a valid date is
/// stated.
#[verifier::external_body]
pub(crate) fn local_today() -> (r: Date)
    ensures
        r.valid(),
{
    let d = chrono::Local::now().date_naive();
    Date { year: d.year(), month: d.month(), day: d.day() }
}

/// A year has 366 days when it is a leap year and 365 otherwise.
pub proof fn lemma_year_length(y: int)
    ensures
        days_before_year(y + 1) - days_before_year(y) == (if is_leap_year(y) { 366int } else { 365int }),
{
    let p = y - 1;
    assert(y / 4 - p / 4 == (if y % 4 == 0 { 1int } else { 0int }));
    assert(y / 100 - p / 100 == (if y % 100 == 0 { 1int } else { 0int }));
    assert(y / 400 - p / 400 == (if y % 400 == 0 { 1int } else { 0int }));
}

/// The months of a year add up to the year's length.
pub proof fn lemma_months_fill_year(y: int)
    ensures
        days_before_month(y, 13) == days_before_year(y + 1) - days_before_year(y),
{
    reveal_with_fuel(days_before_month, 13);
    lemma_year_length(y);
}

/// `days_before_month` grows with the month.
pub proof fn lemma_days_before_month_monotone(y: int, m1: int, m2: int)
    requires
        1 <= m1 <= m2 <= 13,
    ensures
        days_before_month(y, m1) <= days_before_month(y, m2),
        m1 < m2 ==> days_before_month(y, m1) + days_in_month(y, m1) <= days_before_month(y, m2),
    decreases m2 - m1,
{
    if m1 < m2 {
        lemma_days_before_month_monotone(y, m1, m2 - 1);
    }
}

/// `days_before_year` grows with the year.
pub proof fn lemma_days_before_year_monotone(y1: int, y2: int)
    requires
        y1 < y2,
    ensures
        days_before_year(y1 + 1) <= days_before_year(y2),
    decreases y2 - y1,
{
    if y1 + 1 < y2 {
        lemma_days_before_year_monotone(y1, y2 - 1);
        lemma_year_length(y2 - 1);
    }
}

/// A valid date's day number lies within its year.
pub proof fn lemma_number_within_year(d: Date)
    requires
        d.valid(),
    ensures
        days_before_year(d.year as int) <= d.number() < days_before_year(d.year + 1),
        days_before_month(d.year as int, d.month as int) <= d.number() - days_before_year(d.year as int),
        d.number() - days_before_year(d.year as int) < days_before_month(d.year as int, d.month + 1),
{
    lemma_days_before_month_monotone(d.year as int, d.month as int, 13);
    lemma_days_before_month_monotone(d.year as int, 1, d.month as int);
    lemma_months_fill_year(d.year as int);
    assert(days_before_month(d.year as int, 1) == 0);
    assert(days_before_month(d.year as int, d.month + 1) == days_before_month(d.year as int, d.month as int)
        + days_in_month(d.year as int, d.month as int));
}

/// Every valid date's day number lies between the first and the last representable day's.
pub proof fn lemma_number_in_range(d: Date)
    requires
        d.valid(),
    ensures
        first_day_number() <= d.number() <= last_day_number(),
{
    lemma_number_within_year(d);
    let last = Date { year: MAX_YEAR, month: 12, day: 31 };
    lemma_number_within_year(last);
    if MIN_YEAR < d.year {
        lemma_days_before_year_monotone(MIN_YEAR as int, d.year as int);
        lemma_year_length(MIN_YEAR as int);
    }
    if d.year < MAX_YEAR {
        lemma_days_before_year_monotone(d.year as int, MAX_YEAR as int);
    }
    reveal_with_fuel(days_before_month, 13);
    lemma_months_fill_year(MAX_YEAR as int);
}

/// Day numbers tell valid dates apart: two valid dates with one day number are one date.
pub proof fn lemma_number_injective(a: Date, b: Date)
    requires
        a.valid(),
        b.valid(),
        a.number() == b.number(),
    ensures
        a == b,
{
    lemma_number_within_year(a);
    lemma_number_within_year(b);
    if a.year < b.year {
        lemma_days_before_year_monotone(a.year as int, b.year as int);
    } else if b.year < a.year {
        lemma_days_before_year_monotone(b.year as int, a.year as int);
    }
    assert(a.year == b.year);
    if a.month < b.month {
        lemma_days_before_month_monotone(a.year as int, a.month + 1, b.month as int);
    } else if b.month < a.month {
        lemma_days_before_month_monotone(a.year as int, b.month + 1, a.month as int);
    }
    assert(a.month == b.month);
}

} // verus!
