use vstd::prelude::*;

use crate::app::{day_list, following_month, moved_by, next_index, preceding_month, prev_index, shifted_year, App, InputMode};
use crate::keys::{key_is_safe_spec, key_step, Action, KeyInput};
use crate::app::{menu_executed, MenuCommand};
use crate::view::{menu_shows, MenuView};
use crate::search::{results_view, searched};
use crate::date::is_valid_ymd;
use crate::transfer::{csv_import, csv_record_date, ics_event_date, ics_event_text, ics_import, with_event};
use crate::date::{
    first_day_number, last_day_number, lemma_number_in_range, lemma_number_injective, Date, MAX_YEAR, MIN_YEAR,
};
use crate::search::{day_matches, event_matches, matches_in_days, query_key, search_found};
use crate::text::{ascii_lowercase, has_substring, is_ascii_text};
use crate::persist::{entries_of_map, entry_view, json_entries_of, loaded_entries, map_of_entries};
use crate::transfer::{events_view, ics_entries_of, ics_read_view, nonempty_days, texts};
use crate::store::strictly_increasing;
use crate::store::{
    date_before, is_date_key, key_date, key_of, lemma_key_order, lemma_key_round_trip, lemma_keys_in_order_unique,
    lists_keys_in_order,
};

verus! {

/// Showing the next month and then the previous one shows the month of the start again.
pub proof fn law_next_then_prev_month(m: Date)
    requires
        m.valid(),
        m.day == 1,
        m.year < MAX_YEAR || m.month < 12,
    ensures
        preceding_month(following_month(m)) == m,
{
}

/// Showing the previous month and then the next one shows the month of the start again.
pub proof fn law_prev_then_next_month(m: Date)
    requires
        m.valid(),
        m.day == 1,
        m.year > MIN_YEAR || m.month > 1,
    ensures
        following_month(preceding_month(m)) == m,
{
}

/// A year forward and a year back give the same day again, for every day but 29 February.
pub proof fn law_year_forward_and_back(d: Date)
    requires
        d.valid(),
        d.year < MAX_YEAR,
        !(d.month == 2 && d.day == 29),
    ensures
        shifted_year(shifted_year(d, 1), -1) == d,
{
}

/// A year back and a year forward give the same day again, for every day but 29 February.
pub proof fn law_year_back_and_forward(d: Date)
    requires
        d.valid(),
        d.year > MIN_YEAR,
        !(d.month == 2 && d.day == 29),
    ensures
        shifted_year(shifted_year(d, -1), 1) == d,
{
}

/// Moving the cursor by `n` days and then by `-n` days puts it back on the day it started on.
pub proof fn law_move_and_back(a: App, b: App, c: App, n: int)
    requires
        a.wf(),
        first_day_number() <= a.selected_date.number() + n <= last_day_number(),
        moved_by(a, b, n),
        moved_by(b, c, -n),
    ensures
        c.selected_date == a.selected_date,
        c.current_month == a.selected_date.month_start(),
{
    lemma_number_in_range(a.selected_date);
    lemma_number_injective(c.selected_date, a.selected_date);
}

/// In a list of `len` rows, one row down and then one row up returns to the row the selection was on.
pub proof fn law_selection_down_then_up(i: usize, len: int)
    requires
        i < len,
        len <= usize::MAX,
    ensures
        prev_index(Some(next_index(Some(i), len)), len) == i,
{
}

/// In a list of `len` rows, one row up and then one row down returns to the row the selection was on.
pub proof fn law_selection_up_then_down(i: usize, len: int)
    requires
        i < len,
        len <= usize::MAX,
    ensures
        next_index(Some(prev_index(Some(i), len)), len) == i,
{
}

/// A search has one answer: the events and the query fix the result list,
/// whatever order the event map is walked in.
pub proof fn law_search_result_is_unique(
    events: Map<u64, Vec<String>>,
    query: Seq<char>,
    r1: Seq<(Date, Seq<char>)>,
    r2: Seq<(Date, Seq<char>)>,
)
    requires
        search_found(events, query, r1),
        search_found(events, query, r2),
    ensures
        r1 == r2,
{
    if query.len() > 0 {
        let ks1 = choose|ks: Seq<u64>| lists_keys_in_order(ks, events) && r1 == matches_in_days(ks, events, query);
        let ks2 = choose|ks: Seq<u64>| lists_keys_in_order(ks, events) && r2 == matches_in_days(ks, events, query);
        lemma_keys_in_order_unique(ks1, ks2, events);
    }
}

/// Every match found in one day's list carries that day, and the events it
/// carries are the list's matching events.
proof fn lemma_day_matches(d: Date, list: Seq<String>, query: Seq<char>)
    ensures
        forall|i: int| 0 <= i < day_matches(d, list, query).len() ==> (#[trigger] day_matches(d, list, query)[i]).0 == d,
        forall|i: int| 0 <= i < day_matches(d, list, query).len() ==> {
            &&& event_matches((#[trigger] day_matches(d, list, query)[i]).1, query)
            &&& exists|j: int| 0 <= j < list.len() && list[j]@ == day_matches(d, list, query)[i].1
        },
    decreases list.len(),
{
    if list.len() > 0 {
        lemma_day_matches(d, list.drop_last(), query);
        let rest = day_matches(d, list.drop_last(), query);
        assert forall|i: int| 0 <= i < rest.len() implies exists|j: int| 0 <= j < list.len() && list[j]@ == (#[trigger] rest[i]).1 by {
            let j = choose|j: int| 0 <= j < list.drop_last().len() && list.drop_last()[j]@ == rest[i].1;
            assert(list[j] == list.drop_last()[j]);
        }
        if event_matches(list.last()@, query) {
            assert(list[list.len() - 1]@ == list.last()@);
        }
    }
}

/// The dates of the matches over `ks` are dates of keys in `ks`, in the order of `ks`.
proof fn lemma_matches_in_days_order(ks: Seq<u64>, events: Map<u64, Vec<String>>, query: Seq<char>)
    requires
        forall|i: int, j: int| 0 <= i < j < ks.len() ==> ks[i] < ks[j],
        forall|i: int| 0 <= i < ks.len() ==> is_date_key(#[trigger] ks[i]),
    ensures
        forall|i: int| 0 <= i < matches_in_days(ks, events, query).len() ==> exists|j: int|
            0 <= j < ks.len() && (#[trigger] matches_in_days(ks, events, query)[i]).0 == key_date(ks[j]),
        forall|i: int, i2: int| 0 <= i < i2 < matches_in_days(ks, events, query).len() ==> {
            let x = (#[trigger] matches_in_days(ks, events, query)[i]).0;
            let y = (#[trigger] matches_in_days(ks, events, query)[i2]).0;
            x == y || date_before(x, y)
        },
        forall|i: int| 0 <= i < matches_in_days(ks, events, query).len() ==> event_matches(
            (#[trigger] matches_in_days(ks, events, query)[i]).1,
            query,
        ),
    decreases ks.len(),
{
    if ks.len() > 0 {
        let init = ks.drop_last();
        let last = ks.last();
        lemma_matches_in_days_order(init, events, query);
        let r = matches_in_days(init, events, query);
        let dm = day_matches(key_date(last), events[last]@, query);
        lemma_day_matches(key_date(last), events[last]@, query);
        let all = matches_in_days(ks, events, query);
        assert(all == r + dm);
        assert forall|i: int| 0 <= i < all.len() implies exists|j: int|
            0 <= j < ks.len() && (#[trigger] all[i]).0 == key_date(ks[j]) by {
            if i < r.len() {
                assert(all[i] == r[i]);
                let j = choose|j: int| 0 <= j < init.len() && r[i].0 == key_date(init[j]);
                assert(ks[j] == init[j]);
            } else {
                assert(all[i] == dm[i - r.len()]);
                assert(ks[ks.len() - 1] == last);
            }
        }
        assert forall|i: int, i2: int| 0 <= i < i2 < all.len() implies {
            let x = (#[trigger] all[i]).0;
            let y = (#[trigger] all[i2]).0;
            x == y || date_before(x, y)
        } by {
            if i2 < r.len() {
                assert(all[i] == r[i]);
                assert(all[i2] == r[i2]);
            } else if i >= r.len() {
                assert(all[i] == dm[i - r.len()]);
                assert(all[i2] == dm[i2 - r.len()]);
            } else {
                assert(all[i] == r[i]);
                assert(all[i2] == dm[i2 - r.len()]);
                let j = choose|j: int| 0 <= j < init.len() && r[i].0 == key_date(init[j]);
                assert(ks[j] == init[j]);
                assert(ks[j] < last);
                assert(is_date_key(ks[j]));
                assert(is_date_key(last)) by {
                    assert(ks[ks.len() - 1] == last);
                }
                lemma_key_order(key_date(ks[j]), key_date(last));
            }
        }
        assert forall|i: int| 0 <= i < all.len() implies event_matches((#[trigger] all[i]).1, query) by {
            if i < r.len() {
                assert(all[i] == r[i]);
            } else {
                assert(all[i] == dm[i - r.len()]);
            }
        }
    }
}

/// Search results come in calendar order, and each of them matches the query.
pub proof fn law_search_results_in_calendar_order(
    events: Map<u64, Vec<String>>,
    query: Seq<char>,
    r: Seq<(Date, Seq<char>)>,
)
    requires
        forall|k: u64| #[trigger] events.contains_key(k) ==> is_date_key(k),
        search_found(events, query, r),
    ensures
        forall|i: int, j: int| 0 <= i < j < r.len() ==> (#[trigger] r[i]).0 == (#[trigger] r[j]).0 || date_before(r[i].0, r[j].0),
        forall|i: int| 0 <= i < r.len() ==> event_matches((#[trigger] r[i]).1, query),
{
    if query.len() > 0 {
        let ks = choose|ks: Seq<u64>| lists_keys_in_order(ks, events) && r == matches_in_days(ks, events, query);
        assert forall|i: int| 0 <= i < ks.len() implies is_date_key(#[trigger] ks[i]) by {
            assert(ks.contains(ks[i]));
        }
        lemma_matches_in_days_order(ks, events, query);
    }
}

/// Every change that a key makes to the events is saved: when handling a key
/// changes the event map, the main loop is told to save.
pub proof fn law_event_changes_are_saved(a: App, key: KeyInput, b: App, act: Action)
    requires
        key_step(a, key, b, act),
        b.events@ != a.events@,
    ensures
        act == Action::SaveEvents,
{
}

/// Only the quit keys of normal mode (`q` and Esc) end the program.
pub proof fn law_quit_only_from_normal_mode(a: App, key: KeyInput, b: App, act: Action)
    requires
        key_step(a, key, b, act),
        act == Action::Quit,
    ensures
        a.input_mode == InputMode::Normal,
        key == KeyInput::Char('q') || key == KeyInput::Esc,
{
}

/// The texts of day `d` in an event map (as texts); none without an entry.
pub open spec fn day_texts(m: Map<u64, Seq<Seq<char>>>, d: Date) -> Seq<Seq<char>> {
    if m.contains_key(key_of(d) as u64) {
        m[key_of(d) as u64]
    } else {
        Seq::empty()
    }
}

/// The second fields of the CSV records that name day `d`, in record order.
pub open spec fn csv_texts_for(records: Seq<Seq<Seq<char>>>, d: Date) -> Seq<Seq<char>>
    decreases records.len(),
{
    if records.len() == 0 {
        Seq::empty()
    } else {
        let r = records.last();
        let prev = csv_texts_for(records.drop_last(), d);
        if csv_record_date(r) == Some(d) {
            prev.push(r[1])
        } else {
            prev
        }
    }
}

/// The number of CSV records that name a day.
pub open spec fn csv_dated_records(records: Seq<Seq<Seq<char>>>) -> nat
    decreases records.len(),
{
    if records.len() == 0 {
        0
    } else {
        csv_dated_records(records.drop_last()) + if csv_record_date(records.last()) is Some { 1nat } else { 0nat }
    }
}

/// Appending a text to one day leaves every other day's texts alone.
proof fn lemma_with_event_day(m: Map<u64, Seq<Seq<char>>>, e: Date, t: Seq<char>, d: Date)
    requires
        e.valid(),
        d.valid(),
    ensures
        day_texts(with_event(m, e, t), d) == if d == e { day_texts(m, d).push(t) } else { day_texts(m, d) },
{
    lemma_key_order(d, e);
    lemma_key_round_trip(d);
    lemma_key_round_trip(e);
}

/// A CSV import appends to each day exactly the texts of the records that
/// name it, in record order, and counts the records that name a day.
pub proof fn law_csv_import_per_day(m: Map<u64, Seq<Seq<char>>>, records: Seq<Seq<Seq<char>>>, d: Date)
    requires
        d.valid(),
    ensures
        day_texts(csv_import(m, records).0, d) == day_texts(m, d) + csv_texts_for(records, d),
        csv_import(m, records).1 == csv_dated_records(records),
    decreases records.len(),
{
    if records.len() == 0 {
        assert(day_texts(m, d) + Seq::<Seq<char>>::empty() =~= day_texts(m, d));
    } else {
        let init = records.drop_last();
        law_csv_import_per_day(m, init, d);
        let prev = csv_import(m, init);
        let r = records.last();
        match csv_record_date(r) {
            Some(e) => {
                lemma_with_event_day(prev.0, e, r[1], d);
                if d == e {
                    assert(day_texts(m, d) + csv_texts_for(init, d).push(r[1]) =~= (day_texts(m, d) + csv_texts_for(init, d)).push(r[1]));
                }
            },
            None => {},
        }
    }
}

/// The summaries of the calendar events that start on day `d`, in calendar order.
pub open spec fn ics_texts_for(evs: Seq<(bool, Option<Seq<char>>, Option<(i32, u32, u32)>)>, d: Date) -> Seq<Seq<char>>
    decreases evs.len(),
{
    if evs.len() == 0 {
        Seq::empty()
    } else {
        let prev = ics_texts_for(evs.drop_last(), d);
        if ics_event_date(evs.last()) == Some(d) {
            prev.push(ics_event_text(evs.last()))
        } else {
            prev
        }
    }
}

/// The number of calendar events that have a start day.
pub open spec fn ics_dated_events(evs: Seq<(bool, Option<Seq<char>>, Option<(i32, u32, u32)>)>) -> nat
    decreases evs.len(),
{
    if evs.len() == 0 {
        0
    } else {
        ics_dated_events(evs.drop_last()) + if ics_event_date(evs.last()) is Some { 1nat } else { 0nat }
    }
}

/// An iCalendar import appends to each day exactly the summaries of the events
/// that start on it, in calendar order, and counts the events with a start day.
pub proof fn law_ics_import_per_day(
    m: Map<u64, Seq<Seq<char>>>,
    evs: Seq<(bool, Option<Seq<char>>, Option<(i32, u32, u32)>)>,
    d: Date,
)
    requires
        d.valid(),
    ensures
        day_texts(ics_import(m, evs).0, d) == day_texts(m, d) + ics_texts_for(evs, d),
        ics_import(m, evs).1 == ics_dated_events(evs),
    decreases evs.len(),
{
    if evs.len() == 0 {
        assert(day_texts(m, d) + Seq::<Seq<char>>::empty() =~= day_texts(m, d));
    } else {
        let init = evs.drop_last();
        law_ics_import_per_day(m, init, d);
        let prev = ics_import(m, init);
        let e = evs.last();
        match ics_event_date(e) {
            Some(x) => {
                lemma_with_event_day(prev.0, x, ics_event_text(e), d);
                if d == x {
                    assert(day_texts(m, d) + ics_texts_for(init, d).push(ics_event_text(e)) =~= (day_texts(m, d)
                        + ics_texts_for(init, d)).push(ics_event_text(e)));
                }
            },
            None => {},
        }
    }
}

/// The selection after `n` moves down a list of `len` rows, from row `i`.
pub open spec fn moved_down_times(i: usize, len: int, n: nat) -> usize
    decreases n,
{
    if n == 0 {
        i
    } else {
        next_index(Some(moved_down_times(i, len, (n - 1) as nat)), len)
    }
}

/// After `n` moves down from row `i`, the selection is on row `(i + n) mod len`.
proof fn lemma_moved_down_times(i: usize, len: int, n: nat)
    requires
        i < len <= usize::MAX,
    ensures
        moved_down_times(i, len, n) == (i + n) % len,
    decreases n,
{
    if n == 0 {
        vstd::arithmetic::div_mod::lemma_small_mod(i as nat, len as nat);
    } else {
        lemma_moved_down_times(i, len, (n - 1) as nat);
        let p = (i + n - 1) % len;
        let q = (i + n - 1) / len;
        vstd::arithmetic::div_mod::lemma_fundamental_div_mod(i + n - 1, len);
        assert(0 <= p < len);
        if p == len - 1 {
            assert(i + n == (q + 1) * len) by (nonlinear_arith)
                requires
                    i + n - 1 == len * q + p,
                    p == len - 1,
            ;
            vstd::arithmetic::div_mod::lemma_mod_multiples_basic(q + 1, len);
        } else {
            assert(i + n == q * len + (p + 1)) by (nonlinear_arith)
                requires
                    i + n - 1 == len * q + p,
            ;
            vstd::arithmetic::div_mod::lemma_fundamental_div_mod_converse(i + n, len, q, p + 1);
        }
    }
}

/// Moving down a list wraps around: after `n` moves from row `i` the
/// selection is on row `(i + n) mod len`, so `len` moves come back to `i`.
pub proof fn law_selection_wraps_around(i: usize, len: int, n: nat)
    requires
        i < len <= usize::MAX,
    ensures
        moved_down_times(i, len, n) == (i + n) % len,
        moved_down_times(i, len, len as nat) == i,
{
    lemma_moved_down_times(i, len, n);
    lemma_moved_down_times(i, len, len as nat);
    vstd::arithmetic::div_mod::lemma_mod_multiples_vanish(1, i as int, len);
    vstd::arithmetic::div_mod::lemma_small_mod(i as nat, len as nat);
}

/// The menu is never more than one level deep: a key keeps the depth at most 1.
pub proof fn law_menu_depth_stays_at_most_one(a: App, key: KeyInput, b: App, act: Action)
    requires
        key_step(a, key, b, act),
        a.menu_depth <= 1,
    ensures
        b.menu_depth <= 1,
{
}

/// A key changes at most the events of the selected day: every other day's
/// list stays as it was.
pub proof fn law_keys_touch_only_the_selected_day(a: App, key: KeyInput, b: App, act: Action, d: Date)
    requires
        a.wf(),
        key_step(a, key, b, act),
        d.valid(),
        d != a.selected_date,
    ensures
        day_list(b.events@, d) == day_list(a.events@, d),
{
    let k = key_of(a.selected_date) as u64;
    let kd = key_of(d) as u64;
    lemma_key_round_trip(d);
    lemma_key_round_trip(a.selected_date);
    lemma_key_order(d, a.selected_date);
    assert(kd != k);
    assert(b.events@.remove(k) == a.events@.remove(k));
    assert(b.events@.remove(k).contains_key(kd) == b.events@.contains_key(kd));
    assert(a.events@.remove(k).contains_key(kd) == a.events@.contains_key(kd));
    if a.events@.contains_key(kd) {
        assert(b.events@.remove(k)[kd] == b.events@[kd]);
        assert(a.events@.remove(k)[kd] == a.events@[kd]);
    }
}

/// Removing mode is only ever on a day that has an entry in the event map.
pub open spec fn removing_on_a_day_with_events(a: App) -> bool {
    a.input_mode == InputMode::Removing ==> a.events@.contains_key(key_of(a.selected_date) as u64)
}

/// Every key keeps removing mode on a day with events: `r` enters it only on
/// such a day, and a deletion that empties the day goes back to normal mode.
pub proof fn law_removing_only_on_days_with_events(a: App, key: KeyInput, b: App, act: Action)
    requires
        key_step(a, key, b, act),
        removing_on_a_day_with_events(a),
    ensures
        removing_on_a_day_with_events(b),
{
}

/// Every key clears the status line before it acts.
pub proof fn law_key_clears_status(a: App, key: KeyInput, b: App, act: Action)
    requires
        key_step(a, key, b, act),
    ensures
        b.status_message@ == Seq::<char>::empty(),
{
}

/// The search results that match the (lower-case) query `q`.
pub open spec fn matches_query(q: Seq<char>) -> spec_fn((Date, Seq<char>)) -> bool {
    |r: (Date, Seq<char>)| event_matches(r.1, q)
}

/// A text that contains `q + s` contains `q`.
proof fn lemma_longer_needle(hay: Seq<char>, q: Seq<char>, s: Seq<char>)
    requires
        has_substring(hay, q + s),
    ensures
        has_substring(hay, q),
{
    let n = q + s;
    let i = choose|i: int| 0 <= i && i + n.len() <= hay.len() && #[trigger] hay.subrange(i, i + n.len()) == n;
    assert forall|j: int| 0 <= j < q.len() implies #[trigger] hay.subrange(i, i + q.len())[j] == q[j] by {
        assert(hay.subrange(i, i + n.len())[j] == n[j]);
    }
    assert(hay.subrange(i, i + q.len()) =~= q);
}

/// Filtering a sequence with one more element at the end.
proof fn lemma_filter_push(v: Seq<(Date, Seq<char>)>, x: (Date, Seq<char>), p: spec_fn((Date, Seq<char>)) -> bool)
    ensures
        v.push(x).filter(p) == (if p(x) { v.filter(p).push(x) } else { v.filter(p) }),
{
    reveal_with_fuel(Seq::filter, 1);
    assert(v.push(x).drop_last() =~= v);
}

/// When every match of `q2` is a match of `q1`, a day's matches of `q2` are
/// its matches of `q1` that match `q2`.
proof fn lemma_day_matches_narrow(d: Date, list: Seq<String>, q1: Seq<char>, q2: Seq<char>)
    requires
        forall|e: Seq<char>| #[trigger] event_matches(e, q2) ==> event_matches(e, q1),
    ensures
        day_matches(d, list, q2) == day_matches(d, list, q1).filter(matches_query(q2)),
    decreases list.len(),
{
    reveal_with_fuel(Seq::filter, 1);
    if list.len() > 0 {
        lemma_day_matches_narrow(d, list.drop_last(), q1, q2);
        let rest = day_matches(d, list.drop_last(), q1);
        lemma_filter_push(rest, (d, list.last()@), matches_query(q2));
        assert(matches_query(q2)((d, list.last()@)) == event_matches(list.last()@, q2));
    }
}

/// The same, over the days with keys `ks`.
proof fn lemma_matches_in_days_narrow(ks: Seq<u64>, events: Map<u64, Vec<String>>, q1: Seq<char>, q2: Seq<char>)
    requires
        forall|e: Seq<char>| #[trigger] event_matches(e, q2) ==> event_matches(e, q1),
    ensures
        matches_in_days(ks, events, q2) == matches_in_days(ks, events, q1).filter(matches_query(q2)),
    decreases ks.len(),
{
    reveal_with_fuel(Seq::filter, 1);
    if ks.len() > 0 {
        lemma_matches_in_days_narrow(ks.drop_last(), events, q1, q2);
        let k = ks.last();
        lemma_day_matches_narrow(key_date(k), events[k]@, q1, q2);
        Seq::filter_distributes_over_add(
            matches_in_days(ks.drop_last(), events, q1),
            day_matches(key_date(k), events[k]@, q1),
            matches_query(q2),
        );
    }
}

/// Typing more of a query never adds a search result: once the query is not
/// empty, the results for the query with `s` appended are the results for
/// the query that still match, in the same order. (Stated for ASCII queries,
/// whose lower case is the query's characters lowered one by one.)
pub proof fn law_longer_query_keeps_only_matches(
    events: Map<u64, Vec<String>>,
    q: Seq<char>,
    s: Seq<char>,
    r1: Seq<(Date, Seq<char>)>,
    r2: Seq<(Date, Seq<char>)>,
)
    requires
        q.len() > 0,
        is_ascii_text(q),
        is_ascii_text(s),
        search_found(events, query_key(q), r1),
        search_found(events, query_key(q + s), r2),
    ensures
        r2 == r1.filter(matches_query(query_key(q + s))),
{
    let q1 = query_key(q);
    assert(is_ascii_text(q + s)) by {
        assert forall|i: int| 0 <= i < (q + s).len() implies ((q + s)[i] as u32) < 128 by {
            if i < q.len() {
                assert((q + s)[i] == q[i]);
            } else {
                assert((q + s)[i] == s[i - q.len()]);
            }
        }
    }
    let q2 = query_key(q + s);
    assert(q2 =~= q1 + ascii_lowercase(s));
    assert forall|e: Seq<char>| #[trigger] event_matches(e, q2) implies event_matches(e, q1) by {
        lemma_longer_needle(crate::text::lowercase(e), q1, ascii_lowercase(s));
    }
    assert(q1.len() > 0);
    assert(q2.len() > 0);
    let ks1 = choose|ks: Seq<u64>| lists_keys_in_order(ks, events) && r1 == matches_in_days(ks, events, q1);
    let ks2 = choose|ks: Seq<u64>| lists_keys_in_order(ks, events) && r2 == matches_in_days(ks, events, q2);
    lemma_keys_in_order_unique(ks1, ks2, events);
    lemma_matches_in_days_narrow(ks1, events, q1, q2);
}

/// Saving the events and loading the saved text gives the same events back:
/// the same days, each with the same list in the same order.
pub proof fn law_saved_events_load_back(
    events: Map<u64, Vec<String>>,
    ks: Seq<u64>,
    text: Seq<char>,
    loaded: Map<u64, Vec<String>>,
)
    requires
        lists_keys_in_order(ks, events),
        forall|k: u64| #[trigger] events.contains_key(k) ==> is_date_key(k),
        json_entries_of(text) == Some(entries_of_map(ks, events)),
        json_entries_of(text) matches Some(es) ==> loaded_entries(es, loaded),
    ensures
        events_view(loaded) == events_view(events),
{
    let es = entries_of_map(ks, events);
    assert(loaded_entries(es, loaded));
    let v = choose|v: Seq<(Date, Vec<String>)>| #[trigger] map_of_entries(v, loaded) && v.map_values(
        |e: (Date, Vec<String>)| entry_view(e),
    ) == es;
    assert(v.len() == ks.len()) by {
        assert(v.map_values(|e: (Date, Vec<String>)| entry_view(e)).len() == es.len());
    }
    assert forall|i: int| 0 <= i < v.len() implies #[trigger] key_of(v[i].0) == ks[i] && texts(v[i].1@) == texts(
        events[ks[i]]@,
    ) by {
        assert(v.map_values(|e: (Date, Vec<String>)| entry_view(e))[i] == es[i]);
        assert(ks.contains(ks[i]));
        assert(is_date_key(ks[i]));
        assert(v[i].0 == key_date(ks[i]));
    }
    assert forall|k: u64| loaded.contains_key(k) <==> events.contains_key(k) by {
        if loaded.contains_key(k) {
            let i = choose|i: int| 0 <= i < v.len() && key_of(v[i].0) == k;
            assert(ks[i] == k);
            assert(ks.contains(k));
        }
        if events.contains_key(k) {
            assert(ks.contains(k));
            let i = choose|i: int| 0 <= i < ks.len() && ks[i] == k;
            assert(key_of(v[i].0) == k);
            assert(loaded.contains_key(key_of(v[i].0) as u64));
        }
    }
    assert forall|k: u64| #[trigger] loaded.contains_key(k) implies texts(loaded[k]@) == texts(events[k]@) by {
        let i = choose|i: int| 0 <= i < v.len() && key_of(v[i].0) == k;
        assert(loaded.contains_key(key_of(v[i].0) as u64));
        assert(loaded[key_of(v[i].0) as u64] == v[i].1);
    }
    assert(events_view(loaded) =~= events_view(events));
}

/// Importing two runs of calendar events one after the other is importing
/// the first, then the second into the result.
proof fn lemma_ics_import_append(
    m: Map<u64, Seq<Seq<char>>>,
    a: Seq<(bool, Option<Seq<char>>, Option<(i32, u32, u32)>)>,
    b: Seq<(bool, Option<Seq<char>>, Option<(i32, u32, u32)>)>,
)
    ensures
        ics_import(m, a + b) == (
            ics_import(ics_import(m, a).0, b).0,
            ics_import(m, a).1 + ics_import(ics_import(m, a).0, b).1,
        ),
    decreases b.len(),
{
    if b.len() == 0 {
        assert(a + b =~= a);
    } else {
        lemma_ics_import_append(m, a, b.drop_last());
        assert((a + b).drop_last() =~= a + b.drop_last());
        assert((a + b).last() == b.last());
    }
}

/// Importing the exported events of one day `d` that is not yet in the map
/// gives the day its list and counts every event.
proof fn lemma_ics_import_day(m: Map<u64, Seq<Seq<char>>>, d: Date, list: Seq<String>)
    requires
        d.valid(),
        !m.contains_key(key_of(d) as u64),
    ensures
        ics_import(m, ics_read_view(list.map_values(|s: String| (s@, d.ymd())))) == (
            if list.len() > 0 { m.insert(key_of(d) as u64, texts(list)) } else { m },
            list.len(),
        ),
    decreases list.len(),
{
    let evs = ics_read_view(list.map_values(|s: String| (s@, d.ymd())));
    if list.len() == 0 {
        assert(evs.len() == 0);
    } else {
        let pre = list.drop_last();
        lemma_ics_import_day(m, d, pre);
        assert(evs.drop_last() =~= ics_read_view(pre.map_values(|s: String| (s@, d.ymd()))));
        assert(evs.last() == (true, Some(list.last()@), Some(d.ymd())));
        let k = key_of(d) as u64;
        if pre.len() == 0 {
            assert(texts(list) =~= seq![list.last()@]);
            assert(m.insert(k, seq![list.last()@]) =~= with_event(m, d, list.last()@));
        } else {
            assert(texts(list) =~= texts(pre).push(list.last()@));
            assert(m.insert(k, texts(list)) =~= with_event(m.insert(k, texts(pre)), d, list.last()@));
        }
    }
}

/// The entries of the days `ks`, read back and imported into an empty map.
proof fn lemma_ics_import_export(ks: Seq<u64>, events: Map<u64, Vec<String>>)
    requires
        strictly_increasing(ks),
        forall|i: int| 0 <= i < ks.len() ==> events.contains_key(#[trigger] ks[i]) && is_date_key(ks[i]),
    ensures
        ics_import(Map::empty(), ics_read_view(ics_entries_of(ks, events))) == (
            Map::new(|k: u64| ks.contains(k) && events[k]@.len() > 0, |k: u64| texts(events[k]@)),
            ics_entries_of(ks, events).len(),
        ),
    decreases ks.len(),
{
    if ks.len() == 0 {
        assert(ics_read_view(ics_entries_of(ks, events)).len() == 0);
        assert(Map::new(|k: u64| ks.contains(k) && events[k]@.len() > 0, |k: u64| texts(events[k]@))
            =~= Map::<u64, Seq<Seq<char>>>::empty());
    } else {
        let pre = ks.drop_last();
        let k = ks.last();
        assert(forall|i: int| 0 <= i < pre.len() ==> pre[i] == ks[i]);
        lemma_ics_import_export(pre, events);
        assert(is_date_key(ks[ks.len() - 1]));
        let d = key_date(k);
        let list = events[k]@;
        let day = list.map_values(|s: String| (s@, d.ymd()));
        assert(ics_entries_of(ks, events) == ics_entries_of(pre, events) + day);
        assert(ics_read_view(ics_entries_of(ks, events)) =~= ics_read_view(ics_entries_of(pre, events)) + ics_read_view(day));
        lemma_ics_import_append(Map::empty(), ics_read_view(ics_entries_of(pre, events)), ics_read_view(day));
        let before = Map::new(|x: u64| pre.contains(x) && events[x]@.len() > 0, |x: u64| texts(events[x]@));
        assert(!pre.contains(k)) by {
            if pre.contains(k) {
                let i = choose|i: int| 0 <= i < pre.len() && pre[i] == k;
                assert(ks[i] < ks[ks.len() - 1]);
            }
        }
        assert(!before.contains_key(key_of(d) as u64));
        lemma_ics_import_day(before, d, list);
        assert forall|x: u64| ks.contains(x) <==> (pre.contains(x) || x == k) by {
            if ks.contains(x) {
                let i = choose|i: int| 0 <= i < ks.len() && ks[i] == x;
                if i < ks.len() - 1 {
                    assert(pre[i] == x);
                }
            }
            if pre.contains(x) {
                let i = choose|i: int| 0 <= i < pre.len() && pre[i] == x;
                assert(ks[i] == x);
            }
            if x == k {
                assert(ks[ks.len() - 1] == x);
            }
        }
        let after = Map::new(|x: u64| ks.contains(x) && events[x]@.len() > 0, |x: u64| texts(events[x]@));
        if list.len() > 0 {
            assert(before.insert(k, texts(list)) =~= after);
        } else {
            assert(before =~= after);
        }
    }
}

/// Reading the iCalendar export back gives the events: importing, into an
/// empty calendar, the events that a written calendar of the export's entries
/// reads back as gives every day that has events its list, in order, and
/// counts every event. (`ics_text` writes such a calendar, and
/// `import_ics_text` reads it back as these events when the summaries are
/// printable ASCII and the years lie in 0..=9999.)
pub proof fn law_ics_export_reads_back(events: Map<u64, Vec<String>>, ks: Seq<u64>)
    requires
        lists_keys_in_order(ks, events),
        forall|k: u64| #[trigger] events.contains_key(k) ==> is_date_key(k),
    ensures
        ics_import(Map::empty(), ics_read_view(ics_entries_of(ks, events))) == (
            nonempty_days(events_view(events)),
            ics_entries_of(ks, events).len(),
        ),
{
    assert forall|i: int| 0 <= i < ks.len() implies events.contains_key(#[trigger] ks[i]) && is_date_key(ks[i]) by {
        assert(ks.contains(ks[i]));
    }
    lemma_ics_import_export(ks, events);
    assert(Map::new(|k: u64| ks.contains(k) && events[k]@.len() > 0, |k: u64| texts(events[k]@))
        =~= nonempty_days(events_view(events)));
}

/// A day's matches hold each matching event of its list.
proof fn lemma_day_matches_has(d: Date, list: Seq<String>, query: Seq<char>, j: int)
    requires
        0 <= j < list.len(),
        has_substring(crate::text::lowercase(list[j]@), query),
    ensures
        day_matches(d, list, query).contains((d, list[j]@)),
    decreases list.len(),
{
    let rest = day_matches(d, list.drop_last(), query);
    if j == list.len() - 1 {
        assert(day_matches(d, list, query) == rest.push((d, list.last()@)));
        assert(day_matches(d, list, query)[rest.len() as int] == (d, list[j]@));
    } else {
        assert(list.drop_last()[j] == list[j]);
        lemma_day_matches_has(d, list.drop_last(), query, j);
        let w = choose|w: int| 0 <= w < rest.len() && rest[w] == (d, list[j]@);
        if event_matches(list.last()@, query) {
            assert(day_matches(d, list, query)[w] == rest[w]);
        } else {
            assert(day_matches(d, list, query)[w] == rest[w]);
        }
    }
}

/// The matches over the days `ks` hold each matching event of each of those days.
proof fn lemma_matches_in_days_has(ks: Seq<u64>, events: Map<u64, Vec<String>>, query: Seq<char>, k: u64, j: int)
    requires
        ks.contains(k),
        0 <= j < events[k]@.len(),
        has_substring(crate::text::lowercase(events[k]@[j]@), query),
    ensures
        matches_in_days(ks, events, query).contains((key_date(k), events[k]@[j]@)),
    decreases ks.len(),
{
    let pre = matches_in_days(ks.drop_last(), events, query);
    let day = day_matches(key_date(ks.last()), events[ks.last()]@, query);
    assert(matches_in_days(ks, events, query) == pre + day);
    if ks.last() == k {
        lemma_day_matches_has(key_date(k), events[k]@, query, j);
        let w = choose|w: int| 0 <= w < day.len() && day[w] == (key_date(k), events[k]@[j]@);
        assert((pre + day)[pre.len() + w] == day[w]);
    } else {
        let i = choose|i: int| 0 <= i < ks.len() && ks[i] == k;
        assert(ks.drop_last()[i] == k);
        lemma_matches_in_days_has(ks.drop_last(), events, query, k, j);
        let w = choose|w: int| 0 <= w < pre.len() && pre[w] == (key_date(k), events[k]@[j]@);
        assert((pre + day)[w] == pre[w]);
    }
}

/// A search finds every matching event: after the results were recomputed for
/// a non-empty query, each event of each day whose lower-case text contains
/// the lower-case query is among the results, with its day.
pub proof fn law_search_finds_every_match(a: App, b: App, k: u64, j: int)
    requires
        searched(a, b),
        query_key(a.search_query@).len() > 0,
        a.events@.contains_key(k),
        0 <= j < a.events@[k]@.len(),
        has_substring(crate::text::lowercase(a.events@[k]@[j]@), query_key(a.search_query@)),
    ensures
        exists|i: int| {
            &&& 0 <= i < b.search_results@.len()
            &&& (#[trigger] b.search_results@[i]).0 == key_date(k)
            &&& b.search_results@[i].1@ == a.events@[k]@[j]@
        },
{
    let q = query_key(a.search_query@);
    let ks = choose|ks: Seq<u64>| lists_keys_in_order(ks, a.events@) && results_view(b.search_results@) == matches_in_days(ks, a.events@, q);
    lemma_matches_in_days_has(ks, a.events@, q, k, j);
    let rs = results_view(b.search_results@);
    let w = choose|w: int| 0 <= w < rs.len() && rs[w] == (key_date(k), a.events@[k]@[j]@);
    assert(b.search_results@[w].0 == key_date(k));
}

/// The four sub-menu rows run four different commands: in the export menu
/// row 0 exports CSV and row 1 iCalendar, in the import menu row 0 imports
/// CSV and row 1 iCalendar.
pub proof fn law_menu_rows_name_their_commands(a: App, b: App, cmd: MenuCommand)
    requires
        menu_executed(a, b, cmd),
        a.menu_depth == 1,
    ensures
        a.menu_parent_index == 0 && a.menu_selection == Some(0usize) ==> cmd == MenuCommand::ExportCsv,
        a.menu_parent_index == 0 && a.menu_selection == Some(1usize) ==> cmd == MenuCommand::ExportIcs,
        a.menu_parent_index == 1 && a.menu_selection == Some(0usize) ==> cmd == MenuCommand::ImportCsv,
        a.menu_parent_index == 1 && a.menu_selection == Some(1usize) ==> cmd == MenuCommand::ImportIcs,
{
}

/// A sub-menu row does what its label in the pop-up says: "CSV File" under
/// " Export Menu " exports CSV, and so on for the four rows.
pub proof fn law_menu_labels_match_commands(a: App, b: App, cmd: MenuCommand, v: MenuView, i: usize)
    requires
        menu_executed(a, b, cmd),
        menu_shows(a, v),
        a.menu_depth == 1,
        a.menu_parent_index <= 1,
        a.menu_selection == Some(i),
        i < 2,
    ensures
        v.title@ == " Export Menu "@ && v.items@[i as int]@ == "CSV File"@ ==> cmd == MenuCommand::ExportCsv,
        v.title@ == " Export Menu "@ && v.items@[i as int]@ == "iCalendar (.ics)"@ ==> cmd == MenuCommand::ExportIcs,
        v.title@ == " Import Menu "@ && v.items@[i as int]@ == "CSV File"@ ==> cmd == MenuCommand::ImportCsv,
        v.title@ == " Import Menu "@ && v.items@[i as int]@ == "iCalendar (.ics)"@ ==> cmd == MenuCommand::ImportIcs,
{
    reveal_strlit(" Export Menu ");
    reveal_strlit(" Import Menu ");
    reveal_strlit("CSV File");
    reveal_strlit("iCalendar (.ics)");
    assert(" Export Menu "@[1] != " Import Menu "@[1]);
    assert("CSV File"@[0] != "iCalendar (.ics)"@[0]);
    let items = v.items@.map_values(|s: String| s@);
    assert(items.len() == 2);
    assert(v.items@.len() == 2);
    assert(items[i as int] == v.items@[i as int]@);
}

/// Enter in a sub-menu hands the main loop the command of the selected row.
pub proof fn law_menu_enter_runs_the_row(a: App, b: App, act: Action)
    requires
        key_step(a, KeyInput::Enter, b, act),
        a.input_mode == InputMode::Menu,
        a.menu_depth == 1,
    ensures
        a.menu_parent_index == 0 && a.menu_selection == Some(0usize) ==> act == Action::RunMenuCommand(MenuCommand::ExportCsv),
        a.menu_parent_index == 0 && a.menu_selection == Some(1usize) ==> act == Action::RunMenuCommand(MenuCommand::ExportIcs),
        a.menu_parent_index == 1 && a.menu_selection == Some(0usize) ==> act == Action::RunMenuCommand(MenuCommand::ImportCsv),
        a.menu_parent_index == 1 && a.menu_selection == Some(1usize) ==> act == Action::RunMenuCommand(MenuCommand::ImportIcs),
{
}

/// In remove mode the arrow keys move the event selection by one row: Up
/// (or `k`) to the row above, from the first to the last; Down (or `j`) to
/// the row below, from the last to the first.
pub proof fn law_remove_mode_arrows(a: App, key: KeyInput, b: App, act: Action, i: usize)
    requires
        key_step(a, key, b, act),
        a.input_mode == InputMode::Removing,
        a.event_selection == Some(i),
        i < a.selected_list().len(),
    ensures
        key == KeyInput::Up || key == KeyInput::Char('k') ==> b.event_selection == Some(
            (if i == 0 { a.selected_list().len() - 1 } else { i - 1 }) as usize,
        ),
        key == KeyInput::Down || key == KeyInput::Char('j') ==> b.event_selection == Some(
            (if i + 1 == a.selected_list().len() { 0 } else { i + 1 }) as usize,
        ),
        key == KeyInput::Up || key == KeyInput::Char('k') || key == KeyInput::Down || key == KeyInput::Char('j') ==> {
            &&& b.events@ == a.events@
            &&& b.selected_date == a.selected_date
            &&& b.input_mode == InputMode::Removing
        },
{
}

/// In remove mode Down then Up, or Up then Down, puts the selection back on its row.
pub proof fn law_remove_mode_down_up(
    a: App,
    k1: KeyInput,
    b: App,
    act1: Action,
    k2: KeyInput,
    c: App,
    act2: Action,
    i: usize,
)
    requires
        key_step(a, k1, b, act1),
        key_step(b, k2, c, act2),
        a.input_mode == InputMode::Removing,
        a.event_selection == Some(i),
        i < a.selected_list().len(),
        (k1 == KeyInput::Down && k2 == KeyInput::Up) || (k1 == KeyInput::Up && k2 == KeyInput::Down),
    ensures
        c.event_selection == a.event_selection,
{
    let k = key_of(a.selected_date) as u64;
    assert(a.events@.contains_key(k));
    assert(a.events@[k].len() == a.selected_list().len());
    law_remove_mode_arrows(a, k1, b, act1, i);
    let j = b.event_selection.unwrap();
    assert(b.selected_list() == a.selected_list());
    law_remove_mode_arrows(b, k2, c, act2, j);
}

/// The month and year keys of normal mode can be handled exactly when the
/// month or day they step to can be represented: `p` when the month before the
/// one on display exists, `n` when the month after it does, `P` and `N` when
/// the displayed month a year away exists and the cursor's year a year away
/// lies in range (its 28th of the month exists). Every other key can be handled.
pub proof fn law_month_keys_safe_exactly_when_representable(a: App, key: KeyInput)
    requires
        a.wf(),
        a.input_mode == InputMode::Normal,
    ensures
        key == KeyInput::Char('p') ==> (key_is_safe_spec(a, key) <==> (if a.current_month.month == 1 {
            is_valid_ymd(a.current_month.year - 1, 12, 1)
        } else {
            is_valid_ymd(a.current_month.year as int, a.current_month.month - 1, 1)
        })),
        key == KeyInput::Char('n') ==> (key_is_safe_spec(a, key) <==> (if a.current_month.month == 12 {
            is_valid_ymd(a.current_month.year + 1, 1, 1)
        } else {
            is_valid_ymd(a.current_month.year as int, a.current_month.month + 1, 1)
        })),
        key == KeyInput::Char('N') ==> (key_is_safe_spec(a, key) <==> (
            is_valid_ymd(a.current_month.year + 1, a.current_month.month as int, 1)
            && is_valid_ymd(a.selected_date.year + 1, a.selected_date.month as int, 28))),
        key == KeyInput::Char('P') ==> (key_is_safe_spec(a, key) <==> (
            is_valid_ymd(a.current_month.year - 1, a.current_month.month as int, 1)
            && is_valid_ymd(a.selected_date.year - 1, a.selected_date.month as int, 28))),
        key != KeyInput::Char('p') && key != KeyInput::Char('n') && key != KeyInput::Char('N') && key != KeyInput::Char('P')
            ==> key_is_safe_spec(a, key),
{
}

/// Outside normal mode every key can be handled.
pub proof fn law_other_modes_handle_every_key(a: App, key: KeyInput)
    requires
        a.input_mode != InputMode::Normal,
    ensures
        key_is_safe_spec(a, key),
{
}

/// Each of a day's matches is an event of its list, with that day.
proof fn lemma_day_matches_from_list(d: Date, list: Seq<String>, query: Seq<char>, w: int)
    requires
        0 <= w < day_matches(d, list, query).len(),
    ensures
        day_matches(d, list, query)[w].0 == d,
        exists|j: int| 0 <= j < list.len() && #[trigger] list[j]@ == day_matches(d, list, query)[w].1,
    decreases list.len(),
{
    let rest = day_matches(d, list.drop_last(), query);
    if w < rest.len() {
        lemma_day_matches_from_list(d, list.drop_last(), query, w);
        assert(day_matches(d, list, query)[w] == rest[w]);
        let j = choose|j: int| 0 <= j < list.drop_last().len() && #[trigger] list.drop_last()[j]@ == rest[w].1;
        assert(list[j] == list.drop_last()[j]);
    } else {
        assert(list[list.len() - 1]@ == day_matches(d, list, query)[w].1);
    }
}

/// Each match over the days `ks` is an event of one of those days, with that day.
proof fn lemma_matches_in_days_from_days(ks: Seq<u64>, events: Map<u64, Vec<String>>, query: Seq<char>, w: int)
    requires
        0 <= w < matches_in_days(ks, events, query).len(),
    ensures
        exists|i: int, j: int| {
            &&& 0 <= i < ks.len()
            &&& 0 <= j < events[ks[i]]@.len()
            &&& matches_in_days(ks, events, query)[w] == (key_date(#[trigger] ks[i]), #[trigger] events[ks[i]]@[j]@)
        },
    decreases ks.len(),
{
    let pre = matches_in_days(ks.drop_last(), events, query);
    let day = day_matches(key_date(ks.last()), events[ks.last()]@, query);
    assert(matches_in_days(ks, events, query) == pre + day);
    if w < pre.len() {
        lemma_matches_in_days_from_days(ks.drop_last(), events, query, w);
        let (i, j) = choose|i: int, j: int| {
            &&& 0 <= i < ks.drop_last().len()
            &&& 0 <= j < events[ks.drop_last()[i]]@.len()
            &&& pre[w] == (key_date(#[trigger] ks.drop_last()[i]), #[trigger] events[ks.drop_last()[i]]@[j]@)
        };
        assert(ks.drop_last()[i] == ks[i]);
        assert((pre + day)[w] == pre[w]);
    } else {
        let v = w - pre.len();
        lemma_day_matches_from_list(key_date(ks.last()), events[ks.last()]@, query, v);
        let j = choose|j: int| 0 <= j < events[ks.last()]@.len() && #[trigger] events[ks.last()]@[j]@ == day[v].1;
        assert((pre + day)[w] == day[v]);
        assert(ks[ks.len() - 1] == ks.last());
        assert(matches_in_days(ks, events, query)[w] == (key_date(ks[ks.len() - 1]), events[ks[ks.len() - 1]]@[j]@));
    }
}

/// A search finds only events: every result is an event of the day it
/// carries, and that event's lower-case text contains the lower-case query.
pub proof fn law_search_finds_only_events(a: App, b: App, w: int)
    requires
        a.wf(),
        searched(a, b),
        0 <= w < b.search_results@.len(),
    ensures
        a.events@.contains_key(key_of(b.search_results@[w].0) as u64),
        exists|j: int| {
            &&& 0 <= j < a.events@[key_of(b.search_results@[w].0) as u64]@.len()
            &&& #[trigger] a.events@[key_of(b.search_results@[w].0) as u64]@[j]@ == b.search_results@[w].1@
            &&& has_substring(crate::text::lowercase(b.search_results@[w].1@), query_key(a.search_query@))
        },
{
    let q = query_key(a.search_query@);
    let rs = results_view(b.search_results@);
    assert(rs.len() == b.search_results@.len());
    assert(q.len() > 0) by {
        if q.len() == 0 {
            assert(rs.len() == 0);
        }
    }
    let ks = choose|ks: Seq<u64>| lists_keys_in_order(ks, a.events@) && rs == matches_in_days(ks, a.events@, q);
    lemma_matches_in_days_from_days(ks, a.events@, q, w);
    let (i, j) = choose|i: int, j: int| {
        &&& 0 <= i < ks.len()
        &&& 0 <= j < a.events@[ks[i]]@.len()
        &&& matches_in_days(ks, a.events@, q)[w] == (key_date(#[trigger] ks[i]), #[trigger] a.events@[ks[i]]@[j]@)
    };
    assert(ks.contains(ks[i]));
    assert(a.events@.contains_key(ks[i]));
    assert(is_date_key(ks[i]));
    assert(rs[w] == (b.search_results@[w].0, b.search_results@[w].1@));
    assert(key_of(b.search_results@[w].0) as u64 == ks[i]);
    law_search_results_in_calendar_order(a.events@, q, rs);
    assert(event_matches(rs[w].1, q));
}

} // verus!
