use vstd::prelude::*;

use crate::app::{next_index, prev_index, selection_for, App};
use crate::date::{date_from_ymd, Date};
use crate::store::{is_date_key, key_date, key_to_date, lists_keys_in_order, sorted_keys};
use crate::text::{ascii_lowercase, contains_text, has_substring, is_ascii_text, lowercase, to_lowercase};

verus! {

broadcast use vstd::std_specs::hash::group_hash_axioms;

/// An event matches a (lower-case) query when its lower-case form contains it.
pub open spec fn event_matches(event: Seq<char>, query: Seq<char>) -> bool {
    has_substring(lowercase(event), query)
}

/// The lower-case form of a query, as the search uses it: for an ASCII query
/// `A` to `Z` become `a` to `z`; for any other, Unicode's lower case.
pub open spec fn query_key(q: Seq<char>) -> Seq<char> {
    if is_ascii_text(q) { ascii_lowercase(q) } else { lowercase(q) }
}

/// The events of `list` that match `query`, in list order, each with the day `d`.
pub open spec fn day_matches(d: Date, list: Seq<String>, query: Seq<char>) -> Seq<(Date, Seq<char>)>
    decreases list.len(),
{
    if list.len() == 0 {
        Seq::empty()
    } else {
        let rest = day_matches(d, list.drop_last(), query);
        if event_matches(list.last()@, query) {
            rest.push((d, list.last()@))
        } else {
            rest
        }
    }
}

/// The matching events of the days with keys `keys`, day after day in the order of `keys`.
pub open spec fn matches_in_days(keys: Seq<u64>, events: Map<u64, Vec<String>>, query: Seq<char>) -> Seq<(Date, Seq<char>)>
    decreases keys.len(),
{
    if keys.len() == 0 {
        Seq::empty()
    } else {
        matches_in_days(keys.drop_last(), events, query) + day_matches(key_date(keys.last()), events[keys.last()]@, query)
    }
}

/// Search results as dates and texts.
pub open spec fn results_view(r: Seq<(Date, String)>) -> Seq<(Date, Seq<char>)> {
    r.map_values(|p: (Date, String)| (p.0, p.1@))
}

/// `results` is what a search for `query` finds among `events`: every
/// matching event, days in calendar order, each day's events in list order.
/// An empty query finds nothing.
pub open spec fn search_found(events: Map<u64, Vec<String>>, query: Seq<char>, results: Seq<(Date, Seq<char>)>) -> bool {
    if query.len() == 0 {
        results == Seq::<(Date, Seq<char>)>::empty()
    } else {
        exists|ks: Seq<u64>| lists_keys_in_order(ks, events) && results == matches_in_days(ks, events, query)
    }
}

/// `b` is `a` after the search results were recomputed from the query.
pub open spec fn searched(a: App, b: App) -> bool {
    &&& search_found(a.events@, query_key(a.search_query@), results_view(b.search_results@))
    &&& b.search_selection == (if b.search_results@.len() > 0 { Some(0usize) } else { None })
    &&& b == App { search_results: b.search_results, search_selection: b.search_selection, ..a }
}

/// `b` is `a` after the calendar followed the selected search result: the
/// cursor is on its day, when a result is selected.
pub open spec fn synced_to_result(a: App, b: App) -> bool {
    match a.search_selection {
        Some(i) if i < a.search_results@.len() => {
            let d = a.search_results@[i as int].0;
            b == App {
                selected_date: d,
                current_month: d.month_start(),
                event_selection: selection_for(a.events@, d),
                ..a
            }
        },
        _ => b == a,
    }
}

/// `b` is `a` after the search selection moved one row down (wrapping) and the calendar followed it.
pub open spec fn search_moved_down(a: App, b: App) -> bool {
    if a.search_results@.len() == 0 {
        b == a
    } else {
        synced_to_result(
            App { search_selection: Some(next_index(a.search_selection, a.search_results@.len() as int)), ..a },
            b,
        )
    }
}

/// `b` is `a` after the search selection moved one row up (wrapping) and the calendar followed it.
pub open spec fn search_moved_up(a: App, b: App) -> bool {
    if a.search_results@.len() == 0 {
        b == a
    } else {
        synced_to_result(
            App { search_selection: Some(prev_index(a.search_selection, a.search_results@.len() as int)), ..a },
            b,
        )
    }
}

impl App {
    /// Finds the events whose lower-case text contains the lower-case query,
    /// ordered by day, and selects the first one.
    pub fn search_events(&mut self)
        requires
            old(self).wf(),
        ensures
            final(self).wf(),
            searched(*old(self), *final(self)),
    {
        self.search_results = Vec::new();
        let query = to_lowercase(self.search_query.as_str());
        if query.as_str().is_empty() {
            self.search_selection = None;
            assert(results_view(self.search_results@) =~= Seq::<(Date, Seq<char>)>::empty());
            return;
        }
        let keys = sorted_keys(&self.events);
        let ghost q = query@;
        let ghost ev = self.events@;
        let mut results: Vec<(Date, String)> = Vec::new();
        let mut n: usize = 0;
        while n < keys.len()
            invariant
                n <= keys.len(),
                ev == self.events@,
                q == query@,
                lists_keys_in_order(keys@, ev),
                forall|k: u64| #[trigger] ev.contains_key(k) ==> is_date_key(k),
                results_view(results@) == matches_in_days(keys@.take(n as int), ev, q),
                forall|i: int| 0 <= i < results@.len() ==> (#[trigger] results@[i]).0.valid(),
            decreases keys.len() - n,
        {
            let k = keys[n];
            assert(keys@.contains(k));
            let d = key_to_date(k);
            let list = self.events.get(&k).unwrap();
            let ghost prefix = results_view(results@);
            let mut j: usize = 0;
            while j < list.len()
                invariant
                    j <= list.len(),
                    d.valid(),
                    q == query@,
                    results_view(results@) == prefix + day_matches(d, list@.take(j as int), q),
                    forall|i: int| 0 <= i < results@.len() ==> (#[trigger] results@[i]).0.valid(),
                decreases list.len() - j,
            {
                let lower = to_lowercase(list[j].as_str());
                let ghost before = results@;
                assert(list@.take(j + 1).drop_last() =~= list@.take(j as int));
                if contains_text(lower.as_str(), query.as_str()) {
                    results.push((d, list[j].clone()));
                    assert(results_view(results@) =~= results_view(before).push((d, list@[j as int]@)));
                } else {
                    assert(results_view(results@) =~= results_view(before));
                }
                j = j + 1;
            }
            assert(list@.take(list@.len() as int) =~= list@);
            assert(keys@.take(n + 1).drop_last() =~= keys@.take(n as int));
            n = n + 1;
        }
        assert(keys@.take(keys@.len() as int) =~= keys@);
        self.search_results = results;
        if self.search_results.len() > 0 {
            self.search_selection = Some(0);
        } else {
            self.search_selection = None;
        }
    }

    /// Moves the calendar to the day of the selected search result.
    pub fn sync_calendar_to_search_result(&mut self)
        requires
            old(self).wf(),
        ensures
            final(self).wf(),
            synced_to_result(*old(self), *final(self)),
    {
        if let Some(i) = self.search_selection {
            if i < self.search_results.len() {
                let d = self.search_results[i].0;
                self.selected_date = d;
                self.current_month = date_from_ymd(d.year, d.month, 1).unwrap();
                self.update_event_selection();
            }
        }
    }

    /// Selects the next search result, wrapping to the first, and moves the calendar to it.
    pub fn next_search_result(&mut self)
        requires
            old(self).wf(),
        ensures
            final(self).wf(),
            search_moved_down(*old(self), *final(self)),
    {
        if self.search_results.len() == 0 {
            return;
        }
        let i = match self.search_selection {
            Some(i) => if i >= self.search_results.len() - 1 { 0 } else { i + 1 },
            None => 0,
        };
        self.search_selection = Some(i);
        self.sync_calendar_to_search_result();
    }

    /// Selects the previous search result, wrapping to the last, and moves the calendar to it.
    pub fn prev_search_result(&mut self)
        requires
            old(self).wf(),
        ensures
            final(self).wf(),
            search_moved_up(*old(self), *final(self)),
    {
        if self.search_results.len() == 0 {
            return;
        }
        let i = match self.search_selection {
            Some(i) => if i == 0 { self.search_results.len() - 1 } else { i - 1 },
            None => 0,
        };
        self.search_selection = Some(i);
        self.sync_calendar_to_search_result();
    }
}

} // verus!
