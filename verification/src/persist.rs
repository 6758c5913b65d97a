use std::collections::{BTreeMap, HashMap};

use chrono::Datelike;
use vstd::prelude::*;

use crate::app::App;
use crate::date::Date;
use crate::store::{date_key, is_date_key, key_date, key_of, key_to_date, lists_keys_in_order, sorted_keys};
use crate::transfer::texts;

verus! {

broadcast use vstd::std_specs::hash::group_hash_axioms;

/// A day and its events, as plain values.
pub open spec fn entry_view(e: (Date, Vec<String>)) -> ((i32, u32, u32), Seq<Seq<char>>) {
    (e.0.ymd(), texts(e.1@))
}

/// The days of a list of entries come in increasing calendar order.
pub open spec fn entries_in_order(v: Seq<(Date, Vec<String>)>) -> bool {
    forall|i: int, j: int| 0 <= i < j < v.len() ==> key_of(#[trigger] v[i].0) < key_of(#[trigger] v[j].0)
}

/// What `serde_json` reads from the text of the events file: each day (a
/// JSON key "YYYY-MM-DD") with its list of events, days in increasing order;
/// `None` when the text is not such an object.
pub uninterp spec fn json_entries_of(text: Seq<char>) -> Option<Seq<((i32, u32, u32), Seq<Seq<char>>)>>;

/// The text that `serde_json` writes (pretty-printed) for days and their
/// events given in increasing order, or `None` when it reports an error.
pub uninterp spec fn json_text_of(entries: Seq<((i32, u32, u32), Seq<Seq<char>>)>) -> Option<Seq<char>>;

/// Reads the events file's text.
///
/// Calls `serde_json::from_str` into a `BTreeMap<NaiveDate, Vec<String>>`
/// and takes its entries, which a `BTreeMap` yields in increasing key order,
/// each key once. What it reads is named `json_entries_of`.
#[verifier::external_body]
fn parse_events_json(text: &str) -> (r: Option<Vec<(Date, Vec<String>)>>)
    ensures
        match r {
            Some(v) => json_entries_of(text@) == Some(v@.map_values(|e: (Date, Vec<String>)| entry_view(e))),
            None => json_entries_of(text@) is None,
        },
        r matches Some(v) ==> entries_in_order(v@) && forall|i: int| 0 <= i < v@.len() ==> (#[trigger] v@[i]).0.valid(),
{
    serde_json::from_str::<BTreeMap<chrono::NaiveDate, Vec<String>>>(text).ok().map(
        |m| m.into_iter().map(|(d, list)| (Date { year: d.year(), month: d.month(), day: d.day() }, list)).collect(),
    )
}

/// Writes the text of the events file.
///
/// Calls `serde_json::to_string_pretty` on the entries as a
/// `BTreeMap<NaiveDate, Vec<String>>` (the days are distinct, so the map holds
/// every entry). The text is named `json_text_of`.
///
/// Reading the text back gives the entries again: chrono's `serde` support
/// writes each day as a string in its `Debug` form (the year signed outside
/// 0..=9999) and reads it with `FromStr`, whose tests cover the whole range of
/// days; `serde_json` writes each event as an escaped JSON string and reads
/// it back unchanged; and the object's keys are distinct and in increasing
/// order, as a `BTreeMap` yields them.
#[verifier::external_body]
fn events_json_text(entries: Vec<(Date, Vec<String>)>) -> (r: Option<String>)
    requires
        entries_in_order(entries@),
        forall|i: int| 0 <= i < entries@.len() ==> (#[trigger] entries@[i]).0.valid(),
    ensures
        match r {
            Some(s) => json_text_of(entries@.map_values(|e: (Date, Vec<String>)| entry_view(e))) == Some(s@),
            None => json_text_of(entries@.map_values(|e: (Date, Vec<String>)| entry_view(e))) is None,
        },
        r matches Some(s) ==> json_entries_of(s@) == Some(entries@.map_values(|e: (Date, Vec<String>)| entry_view(e))),
{
    let m: BTreeMap<chrono::NaiveDate, Vec<String>> = entries.into_iter().map(
        |(d, list)| (chrono::NaiveDate::from_ymd_opt(d.year, d.month, d.day).unwrap(), list),
    ).collect();
    serde_json::to_string_pretty(&m).ok()
}

/// The event map of a list of entries with distinct days: each day's key maps
/// to its list.
pub open spec fn map_of_entries(v: Seq<(Date, Vec<String>)>, m: Map<u64, Vec<String>>) -> bool {
    &&& forall|k: u64| #[trigger] m.contains_key(k) ==> exists|i: int| 0 <= i < v.len() && key_of(v[i].0) == k
    &&& forall|i: int| 0 <= i < v.len() ==> {
        &&& #[trigger] m.contains_key(key_of(v[i].0) as u64)
        &&& m[key_of(v[i].0) as u64] == v[i].1
    }
}

/// `m` holds the entries `es` read from the events file.
pub open spec fn loaded_entries(es: Seq<((i32, u32, u32), Seq<Seq<char>>)>, m: Map<u64, Vec<String>>) -> bool {
    exists|v: Seq<(Date, Vec<String>)>| #[trigger] map_of_entries(v, m) && v.map_values(|e: (Date, Vec<String>)| entry_view(e)) == es
}

/// The entries of the event map, days in increasing order.
pub open spec fn entries_of_map(ks: Seq<u64>, m: Map<u64, Vec<String>>) -> Seq<((i32, u32, u32), Seq<Seq<char>>)> {
    ks.map_values(|k: u64| (key_date(k).ymd(), texts(m[k]@)))
}

/// The event map of entries whose days are valid and in increasing order:
/// each day's key maps to its list.
pub fn events_from_entries(entries: Vec<(Date, Vec<String>)>) -> (m: HashMap<u64, Vec<String>>)
    requires
        entries_in_order(entries@),
        forall|i: int| 0 <= i < entries@.len() ==> (#[trigger] entries@[i]).0.valid(),
    ensures
        forall|k: u64| #[trigger] m@.contains_key(k) ==> is_date_key(k),
        map_of_entries(entries@, m@),
{
    let ghost all = entries@;
    let mut m: HashMap<u64, Vec<String>> = HashMap::new();
    let mut rest = entries;
    let mut i: usize = 0;
    while i < rest.len()
        invariant
            entries_in_order(all),
            forall|j: int| 0 <= j < all.len() ==> (#[trigger] all[j]).0.valid(),
            rest@.len() == all.len(),
            i <= all.len(),
            forall|j: int| i <= j < all.len() ==> (#[trigger] rest@[j]).0 == all[j].0 && rest@[j].1 == all[j].1,
            forall|k: u64| #[trigger] m@.contains_key(k) ==> is_date_key(k) && exists|j: int| 0 <= j < i && key_of(all[j].0) == k,
            forall|j: int| 0 <= j < i ==> {
                &&& #[trigger] m@.contains_key(key_of(all[j].0) as u64)
                &&& m@[key_of(all[j].0) as u64] == all[j].1
            },
        decreases all.len() - i,
    {
        let d = rest[i].0;
        let mut list: Vec<String> = Vec::new();
        std::mem::swap(&mut list, &mut rest[i].1);
        proof {
            assert(all[i as int].0.valid());
        }
        let k = date_key(d);
        m.insert(k, list);
        assert forall|j: int| 0 <= j < i implies key_of(all[j].0) != k by {
            assert(key_of(all[j].0) < key_of(all[i as int].0));
        }
        i = i + 1;
    }
    assert(map_of_entries(all, m@));
    m
}

/// The event map stored in the text of the events file, or `None` when the
/// text cannot be read (the calendar then starts without events).
pub fn events_from_json(text: &str) -> (r: Option<HashMap<u64, Vec<String>>>)
    ensures
        json_entries_of(text@) is None ==> r is None,
        json_entries_of(text@) matches Some(es) ==> r matches Some(m) && {
            &&& forall|k: u64| #[trigger] m@.contains_key(k) ==> is_date_key(k)
            &&& loaded_entries(es, m@)
        },
{
    let entries = match parse_events_json(text) {
        Some(v) => v,
        None => {
            return None;
        },
    };
    let ghost all = entries@;
    let m = events_from_entries(entries);
    assert(json_entries_of(text@) == Some(all.map_values(|e: (Date, Vec<String>)| entry_view(e))));
    assert(loaded_entries(json_entries_of(text@).unwrap(), m@));
    Some(m)
}

impl App {
    /// The text of the events file for the current events, days in calendar
    /// order; `None` when `serde_json` reports an error.
    pub fn events_json(&self) -> (r: Option<String>)
        requires
            self.wf(),
        ensures
            exists|ks: Seq<u64>| {
                &&& lists_keys_in_order(ks, self.events@)
                &&& match r {
                    Some(s) => json_text_of(entries_of_map(ks, self.events@)) == Some(s@),
                    None => json_text_of(entries_of_map(ks, self.events@)) is None,
                }
                &&& r matches Some(s) ==> json_entries_of(s@) == Some(entries_of_map(ks, self.events@))
            },
    {
        let keys = sorted_keys(&self.events);
        let mut entries: Vec<(Date, Vec<String>)> = Vec::new();
        let mut n: usize = 0;
        while n < keys.len()
            invariant
                n <= keys.len(),
                self.wf(),
                lists_keys_in_order(keys@, self.events@),
                entries@.len() == n,
                forall|j: int| 0 <= j < n ==> (#[trigger] entries@[j]).0 == key_date(keys@[j]) && entries@[j].0.valid()
                    && key_of(entries@[j].0) == keys@[j] && texts(entries@[j].1@) == texts(self.events@[keys@[j]]@),
            decreases keys.len() - n,
        {
            let k = keys[n];
            assert(keys@.contains(k));
            let d = key_to_date(k);
            let list = self.events.get(&k).unwrap();
            let copy = clone_texts(list);
            entries.push((d, copy));
            n = n + 1;
        }
        assert(entries_in_order(entries@)) by {
            assert forall|i: int, j: int| 0 <= i < j < entries@.len() implies key_of(#[trigger] entries@[i].0) < key_of(
                #[trigger] entries@[j].0,
            ) by {
                assert(keys@[i] < keys@[j]);
            }
        }
        assert(entries@.map_values(|e: (Date, Vec<String>)| entry_view(e)) =~= entries_of_map(keys@, self.events@));
        events_json_text(entries)
    }
}

/// A copy of a list of strings.
fn clone_texts(v: &Vec<String>) -> (r: Vec<String>)
    ensures
        texts(r@) == texts(v@),
{
    let mut r: Vec<String> = Vec::new();
    let mut i: usize = 0;
    while i < v.len()
        invariant
            i <= v@.len(),
            texts(r@) == texts(v@.take(i as int)),
        decreases v@.len() - i,
    {
        let ghost before = r@;
        r.push(v[i].clone());
        assert(texts(r@) =~= texts(before).push(v@[i as int]@));
        assert(v@.take(i + 1) =~= v@.take(i as int).push(v@[i as int]));
        i = i + 1;
    }
    assert(v@.take(v@.len() as int) =~= v@);
    r
}

} // verus!
