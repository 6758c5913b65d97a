use std::collections::HashMap;
use vstd::prelude::*;
use vstd::std_specs::iter::IteratorSpec;

use crate::date::Date;

verus! {

/// The offset that makes every representable year positive in a key.
pub open spec fn year_offset() -> int {
    262144
}

/// The map key of a date: year, month and day packed into one integer, in
/// an order that is the calendar's order.
pub open spec fn key_of(d: Date) -> int {
    (d.year + year_offset()) * 512 + d.month * 32 + d.day
}

/// The date that a map key stands for.
pub open spec fn key_date(k: u64) -> Date {
    Date { year: (k / 512 - year_offset()) as i32, month: ((k % 512) / 32) as u32, day: (k % 32) as u32 }
}

/// A key that stands for a valid date.
pub open spec fn is_date_key(k: u64) -> bool {
    key_date(k).valid() && key_of(key_date(k)) == k
}

/// `a` comes before `b` in the calendar.
pub open spec fn date_before(a: Date, b: Date) -> bool {
    ||| a.year < b.year
    ||| a.year == b.year && a.month < b.month
    ||| a.year == b.year && a.month == b.month && a.day < b.day
}

/// Packing a valid date and unpacking the key gives the date back.
pub proof fn lemma_key_round_trip(d: Date)
    requires
        d.valid(),
    ensures
        0 < key_of(d) <= u64::MAX,
        key_date(key_of(d) as u64) == d,
        is_date_key(key_of(d) as u64),
{
    let k = key_of(d);
    let y = d.year + year_offset();
    let r = d.month * 32 + d.day;
    assert(0 <= r < 512);
    assert(k / 512 == y && k % 512 == r) by (nonlinear_arith)
        requires
            k == y * 512 + r,
            0 <= r < 512,
    ;
    assert(r / 32 == d.month && r % 32 == d.day) by (nonlinear_arith)
        requires
            r == d.month * 32 + d.day,
            0 <= d.day < 32,
    ;
}

/// Keys of valid dates are ordered as the dates are.
pub proof fn lemma_key_order(a: Date, b: Date)
    requires
        a.valid(),
        b.valid(),
    ensures
        date_before(a, b) <==> key_of(a) < key_of(b),
        a == b <==> key_of(a) == key_of(b),
{
    let ya = a.year + year_offset();
    let yb = b.year + year_offset();
    let ra = a.month * 32 + a.day;
    let rb = b.month * 32 + b.day;
    assert(ya < yb ==> ya * 512 + ra < yb * 512 + rb) by (nonlinear_arith)
        requires
            0 <= ra < 512,
            0 <= rb < 512,
    ;
    assert(yb < ya ==> yb * 512 + rb < ya * 512 + ra) by (nonlinear_arith)
        requires
            0 <= ra < 512,
            0 <= rb < 512,
    ;
}

/// The map key of a valid date.
pub fn date_key(d: Date) -> (k: u64)
    requires
        d.valid(),
    ensures
        k == key_of(d),
        key_date(k) == d,
        is_date_key(k),
{
    proof {
        lemma_key_round_trip(d);
    }
    ((d.year as i64 + 262144) as u64) * 512 + (d.month as u64) * 32 + d.day as u64
}

/// The date that a key of a valid date stands for.
pub fn key_to_date(k: u64) -> (d: Date)
    requires
        is_date_key(k),
    ensures
        d == key_date(k),
        d.valid(),
        key_of(d) == k,
{
    Date { year: ((k / 512) as i64 - 262144) as i32, month: ((k % 512) / 32) as u32, day: (k % 32) as u32 }
}

/// Each element of `s` is smaller than the next.
pub open spec fn strictly_increasing(s: Seq<u64>) -> bool {
    forall|i: int, j: int| 0 <= i < j < s.len() ==> s[i] < s[j]
}

/// `ks` lists the keys of `m`, each once, in increasing order.
pub open spec fn lists_keys_in_order<V>(ks: Seq<u64>, m: Map<u64, V>) -> bool {
    &&& strictly_increasing(ks)
    &&& forall|k: u64| ks.contains(k) <==> m.contains_key(k)
}

/// There is only one increasing list of a map's keys.
pub proof fn lemma_keys_in_order_unique<V>(a: Seq<u64>, b: Seq<u64>, m: Map<u64, V>)
    requires
        lists_keys_in_order(a, m),
        lists_keys_in_order(b, m),
    ensures
        a == b,
    decreases a.len(),
{
    if a.len() == 0 {
        if b.len() > 0 {
            assert(b.contains(b[0]));
            assert(m.contains_key(b[0]));
            assert(a.contains(b[0]));
        }
        assert(a =~= b);
    } else if b.len() == 0 {
        assert(a.contains(a[0]));
        assert(m.contains_key(a[0]));
        assert(b.contains(a[0]));
    } else {
        let x = a.last();
        let y = b.last();
        assert(a.contains(x));
        assert(m.contains_key(x));
        assert(b.contains(x));
        assert(b.contains(y));
        assert(m.contains_key(y));
        assert(a.contains(y));
        assert(x == y) by {
            if x < y {
                let ia = choose|i: int| 0 <= i < a.len() && a[i] == y;
                if ia < a.len() - 1 {
                    assert(a[ia] < a[a.len() - 1]);
                }
            } else if y < x {
                let ib = choose|i: int| 0 <= i < b.len() && b[i] == x;
                if ib < b.len() - 1 {
                    assert(b[ib] < b[b.len() - 1]);
                }
            }
        }
        let m2 = m.remove(x);
        let a2 = a.drop_last();
        let b2 = b.drop_last();
        assert forall|k: u64| a2.contains(k) <==> m2.contains_key(k) by {
            if a2.contains(k) {
                let i = choose|i: int| 0 <= i < a2.len() && a2[i] == k;
                assert(a[i] < a[a.len() - 1]);
                assert(a.contains(k));
            }
            if m2.contains_key(k) {
                assert(a.contains(k));
                let i = choose|i: int| 0 <= i < a.len() && a[i] == k;
                assert(i != a.len() - 1);
                assert(a2[i] == k);
            }
        }
        assert forall|k: u64| b2.contains(k) <==> m2.contains_key(k) by {
            if b2.contains(k) {
                let i = choose|i: int| 0 <= i < b2.len() && b2[i] == k;
                assert(b[i] < b[b.len() - 1]);
                assert(b.contains(k));
            }
            if m2.contains_key(k) {
                assert(b.contains(k));
                let i = choose|i: int| 0 <= i < b.len() && b[i] == k;
                assert(i != b.len() - 1);
                assert(b2[i] == k);
            }
        }
        lemma_keys_in_order_unique(a2, b2, m2);
        assert(a =~= a2.push(x));
        assert(b =~= b2.push(y));
    }
}

/// The keys of `m` in increasing order.
pub fn sorted_keys<V>(m: &HashMap<u64, V>) -> (ks: Vec<u64>)
    ensures
        lists_keys_in_order(ks@, m@),
{
    broadcast use vstd::std_specs::hash::group_hash_axioms;
    let mut ks: Vec<u64> = Vec::new();
    let ghost all = m.keys().remaining();
    for k in it: m.keys()
        invariant
            strictly_increasing(ks@),
            it.seq() == all,
            all.no_duplicates(),
            all.unref().to_set() == m@.dom(),
            forall|x: u64| ks@.contains(x) <==> exists|j: int| 0 <= j < it.index() && *all[j] == x,
    {
        let key = *k;
        let ghost idx = it.index();
        assert(*all[idx] == key);
        let mut pos: usize = 0;
        while pos < ks.len() && ks[pos] < key
            invariant
                0 <= pos <= ks.len(),
                strictly_increasing(ks@),
                forall|i: int| 0 <= i < pos ==> ks@[i] < key,
            decreases ks.len() - pos,
        {
            pos = pos + 1;
        }
        assert(!ks@.contains(key)) by {
            if ks@.contains(key) {
                let j = choose|j: int| 0 <= j < idx && *all[j] == key;
                assert(all[j] == all[idx]);
            }
        }
        assert(pos < ks.len() ==> key < ks@[pos as int]) by {
            if pos < ks.len() {
                assert(ks@[pos as int] != key);
            }
        }
        let ghost before = ks@;
        ks.insert(pos, key);
        assert forall|x: u64| ks@.contains(x) <==> (before.contains(x) || x == key) by {
            if ks@.contains(x) {
                let i = choose|i: int| 0 <= i < ks@.len() && ks@[i] == x;
                if i < pos {
                    assert(before[i] == x);
                } else if i > pos {
                    assert(before[i - 1] == x);
                }
            }
            if before.contains(x) {
                let i = choose|i: int| 0 <= i < before.len() && before[i] == x;
                if i < pos {
                    assert(ks@[i] == x);
                } else {
                    assert(ks@[i + 1] == x);
                }
            }
            if x == key {
                assert(ks@[pos as int] == key);
            }
        }
        assert forall|x: u64| ks@.contains(x) <==> exists|j: int| 0 <= j < idx + 1 && *all[j] == x by {
            if x == key {
                assert(*all[idx] == x);
            }
            if ks@.contains(x) && x != key {
                assert(before.contains(x));
                let j = choose|j: int| 0 <= j < idx && *all[j] == x;
                assert(0 <= j < idx + 1 && *all[j] == x);
            }
            if exists|j: int| 0 <= j < idx + 1 && *all[j] == x {
                let j = choose|j: int| 0 <= j < idx + 1 && *all[j] == x;
                if j < idx {
                    assert(before.contains(x));
                }
            }
        }
    }
    assert forall|x: u64| ks@.contains(x) <==> m@.contains_key(x) by {
        if m@.contains_key(x) {
            assert(all.unref().to_set().contains(x));
            let j = choose|j: int| 0 <= j < all.unref().len() && all.unref()[j] == x;
            assert(*all[j] == x);
        }
        if ks@.contains(x) {
            let j = choose|j: int| 0 <= j < all.len() && *all[j] == x;
            assert(all.unref()[j] == x);
            assert(all.unref().to_set().contains(x));
        }
    }
    ks
}

} // verus!
