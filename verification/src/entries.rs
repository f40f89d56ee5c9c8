use vstd::prelude::*;

use crate::gc::Gc;
use crate::gc_allocator::{live_in, object_in, GcAllocator};
use crate::object::{Data, Object};
use crate::value::{full_depth, value_equals, values_equal};

verus! {

/// Whether two values hash alike as keys: values of a scalar type hash by contents, an
/// escape or an atom by the value it holds, and every other value by identity.
pub open spec fn same_hash(h: Seq<Option<Object>>, a: Gc, b: Gc, depth: nat) -> bool
    decreases depth,
{
    if !live_in(h, a) || !live_in(h, b) {
        false
    } else {
        match (object_in(h, a).value, object_in(h, b).value) {
            (Data::Escape(x), Data::Escape(y)) => depth > 0 && same_hash(h, x.0, y.0, (depth - 1) as nat),
            (Data::Atom(x), Data::Atom(y)) => depth > 0 && same_hash(h, x.value, y.value, (depth - 1) as nat),
            (Data::Nil, Data::Nil) => true,
            (Data::Bool(_), Data::Bool(_)) => true,
            (Data::Char(_), Data::Char(_)) => true,
            (Data::Str(_), Data::Str(_)) => true,
            (Data::U8(_), Data::U8(_)) => true,
            (Data::U16(_), Data::U16(_)) => true,
            (Data::U32(_), Data::U32(_)) => true,
            (Data::U64(_), Data::U64(_)) => true,
            (Data::USize(_), Data::USize(_)) => true,
            (Data::I8(_), Data::I8(_)) => true,
            (Data::I16(_), Data::I16(_)) => true,
            (Data::I32(_), Data::I32(_)) => true,
            (Data::I64(_), Data::I64(_)) => true,
            (Data::ISize(_), Data::ISize(_)) => true,
            (Data::Symbol(_), Data::Symbol(_)) => true,
            (Data::Keyword(_), Data::Keyword(_)) => true,
            _ => a.ptr == b.ptr,
        }
    }
}

/// Whether a map or set finds the entry with key `entry` when asked for `key`: the
/// two hash alike and are equal.
pub open spec fn key_matches(h: Seq<Option<Object>>, entry: Gc, key: Gc) -> bool {
    same_hash(h, entry, key, full_depth(h)) && values_equal(h, entry, key)
}

/// The first position at or after `i` whose key matches `key`.
pub open spec fn scan_pairs(h: Seq<Option<Object>>, e: Seq<(Gc, Gc)>, key: Gc, i: int) -> Option<int>
    decreases e.len() - i,
{
    if i < 0 || i >= e.len() {
        None
    } else if key_matches(h, e[i].0, key) {
        Some(i)
    } else {
        scan_pairs(h, e, key, i + 1)
    }
}

/// The first position at or after `i` whose item matches `key`.
pub open spec fn scan_items(h: Seq<Option<Object>>, e: Seq<Gc>, key: Gc, i: int) -> Option<int>
    decreases e.len() - i,
{
    if i < 0 || i >= e.len() {
        None
    } else if key_matches(h, e[i], key) {
        Some(i)
    } else {
        scan_items(h, e, key, i + 1)
    }
}

/// The pairs after binding `key` to `value`: the value of the first matching key is
/// replaced (the key stays), or the pair is added at the end.
pub open spec fn pairs_set(h: Seq<Option<Object>>, e: Seq<(Gc, Gc)>, key: Gc, value: Gc) -> Seq<(Gc, Gc)> {
    match scan_pairs(h, e, key, 0) {
        Some(i) => e.update(i, (e[i].0, value)),
        None => e.push((key, value)),
    }
}

/// The value bound to the first key that matches `key`.
pub open spec fn pairs_get(h: Seq<Option<Object>>, e: Seq<(Gc, Gc)>, key: Gc) -> Option<Gc> {
    match scan_pairs(h, e, key, 0) {
        Some(i) => Some(e[i].1),
        None => None,
    }
}

/// The pairs without the first whose key matches `key`.
pub open spec fn pairs_remove(h: Seq<Option<Object>>, e: Seq<(Gc, Gc)>, key: Gc) -> Seq<(Gc, Gc)> {
    match scan_pairs(h, e, key, 0) {
        Some(i) => e.remove(i),
        None => e,
    }
}

/// The items after adding `key`: unchanged when an item matches it, else with `key`
/// at the end.
pub open spec fn items_add(h: Seq<Option<Object>>, e: Seq<Gc>, key: Gc) -> Seq<Gc> {
    match scan_items(h, e, key, 0) {
        Some(i) => e,
        None => e.push(key),
    }
}

/// The items without the first that matches `key`.
pub open spec fn items_remove(h: Seq<Option<Object>>, e: Seq<Gc>, key: Gc) -> Seq<Gc> {
    match scan_items(h, e, key, 0) {
        Some(i) => e.remove(i),
        None => e,
    }
}

/// The first item that matches `key`.
pub open spec fn items_get(h: Seq<Option<Object>>, e: Seq<Gc>, key: Gc) -> Option<Gc> {
    match scan_items(h, e, key, 0) {
        Some(i) => Some(e[i]),
        None => None,
    }
}

/// Whether two values hash alike, as `same_hash` states it.
pub fn hash_alike(heap: &GcAllocator, a: Gc, b: Gc, depth: usize) -> (r: bool)
    ensures
        r == same_hash(heap@, a, b, depth as nat),
    decreases depth,
{
    match (heap.data(a), heap.data(b)) {
        (Some(x), Some(y)) => match (x, y) {
            (Data::Escape(x), Data::Escape(y)) => depth > 0 && hash_alike(heap, x.0, y.0, depth - 1),
            (Data::Atom(x), Data::Atom(y)) => depth > 0 && hash_alike(heap, x.value, y.value, depth - 1),
            (Data::Nil, Data::Nil) => true,
            (Data::Bool(_), Data::Bool(_)) => true,
            (Data::Char(_), Data::Char(_)) => true,
            (Data::Str(_), Data::Str(_)) => true,
            (Data::U8(_), Data::U8(_)) => true,
            (Data::U16(_), Data::U16(_)) => true,
            (Data::U32(_), Data::U32(_)) => true,
            (Data::U64(_), Data::U64(_)) => true,
            (Data::USize(_), Data::USize(_)) => true,
            (Data::I8(_), Data::I8(_)) => true,
            (Data::I16(_), Data::I16(_)) => true,
            (Data::I32(_), Data::I32(_)) => true,
            (Data::I64(_), Data::I64(_)) => true,
            (Data::ISize(_), Data::ISize(_)) => true,
            (Data::Symbol(_), Data::Symbol(_)) => true,
            (Data::Keyword(_), Data::Keyword(_)) => true,
            _ => a.ptr == b.ptr,
        },
        _ => false,
    }
}

/// Whether the key `entry` matches `key`, as `key_matches` states it.
pub fn matches_key(heap: &GcAllocator, entry: Gc, key: Gc) -> (r: bool)
    ensures
        r == key_matches(heap@, entry, key),
{
    hash_alike(heap, entry, key, heap.len()) && value_equals(heap, entry, key)
}

/// The first position whose key matches `key`, as `scan_pairs` from 0 states it.
pub fn find_pair(heap: &GcAllocator, e: &Vec<(Gc, Gc)>, key: Gc) -> (r: Option<usize>)
    ensures
        r matches Some(i) ==> scan_pairs(heap@, e@, key, 0) == Some(i as int),
        r is None ==> scan_pairs(heap@, e@, key, 0) is None,
{
    let mut i: usize = 0;
    while i < e.len()
        invariant
            i <= e@.len(),
            scan_pairs(heap@, e@, key, 0) == scan_pairs(heap@, e@, key, i as int),
        decreases e@.len() - i,
    {
        if matches_key(heap, e[i].0, key) {
            return Some(i);
        }
        i = i + 1;
    }
    None
}

/// The first position whose item matches `key`, as `scan_items` from 0 states it.
pub fn find_item(heap: &GcAllocator, e: &Vec<Gc>, key: Gc) -> (r: Option<usize>)
    ensures
        r matches Some(i) ==> scan_items(heap@, e@, key, 0) == Some(i as int),
        r is None ==> scan_items(heap@, e@, key, 0) is None,
{
    let mut i: usize = 0;
    while i < e.len()
        invariant
            i <= e@.len(),
            scan_items(heap@, e@, key, 0) == scan_items(heap@, e@, key, i as int),
        decreases e@.len() - i,
    {
        if matches_key(heap, e[i], key) {
            return Some(i);
        }
        i = i + 1;
    }
    None
}

/// A position found by scanning holds a matching key and lies in range.
pub proof fn lemma_scan_pairs_found(h: Seq<Option<Object>>, e: Seq<(Gc, Gc)>, key: Gc, i: int)
    requires
        scan_pairs(h, e, key, i) is Some,
    ensures
        i <= scan_pairs(h, e, key, i).unwrap() < e.len(),
        key_matches(h, e[scan_pairs(h, e, key, i).unwrap()].0, key),
    decreases e.len() - i,
{
    if i >= 0 && i < e.len() && !key_matches(h, e[i].0, key) {
        lemma_scan_pairs_found(h, e, key, i + 1);
    }
}

/// A position found by scanning holds a matching item and lies in range.
pub proof fn lemma_scan_items_found(h: Seq<Option<Object>>, e: Seq<Gc>, key: Gc, i: int)
    requires
        scan_items(h, e, key, i) is Some,
    ensures
        i <= scan_items(h, e, key, i).unwrap() < e.len(),
        key_matches(h, e[scan_items(h, e, key, i).unwrap()], key),
    decreases e.len() - i,
{
    if i >= 0 && i < e.len() && !key_matches(h, e[i], key) {
        lemma_scan_items_found(h, e, key, i + 1);
    }
}


/// Scanning pairs whose keys are those of `e` finds the same position.
pub proof fn lemma_scan_pairs_same_keys(h: Seq<Option<Object>>, e: Seq<(Gc, Gc)>, f: Seq<(Gc, Gc)>, key: Gc, i: int)
    requires
        e.len() == f.len(),
        forall|j: int| 0 <= j < e.len() ==> (#[trigger] e[j]).0 == f[j].0,
    ensures
        scan_pairs(h, f, key, i) == scan_pairs(h, e, key, i),
    decreases e.len() - i,
{
    if 0 <= i < e.len() && !key_matches(h, e[i].0, key) {
        lemma_scan_pairs_same_keys(h, e, f, key, i + 1);
    }
}

/// Scanning from `i` finds nothing only when no key from `i` on matches.
pub proof fn lemma_scan_pairs_none(h: Seq<Option<Object>>, e: Seq<(Gc, Gc)>, key: Gc, i: int, j: int)
    requires
        0 <= i <= j < e.len(),
        scan_pairs(h, e, key, i) is None,
    ensures
        !key_matches(h, e[j].0, key),
    decreases j - i,
{
    if i < j {
        lemma_scan_pairs_none(h, e, key, i + 1, j);
    }
}

/// Scanning pairs with one more pair at the end finds what scanning the first ones finds,
/// or else the new pair when its key matches.
pub proof fn lemma_scan_pairs_push(h: Seq<Option<Object>>, e: Seq<(Gc, Gc)>, p: (Gc, Gc), key: Gc, i: int)
    requires
        0 <= i <= e.len(),
        scan_pairs(h, e, key, i) is None,
        key_matches(h, p.0, key),
    ensures
        scan_pairs(h, e.push(p), key, i) == Some(e.len() as int),
    decreases e.len() - i,
{
    if i < e.len() {
        assert(e.push(p)[i] == e[i]);
        lemma_scan_pairs_push(h, e, p, key, i + 1);
    }
}

/// What a read gives back of a write: once `key` is bound to `value`, getting `key` gives
/// `value`, for a key that matches itself.
pub proof fn lemma_get_after_set(h: Seq<Option<Object>>, e: Seq<(Gc, Gc)>, key: Gc, value: Gc)
    requires
        key_matches(h, key, key),
    ensures
        pairs_get(h, pairs_set(h, e, key, value), key) == Some(value),
{
    match scan_pairs(h, e, key, 0) {
        Some(i) => {
            lemma_scan_pairs_found(h, e, key, 0);
            let f = e.update(i, (e[i].0, value));
            assert forall|j: int| 0 <= j < e.len() implies (#[trigger] e[j]).0 == f[j].0 by {}
            lemma_scan_pairs_same_keys(h, e, f, key, 0);
        },
        None => {
            lemma_scan_pairs_push(h, e, (key, value), key, 0);
        },
    }
}

/// Scanning items with one more item at the end finds what scanning the first ones finds,
/// or else the new item when it matches.
proof fn lemma_scan_items_push(h: Seq<Option<Object>>, e: Seq<Gc>, x: Gc, key: Gc, i: int)
    requires
        0 <= i <= e.len(),
        scan_items(h, e, key, i) is None,
        key_matches(h, x, key),
    ensures
        scan_items(h, e.push(x), key, i) == Some(e.len() as int),
    decreases e.len() - i,
{
    if i < e.len() {
        assert(e.push(x)[i] == e[i]);
        lemma_scan_items_push(h, e, x, key, i + 1);
    }
}

/// Once `key` is added to a set, the set holds an item that matches it, for a key that
/// matches itself.
pub proof fn lemma_has_after_add(h: Seq<Option<Object>>, e: Seq<Gc>, key: Gc)
    requires
        key_matches(h, key, key),
    ensures
        items_get(h, items_add(h, e, key), key) is Some,
{
    if scan_items(h, e, key, 0) is None {
        lemma_scan_items_push(h, e, key, key, 0);
    }
}

/// Scanning pairs with one more pair at the end, whose key does not match, finds what
/// scanning the first ones finds.
proof fn lemma_scan_pairs_push_other(h: Seq<Option<Object>>, e: Seq<(Gc, Gc)>, p: (Gc, Gc), key: Gc, i: int)
    requires
        0 <= i <= e.len(),
        !key_matches(h, p.0, key),
    ensures
        scan_pairs(h, e.push(p), key, i) == scan_pairs(h, e, key, i),
    decreases e.len() - i,
{
    if i < e.len() {
        assert(e.push(p)[i] == e[i]);
        lemma_scan_pairs_push_other(h, e, p, key, i + 1);
    } else {
        assert(e.push(p)[i] == p);
        assert(scan_pairs(h, e.push(p), key, i + 1) is None);
    }
}

/// Binding a key adds a pair exactly when no key matched it; and every other key, that no
/// key matching the bound one matches and that the bound key does not match, gets what
/// it got before.
pub proof fn lemma_set_len_and_others(h: Seq<Option<Object>>, e: Seq<(Gc, Gc)>, key: Gc, value: Gc, other: Gc)
    requires
        !key_matches(h, key, other),
        forall|i: int| 0 <= i < e.len() && key_matches(h, e[i].0, key) ==> !key_matches(h, #[trigger] e[i].0, other),
    ensures
        pairs_set(h, e, key, value).len() == e.len() + if scan_pairs(h, e, key, 0) is Some { 0int } else { 1int },
        pairs_get(h, pairs_set(h, e, key, value), other) == pairs_get(h, e, other),
{
    match scan_pairs(h, e, key, 0) {
        Some(i) => {
            lemma_scan_pairs_found(h, e, key, 0);
            let f = e.update(i, (e[i].0, value));
            assert forall|j: int| 0 <= j < e.len() implies (#[trigger] e[j]).0 == f[j].0 by {}
            lemma_scan_pairs_same_keys(h, e, f, other, 0);
            assert(key_matches(h, e[i].0, key));
            assert(!key_matches(h, e[i].0, other));
            if let Some(j) = scan_pairs(h, e, other, 0) {
                lemma_scan_pairs_found(h, e, other, 0);
                assert(j != i);
                assert(f[j] == e[j]);
            }
        },
        None => {
            lemma_scan_pairs_push_other(h, e, (key, value), other, 0);
            if let Some(j) = scan_pairs(h, e, other, 0) {
                lemma_scan_pairs_found(h, e, other, 0);
                assert(e.push((key, value))[j] == e[j]);
            }
        },
    }
}

/// Scanning from `i` finds nothing when no key from `i` on matches.
proof fn lemma_scan_pairs_no_match(h: Seq<Option<Object>>, e: Seq<(Gc, Gc)>, key: Gc, i: int)
    requires
        0 <= i,
        forall|j: int| i <= j < e.len() ==> !key_matches(h, (#[trigger] e[j]).0, key),
    ensures
        scan_pairs(h, e, key, i) is None,
    decreases e.len() - i,
{
    if i < e.len() {
        lemma_scan_pairs_no_match(h, e, key, i + 1);
    }
}

/// Scanning the pairs without the one at `i`, whose key does not match `key`, finds the
/// same pair as scanning all of them, one place earlier when it lay after `i`.
proof fn lemma_scan_pairs_remove(h: Seq<Option<Object>>, e: Seq<(Gc, Gc)>, i: int, key: Gc, k: int)
    requires
        0 <= i < e.len(),
        !key_matches(h, e[i].0, key),
        0 <= k <= e.len() - 1,
    ensures
        scan_pairs(h, e.remove(i), key, k) == match scan_pairs(h, e, key, if k < i { k } else { k + 1 }) {
            Some(j) => Some(if j < i { j } else { j - 1 }),
            None => None::<int>,
        },
    decreases e.len() - k,
{
    let r = e.remove(i);
    if k < e.len() - 1 {
        lemma_scan_pairs_remove(h, e, i, key, k + 1);
        if k + 1 == i {
            assert(scan_pairs(h, e, key, i) == scan_pairs(h, e, key, i + 1));
        }
        if k < i {
            assert(r[k] == e[k]);
        } else {
            assert(r[k] == e[k + 1]);
        }
    } else {
        assert(scan_pairs(h, e, key, k + 1) is None);
    }
}

/// What removing a key does to a map: when at most one key of the map matches `key`,
/// none matches it afterwards, so getting `key` gives nothing; every other key, that the
/// removed one does not match, gets what it got before; and the map holds one pair fewer
/// exactly when a key matched.
pub proof fn lemma_remove_get_and_others(h: Seq<Option<Object>>, e: Seq<(Gc, Gc)>, key: Gc, other: Gc)
    requires
        forall|i: int, j: int|
            0 <= i < e.len() && 0 <= j < e.len() && key_matches(h, (#[trigger] e[i]).0, key) && key_matches(
                h,
                (#[trigger] e[j]).0,
                key,
            ) ==> i == j,
        forall|i: int| 0 <= i < e.len() && key_matches(h, e[i].0, key) ==> !key_matches(h, (#[trigger] e[i]).0, other),
    ensures
        pairs_get(h, pairs_remove(h, e, key), key) is None,
        pairs_get(h, pairs_remove(h, e, key), other) == pairs_get(h, e, other),
        pairs_remove(h, e, key).len() == e.len() - if scan_pairs(h, e, key, 0) is Some { 1int } else { 0int },
{
    match scan_pairs(h, e, key, 0) {
        Some(i) => {
            lemma_scan_pairs_found(h, e, key, 0);
            let r = e.remove(i);
            assert forall|j: int| 0 <= j < r.len() implies !key_matches(h, (#[trigger] r[j]).0, key) by {
                if j < i {
                    assert(r[j] == e[j]);
                } else {
                    assert(r[j] == e[j + 1]);
                }
            }
            lemma_scan_pairs_no_match(h, r, key, 0);
            if e.len() > 1 {
                lemma_scan_pairs_remove(h, e, i, other, 0);
                if i == 0 {
                    assert(scan_pairs(h, e, other, 0) == scan_pairs(h, e, other, 1));
                }
                if let Some(j) = scan_pairs(h, e, other, 0) {
                    lemma_scan_pairs_found(h, e, other, 0);
                    assert(j != i);
                    if j < i {
                        assert(r[j] == e[j]);
                    } else {
                        assert(r[j - 1] == e[j]);
                    }
                }
            } else {
                assert(r.len() == 0);
                assert(scan_pairs(h, e, other, 0) == scan_pairs(h, e, other, 1));
            }
        },
        None => {},
    }
}

/// Scanning from `i` finds nothing when no item from `i` on matches.
proof fn lemma_scan_items_no_match(h: Seq<Option<Object>>, e: Seq<Gc>, key: Gc, i: int)
    requires
        0 <= i,
        forall|j: int| i <= j < e.len() ==> !key_matches(h, #[trigger] e[j], key),
    ensures
        scan_items(h, e, key, i) is None,
    decreases e.len() - i,
{
    if i < e.len() {
        lemma_scan_items_no_match(h, e, key, i + 1);
    }
}

/// What removing an item does to a set: when at most one item of the set matches `key`,
/// none matches it afterwards, so the set no longer has `key`; every item that does not
/// match `key` is still in the set; and the set holds one item fewer exactly when an item
/// matched.
pub proof fn lemma_remove_item_and_others(h: Seq<Option<Object>>, e: Seq<Gc>, key: Gc)
    requires
        forall|i: int, j: int|
            0 <= i < e.len() && 0 <= j < e.len() && key_matches(h, #[trigger] e[i], key) && key_matches(h, #[trigger] e[j], key)
                ==> i == j,
    ensures
        items_get(h, items_remove(h, e, key), key) is None,
        forall|j: int| 0 <= j < e.len() && !key_matches(h, #[trigger] e[j], key) ==> items_remove(h, e, key).contains(e[j]),
        items_remove(h, e, key).len() == e.len() - if scan_items(h, e, key, 0) is Some { 1int } else { 0int },
{
    match scan_items(h, e, key, 0) {
        Some(i) => {
            lemma_scan_items_found(h, e, key, 0);
            let r = e.remove(i);
            assert forall|j: int| 0 <= j < r.len() implies !key_matches(h, #[trigger] r[j], key) by {
                if j < i {
                    assert(r[j] == e[j]);
                } else {
                    assert(r[j] == e[j + 1]);
                }
            }
            lemma_scan_items_no_match(h, r, key, 0);
            assert forall|j: int| 0 <= j < e.len() && !key_matches(h, #[trigger] e[j], key) implies r.contains(e[j]) by {
                assert(j != i);
                if j < i {
                    assert(r[j] == e[j]);
                } else {
                    assert(r[j - 1] == e[j]);
                }
            }
        },
        None => {
            assert forall|j: int| 0 <= j < e.len() && !key_matches(h, #[trigger] e[j], key) implies e.contains(e[j]) by {}
        },
    }
}

} // verus!
