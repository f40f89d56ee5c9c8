use vstd::prelude::*;

use crate::fault::Fault;
use crate::gc_allocator::{object_in, GcAllocator};
use crate::object::{kind_named, kind_result, made_object, new_object_of_kind, string_from, Data};

use crate::entries::{find_pair, lemma_scan_pairs_found, pairs_get, pairs_remove, pairs_set, scan_pairs};
use crate::gc::Gc;
use crate::handles::copy_pairs;

verus! {

/// A map from values to values that is never changed in place: each update gives a new
/// map. A key is found again when it hashes alike and is equal (see `key_matches`).
pub struct PersistentMap {
    pub(crate) entries: Vec<(Gc, Gc)>,
}

impl View for PersistentMap {
    type V = Seq<(Gc, Gc)>;

    closed spec fn view(&self) -> Seq<(Gc, Gc)> {
        self.entries@
    }
}

impl PersistentMap {
    /// The key-value pairs, by reference.
    pub fn items_ref(&self) -> (r: &Vec<(Gc, Gc)>)
        ensures
            r@ == self@,
    {
        &self.entries
    }

    pub fn new() -> (m: PersistentMap)
        ensures
            m@ == Seq::<(Gc, Gc)>::empty(),
    {
        PersistentMap { entries: Vec::new() }
    }

    /// The map holding the given pairs.
    pub fn from_vec(entries: Vec<(Gc, Gc)>) -> (m: PersistentMap)
        ensures
            m@ == entries@,
    {
        PersistentMap { entries }
    }

    /// A new map with `key` bound to `value`.
    pub fn set(&self, heap: &GcAllocator, key: Gc, value: Gc) -> (m: PersistentMap)
        ensures
            m@ == pairs_set(heap@, self@, key, value),
    {
        let mut entries = copy_pairs(&self.entries);
        match find_pair(heap, &self.entries, key) {
            Some(i) => {
                proof {
                    lemma_scan_pairs_found(heap@, self@, key, 0);
                }
                let k = entries[i].0;
                entries.set(i, (k, value));
            },
            None => {
                entries.push((key, value));
            },
        }
        PersistentMap { entries }
    }

    /// A new map without the binding of `key`.
    pub fn remove(&self, heap: &GcAllocator, key: Gc) -> (m: PersistentMap)
        ensures
            m@ == pairs_remove(heap@, self@, key),
    {
        let mut entries = copy_pairs(&self.entries);
        match find_pair(heap, &self.entries, key) {
            Some(i) => {
                proof {
                    lemma_scan_pairs_found(heap@, self@, key, 0);
                }
                let _ = entries.remove(i);
            },
            None => {},
        }
        PersistentMap { entries }
    }

    /// The value bound to `key`.
    pub fn get(&self, heap: &GcAllocator, key: Gc) -> (r: Option<Gc>)
        ensures
            r == pairs_get(heap@, self@, key),
    {
        match find_pair(heap, &self.entries, key) {
            Some(i) => {
                proof {
                    lemma_scan_pairs_found(heap@, self@, key, 0);
                }
                Some(self.entries[i].1)
            },
            None => None,
        }
    }

    /// Whether `key` is bound.
    pub fn has(&self, heap: &GcAllocator, key: Gc) -> (b: bool)
        ensures
            b == scan_pairs(heap@, self@, key, 0) is Some,
    {
        find_pair(heap, &self.entries, key).is_some()
    }

    pub fn len(&self) -> (n: usize)
        ensures
            n == self@.len(),
    {
        self.entries.len()
    }

    pub fn is_empty(&self) -> (b: bool)
        ensures
            b == (self@.len() == 0),
    {
        self.entries.len() == 0
    }

    /// The key-value pairs.
    pub fn to_vec(&self) -> (r: Vec<(Gc, Gc)>)
        ensures
            r@ == self@,
    {
        copy_pairs(&self.entries)
    }

    /// A copy of the map.
    pub fn copy(&self) -> (m: PersistentMap)
        ensures
            m@ == self@,
    {
        PersistentMap { entries: copy_pairs(&self.entries) }
    }
}

/// The kind of persistent maps, bound to `PersistentMap` in `scope`.
pub fn persistent_map_kind(heap: &GcAllocator, scope: Gc) -> (r: Result<Gc, Fault>)
    ensures
        r == kind_result(heap@, scope, "PersistentMap"@),
{
    kind_named(heap, scope, "PersistentMap")
}

/// A new persistent map object holding `value`.
pub fn new_persistent_map_from(heap: &mut GcAllocator, scope: Gc, value: PersistentMap) -> (r: Result<Gc, Fault>)
    ensures
        made_object(old(heap)@, final(heap)@, r, scope, "PersistentMap"@, None),
        r matches Ok(g) ==> object_in(final(heap)@, g).value == Data::PersistentMap(value),
{
    new_object_of_kind(heap, scope, "PersistentMap", Data::PersistentMap(value), None)
}

/// A new persistent map object holding `value`, with the metadata `meta`.
pub fn new_persistent_map_from_with_meta(heap: &mut GcAllocator, scope: Gc, value: PersistentMap, meta: Option<Gc>) -> (r: Result<Gc, Fault>)
    ensures
        made_object(old(heap)@, final(heap)@, r, scope, "PersistentMap"@, meta),
        r matches Ok(g) ==> object_in(final(heap)@, g).value == Data::PersistentMap(value),
{
    new_object_of_kind(heap, scope, "PersistentMap", Data::PersistentMap(value), meta)
}

} // verus!
