use vstd::prelude::*;

use crate::fault::Fault;
use crate::gc_allocator::{object_in, GcAllocator};
use crate::object::{kind_named, kind_result, made_object, new_object_of_kind, string_from, Data};

use crate::entries::{find_pair, lemma_scan_pairs_found, pairs_get, pairs_remove, pairs_set, scan_pairs};
use crate::gc::Gc;
use crate::handles::copy_pairs;

verus! {

/// A map from values to values, changed in place. A key is found again when it hashes
/// alike and is equal (see `key_matches`).
pub struct ValueMap {
    pub(crate) entries: Vec<(Gc, Gc)>,
}

impl View for ValueMap {
    type V = Seq<(Gc, Gc)>;

    closed spec fn view(&self) -> Seq<(Gc, Gc)> {
        self.entries@
    }
}

impl ValueMap {
    /// The key-value pairs, by reference.
    pub fn items_ref(&self) -> (r: &Vec<(Gc, Gc)>)
        ensures
            r@ == self@,
    {
        &self.entries
    }

    pub fn new() -> (m: ValueMap)
        ensures
            m@ == Seq::<(Gc, Gc)>::empty(),
    {
        ValueMap { entries: Vec::new() }
    }

    /// The map holding the given pairs.
    pub fn from_vec(entries: Vec<(Gc, Gc)>) -> (m: ValueMap)
        ensures
            m@ == entries@,
    {
        ValueMap { entries }
    }

    /// Binds `key` to `value`.
    pub fn set(&mut self, heap: &GcAllocator, key: Gc, value: Gc)
        ensures
            final(self)@ == pairs_set(heap@, old(self)@, key, value),
    {
        match find_pair(heap, &self.entries, key) {
            Some(i) => {
                proof {
                    lemma_scan_pairs_found(heap@, self@, key, 0);
                }
                let k = self.entries[i].0;
                self.entries.set(i, (k, value));
            },
            None => {
                self.entries.push((key, value));
            },
        }
    }

    /// Removes the binding of `key` and gives its value.
    pub fn remove(&mut self, heap: &GcAllocator, key: Gc) -> (r: Option<Gc>)
        ensures
            final(self)@ == pairs_remove(heap@, old(self)@, key),
            r == pairs_get(heap@, old(self)@, key),
    {
        match find_pair(heap, &self.entries, key) {
            Some(i) => {
                proof {
                    lemma_scan_pairs_found(heap@, self@, key, 0);
                }
                let (_, v) = self.entries.remove(i);
                Some(v)
            },
            None => None,
        }
    }

    /// The value bound to `key`.
    pub fn get(&self, heap: &GcAllocator, key: Gc) -> (r: Option<Gc>)
        ensures
            r == pairs_get(heap@, self@, key),
    {
        match find_pair(heap, &self.entries, key) {
            Some(i) => {
                proof {
                    lemma_scan_pairs_found(heap@, self@, key, 0);
                }
                Some(self.entries[i].1)
            },
            None => None,
        }
    }

    /// Whether `key` is bound.
    pub fn has(&self, heap: &GcAllocator, key: Gc) -> (b: bool)
        ensures
            b == scan_pairs(heap@, self@, key, 0) is Some,
    {
        find_pair(heap, &self.entries, key).is_some()
    }

    pub fn len(&self) -> (n: usize)
        ensures
            n == self@.len(),
    {
        self.entries.len()
    }

    pub fn is_empty(&self) -> (b: bool)
        ensures
            b == (self@.len() == 0),
    {
        self.entries.len() == 0
    }

    /// The key-value pairs.
    pub fn to_vec(&self) -> (r: Vec<(Gc, Gc)>)
        ensures
            r@ == self@,
    {
        copy_pairs(&self.entries)
    }
}

/// The kind of maps, bound to `Map` in `scope`.
pub fn map_kind(heap: &GcAllocator, scope: Gc) -> (r: Result<Gc, Fault>)
    ensures
        r == kind_result(heap@, scope, "Map"@),
{
    kind_named(heap, scope, "Map")
}

/// A new map object holding `value`.
pub fn new_map_from(heap: &mut GcAllocator, scope: Gc, value: ValueMap) -> (r: Result<Gc, Fault>)
    ensures
        made_object(old(heap)@, final(heap)@, r, scope, "Map"@, None),
        r matches Ok(g) ==> object_in(final(heap)@, g).value == Data::ValueMap(value),
{
    new_object_of_kind(heap, scope, "Map", Data::ValueMap(value), None)
}

} // verus!
