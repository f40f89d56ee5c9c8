use vstd::prelude::*;

use crate::fault::Fault;
use crate::gc_allocator::{object_in, GcAllocator};
use crate::object::{kind_named, kind_result, made_object, new_object_of_kind, string_from, Data};

use crate::entries::{find_item, items_add, items_get, items_remove, lemma_scan_items_found, scan_items};
use crate::gc::Gc;
use crate::handles::copy_handles;

verus! {

/// A set of values, changed in place. An item is found again when it hashes alike and
/// is equal (see `key_matches`).
pub struct ValueSet {
    pub(crate) items: Vec<Gc>,
}

impl View for ValueSet {
    type V = Seq<Gc>;

    closed spec fn view(&self) -> Seq<Gc> {
        self.items@
    }
}

impl ValueSet {
    /// The items, by reference.
    pub fn items_ref(&self) -> (r: &Vec<Gc>)
        ensures
            r@ == self@,
    {
        &self.items
    }

    /// The set holding the given items.
    pub fn from_vec(items: Vec<Gc>) -> (s: ValueSet)
        ensures
            s@ == items@,
    {
        ValueSet { items }
    }

    pub fn new() -> (s: ValueSet)
        ensures
            s@ == Seq::<Gc>::empty(),
    {
        ValueSet { items: Vec::new() }
    }

    /// Adds `value` unless an item matches it.
    pub fn add(&mut self, heap: &GcAllocator, value: Gc)
        ensures
            final(self)@ == items_add(heap@, old(self)@, value),
    {
        match find_item(heap, &self.items, value) {
            Some(_) => {},
            None => {
                self.items.push(value);
            },
        }
    }

    /// Whether an item matches `value`.
    pub fn has(&self, heap: &GcAllocator, value: Gc) -> (b: bool)
        ensures
            b == scan_items(heap@, self@, value, 0) is Some,
    {
        find_item(heap, &self.items, value).is_some()
    }

    /// The item that matches `value`.
    pub fn get(&self, heap: &GcAllocator, value: Gc) -> (r: Option<Gc>)
        ensures
            r == items_get(heap@, self@, value),
    {
        match find_item(heap, &self.items, value) {
            Some(i) => {
                proof {
                    lemma_scan_items_found(heap@, self@, value, 0);
                }
                Some(self.items[i])
            },
            None => None,
        }
    }

    /// Removes the item that matches `value`; gives `value` back when there was one.
    pub fn remove(&mut self, heap: &GcAllocator, value: Gc) -> (r: Option<Gc>)
        ensures
            final(self)@ == items_remove(heap@, old(self)@, value),
            r == (if scan_items(heap@, old(self)@, value, 0) is Some { Some(value) } else { None::<Gc> }),
    {
        match find_item(heap, &self.items, value) {
            Some(i) => {
                proof {
                    lemma_scan_items_found(heap@, self@, value, 0);
                }
                let _ = self.items.remove(i);
                Some(value)
            },
            None => None,
        }
    }

    pub fn len(&self) -> (n: usize)
        ensures
            n == self@.len(),
    {
        self.items.len()
    }

    pub fn is_empty(&self) -> (b: bool)
        ensures
            b == (self@.len() == 0),
    {
        self.items.len() == 0
    }

    /// The items.
    pub fn to_vec(&self) -> (r: Vec<Gc>)
        ensures
            r@ == self@,
    {
        copy_handles(&self.items)
    }
}

/// The kind of sets, bound to `Set` in `scope`.
pub fn set_kind(heap: &GcAllocator, scope: Gc) -> (r: Result<Gc, Fault>)
    ensures
        r == kind_result(heap@, scope, "Set"@),
{
    kind_named(heap, scope, "Set")
}

/// A new set object holding `value`.
pub fn new_set_from(heap: &mut GcAllocator, scope: Gc, value: ValueSet) -> (r: Result<Gc, Fault>)
    ensures
        made_object(old(heap)@, final(heap)@, r, scope, "Set"@, None),
        r matches Ok(g) ==> object_in(final(heap)@, g).value == Data::ValueSet(value),
{
    new_object_of_kind(heap, scope, "Set", Data::ValueSet(value), None)
}

} // verus!
