use vstd::prelude::*;

use crate::fault::Fault;
use crate::gc_allocator::{object_in, GcAllocator};
use crate::object::{kind_named, kind_result, made_object, new_object_of_kind, string_from, Data};

use crate::gc::Gc;
use crate::handles::copy_pairs;
use crate::object::Object;
use crate::value::{value_equals, values_equal};

verus! {

/// The first position at or after `i` whose key equals `key`.
pub open spec fn scan_equal_keys(h: Seq<Option<Object>>, e: Seq<(Gc, Gc)>, key: Gc, i: int) -> Option<int>
    decreases e.len() - i,
{
    if i < 0 || i >= e.len() {
        None
    } else if values_equal(h, e[i].0, key) {
        Some(i)
    } else {
        scan_equal_keys(h, e, key, i + 1)
    }
}

/// Key-value pairs in order, changed in place.
pub struct LinkedMap {
    pub(crate) items: Vec<(Gc, Gc)>,
}

impl View for LinkedMap {
    type V = Seq<(Gc, Gc)>;

    closed spec fn view(&self) -> Seq<(Gc, Gc)> {
        self.items@
    }
}

impl LinkedMap {
    /// The pairs, in order, by reference.
    pub fn items_ref(&self) -> (r: &Vec<(Gc, Gc)>)
        ensures
            r@ == self@,
    {
        &self.items
    }

    pub fn new() -> (m: LinkedMap)
        ensures
            m@ == Seq::<(Gc, Gc)>::empty(),
    {
        LinkedMap { items: Vec::new() }
    }

    /// The map holding the given pairs, in order.
    pub fn from_vec(items: Vec<(Gc, Gc)>) -> (m: LinkedMap)
        ensures
            m@ == items@,
    {
        LinkedMap { items }
    }

    pub fn is_empty(&self) -> (b: bool)
        ensures
            b == (self@.len() == 0),
    {
        self.items.len() == 0
    }

    pub fn len(&self) -> (n: usize)
        ensures
            n == self@.len(),
    {
        self.items.len()
    }

    fn find(&self, heap: &GcAllocator, key: Gc) -> (r: Option<usize>)
        ensures
            r matches Some(i) ==> scan_equal_keys(heap@, self@, key, 0) == Some(i as int) && i < self@.len(),
            r is None ==> scan_equal_keys(heap@, self@, key, 0) is None,
    {
        let mut i: usize = 0;
        while i < self.items.len()
            invariant
                i <= self@.len(),
                scan_equal_keys(heap@, self@, key, 0) == scan_equal_keys(heap@, self@, key, i as int),
            decreases self@.len() - i,
        {
            if value_equals(heap, self.items[i].0, key) {
                return Some(i);
            }
            i = i + 1;
        }
        None
    }

    /// Whether a key equals `key`.
    pub fn has(&self, heap: &GcAllocator, key: Gc) -> (b: bool)
        ensures
            b == scan_equal_keys(heap@, self@, key, 0) is Some,
    {
        self.find(heap, key).is_some()
    }

    /// The value of the first pair whose key equals `key`.
    pub fn get(&self, heap: &GcAllocator, key: Gc) -> (r: Option<Gc>)
        ensures
            r == (match scan_equal_keys(heap@, self@, key, 0) {
                Some(i) => Some(self@[i].1),
                None => None::<Gc>,
            }),
    {
        match self.find(heap, key) {
            Some(i) => Some(self.items[i].1),
            None => None,
        }
    }

    pub fn push_front(&mut self, key_value: (Gc, Gc))
        ensures
            final(self)@ == seq![key_value] + old(self)@,
    {
        self.items.insert(0, key_value);
        assert(self@ =~= seq![key_value] + old(self)@);
    }

    pub fn push_back(&mut self, key_value: (Gc, Gc))
        ensures
            final(self)@ == old(self)@.push(key_value),
    {
        self.items.push(key_value);
    }

    /// Takes the first pair off, if there is one.
    pub fn pop_front(&mut self) -> (r: Option<(Gc, Gc)>)
        ensures
            old(self)@.len() == 0 ==> r is None && final(self)@ == old(self)@,
            old(self)@.len() > 0 ==> r == Some(old(self)@[0]) && final(self)@ == old(self)@.drop_first(),
    {
        if self.items.len() == 0 {
            None
        } else {
            let v = self.items.remove(0);
            assert(self@ =~= old(self)@.drop_first());
            Some(v)
        }
    }

    /// Takes the last pair off, if there is one.
    pub fn pop_back(&mut self) -> (r: Option<(Gc, Gc)>)
        ensures
            old(self)@.len() == 0 ==> r is None && final(self)@ == old(self)@,
            old(self)@.len() > 0 ==> r == Some(old(self)@.last()) && final(self)@ == old(self)@.drop_last(),
    {
        self.items.pop()
    }

    pub fn front(&self) -> (r: Option<(Gc, Gc)>)
        ensures
            r == (if self@.len() > 0 { Some(self@[0]) } else { None::<(Gc, Gc)> }),
    {
        if self.items.len() > 0 {
            Some(self.items[0])
        } else {
            None
        }
    }

    pub fn back(&self) -> (r: Option<(Gc, Gc)>)
        ensures
            r == (if self@.len() > 0 { Some(self@.last()) } else { None::<(Gc, Gc)> }),
    {
        if self.items.len() > 0 {
            Some(self.items[self.items.len() - 1])
        } else {
            None
        }
    }

    /// Moves the pairs of `other` to the back of this map.
    pub fn append(&mut self, other: &mut LinkedMap)
        ensures
            final(self)@ == old(self)@ + old(other)@,
            final(other)@ == Seq::<(Gc, Gc)>::empty(),
    {
        self.items.append(&mut other.items);
    }

    /// The pairs, in order.
    pub fn to_vec(&self) -> (r: Vec<(Gc, Gc)>)
        ensures
            r@ == self@,
    {
        copy_pairs(&self.items)
    }
}

/// The kind of linked maps, bound to `LinkedMap` in `scope`.
pub fn linked_map_kind(heap: &GcAllocator, scope: Gc) -> (r: Result<Gc, Fault>)
    ensures
        r == kind_result(heap@, scope, "LinkedMap"@),
{
    kind_named(heap, scope, "LinkedMap")
}

/// A new linked map object holding `value`.
pub fn new_linked_map(heap: &mut GcAllocator, scope: Gc, value: LinkedMap) -> (r: Result<Gc, Fault>)
    ensures
        made_object(old(heap)@, final(heap)@, r, scope, "LinkedMap"@, None),
        r matches Ok(g) ==> object_in(final(heap)@, g).value == Data::LinkedMap(value),
{
    new_object_of_kind(heap, scope, "LinkedMap", Data::LinkedMap(value), None)
}

} // verus!
