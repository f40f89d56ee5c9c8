use vstd::prelude::*;

use crate::fault::Fault;
use crate::gc_allocator::{object_in, GcAllocator};
use crate::object::{kind_named, kind_result, made_object, new_object_of_kind, string_from, Data};

use crate::gc::Gc;
use crate::handles::copy_handles;

verus! {

/// A list changed in place.
pub struct List {
    pub(crate) items: Vec<Gc>,
}

impl View for List {
    type V = Seq<Gc>;

    closed spec fn view(&self) -> Seq<Gc> {
        self.items@
    }
}

impl List {
    /// The items, in order, by reference.
    pub fn items_ref(&self) -> (r: &Vec<Gc>)
        ensures
            r@ == self@,
    {
        &self.items
    }

    pub fn new() -> (r: List)
        ensures
            r@ == Seq::<Gc>::empty(),
    {
        List { items: Vec::new() }
    }

    /// The list holding the given items, in order.
    pub fn from_vec(items: Vec<Gc>) -> (r: List)
        ensures
            r@ == items@,
    {
        List { items }
    }

    pub fn push_front(&mut self, value: Gc)
        ensures
            final(self)@ == seq![value] + old(self)@,
    {
        self.items.insert(0, value);
        assert(self@ =~= seq![value] + old(self)@);
    }

    pub fn push_back(&mut self, value: Gc)
        ensures
            final(self)@ == old(self)@.push(value),
    {
        self.items.push(value);
    }

    /// Takes the first item off, if there is one.
    pub fn pop_front(&mut self) -> (r: Option<Gc>)
        ensures
            old(self)@.len() == 0 ==> r is None && final(self)@ == old(self)@,
            old(self)@.len() > 0 ==> r == Some(old(self)@[0]) && final(self)@ == old(self)@.drop_first(),
    {
        if self.items.len() == 0 {
            None
        } else {
            let v = self.items.remove(0);
            assert(self@ =~= old(self)@.drop_first());
            Some(v)
        }
    }

    /// Takes the last item off, if there is one.
    pub fn pop_back(&mut self) -> (r: Option<Gc>)
        ensures
            old(self)@.len() == 0 ==> r is None && final(self)@ == old(self)@,
            old(self)@.len() > 0 ==> r == Some(old(self)@.last()) && final(self)@ == old(self)@.drop_last(),
    {
        self.items.pop()
    }

    pub fn front(&self) -> (r: Option<Gc>)
        ensures
            r == (if self@.len() > 0 { Some(self@[0]) } else { None::<Gc> }),
    {
        if self.items.len() > 0 {
            Some(self.items[0])
        } else {
            None
        }
    }

    pub fn back(&self) -> (r: Option<Gc>)
        ensures
            r == (if self@.len() > 0 { Some(self@.last()) } else { None::<Gc> }),
    {
        if self.items.len() > 0 {
            Some(self.items[self.items.len() - 1])
        } else {
            None
        }
    }

    /// The item at `index`, if there is one.
    pub fn get(&self, index: usize) -> (r: Option<Gc>)
        ensures
            r == (if index < self@.len() { Some(self@[index as int]) } else { None::<Gc> }),
    {
        if index < self.items.len() {
            Some(self.items[index])
        } else {
            None
        }
    }

    pub fn len(&self) -> (n: usize)
        ensures
            n == self@.len(),
    {
        self.items.len()
    }

    pub fn is_empty(&self) -> (b: bool)
        ensures
            b == (self@.len() == 0),
    {
        self.items.len() == 0
    }

    /// The items, in order.
    pub fn to_vec(&self) -> (r: Vec<Gc>)
        ensures
            r@ == self@,
    {
        copy_handles(&self.items)
    }
}

/// The kind of lists, bound to `List` in `scope`.
pub fn list_kind(heap: &GcAllocator, scope: Gc) -> (r: Result<Gc, Fault>)
    ensures
        r == kind_result(heap@, scope, "List"@),
{
    kind_named(heap, scope, "List")
}

/// A new list object holding `value`.
pub fn new_list_from(heap: &mut GcAllocator, scope: Gc, value: List) -> (r: Result<Gc, Fault>)
    ensures
        made_object(old(heap)@, final(heap)@, r, scope, "List"@, None),
        r matches Ok(g) ==> object_in(final(heap)@, g).value == Data::List(value),
{
    new_object_of_kind(heap, scope, "List", Data::List(value), None)
}

/// A new list object holding `value`, with the metadata `meta`.
pub fn new_list_from_with_meta(heap: &mut GcAllocator, scope: Gc, value: List, meta: Option<Gc>) -> (r: Result<Gc, Fault>)
    ensures
        made_object(old(heap)@, final(heap)@, r, scope, "List"@, meta),
        r matches Ok(g) ==> object_in(final(heap)@, g).value == Data::List(value),
{
    new_object_of_kind(heap, scope, "List", Data::List(value), meta)
}

} // verus!
