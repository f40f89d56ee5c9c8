use vstd::prelude::*;

use crate::fault::Fault;
use crate::gc_allocator::{object_in, GcAllocator};
use crate::object::{kind_named, kind_result, made_object, new_object_of_kind, string_from, Data};

use crate::gc::Gc;
use crate::handles::copy_handles;

verus! {

/// A list that is never changed in place: each update gives a new list.
pub struct PersistentList {
    pub(crate) items: Vec<Gc>,
}

impl View for PersistentList {
    type V = Seq<Gc>;

    closed spec fn view(&self) -> Seq<Gc> {
        self.items@
    }
}

impl PersistentList {
    /// The items, in order, by reference.
    pub fn items_ref(&self) -> (r: &Vec<Gc>)
        ensures
            r@ == self@,
    {
        &self.items
    }

    pub fn new() -> (r: PersistentList)
        ensures
            r@ == Seq::<Gc>::empty(),
    {
        PersistentList { items: Vec::new() }
    }

    /// The list holding the given items, in order.
    pub fn from_vec(items: Vec<Gc>) -> (r: PersistentList)
        ensures
            r@ == items@,
    {
        PersistentList { items }
    }

    /// A new list with `value` inserted before position `index`.
    pub fn insert(&self, index: usize, value: Gc) -> (r: PersistentList)
        requires
            index <= self@.len(),
        ensures
            r@ == self@.insert(index as int, value),
    {
        let mut items = copy_handles(&self.items);
        items.insert(index, value);
        PersistentList { items }
    }

    /// A new list with `value` in front.
    pub fn push_front(&self, value: Gc) -> (r: PersistentList)
        ensures
            r@ == seq![value] + self@,
    {
        let r = self.insert(0, value);
        assert(r@ =~= seq![value] + self@);
        r
    }

    /// A new list with `value` at the back.
    pub fn push_back(&self, value: Gc) -> (r: PersistentList)
        ensures
            r@ == self@.push(value),
    {
        let mut items = copy_handles(&self.items);
        items.push(value);
        PersistentList { items }
    }

    /// The same as `push_back`.
    pub fn push(&self, value: Gc) -> (r: PersistentList)
        ensures
            r@ == self@.push(value),
    {
        self.push_back(value)
    }

    /// A new list without the first item.
    pub fn pop_front(&self) -> (r: PersistentList)
        requires
            self@.len() > 0,
        ensures
            r@ == self@.drop_first(),
    {
        let mut items = copy_handles(&self.items);
        items.remove(0);
        let r = PersistentList { items };
        assert(r@ =~= self@.drop_first());
        r
    }

    /// A new list without the last item; an empty list stays empty.
    pub fn pop_back(&self) -> (r: PersistentList)
        ensures
            r@ == (if self@.len() == 0 { self@ } else { self@.drop_last() }),
    {
        let mut items = copy_handles(&self.items);
        let _ = items.pop();
        PersistentList { items }
    }

    pub fn front(&self) -> (r: Option<Gc>)
        ensures
            r == (if self@.len() > 0 { Some(self@[0]) } else { None::<Gc> }),
    {
        if self.items.len() > 0 {
            Some(self.items[0])
        } else {
            None
        }
    }

    pub fn back(&self) -> (r: Option<Gc>)
        ensures
            r == (if self@.len() > 0 { Some(self@.last()) } else { None::<Gc> }),
    {
        if self.items.len() > 0 {
            Some(self.items[self.items.len() - 1])
        } else {
            None
        }
    }

    /// The item at `index`, if there is one.
    pub fn get(&self, index: usize) -> (r: Option<Gc>)
        ensures
            r == (if index < self@.len() { Some(self@[index as int]) } else { None::<Gc> }),
    {
        if index < self.items.len() {
            Some(self.items[index])
        } else {
            None
        }
    }

    pub fn len(&self) -> (n: usize)
        ensures
            n == self@.len(),
    {
        self.items.len()
    }

    pub fn is_empty(&self) -> (b: bool)
        ensures
            b == (self@.len() == 0),
    {
        self.items.len() == 0
    }

    /// The items, in order.
    pub fn to_vec(&self) -> (r: Vec<Gc>)
        ensures
            r@ == self@,
    {
        copy_handles(&self.items)
    }

    /// A copy of the list.
    pub fn copy(&self) -> (r: PersistentList)
        ensures
            r@ == self@,
    {
        PersistentList { items: copy_handles(&self.items) }
    }
}

/// The kind of persistent lists, bound to `PersistentList` in `scope`.
pub fn persistent_list_kind(heap: &GcAllocator, scope: Gc) -> (r: Result<Gc, Fault>)
    ensures
        r == kind_result(heap@, scope, "PersistentList"@),
{
    kind_named(heap, scope, "PersistentList")
}

/// A new persistent list object holding `value`.
pub fn new_persistent_list_from(heap: &mut GcAllocator, scope: Gc, value: PersistentList) -> (r: Result<Gc, Fault>)
    ensures
        made_object(old(heap)@, final(heap)@, r, scope, "PersistentList"@, None),
        r matches Ok(g) ==> object_in(final(heap)@, g).value == Data::PersistentList(value),
{
    new_object_of_kind(heap, scope, "PersistentList", Data::PersistentList(value), None)
}

/// A new persistent list object holding `value`, with the metadata `meta`.
pub fn new_persistent_list_from_with_meta(heap: &mut GcAllocator, scope: Gc, value: PersistentList, meta: Option<Gc>) -> (r: Result<Gc, Fault>)
    ensures
        made_object(old(heap)@, final(heap)@, r, scope, "PersistentList"@, meta),
        r matches Ok(g) ==> object_in(final(heap)@, g).value == Data::PersistentList(value),
{
    new_object_of_kind(heap, scope, "PersistentList", Data::PersistentList(value), meta)
}

} // verus!
