use vstd::prelude::*;

use crate::fault::Fault;
use crate::gc_allocator::{object_in, GcAllocator};
use crate::object::{kind_named, kind_result, made_object, new_object_of_kind, string_from, Data};

use crate::gc::Gc;
use crate::handles::copy_handles;

verus! {

/// A vector changed in place.
pub struct Vector {
    pub(crate) items: Vec<Gc>,
}

impl View for Vector {
    type V = Seq<Gc>;

    closed spec fn view(&self) -> Seq<Gc> {
        self.items@
    }
}

impl Vector {
    /// The items, in order, by reference.
    pub fn items_ref(&self) -> (r: &Vec<Gc>)
        ensures
            r@ == self@,
    {
        &self.items
    }

    pub fn new() -> (r: Vector)
        ensures
            r@ == Seq::<Gc>::empty(),
    {
        Vector { items: Vec::new() }
    }

    /// The vector holding the given items, in order.
    pub fn from_vec(items: Vec<Gc>) -> (r: Vector)
        ensures
            r@ == items@,
    {
        Vector { items }
    }

    pub fn push_front(&mut self, value: Gc)
        ensures
            final(self)@ == seq![value] + old(self)@,
    {
        self.items.insert(0, value);
        assert(self@ =~= seq![value] + old(self)@);
    }

    /// Inserts `value` before position `index`.
    pub fn insert(&mut self, index: usize, value: Gc)
        requires
            index <= old(self)@.len(),
        ensures
            final(self)@ == old(self)@.insert(index as int, value),
    {
        self.items.insert(index, value);
    }

    /// The same as `push_back`.
    pub fn push(&mut self, value: Gc)
        ensures
            final(self)@ == old(self)@.push(value),
    {
        self.items.push(value);
    }

    pub fn push_back(&mut self, value: Gc)
        ensures
            final(self)@ == old(self)@.push(value),
    {
        self.items.push(value);
    }

    /// Takes the first item off, if there is one.
    pub fn pop_front(&mut self) -> (r: Option<Gc>)
        ensures
            old(self)@.len() == 0 ==> r is None && final(self)@ == old(self)@,
            old(self)@.len() > 0 ==> r == Some(old(self)@[0]) && final(self)@ == old(self)@.drop_first(),
    {
        if self.items.len() == 0 {
            None
        } else {
            let v = self.items.remove(0);
            assert(self@ =~= old(self)@.drop_first());
            Some(v)
        }
    }

    /// Takes the last item off, if there is one.
    pub fn pop_back(&mut self) -> (r: Option<Gc>)
        ensures
            old(self)@.len() == 0 ==> r is None && final(self)@ == old(self)@,
            old(self)@.len() > 0 ==> r == Some(old(self)@.last()) && final(self)@ == old(self)@.drop_last(),
    {
        self.items.pop()
    }

    pub fn front(&self) -> (r: Option<Gc>)
        ensures
            r == (if self@.len() > 0 { Some(self@[0]) } else { None::<Gc> }),
    {
        if self.items.len() > 0 {
            Some(self.items[0])
        } else {
            None
        }
    }

    pub fn back(&self) -> (r: Option<Gc>)
        ensures
            r == (if self@.len() > 0 { Some(self@.last()) } else { None::<Gc> }),
    {
        if self.items.len() > 0 {
            Some(self.items[self.items.len() - 1])
        } else {
            None
        }
    }

    /// The item at `index`, if there is one.
    pub fn get(&self, index: usize) -> (r: Option<Gc>)
        ensures
            r == (if index < self@.len() { Some(self@[index as int]) } else { None::<Gc> }),
    {
        if index < self.items.len() {
            Some(self.items[index])
        } else {
            None
        }
    }

    pub fn len(&self) -> (n: usize)
        ensures
            n == self@.len(),
    {
        self.items.len()
    }

    pub fn is_empty(&self) -> (b: bool)
        ensures
            b == (self@.len() == 0),
    {
        self.items.len() == 0
    }

    /// The items, in order.
    pub fn to_vec(&self) -> (r: Vec<Gc>)
        ensures
            r@ == self@,
    {
        copy_handles(&self.items)
    }
}

/// The kind of vectors, bound to `Vector` in `scope`.
pub fn vector_kind(heap: &GcAllocator, scope: Gc) -> (r: Result<Gc, Fault>)
    ensures
        r == kind_result(heap@, scope, "Vector"@),
{
    kind_named(heap, scope, "Vector")
}

/// A new vector object holding `value`.
pub fn new_vector_from(heap: &mut GcAllocator, scope: Gc, value: Vector) -> (r: Result<Gc, Fault>)
    ensures
        made_object(old(heap)@, final(heap)@, r, scope, "Vector"@, None),
        r matches Ok(g) ==> object_in(final(heap)@, g).value == Data::Vector(value),
{
    new_object_of_kind(heap, scope, "Vector", Data::Vector(value), None)
}

} // verus!
