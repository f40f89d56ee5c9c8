use vstd::prelude::*;

use crate::fault::Fault;
use crate::gc_allocator::{object_in, GcAllocator};
use crate::object::{kind_named, kind_result, made_object, new_object_of_kind, string_from, Data};

use crate::gc::Gc;

verus! {

/// A cell whose value can be replaced.
pub struct Atom {
    pub value: Gc,
}

impl Atom {
    pub fn new(value: Gc) -> (a: Atom)
        ensures
            a.value == value,
    {
        Atom { value }
    }

    /// The value held.
    pub fn inner(&self) -> (v: Gc)
        ensures
            v == self.value,
    {
        self.value
    }

    /// Replaces the value held.
    pub fn update(&mut self, value: Gc)
        ensures
            final(self).value == value,
    {
        self.value = value;
    }
}

/// The kind of atoms, bound to `Atom` in `scope`.
pub fn atom_kind(heap: &GcAllocator, scope: Gc) -> (r: Result<Gc, Fault>)
    ensures
        r == kind_result(heap@, scope, "Atom"@),
{
    kind_named(heap, scope, "Atom")
}

/// A new atom object holding `value`.
pub fn new_atom(heap: &mut GcAllocator, scope: Gc, value: Gc) -> (r: Result<Gc, Fault>)
    ensures
        made_object(old(heap)@, final(heap)@, r, scope, "Atom"@, None),
        r matches Ok(g) ==> object_in(final(heap)@, g).value == Data::Atom(Atom { value }),
{
    new_object_of_kind(heap, scope, "Atom", Data::Atom(Atom { value }), None)
}

/// A new atom object holding `value`, with the metadata `meta`.
pub fn new_atom_with_meta(heap: &mut GcAllocator, scope: Gc, value: Gc, meta: Option<Gc>) -> (r: Result<Gc, Fault>)
    ensures
        made_object(old(heap)@, final(heap)@, r, scope, "Atom"@, meta),
        r matches Ok(g) ==> object_in(final(heap)@, g).value == Data::Atom(Atom { value }),
{
    new_object_of_kind(heap, scope, "Atom", Data::Atom(Atom { value }), meta)
}

} // verus!
