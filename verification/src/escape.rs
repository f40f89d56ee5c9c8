use vstd::prelude::*;

use crate::fault::Fault;
use crate::gc_allocator::{object_in, GcAllocator};
use crate::object::{kind_named, kind_result, made_object, new_object_of_kind, string_from, Data};

use crate::gc::Gc;

verus! {

/// A value marked with a backquote; `expand` evaluates it in place.
pub struct Escape(pub Gc);

impl Escape {
    pub fn new(value: Gc) -> (e: Escape)
        ensures
            e.0 == value,
    {
        Escape(value)
    }

    /// The escaped value.
    pub fn escape_value(&self) -> (v: Gc)
        ensures
            v == self.0,
    {
        self.0
    }
}

/// The kind of escapes, bound to `Escape` in `scope`.
pub fn escape_kind(heap: &GcAllocator, scope: Gc) -> (r: Result<Gc, Fault>)
    ensures
        r == kind_result(heap@, scope, "Escape"@),
{
    kind_named(heap, scope, "Escape")
}

/// A new escape object holding `value`.
pub fn new_escape(heap: &mut GcAllocator, scope: Gc, value: Gc) -> (r: Result<Gc, Fault>)
    ensures
        made_object(old(heap)@, final(heap)@, r, scope, "Escape"@, None),
        r matches Ok(g) ==> object_in(final(heap)@, g).value == Data::Escape(Escape(value)),
{
    new_object_of_kind(heap, scope, "Escape", Data::Escape(Escape(value)), None)
}

} // verus!
