use vstd::prelude::*;

use crate::fault::Fault;
use crate::gc_allocator::{object_in, GcAllocator};
use crate::object::{kind_named, kind_result, made_object, new_object_of_kind, string_from, Data};
use crate::gc::Gc;

verus! {

/// A name that evaluates to itself, written with a leading `:`.
pub struct Keyword(pub String);

impl Keyword {
    pub fn new(value: String) -> (k: Keyword)
        ensures
            k.0@ == value@,
    {
        Keyword(value)
    }

    /// The name of the keyword, without the `:`.
    pub fn as_str(&self) -> (s: &str)
        ensures
            s@ == self.0@,
    {
        self.0.as_str()
    }
}

/// The kind of keywords, bound to `Keyword` in `scope`.
pub fn keyword_kind(heap: &GcAllocator, scope: Gc) -> (r: Result<Gc, Fault>)
    ensures
        r == kind_result(heap@, scope, "Keyword"@),
{
    kind_named(heap, scope, "Keyword")
}

/// A new keyword object holding the characters of `value`.
pub fn new_keyword(heap: &mut GcAllocator, scope: Gc, value: &str) -> (r: Result<Gc, Fault>)
    ensures
        made_object(old(heap)@, final(heap)@, r, scope, "Keyword"@, None),
        r matches Ok(g) ==> (object_in(final(heap)@, g).value matches Data::Keyword(x) && x.0@ == value@),
{
    let s = string_from(value);
    new_object_of_kind(heap, scope, "Keyword", Data::Keyword(Keyword(s)), None)
}

/// A new keyword object holding the characters of `value`, with the metadata `meta`.
pub fn new_keyword_with_meta(heap: &mut GcAllocator, scope: Gc, value: &str, meta: Option<Gc>) -> (r: Result<Gc, Fault>)
    ensures
        made_object(old(heap)@, final(heap)@, r, scope, "Keyword"@, meta),
        r matches Ok(g) ==> (object_in(final(heap)@, g).value matches Data::Keyword(x) && x.0@ == value@),
{
    let s = string_from(value);
    new_object_of_kind(heap, scope, "Keyword", Data::Keyword(Keyword(s)), meta)
}

} // verus!
