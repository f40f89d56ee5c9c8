use vstd::prelude::*;

use crate::fault::Fault;
use crate::gc_allocator::{object_in, GcAllocator};
use crate::object::{kind_named, kind_result, made_object, new_object_of_kind, string_from, Data};
use crate::gc::Gc;
use crate::value::{chars_order, order_strs, Order};

verus! {

/// An identifier, looked up in a scope when evaluated.
pub struct Symbol(pub String);

impl Symbol {
    pub fn new(value: String) -> (s: Symbol)
        ensures
            s.0@ == value@,
    {
        Symbol(value)
    }

    /// The name of the symbol.
    pub fn as_str(&self) -> (s: &str)
        ensures
            s@ == self.0@,
    {
        self.0.as_str()
    }

    /// The text the symbol is shown as: its name.
    pub fn to_string(&self) -> (s: String)
        ensures
            s@ == self.0@,
    {
        string_from(self.0.as_str())
    }

    /// The name of the symbol, as a string of its own.
    pub fn into_string(self) -> (s: String)
        ensures
            s@ == self.0@,
    {
        self.0
    }

    /// How two symbols order: by their names, character by character, a name before any
    /// longer name it begins.
    pub fn compare(&self, other: &Symbol) -> (r: Order)
        ensures
            r == chars_order(self.0@, other.0@),
    {
        order_strs(self.0.as_str(), other.0.as_str())
    }
}

/// The kind of symbols, bound to `Symbol` in `scope`.
pub fn symbol_kind(heap: &GcAllocator, scope: Gc) -> (r: Result<Gc, Fault>)
    ensures
        r == kind_result(heap@, scope, "Symbol"@),
{
    kind_named(heap, scope, "Symbol")
}

/// A new symbol object holding the characters of `value`.
pub fn new_symbol(heap: &mut GcAllocator, scope: Gc, value: &str) -> (r: Result<Gc, Fault>)
    ensures
        made_object(old(heap)@, final(heap)@, r, scope, "Symbol"@, None),
        r matches Ok(g) ==> (object_in(final(heap)@, g).value matches Data::Symbol(x) && x.0@ == value@),
{
    let s = string_from(value);
    new_object_of_kind(heap, scope, "Symbol", Data::Symbol(Symbol(s)), None)
}

/// A new symbol object holding the characters of `value`, with the metadata `meta`.
pub fn new_symbol_with_meta(heap: &mut GcAllocator, scope: Gc, value: &str, meta: Option<Gc>) -> (r: Result<Gc, Fault>)
    ensures
        made_object(old(heap)@, final(heap)@, r, scope, "Symbol"@, meta),
        r matches Ok(g) ==> (object_in(final(heap)@, g).value matches Data::Symbol(x) && x.0@ == value@),
{
    let s = string_from(value);
    new_object_of_kind(heap, scope, "Symbol", Data::Symbol(Symbol(s)), meta)
}

} // verus!
