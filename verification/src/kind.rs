use vstd::prelude::*;

use crate::fault::Fault;
use crate::gc::Gc;
use crate::gc_allocator::{object_in, GcAllocator};
use crate::object::{kind_named, kind_result, made_object, new_object_of_kind, string_from, Data, Object};

verus! {

/// The type of an object, as the runtime sees it: a name and a size and alignment.
pub struct Kind {
    pub name: String,
    pub size: usize,
    pub align: usize,
}

/// Whether `d` is a kind named `name` with the size and alignment of `T`.
pub open spec fn is_kind_of<T>(d: Data, name: Seq<char>) -> bool {
    d matches Data::Kind(k) && k.name@ == name && k.size as nat == vstd::layout::size_of::<T>()
        && k.align as nat == vstd::layout::align_of::<T>()
}

impl Kind {
    pub fn new(name: String, size: usize, align: usize) -> (k: Kind)
        ensures
            k.name@ == name@,
            k.size == size,
            k.align == align,
    {
        Kind { name, size, align }
    }

    /// The kind of kinds: an object of its own kind, named `Kind`.
    pub fn new_kind_kind(heap: &mut GcAllocator) -> (g: Gc)
        ensures
            g.ptr == old(heap)@.len(),
            final(heap)@.len() == old(heap)@.len() + 1,
            final(heap)@.take(old(heap)@.len() as int) == old(heap)@,
            final(heap)@[g.ptr as int] is Some,
            object_in(final(heap)@, g).kind == g,
            object_in(final(heap)@, g).meta is None,
            !object_in(final(heap)@, g).marked,
            is_kind_of::<Kind>(object_in(final(heap)@, g).value, "Kind"@),
    {
        let g = Gc { ptr: heap.len() };
        let object = Kind::new_kind_object::<Kind>(g, "Kind");
        let h = heap.unsafe_alloc(object);
        assert(final(heap)@.take(old(heap)@.len() as int) =~= old(heap)@);
        h
    }

    /// An object of kind `kind` holding a kind named `name` with the size and alignment
    /// of `T`.
    pub fn new_kind_object<T>(kind: Gc, name: &str) -> (o: Object)
        ensures
            o.kind == kind,
            o.meta is None,
            !o.marked,
            is_kind_of::<T>(o.value, name@),
    {
        let k = Kind::new(string_from(name), core::mem::size_of::<T>(), core::mem::align_of::<T>());
        Object::new(kind, Data::Kind(k))
    }

    pub fn name(&self) -> (n: &String)
        ensures
            n@ == self.name@,
    {
        &self.name
    }

    pub fn size(&self) -> (s: usize)
        ensures
            s == self.size,
    {
        self.size
    }

    pub fn align(&self) -> (a: usize)
        ensures
            a == self.align,
    {
        self.align
    }
}

/// The kind of kinds, bound to `Kind` in `scope`.
pub fn kind_kind(heap: &GcAllocator, scope: Gc) -> (r: Result<Gc, Fault>)
    ensures
        r == kind_result(heap@, scope, "Kind"@),
{
    kind_named(heap, scope, "Kind")
}

/// A new kind object named `name`, with the size and alignment of `T`.
pub fn new_kind<T>(heap: &mut GcAllocator, scope: Gc, name: &str) -> (r: Result<Gc, Fault>)
    ensures
        made_object(old(heap)@, final(heap)@, r, scope, "Kind"@, None),
        r matches Ok(g) ==> is_kind_of::<T>(object_in(final(heap)@, g).value, name@),
{
    let k = Kind::new(string_from(name), core::mem::size_of::<T>(), core::mem::align_of::<T>());
    new_object_of_kind(heap, scope, "Kind", Data::Kind(k), None)
}

} // verus!
