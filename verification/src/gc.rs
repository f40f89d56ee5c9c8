use vstd::prelude::*;

verus! {

/// The pointer value that a null handle holds; no object is ever stored there.
pub const NULL_PTR: usize = 0usize;

/// A handle to an object held by a `GcAllocator`. The null handle refers to nothing.
#[derive(Clone, Copy)]
pub struct Gc {
    pub ptr: usize,
}

impl Gc {
    /// The handle that refers to nothing.
    pub fn null() -> (g: Gc)
        ensures
            g.ptr == NULL_PTR,
    {
        Gc { ptr: NULL_PTR }
    }

    /// A handle with the given pointer value.
    pub fn from_raw(ptr: usize) -> (g: Gc)
        ensures
            g.ptr == ptr,
    {
        Gc { ptr }
    }

    /// Whether this is the null handle.
    pub fn is_null(&self) -> (b: bool)
        ensures
            b == (self.ptr == NULL_PTR),
    {
        self.ptr == NULL_PTR
    }

    /// The pointer value of the handle.
    pub fn as_ptr(&self) -> (p: usize)
        ensures
            p == self.ptr,
    {
        self.ptr
    }

    /// Whether two handles refer to the same slot.
    pub fn ptr_eq(&self, other: &Gc) -> (b: bool)
        ensures
            b == (self.ptr == other.ptr),
    {
        self.ptr == other.ptr
    }
}

/// Marking for the collector: a value is marked when the last trace reached it.
pub trait Trace {
    fn is_marked(&self) -> (b: bool);

    fn trace(&mut self, marked: bool);
}

} // verus!
