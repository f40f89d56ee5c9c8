use vstd::prelude::*;

use crate::gc::Gc;
use crate::scope_table::{table_entries, ScopeTable};

verus! {

/// The bindings of names to values in a scope that is changed in place, with the
/// scope it extends.
pub struct Scope {
    pub map: ScopeTable,
    pub parent: Option<Gc>,
}

impl Scope {
    /// The bindings, from a name to the pointer value of the bound object.
    pub open spec fn entries(&self) -> Map<Seq<char>, usize> {
        table_entries(self.map)
    }

    /// The scope this one extends.
    pub open spec fn parent_of(&self) -> Option<Gc> {
        self.parent
    }

    pub fn new(map: ScopeTable, parent: Option<Gc>) -> (s: Scope)
        ensures
            s.entries() == table_entries(map),
            s.parent_of() == parent,
    {
        Scope { map, parent }
    }

    /// Binds `key` to `value`.
    pub fn set(&mut self, key: &str, value: Gc)
        ensures
            final(self).entries() == old(self).entries().insert(key@, value.ptr),
            final(self).parent_of() == old(self).parent_of(),
    {
        self.map.insert(key, value.ptr);
    }

    /// Removes the binding of `key`.
    pub fn remove(&mut self, key: &str)
        ensures
            final(self).entries() == old(self).entries().remove(key@),
            final(self).parent_of() == old(self).parent_of(),
    {
        self.map.remove(key);
    }

    /// Whether this scope itself binds `key`.
    pub fn has(&self, key: &str) -> (b: bool)
        ensures
            b == self.entries().dom().contains(key@),
    {
        self.map.contains_key(key)
    }

    /// The value this scope itself binds to `key`.
    pub fn get(&self, key: &str) -> (r: Option<Gc>)
        ensures
            r == (if self.entries().dom().contains(key@) {
                Some(Gc { ptr: self.entries()[key@] })
            } else {
                None::<Gc>
            }),
    {
        match self.map.get(key) {
            Some(p) => Some(Gc { ptr: p }),
            None => None,
        }
    }
}

} // verus!
