use vstd::prelude::*;

use hashbrown::HashMap;

verus! {

/// The bindings of a scope, name to object pointer, held in a `hashbrown::HashMap`.
/// The map's allocator bound names a trait that hashbrown does not export, so the map
/// stays in this field.
#[verifier::external_body]
pub struct ScopeTable {
    map: HashMap<String, usize>,
}

/// The bindings that a table holds, from a name to the pointer value of an object.
pub uninterp spec fn table_entries(table: ScopeTable) -> Map<Seq<char>, usize>;

impl ScopeTable {
    /// An empty table, by `hashbrown::HashMap::new`.
    #[verifier::external_body]
    pub(crate) fn new() -> (t: ScopeTable)
        ensures
            table_entries(t) =~= Map::empty(),
    {
        ScopeTable { map: HashMap::new() }
    }

    /// A table with the same bindings, by `Clone::clone` of `hashbrown::HashMap`.
    #[verifier::external_body]
    pub(crate) fn copy(&self) -> (t: ScopeTable)
        ensures
            table_entries(t) == table_entries(*self),
    {
        ScopeTable { map: self.map.clone() }
    }

    /// Binds `key` to `value`, replacing an earlier binding of `key`, by
    /// `hashbrown::HashMap::insert`.
    #[verifier::external_body]
    pub(crate) fn insert(&mut self, key: &str, value: usize)
        ensures
            table_entries(*final(self)) == table_entries(*old(self)).insert(key@, value),
    {
        self.map.insert(key.to_string(), value);
    }

    /// Removes the binding of `key`, if there is one, by `hashbrown::HashMap::remove`.
    #[verifier::external_body]
    pub(crate) fn remove(&mut self, key: &str)
        ensures
            table_entries(*final(self)) == table_entries(*old(self)).remove(key@),
    {
        self.map.remove(key);
    }

    /// The value bound to `key`, by `hashbrown::HashMap::get`.
    #[verifier::external_body]
    pub(crate) fn get(&self, key: &str) -> (r: Option<usize>)
        ensures
            r == (if table_entries(*self).dom().contains(key@) {
                Some(table_entries(*self)[key@])
            } else {
                None::<usize>
            }),
    {
        match self.map.get(key) {
            Some(v) => Some(*v),
            None => None,
        }
    }

    /// Whether `key` is bound, by `hashbrown::HashMap::contains_key`.
    #[verifier::external_body]
    pub(crate) fn contains_key(&self, key: &str) -> (b: bool)
        ensures
            b == table_entries(*self).dom().contains(key@),
    {
        self.map.contains_key(key)
    }

    /// The number of bindings, by `hashbrown::HashMap::len`.
    #[verifier::external_body]
    pub(crate) fn len(&self) -> (n: usize)
        ensures
            n == table_entries(*self).dom().len(),
    {
        self.map.len()
    }

    /// The values bound, in the order in which `hashbrown::HashMap::values` walks them:
    /// each bound value occurs, and nothing else.
    #[verifier::external_body]
    pub(crate) fn values(&self) -> (r: Vec<usize>)
        ensures
            forall|v: usize| #[trigger] r@.contains(v) <==> table_entries(*self).contains_value(v),
    {
        self.map.values().copied().collect()
    }
}

} // verus!
