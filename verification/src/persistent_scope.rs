use vstd::prelude::*;

use crate::fault::Fault;
use crate::gc::Gc;
use crate::gc_allocator::{extends, live_in, object_in, GcAllocator};
use crate::object::{Data, Object, Tag};
use crate::scope_table::{table_entries, ScopeTable};

verus! {

/// The bindings of names to values in a scope, with the scope it extends. A scope is
/// never changed in place: each update gives a new scope.
pub struct PersistentScope {
    pub map: ScopeTable,
    pub parent: Option<Gc>,
}

impl PersistentScope {
    /// The bindings, from a name to the pointer value of the bound object.
    pub open spec fn entries(&self) -> Map<Seq<char>, usize> {
        table_entries(self.map)
    }

    /// The scope this one extends.
    pub open spec fn parent_of(&self) -> Option<Gc> {
        self.parent
    }

    pub fn new(map: ScopeTable, parent: Option<Gc>) -> (s: PersistentScope)
        ensures
            s.entries() == table_entries(map),
            s.parent_of() == parent,
    {
        PersistentScope { map, parent }
    }

    /// An empty scope extending `parent`.
    pub fn with_parent(parent: Option<Gc>) -> (s: PersistentScope)
        ensures
            s.entries() == Map::<Seq<char>, usize>::empty(),
            s.parent_of() == parent,
    {
        PersistentScope { map: ScopeTable::new(), parent }
    }

    /// A new scope with `key` bound to `value`.
    pub fn set(&self, key: &str, value: Gc) -> (s: PersistentScope)
        ensures
            s.entries() == self.entries().insert(key@, value.ptr),
            s.parent_of() == self.parent_of(),
    {
        let mut map = self.map.copy();
        map.insert(key, value.ptr);
        PersistentScope { map, parent: self.parent }
    }

    /// A new scope without a binding of `key`.
    pub fn remove(&self, key: &str) -> (s: PersistentScope)
        ensures
            s.entries() == self.entries().remove(key@),
            s.parent_of() == self.parent_of(),
    {
        let mut map = self.map.copy();
        map.remove(key);
        PersistentScope { map, parent: self.parent }
    }

    /// Whether this scope itself binds `key`.
    pub fn has(&self, key: &str) -> (b: bool)
        ensures
            b == self.entries().dom().contains(key@),
    {
        self.map.contains_key(key)
    }

    /// The value this scope itself binds to `key`.
    pub fn get(&self, key: &str) -> (r: Option<Gc>)
        ensures
            r == (if self.entries().dom().contains(key@) {
                Some(Gc { ptr: self.entries()[key@] })
            } else {
                None::<Gc>
            }),
    {
        match self.map.get(key) {
            Some(p) => Some(Gc { ptr: p }),
            None => None,
        }
    }

    /// The number of bindings of this scope itself.
    pub fn len(&self) -> (n: usize)
        ensures
            n == self.entries().dom().len(),
    {
        self.map.len()
    }

    pub fn is_empty(&self) -> (b: bool)
        ensures
            b == (self.entries().dom().len() == 0),
    {
        self.map.len() == 0
    }

    /// The scope this one extends.
    pub fn parent(&self) -> (p: Option<Gc>)
        ensures
            p == self.parent_of(),
    {
        self.parent
    }

    /// A copy of the scope.
    pub fn copy(&self) -> (s: PersistentScope)
        ensures
            s.entries() == self.entries(),
            s.parent_of() == self.parent_of(),
    {
        PersistentScope { map: self.map.copy(), parent: self.parent }
    }
}

/// The value that `name` is bound to, seen from the scope `scope`: its own binding,
/// else the one seen from the scope it extends. Each scope extends one made before it.
pub open spec fn scope_lookup(h: Seq<Option<Object>>, scope: Gc, name: Seq<char>) -> Option<Gc>
    decreases scope.ptr,
{
    if !live_in(h, scope) {
        None
    } else {
        match object_in(h, scope).value {
            Data::PersistentScope(s) => if s.entries().dom().contains(name) {
                Some(Gc { ptr: s.entries()[name] })
            } else {
                match s.parent {
                    Some(p) => if p.ptr < scope.ptr {
                        scope_lookup(h, p, name)
                    } else {
                        None
                    },
                    None => None,
                }
            },
            _ => None,
        }
    }
}

/// The value bound to `name`, seen from `scope`, when it is of type `tag`.
pub open spec fn scope_lookup_tag(h: Seq<Option<Object>>, scope: Gc, name: Seq<char>, tag: Tag) -> Option<Gc> {
    match scope_lookup(h, scope, name) {
        Some(g) => if live_in(h, g) && object_in(h, g).value.tag_of() == tag {
            Some(g)
        } else {
            None
        },
        None => None,
    }
}

/// The outermost scope that `scope` extends, through scopes made before it.
pub open spec fn scope_root(h: Seq<Option<Object>>, scope: Gc) -> Gc
    decreases scope.ptr,
{
    if !live_in(h, scope) {
        scope
    } else {
        match object_in(h, scope).value {
            Data::PersistentScope(s) => match s.parent {
                Some(p) => if p.ptr < scope.ptr && live_in(h, p) {
                    scope_root(h, p)
                } else {
                    scope
                },
                None => scope,
            },
            _ => scope,
        }
    }
}

/// Whether `new` is `old` with one more object, `g`, of the given kind and metadata,
/// unmarked.
pub open spec fn allocated(old: Seq<Option<Object>>, new: Seq<Option<Object>>, g: Gc, kind: Gc, meta: Option<Gc>) -> bool {
    &&& new.len() == old.len() + 1
    &&& new.take(old.len() as int) == old
    &&& g.ptr == old.len()
    &&& new[g.ptr as int] is Some
    &&& object_in(new, g).kind == kind
    &&& object_in(new, g).meta == meta
    &&& !object_in(new, g).marked
}

/// The scope that `scope` extends.
pub fn scope_parent(heap: &GcAllocator, scope: Gc) -> (r: Option<Gc>)
    ensures
        r == (if live_in(heap@, scope) {
            match object_in(heap@, scope).value {
                Data::PersistentScope(s) => s.parent,
                _ => None::<Gc>,
            }
        } else {
            None::<Gc>
        }),
{
    match heap.data(scope) {
        Some(Data::PersistentScope(s)) => s.parent,
        _ => None,
    }
}

/// The outermost scope that `scope` extends.
pub fn get_scope_root(heap: &GcAllocator, scope: Gc) -> (r: Gc)
    ensures
        r == scope_root(heap@, scope),
    decreases scope.ptr,
{
    match heap.data(scope) {
        Some(Data::PersistentScope(s)) => match s.parent {
            Some(p) => if p.ptr < scope.ptr && heap.is_live(p) {
                get_scope_root(heap, p)
            } else {
                scope
            },
            None => scope,
        },
        _ => scope,
    }
}

/// The value bound to `ident`, seen from `scope`.
pub fn scope_get_by_value(heap: &GcAllocator, scope: Gc, ident: &str) -> (r: Option<Gc>)
    ensures
        r == scope_lookup(heap@, scope, ident@),
{
    let mut cur = scope;
    loop
        invariant
            scope_lookup(heap@, scope, ident@) == scope_lookup(heap@, cur, ident@),
        decreases cur.ptr,
    {
        match heap.data(cur) {
            Some(Data::PersistentScope(s)) => {
                match s.get(ident) {
                    Some(v) => {
                        return Some(v);
                    },
                    None => match s.parent {
                        Some(p) => if p.ptr < cur.ptr {
                            cur = p;
                        } else {
                            return None;
                        },
                        None => {
                            return None;
                        },
                    },
                }
            },
            _ => {
                return None;
            },
        }
    }
}

/// The value bound to `ident`, seen from `scope`.
pub fn scope_get(heap: &GcAllocator, scope: Gc, ident: &str) -> (r: Option<Gc>)
    ensures
        r == scope_lookup(heap@, scope, ident@),
{
    scope_get_by_value(heap, scope, ident)
}

/// The value bound to `ident`, seen from `scope`, when it is of type `tag`.
pub fn scope_get_with_kind(heap: &GcAllocator, scope: Gc, ident: &str, tag: Tag) -> (r: Option<Gc>)
    ensures
        r == scope_lookup_tag(heap@, scope, ident@, tag),
{
    match scope_get(heap, scope, ident) {
        Some(g) => match heap.data(g) {
            Some(d) => if d.tag() == tag {
                Some(g)
            } else {
                None
            },
            None => None,
        },
        None => None,
    }
}

/// The kind of scopes, bound to `PersistentScope`.
pub fn persistent_scope_kind(heap: &GcAllocator, scope: Gc) -> (r: Result<Gc, Fault>)
    ensures
        r == (match scope_lookup_tag(heap@, scope, "PersistentScope"@, Tag::Kind) {
            Some(k) => Ok::<Gc, Fault>(k),
            None => Err(Fault::KindNotFound),
        }),
{
    match scope_get_with_kind(heap, scope, "PersistentScope", Tag::Kind) {
        Some(k) => Ok(k),
        None => Err(Fault::KindNotFound),
    }
}

/// A new scope object holding `persistent_scope`, of the kind of scopes seen from `scope`.
pub fn new_persistent_scope_from(heap: &mut GcAllocator, scope: Gc, persistent_scope: PersistentScope) -> (r: Result<Gc, Fault>)
    ensures
        match scope_lookup_tag(old(heap)@, scope, "PersistentScope"@, Tag::Kind) {
            Some(k) => r matches Ok(g) && allocated(old(heap)@, final(heap)@, g, k, None)
                && object_in(final(heap)@, g).value == Data::PersistentScope(persistent_scope),
            None => r matches Err(Fault::KindNotFound) && final(heap)@ == old(heap)@,
        },
{
    let kind = match persistent_scope_kind(heap, scope) {
        Ok(k) => k,
        Err(e) => {
            return Err(e);
        },
    };
    let g = heap.unsafe_alloc(Object::new(kind, Data::PersistentScope(persistent_scope)));
    assert(final(heap)@.take(old(heap)@.len() as int) =~= old(heap)@);
    Ok(g)
}

/// A new empty scope extending `parent`.
pub fn new_persistent_scope(heap: &mut GcAllocator, parent: Gc) -> (r: Result<Gc, Fault>)
    ensures
        match scope_lookup_tag(old(heap)@, parent, "PersistentScope"@, Tag::Kind) {
            Some(k) => r matches Ok(g) && (allocated(old(heap)@, final(heap)@, g, k, None)
                && (object_in(final(heap)@, g).value matches Data::PersistentScope(s)
                && s.entries() == Map::<Seq<char>, usize>::empty() && s.parent == Some(parent))),
            None => r matches Err(Fault::KindNotFound) && final(heap)@ == old(heap)@,
        },
{
    new_persistent_scope_from(heap, parent, PersistentScope::with_parent(Some(parent)))
}

/// A new empty scope extending `parent`.
pub fn new_scope(heap: &mut GcAllocator, parent: Gc) -> (r: Result<Gc, Fault>)
    ensures
        match scope_lookup_tag(old(heap)@, parent, "PersistentScope"@, Tag::Kind) {
            Some(k) => r matches Ok(g) && (allocated(old(heap)@, final(heap)@, g, k, None)
                && (object_in(final(heap)@, g).value matches Data::PersistentScope(s)
                && s.entries() == Map::<Seq<char>, usize>::empty() && s.parent == Some(parent))),
            None => r matches Err(Fault::KindNotFound) && final(heap)@ == old(heap)@,
        },
{
    new_persistent_scope(heap, parent)
}

/// Whether `r` and the heap `h2` are what binding `ident` to `value` in `scope` gives from
/// the heap `h`: a new scope, of the kind of scopes seen from `scope`, with the bindings of
/// `scope` and that one, extending what `scope` extends.
pub open spec fn scope_set_done(h: Seq<Option<Object>>, h2: Seq<Option<Object>>, r: Result<Gc, Fault>, scope: Gc, ident: Seq<char>, value: Gc) -> bool {
    match (if live_in(h, scope) { Some(object_in(h, scope).value) } else { None::<Data> }) {
        Some(Data::PersistentScope(s)) => match scope_lookup_tag(h, scope, "PersistentScope"@, Tag::Kind) {
            Some(k) => r matches Ok(g) && (allocated(h, h2, g, k, None) && (object_in(h2, g).value matches Data::PersistentScope(n)
                && n.entries() == s.entries().insert(ident, value.ptr) && n.parent == s.parent)),
            None => r matches Err(Fault::KindNotFound) && h2 == h,
        },
        _ => r matches Err(Fault::NotAScope) && h2 == h,
    }
}

/// A new scope object: the scope `scope` with `ident` bound to `value`.
pub fn scope_set(heap: &mut GcAllocator, scope: Gc, ident: &str, value: Gc) -> (r: Result<Gc, Fault>)
    ensures
        scope_set_done(old(heap)@, final(heap)@, r, scope, ident@, value),
        match (if live_in(old(heap)@, scope) { Some(object_in(old(heap)@, scope).value) } else { None::<Data> }) {
            Some(Data::PersistentScope(s)) => match scope_lookup_tag(old(heap)@, scope, "PersistentScope"@, Tag::Kind) {
                Some(k) => r matches Ok(g) && (allocated(old(heap)@, final(heap)@, g, k, None)
                    && (object_in(final(heap)@, g).value matches Data::PersistentScope(n)
                    && n.entries() == s.entries().insert(ident@, value.ptr) && n.parent == s.parent)),
                None => r matches Err(Fault::KindNotFound) && final(heap)@ == old(heap)@,
            },
            _ => r matches Err(Fault::NotAScope) && final(heap)@ == old(heap)@,
        },
{
    let new_scope = match heap.data(scope) {
        Some(Data::PersistentScope(s)) => s.set(ident, value),
        _ => {
            return Err(Fault::NotAScope);
        },
    };
    new_persistent_scope_from(heap, scope, new_scope)
}

/// A binding found in a heap is found, the same, in any heap that extends it.
pub proof fn lemma_lookup_extends(h: Seq<Option<Object>>, h2: Seq<Option<Object>>, scope: Gc, name: Seq<char>)
    requires
        extends(h, h2),
        scope_lookup(h, scope, name) is Some,
    ensures
        scope_lookup(h2, scope, name) == scope_lookup(h, scope, name),
    decreases scope.ptr,
{
    assert(h2[scope.ptr as int] == h[scope.ptr as int]);
    match object_in(h, scope).value {
        Data::PersistentScope(s) => {
            if !s.entries().dom().contains(name) {
                match s.parent {
                    Some(p) => {
                        if p.ptr < scope.ptr {
                            lemma_lookup_extends(h, h2, p, name);
                        }
                    },
                    None => {},
                }
            }
        },
        _ => {},
    }
}

/// A value of a type found bound in a heap is found, the same, in any heap that extends it.
pub proof fn lemma_lookup_tag_extends(h: Seq<Option<Object>>, h2: Seq<Option<Object>>, scope: Gc, name: Seq<char>, tag: Tag)
    requires
        extends(h, h2),
        scope_lookup_tag(h, scope, name, tag) is Some,
    ensures
        scope_lookup_tag(h2, scope, name, tag) == scope_lookup_tag(h, scope, name, tag),
{
    lemma_lookup_extends(h, h2, scope, name);
    let g = scope_lookup(h, scope, name)->0;
    assert(h2[g.ptr as int] == h[g.ptr as int]);
}


/// What a lookup gives back of a definition: in the scope that binding `ident` to `value`
/// makes, `ident` is found bound to `value`.
pub proof fn lemma_lookup_after_set(h: Seq<Option<Object>>, h2: Seq<Option<Object>>, scope: Gc, ident: Seq<char>, value: Gc, g: Gc)
    requires
        scope_set_done(h, h2, Ok(g), scope, ident, value),
    ensures
        scope_lookup(h2, g, ident) == Some(value),
{
    assert(g.ptr == h.len());
    assert(h2[g.ptr as int] is Some);
}

} // verus!
