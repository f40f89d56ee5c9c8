use vstd::prelude::*;

use crate::atom::Atom;
use crate::escape::Escape;
use crate::function::Function;
use crate::fault::Fault;
use crate::gc::{Gc, Trace};
use crate::gc_allocator::{extends, live_in, object_in, GcAllocator};
use crate::persistent_scope::{allocated, scope_get_with_kind, scope_lookup_tag};
use crate::keyword::Keyword;
use crate::kind::Kind;
use crate::linked_map::LinkedMap;
use crate::list::List;
use crate::map::ValueMap;
use crate::persistent_list::PersistentList;
use crate::persistent_map::PersistentMap;
use crate::persistent_scope::PersistentScope;
use crate::persistent_set::PersistentSet;
use crate::persistent_vector::PersistentVector;
use crate::scope::Scope;
use crate::set::ValueSet;
use crate::special_form::SpecialForm;
use crate::stack::Stack;
use crate::symbol::Symbol;
use crate::vector::Vector;

verus! {

/// What an object holds: one case for each type of value the runtime knows.
pub enum Data {
    Nil,
    Bool(bool),
    Char(char),
    Str(String),
    U8(u8),
    U16(u16),
    U32(u32),
    U64(u64),
    USize(usize),
    I8(i8),
    I16(i16),
    I32(i32),
    I64(i64),
    ISize(isize),
    Symbol(Symbol),
    Keyword(Keyword),
    Kind(Kind),
    Escape(Escape),
    Atom(Atom),
    PersistentList(PersistentList),
    PersistentVector(PersistentVector),
    PersistentMap(PersistentMap),
    PersistentSet(PersistentSet),
    PersistentScope(PersistentScope),
    List(List),
    Vector(Vector),
    ValueMap(ValueMap),
    ValueSet(ValueSet),
    LinkedMap(LinkedMap),
    Scope(Scope),
    Function(Function),
    SpecialForm(SpecialForm),
    Stack(Stack),
    /// The heap itself, as a value of the language (`default_gc_allocator`).
    Allocator,
}

/// The type of a value, without its contents.
#[derive(PartialEq, Eq, Structural, Clone, Copy)]
pub enum Tag {
    Nil,
    Bool,
    Char,
    Str,
    U8,
    U16,
    U32,
    U64,
    USize,
    I8,
    I16,
    I32,
    I64,
    ISize,
    Symbol,
    Keyword,
    Kind,
    Escape,
    Atom,
    PersistentList,
    PersistentVector,
    PersistentMap,
    PersistentSet,
    PersistentScope,
    List,
    Vector,
    ValueMap,
    ValueSet,
    LinkedMap,
    Scope,
    Function,
    SpecialForm,
    Stack,
    Allocator,
}

impl Data {
    /// The type of the value.
    pub open spec fn tag_of(self) -> Tag {
        match self {
            Data::Nil => Tag::Nil,
            Data::Bool(_) => Tag::Bool,
            Data::Char(_) => Tag::Char,
            Data::Str(_) => Tag::Str,
            Data::U8(_) => Tag::U8,
            Data::U16(_) => Tag::U16,
            Data::U32(_) => Tag::U32,
            Data::U64(_) => Tag::U64,
            Data::USize(_) => Tag::USize,
            Data::I8(_) => Tag::I8,
            Data::I16(_) => Tag::I16,
            Data::I32(_) => Tag::I32,
            Data::I64(_) => Tag::I64,
            Data::ISize(_) => Tag::ISize,
            Data::Symbol(_) => Tag::Symbol,
            Data::Keyword(_) => Tag::Keyword,
            Data::Kind(_) => Tag::Kind,
            Data::Escape(_) => Tag::Escape,
            Data::Atom(_) => Tag::Atom,
            Data::PersistentList(_) => Tag::PersistentList,
            Data::PersistentVector(_) => Tag::PersistentVector,
            Data::PersistentMap(_) => Tag::PersistentMap,
            Data::PersistentSet(_) => Tag::PersistentSet,
            Data::PersistentScope(_) => Tag::PersistentScope,
            Data::List(_) => Tag::List,
            Data::Vector(_) => Tag::Vector,
            Data::ValueMap(_) => Tag::ValueMap,
            Data::ValueSet(_) => Tag::ValueSet,
            Data::LinkedMap(_) => Tag::LinkedMap,
            Data::Scope(_) => Tag::Scope,
            Data::Function(_) => Tag::Function,
            Data::SpecialForm(_) => Tag::SpecialForm,
            Data::Stack(_) => Tag::Stack,
            Data::Allocator => Tag::Allocator,
        }
    }

    /// The type of the value.
    pub fn tag(&self) -> (t: Tag)
        ensures
            t == self.tag_of(),
    {
        match self {
            Data::Nil => Tag::Nil,
            Data::Bool(_) => Tag::Bool,
            Data::Char(_) => Tag::Char,
            Data::Str(_) => Tag::Str,
            Data::U8(_) => Tag::U8,
            Data::U16(_) => Tag::U16,
            Data::U32(_) => Tag::U32,
            Data::U64(_) => Tag::U64,
            Data::USize(_) => Tag::USize,
            Data::I8(_) => Tag::I8,
            Data::I16(_) => Tag::I16,
            Data::I32(_) => Tag::I32,
            Data::I64(_) => Tag::I64,
            Data::ISize(_) => Tag::ISize,
            Data::Symbol(_) => Tag::Symbol,
            Data::Keyword(_) => Tag::Keyword,
            Data::Kind(_) => Tag::Kind,
            Data::Escape(_) => Tag::Escape,
            Data::Atom(_) => Tag::Atom,
            Data::PersistentList(_) => Tag::PersistentList,
            Data::PersistentVector(_) => Tag::PersistentVector,
            Data::PersistentMap(_) => Tag::PersistentMap,
            Data::PersistentSet(_) => Tag::PersistentSet,
            Data::PersistentScope(_) => Tag::PersistentScope,
            Data::List(_) => Tag::List,
            Data::Vector(_) => Tag::Vector,
            Data::ValueMap(_) => Tag::ValueMap,
            Data::ValueSet(_) => Tag::ValueSet,
            Data::LinkedMap(_) => Tag::LinkedMap,
            Data::Scope(_) => Tag::Scope,
            Data::Function(_) => Tag::Function,
            Data::SpecialForm(_) => Tag::SpecialForm,
            Data::Stack(_) => Tag::Stack,
            Data::Allocator => Tag::Allocator,
        }
    }
}

/// A value on the heap: its kind, optional metadata, the mark bit of the collector,
/// and its contents.
pub struct Object {
    pub marked: bool,
    pub kind: Gc,
    pub meta: Option<Gc>,
    pub value: Data,
}

impl Object {
    /// A fresh, unmarked object without metadata.
    pub fn new(kind: Gc, value: Data) -> (o: Object)
        ensures
            o == (Object { marked: false, kind, meta: None, value }),
    {
        Object { marked: false, kind, meta: None, value }
    }

    /// A fresh, unmarked object with the given metadata.
    pub fn new_with_meta(kind: Gc, value: Data, meta: Option<Gc>) -> (o: Object)
        ensures
            o == (Object { marked: false, kind, meta, value }),
    {
        Object { marked: false, kind, meta, value }
    }

    /// The contents of the object.
    pub fn value(&self) -> (v: &Data)
        ensures
            *v == self.value,
    {
        &self.value
    }

    /// The metadata of the object.
    pub fn meta(&self) -> (m: Option<Gc>)
        ensures
            m == self.meta,
    {
        self.meta
    }

    /// Replaces the metadata of the object.
    pub fn set_meta(&mut self, meta: Gc)
        ensures
            *final(self) == (Object { meta: Some(meta), ..*old(self) }),
    {
        self.meta = Some(meta);
    }

    /// The kind of the object.
    pub fn kind(&self) -> (k: Gc)
        ensures
            k == self.kind,
    {
        self.kind
    }

    /// Takes the contents out of the object.
    pub fn into_value(self) -> (v: Data)
        ensures
            v == self.value,
    {
        self.value
    }
}

impl Trace for Object {
    fn is_marked(&self) -> (b: bool)
        ensures
            b == self.marked,
    {
        self.marked
    }

    fn trace(&mut self, marked: bool)
        ensures
            *final(self) == (Object { marked, ..*old(self) }),
    {
        self.marked = marked;
    }
}

/// Tracing an object twice with the same mark is tracing it once: only its mark changes,
/// and the second trace finds it set. (Tracing what it holds is the marking of `collect`,
/// which collecting twice leaves as collecting once: `lemma_collect_twice`.)
pub proof fn lemma_trace_twice(o: Object, marked: bool)
    ensures
        (Object { marked, ..(Object { marked, ..o }) }) == (Object { marked, ..o }),
        (Object { marked, ..o }).kind == o.kind && (Object { marked, ..o }).value == o.value && (Object { marked, ..o }).meta == o.meta,
{
}

impl Gc {
    /// Whether this handle refers to a value of type `tag` in `heap`.
    pub fn is(&self, heap: &GcAllocator, tag: Tag) -> (b: bool)
        ensures
            b == (live_in(heap@, *self) && object_in(heap@, *self).value.tag_of() == tag),
    {
        match heap.data(*self) {
            Some(d) => d.tag() == tag,
            None => false,
        }
    }
}

/// Whether `r` and the heap `new` are what making an object of the kind bound to
/// `name` in `scope` gives from the heap `old`: a new object of that kind with the
/// metadata `meta`, or `KindNotFound` with the heap unchanged when `name` is not bound
/// to a kind.
pub open spec fn made_object(
    old: Seq<Option<Object>>,
    new: Seq<Option<Object>>,
    r: Result<Gc, Fault>,
    scope: Gc,
    name: Seq<char>,
    meta: Option<Gc>,
) -> bool {
    match scope_lookup_tag(old, scope, name, Tag::Kind) {
        Some(k) => r matches Ok(g) && allocated(old, new, g, k, meta),
        None => r matches Err(Fault::KindNotFound) && new == old,
    }
}

/// The kind bound to `name` in `scope`, or `KindNotFound`.
pub open spec fn kind_result(h: Seq<Option<Object>>, scope: Gc, name: Seq<char>) -> Result<Gc, Fault> {
    match scope_lookup_tag(h, scope, name, Tag::Kind) {
        Some(k) => Ok(k),
        None => Err(Fault::KindNotFound),
    }
}

/// The kind bound to `name` in `scope`.
pub fn kind_named(heap: &GcAllocator, scope: Gc, name: &str) -> (r: Result<Gc, Fault>)
    ensures
        r == kind_result(heap@, scope, name@),
{
    match scope_get_with_kind(heap, scope, name, Tag::Kind) {
        Some(k) => Ok(k),
        None => Err(Fault::KindNotFound),
    }
}

/// The value of type `tag` bound to `name` in `scope`, or `ValueNotFound`.
pub open spec fn value_result(h: Seq<Option<Object>>, scope: Gc, name: Seq<char>, tag: Tag) -> Result<Gc, Fault> {
    match scope_lookup_tag(h, scope, name, tag) {
        Some(v) => Ok(v),
        None => Err(Fault::ValueNotFound),
    }
}

/// The value of type `tag` bound to `name` in `scope`.
pub fn value_named(heap: &GcAllocator, scope: Gc, name: &str, tag: Tag) -> (r: Result<Gc, Fault>)
    ensures
        r == value_result(heap@, scope, name@, tag),
{
    match scope_get_with_kind(heap, scope, name, tag) {
        Some(v) => Ok(v),
        None => Err(Fault::ValueNotFound),
    }
}

/// A string holding the characters of `s`.
pub fn string_from(s: &str) -> (r: String)
    ensures
        r@ == s@,
{
    s.to_string()
}

/// Places `object` on the heap.
pub fn new_object(heap: &mut GcAllocator, object: Object) -> (g: Gc)
    ensures
        final(heap)@ == old(heap)@.push(Some(object)),
        g.ptr == old(heap)@.len(),
{
    heap.unsafe_alloc(object)
}

/// A new object of the kind `kind` holding `value`, with the metadata `meta`.
pub fn alloc_of_kind(heap: &mut GcAllocator, kind: Gc, value: Data, meta: Option<Gc>) -> (g: Gc)
    ensures
        final(heap)@ == old(heap)@.push(Some(Object { marked: false, kind, meta, value })),
        g.ptr == old(heap)@.len(),
        allocated(old(heap)@, final(heap)@, g, kind, meta),
        extends(old(heap)@, final(heap)@),
        object_in(final(heap)@, g).value == value,
{
    let g = heap.unsafe_alloc(Object::new_with_meta(kind, value, meta));
    assert(final(heap)@.take(old(heap)@.len() as int) =~= old(heap)@);
    g
}

/// A new object holding `value`, of the kind bound to `kind_name` in `scope`, with the
/// metadata `meta`.
pub fn new_object_of_kind(heap: &mut GcAllocator, scope: Gc, kind_name: &str, value: Data, meta: Option<Gc>) -> (r: Result<Gc, Fault>)
    ensures
        made_object(old(heap)@, final(heap)@, r, scope, kind_name@, meta),
        r matches Ok(g) ==> object_in(final(heap)@, g).value == value,
{
    match scope_get_with_kind(heap, scope, kind_name, Tag::Kind) {
        Some(k) => {
            let g = heap.unsafe_alloc(Object::new_with_meta(k, value, meta));
            assert(final(heap)@.take(old(heap)@.len() as int) =~= old(heap)@);
            Ok(g)
        },
        None => Err(Fault::KindNotFound),
    }
}

} // verus!
