use vstd::prelude::*;

use crate::fault::Fault;
use crate::gc::Gc;
use crate::gc_allocator::{object_in, GcAllocator};
use crate::object::{alloc_of_kind, kind_named, kind_result, made_object, new_object_of_kind, string_from, value_named, value_result, Data, Object, Tag};
use crate::gc_allocator::{extends, live_in};
use crate::function::{lemma_provided_extends, make_provided, provided_function, Function};
use crate::function_kind::{Builtin, Collection, CompareOp, NumberOp, NumberType};
use crate::special_form::{SpecialForm, SpecialFormKind};
use crate::stack::Stack;
use crate::kind::Kind;
use crate::scope::Scope;
use crate::scope_table::{table_entries, ScopeTable};
use crate::persistent_scope::PersistentScope;
use crate::atom::Atom;
use crate::symbol::Symbol;
use crate::keyword::Keyword;
use crate::escape::Escape;
use crate::list::List;
use crate::vector::Vector;
use crate::map::ValueMap;
use crate::set::ValueSet;
use crate::persistent_list::PersistentList;
use crate::persistent_vector::PersistentVector;
use crate::persistent_map::PersistentMap;
use crate::persistent_set::PersistentSet;
use crate::linked_map::LinkedMap;

verus! {

/// The kind of `nil`, bound to `Nil` in `scope`.
pub fn nil_kind(heap: &GcAllocator, scope: Gc) -> (r: Result<Gc, Fault>)
    ensures
        r == kind_result(heap@, scope, "Nil"@),
{
    kind_named(heap, scope, "Nil")
}

/// The value bound to `nil` in `scope`, shared by all uses.
pub fn nil_value(heap: &GcAllocator, scope: Gc) -> (r: Result<Gc, Fault>)
    ensures
        r == value_result(heap@, scope, "nil"@, Tag::Nil),
{
    value_named(heap, scope, "nil", Tag::Nil)
}

/// The kind of characters, bound to `Char` in `scope`.
pub fn char_kind(heap: &GcAllocator, scope: Gc) -> (r: Result<Gc, Fault>)
    ensures
        r == kind_result(heap@, scope, "Char"@),
{
    kind_named(heap, scope, "Char")
}

/// A new character object holding `value`.
pub fn new_char(heap: &mut GcAllocator, scope: Gc, value: char) -> (r: Result<Gc, Fault>)
    ensures
        made_object(old(heap)@, final(heap)@, r, scope, "Char"@, None),
        r matches Ok(g) ==> object_in(final(heap)@, g).value == Data::Char(value),
{
    new_object_of_kind(heap, scope, "Char", Data::Char(value), None)
}

/// The kind of strings, bound to `String` in `scope`.
pub fn string_kind(heap: &GcAllocator, scope: Gc) -> (r: Result<Gc, Fault>)
    ensures
        r == kind_result(heap@, scope, "String"@),
{
    kind_named(heap, scope, "String")
}

/// A new string object holding the characters of `value`.
pub fn new_string(heap: &mut GcAllocator, scope: Gc, value: &str) -> (r: Result<Gc, Fault>)
    ensures
        made_object(old(heap)@, final(heap)@, r, scope, "String"@, None),
        r matches Ok(g) ==> (object_in(final(heap)@, g).value matches Data::Str(x) && x@ == value@),
{
    new_object_of_kind(heap, scope, "String", Data::Str(string_from(value)), None)
}


/// What a name of the first scope is bound to.
#[verifier::ext_equal]
pub enum Binding {
    /// A kind named like the name, whose kind is the kind of kinds.
    Kind,
    Nil,
    Bool(bool),
    /// An empty evaluator stack.
    Stack,
    /// The heap, as the value `default_gc_allocator`.
    Allocator,
    Special(SpecialFormKind),
    /// A provided function (a macro when the flag is set) with the named parameters,
    /// running the given body.
    Provided(bool, Seq<Seq<char>>, Builtin),
}

/// How a binding of the first scope, other than a kind, is made.
pub enum Make {
    Nil,
    Bool(bool),
    Stack,
    Allocator,
    Special(SpecialFormKind),
    Provided(bool, Vec<&'static str>, Builtin),
}

/// The binding that `m` makes.
pub open spec fn make_binding(m: Make) -> Binding {
    match m {
        Make::Nil => Binding::Nil,
        Make::Bool(b) => Binding::Bool(b),
        Make::Stack => Binding::Stack,
        Make::Allocator => Binding::Allocator,
        Make::Special(k) => Binding::Special(k),
        Make::Provided(is_macro, params, body) => Binding::Provided(is_macro, params@.map_values(|p: &str| p@), body),
    }
}

/// The names of the kinds of the first scope, in the order they are bound.
pub open spec fn kind_names() -> Seq<Seq<char>> {
    seq![
        "Kind"@,
        "Scope"@,
        "GcAllocator"@,
        "Nil"@,
        "Bool"@,
        "Char"@,
        "String"@,
        "U8"@,
        "U16"@,
        "U32"@,
        "U64"@,
        "USize"@,
        "I8"@,
        "I16"@,
        "I32"@,
        "I64"@,
        "ISize"@,
        "Stack"@,
        "Atom"@,
        "Symbol"@,
        "Keyword"@,
        "Function"@,
        "Macro"@,
        "SpecialForm"@,
        "Escape"@,
        "List"@,
        "Vector"@,
        "Map"@,
        "Set"@,
        "PersistentList"@,
        "PersistentVector"@,
        "PersistentMap"@,
        "PersistentSet"@,
        "PersistentScope"@,
        "LinkedMap"@,
        "F32"@,
        "F64"@
    ]
}

/// The other bindings of the first scope, in the order they are made.
pub open spec fn value_bindings() -> Seq<(Seq<char>, Binding)> {
    seq![
        ("default_gc_allocator"@, Binding::Allocator),
        ("nil"@, Binding::Nil),
        ("true"@, Binding::Bool(true)),
        ("false"@, Binding::Bool(false)),
        ("u8.add"@, Binding::Provided(false, seq!["a"@, "b"@], Builtin::Number(NumberType::U8, NumberOp::Add))),
        ("u8.sub"@, Binding::Provided(false, seq!["a"@, "b"@], Builtin::Number(NumberType::U8, NumberOp::Sub))),
        ("u8.mul"@, Binding::Provided(false, seq!["a"@, "b"@], Builtin::Number(NumberType::U8, NumberOp::Mul))),
        ("u8.div"@, Binding::Provided(false, seq!["a"@, "b"@], Builtin::Number(NumberType::U8, NumberOp::Div))),
        ("u8.eq"@, Binding::Provided(false, seq!["a"@, "b"@], Builtin::Number(NumberType::U8, NumberOp::Eq))),
        ("u16.add"@, Binding::Provided(false, seq!["a"@, "b"@], Builtin::Number(NumberType::U16, NumberOp::Add))),
        ("u16.sub"@, Binding::Provided(false, seq!["a"@, "b"@], Builtin::Number(NumberType::U16, NumberOp::Sub))),
        ("u16.mul"@, Binding::Provided(false, seq!["a"@, "b"@], Builtin::Number(NumberType::U16, NumberOp::Mul))),
        ("u16.div"@, Binding::Provided(false, seq!["a"@, "b"@], Builtin::Number(NumberType::U16, NumberOp::Div))),
        ("u16.eq"@, Binding::Provided(false, seq!["a"@, "b"@], Builtin::Number(NumberType::U16, NumberOp::Eq))),
        ("u32.add"@, Binding::Provided(false, seq!["a"@, "b"@], Builtin::Number(NumberType::U32, NumberOp::Add))),
        ("u32.sub"@, Binding::Provided(false, seq!["a"@, "b"@], Builtin::Number(NumberType::U32, NumberOp::Sub))),
        ("u32.mul"@, Binding::Provided(false, seq!["a"@, "b"@], Builtin::Number(NumberType::U32, NumberOp::Mul))),
        ("u32.div"@, Binding::Provided(false, seq!["a"@, "b"@], Builtin::Number(NumberType::U32, NumberOp::Div))),
        ("u32.eq"@, Binding::Provided(false, seq!["a"@, "b"@], Builtin::Number(NumberType::U32, NumberOp::Eq))),
        ("u64.add"@, Binding::Provided(false, seq!["a"@, "b"@], Builtin::Number(NumberType::U64, NumberOp::Add))),
        ("u64.sub"@, Binding::Provided(false, seq!["a"@, "b"@], Builtin::Number(NumberType::U64, NumberOp::Sub))),
        ("u64.mul"@, Binding::Provided(false, seq!["a"@, "b"@], Builtin::Number(NumberType::U64, NumberOp::Mul))),
        ("u64.div"@, Binding::Provided(false, seq!["a"@, "b"@], Builtin::Number(NumberType::U64, NumberOp::Div))),
        ("u64.eq"@, Binding::Provided(false, seq!["a"@, "b"@], Builtin::Number(NumberType::U64, NumberOp::Eq))),
        ("usize.add"@, Binding::Provided(false, seq!["a"@, "b"@], Builtin::Number(NumberType::USize, NumberOp::Add))),
        ("usize.sub"@, Binding::Provided(false, seq!["a"@, "b"@], Builtin::Number(NumberType::USize, NumberOp::Sub))),
        ("usize.mul"@, Binding::Provided(false, seq!["a"@, "b"@], Builtin::Number(NumberType::USize, NumberOp::Mul))),
        ("usize.div"@, Binding::Provided(false, seq!["a"@, "b"@], Builtin::Number(NumberType::USize, NumberOp::Div))),
        ("usize.eq"@, Binding::Provided(false, seq!["a"@, "b"@], Builtin::Number(NumberType::USize, NumberOp::Eq))),
        ("i8.add"@, Binding::Provided(false, seq!["a"@, "b"@], Builtin::Number(NumberType::I8, NumberOp::Add))),
        ("i8.sub"@, Binding::Provided(false, seq!["a"@, "b"@], Builtin::Number(NumberType::I8, NumberOp::Sub))),
        ("i8.mul"@, Binding::Provided(false, seq!["a"@, "b"@], Builtin::Number(NumberType::I8, NumberOp::Mul))),
        ("i8.div"@, Binding::Provided(false, seq!["a"@, "b"@], Builtin::Number(NumberType::I8, NumberOp::Div))),
        ("i8.eq"@, Binding::Provided(false, seq!["a"@, "b"@], Builtin::Number(NumberType::I8, NumberOp::Eq))),
        ("i16.add"@, Binding::Provided(false, seq!["a"@, "b"@], Builtin::Number(NumberType::I16, NumberOp::Add))),
        ("i16.sub"@, Binding::Provided(false, seq!["a"@, "b"@], Builtin::Number(NumberType::I16, NumberOp::Sub))),
        ("i16.mul"@, Binding::Provided(false, seq!["a"@, "b"@], Builtin::Number(NumberType::I16, NumberOp::Mul))),
        ("i16.div"@, Binding::Provided(false, seq!["a"@, "b"@], Builtin::Number(NumberType::I16, NumberOp::Div))),
        ("i16.eq"@, Binding::Provided(false, seq!["a"@, "b"@], Builtin::Number(NumberType::I16, NumberOp::Eq))),
        ("i32.add"@, Binding::Provided(false, seq!["a"@, "b"@], Builtin::Number(NumberType::I32, NumberOp::Add))),
        ("i32.sub"@, Binding::Provided(false, seq!["a"@, "b"@], Builtin::Number(NumberType::I32, NumberOp::Sub))),
        ("i32.mul"@, Binding::Provided(false, seq!["a"@, "b"@], Builtin::Number(NumberType::I32, NumberOp::Mul))),
        ("i32.div"@, Binding::Provided(false, seq!["a"@, "b"@], Builtin::Number(NumberType::I32, NumberOp::Div))),
        ("i32.eq"@, Binding::Provided(false, seq!["a"@, "b"@], Builtin::Number(NumberType::I32, NumberOp::Eq))),
        ("i64.add"@, Binding::Provided(false, seq!["a"@, "b"@], Builtin::Number(NumberType::I64, NumberOp::Add))),
        ("i64.sub"@, Binding::Provided(false, seq!["a"@, "b"@], Builtin::Number(NumberType::I64, NumberOp::Sub))),
        ("i64.mul"@, Binding::Provided(false, seq!["a"@, "b"@], Builtin::Number(NumberType::I64, NumberOp::Mul))),
        ("i64.div"@, Binding::Provided(false, seq!["a"@, "b"@], Builtin::Number(NumberType::I64, NumberOp::Div))),
        ("i64.eq"@, Binding::Provided(false, seq!["a"@, "b"@], Builtin::Number(NumberType::I64, NumberOp::Eq))),
        ("isize.add"@, Binding::Provided(false, seq!["a"@, "b"@], Builtin::Number(NumberType::ISize, NumberOp::Add))),
        ("isize.sub"@, Binding::Provided(false, seq!["a"@, "b"@], Builtin::Number(NumberType::ISize, NumberOp::Sub))),
        ("isize.mul"@, Binding::Provided(false, seq!["a"@, "b"@], Builtin::Number(NumberType::ISize, NumberOp::Mul))),
        ("isize.div"@, Binding::Provided(false, seq!["a"@, "b"@], Builtin::Number(NumberType::ISize, NumberOp::Div))),
        ("isize.eq"@, Binding::Provided(false, seq!["a"@, "b"@], Builtin::Number(NumberType::ISize, NumberOp::Eq))),
        ("bool.not"@, Binding::Provided(false, seq!["value"@], Builtin::BoolNot)),
        ("__stack"@, Binding::Stack),
        ("atom.new"@, Binding::Provided(false, seq!["value"@], Builtin::AtomNew)),
        ("atom.get"@, Binding::Provided(false, seq!["atom"@], Builtin::AtomGet)),
        ("atom.set"@, Binding::Provided(false, seq!["atom"@, "value"@], Builtin::AtomSet)),
        ("="@, Binding::Provided(false, seq!["a"@, "b"@], Builtin::Compare(CompareOp::Eq))),
        ("!="@, Binding::Provided(false, seq!["a"@, "b"@], Builtin::Compare(CompareOp::Ne))),
        (">"@, Binding::Provided(false, seq!["a"@, "b"@], Builtin::Compare(CompareOp::Gt))),
        (">="@, Binding::Provided(false, seq!["a"@, "b"@], Builtin::Compare(CompareOp::Ge))),
        ("<"@, Binding::Provided(false, seq!["a"@, "b"@], Builtin::Compare(CompareOp::Lt))),
        ("<="@, Binding::Provided(false, seq!["a"@, "b"@], Builtin::Compare(CompareOp::Le))),
        ("!"@, Binding::Provided(false, seq!["a"@, "b"@], Builtin::ValueNot)),
        ("kind.of"@, Binding::Provided(false, seq!["value"@], Builtin::KindOf)),
        ("kind.name"@, Binding::Provided(false, seq!["value"@], Builtin::KindName)),
        ("kind.size"@, Binding::Provided(false, seq!["value"@], Builtin::KindSize)),
        ("kind.align"@, Binding::Provided(false, seq!["value"@], Builtin::KindAlign)),
        ("gc_allocator.collect"@, Binding::Provided(true, seq!["gc_allocator"@], Builtin::GcAllocatorCollect)),
        ("if"@, Binding::Special(SpecialFormKind::If)),
        ("fn"@, Binding::Special(SpecialFormKind::Fn)),
        ("macro"@, Binding::Special(SpecialFormKind::Macro)),
        ("def"@, Binding::Special(SpecialFormKind::Def)),
        ("do"@, Binding::Special(SpecialFormKind::Do)),
        ("quote"@, Binding::Special(SpecialFormKind::Quote)),
        ("eval"@, Binding::Special(SpecialFormKind::Eval)),
        ("read"@, Binding::Special(SpecialFormKind::Read)),
        ("expand"@, Binding::Special(SpecialFormKind::Expand)),
        ("throw"@, Binding::Special(SpecialFormKind::Throw)),
        ("try"@, Binding::Special(SpecialFormKind::Try)),
        ("list.is_empty"@, Binding::Provided(false, seq!["list"@], Builtin::IsEmpty(Collection::List))),
        ("list.len"@, Binding::Provided(false, seq!["list"@], Builtin::Len(Collection::List))),
        ("list.nth"@, Binding::Provided(false, seq!["list"@, "index"@], Builtin::Nth(Collection::List))),
        ("list.get"@, Binding::Provided(false, seq!["list"@, "index"@], Builtin::Nth(Collection::List))),
        ("list.push_front"@, Binding::Provided(false, seq!["list"@, "...args"@], Builtin::PushFront(Collection::List))),
        ("list.push_back"@, Binding::Provided(false, seq!["list"@, "...args"@], Builtin::PushBack(Collection::List))),
        ("vector.is_empty"@, Binding::Provided(false, seq!["vector"@], Builtin::IsEmpty(Collection::Vector))),
        ("vector.len"@, Binding::Provided(false, seq!["vector"@], Builtin::Len(Collection::Vector))),
        ("vector.nth"@, Binding::Provided(false, seq!["vector"@, "index"@], Builtin::Nth(Collection::Vector))),
        ("vector.get"@, Binding::Provided(false, seq!["vector"@, "index"@], Builtin::Nth(Collection::Vector))),
        ("vector.push_front"@, Binding::Provided(false, seq!["vector"@, "...args"@], Builtin::PushFront(Collection::Vector))),
        ("vector.push_back"@, Binding::Provided(false, seq!["vector"@, "...args"@], Builtin::PushBack(Collection::Vector))),
        ("vector.insert"@, Binding::Provided(false, seq!["vector"@, "index"@, "value"@], Builtin::Insert(Collection::Vector))),
        ("map.is_empty"@, Binding::Provided(false, seq!["map"@], Builtin::IsEmpty(Collection::ValueMap))),
        ("map.len"@, Binding::Provided(false, seq!["map"@], Builtin::Len(Collection::ValueMap))),
        ("map.get"@, Binding::Provided(false, seq!["map"@, "key"@], Builtin::Get(Collection::ValueMap))),
        ("map.remove"@, Binding::Provided(false, seq!["map"@, "key"@], Builtin::Remove(Collection::ValueMap))),
        ("map.has"@, Binding::Provided(false, seq!["map"@, "key"@], Builtin::Has(Collection::ValueMap))),
        ("map.set"@, Binding::Provided(false, seq!["map"@, "key"@, "value"@], Builtin::Put(Collection::ValueMap))),
        ("set.is_empty"@, Binding::Provided(false, seq!["set"@], Builtin::IsEmpty(Collection::ValueSet))),
        ("set.len"@, Binding::Provided(false, seq!["set"@], Builtin::Len(Collection::ValueSet))),
        ("set.get"@, Binding::Provided(false, seq!["set"@, "key"@], Builtin::Get(Collection::ValueSet))),
        ("set.remove"@, Binding::Provided(false, seq!["set"@, "key"@], Builtin::Remove(Collection::ValueSet))),
        ("set.has"@, Binding::Provided(false, seq!["set"@, "key"@], Builtin::Has(Collection::ValueSet))),
        ("set.add"@, Binding::Provided(false, seq!["set"@, "value"@], Builtin::Add(Collection::ValueSet))),
        ("global_error_handler"@, Binding::Provided(false, seq!["error"@], Builtin::GlobalErrorHandler))
    ]
}

/// The bindings of the first scope, in the order they are made.
pub open spec fn context_bindings() -> Seq<(Seq<char>, Binding)> {
    kind_names().map_values(|n: Seq<char>| (n, Binding::Kind)) + value_bindings()
}

/// The table of a scope binding the names of `bs` in turn to the objects `ptrs`.
pub open spec fn bound_entries(bs: Seq<(Seq<char>, Binding)>, ptrs: Seq<Gc>) -> Map<Seq<char>, usize>
    decreases bs.len(),
{
    if bs.len() == 0 {
        Map::empty()
    } else {
        bound_entries(bs.drop_last(), ptrs.drop_last()).insert(bs.last().0, ptrs.last().ptr)
    }
}

/// Whether `k` refers to a kind named `name`.
pub open spec fn kind_named_in(h: Seq<Option<Object>>, k: Gc, name: Seq<char>) -> bool {
    live_in(h, k) && (object_in(h, k).value matches Data::Kind(x) && x.name@ == name)
}

/// Whether `g` refers to a kind named `name` whose kind is `kinds`, the kind of kinds.
pub open spec fn kind_holds(h: Seq<Option<Object>>, kinds: Gc, g: Gc, name: Seq<char>) -> bool {
    &&& live_in(h, g)
    &&& object_in(h, g).kind == kinds
    &&& object_in(h, g).value matches Data::Kind(x) && x.name@ == name
}

/// Whether `g` refers to what the binding `b` of `name` makes, in the first scope `root`
/// whose kind of kinds is `kinds`.
pub open spec fn binding_holds(h: Seq<Option<Object>>, root: Gc, kinds: Gc, g: Gc, name: Seq<char>, b: Binding) -> bool {
    let o = object_in(h, g);
    &&& live_in(h, g)
    &&& match b {
        Binding::Kind => kind_holds(h, kinds, g, name),
        Binding::Nil => o.value == Data::Nil && kind_named_in(h, o.kind, "Nil"@),
        Binding::Bool(v) => o.value == Data::Bool(v) && kind_named_in(h, o.kind, "Bool"@),
        Binding::Stack => kind_named_in(h, o.kind, "Stack"@) && (o.value matches Data::Stack(s) && s.value@.len() == 0
            && s.scope@.len() == 0 && s.callable@.len() == 0 && s.state@.len() == 0),
        Binding::Allocator => o.value == Data::Allocator && kind_named_in(h, o.kind, "GcAllocator"@),
        Binding::Special(k) => o.value == Data::SpecialForm(SpecialForm(k)) && kind_named_in(h, o.kind, "SpecialForm"@),
        Binding::Provided(is_macro, params, body) => provided_function(h, g, root, o.kind, name, params, body) && kind_named_in(
            h,
            o.kind,
            if is_macro { "Macro"@ } else { "Function"@ },
        ),
    }
}

/// A binding found made in a heap is found, the same, in any heap that extends it.
pub proof fn lemma_binding_extends(h: Seq<Option<Object>>, h2: Seq<Option<Object>>, root: Gc, kinds: Gc, g: Gc, name: Seq<char>, b: Binding)
    requires
        extends(h, h2),
        binding_holds(h, root, kinds, g, name, b),
    ensures
        binding_holds(h2, root, kinds, g, name, b),
{
    let o = object_in(h, g);
    assert(h2[g.ptr as int] == h[g.ptr as int]);
    if !(b is Kind) {
        assert(h2[o.kind.ptr as int] == h[o.kind.ptr as int]);
    }
    if let Binding::Provided(is_macro, params, body) = b {
        lemma_provided_extends(h, h2, g, root, o.kind, name, params, body);
    }
}

/// A binding found made in a heap is found, the same, when an object holding a scope
/// is given new contents.
pub proof fn lemma_binding_rescope(h: Seq<Option<Object>>, root: Gc, o2: Object, kinds: Gc, g: Gc, name: Seq<char>, b: Binding)
    requires
        live_in(h, root),
        object_in(h, root).value is PersistentScope,
        binding_holds(h, root, kinds, g, name, b),
    ensures
        binding_holds(h.update(root.ptr as int, Some(o2)), root, kinds, g, name, b),
{
    let h2 = h.update(root.ptr as int, Some(o2));
    let o = object_in(h, g);
    assert(g.ptr != root.ptr);
    assert(h2[g.ptr as int] == h[g.ptr as int]);
    if !(b is Kind) {
        assert(h2[o.kind.ptr as int] == h[o.kind.ptr as int]);
    }
    if let Binding::Provided(is_macro, params, body) = b {
        let func = o.value->Function_0;
        let n = func.name->Some_0;
        assert(h2[n.ptr as int] == h[n.ptr as int]);
        let v = func.params;
        assert(h2[v.ptr as int] == h[v.ptr as int]);
        let items = object_in(h, v).value->PersistentVector_0;
        assert forall|i: int| 0 <= i < params.len() implies {
            &&& live_in(h2, #[trigger] items@[i])
            &&& object_in(h2, items@[i]).value matches Data::Symbol(x)
            &&& x.0@ == params[i]
        } by {
            assert(h2[items@[i].ptr as int] == h[items@[i].ptr as int]);
        }
    }
}

/// The number of kinds and of other bindings of the first scope.
pub proof fn lemma_context_lengths()
    ensures
        kind_names().len() == 37,
        value_bindings().len() == 108,
        context_bindings().len() == 145,
{
}

/// The kinds of the first scope after the kind of kinds, with the size and alignment of
/// the type each stands for.
fn kind_list() -> (v: Vec<(&'static str, usize, usize)>)
    ensures
        v@.map_values(|k: (&'static str, usize, usize)| k.0@) == kind_names().drop_first(),
{
    let v: Vec<(&'static str, usize, usize)> = vec![
        ("Scope", core::mem::size_of::<Scope>(), core::mem::align_of::<Scope>()),
        ("GcAllocator", core::mem::size_of::<GcAllocator>(), core::mem::align_of::<GcAllocator>()),
        ("Nil", core::mem::size_of::<()>(), core::mem::align_of::<()>()),
        ("Bool", core::mem::size_of::<bool>(), core::mem::align_of::<bool>()),
        ("Char", core::mem::size_of::<char>(), core::mem::align_of::<char>()),
        ("String", core::mem::size_of::<String>(), core::mem::align_of::<String>()),
        ("U8", core::mem::size_of::<u8>(), core::mem::align_of::<u8>()),
        ("U16", core::mem::size_of::<u16>(), core::mem::align_of::<u16>()),
        ("U32", core::mem::size_of::<u32>(), core::mem::align_of::<u32>()),
        ("U64", core::mem::size_of::<u64>(), core::mem::align_of::<u64>()),
        ("USize", core::mem::size_of::<usize>(), core::mem::align_of::<usize>()),
        ("I8", core::mem::size_of::<i8>(), core::mem::align_of::<i8>()),
        ("I16", core::mem::size_of::<i16>(), core::mem::align_of::<i16>()),
        ("I32", core::mem::size_of::<i32>(), core::mem::align_of::<i32>()),
        ("I64", core::mem::size_of::<i64>(), core::mem::align_of::<i64>()),
        ("ISize", core::mem::size_of::<isize>(), core::mem::align_of::<isize>()),
        ("Stack", core::mem::size_of::<Stack>(), core::mem::align_of::<Stack>()),
        ("Atom", core::mem::size_of::<Atom>(), core::mem::align_of::<Atom>()),
        ("Symbol", core::mem::size_of::<Symbol>(), core::mem::align_of::<Symbol>()),
        ("Keyword", core::mem::size_of::<Keyword>(), core::mem::align_of::<Keyword>()),
        ("Function", core::mem::size_of::<Function>(), core::mem::align_of::<Function>()),
        ("Macro", core::mem::size_of::<Function>(), core::mem::align_of::<Function>()),
        ("SpecialForm", core::mem::size_of::<SpecialForm>(), core::mem::align_of::<SpecialForm>()),
        ("Escape", core::mem::size_of::<Escape>(), core::mem::align_of::<Escape>()),
        ("List", core::mem::size_of::<List>(), core::mem::align_of::<List>()),
        ("Vector", core::mem::size_of::<Vector>(), core::mem::align_of::<Vector>()),
        ("Map", core::mem::size_of::<ValueMap>(), core::mem::align_of::<ValueMap>()),
        ("Set", core::mem::size_of::<ValueSet>(), core::mem::align_of::<ValueSet>()),
        ("PersistentList", core::mem::size_of::<PersistentList>(), core::mem::align_of::<PersistentList>()),
        ("PersistentVector", core::mem::size_of::<PersistentVector>(), core::mem::align_of::<PersistentVector>()),
        ("PersistentMap", core::mem::size_of::<PersistentMap>(), core::mem::align_of::<PersistentMap>()),
        ("PersistentSet", core::mem::size_of::<PersistentSet>(), core::mem::align_of::<PersistentSet>()),
        ("PersistentScope", core::mem::size_of::<PersistentScope>(), core::mem::align_of::<PersistentScope>()),
        ("LinkedMap", core::mem::size_of::<LinkedMap>(), core::mem::align_of::<LinkedMap>()),
        ("F32", 4usize, 4usize),
        ("F64", 8usize, 8usize)
    ];
    proof {
        assert(v@.map_values(|k: (&'static str, usize, usize)| k.0@) =~= kind_names().drop_first());
    }
    v
}

/// The other bindings of the first scope, as they are made.
#[verifier::rlimit(50)]
fn value_list() -> (v: Vec<(&'static str, Make)>)
    ensures
        v@.map_values(|e: (&'static str, Make)| (e.0@, make_binding(e.1))) == value_bindings(),
{
    let v: Vec<(&'static str, Make)> = vec![
        ("default_gc_allocator", Make::Allocator),
        ("nil", Make::Nil),
        ("true", Make::Bool(true)),
        ("false", Make::Bool(false)),
        ("u8.add", Make::Provided(false, vec!["a", "b"], Builtin::Number(NumberType::U8, NumberOp::Add))),
        ("u8.sub", Make::Provided(false, vec!["a", "b"], Builtin::Number(NumberType::U8, NumberOp::Sub))),
        ("u8.mul", Make::Provided(false, vec!["a", "b"], Builtin::Number(NumberType::U8, NumberOp::Mul))),
        ("u8.div", Make::Provided(false, vec!["a", "b"], Builtin::Number(NumberType::U8, NumberOp::Div))),
        ("u8.eq", Make::Provided(false, vec!["a", "b"], Builtin::Number(NumberType::U8, NumberOp::Eq))),
        ("u16.add", Make::Provided(false, vec!["a", "b"], Builtin::Number(NumberType::U16, NumberOp::Add))),
        ("u16.sub", Make::Provided(false, vec!["a", "b"], Builtin::Number(NumberType::U16, NumberOp::Sub))),
        ("u16.mul", Make::Provided(false, vec!["a", "b"], Builtin::Number(NumberType::U16, NumberOp::Mul))),
        ("u16.div", Make::Provided(false, vec!["a", "b"], Builtin::Number(NumberType::U16, NumberOp::Div))),
        ("u16.eq", Make::Provided(false, vec!["a", "b"], Builtin::Number(NumberType::U16, NumberOp::Eq))),
        ("u32.add", Make::Provided(false, vec!["a", "b"], Builtin::Number(NumberType::U32, NumberOp::Add))),
        ("u32.sub", Make::Provided(false, vec!["a", "b"], Builtin::Number(NumberType::U32, NumberOp::Sub))),
        ("u32.mul", Make::Provided(false, vec!["a", "b"], Builtin::Number(NumberType::U32, NumberOp::Mul))),
        ("u32.div", Make::Provided(false, vec!["a", "b"], Builtin::Number(NumberType::U32, NumberOp::Div))),
        ("u32.eq", Make::Provided(false, vec!["a", "b"], Builtin::Number(NumberType::U32, NumberOp::Eq))),
        ("u64.add", Make::Provided(false, vec!["a", "b"], Builtin::Number(NumberType::U64, NumberOp::Add))),
        ("u64.sub", Make::Provided(false, vec!["a", "b"], Builtin::Number(NumberType::U64, NumberOp::Sub))),
        ("u64.mul", Make::Provided(false, vec!["a", "b"], Builtin::Number(NumberType::U64, NumberOp::Mul))),
        ("u64.div", Make::Provided(false, vec!["a", "b"], Builtin::Number(NumberType::U64, NumberOp::Div))),
        ("u64.eq", Make::Provided(false, vec!["a", "b"], Builtin::Number(NumberType::U64, NumberOp::Eq))),
        ("usize.add", Make::Provided(false, vec!["a", "b"], Builtin::Number(NumberType::USize, NumberOp::Add))),
        ("usize.sub", Make::Provided(false, vec!["a", "b"], Builtin::Number(NumberType::USize, NumberOp::Sub))),
        ("usize.mul", Make::Provided(false, vec!["a", "b"], Builtin::Number(NumberType::USize, NumberOp::Mul))),
        ("usize.div", Make::Provided(false, vec!["a", "b"], Builtin::Number(NumberType::USize, NumberOp::Div))),
        ("usize.eq", Make::Provided(false, vec!["a", "b"], Builtin::Number(NumberType::USize, NumberOp::Eq))),
        ("i8.add", Make::Provided(false, vec!["a", "b"], Builtin::Number(NumberType::I8, NumberOp::Add))),
        ("i8.sub", Make::Provided(false, vec!["a", "b"], Builtin::Number(NumberType::I8, NumberOp::Sub))),
        ("i8.mul", Make::Provided(false, vec!["a", "b"], Builtin::Number(NumberType::I8, NumberOp::Mul))),
        ("i8.div", Make::Provided(false, vec!["a", "b"], Builtin::Number(NumberType::I8, NumberOp::Div))),
        ("i8.eq", Make::Provided(false, vec!["a", "b"], Builtin::Number(NumberType::I8, NumberOp::Eq))),
        ("i16.add", Make::Provided(false, vec!["a", "b"], Builtin::Number(NumberType::I16, NumberOp::Add))),
        ("i16.sub", Make::Provided(false, vec!["a", "b"], Builtin::Number(NumberType::I16, NumberOp::Sub))),
        ("i16.mul", Make::Provided(false, vec!["a", "b"], Builtin::Number(NumberType::I16, NumberOp::Mul))),
        ("i16.div", Make::Provided(false, vec!["a", "b"], Builtin::Number(NumberType::I16, NumberOp::Div))),
        ("i16.eq", Make::Provided(false, vec!["a", "b"], Builtin::Number(NumberType::I16, NumberOp::Eq))),
        ("i32.add", Make::Provided(false, vec!["a", "b"], Builtin::Number(NumberType::I32, NumberOp::Add))),
        ("i32.sub", Make::Provided(false, vec!["a", "b"], Builtin::Number(NumberType::I32, NumberOp::Sub))),
        ("i32.mul", Make::Provided(false, vec!["a", "b"], Builtin::Number(NumberType::I32, NumberOp::Mul))),
        ("i32.div", Make::Provided(false, vec!["a", "b"], Builtin::Number(NumberType::I32, NumberOp::Div))),
        ("i32.eq", Make::Provided(false, vec!["a", "b"], Builtin::Number(NumberType::I32, NumberOp::Eq))),
        ("i64.add", Make::Provided(false, vec!["a", "b"], Builtin::Number(NumberType::I64, NumberOp::Add))),
        ("i64.sub", Make::Provided(false, vec!["a", "b"], Builtin::Number(NumberType::I64, NumberOp::Sub))),
        ("i64.mul", Make::Provided(false, vec!["a", "b"], Builtin::Number(NumberType::I64, NumberOp::Mul))),
        ("i64.div", Make::Provided(false, vec!["a", "b"], Builtin::Number(NumberType::I64, NumberOp::Div))),
        ("i64.eq", Make::Provided(false, vec!["a", "b"], Builtin::Number(NumberType::I64, NumberOp::Eq))),
        ("isize.add", Make::Provided(false, vec!["a", "b"], Builtin::Number(NumberType::ISize, NumberOp::Add))),
        ("isize.sub", Make::Provided(false, vec!["a", "b"], Builtin::Number(NumberType::ISize, NumberOp::Sub))),
        ("isize.mul", Make::Provided(false, vec!["a", "b"], Builtin::Number(NumberType::ISize, NumberOp::Mul))),
        ("isize.div", Make::Provided(false, vec!["a", "b"], Builtin::Number(NumberType::ISize, NumberOp::Div))),
        ("isize.eq", Make::Provided(false, vec!["a", "b"], Builtin::Number(NumberType::ISize, NumberOp::Eq))),
        ("bool.not", Make::Provided(false, vec!["value"], Builtin::BoolNot)),
        ("__stack", Make::Stack),
        ("atom.new", Make::Provided(false, vec!["value"], Builtin::AtomNew)),
        ("atom.get", Make::Provided(false, vec!["atom"], Builtin::AtomGet)),
        ("atom.set", Make::Provided(false, vec!["atom", "value"], Builtin::AtomSet)),
        ("=", Make::Provided(false, vec!["a", "b"], Builtin::Compare(CompareOp::Eq))),
        ("!=", Make::Provided(false, vec!["a", "b"], Builtin::Compare(CompareOp::Ne))),
        (">", Make::Provided(false, vec!["a", "b"], Builtin::Compare(CompareOp::Gt))),
        (">=", Make::Provided(false, vec!["a", "b"], Builtin::Compare(CompareOp::Ge))),
        ("<", Make::Provided(false, vec!["a", "b"], Builtin::Compare(CompareOp::Lt))),
        ("<=", Make::Provided(false, vec!["a", "b"], Builtin::Compare(CompareOp::Le))),
        ("!", Make::Provided(false, vec!["a", "b"], Builtin::ValueNot)),
        ("kind.of", Make::Provided(false, vec!["value"], Builtin::KindOf)),
        ("kind.name", Make::Provided(false, vec!["value"], Builtin::KindName)),
        ("kind.size", Make::Provided(false, vec!["value"], Builtin::KindSize)),
        ("kind.align", Make::Provided(false, vec!["value"], Builtin::KindAlign)),
        ("gc_allocator.collect", Make::Provided(true, vec!["gc_allocator"], Builtin::GcAllocatorCollect)),
        ("if", Make::Special(SpecialFormKind::If)),
        ("fn", Make::Special(SpecialFormKind::Fn)),
        ("macro", Make::Special(SpecialFormKind::Macro)),
        ("def", Make::Special(SpecialFormKind::Def)),
        ("do", Make::Special(SpecialFormKind::Do)),
        ("quote", Make::Special(SpecialFormKind::Quote)),
        ("eval", Make::Special(SpecialFormKind::Eval)),
        ("read", Make::Special(SpecialFormKind::Read)),
        ("expand", Make::Special(SpecialFormKind::Expand)),
        ("throw", Make::Special(SpecialFormKind::Throw)),
        ("try", Make::Special(SpecialFormKind::Try)),
        ("list.is_empty", Make::Provided(false, vec!["list"], Builtin::IsEmpty(Collection::List))),
        ("list.len", Make::Provided(false, vec!["list"], Builtin::Len(Collection::List))),
        ("list.nth", Make::Provided(false, vec!["list", "index"], Builtin::Nth(Collection::List))),
        ("list.get", Make::Provided(false, vec!["list", "index"], Builtin::Nth(Collection::List))),
        ("list.push_front", Make::Provided(false, vec!["list", "...args"], Builtin::PushFront(Collection::List))),
        ("list.push_back", Make::Provided(false, vec!["list", "...args"], Builtin::PushBack(Collection::List))),
        ("vector.is_empty", Make::Provided(false, vec!["vector"], Builtin::IsEmpty(Collection::Vector))),
        ("vector.len", Make::Provided(false, vec!["vector"], Builtin::Len(Collection::Vector))),
        ("vector.nth", Make::Provided(false, vec!["vector", "index"], Builtin::Nth(Collection::Vector))),
        ("vector.get", Make::Provided(false, vec!["vector", "index"], Builtin::Nth(Collection::Vector))),
        ("vector.push_front", Make::Provided(false, vec!["vector", "...args"], Builtin::PushFront(Collection::Vector))),
        ("vector.push_back", Make::Provided(false, vec!["vector", "...args"], Builtin::PushBack(Collection::Vector))),
        ("vector.insert", Make::Provided(false, vec!["vector", "index", "value"], Builtin::Insert(Collection::Vector))),
        ("map.is_empty", Make::Provided(false, vec!["map"], Builtin::IsEmpty(Collection::ValueMap))),
        ("map.len", Make::Provided(false, vec!["map"], Builtin::Len(Collection::ValueMap))),
        ("map.get", Make::Provided(false, vec!["map", "key"], Builtin::Get(Collection::ValueMap))),
        ("map.remove", Make::Provided(false, vec!["map", "key"], Builtin::Remove(Collection::ValueMap))),
        ("map.has", Make::Provided(false, vec!["map", "key"], Builtin::Has(Collection::ValueMap))),
        ("map.set", Make::Provided(false, vec!["map", "key", "value"], Builtin::Put(Collection::ValueMap))),
        ("set.is_empty", Make::Provided(false, vec!["set"], Builtin::IsEmpty(Collection::ValueSet))),
        ("set.len", Make::Provided(false, vec!["set"], Builtin::Len(Collection::ValueSet))),
        ("set.get", Make::Provided(false, vec!["set", "key"], Builtin::Get(Collection::ValueSet))),
        ("set.remove", Make::Provided(false, vec!["set", "key"], Builtin::Remove(Collection::ValueSet))),
        ("set.has", Make::Provided(false, vec!["set", "key"], Builtin::Has(Collection::ValueSet))),
        ("set.add", Make::Provided(false, vec!["set", "value"], Builtin::Add(Collection::ValueSet))),
        ("global_error_handler", Make::Provided(false, vec!["error"], Builtin::GlobalErrorHandler))
    ];
    proof {
        assert(v@.map_values(|e: (&'static str, Make)| (e.0@, make_binding(e.1))) =~~= value_bindings());
    }
    v
}

/// Binds the kinds of the first scope in `table`: the kind of kinds first.
fn bind_kinds(heap: &mut GcAllocator, table: &mut ScopeTable) -> (ptrs: Vec<Gc>)
    requires
        old(heap)@.len() > 0,
        table_entries(*old(table)) == Map::<Seq<char>, usize>::empty(),
    ensures
        extends(old(heap)@, final(heap)@),
        ptrs@.len() == 37,
        table_entries(*final(table)) == bound_entries(context_bindings().take(37), ptrs@),
        forall|j: int| 0 <= j < 37 ==> (#[trigger] ptrs@[j]).ptr >= old(heap)@.len(),
        forall|j: int| 0 <= j < 37 ==> kind_holds(final(heap)@, ptrs@[0], #[trigger] ptrs@[j], kind_names()[j]),
{
    let ghost h0 = heap@;
    let ghost cb = context_bindings();
    proof {
        lemma_context_lengths();
    }
    let kk = Kind::new_kind_kind(heap);
    table.insert("Kind", kk.ptr);
    let mut ptrs: Vec<Gc> = Vec::new();
    ptrs.push(kk);
    let kinds = kind_list();
    proof {
        reveal_with_fuel(bound_entries, 2);
        assert(cb.take(1).drop_last() =~= Seq::<(Seq<char>, Binding)>::empty());
        assert(ptrs@.drop_last() =~= Seq::<Gc>::empty());
        assert(cb[0] == (kind_names()[0], Binding::Kind));
        assert(kinds@.map_values(|k: (&str, usize, usize)| k.0@).len() == kinds@.len());
    }
    let mut i: usize = 0;
    while i < kinds.len()
        invariant
            cb == context_bindings(),
            cb.len() == 145,
            kind_names().len() == 37,
            kinds@.len() == 36,
            kinds@.map_values(|k: (&str, usize, usize)| k.0@) == kind_names().drop_first(),
            i <= kinds@.len(),
            ptrs@.len() == i + 1,
            ptrs@[0] == kk,
            table_entries(*table) == bound_entries(cb.take(i + 1), ptrs@),
            forall|j: int| 0 <= j < i + 1 ==> kind_holds(heap@, kk, #[trigger] ptrs@[j], kind_names()[j]),
            extends(h0, heap@),
            h0.len() > 0,
            forall|j: int| 0 <= j < i + 1 ==> (#[trigger] ptrs@[j]).ptr >= h0.len(),
        decreases kinds@.len() - i,
    {
        let entry = kinds[i];
        let ghost before = heap@;
        let g = alloc_of_kind(heap, kk, Data::Kind(Kind::new(string_from(entry.0), entry.1, entry.2)), None);
        let ghost t0 = ptrs@;
        table.insert(entry.0, g.ptr);
        ptrs.push(g);
        proof {
            assert(kinds@.map_values(|k: (&str, usize, usize)| k.0@)[i as int] == entry.0@);
            assert(kind_names().drop_first()[i as int] == kind_names()[i + 1]);
            assert(cb[i + 1] == (kind_names()[i + 1], Binding::Kind));
            assert(cb.take(i + 2).drop_last() =~= cb.take(i + 1));
            assert(ptrs@.drop_last() =~= t0);
            assert forall|j: int| 0 <= j < i + 2 implies kind_holds(heap@, kk, #[trigger] ptrs@[j], kind_names()[j]) by {
                if j < i + 1 {
                    assert(ptrs@[j] == t0[j]);
                    assert(heap@[t0[j].ptr as int] == before[t0[j].ptr as int]);
                }
            }
        }
        i = i + 1;
    }
    ptrs
}

/// Binds the other bindings of the first scope `root` in `table`, after the kinds
/// `ptrs`.
#[verifier::rlimit(30)]
fn bind_values(heap: &mut GcAllocator, table: &mut ScopeTable, ptrs: &mut Vec<Gc>, root: Gc)
    requires
        old(ptrs)@.len() == 37,
        table_entries(*old(table)) == bound_entries(context_bindings().take(37), old(ptrs)@),
        forall|j: int| 0 <= j < 37 ==> binding_holds(old(heap)@, root, old(ptrs)@[0], #[trigger] old(ptrs)@[j], context_bindings()[j].0, context_bindings()[j].1),
        live_in(old(heap)@, root),
        object_in(old(heap)@, root).value is PersistentScope,
    ensures
        extends(old(heap)@, final(heap)@),
        final(ptrs)@.len() == 145,
        final(ptrs)@.take(37) == old(ptrs)@,
        table_entries(*final(table)) == bound_entries(context_bindings(), final(ptrs)@),
        forall|j: int| 0 <= j < 145 ==> binding_holds(final(heap)@, root, old(ptrs)@[0], #[trigger] final(ptrs)@[j], context_bindings()[j].0, context_bindings()[j].1),
        final(heap)@[root.ptr as int] == old(heap)@[root.ptr as int],
{
    let ghost cb = context_bindings();
    let ghost kk = ptrs@[0];
    let ghost p0 = ptrs@;
    proof {
        lemma_context_lengths();
    }
    let rest = value_list();
    let mut i: usize = 0;
    while i < rest.len()
        invariant
            cb == context_bindings(),
            cb.len() == 145,
            value_bindings().len() == 108,
            rest@.map_values(|e: (&str, Make)| (e.0@, make_binding(e.1))) == value_bindings(),
            i <= rest@.len(),
            ptrs@.len() == 37 + i,
            ptrs@.take(37) == p0,
            ptrs@[0] == kk,
            table_entries(*table) == bound_entries(cb.take(37 + i), ptrs@),
            forall|j: int| 0 <= j < 37 + i ==> binding_holds(heap@, root, kk, #[trigger] ptrs@[j], cb[j].0, cb[j].1),
            extends(old(heap)@, heap@),
            heap@[root.ptr as int] == old(heap)@[root.ptr as int],
            live_in(heap@, root),
        decreases rest@.len() - i,
    {
        let entry = &rest[i];
        let name = entry.0;
        let ghost before = heap@;
        proof {
            assert(cb[3].0 == "Nil"@ && cb[4].0 == "Bool"@ && cb[17].0 == "Stack"@ && cb[23].0 == "SpecialForm"@);
            assert(cb[21].0 == "Function"@ && cb[22].0 == "Macro"@ && cb[2].0 == "GcAllocator"@);
            assert(cb[37 + i] == value_bindings()[i as int]);
            assert(rest@.map_values(|e: (&str, Make)| (e.0@, make_binding(e.1)))[i as int] == (name@, make_binding(entry.1)));
            assert(heap@.len() > 0);
        }
        let g = match &entry.1 {
            Make::Nil => alloc_of_kind(heap, ptrs[3], Data::Nil, None),
            Make::Bool(b) => alloc_of_kind(heap, ptrs[4], Data::Bool(*b), None),
            Make::Stack => alloc_of_kind(heap, ptrs[17], Data::Stack(Stack::new()), None),
            Make::Allocator => alloc_of_kind(heap, ptrs[2], Data::Allocator, None),
            Make::Special(k) => alloc_of_kind(heap, ptrs[23], Data::SpecialForm(SpecialForm::new(*k)), None),
            Make::Provided(is_macro, params, body) => {
                let kind = if *is_macro {
                    ptrs[22]
                } else {
                    ptrs[21]
                };
                make_provided(heap, ptrs[19], ptrs[30], kind, root, name, params, *body)
            },
        };
        let ghost t0 = ptrs@;
        table.insert(name, g.ptr);
        ptrs.push(g);
        proof {
            assert(cb.take(37 + i + 1).drop_last() =~= cb.take(37 + i));
            assert(ptrs@.drop_last() =~= t0);
            assert(ptrs@.take(37) =~= t0.take(37));
            assert(heap@[root.ptr as int] == before[root.ptr as int]);
            assert forall|j: int| 0 <= j < 37 + i + 1 implies binding_holds(heap@, root, kk, #[trigger] ptrs@[j], cb[j].0, cb[j].1) by {
                if j < 37 + i {
                    assert(ptrs@[j] == t0[j]);
                    lemma_binding_extends(before, heap@, root, kk, t0[j], cb[j].0, cb[j].1);
                } else {
                    let o = object_in(heap@, g);
                    assert(heap@[o.kind.ptr as int] == before[o.kind.ptr as int]);
                }
            }
        }
        i = i + 1;
    }
    proof {
        assert(cb.take(145) =~= cb);
    }
}

/// A new first scope: the kinds of the runtime, the heap as `default_gc_allocator`, `nil`,
/// `true`, `false`, the evaluator's stack `__stack`, the special forms and the provided
/// functions, each bound to its name (see `context_bindings`). Among the kinds are those
/// of the persistent collections, of scopes and of linked maps, which the evaluator and the
/// reader make values of, and `F32` and `F64` (4 and 8 bytes, aligned as much), which no
/// value of this runtime has.
pub fn new_context(heap: &mut GcAllocator) -> (root: Gc)
    requires
        old(heap)@.len() > 0,
    ensures
        extends(old(heap)@, final(heap)@),
        root.ptr >= old(heap)@.len(),
        live_in(final(heap)@, root),
        kind_named_in(final(heap)@, object_in(final(heap)@, root).kind, "Scope"@),
        object_in(final(heap)@, root).value matches Data::PersistentScope(s) && s.parent is None && exists|ptrs: Seq<Gc>|
            {
                &&& ptrs.len() == context_bindings().len()
                &&& s.entries() == bound_entries(context_bindings(), ptrs)
                &&& forall|i: int|
                    0 <= i < ptrs.len() ==> binding_holds(
                        final(heap)@,
                        root,
                        ptrs[0],
                        #[trigger] ptrs[i],
                        context_bindings()[i].0,
                        context_bindings()[i].1,
                    )
            },
{
    let ghost h0 = heap@;
    proof {
        lemma_context_lengths();
    }
    let mut table = ScopeTable::new();
    let mut ptrs = bind_kinds(heap, &mut table);
    let ghost hk = heap@;
    let root = alloc_of_kind(heap, ptrs[1], Data::PersistentScope(PersistentScope::with_parent(None)), None);
    proof {
        assert forall|j: int| 0 <= j < 37 implies binding_holds(heap@, root, ptrs@[0], #[trigger] ptrs@[j], context_bindings()[j].0, context_bindings()[j].1) by {
            assert(context_bindings()[j] == (kind_names()[j], Binding::Kind));
            assert(heap@[ptrs@[j].ptr as int] == hk[ptrs@[j].ptr as int]);
        }
        assert(kind_names()[1] == "Scope"@);
        assert(heap@[ptrs@[1].ptr as int] == hk[ptrs@[1].ptr as int]);
    }
    let ghost kk = ptrs@[0];
    let ghost scope_kind = ptrs@[1];
    bind_values(heap, &mut table, &mut ptrs, root);
    let ghost hr = heap@;
    let data = Data::PersistentScope(PersistentScope::new(table, None));
    let ghost o2 = Object { value: data, ..object_in(hr, root) };
    heap.set_value(root, data);
    proof {
        assert forall|j: int| 0 <= j < ptrs@.len() implies binding_holds(heap@, root, ptrs@[0], #[trigger] ptrs@[j], context_bindings()[j].0, context_bindings()[j].1) by {
            lemma_binding_rescope(hr, root, o2, kk, ptrs@[j], context_bindings()[j].0, context_bindings()[j].1);
        }
        assert(ptrs@[1] == scope_kind);
        assert(context_bindings()[1] == (kind_names()[1], Binding::Kind));
        assert(binding_holds(hr, root, kk, scope_kind, kind_names()[1], Binding::Kind));
        assert(heap@[scope_kind.ptr as int] == hr[scope_kind.ptr as int]);
    }
    root
}
} // verus!
