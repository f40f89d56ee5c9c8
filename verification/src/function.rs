use vstd::prelude::*;

use crate::fault::Fault;
use crate::function_kind::{Builtin, FunctionKind};
use crate::gc::Gc;
use crate::gc_allocator::{extends, lemma_extends_trans, live_in, object_in, GcAllocator};
use crate::object::{alloc_of_kind, kind_named, kind_result, made_object, new_object_of_kind, string_from, Data, Object};
use crate::persistent_scope::PersistentScope;
use crate::persistent_vector::PersistentVector;
use crate::symbol::Symbol;

verus! {

/// A function or macro: its optional name, the scope it was made in, its parameters
/// (a vector of symbols) and its body.
#[derive(Clone, Copy)]
pub struct Function {
    pub name: Option<Gc>,
    pub scope: Gc,
    pub params: Gc,
    pub body: FunctionKind,
}

impl Function {
    /// The function with the given parts.
    pub open spec fn new_spec(name: Option<Gc>, scope: Gc, params: Gc, body: FunctionKind) -> Function {
        Function { name, scope, params, body }
    }

    /// A function that evaluates `body`.
    pub fn new(name: Option<Gc>, scope: Gc, params: Gc, body: Gc) -> (f: Function)
        ensures
            f == (Function { name, scope, params, body: FunctionKind::Internal(body) }),
    {
        Function { name, scope, params, body: FunctionKind::Internal(body) }
    }

    /// A function that runs the provided function `body`.
    pub fn new_external(name: Option<Gc>, scope: Gc, params: Gc, body: Builtin) -> (f: Function)
        ensures
            f == (Function { name, scope, params, body: FunctionKind::External(body) }),
    {
        Function { name, scope, params, body: FunctionKind::External(body) }
    }

    pub fn name(&self) -> (n: Option<Gc>)
        ensures
            n == self.name,
    {
        self.name
    }

    pub fn scope(&self) -> (s: Gc)
        ensures
            s == self.scope,
    {
        self.scope
    }

    pub fn params(&self) -> (p: Gc)
        ensures
            p == self.params,
    {
        self.params
    }

    pub fn body(&self) -> (b: FunctionKind)
        ensures
            b == self.body,
    {
        self.body
    }
}

/// The kind of functions, bound to `Function` in `scope`.
pub fn function_kind(heap: &GcAllocator, scope: Gc) -> (r: Result<Gc, Fault>)
    ensures
        r == kind_result(heap@, scope, "Function"@),
{
    kind_named(heap, scope, "Function")
}

/// The kind of macros, bound to `Macro` in `scope`.
pub fn macro_kind(heap: &GcAllocator, scope: Gc) -> (r: Result<Gc, Fault>)
    ensures
        r == kind_result(heap@, scope, "Macro"@),
{
    kind_named(heap, scope, "Macro")
}

/// A new function made in `scope`, evaluating `body`.
pub fn new_function(heap: &mut GcAllocator, scope: Gc, name: Option<Gc>, params: Gc, body: Gc) -> (r: Result<Gc, Fault>)
    ensures
        made_object(old(heap)@, final(heap)@, r, scope, "Function"@, None),
        r matches Ok(g) ==> object_in(final(heap)@, g).value == Data::Function(Function::new_spec(name, scope, params, FunctionKind::Internal(body))),
{
    new_object_of_kind(heap, scope, "Function", Data::Function(Function::new(name, scope, params, body)), None)
}

/// A new function made in `scope`, running the provided function `body`.
pub fn new_external_function(heap: &mut GcAllocator, scope: Gc, name: Option<Gc>, params: Gc, body: Builtin) -> (r: Result<Gc, Fault>)
    ensures
        made_object(old(heap)@, final(heap)@, r, scope, "Function"@, None),
        r matches Ok(g) ==> object_in(final(heap)@, g).value == Data::Function(Function::new_spec(name, scope, params, FunctionKind::External(body))),
{
    new_object_of_kind(heap, scope, "Function", Data::Function(Function::new_external(name, scope, params, body)), None)
}

/// A new macro made in `scope`, evaluating `body`.
pub fn new_macro(heap: &mut GcAllocator, scope: Gc, name: Option<Gc>, params: Gc, body: Gc) -> (r: Result<Gc, Fault>)
    ensures
        made_object(old(heap)@, final(heap)@, r, scope, "Macro"@, None),
        r matches Ok(g) ==> object_in(final(heap)@, g).value == Data::Function(Function::new_spec(name, scope, params, FunctionKind::Internal(body))),
{
    new_object_of_kind(heap, scope, "Macro", Data::Function(Function::new(name, scope, params, body)), None)
}

/// A new macro made in `scope`, running the provided function `body`.
pub fn new_external_macro(heap: &mut GcAllocator, scope: Gc, name: Option<Gc>, params: Gc, body: Builtin) -> (r: Result<Gc, Fault>)
    ensures
        made_object(old(heap)@, final(heap)@, r, scope, "Macro"@, None),
        r matches Ok(g) ==> object_in(final(heap)@, g).value == Data::Function(Function::new_spec(name, scope, params, FunctionKind::External(body))),
{
    new_object_of_kind(heap, scope, "Macro", Data::Function(Function::new_external(name, scope, params, body)), None)
}

/// Whether the object `v` is a persistent vector of symbols named, in order, `names`.
pub open spec fn symbols_named(h: Seq<Option<Object>>, v: Gc, names: Seq<Seq<char>>) -> bool {
    &&& live_in(h, v)
    &&& object_in(h, v).value matches Data::PersistentVector(items)
    &&& items@.len() == names.len()
    &&& forall|i: int| 0 <= i < names.len() ==> {
        &&& live_in(h, #[trigger] items@[i])
        &&& object_in(h, items@[i]).value matches Data::Symbol(x)
        &&& x.0@ == names[i]
    }
}

/// The names of `params`.
pub open spec fn names_of(params: Seq<&str>) -> Seq<Seq<char>> {
    params.map_values(|p: &str| p@)
}

/// Whether the objects made for a provided function named `name` with the parameters
/// `params` are the function `f`, made in `scope`, of kind `kind`, running `body`: a
/// symbol for its name and a vector of symbols for its parameters.
pub open spec fn provided_function(
    h: Seq<Option<Object>>,
    f: Gc,
    scope: Gc,
    kind: Gc,
    name: Seq<char>,
    params: Seq<Seq<char>>,
    body: Builtin,
) -> bool {
    &&& live_in(h, f)
    &&& object_in(h, f).kind == kind
    &&& object_in(h, f).value matches Data::Function(func)
    &&& func.scope == scope
    &&& func.body == FunctionKind::External(body)
    &&& func.name matches Some(n)
    &&& live_in(h, n)
    &&& object_in(h, n).value matches Data::Symbol(x)
    &&& x.0@ == name
    &&& symbols_named(h, func.params, params)
}

/// A new vector object of kind `vector_kind` holding new symbols of kind `symbol_kind`,
/// one for each of `names`, in order.
fn new_symbol_vector(heap: &mut GcAllocator, symbol_kind: Gc, vector_kind: Gc, names: &Vec<&str>) -> (v: Gc)
    requires
        old(heap)@.len() > 0,
    ensures
        extends(old(heap)@, final(heap)@),
        final(heap)@.len() > old(heap)@.len(),
        v.ptr >= old(heap)@.len(),
        symbols_named(final(heap)@, v, names_of(names@)),
        object_in(final(heap)@, v).kind == vector_kind,
{
    let mut items: Vec<Gc> = Vec::new();
    let mut i: usize = 0;
    while i < names.len()
        invariant
            i <= names@.len(),
            items@.len() == i,
            old(heap)@.len() > 0,
            extends(old(heap)@, heap@),
            forall|j: int| 0 <= j < i ==> {
                &&& old(heap)@.len() <= (#[trigger] items@[j]).ptr
                &&& live_in(heap@, items@[j])
                &&& object_in(heap@, items@[j]).value matches Data::Symbol(x)
                &&& x.0@ == names@[j]@
            },
        decreases names@.len() - i,
    {
        let ghost before = heap@;
        let sym = Symbol::new(string_from(names[i]));
        assert(sym.0@ == names@[i as int]@);
        let s = alloc_of_kind(heap, symbol_kind, Data::Symbol(sym), None);
        proof {
            assert(object_in(heap@, s).value == Data::Symbol(sym));
            assert forall|j: int| 0 <= j < i implies object_in(heap@, #[trigger] items@[j]) == object_in(before, items@[j]) by {
                assert(heap@[items@[j].ptr as int] == before[items@[j].ptr as int]);
            }
        }
        items.push(s);
        i = i + 1;
    }
    let ghost before = heap@;
    let v = alloc_of_kind(heap, vector_kind, Data::PersistentVector(PersistentVector::from_vec(items)), None);
    proof {
        assert forall|j: int| 0 <= j < names@.len() implies object_in(heap@, #[trigger] items@[j]) == object_in(before, items@[j]) by {
            assert(heap@[items@[j].ptr as int] == before[items@[j].ptr as int]);
        }
    }
    v
}

/// The scope `scope` with `name` bound to a new provided function running `body`, whose
/// parameters are named `params`; the new scope is returned. The kinds of symbols,
/// vectors, functions and scopes are looked up first: when one is missing, nothing is
/// made.
pub fn add_external_function(heap: &mut GcAllocator, scope: Gc, name: &str, params: &Vec<&str>, body: Builtin) -> (r: Result<Gc, Fault>)
    ensures
        match (kind_result(old(heap)@, scope, "Symbol"@), kind_result(old(heap)@, scope, "PersistentVector"@),
            kind_result(old(heap)@, scope, "Function"@), kind_result(old(heap)@, scope, "PersistentScope"@)) {
            (Ok(sk), Ok(vk), Ok(fk), Ok(ck)) => match (if live_in(old(heap)@, scope) { Some(object_in(old(heap)@, scope).value) } else { None::<Data> }) {
                Some(Data::PersistentScope(s)) => r matches Ok(n) && ({
                    let f = Gc { ptr: (n.ptr - 1) as usize };
                    &&& extends(old(heap)@, final(heap)@)
                    &&& n.ptr == final(heap)@.len() - 1
                    &&& object_in(final(heap)@, n).kind == ck
                    &&& object_in(final(heap)@, n).value matches Data::PersistentScope(t)
                    &&& t.entries() == s.entries().insert(name@, f.ptr)
                    &&& t.parent == s.parent
                    &&& provided_function(final(heap)@, f, scope, fk, name@, names_of(params@), body)
                }),
                _ => r matches Err(Fault::NotAScope) && final(heap)@ == old(heap)@,
            },
            _ => r matches Err(Fault::KindNotFound) && final(heap)@ == old(heap)@,
        },
{
    add_provided(heap, scope, "Function", name, params, body)
}

/// The scope `scope` with `name` bound to a new provided macro running `body`, as
/// `add_external_function` makes functions.
pub fn add_external_macro(heap: &mut GcAllocator, scope: Gc, name: &str, params: &Vec<&str>, body: Builtin) -> (r: Result<Gc, Fault>)
    ensures
        match (kind_result(old(heap)@, scope, "Symbol"@), kind_result(old(heap)@, scope, "PersistentVector"@),
            kind_result(old(heap)@, scope, "Macro"@), kind_result(old(heap)@, scope, "PersistentScope"@)) {
            (Ok(sk), Ok(vk), Ok(fk), Ok(ck)) => match (if live_in(old(heap)@, scope) { Some(object_in(old(heap)@, scope).value) } else { None::<Data> }) {
                Some(Data::PersistentScope(s)) => r matches Ok(n) && ({
                    let f = Gc { ptr: (n.ptr - 1) as usize };
                    &&& extends(old(heap)@, final(heap)@)
                    &&& n.ptr == final(heap)@.len() - 1
                    &&& object_in(final(heap)@, n).kind == ck
                    &&& object_in(final(heap)@, n).value matches Data::PersistentScope(t)
                    &&& t.entries() == s.entries().insert(name@, f.ptr)
                    &&& t.parent == s.parent
                    &&& provided_function(final(heap)@, f, scope, fk, name@, names_of(params@), body)
                }),
                _ => r matches Err(Fault::NotAScope) && final(heap)@ == old(heap)@,
            },
            _ => r matches Err(Fault::KindNotFound) && final(heap)@ == old(heap)@,
        },
{
    add_provided(heap, scope, "Macro", name, params, body)
}

/// `add_external_function` for functions of the kind bound to `kind_name`.
fn add_provided(heap: &mut GcAllocator, scope: Gc, kind_name: &str, name: &str, params: &Vec<&str>, body: Builtin) -> (r: Result<Gc, Fault>)
    ensures
        match (kind_result(old(heap)@, scope, "Symbol"@), kind_result(old(heap)@, scope, "PersistentVector"@),
            kind_result(old(heap)@, scope, kind_name@), kind_result(old(heap)@, scope, "PersistentScope"@)) {
            (Ok(sk), Ok(vk), Ok(fk), Ok(ck)) => match (if live_in(old(heap)@, scope) { Some(object_in(old(heap)@, scope).value) } else { None::<Data> }) {
                Some(Data::PersistentScope(s)) => r matches Ok(n) && ({
                    let f = Gc { ptr: (n.ptr - 1) as usize };
                    &&& extends(old(heap)@, final(heap)@)
                    &&& n.ptr == final(heap)@.len() - 1
                    &&& object_in(final(heap)@, n).kind == ck
                    &&& object_in(final(heap)@, n).value matches Data::PersistentScope(t)
                    &&& t.entries() == s.entries().insert(name@, f.ptr)
                    &&& t.parent == s.parent
                    &&& provided_function(final(heap)@, f, scope, fk, name@, names_of(params@), body)
                }),
                _ => r matches Err(Fault::NotAScope) && final(heap)@ == old(heap)@,
            },
            _ => r matches Err(Fault::KindNotFound) && final(heap)@ == old(heap)@,
        },
{
    let sk = match kind_named(heap, scope, "Symbol") {
        Ok(k) => k,
        Err(e) => {
            return Err(e);
        },
    };
    let vk = match kind_named(heap, scope, "PersistentVector") {
        Ok(k) => k,
        Err(e) => {
            return Err(e);
        },
    };
    let fk = match kind_named(heap, scope, kind_name) {
        Ok(k) => k,
        Err(e) => {
            return Err(e);
        },
    };
    let ck = match kind_named(heap, scope, "PersistentScope") {
        Ok(k) => k,
        Err(e) => {
            return Err(e);
        },
    };
    let new_table = match heap.data(scope) {
        Some(Data::PersistentScope(s)) => s.copy(),
        _ => {
            return Err(Fault::NotAScope);
        },
    };
    let ghost h0 = heap@;
    let ghost s0 = new_table;
    let p = new_symbol_vector(heap, sk, vk, params);
    let ghost h1 = heap@;
    let n = alloc_of_kind(heap, sk, Data::Symbol(Symbol::new(string_from(name))), None);
    let ghost h2 = heap@;
    let f = alloc_of_kind(heap, fk, Data::Function(Function::new_external(Some(n), scope, p, body)), None);
    let ghost h3 = heap@;
    let bound = new_table.set(name, f);
    let g = alloc_of_kind(heap, ck, Data::PersistentScope(bound), None);
    proof {
        assert(f.ptr == (g.ptr - 1) as usize);
        assert forall|i: int| 0 <= i < h1.len() implies #[trigger] heap@[i] == h1[i] by {
            assert(h2[i] == h1[i]);
            assert(h3[i] == h2[i]);
        }
        let items = object_in(h1, p).value->PersistentVector_0;
        assert forall|i: int| 0 <= i < names_of(params@).len() implies {
            &&& live_in(heap@, #[trigger] items@[i])
            &&& object_in(heap@, items@[i]).value matches Data::Symbol(x)
            &&& x.0@ == names_of(params@)[i]
        } by {
            assert(live_in(h1, items@[i]));
            assert(heap@[items@[i].ptr as int] == h1[items@[i].ptr as int]);
        }
        assert(heap@[p.ptr as int] == h1[p.ptr as int]);
        assert(heap@[n.ptr as int] == h2[n.ptr as int]);
        assert(heap@[f.ptr as int] == h3[f.ptr as int]);
        assert(extends(h0, heap@));
    }
    Ok(g)
}


/// A provided function found in a heap is found, the same, in any heap that extends it.
pub proof fn lemma_provided_extends(h: Seq<Option<Object>>, h2: Seq<Option<Object>>, f: Gc, scope: Gc, kind: Gc, name: Seq<char>, params: Seq<Seq<char>>, body: Builtin)
    requires
        extends(h, h2),
        provided_function(h, f, scope, kind, name, params, body),
    ensures
        provided_function(h2, f, scope, kind, name, params, body),
{
    assert(h2[f.ptr as int] == h[f.ptr as int]);
    let func = object_in(h, f).value->Function_0;
    let n = func.name->Some_0;
    assert(h2[n.ptr as int] == h[n.ptr as int]);
    let v = func.params;
    assert(h2[v.ptr as int] == h[v.ptr as int]);
    let items = object_in(h, v).value->PersistentVector_0;
    assert forall|i: int| 0 <= i < params.len() implies {
        &&& live_in(h2, #[trigger] items@[i])
        &&& object_in(h2, items@[i]).value matches Data::Symbol(x)
        &&& x.0@ == params[i]
    } by {
        assert(h2[items@[i].ptr as int] == h[items@[i].ptr as int]);
    }
}

/// A new provided function named `name` with the parameters `params`, running `body`,
/// made in `scope`, of kind `kind`; its name and parameters are new symbols of kind
/// `symbol_kind` (the parameters in a vector of kind `vector_kind`).
pub(crate) fn make_provided(heap: &mut GcAllocator, symbol_kind: Gc, vector_kind: Gc, kind: Gc, scope: Gc, name: &str, params: &Vec<&str>, body: Builtin) -> (f: Gc)
    requires
        old(heap)@.len() > 0,
    ensures
        extends(old(heap)@, final(heap)@),
        f.ptr >= old(heap)@.len(),
        provided_function(final(heap)@, f, scope, kind, name@, names_of(params@), body),
{
    let p = new_symbol_vector(heap, symbol_kind, vector_kind, params);
    let ghost h1 = heap@;
    let n = alloc_of_kind(heap, symbol_kind, Data::Symbol(Symbol::new(string_from(name))), None);
    let ghost h2 = heap@;
    let f = alloc_of_kind(heap, kind, Data::Function(Function::new_external(Some(n), scope, p, body)), None);
    proof {
        lemma_extends_trans(h1, h2, heap@);
        let items = object_in(h1, p).value->PersistentVector_0;
        assert forall|i: int| 0 <= i < names_of(params@).len() implies {
            &&& live_in(heap@, #[trigger] items@[i])
            &&& object_in(heap@, items@[i]).value matches Data::Symbol(x)
            &&& x.0@ == names_of(params@)[i]
        } by {
            assert(live_in(h1, items@[i]));
            assert(heap@[items@[i].ptr as int] == h1[items@[i].ptr as int]);
        }
        assert(heap@[p.ptr as int] == h1[p.ptr as int]);
        assert(heap@[n.ptr as int] == h2[n.ptr as int]);
    }
    f
}

} // verus!
