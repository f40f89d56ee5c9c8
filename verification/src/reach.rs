use vstd::prelude::*;

use crate::function_kind::FunctionKind;
use crate::gc::Gc;
use crate::gc_allocator::{live_in, object_in};
use crate::object::{Data, Object};
use crate::scope_table::{table_entries, ScopeTable};

verus! {

/// Whether one of the pairs `e` holds `c`, as key or as value.
pub open spec fn pairs_hold(e: Seq<(Gc, Gc)>, c: Gc) -> bool {
    exists|i: int| 0 <= i < e.len() && ((#[trigger] e[i]).0 == c || e[i].1 == c)
}

/// Whether the contents `d` hold the handle `c` in a place that a trace follows. A scope
/// that is never changed in place does not lead to the scope it extends; one that is
/// changed in place does.
pub open spec fn data_holds(d: Data, c: Gc) -> bool {
    match d {
        Data::Escape(e) => e.0 == c,
        Data::Atom(a) => a.value == c,
        Data::PersistentList(l) => l@.contains(c),
        Data::PersistentVector(v) => v@.contains(c),
        Data::PersistentMap(m) => pairs_hold(m@, c),
        Data::PersistentSet(s) => s@.contains(c),
        Data::PersistentScope(s) => s.entries().contains_value(c.ptr),
        Data::List(l) => l@.contains(c),
        Data::Vector(v) => v@.contains(c),
        Data::ValueMap(m) => pairs_hold(m@, c),
        Data::ValueSet(s) => s@.contains(c),
        Data::LinkedMap(m) => pairs_hold(m@, c),
        Data::Scope(s) => s.entries().contains_value(c.ptr) || s.parent == Some(c),
        Data::Function(f) => f.name == Some(c) || f.scope == c || f.params == c || f.body
            == FunctionKind::Internal(c),
        Data::Stack(s) => s.value@.contains(c) || s.scope@.contains(c) || s.callable@.contains(c),
        _ => false,
    }
}

/// Whether the object `o` holds the handle `c` where a trace follows it: its kind, its
/// metadata, or a handle in its contents.
pub open spec fn holds(o: Object, c: Gc) -> bool {
    o.kind == c || o.meta == Some(c) || data_holds(o.value, c)
}

/// Whether marking goes from `a` to `b`: `a` is an unmarked object that holds the
/// object `b`.
pub open spec fn edge(h: Seq<Option<Object>>, a: Gc, b: Gc) -> bool {
    live_in(h, a) && !object_in(h, a).marked && live_in(h, b) && holds(object_in(h, a), b)
}

/// Whether `path` is a walk of marking that starts at `root`: `root` refers to an object
/// and each handle of the walk is marked from the one before it.
pub open spec fn is_walk(h: Seq<Option<Object>>, root: Gc, path: Seq<Gc>) -> bool {
    &&& path.len() > 0
    &&& path[0] == root
    &&& live_in(h, root)
    &&& forall|i: int| 0 <= i < path.len() - 1 ==> #[trigger] edge(h, path[i], path[i + 1])
}

/// Whether marking from `root` reaches `g`.
pub open spec fn reachable(h: Seq<Option<Object>>, root: Gc, g: Gc) -> bool {
    exists|path: Seq<Gc>| #[trigger] is_walk(h, root, path) && path.last() == g
}

/// The root reaches itself when it refers to an object.
pub proof fn lemma_reach_root(h: Seq<Option<Object>>, root: Gc)
    requires
        live_in(h, root),
    ensures
        reachable(h, root, root),
{
    let path = seq![root];
    assert(is_walk(h, root, path));
}

/// What the root reaches, it reaches along any step of marking from there.
pub proof fn lemma_reach_step(h: Seq<Option<Object>>, root: Gc, p: Gc, c: Gc)
    requires
        reachable(h, root, p),
        edge(h, p, c),
    ensures
        reachable(h, root, c),
{
    let path = choose|path: Seq<Gc>| #[trigger] is_walk(h, root, path) && path.last() == p;
    let longer = path.push(c);
    assert forall|i: int| 0 <= i < longer.len() - 1 implies #[trigger] edge(h, longer[i], longer[i + 1]) by {
        if i < path.len() - 1 {
            assert(longer[i] == path[i] && longer[i + 1] == path[i + 1]);
        } else {
            assert(longer[i] == p && longer[i + 1] == c);
        }
    }
    assert(is_walk(h, root, longer));
}

/// `s.push(x)` contains exactly what `s` contains and `x`.
pub proof fn lemma_push_contains(s: Seq<Gc>, x: Gc, c: Gc)
    ensures
        s.push(x).contains(c) <==> (s.contains(c) || x == c),
{
    if s.contains(c) {
        let i = choose|i: int| 0 <= i < s.len() && s[i] == c;
        assert(s.push(x)[i] == c);
    }
    if x == c {
        assert(s.push(x)[s.len() as int] == c);
    }
    if s.push(x).contains(c) {
        let i = choose|i: int| 0 <= i < s.push(x).len() && s.push(x)[i] == c;
        if i < s.len() {
            assert(s[i] == c);
        }
    }
}

/// Appends the handles of `src` to `out`.
fn append_handles(out: &mut Vec<Gc>, src: &Vec<Gc>)
    ensures
        forall|c: Gc| #[trigger] final(out)@.contains(c) <==> (old(out)@.contains(c) || src@.contains(c)),
{
    let mut i: usize = 0;
    while i < src.len()
        invariant
            i <= src@.len(),
            forall|c: Gc| #[trigger] out@.contains(c) <==> (old(out)@.contains(c) || src@.subrange(0, i as int).contains(c)),
        decreases src@.len() - i,
    {
        let ghost before = out@;
        let x = src[i];
        out.push(x);
        proof {
            assert forall|c: Gc| #[trigger] out@.contains(c) <==> (old(out)@.contains(c) || src@.subrange(0, i + 1).contains(c)) by {
                lemma_push_contains(before, x, c);
                lemma_push_contains(src@.subrange(0, i as int), x, c);
                assert(src@.subrange(0, i as int).push(x) =~= src@.subrange(0, i + 1));
            }
        }
        i = i + 1;
    }
    assert(src@.subrange(0, src@.len() as int) =~= src@);
}

/// Appends the keys and values of the pairs `src` to `out`.
fn append_pair_handles(out: &mut Vec<Gc>, src: &Vec<(Gc, Gc)>)
    ensures
        forall|c: Gc| #[trigger] final(out)@.contains(c) <==> (old(out)@.contains(c) || pairs_hold(src@, c)),
{
    let mut i: usize = 0;
    while i < src.len()
        invariant
            i <= src@.len(),
            forall|c: Gc| #[trigger] out@.contains(c) <==> (old(out)@.contains(c) || pairs_hold(src@.subrange(0, i as int), c)),
        decreases src@.len() - i,
    {
        let ghost before = out@;
        let (k, v) = src[i];
        out.push(k);
        let ghost middle = out@;
        out.push(v);
        proof {
            let s0 = src@.subrange(0, i as int);
            let s1 = src@.subrange(0, i + 1);
            assert forall|c: Gc| #[trigger] out@.contains(c) <==> (old(out)@.contains(c) || pairs_hold(s1, c)) by {
                lemma_push_contains(before, k, c);
                lemma_push_contains(middle, v, c);
                if pairs_hold(s1, c) {
                    let j = choose|j: int| 0 <= j < s1.len() && ((#[trigger] s1[j]).0 == c || s1[j].1 == c);
                    if j < i {
                        assert(s0[j] == s1[j]);
                    }
                }
                if pairs_hold(s0, c) {
                    let j = choose|j: int| 0 <= j < s0.len() && ((#[trigger] s0[j]).0 == c || s0[j].1 == c);
                    assert(s1[j] == s0[j]);
                }
                if k == c || v == c {
                    assert(s1[i as int] == (k, v));
                }
            }
        }
        i = i + 1;
    }
    assert(src@.subrange(0, src@.len() as int) =~= src@);
}

/// Appends the objects bound in `table` to `out`.
fn append_table_handles(out: &mut Vec<Gc>, table: &ScopeTable)
    ensures
        forall|c: Gc| #[trigger] final(out)@.contains(c) <==> (old(out)@.contains(c) || table_entries(*table).contains_value(c.ptr)),
{
    let values = table.values();
    let mut i: usize = 0;
    while i < values.len()
        invariant
            i <= values@.len(),
            forall|v: usize| #[trigger] values@.contains(v) <==> table_entries(*table).contains_value(v),
            forall|c: Gc| #[trigger] out@.contains(c) <==> (old(out)@.contains(c) || values@.subrange(0, i as int).contains(c.ptr)),
        decreases values@.len() - i,
    {
        let ghost before = out@;
        let x = Gc { ptr: values[i] };
        out.push(x);
        proof {
            let s0 = values@.subrange(0, i as int);
            let s1 = values@.subrange(0, i + 1);
            assert(s0.push(values@[i as int]) =~= s1);
            assert forall|c: Gc| #[trigger] out@.contains(c) <==> (old(out)@.contains(c) || s1.contains(c.ptr)) by {
                lemma_push_contains(before, x, c);
                if s1.contains(c.ptr) {
                    let j = choose|j: int| 0 <= j < s1.len() && s1[j] == c.ptr;
                    if j < i {
                        assert(s0[j] == c.ptr);
                    }
                }
                if s0.contains(c.ptr) {
                    let j = choose|j: int| 0 <= j < s0.len() && s0[j] == c.ptr;
                    assert(s1[j] == c.ptr);
                }
                if x == c {
                    assert(s1[i as int] == c.ptr);
                }
            }
        }
        i = i + 1;
    }
    assert(values@.subrange(0, values@.len() as int) =~= values@);
}

/// Appends one handle to `out`.
fn append_one(out: &mut Vec<Gc>, x: Gc)
    ensures
        forall|c: Gc| #[trigger] final(out)@.contains(c) <==> (old(out)@.contains(c) || x == c),
{
    let ghost before = out@;
    out.push(x);
    proof {
        assert forall|c: Gc| #[trigger] out@.contains(c) <==> (before.contains(c) || x == c) by {
            lemma_push_contains(before, x, c);
        }
    }
}

/// The handles that the contents `d` hold where a trace follows them.
pub fn data_handles(d: &Data) -> (r: Vec<Gc>)
    ensures
        forall|c: Gc| #[trigger] r@.contains(c) <==> data_holds(*d, c),
{
    let mut out: Vec<Gc> = Vec::new();
    match d {
        Data::Escape(e) => append_one(&mut out, e.0),
        Data::Atom(a) => append_one(&mut out, a.value),
        Data::PersistentList(l) => append_handles(&mut out, l.items_ref()),
        Data::PersistentVector(v) => append_handles(&mut out, v.items_ref()),
        Data::PersistentMap(m) => append_pair_handles(&mut out, m.items_ref()),
        Data::PersistentSet(s) => append_handles(&mut out, s.items_ref()),
        Data::PersistentScope(s) => append_table_handles(&mut out, &s.map),
        Data::List(l) => append_handles(&mut out, l.items_ref()),
        Data::Vector(v) => append_handles(&mut out, v.items_ref()),
        Data::ValueMap(m) => append_pair_handles(&mut out, m.items_ref()),
        Data::ValueSet(s) => append_handles(&mut out, s.items_ref()),
        Data::LinkedMap(m) => append_pair_handles(&mut out, m.items_ref()),
        Data::Scope(s) => {
            append_table_handles(&mut out, &s.map);
            match s.parent {
                Some(p) => append_one(&mut out, p),
                None => {},
            }
        },
        Data::Function(f) => {
            match f.name {
                Some(n) => append_one(&mut out, n),
                None => {},
            }
            append_one(&mut out, f.scope);
            append_one(&mut out, f.params);
            match f.body {
                FunctionKind::Internal(b) => append_one(&mut out, b),
                FunctionKind::External(_) => {},
            }
        },
        Data::Stack(s) => {
            append_handles(&mut out, &s.value);
            append_handles(&mut out, &s.scope);
            append_handles(&mut out, &s.callable);
        },
        _ => {},
    }
    out
}

/// The handles that the object `o` holds where a trace follows them.
pub fn object_handles(o: &Object) -> (r: Vec<Gc>)
    ensures
        forall|c: Gc| #[trigger] r@.contains(c) <==> holds(*o, c),
{
    let mut out = data_handles(&o.value);
    append_one(&mut out, o.kind);
    if let Some(m) = o.meta {
        append_one(&mut out, m);
    }
    out
}

} // verus!
