use vstd::prelude::*;

use crate::atom::Atom;
use crate::boolean::{bool_not, bool_not_done, bool_result, false_value, new_bool};
use crate::context::{nil_value, new_string};
use crate::eval::data_at;
use crate::fault::Fault;
use crate::function_kind::{Builtin, Collection, CompareOp};
use crate::gc::Gc;
use crate::gc_allocator::{collected, freed_size, live_in, object_in, GcAllocator};
use crate::numbers::{new_isize, new_usize, number_binary, number_binary_done};
use crate::object::{alloc_of_kind, kind_named, kind_result, made_object, new_object_of_kind, value_named, value_result, Data, Object, Tag};
use crate::special_form::{vector_items, vector_items_of};
use crate::value::{compare, full_depth, gc_order, lemma_gc_order_flip, lemma_gc_order_reflexive, Order};
use crate::entries::{items_add, items_get, items_remove, pairs_get, pairs_remove, pairs_set, scan_items, scan_pairs};
use crate::handles::{copy_handles, copy_pairs, handles_after_first};
use crate::map::ValueMap;
use crate::persistent_map::PersistentMap;
use crate::persistent_scope::PersistentScope;
use crate::persistent_set::PersistentSet;
use crate::set::ValueSet;
use crate::list::List;
use crate::persistent_list::PersistentList;
use crate::persistent_vector::PersistentVector;
use crate::special_form::reversed;
use crate::vector::Vector;

verus! {

/// The arguments of a provided function: the items of the vector `args`.
pub open spec fn args_of(h: Seq<Option<Object>>, args: Gc) -> Result<Seq<Gc>, Fault> {
    match vector_items_of(h, args) {
        Some(items) => Ok(items),
        None => Err(Fault::WrongType),
    }
}

/// The arguments of a provided function.
fn items_of_args(heap: &GcAllocator, args: Gc) -> (r: Result<Vec<Gc>, Fault>)
    ensures
        match args_of(heap@, args) {
            Ok(items) => r matches Ok(v) && v@ == items,
            Err(e) => r matches Err(f) && f == e,
        },
{
    match vector_items(heap, args) {
        Some(items) => Ok(items),
        None => Err(Fault::WrongType),
    }
}

/// Argument `i`, or `nil` seen from `scope` when there is none.
pub open spec fn arg_or_nil_in(h: Seq<Option<Object>>, scope: Gc, items: Seq<Gc>, i: int) -> Result<Gc, Fault> {
    if 0 <= i < items.len() {
        Ok(items[i])
    } else {
        value_result(h, scope, "nil"@, Tag::Nil)
    }
}

/// Argument `i`, or `nil` seen from `scope` when there is none.
fn arg_or_nil_from(heap: &GcAllocator, scope: Gc, items: &Vec<Gc>, i: usize) -> (r: Result<Gc, Fault>)
    ensures
        r == arg_or_nil_in(heap@, scope, items@, i as int),
{
    if i < items.len() {
        Ok(items[i])
    } else {
        nil_value(heap, scope)
    }
}

/// Whether the order `o` of two values satisfies the comparison `op`. Values that cannot
/// be compared (`None`) are unequal and in no order.
pub open spec fn compare_holds(op: CompareOp, o: Option<Order>) -> bool {
    match op {
        CompareOp::Eq => o == Some(Order::Equal),
        CompareOp::Ne => o != Some(Order::Equal),
        CompareOp::Gt => o == Some(Order::Greater),
        CompareOp::Ge => o == Some(Order::Greater) || o == Some(Order::Equal),
        CompareOp::Lt => o == Some(Order::Less),
        CompareOp::Le => o == Some(Order::Less) || o == Some(Order::Equal),
    }
}

/// The integer that contents of an integer type hold.
pub open spec fn integer_of(d: Data) -> Option<int> {
    match d {
        Data::U8(x) => Some(x as int),
        Data::U16(x) => Some(x as int),
        Data::U32(x) => Some(x as int),
        Data::U64(x) => Some(x as int),
        Data::USize(x) => Some(x as int),
        Data::I8(x) => Some(x as int),
        Data::I16(x) => Some(x as int),
        Data::I32(x) => Some(x as int),
        Data::I64(x) => Some(x as int),
        Data::ISize(x) => Some(x as int),
        _ => None,
    }
}

/// The comparisons agree with one another: `>=` holds exactly when `>` or `=` does, `<=`
/// exactly when `<` or `=` does, `!=` exactly when `=` does not, at most one of `<`, `=`
/// and `>` holds, and compared the other way round `>` becomes `<`, `>=` becomes `<=`
/// and `=` stays.
pub proof fn lemma_compare_ops(h: Seq<Option<Object>>, a: Gc, b: Gc)
    ensures
        ({
            let o = gc_order(h, a, b, full_depth(h));
            let back = gc_order(h, b, a, full_depth(h));
            &&& compare_holds(CompareOp::Ge, o) == (compare_holds(CompareOp::Gt, o) || compare_holds(CompareOp::Eq, o))
            &&& compare_holds(CompareOp::Le, o) == (compare_holds(CompareOp::Lt, o) || compare_holds(CompareOp::Eq, o))
            &&& compare_holds(CompareOp::Ne, o) == !compare_holds(CompareOp::Eq, o)
            &&& !(compare_holds(CompareOp::Lt, o) && compare_holds(CompareOp::Gt, o))
            &&& !(compare_holds(CompareOp::Lt, o) && compare_holds(CompareOp::Eq, o))
            &&& !(compare_holds(CompareOp::Gt, o) && compare_holds(CompareOp::Eq, o))
            &&& compare_holds(CompareOp::Gt, o) == compare_holds(CompareOp::Lt, back)
            &&& compare_holds(CompareOp::Ge, o) == compare_holds(CompareOp::Le, back)
            &&& compare_holds(CompareOp::Eq, o) == compare_holds(CompareOp::Eq, back)
        }),
{
    lemma_gc_order_flip(h, a, b, full_depth(h));
}

/// A value compared with itself, when it can be compared at all: `=`, `>=` and `<=` hold,
/// `!=`, `<` and `>` do not.
pub proof fn lemma_compare_reflexive(h: Seq<Option<Object>>, x: Gc)
    requires
        gc_order(h, x, x, full_depth(h)) is Some,
    ensures
        ({
            let o = gc_order(h, x, x, full_depth(h));
            &&& compare_holds(CompareOp::Eq, o)
            &&& compare_holds(CompareOp::Ge, o)
            &&& compare_holds(CompareOp::Le, o)
            &&& !compare_holds(CompareOp::Ne, o)
            &&& !compare_holds(CompareOp::Lt, o)
            &&& !compare_holds(CompareOp::Gt, o)
        }),
{
    lemma_gc_order_reflexive(h, x, full_depth(h));
}

/// Two integers that can be compared compare as integers do: `<` holds exactly when the
/// first is smaller, `=` exactly when they are equal, `>` exactly when the first is
/// larger.
pub proof fn lemma_compare_integers(h: Seq<Option<Object>>, a: Gc, b: Gc)
    requires
        gc_order(h, a, b, full_depth(h)) is Some,
        integer_of(object_in(h, a).value) is Some,
        integer_of(object_in(h, b).value) is Some,
    ensures
        ({
            let o = gc_order(h, a, b, full_depth(h));
            let x = integer_of(object_in(h, a).value)->Some_0;
            let y = integer_of(object_in(h, b).value)->Some_0;
            &&& compare_holds(CompareOp::Lt, o) == (x < y)
            &&& compare_holds(CompareOp::Eq, o) == (x == y)
            &&& compare_holds(CompareOp::Gt, o) == (x > y)
            &&& compare_holds(CompareOp::Le, o) == (x <= y)
            &&& compare_holds(CompareOp::Ge, o) == (x >= y)
            &&& compare_holds(CompareOp::Ne, o) == (x != y)
        }),
{
}

/// What the comparison `op` of its first two arguments (`nil` for those missing) gives:
/// the shared boolean.
pub open spec fn compare_done(h: Seq<Option<Object>>, h2: Seq<Option<Object>>, scope: Gc, op: CompareOp, args: Gc, r: Result<Gc, Fault>) -> bool {
    &&& h2 == h
    &&& match args_of(h, args) {
        Err(e) => r == Err::<Gc, Fault>(e),
        Ok(items) => match (arg_or_nil_in(h, scope, items, 0), arg_or_nil_in(h, scope, items, 1)) {
            (Ok(a), Ok(b)) => r == bool_result(h, scope, compare_holds(op, gc_order(h, a, b, full_depth(h)))),
            (Err(e), _) => r == Err::<Gc, Fault>(e),
            (_, Err(e)) => r == Err::<Gc, Fault>(e),
        },
    }
}

/// The comparison `op` of the first two arguments.
pub fn value_compare(heap: &mut GcAllocator, scope: Gc, op: CompareOp, args: Gc) -> (r: Result<Gc, Fault>)
    ensures
        compare_done(old(heap)@, final(heap)@, scope, op, args, r),
{
    let items = match items_of_args(heap, args) {
        Ok(i) => i,
        Err(e) => {
            return Err(e);
        },
    };
    let a = match arg_or_nil_from(heap, scope, &items, 0) {
        Ok(v) => v,
        Err(e) => {
            return Err(e);
        },
    };
    let b = match arg_or_nil_from(heap, scope, &items, 1) {
        Ok(v) => v,
        Err(e) => {
            return Err(e);
        },
    };
    let o = compare(heap, a, b, heap.len());
    let holds = match op {
        CompareOp::Eq => o == Some(Order::Equal),
        CompareOp::Ne => o != Some(Order::Equal),
        CompareOp::Gt => o == Some(Order::Greater),
        CompareOp::Ge => o == Some(Order::Greater) || o == Some(Order::Equal),
        CompareOp::Lt => o == Some(Order::Less),
        CompareOp::Le => o == Some(Order::Less) || o == Some(Order::Equal),
    };
    new_bool(heap, scope, holds)
}

/// `=`: whether the first two arguments are equal.
pub fn value_eq(heap: &mut GcAllocator, scope: Gc, args: Gc) -> (r: Result<Gc, Fault>)
    ensures
        compare_done(old(heap)@, final(heap)@, scope, CompareOp::Eq, args, r),
{
    value_compare(heap, scope, CompareOp::Eq, args)
}

/// `!=`: whether the first two arguments are not equal.
pub fn value_ne(heap: &mut GcAllocator, scope: Gc, args: Gc) -> (r: Result<Gc, Fault>)
    ensures
        compare_done(old(heap)@, final(heap)@, scope, CompareOp::Ne, args, r),
{
    value_compare(heap, scope, CompareOp::Ne, args)
}

/// `>`: whether the first argument is greater than the second.
pub fn value_gt(heap: &mut GcAllocator, scope: Gc, args: Gc) -> (r: Result<Gc, Fault>)
    ensures
        compare_done(old(heap)@, final(heap)@, scope, CompareOp::Gt, args, r),
{
    value_compare(heap, scope, CompareOp::Gt, args)
}

/// `>=`: whether the first argument is greater than or equal to the second.
pub fn value_ge(heap: &mut GcAllocator, scope: Gc, args: Gc) -> (r: Result<Gc, Fault>)
    ensures
        compare_done(old(heap)@, final(heap)@, scope, CompareOp::Ge, args, r),
{
    value_compare(heap, scope, CompareOp::Ge, args)
}

/// `<`: whether the first argument is less than the second.
pub fn value_lt(heap: &mut GcAllocator, scope: Gc, args: Gc) -> (r: Result<Gc, Fault>)
    ensures
        compare_done(old(heap)@, final(heap)@, scope, CompareOp::Lt, args, r),
{
    value_compare(heap, scope, CompareOp::Lt, args)
}

/// `<=`: whether the first argument is less than or equal to the second.
pub fn value_le(heap: &mut GcAllocator, scope: Gc, args: Gc) -> (r: Result<Gc, Fault>)
    ensures
        compare_done(old(heap)@, final(heap)@, scope, CompareOp::Le, args, r),
{
    value_compare(heap, scope, CompareOp::Le, args)
}

/// What `!` gives: the negation of its first argument when that is a boolean, else of the
/// boolean bound to `false`.
pub open spec fn value_not_done(h: Seq<Option<Object>>, h2: Seq<Option<Object>>, scope: Gc, args: Gc, r: Result<Gc, Fault>) -> bool {
    &&& h2 == h
    &&& match args_of(h, args) {
        Err(e) => r == Err::<Gc, Fault>(e),
        Ok(items) => match (if items.len() > 0 { data_at(h, items[0]) } else { None }) {
            Some(Data::Bool(b)) => r == bool_result(h, scope, !b),
            _ => match value_result(h, scope, "false"@, Tag::Bool) {
                Ok(f) => r == bool_result(h, scope, !(object_in(h, f).value->Bool_0)),
                Err(e) => r == Err::<Gc, Fault>(e),
            },
        },
    }
}

/// `!`: the negation of the first argument.
pub fn value_not(heap: &mut GcAllocator, scope: Gc, args: Gc) -> (r: Result<Gc, Fault>)
    ensures
        value_not_done(old(heap)@, final(heap)@, scope, args, r),
{
    let items = match items_of_args(heap, args) {
        Ok(i) => i,
        Err(e) => {
            return Err(e);
        },
    };
    if items.len() > 0 {
        if let Some(Data::Bool(b)) = heap.data(items[0]) {
            let v = !*b;
            return new_bool(heap, scope, v);
        }
    }
    let f = match false_value(heap, scope) {
        Ok(f) => f,
        Err(e) => {
            return Err(e);
        },
    };
    let v = match heap.data(f) {
        Some(Data::Bool(b)) => !*b,
        _ => true,
    };
    new_bool(heap, scope, v)
}

/// The value an atom takes from the arguments `items` (in the vector `args`): `nil` for
/// none, the one argument, or the vector of them all.
pub open spec fn atom_value_in(h: Seq<Option<Object>>, scope: Gc, items: Seq<Gc>, args: Gc) -> Result<Gc, Fault> {
    if items.len() == 0 {
        value_result(h, scope, "nil"@, Tag::Nil)
    } else if items.len() == 1 {
        Ok(items[0])
    } else {
        Ok(args)
    }
}

/// The value an atom takes from the arguments `items` (in the vector `args`).
pub fn atom_value_from_args(heap: &GcAllocator, scope: Gc, items: &Vec<Gc>, args: Gc) -> (r: Result<Gc, Fault>)
    ensures
        r == atom_value_in(heap@, scope, items@, args),
{
    if items.len() == 0 {
        nil_value(heap, scope)
    } else if items.len() == 1 {
        Ok(items[0])
    } else {
        Ok(args)
    }
}

/// What `atom.new` gives: a new atom holding the value taken from the arguments.
pub open spec fn atom_new_done(h: Seq<Option<Object>>, h2: Seq<Option<Object>>, scope: Gc, args: Gc, r: Result<Gc, Fault>) -> bool {
    match args_of(h, args) {
        Err(e) => r == Err::<Gc, Fault>(e) && h2 == h,
        Ok(items) => match atom_value_in(h, scope, items, args) {
            Err(e) => r == Err::<Gc, Fault>(e) && h2 == h,
            Ok(v) => made_object(h, h2, r, scope, "Atom"@, None) && (r matches Ok(g) ==> object_in(h2, g).value == Data::Atom(
                Atom { value: v },
            )),
        },
    }
}

/// `atom.new`: a new atom.
pub fn atom_new(heap: &mut GcAllocator, scope: Gc, args: Gc) -> (r: Result<Gc, Fault>)
    ensures
        atom_new_done(old(heap)@, final(heap)@, scope, args, r),
{
    let items = match items_of_args(heap, args) {
        Ok(i) => i,
        Err(e) => {
            return Err(e);
        },
    };
    let v = match atom_value_from_args(heap, scope, &items, args) {
        Ok(v) => v,
        Err(e) => {
            return Err(e);
        },
    };
    new_object_of_kind(heap, scope, "Atom", Data::Atom(Atom::new(v)), None)
}

/// What `atom.get` gives: the value held by the atom that is its first argument.
pub open spec fn atom_get_done(h: Seq<Option<Object>>, h2: Seq<Option<Object>>, args: Gc, r: Result<Gc, Fault>) -> bool {
    &&& h2 == h
    &&& match args_of(h, args) {
        Err(e) => r == Err::<Gc, Fault>(e),
        Ok(items) => if items.len() == 0 {
            r == Err::<Gc, Fault>(Fault::MissingArgument)
        } else {
            match data_at(h, items[0]) {
                Some(Data::Atom(a)) => r == Ok::<Gc, Fault>(a.value),
                _ => r == Err::<Gc, Fault>(Fault::WrongType),
            }
        },
    }
}

/// `atom.get`: the value held by an atom.
pub fn atom_get(heap: &mut GcAllocator, args: Gc) -> (r: Result<Gc, Fault>)
    ensures
        atom_get_done(old(heap)@, final(heap)@, args, r),
{
    let items = match items_of_args(heap, args) {
        Ok(i) => i,
        Err(e) => {
            return Err(e);
        },
    };
    if items.len() == 0 {
        return Err(Fault::MissingArgument);
    }
    match heap.data(items[0]) {
        Some(Data::Atom(a)) => Ok(a.value),
        _ => Err(Fault::WrongType),
    }
}

/// What `atom.set` gives: the atom that is its first argument, now holding the value taken
/// from the other arguments, which are first copied into a new vector.
pub open spec fn atom_set_done(h: Seq<Option<Object>>, h2: Seq<Option<Object>>, scope: Gc, args: Gc, r: Result<Gc, Fault>) -> bool {
    match args_of(h, args) {
        Err(e) => r == Err::<Gc, Fault>(e) && h2 == h,
        Ok(items) => match kind_result(h, scope, "Vector"@) {
            Err(e) => r == Err::<Gc, Fault>(e) && h2 == h,
            Ok(vk) => if items.len() == 0 {
                r == Err::<Gc, Fault>(Fault::MissingArgument) && h2 == h
            } else {
                let atom = items[0];
                let rest = items.drop_first();
                let copy = Gc { ptr: h.len() as usize };
                match data_at(h, atom) {
                    Some(Data::Atom(_)) => match atom_value_in(h, scope, rest, copy) {
                        Err(e) => r == Err::<Gc, Fault>(e) && h2 == h,
                        Ok(v) => {
                            &&& r == Ok::<Gc, Fault>(atom)
                            &&& h2.len() == h.len() + 1
                            &&& forall|i: int| 0 <= i < h.len() && i != atom.ptr ==> #[trigger] h2[i] == h[i]
                            &&& h2[atom.ptr as int] == Some(Object { value: Data::Atom(Atom { value: v }), ..object_in(h, atom) })
                            &&& h2[copy.ptr as int] is Some
                            &&& object_in(h2, copy).kind == vk
                            &&& object_in(h2, copy).value matches Data::Vector(x) && x@ == rest
                        },
                    },
                    _ => r == Err::<Gc, Fault>(Fault::WrongType) && h2 == h,
                }
            },
        },
    }
}

/// What a read gives back of a write: `atom.set` on the atom `atom` gives that atom, and
/// `atom.get` of it then gives what it was set to: the one value after it, `nil` when
/// there is none, or a new vector of the values after it when there are several.
pub proof fn lemma_atom_get_after_set(
    h: Seq<Option<Object>>,
    h2: Seq<Option<Object>>,
    h3: Seq<Option<Object>>,
    scope: Gc,
    args: Gc,
    args2: Gc,
    atom: Gc,
    r: Result<Gc, Fault>,
    r2: Result<Gc, Fault>,
)
    requires
        args_of(h, args) matches Ok(items) && items.len() > 0 && items[0] == atom,
        atom_set_done(h, h2, scope, args, r),
        r is Ok,
        args_of(h2, args2) matches Ok(items) && items.len() > 0 && items[0] == atom,
        atom_get_done(h2, h3, args2, r2),
    ensures
        r == Ok::<Gc, Fault>(atom),
        r2 == atom_value_in(h, scope, args_of(h, args)->Ok_0.drop_first(), Gc { ptr: h.len() as usize }),
        args_of(h, args)->Ok_0.len() == 2 ==> r2 == Ok::<Gc, Fault>(args_of(h, args)->Ok_0[1]),
{
}


/// `atom.set`: replaces the value held by an atom.
pub fn atom_set(heap: &mut GcAllocator, scope: Gc, args: Gc) -> (r: Result<Gc, Fault>)
    ensures
        atom_set_done(old(heap)@, final(heap)@, scope, args, r),
{
    let items = match items_of_args(heap, args) {
        Ok(i) => i,
        Err(e) => {
            return Err(e);
        },
    };
    let vk = match kind_named(heap, scope, "Vector") {
        Ok(k) => k,
        Err(e) => {
            return Err(e);
        },
    };
    if items.len() == 0 {
        return Err(Fault::MissingArgument);
    }
    let atom = items[0];
    match heap.data(atom) {
        Some(Data::Atom(_)) => {},
        _ => {
            return Err(Fault::WrongType);
        },
    }
    let rest = crate::handles::handles_after_first(&items);
    let copy = Gc { ptr: heap.len() };
    let v = match atom_value_from_args(heap, scope, &rest, copy) {
        Ok(v) => v,
        Err(e) => {
            return Err(e);
        },
    };
    let ghost h0 = heap@;
    let c = alloc_of_kind(heap, vk, Data::Vector(Vector::from_vec(rest)), None);
    let ghost h1 = heap@;
    heap.set_value(atom, Data::Atom(Atom::new(v)));
    proof {
        assert(heap@[c.ptr as int] == h1[c.ptr as int]);
        assert(h1[atom.ptr as int] == h0[atom.ptr as int]);
    }
    Ok(atom)
}

/// The value that `kind.*` functions look at: the first argument, or `nil`.
pub open spec fn kind_subject(h: Seq<Option<Object>>, scope: Gc, args: Gc) -> Result<Gc, Fault> {
    match args_of(h, args) {
        Err(e) => Err(e),
        Ok(items) => match arg_or_nil_in(h, scope, items, 0) {
            Err(e) => Err(e),
            Ok(v) => if live_in(h, v) {
                Ok(v)
            } else {
                Err(Fault::WrongType)
            },
        },
    }
}

/// The value that `kind.*` functions look at.
fn kind_subject_of(heap: &GcAllocator, scope: Gc, args: Gc) -> (r: Result<Gc, Fault>)
    ensures
        r == kind_subject(heap@, scope, args),
{
    let items = match items_of_args(heap, args) {
        Ok(i) => i,
        Err(e) => {
            return Err(e);
        },
    };
    let v = match arg_or_nil_from(heap, scope, &items, 0) {
        Ok(v) => v,
        Err(e) => {
            return Err(e);
        },
    };
    if heap.is_live(v) {
        Ok(v)
    } else {
        Err(Fault::WrongType)
    }
}

/// What `kind_of` gives, from the heap `h` to the heap `h2`.
pub open spec fn kind_of_done(h: Seq<Option<Object>>, h2: Seq<Option<Object>>, scope: Gc, args: Gc, r: Result<Gc, Fault>) -> bool {
    &&& h2 == h
    &&& r == (match kind_subject(h, scope, args) {
        Ok(v) => Ok::<Gc, Fault>(object_in(h, v).kind),
        Err(e) => Err(e),
    })
}

/// `kind.of`: the kind of the first argument (or of `nil`).
pub fn kind_of(heap: &mut GcAllocator, scope: Gc, args: Gc) -> (r: Result<Gc, Fault>)
    ensures
        kind_of_done(old(heap)@, final(heap)@, scope, args, r),
{
    match kind_subject_of(heap, scope, args) {
        Ok(v) => match heap.get(v) {
            Some(o) => Ok(o.kind),
            None => Err(Fault::WrongType),
        },
        Err(e) => Err(e),
    }
}

/// The kind object of the first argument (or of `nil`), when it is a kind.
pub open spec fn subject_kind(h: Seq<Option<Object>>, scope: Gc, args: Gc) -> Result<Gc, Fault> {
    match kind_subject(h, scope, args) {
        Err(e) => Err(e),
        Ok(v) => match data_at(h, object_in(h, v).kind) {
            Some(Data::Kind(_)) => Ok(object_in(h, v).kind),
            _ => Err(Fault::WrongType),
        },
    }
}

/// The kind object of the first argument, when it is a kind.
fn subject_kind_of(heap: &GcAllocator, scope: Gc, args: Gc) -> (r: Result<Gc, Fault>)
    ensures
        r == subject_kind(heap@, scope, args),
{
    let v = match kind_subject_of(heap, scope, args) {
        Ok(v) => v,
        Err(e) => {
            return Err(e);
        },
    };
    let k = match heap.get(v) {
        Some(o) => o.kind,
        None => {
            return Err(Fault::WrongType);
        },
    };
    match heap.data(k) {
        Some(Data::Kind(_)) => Ok(k),
        _ => Err(Fault::WrongType),
    }
}

/// What `kind_name` gives, from the heap `h` to the heap `h2`.
pub open spec fn kind_name_done(h: Seq<Option<Object>>, h2: Seq<Option<Object>>, scope: Gc, args: Gc, r: Result<Gc, Fault>) -> bool {
    &&& match subject_kind(h, scope, args) {
        Err(e) => r == Err::<Gc, Fault>(e) && h2 == h,
        Ok(k) => made_object(h, h2, r, scope, "String"@, None) && (r matches Ok(g) ==> (object_in(h2, g).value matches Data::Str(x)
            && x@ == object_in(h, k).value->Kind_0.name@)),
    }
}

/// `kind.name`: a new string holding the name of the kind of the first argument.
pub fn kind_name(heap: &mut GcAllocator, scope: Gc, args: Gc) -> (r: Result<Gc, Fault>)
    ensures
        kind_name_done(old(heap)@, final(heap)@, scope, args, r),
{
    let k = match subject_kind_of(heap, scope, args) {
        Ok(k) => k,
        Err(e) => {
            return Err(e);
        },
    };
    let name = match heap.data(k) {
        Some(Data::Kind(kd)) => crate::object::string_from(kd.name.as_str()),
        _ => {
            return Err(Fault::WrongType);
        },
    };
    new_string(heap, scope, name.as_str())
}

/// What `kind_size` gives, from the heap `h` to the heap `h2`.
pub open spec fn kind_size_done(h: Seq<Option<Object>>, h2: Seq<Option<Object>>, scope: Gc, args: Gc, r: Result<Gc, Fault>) -> bool {
    &&& match subject_kind(h, scope, args) {
        Err(e) => r == Err::<Gc, Fault>(e) && h2 == h,
        Ok(k) => made_object(h, h2, r, scope, "USize"@, None) && (r matches Ok(g) ==> object_in(h2, g).value
            == Data::USize(object_in(h, k).value->Kind_0.size)),
    }
}

/// `kind.size`: a new `usize` holding the size of the kind of the first argument.
pub fn kind_size(heap: &mut GcAllocator, scope: Gc, args: Gc) -> (r: Result<Gc, Fault>)
    ensures
        kind_size_done(old(heap)@, final(heap)@, scope, args, r),
{
    let k = match subject_kind_of(heap, scope, args) {
        Ok(k) => k,
        Err(e) => {
            return Err(e);
        },
    };
    let size = match heap.data(k) {
        Some(Data::Kind(kd)) => kd.size,
        _ => {
            return Err(Fault::WrongType);
        },
    };
    new_usize(heap, scope, size)
}

/// What `kind_align` gives, from the heap `h` to the heap `h2`.
pub open spec fn kind_align_done(h: Seq<Option<Object>>, h2: Seq<Option<Object>>, scope: Gc, args: Gc, r: Result<Gc, Fault>) -> bool {
    &&& match subject_kind(h, scope, args) {
        Err(e) => r == Err::<Gc, Fault>(e) && h2 == h,
        Ok(k) => made_object(h, h2, r, scope, "USize"@, None) && (r matches Ok(g) ==> object_in(h2, g).value
            == Data::USize(object_in(h, k).value->Kind_0.align)),
    }
}

/// `kind.align`: a new `usize` holding the alignment of the kind of the first argument.
pub fn kind_align(heap: &mut GcAllocator, scope: Gc, args: Gc) -> (r: Result<Gc, Fault>)
    ensures
        kind_align_done(old(heap)@, final(heap)@, scope, args, r),
{
    let k = match subject_kind_of(heap, scope, args) {
        Ok(k) => k,
        Err(e) => {
            return Err(e);
        },
    };
    let align = match heap.data(k) {
        Some(Data::Kind(kd)) => kd.align,
        _ => {
            return Err(Fault::WrongType);
        },
    };
    new_usize(heap, scope, align)
}

/// What `gc_allocator_collect` gives, from the heap `h` to the heap `h2`.
pub open spec fn gc_allocator_collect_done(h: Seq<Option<Object>>, h2: Seq<Option<Object>>, scope: Gc, r: Result<Gc, Fault>) -> bool {
    match value_result(h, scope, "default_gc_allocator"@, Tag::Allocator) {
        Err(e) => r == Err::<Gc, Fault>(e) && h2 == h,
        Ok(_) => {
            let h1 = collected(h, scope);
            &&& made_object(h1, h2, r, scope, "USize"@, None)
            &&& r matches Ok(g) ==> object_in(h2, g).value == Data::USize(freed_size(h, scope, h.len() as int))
        },
    }
}

/// `gc_allocator.collect`: with the heap bound to `default_gc_allocator` in `scope` (the
/// scope of the call), collects from `scope`, then gives a new `usize` holding the size
/// freed.
pub fn gc_allocator_collect(heap: &mut GcAllocator, scope: Gc) -> (r: Result<Gc, Fault>)
    ensures
        gc_allocator_collect_done(old(heap)@, final(heap)@, scope, r),
{
    match value_named(heap, scope, "default_gc_allocator", Tag::Allocator) {
        Ok(_) => {},
        Err(e) => {
            return Err(e);
        },
    }
    let freed = heap.collect(scope);
    new_usize(heap, scope, freed)
}

/// What `global_error_handler` gives, from the heap `h` to the heap `h2`.
pub open spec fn global_error_handler_done(h: Seq<Option<Object>>, h2: Seq<Option<Object>>, scope: Gc, args: Gc, r: Result<Gc, Fault>) -> bool {
    &&& h2 == h
    &&& r == (match args_of(h, args) {
        Err(e) => Err::<Gc, Fault>(e),
        Ok(items) => match arg_or_nil_in(h, scope, items, 0) {
            Ok(v) => Err::<Gc, Fault>(Fault::GlobalError(v)),
            Err(e) => Err::<Gc, Fault>(e),
        },
    })
}

/// `global_error_handler`: stops the runtime with its first argument (or `nil`).
pub fn global_error_handler(heap: &mut GcAllocator, scope: Gc, args: Gc) -> (r: Result<Gc, Fault>)
    ensures
        global_error_handler_done(old(heap)@, final(heap)@, scope, args, r),
{
    let items = match items_of_args(heap, args) {
        Ok(i) => i,
        Err(e) => {
            return Err(e);
        },
    };
    match arg_or_nil_from(heap, scope, &items, 0) {
        Ok(v) => Err(Fault::GlobalError(v)),
        Err(e) => Err(e),
    }
}

/// The number of items of `d` when it is a collection of type `c`.
pub open spec fn collection_size(d: Data, c: Collection) -> Option<nat> {
    match (c, d) {
        (Collection::PersistentList, Data::PersistentList(x)) => Some(x@.len()),
        (Collection::List, Data::List(x)) => Some(x@.len()),
        (Collection::PersistentVector, Data::PersistentVector(x)) => Some(x@.len()),
        (Collection::Vector, Data::Vector(x)) => Some(x@.len()),
        (Collection::PersistentMap, Data::PersistentMap(x)) => Some(x@.len()),
        (Collection::ValueMap, Data::ValueMap(x)) => Some(x@.len()),
        (Collection::PersistentSet, Data::PersistentSet(x)) => Some(x@.len()),
        (Collection::ValueSet, Data::ValueSet(x)) => Some(x@.len()),
        (Collection::LinkedMap, Data::LinkedMap(x)) => Some(x@.len()),
        (Collection::PersistentScope, Data::PersistentScope(x)) => Some(x.entries().dom().len()),
        _ => None,
    }
}

/// The number of items of `d` when it is a collection of type `c`.
fn collection_size_of(d: &Data, c: Collection) -> (r: Option<usize>)
    ensures
        match collection_size(*d, c) {
            Some(n) => r matches Some(m) && m == n,
            None => r is None,
        },
{
    match (c, d) {
        (Collection::PersistentList, Data::PersistentList(x)) => Some(x.len()),
        (Collection::List, Data::List(x)) => Some(x.len()),
        (Collection::PersistentVector, Data::PersistentVector(x)) => Some(x.len()),
        (Collection::Vector, Data::Vector(x)) => Some(x.len()),
        (Collection::PersistentMap, Data::PersistentMap(x)) => Some(x.len()),
        (Collection::ValueMap, Data::ValueMap(x)) => Some(x.len()),
        (Collection::PersistentSet, Data::PersistentSet(x)) => Some(x.len()),
        (Collection::ValueSet, Data::ValueSet(x)) => Some(x.len()),
        (Collection::LinkedMap, Data::LinkedMap(x)) => Some(x.len()),
        (Collection::PersistentScope, Data::PersistentScope(x)) => Some(x.len()),
        _ => None,
    }
}

/// The size of the collection of type `c` that is the first argument.
pub open spec fn subject_size(h: Seq<Option<Object>>, c: Collection, args: Gc) -> Result<nat, Fault> {
    match args_of(h, args) {
        Err(e) => Err(e),
        Ok(items) => if items.len() == 0 {
            Err(Fault::MissingArgument)
        } else {
            match data_at(h, items[0]) {
                Some(d) => match collection_size(d, c) {
                    Some(n) => Ok(n),
                    None => Err(Fault::WrongType),
                },
                None => Err(Fault::WrongType),
            }
        },
    }
}

/// The size of the collection of type `c` that is the first argument.
fn subject_size_of(heap: &GcAllocator, c: Collection, args: Gc) -> (r: Result<usize, Fault>)
    ensures
        match subject_size(heap@, c, args) {
            Ok(n) => r matches Ok(m) && m == n,
            Err(e) => r == Err::<usize, Fault>(e),
        },
{
    let items = match items_of_args(heap, args) {
        Ok(i) => i,
        Err(e) => {
            return Err(e);
        },
    };
    if items.len() == 0 {
        return Err(Fault::MissingArgument);
    }
    match heap.data(items[0]) {
        Some(d) => match collection_size_of(d, c) {
            Some(n) => Ok(n),
            None => Err(Fault::WrongType),
        },
        None => Err(Fault::WrongType),
    }
}

/// What `collection_is_empty` gives, from the heap `h` to the heap `h2`.
pub open spec fn collection_is_empty_done(h: Seq<Option<Object>>, h2: Seq<Option<Object>>, scope: Gc, c: Collection, args: Gc, r: Result<Gc, Fault>) -> bool {
    &&& h2 == h
    &&& r == (match subject_size(h, c, args) {
        Ok(n) => bool_result(h, scope, n == 0),
        Err(e) => Err::<Gc, Fault>(e),
    })
}

/// `*.is_empty`: whether the collection of type `c` that is the first argument is empty.
pub fn collection_is_empty(heap: &mut GcAllocator, scope: Gc, c: Collection, args: Gc) -> (r: Result<Gc, Fault>)
    ensures
        collection_is_empty_done(old(heap)@, final(heap)@, scope, c, args, r),
{
    match subject_size_of(heap, c, args) {
        Ok(n) => new_bool(heap, scope, n == 0),
        Err(e) => Err(e),
    }
}

/// Whether the length of collections of type `c` is given as an `isize` (lists and linked
/// maps) rather than a `usize`.
pub open spec fn signed_len(c: Collection) -> bool {
    c == Collection::PersistentList || c == Collection::List || c == Collection::LinkedMap
}

/// What `collection_len` gives, from the heap `h` to the heap `h2`.
pub open spec fn collection_len_done(h: Seq<Option<Object>>, h2: Seq<Option<Object>>, scope: Gc, c: Collection, args: Gc, r: Result<Gc, Fault>) -> bool {
    &&& match subject_size(h, c, args) {
        Err(e) => r == Err::<Gc, Fault>(e) && h2 == h,
        Ok(n) => if signed_len(c) {
            made_object(h, h2, r, scope, "ISize"@, None) && (r matches Ok(g) ==> object_in(h2, g).value
                == Data::ISize(n as isize))
        } else {
            made_object(h, h2, r, scope, "USize"@, None) && (r matches Ok(g) ==> object_in(h2, g).value
                == Data::USize(n as usize))
        },
    }
}

/// `*.len`: a new number holding the size of the collection of type `c` that is the
/// first argument.
pub fn collection_len(heap: &mut GcAllocator, scope: Gc, c: Collection, args: Gc) -> (r: Result<Gc, Fault>)
    ensures
        collection_len_done(old(heap)@, final(heap)@, scope, c, args, r),
{
    let n = match subject_size_of(heap, c, args) {
        Ok(n) => n,
        Err(e) => {
            return Err(e);
        },
    };
    if c == Collection::PersistentList || c == Collection::List || c == Collection::LinkedMap {
        new_isize(heap, scope, n as isize)
    } else {
        new_usize(heap, scope, n)
    }
}

/// The items of `d` when it is a list or a vector of type `c`.
pub open spec fn sequence_of(d: Data, c: Collection) -> Option<Seq<Gc>> {
    match (c, d) {
        (Collection::PersistentList, Data::PersistentList(x)) => Some(x@),
        (Collection::List, Data::List(x)) => Some(x@),
        (Collection::PersistentVector, Data::PersistentVector(x)) => Some(x@),
        (Collection::Vector, Data::Vector(x)) => Some(x@),
        _ => None,
    }
}

/// The items of `d` when it is a list or a vector of type `c`.
fn sequence_items(d: &Data, c: Collection) -> (r: Option<Vec<Gc>>)
    ensures
        match sequence_of(*d, c) {
            Some(s) => r matches Some(v) && v@ == s,
            None => r is None,
        },
{
    match (c, d) {
        (Collection::PersistentList, Data::PersistentList(x)) => Some(copy_handles(x.items_ref())),
        (Collection::List, Data::List(x)) => Some(copy_handles(x.items_ref())),
        (Collection::PersistentVector, Data::PersistentVector(x)) => Some(copy_handles(x.items_ref())),
        (Collection::Vector, Data::Vector(x)) => Some(copy_handles(x.items_ref())),
        _ => None,
    }
}

/// The list or vector of type `c` holding `items`.
fn sequence_data(c: Collection, items: Vec<Gc>) -> (d: Data)
    requires
        c == Collection::PersistentList || c == Collection::List || c == Collection::PersistentVector || c == Collection::Vector,
    ensures
        sequence_of(d, c) == Some(items@),
{
    match c {
        Collection::PersistentList => Data::PersistentList(PersistentList::from_vec(items)),
        Collection::List => Data::List(List::from_vec(items)),
        Collection::PersistentVector => Data::PersistentVector(PersistentVector::from_vec(items)),
        _ => Data::Vector(Vector::from_vec(items)),
    }
}

/// The list or vector of type `c` that is the first argument, with its items, and the
/// other arguments.
pub open spec fn sequence_subject(h: Seq<Option<Object>>, c: Collection, args: Gc) -> Result<(Gc, Seq<Gc>, Seq<Gc>), Fault> {
    match args_of(h, args) {
        Err(e) => Err(e),
        Ok(items) => if items.len() == 0 {
            Err(Fault::MissingArgument)
        } else {
            match data_at(h, items[0]) {
                Some(d) => match sequence_of(d, c) {
                    Some(s) => Ok((items[0], s, items)),
                    None => Err(Fault::WrongType),
                },
                None => Err(Fault::WrongType),
            }
        },
    }
}

/// The list or vector of type `c` that is the first argument.
fn sequence_subject_of(heap: &GcAllocator, c: Collection, args: Gc) -> (r: Result<(Gc, Vec<Gc>, Vec<Gc>), Fault>)
    ensures
        match sequence_subject(heap@, c, args) {
            Ok((g, s, items)) => r matches Ok((g2, s2, items2)) && g2 == g && s2@ == s && items2@ == items,
            Err(e) => r matches Err(f) && f == e,
        },
{
    let items = match items_of_args(heap, args) {
        Ok(i) => i,
        Err(e) => {
            return Err(e);
        },
    };
    if items.len() == 0 {
        return Err(Fault::MissingArgument);
    }
    let g = items[0];
    match heap.data(g) {
        Some(d) => match sequence_items(d, c) {
            Some(s) => Ok((g, s, items)),
            None => Err(Fault::WrongType),
        },
        None => Err(Fault::WrongType),
    }
}

/// The position asked of `nth` on a collection of type `c`: an `isize` for lists (a
/// negative one asks past the end), a `usize` for vectors.
pub open spec fn position_of(d: Data, c: Collection) -> Option<int> {
    match (c, d) {
        (Collection::PersistentList, Data::ISize(i)) => Some(if i < 0 { -1 } else { i as int }),
        (Collection::List, Data::ISize(i)) => Some(if i < 0 { -1 } else { i as int }),
        (Collection::PersistentVector, Data::USize(i)) => Some(i as int),
        (Collection::Vector, Data::USize(i)) => Some(i as int),
        _ => None,
    }
}

/// What `sequence_nth` gives, from the heap `h` to the heap `h2`.
pub open spec fn sequence_nth_done(h: Seq<Option<Object>>, h2: Seq<Option<Object>>, scope: Gc, c: Collection, args: Gc, r: Result<Gc, Fault>) -> bool {
    &&& h2 == h
    &&& r == (match sequence_subject(h, c, args) {
        Err(e) => Err::<Gc, Fault>(e),
        Ok((g, s, items)) => if items.len() < 2 {
            Err::<Gc, Fault>(Fault::MissingArgument)
        } else {
            match (if live_in(h, items[1]) { position_of(object_in(h, items[1]).value, c) } else { None }) {
                None => Err::<Gc, Fault>(Fault::WrongType),
                Some(i) => if 0 <= i < s.len() {
                    Ok::<Gc, Fault>(s[i])
                } else {
                    value_result(h, scope, "nil"@, Tag::Nil)
                },
            }
        },
    })
}

/// `*.nth`: the item at the position given by the second argument, or `nil` past the end.
pub fn sequence_nth(heap: &mut GcAllocator, scope: Gc, c: Collection, args: Gc) -> (r: Result<Gc, Fault>)
    ensures
        sequence_nth_done(old(heap)@, final(heap)@, scope, c, args, r),
{
    let (_, s, items) = match sequence_subject_of(heap, c, args) {
        Ok(x) => x,
        Err(e) => {
            return Err(e);
        },
    };
    if items.len() < 2 {
        return Err(Fault::MissingArgument);
    }
    let position: Option<usize> = match (c, heap.data(items[1])) {
        (Collection::PersistentList, Some(Data::ISize(i))) => if *i < 0 { None } else { Some(*i as usize) },
        (Collection::List, Some(Data::ISize(i))) => if *i < 0 { None } else { Some(*i as usize) },
        (Collection::PersistentVector, Some(Data::USize(i))) => Some(*i),
        (Collection::Vector, Some(Data::USize(i))) => Some(*i),
        _ => {
            return Err(Fault::WrongType);
        },
    };
    match position {
        Some(i) => if i < s.len() {
            Ok(s[i])
        } else {
            nil_value(heap, scope)
        },
        None => nil_value(heap, scope),
    }
}

/// The name of the kind of collections of type `c`.
pub open spec fn collection_kind_name(c: Collection) -> Seq<char> {
    match c {
        Collection::PersistentList => "PersistentList"@,
        Collection::List => "List"@,
        Collection::PersistentVector => "PersistentVector"@,
        Collection::Vector => "Vector"@,
        Collection::PersistentMap => "PersistentMap"@,
        Collection::ValueMap => "Map"@,
        Collection::PersistentSet => "PersistentSet"@,
        Collection::ValueSet => "Set"@,
        Collection::LinkedMap => "LinkedMap"@,
        Collection::PersistentScope => "PersistentScope"@,
    }
}

/// The name of the kind of collections of type `c`.
fn collection_kind_str(c: Collection) -> (s: &'static str)
    ensures
        s@ == collection_kind_name(c),
{
    match c {
        Collection::PersistentList => "PersistentList",
        Collection::List => "List",
        Collection::PersistentVector => "PersistentVector",
        Collection::Vector => "Vector",
        Collection::PersistentMap => "PersistentMap",
        Collection::ValueMap => "Map",
        Collection::PersistentSet => "PersistentSet",
        Collection::ValueSet => "Set",
        Collection::LinkedMap => "LinkedMap",
        Collection::PersistentScope => "PersistentScope",
    }
}

/// Whether collections of type `c` are changed in place by the provided functions.
pub open spec fn in_place(c: Collection) -> bool {
    c == Collection::List || c == Collection::Vector || c == Collection::ValueMap || c == Collection::ValueSet
}

/// Whether `r` and `h2` are what replacing the items of the list or vector `g` (of type
/// `c`) with `items` gives from `h`: for a type changed in place, `g` itself, changed;
/// for a persistent one, a new object of its kind seen from `scope`.
pub open spec fn sequence_replaced(h: Seq<Option<Object>>, h2: Seq<Option<Object>>, r: Result<Gc, Fault>, scope: Gc, c: Collection, g: Gc, items: Seq<Gc>) -> bool {
    if in_place(c) {
        &&& r == Ok::<Gc, Fault>(g)
        &&& h2.len() == h.len()
        &&& forall|i: int| 0 <= i < h.len() && i != g.ptr ==> #[trigger] h2[i] == h[i]
        &&& h2[g.ptr as int] is Some
        &&& object_in(h2, g) == (Object { value: object_in(h2, g).value, ..object_in(h, g) })
        &&& sequence_of(object_in(h2, g).value, c) == Some(items)
    } else {
        &&& made_object(h, h2, r, scope, collection_kind_name(c), None)
        &&& r matches Ok(n) ==> sequence_of(object_in(h2, n).value, c) == Some(items)
    }
}

/// Replaces the items of the list or vector `g` of type `c`, as `sequence_replaced` states.
fn replace_sequence(heap: &mut GcAllocator, scope: Gc, c: Collection, g: Gc, items: Vec<Gc>) -> (r: Result<Gc, Fault>)
    requires
        c == Collection::PersistentList || c == Collection::List || c == Collection::PersistentVector || c == Collection::Vector,
        live_in(old(heap)@, g),
    ensures
        sequence_replaced(old(heap)@, final(heap)@, r, scope, c, g, items@),
{
    let d = sequence_data(c, items);
    if c == Collection::List || c == Collection::Vector {
        heap.set_value(g, d);
        Ok(g)
    } else {
        new_object_of_kind(heap, scope, collection_kind_str(c), d, None)
    }
}

/// What `sequence_push` gives, from the heap `h` to the heap `h2`.
pub open spec fn sequence_push_done(h: Seq<Option<Object>>, h2: Seq<Option<Object>>, scope: Gc, c: Collection, front: bool, args: Gc, r: Result<Gc, Fault>) -> bool {
    &&& match sequence_subject(h, c, args) {
        Err(e) => r == Err::<Gc, Fault>(e) && h2 == h,
        Ok((g, s, items)) => sequence_replaced(h, h2, r, scope, c, g, if front {
            reversed(items.drop_first()) + s
        } else {
            s + items.drop_first()
        }),
    }
}

/// `*.push_front` and `*.push_back`: the list or vector that is the first argument with
/// every argument after it pushed in turn at the front or at the back.
pub fn sequence_push(heap: &mut GcAllocator, scope: Gc, c: Collection, front: bool, args: Gc) -> (r: Result<Gc, Fault>)
    ensures
        sequence_push_done(old(heap)@, final(heap)@, scope, c, front, args, r),
{
    let (g, s, all) = match sequence_subject_of(heap, c, args) {
        Ok(x) => x,
        Err(e) => {
            return Err(e);
        },
    };
    let items = handles_after_first(&all);
    let mut result: Vec<Gc> = Vec::new();
    if front {
        let mut i: usize = items.len();
        while i > 0
            invariant
                i <= items@.len(),
                result@ == reversed(items@.subrange(i as int, items@.len() as int)),
            decreases i,
        {
            i = i - 1;
            result.push(items[i]);
            proof {
                assert(result@ =~= reversed(items@.subrange(i as int, items@.len() as int)));
            }
        }
        let mut j: usize = 0;
        while j < s.len()
            invariant
                j <= s@.len(),
                result@ == reversed(items@) + s@.subrange(0, j as int),
            decreases s@.len() - j,
        {
            result.push(s[j]);
            j = j + 1;
            proof {
                assert(result@ =~= reversed(items@) + s@.subrange(0, j as int));
            }
        }
        proof {
            assert(items@.subrange(0, items@.len() as int) =~= items@);
            assert(s@.subrange(0, s@.len() as int) =~= s@);
        }
    } else {
        result = copy_handles(&s);
        let mut j: usize = 0;
        while j < items.len()
            invariant
                j <= items@.len(),
                result@ == s@ + items@.subrange(0, j as int),
            decreases items@.len() - j,
        {
            result.push(items[j]);
            j = j + 1;
            proof {
                assert(result@ =~= s@ + items@.subrange(0, j as int));
            }
        }
        proof {
            assert(items@.subrange(0, items@.len() as int) =~= items@);
        }
    }
    replace_sequence(heap, scope, c, g, result)
}

/// What `vector_insert` gives, from the heap `h` to the heap `h2`.
pub open spec fn vector_insert_done(h: Seq<Option<Object>>, h2: Seq<Option<Object>>, scope: Gc, c: Collection, args: Gc, r: Result<Gc, Fault>) -> bool {
    &&& match sequence_subject(h, c, args) {
        Err(e) => r == Err::<Gc, Fault>(e) && h2 == h,
        Ok((g, s, items)) => if items.len() < 2 {
            r == Err::<Gc, Fault>(Fault::MissingArgument) && h2 == h
        } else {
            match data_at(h, items[1]) {
                Some(Data::USize(i)) => match arg_or_nil_in(h, scope, items, 2) {
                    Err(e) => r == Err::<Gc, Fault>(e) && h2 == h,
                    Ok(v) => if i > s.len() {
                        r == Err::<Gc, Fault>(Fault::IndexOutOfRange) && h2 == h
                    } else {
                        sequence_replaced(h, h2, r, scope, c, g, s.insert(i as int, v))
                    },
                },
                _ => r == Err::<Gc, Fault>(Fault::WrongType) && h2 == h,
            }
        },
    }
}

/// `*.insert`: the vector that is the first argument with the third argument (or `nil`)
/// inserted before the position given by the second (a `usize`).
pub fn vector_insert(heap: &mut GcAllocator, scope: Gc, c: Collection, args: Gc) -> (r: Result<Gc, Fault>)
    ensures
        vector_insert_done(old(heap)@, final(heap)@, scope, c, args, r),
{
    let (g, s, items) = match sequence_subject_of(heap, c, args) {
        Ok(x) => x,
        Err(e) => {
            return Err(e);
        },
    };
    if items.len() < 2 {
        return Err(Fault::MissingArgument);
    }
    let i = match heap.data(items[1]) {
        Some(Data::USize(i)) => *i,
        _ => {
            return Err(Fault::WrongType);
        },
    };
    let v = match arg_or_nil_from(heap, scope, &items, 2) {
        Ok(v) => v,
        Err(e) => {
            return Err(e);
        },
    };
    if i > s.len() {
        return Err(Fault::IndexOutOfRange);
    }
    let mut result = s;
    result.insert(i, v);
    replace_sequence(heap, scope, c, g, result)
}

/// The pairs of `d` when it is a map of type `c` (persistent, or changed in place).
pub open spec fn map_pairs_of(d: Data, c: Collection) -> Option<Seq<(Gc, Gc)>> {
    match (c, d) {
        (Collection::PersistentMap, Data::PersistentMap(x)) => Some(x@),
        (Collection::ValueMap, Data::ValueMap(x)) => Some(x@),
        _ => None,
    }
}

/// The map of type `c` that is the first argument, its pairs, the key that is the second
/// argument, and all the arguments.
pub open spec fn map_subject(h: Seq<Option<Object>>, c: Collection, args: Gc) -> Result<(Gc, Seq<(Gc, Gc)>, Gc, Seq<Gc>), Fault> {
    match args_of(h, args) {
        Err(e) => Err(e),
        Ok(items) => if items.len() == 0 {
            Err(Fault::MissingArgument)
        } else {
            match (if live_in(h, items[0]) { map_pairs_of(object_in(h, items[0]).value, c) } else { None }) {
                None => Err(Fault::WrongType),
                Some(pairs) => if items.len() < 2 {
                    Err(Fault::MissingArgument)
                } else {
                    Ok((items[0], pairs, items[1], items))
                },
            }
        },
    }
}

/// The map of type `c` that is the first argument, and the key that is the second.
fn map_subject_of(heap: &GcAllocator, c: Collection, args: Gc) -> (r: Result<(Gc, Vec<(Gc, Gc)>, Gc, Vec<Gc>), Fault>)
    ensures
        match map_subject(heap@, c, args) {
            Ok((g, p, k, items)) => r matches Ok((g2, p2, k2, items2)) && g2 == g && p2@ == p && k2 == k && items2@ == items,
            Err(e) => r matches Err(f) && f == e,
        },
{
    let items = match items_of_args(heap, args) {
        Ok(i) => i,
        Err(e) => {
            return Err(e);
        },
    };
    if items.len() == 0 {
        return Err(Fault::MissingArgument);
    }
    let g = items[0];
    let pairs = match (c, heap.data(g)) {
        (Collection::PersistentMap, Some(Data::PersistentMap(x))) => copy_pairs(x.items_ref()),
        (Collection::ValueMap, Some(Data::ValueMap(x))) => copy_pairs(x.items_ref()),
        _ => {
            return Err(Fault::WrongType);
        },
    };
    if items.len() < 2 {
        return Err(Fault::MissingArgument);
    }
    Ok((g, pairs, items[1], items))
}

/// What `map_get` gives, from the heap `h` to the heap `h2`.
pub open spec fn map_get_done(h: Seq<Option<Object>>, h2: Seq<Option<Object>>, scope: Gc, c: Collection, args: Gc, r: Result<Gc, Fault>) -> bool {
    &&& h2 == h
    &&& r == (match map_subject(h, c, args) {
        Err(e) => Err::<Gc, Fault>(e),
        Ok((g, pairs, key, items)) => match pairs_get(h, pairs, key) {
            Some(v) => Ok::<Gc, Fault>(v),
            None => value_result(h, scope, "nil"@, Tag::Nil),
        },
    })
}

/// `*.get` on maps: the value bound to the key, or `nil`.
pub fn map_get(heap: &mut GcAllocator, scope: Gc, c: Collection, args: Gc) -> (r: Result<Gc, Fault>)
    ensures
        map_get_done(old(heap)@, final(heap)@, scope, c, args, r),
{
    let (_, pairs, key, _) = match map_subject_of(heap, c, args) {
        Ok(x) => x,
        Err(e) => {
            return Err(e);
        },
    };
    let m = PersistentMap::from_vec(pairs);
    match m.get(heap, key) {
        Some(v) => Ok(v),
        None => nil_value(heap, scope),
    }
}

/// What `map_has` gives, from the heap `h` to the heap `h2`.
pub open spec fn map_has_done(h: Seq<Option<Object>>, h2: Seq<Option<Object>>, scope: Gc, c: Collection, args: Gc, r: Result<Gc, Fault>) -> bool {
    &&& h2 == h
    &&& r == (match map_subject(h, c, args) {
        Err(e) => Err::<Gc, Fault>(e),
        Ok((g, pairs, key, items)) => bool_result(h, scope, scan_pairs(h, pairs, key, 0) is Some),
    })
}

/// `*.has` on maps: whether the key is bound.
pub fn map_has(heap: &mut GcAllocator, scope: Gc, c: Collection, args: Gc) -> (r: Result<Gc, Fault>)
    ensures
        map_has_done(old(heap)@, final(heap)@, scope, c, args, r),
{
    let (_, pairs, key, _) = match map_subject_of(heap, c, args) {
        Ok(x) => x,
        Err(e) => {
            return Err(e);
        },
    };
    let m = PersistentMap::from_vec(pairs);
    let b = m.has(heap, key);
    new_bool(heap, scope, b)
}

/// Whether `r` and `h2` are what replacing the pairs of the map `g` (of type `c`) with
/// `pairs` gives from `h`: `g` itself changed for a map changed in place, else a new map
/// of its kind seen from `scope`.
pub open spec fn map_replaced(h: Seq<Option<Object>>, h2: Seq<Option<Object>>, r: Result<Gc, Fault>, scope: Gc, c: Collection, g: Gc, pairs: Seq<(Gc, Gc)>) -> bool {
    if in_place(c) {
        &&& r == Ok::<Gc, Fault>(g)
        &&& h2.len() == h.len()
        &&& forall|i: int| 0 <= i < h.len() && i != g.ptr ==> #[trigger] h2[i] == h[i]
        &&& h2[g.ptr as int] is Some
        &&& object_in(h2, g) == (Object { value: object_in(h2, g).value, ..object_in(h, g) })
        &&& map_pairs_of(object_in(h2, g).value, c) == Some(pairs)
    } else {
        &&& made_object(h, h2, r, scope, collection_kind_name(c), None)
        &&& r matches Ok(n) ==> map_pairs_of(object_in(h2, n).value, c) == Some(pairs)
    }
}

/// Replaces the pairs of the map `g` of type `c`, as `map_replaced` states.
fn replace_map(heap: &mut GcAllocator, scope: Gc, c: Collection, g: Gc, pairs: Vec<(Gc, Gc)>) -> (r: Result<Gc, Fault>)
    requires
        c == Collection::PersistentMap || c == Collection::ValueMap,
        live_in(old(heap)@, g),
    ensures
        map_replaced(old(heap)@, final(heap)@, r, scope, c, g, pairs@),
{
    if c == Collection::ValueMap {
        heap.set_value(g, Data::ValueMap(ValueMap::from_vec(pairs)));
        Ok(g)
    } else {
        new_object_of_kind(heap, scope, "PersistentMap", Data::PersistentMap(PersistentMap::from_vec(pairs)), None)
    }
}

/// What `map_set` gives, from the heap `h` to the heap `h2`.
pub open spec fn map_set_done(h: Seq<Option<Object>>, h2: Seq<Option<Object>>, scope: Gc, c: Collection, args: Gc, r: Result<Gc, Fault>) -> bool {
    &&& match map_subject(h, c, args) {
        Err(e) => r == Err::<Gc, Fault>(e) && h2 == h,
        Ok((g, pairs, key, items)) => match arg_or_nil_in(h, scope, items, 2) {
            Err(e) => r == Err::<Gc, Fault>(e) && h2 == h,
            Ok(v) => map_replaced(h, h2, r, scope, c, g, pairs_set(h, pairs, key, v)),
        },
    }
}

/// `*.set` on maps: the map that is the first argument with the key bound to the third
/// argument (or `nil`).
pub fn map_set(heap: &mut GcAllocator, scope: Gc, c: Collection, args: Gc) -> (r: Result<Gc, Fault>)
    ensures
        map_set_done(old(heap)@, final(heap)@, scope, c, args, r),
{
    let (g, pairs, key, items) = match map_subject_of(heap, c, args) {
        Ok(x) => x,
        Err(e) => {
            return Err(e);
        },
    };
    let v = match arg_or_nil_from(heap, scope, &items, 2) {
        Ok(v) => v,
        Err(e) => {
            return Err(e);
        },
    };
    let m = PersistentMap::from_vec(pairs).set(heap, key, v);
    replace_map(heap, scope, c, g, copy_pairs(m.items_ref()))
}

/// What `map_remove` gives, from the heap `h` to the heap `h2`.
pub open spec fn map_remove_done(h: Seq<Option<Object>>, h2: Seq<Option<Object>>, scope: Gc, c: Collection, args: Gc, r: Result<Gc, Fault>) -> bool {
    &&& match map_subject(h, c, args) {
        Err(e) => r == Err::<Gc, Fault>(e) && h2 == h,
        Ok((g, pairs, key, items)) => if in_place(c) {
            match pairs_get(h, pairs, key) {
                Some(v) => map_replaced(h, h2, Ok(g), scope, c, g, pairs_remove(h, pairs, key))
                    && r == Ok::<Gc, Fault>(v),
                None => match value_result(h, scope, "nil"@, Tag::Nil) {
                    Ok(n) => map_replaced(h, h2, Ok(g), scope, c, g, pairs_remove(h, pairs, key))
                        && r == Ok::<Gc, Fault>(n),
                    Err(e) => r == Err::<Gc, Fault>(e) && h2 == h,
                },
            }
        } else {
            map_replaced(h, h2, r, scope, c, g, pairs_remove(h, pairs, key))
        },
    }
}

/// `*.remove` on maps: for a persistent map, a new map without the key; for a map changed
/// in place, the key's binding is removed and the value it had (or `nil`) is given.
pub fn map_remove(heap: &mut GcAllocator, scope: Gc, c: Collection, args: Gc) -> (r: Result<Gc, Fault>)
    ensures
        map_remove_done(old(heap)@, final(heap)@, scope, c, args, r),
{
    let (g, pairs, key, _) = match map_subject_of(heap, c, args) {
        Ok(x) => x,
        Err(e) => {
            return Err(e);
        },
    };
    let m = PersistentMap::from_vec(pairs);
    let removed = m.get(heap, key);
    let rest = m.remove(heap, key);
    if c == Collection::ValueMap {
        let answer = match removed {
            Some(v) => v,
            None => match nil_value(heap, scope) {
                Ok(n) => n,
                Err(e) => {
                    return Err(e);
                },
            },
        };
        let _ = replace_map(heap, scope, c, g, copy_pairs(rest.items_ref()));
        Ok(answer)
    } else {
        replace_map(heap, scope, c, g, copy_pairs(rest.items_ref()))
    }
}

/// The items of `d` when it is a set of type `c`.
pub open spec fn set_items_of(d: Data, c: Collection) -> Option<Seq<Gc>> {
    match (c, d) {
        (Collection::PersistentSet, Data::PersistentSet(x)) => Some(x@),
        (Collection::ValueSet, Data::ValueSet(x)) => Some(x@),
        _ => None,
    }
}

/// The set of type `c` that is the first argument, its items, and the value that is the
/// second argument (or `nil`).
pub open spec fn set_subject(h: Seq<Option<Object>>, scope: Gc, c: Collection, args: Gc) -> Result<(Gc, Seq<Gc>, Gc), Fault> {
    match args_of(h, args) {
        Err(e) => Err(e),
        Ok(items) => if items.len() == 0 {
            Err(Fault::MissingArgument)
        } else {
            match (if live_in(h, items[0]) { set_items_of(object_in(h, items[0]).value, c) } else { None }) {
                None => Err(Fault::WrongType),
                Some(s) => match arg_or_nil_in(h, scope, items, 1) {
                    Err(e) => Err(e),
                    Ok(v) => Ok((items[0], s, v)),
                },
            }
        },
    }
}

/// The set of type `c` that is the first argument, and the value that is the second.
fn set_subject_of(heap: &GcAllocator, scope: Gc, c: Collection, args: Gc) -> (r: Result<(Gc, Vec<Gc>, Gc), Fault>)
    ensures
        match set_subject(heap@, scope, c, args) {
            Ok((g, s, v)) => r matches Ok((g2, s2, v2)) && g2 == g && s2@ == s && v2 == v,
            Err(e) => r matches Err(f) && f == e,
        },
{
    let items = match items_of_args(heap, args) {
        Ok(i) => i,
        Err(e) => {
            return Err(e);
        },
    };
    if items.len() == 0 {
        return Err(Fault::MissingArgument);
    }
    let g = items[0];
    let s = match (c, heap.data(g)) {
        (Collection::PersistentSet, Some(Data::PersistentSet(x))) => copy_handles(x.items_ref()),
        (Collection::ValueSet, Some(Data::ValueSet(x))) => copy_handles(x.items_ref()),
        _ => {
            return Err(Fault::WrongType);
        },
    };
    match arg_or_nil_from(heap, scope, &items, 1) {
        Ok(v) => Ok((g, s, v)),
        Err(e) => Err(e),
    }
}

/// Replaces the items of the set `g` of type `c`, in place.
fn replace_set(heap: &mut GcAllocator, c: Collection, g: Gc, items: Vec<Gc>)
    requires
        c == Collection::PersistentSet || c == Collection::ValueSet,
        live_in(old(heap)@, g),
    ensures
        final(heap)@.len() == old(heap)@.len(),
        forall|i: int| 0 <= i < old(heap)@.len() && i != g.ptr ==> #[trigger] final(heap)@[i] == old(heap)@[i],
        final(heap)@[g.ptr as int] is Some,
        object_in(final(heap)@, g) == (Object { value: object_in(final(heap)@, g).value, ..object_in(old(heap)@, g) }),
        set_items_of(object_in(final(heap)@, g).value, c) == Some(items@),
{
    if c == Collection::ValueSet {
        heap.set_value(g, Data::ValueSet(ValueSet::from_vec(items)));
    } else {
        heap.set_value(g, Data::PersistentSet(PersistentSet::from_vec(items)));
    }
}

/// Whether `h2` is `h` with the items of the set `g` (of type `c`) replaced by `items`.
pub open spec fn set_replaced(h: Seq<Option<Object>>, h2: Seq<Option<Object>>, c: Collection, g: Gc, items: Seq<Gc>) -> bool {
    &&& h2.len() == h.len()
    &&& forall|i: int| 0 <= i < h.len() && i != g.ptr ==> #[trigger] h2[i] == h[i]
    &&& h2[g.ptr as int] is Some
    &&& object_in(h2, g) == (Object { value: object_in(h2, g).value, ..object_in(h, g) })
    &&& set_items_of(object_in(h2, g).value, c) == Some(items)
}

/// What `set_add` gives, from the heap `h` to the heap `h2`.
pub open spec fn set_add_done(h: Seq<Option<Object>>, h2: Seq<Option<Object>>, scope: Gc, c: Collection, args: Gc, r: Result<Gc, Fault>) -> bool {
    &&& match set_subject(h, scope, c, args) {
        Err(e) => r == Err::<Gc, Fault>(e) && h2 == h,
        Ok((g, s, v)) => r == Ok::<Gc, Fault>(g) && set_replaced(h, h2, c, g, items_add(h, s, v)),
    }
}

/// `*.add` on sets: adds the value to the set that is the first argument, in place (for
/// persistent sets too), and gives the set.
pub fn set_add(heap: &mut GcAllocator, scope: Gc, c: Collection, args: Gc) -> (r: Result<Gc, Fault>)
    ensures
        set_add_done(old(heap)@, final(heap)@, scope, c, args, r),
{
    let (g, s, v) = match set_subject_of(heap, scope, c, args) {
        Ok(x) => x,
        Err(e) => {
            return Err(e);
        },
    };
    let mut set = ValueSet::from_vec(s);
    set.add(heap, v);
    replace_set(heap, c, g, copy_handles(set.items_ref()));
    Ok(g)
}

/// What `set_has` gives, from the heap `h` to the heap `h2`.
pub open spec fn set_has_done(h: Seq<Option<Object>>, h2: Seq<Option<Object>>, scope: Gc, c: Collection, args: Gc, r: Result<Gc, Fault>) -> bool {
    &&& h2 == h
    &&& r == (match set_subject(h, scope, c, args) {
        Err(e) => Err::<Gc, Fault>(e),
        Ok((g, s, v)) => bool_result(h, scope, scan_items(h, s, v, 0) is Some),
    })
}

/// `*.has` on sets: whether an item matches the value.
pub fn set_has(heap: &mut GcAllocator, scope: Gc, c: Collection, args: Gc) -> (r: Result<Gc, Fault>)
    ensures
        set_has_done(old(heap)@, final(heap)@, scope, c, args, r),
{
    let (_, s, v) = match set_subject_of(heap, scope, c, args) {
        Ok(x) => x,
        Err(e) => {
            return Err(e);
        },
    };
    let set = ValueSet::from_vec(s);
    let b = set.has(heap, v);
    new_bool(heap, scope, b)
}

/// What `set_get` gives, from the heap `h` to the heap `h2`.
pub open spec fn set_get_done(h: Seq<Option<Object>>, h2: Seq<Option<Object>>, scope: Gc, c: Collection, args: Gc, r: Result<Gc, Fault>) -> bool {
    &&& h2 == h
    &&& r == (match set_subject(h, scope, c, args) {
        Err(e) => Err::<Gc, Fault>(e),
        Ok((g, s, v)) => match items_get(h, s, v) {
            Some(x) => Ok::<Gc, Fault>(x),
            None => value_result(h, scope, "nil"@, Tag::Nil),
        },
    })
}

/// `*.get` on sets: the item that matches the value, or `nil`.
pub fn set_get(heap: &mut GcAllocator, scope: Gc, c: Collection, args: Gc) -> (r: Result<Gc, Fault>)
    ensures
        set_get_done(old(heap)@, final(heap)@, scope, c, args, r),
{
    let (_, s, v) = match set_subject_of(heap, scope, c, args) {
        Ok(x) => x,
        Err(e) => {
            return Err(e);
        },
    };
    let set = ValueSet::from_vec(s);
    match set.get(heap, v) {
        Some(x) => Ok(x),
        None => nil_value(heap, scope),
    }
}

/// What `set_remove` gives, from the heap `h` to the heap `h2`.
pub open spec fn set_remove_done(h: Seq<Option<Object>>, h2: Seq<Option<Object>>, scope: Gc, c: Collection, args: Gc, r: Result<Gc, Fault>) -> bool {
    &&& match set_subject(h, scope, c, args) {
        Err(e) => r == Err::<Gc, Fault>(e) && h2 == h,
        Ok((g, s, v)) => if scan_items(h, s, v, 0) is Some {
            r == Ok::<Gc, Fault>(v) && set_replaced(h, h2, c, g, items_remove(h, s, v))
        } else {
            match value_result(h, scope, "nil"@, Tag::Nil) {
                Ok(n) => r == Ok::<Gc, Fault>(n) && set_replaced(h, h2, c, g, items_remove(h, s, v)),
                Err(e) => r == Err::<Gc, Fault>(e) && h2 == h,
            }
        },
    }
}

/// `*.remove` on sets: removes the item that matches the value, in place (for persistent
/// sets too); gives the value when an item matched, else `nil`.
pub fn set_remove(heap: &mut GcAllocator, scope: Gc, c: Collection, args: Gc) -> (r: Result<Gc, Fault>)
    ensures
        set_remove_done(old(heap)@, final(heap)@, scope, c, args, r),
{
    let (g, s, v) = match set_subject_of(heap, scope, c, args) {
        Ok(x) => x,
        Err(e) => {
            return Err(e);
        },
    };
    let mut set = ValueSet::from_vec(s);
    let removed = set.remove(heap, v);
    let answer = match removed {
        Some(x) => x,
        None => match nil_value(heap, scope) {
            Ok(n) => n,
            Err(e) => {
                return Err(e);
            },
        },
    };
    replace_set(heap, c, g, copy_handles(set.items_ref()));
    Ok(answer)
}

/// The scope that is the first argument, its bindings, the name that is the second
/// argument (a symbol), and all the arguments.
pub open spec fn scope_subject(h: Seq<Option<Object>>, args: Gc) -> Result<(Gc, PersistentScope, Seq<char>, Seq<Gc>), Fault> {
    match args_of(h, args) {
        Err(e) => Err(e),
        Ok(items) => if items.len() == 0 {
            Err(Fault::MissingArgument)
        } else {
            match data_at(h, items[0]) {
                Some(Data::PersistentScope(s)) => if items.len() < 2 {
                    Err(Fault::MissingArgument)
                } else {
                    match data_at(h, items[1]) {
                        Some(Data::Symbol(k)) => Ok((items[0], s, k.0@, items)),
                        _ => Err(Fault::WrongType),
                    }
                },
                _ => Err(Fault::WrongType),
            }
        },
    }
}

/// The scope that is the first argument, a copy of it, and the name that is the second.
fn scope_subject_of(heap: &GcAllocator, args: Gc) -> (r: Result<(Gc, PersistentScope, String, Vec<Gc>), Fault>)
    ensures
        match scope_subject(heap@, args) {
            Ok((g, s, k, items)) => r matches Ok((g2, s2, k2, items2)) && g2 == g && s2.entries() == s.entries() && s2.parent
                == s.parent && k2@ == k && items2@ == items,
            Err(e) => r matches Err(f) && f == e,
        },
{
    let items = match items_of_args(heap, args) {
        Ok(i) => i,
        Err(e) => {
            return Err(e);
        },
    };
    if items.len() == 0 {
        return Err(Fault::MissingArgument);
    }
    let g = items[0];
    let s = match heap.data(g) {
        Some(Data::PersistentScope(s)) => s.copy(),
        _ => {
            return Err(Fault::WrongType);
        },
    };
    if items.len() < 2 {
        return Err(Fault::MissingArgument);
    }
    let k = match heap.data(items[1]) {
        Some(Data::Symbol(k)) => crate::object::string_from(k.as_str()),
        _ => {
            return Err(Fault::WrongType);
        },
    };
    Ok((g, s, k, items))
}

/// What `persistent_scope_get` gives, from the heap `h` to the heap `h2`.
pub open spec fn persistent_scope_get_done(h: Seq<Option<Object>>, h2: Seq<Option<Object>>, scope: Gc, args: Gc, r: Result<Gc, Fault>) -> bool {
    &&& h2 == h
    &&& r == (match scope_subject(h, args) {
        Err(e) => Err::<Gc, Fault>(e),
        Ok((g, s, k, items)) => if s.entries().dom().contains(k) {
            Ok::<Gc, Fault>(Gc { ptr: s.entries()[k] })
        } else {
            value_result(h, scope, "nil"@, Tag::Nil)
        },
    })
}

/// `persistent_scope.get`: the value that the scope itself binds to the name, or `nil`.
pub fn persistent_scope_get(heap: &mut GcAllocator, scope: Gc, args: Gc) -> (r: Result<Gc, Fault>)
    ensures
        persistent_scope_get_done(old(heap)@, final(heap)@, scope, args, r),
{
    let (_, s, k, _) = match scope_subject_of(heap, args) {
        Ok(x) => x,
        Err(e) => {
            return Err(e);
        },
    };
    match s.get(k.as_str()) {
        Some(v) => Ok(v),
        None => nil_value(heap, scope),
    }
}

/// What `persistent_scope_has` gives, from the heap `h` to the heap `h2`.
pub open spec fn persistent_scope_has_done(h: Seq<Option<Object>>, h2: Seq<Option<Object>>, scope: Gc, args: Gc, r: Result<Gc, Fault>) -> bool {
    &&& h2 == h
    &&& r == (match scope_subject(h, args) {
        Err(e) => Err::<Gc, Fault>(e),
        Ok((g, s, k, items)) => bool_result(h, scope, s.entries().dom().contains(k)),
    })
}

/// `persistent_scope.has`: whether the scope itself binds the name.
pub fn persistent_scope_has(heap: &mut GcAllocator, scope: Gc, args: Gc) -> (r: Result<Gc, Fault>)
    ensures
        persistent_scope_has_done(old(heap)@, final(heap)@, scope, args, r),
{
    let (_, s, k, _) = match scope_subject_of(heap, args) {
        Ok(x) => x,
        Err(e) => {
            return Err(e);
        },
    };
    let b = s.has(k.as_str());
    new_bool(heap, scope, b)
}

/// What `persistent_scope_set` gives, from the heap `h` to the heap `h2`.
pub open spec fn persistent_scope_set_done(h: Seq<Option<Object>>, h2: Seq<Option<Object>>, scope: Gc, args: Gc, r: Result<Gc, Fault>) -> bool {
    &&& match scope_subject(h, args) {
        Err(e) => r == Err::<Gc, Fault>(e) && h2 == h,
        Ok((g, s, k, items)) => match arg_or_nil_in(h, scope, items, 2) {
            Err(e) => r == Err::<Gc, Fault>(e) && h2 == h,
            Ok(v) => made_object(h, h2, r, scope, "PersistentScope"@, None) && (r matches Ok(n) ==> (object_in(
                h2,
                n,
            ).value matches Data::PersistentScope(t) && t.entries() == s.entries().insert(k, v.ptr) && t.parent == s.parent)),
        },
    }
}

/// `persistent_scope.set`: a new scope, of the kind of scopes seen from `scope`, with the
/// bindings of the first argument and the name bound to the third argument (or `nil`).
pub fn persistent_scope_set(heap: &mut GcAllocator, scope: Gc, args: Gc) -> (r: Result<Gc, Fault>)
    ensures
        persistent_scope_set_done(old(heap)@, final(heap)@, scope, args, r),
{
    let (_, s, k, items) = match scope_subject_of(heap, args) {
        Ok(x) => x,
        Err(e) => {
            return Err(e);
        },
    };
    let v = match arg_or_nil_from(heap, scope, &items, 2) {
        Ok(v) => v,
        Err(e) => {
            return Err(e);
        },
    };
    let t = s.set(k.as_str(), v);
    new_object_of_kind(heap, scope, "PersistentScope", Data::PersistentScope(t), None)
}

/// What `persistent_scope_remove` gives, from the heap `h` to the heap `h2`.
pub open spec fn persistent_scope_remove_done(h: Seq<Option<Object>>, h2: Seq<Option<Object>>, scope: Gc, args: Gc, r: Result<Gc, Fault>) -> bool {
    &&& match scope_subject(h, args) {
        Err(e) => r == Err::<Gc, Fault>(e) && h2 == h,
        Ok((g, s, k, items)) => made_object(h, h2, r, scope, "PersistentScope"@, None) && (r matches Ok(n) ==> (object_in(
            h2,
            n,
        ).value matches Data::PersistentScope(t) && t.entries() == s.entries().remove(k) && t.parent == s.parent)),
    }
}

/// `persistent_scope.remove`: a new scope, of the kind of scopes seen from `scope`, with
/// the bindings of the first argument but the name's.
pub fn persistent_scope_remove(heap: &mut GcAllocator, scope: Gc, args: Gc) -> (r: Result<Gc, Fault>)
    ensures
        persistent_scope_remove_done(old(heap)@, final(heap)@, scope, args, r),
{
    let (_, s, k, _) = match scope_subject_of(heap, args) {
        Ok(x) => x,
        Err(e) => {
            return Err(e);
        },
    };
    let t = s.remove(k.as_str());
    new_object_of_kind(heap, scope, "PersistentScope", Data::PersistentScope(t), None)
}

/// Whether collections of type `c` are sets.
pub open spec fn is_set(c: Collection) -> bool {
    c == Collection::PersistentSet || c == Collection::ValueSet
}

/// Whether collections of type `c` are lists or vectors.
pub open spec fn is_sequence(c: Collection) -> bool {
    c == Collection::PersistentList || c == Collection::List || c == Collection::PersistentVector || c == Collection::Vector
}

/// What the provided function `b` gives for the arguments in the vector `args`, called in
/// `scope`, from the heap `h` to the heap `h2`.
pub open spec fn builtin_done(h: Seq<Option<Object>>, h2: Seq<Option<Object>>, scope: Gc, b: Builtin, args: Gc, r: Result<Gc, Fault>) -> bool {
    match b {
        Builtin::BoolNot => h2 == h && match args_of(h, args) {
            Err(e) => r == Err::<Gc, Fault>(e),
            Ok(items) => bool_not_done(h, scope, items, r),
        },
        Builtin::Number(t, op) => match args_of(h, args) {
            Err(e) => r == Err::<Gc, Fault>(e) && h2 == h,
            Ok(items) => number_binary_done(h, h2, scope, t, op, items, r),
        },
        Builtin::AtomNew => atom_new_done(h, h2, scope, args, r),
        Builtin::AtomGet => atom_get_done(h, h2, args, r),
        Builtin::AtomSet => atom_set_done(h, h2, scope, args, r),
        Builtin::Compare(op) => compare_done(h, h2, scope, op, args, r),
        Builtin::ValueNot => value_not_done(h, h2, scope, args, r),
        Builtin::KindOf => kind_of_done(h, h2, scope, args, r),
        Builtin::KindName => kind_name_done(h, h2, scope, args, r),
        Builtin::KindSize => kind_size_done(h, h2, scope, args, r),
        Builtin::KindAlign => kind_align_done(h, h2, scope, args, r),
        Builtin::GcAllocatorCollect => gc_allocator_collect_done(h, h2, scope, r),
        Builtin::GlobalErrorHandler => global_error_handler_done(h, h2, scope, args, r),
        Builtin::IsEmpty(c) => collection_is_empty_done(h, h2, scope, c, args, r),
        Builtin::Len(c) => collection_len_done(h, h2, scope, c, args, r),
        Builtin::Nth(c) => sequence_nth_done(h, h2, scope, c, args, r),
        Builtin::PushFront(c) => sequence_push_done(h, h2, scope, c, true, args, r),
        Builtin::PushBack(c) => sequence_push_done(h, h2, scope, c, false, args, r),
        Builtin::Insert(c) => vector_insert_done(h, h2, scope, c, args, r),
        Builtin::Get(c) => if c == Collection::PersistentScope {
            persistent_scope_get_done(h, h2, scope, args, r)
        } else if is_set(c) {
            set_get_done(h, h2, scope, c, args, r)
        } else if is_sequence(c) {
            sequence_nth_done(h, h2, scope, c, args, r)
        } else {
            map_get_done(h, h2, scope, c, args, r)
        },
        Builtin::Has(c) => if c == Collection::PersistentScope {
            persistent_scope_has_done(h, h2, scope, args, r)
        } else if is_set(c) {
            set_has_done(h, h2, scope, c, args, r)
        } else {
            map_has_done(h, h2, scope, c, args, r)
        },
        Builtin::Put(c) => if c == Collection::PersistentScope {
            persistent_scope_set_done(h, h2, scope, args, r)
        } else {
            map_set_done(h, h2, scope, c, args, r)
        },
        Builtin::Remove(c) => if c == Collection::PersistentScope {
            persistent_scope_remove_done(h, h2, scope, args, r)
        } else if is_set(c) {
            set_remove_done(h, h2, scope, c, args, r)
        } else {
            map_remove_done(h, h2, scope, c, args, r)
        },
        Builtin::Add(c) => set_add_done(h, h2, scope, c, args, r),
        Builtin::Host(_) => false,
    }
}

/// Calls the provided function `b` with the arguments in the vector `args`, in `scope`.
pub fn call_builtin(heap: &mut GcAllocator, scope: Gc, b: Builtin, args: Gc) -> (r: Result<Gc, Fault>)
    requires
        !(b is Host),
    ensures
        builtin_done(old(heap)@, final(heap)@, scope, b, args, r),
{
    match b {
        Builtin::BoolNot => {
            let items = match items_of_args(heap, args) {
                Ok(i) => i,
                Err(e) => {
                    return Err(e);
                },
            };
            bool_not(heap, scope, &items)
        },
        Builtin::Number(t, op) => {
            let items = match items_of_args(heap, args) {
                Ok(i) => i,
                Err(e) => {
                    return Err(e);
                },
            };
            number_binary(heap, scope, t, op, &items)
        },
        Builtin::AtomNew => atom_new(heap, scope, args),
        Builtin::AtomGet => atom_get(heap, args),
        Builtin::AtomSet => atom_set(heap, scope, args),
        Builtin::Compare(op) => value_compare(heap, scope, op, args),
        Builtin::ValueNot => value_not(heap, scope, args),
        Builtin::KindOf => kind_of(heap, scope, args),
        Builtin::KindName => kind_name(heap, scope, args),
        Builtin::KindSize => kind_size(heap, scope, args),
        Builtin::KindAlign => kind_align(heap, scope, args),
        Builtin::GcAllocatorCollect => gc_allocator_collect(heap, scope),
        Builtin::GlobalErrorHandler => global_error_handler(heap, scope, args),
        Builtin::IsEmpty(c) => collection_is_empty(heap, scope, c, args),
        Builtin::Len(c) => collection_len(heap, scope, c, args),
        Builtin::Nth(c) => sequence_nth(heap, scope, c, args),
        Builtin::PushFront(c) => sequence_push(heap, scope, c, true, args),
        Builtin::PushBack(c) => sequence_push(heap, scope, c, false, args),
        Builtin::Insert(c) => vector_insert(heap, scope, c, args),
        Builtin::Get(c) => if c == Collection::PersistentScope {
            persistent_scope_get(heap, scope, args)
        } else if c == Collection::PersistentSet || c == Collection::ValueSet {
            set_get(heap, scope, c, args)
        } else if c == Collection::PersistentList || c == Collection::List || c == Collection::PersistentVector || c == Collection::Vector {
            sequence_nth(heap, scope, c, args)
        } else {
            map_get(heap, scope, c, args)
        },
        Builtin::Has(c) => if c == Collection::PersistentScope {
            persistent_scope_has(heap, scope, args)
        } else if c == Collection::PersistentSet || c == Collection::ValueSet {
            set_has(heap, scope, c, args)
        } else {
            map_has(heap, scope, c, args)
        },
        Builtin::Put(c) => if c == Collection::PersistentScope {
            persistent_scope_set(heap, scope, args)
        } else {
            map_set(heap, scope, c, args)
        },
        Builtin::Remove(c) => if c == Collection::PersistentScope {
            persistent_scope_remove(heap, scope, args)
        } else if c == Collection::PersistentSet || c == Collection::ValueSet {
            set_remove(heap, scope, c, args)
        } else {
            map_remove(heap, scope, c, args)
        },
        Builtin::Add(c) => set_add(heap, scope, c, args),
        Builtin::Host(_) => Err(Fault::InvalidState),
    }
}

} // verus!
