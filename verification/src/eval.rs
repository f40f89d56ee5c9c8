use vstd::prelude::*;

use crate::context::nil_value;
use crate::fault::Fault;
use crate::gc::Gc;
use crate::gc_allocator::{extends, lemma_extends_trans, live_in, object_in, GcAllocator};
use crate::handles::{copy_handles, copy_pairs, handles_after_first, pairs_but_last};
use crate::linked_map::LinkedMap;
use crate::object::{alloc_of_kind, kind_named, kind_result, string_from, value_result, Data, Object, Tag};
use crate::persistent_list::PersistentList;
use crate::persistent_map::PersistentMap;
use crate::persistent_scope::{scope_get, scope_lookup, scope_lookup_tag, scope_set, scope_set_done};
use crate::persistent_vector::PersistentVector;
use crate::special_form::{check_expansion, expansion_fault, expansion_started, lemma_expansion_fault_extends, list_items, list_items_of, of_kind, start_expansion};
use crate::builtins::{builtin_done, call_builtin};
use crate::function::Function;
use crate::function_kind::{Builtin, FunctionKind};
use crate::persistent_scope::PersistentScope;
use crate::special_form::SpecialFormKind;
use crate::keyword::Keyword;
use crate::stack::{get_stack, popped_scope_and_value, pushed_scope_and_value, same_stack, stops_unwind, unwind_stop, EvalState, Stack, UnwindResult};
use crate::special_form::{
    def_special_form, do_special_form, eval_special_form, expand_special_form, fn_special_form, if_special_form, macro_special_form,
    quote_special_form, read_special_form, throw_special_form, try_special_form,
};
use crate::special_form::{
    def_special_form_done, do_special_form_done, eval_special_form_done, expand_special_form_done, fn_special_form_done,
    if_special_form_done, macro_special_form_done, quote_special_form_done, read_special_form_done, throw_special_form_done,
    try_special_form_done,
};
use crate::reader::{holds_form, read, read_form, read_made};
use crate::symbol::Symbol;
use crate::value::{chars_order, kind_eq, kinds_equal, values_equal, Order};
use crate::entries::scan_pairs;

verus! {

/// The contents of the object that `g` refers to, if it refers to one.
pub open spec fn data_at(h: Seq<Option<Object>>, g: Gc) -> Option<Data> {
    if live_in(h, g) {
        Some(object_in(h, g).value)
    } else {
        None
    }
}

/// Whether `h2` is `h` with `n` more objects at the end.
pub open spec fn grew(h: Seq<Option<Object>>, h2: Seq<Option<Object>>, n: int) -> bool {
    extends(h, h2) && h2.len() == h.len() + n
}

/// Whether `g` is a new object: unmarked, of kind `kind`, without metadata.
pub open spec fn fresh(h: Seq<Option<Object>>, g: Gc, kind: Gc) -> bool {
    &&& live_in(h, g)
    &&& object_in(h, g).kind == kind
    &&& object_in(h, g).meta is None
    &&& !object_in(h, g).marked
}

/// Whether `g` is a new persistent vector of `items`, of kind `kind`.
pub open spec fn holds_vector(h: Seq<Option<Object>>, g: Gc, kind: Gc, items: Seq<Gc>) -> bool {
    fresh(h, g, kind) && (object_in(h, g).value matches Data::PersistentVector(v) && v@ == items)
}

/// Whether `g` is a new persistent map of the pairs `pairs`, of kind `kind`.
pub open spec fn holds_map(h: Seq<Option<Object>>, g: Gc, kind: Gc, pairs: Seq<(Gc, Gc)>) -> bool {
    fresh(h, g, kind) && (object_in(h, g).value matches Data::PersistentMap(m) && m@ == pairs)
}

/// Whether `g` is a new list of `items`, of kind `kind`.
pub open spec fn holds_list(h: Seq<Option<Object>>, g: Gc, kind: Gc, items: Seq<Gc>) -> bool {
    fresh(h, g, kind) && (object_in(h, g).value matches Data::List(l) && l@ == items)
}

/// Whether `g` is a new persistent list of `items`, of kind `kind`.
pub open spec fn holds_persistent_list(h: Seq<Option<Object>>, g: Gc, kind: Gc, items: Seq<Gc>) -> bool {
    fresh(h, g, kind) && (object_in(h, g).value matches Data::PersistentList(l) && l@ == items)
}

/// Whether `g` is a new linked map of the pairs `pairs`, of kind `kind`.
pub open spec fn holds_linked_map(h: Seq<Option<Object>>, g: Gc, kind: Gc, pairs: Seq<(Gc, Gc)>) -> bool {
    fresh(h, g, kind) && (object_in(h, g).value matches Data::LinkedMap(m) && m@ == pairs)
}

/// The handle of the `i`-th object made after a heap of `h.len()` slots.
pub open spec fn made(h: Seq<Option<Object>>, i: int) -> Gc {
    Gc { ptr: (h.len() + i) as usize }
}

/// How evaluation treats a value of kind `k`, seen from `scope`: as a symbol, a list, a
/// vector or a map, each recognized by its kind, or as any other value (`None`). The
/// kinds are looked up in that order, each only when the ones before did not match; one
/// that is missing stops evaluation.
pub open spec fn eval_class(h: Seq<Option<Object>>, scope: Gc, k: Gc) -> Result<Option<Tag>, Fault> {
    match kind_result(h, scope, "Symbol"@) {
        Err(e) => Err(e),
        Ok(sk) => if kind_eq(h, k, sk) {
            Ok(Some(Tag::Symbol))
        } else {
            match kind_result(h, scope, "PersistentList"@) {
                Err(e) => Err(e),
                Ok(lk) => if kind_eq(h, k, lk) {
                    Ok(Some(Tag::PersistentList))
                } else {
                    match kind_result(h, scope, "PersistentVector"@) {
                        Err(e) => Err(e),
                        Ok(vk) => if kind_eq(h, k, vk) {
                            Ok(Some(Tag::PersistentVector))
                        } else {
                            match kind_result(h, scope, "PersistentMap"@) {
                                Err(e) => Err(e),
                                Ok(mk) => if kind_eq(h, k, mk) {
                                    Ok(Some(Tag::PersistentMap))
                                } else {
                                    Ok(None)
                                },
                            }
                        },
                    }
                },
            }
        },
    }
}

/// How evaluation treats a value of kind `k`, seen from `scope`.
pub fn classify(heap: &GcAllocator, scope: Gc, k: Gc) -> (r: Result<Option<Tag>, Fault>)
    ensures
        r == eval_class(heap@, scope, k),
{
    let sk = match kind_named(heap, scope, "Symbol") {
        Ok(x) => x,
        Err(e) => {
            return Err(e);
        },
    };
    if kinds_equal(heap, k, sk) {
        return Ok(Some(Tag::Symbol));
    }
    let lk = match kind_named(heap, scope, "PersistentList") {
        Ok(x) => x,
        Err(e) => {
            return Err(e);
        },
    };
    if kinds_equal(heap, k, lk) {
        return Ok(Some(Tag::PersistentList));
    }
    let vk = match kind_named(heap, scope, "PersistentVector") {
        Ok(x) => x,
        Err(e) => {
            return Err(e);
        },
    };
    if kinds_equal(heap, k, vk) {
        return Ok(Some(Tag::PersistentVector));
    }
    let mk = match kind_named(heap, scope, "PersistentMap") {
        Ok(x) => x,
        Err(e) => {
            return Err(e);
        },
    };
    if kinds_equal(heap, k, mk) {
        return Ok(Some(Tag::PersistentMap));
    }
    Ok(None)
}

/// How `eval_eval` leaves the heap and the stack, and what it gives.
pub open spec fn eval_eval_done(h_pre: Seq<Option<Object>>, h_post: Seq<Option<Object>>, s_pre: Stack, s_post: Stack, r: Result<(), Fault>) -> bool {
    &&& r is Err ==> h_post == h_pre && same_stack(s_post, s_pre)
    &&& s_post.scope@ == s_pre.scope@
    &&& s_post.callable@ == s_pre.callable@
    &&& ({
        let h = h_pre;
        let h2 = h_post;
        let s = s_pre;
        let t = s_post;
        if s.value@.len() == 0 || s.scope@.len() == 0 {
            r == Err::<(), Fault>(Fault::StackUnderflow)
        } else {
            let v = s.value@.last();
            let scope = s.scope@.last();
            let rest = s.value@.drop_last();
            match data_at(h, v) {
                None => r == Err::<(), Fault>(Fault::WrongType),
                Some(d) => match eval_class(h, scope, object_in(h, v).kind) {
                    Err(e) => r == Err::<(), Fault>(e),
                    Ok(Some(Tag::Symbol)) => match d {
                        Data::Symbol(sym) => match scope_lookup(h, scope, sym.0@) {
                            Some(b) => r is Ok && h2 == h && t.value@ == rest.push(b) && t.state@ == s.state@,
                            None => match value_result(h, scope, "nil"@, Tag::Nil) {
                                Ok(n) => r is Ok && h2 == h && t.value@ == rest.push(n) && t.state@ == s.state@,
                                Err(e) => r == Err::<(), Fault>(e),
                            },
                        },
                        _ => r == Err::<(), Fault>(Fault::WrongType),
                    },
                    Ok(Some(Tag::PersistentList)) => match d {
                        Data::PersistentList(l) => if l@.len() == 0 {
                            r is Ok && h2 == h && same_stack(t, s)
                        } else {
                            match kind_result(h, scope, "PersistentVector"@) {
                                Err(e) => r == Err::<(), Fault>(e),
                                Ok(vk) => {
                                    &&& r is Ok
                                    &&& grew(h, h2, 1)
                                    &&& holds_vector(h2, made(h, 0), vk, l@.drop_first())
                                    &&& t.value@ == rest.push(made(h, 0)).push(l@[0])
                                    &&& t.state@ == s.state@.push(EvalState::Call).push(EvalState::Eval)
                                },
                            }
                        },
                        _ => r == Err::<(), Fault>(Fault::WrongType),
                    },
                    Ok(Some(Tag::PersistentVector)) => match d {
                        Data::PersistentVector(items) => if items@.len() == 0 {
                            r is Ok && h2 == h && same_stack(t, s)
                        } else {
                            match kind_result(h, scope, "PersistentVector"@) {
                                Err(e) => r == Err::<(), Fault>(e),
                                Ok(vk) => {
                                    &&& r is Ok
                                    &&& grew(h, h2, 2)
                                    &&& holds_vector(h2, made(h, 0), vk, items@.drop_first())
                                    &&& holds_vector(h2, made(h, 1), vk, Seq::<Gc>::empty())
                                    &&& t.value@ == rest.push(made(h, 0)).push(made(h, 1)).push(items@[0])
                                    &&& t.state@ == s.state@.push(EvalState::EvalVec).push(EvalState::Eval)
                                },
                            }
                        },
                        _ => r == Err::<(), Fault>(Fault::WrongType),
                    },
                    Ok(Some(Tag::PersistentMap)) => match d {
                        Data::PersistentMap(m) => match kind_result(h, scope, "LinkedMap"@) {
                            Err(e) => r == Err::<(), Fault>(e),
                            Ok(lk) => if m@.len() == 0 {
                                r is Ok && grew(h, h2, 1) && holds_linked_map(h2, made(h, 0), lk, m@) && same_stack(t, s)
                            } else {
                                match kind_result(h, scope, "PersistentMap"@) {
                                    Err(e) => r == Err::<(), Fault>(e),
                                    Ok(mk) => {
                                        &&& r is Ok
                                        &&& grew(h, h2, 2)
                                        &&& holds_linked_map(h2, made(h, 0), lk, m@.drop_last())
                                        &&& holds_map(h2, made(h, 1), mk, Seq::<(Gc, Gc)>::empty())
                                        &&& t.value@ == rest.push(made(h, 0)).push(made(h, 1)).push(m@.last().0).push(m@.last().1)
                                        &&& t.state@ == s.state@.push(EvalState::EvalMap).push(EvalState::EvalMapKeyValue).push(
                                            EvalState::Eval,
                                        )
                                    },
                                }
                            },
                        },
                        _ => r == Err::<(), Fault>(Fault::WrongType),
                    },
                    Ok(_) => r is Ok && h2 == h && same_stack(t, s),
                },
            }
        }
    })
}

/// One step `Eval`: evaluates the value on top in the scope on top. A symbol gives what
/// it is bound to (or `nil`); a non-empty list evaluates its head, then calls it with the
/// rest; a non-empty vector evaluates its items; a non-empty map evaluates its pairs, the
/// last first; anything else is its own value. On a fault nothing changes.
pub fn eval_eval(heap: &mut GcAllocator, stack: &mut Stack) -> (r: Result<(), Fault>)
    ensures
        eval_eval_done(old(heap)@, final(heap)@, *old(stack), *final(stack), r),
{
    let n = stack.value.len();
    let m = stack.scope.len();
    if n == 0 || m == 0 {
        return Err(Fault::StackUnderflow);
    }
    let v = stack.value[n - 1];
    let scope = stack.scope[m - 1];
    let kind = match heap.get(v) {
        Some(o) => o.kind,
        None => {
            return Err(Fault::WrongType);
        },
    };
    let class = match classify(heap, scope, kind) {
        Ok(c) => c,
        Err(e) => {
            return Err(e);
        },
    };
    match class {
        Some(Tag::Symbol) => {
            let found = match heap.data(v) {
                Some(Data::Symbol(sym)) => scope_get(heap, scope, sym.as_str()),
                _ => {
                    return Err(Fault::WrongType);
                },
            };
            let result = match found {
                Some(b) => b,
                None => match nil_value(heap, scope) {
                    Ok(x) => x,
                    Err(e) => {
                        return Err(e);
                    },
                },
            };
            stack.value.set(n - 1, result);
            proof {
                assert(stack.value@ =~= old(stack).value@.drop_last().push(result));
            }
            Ok(())
        },
        Some(Tag::PersistentList) => {
            let items = match heap.data(v) {
                Some(Data::PersistentList(l)) => copy_handles(l.items_ref()),
                _ => {
                    return Err(Fault::WrongType);
                },
            };
            if items.len() == 0 {
                return Ok(());
            }
            let vk = match kind_named(heap, scope, "PersistentVector") {
                Ok(k) => k,
                Err(e) => {
                    return Err(e);
                },
            };
            let first = items[0];
            let a = alloc_of_kind(heap, vk, Data::PersistentVector(PersistentVector::from_vec(handles_after_first(&items))), None);
            stack.value.set(n - 1, a);
            stack.value.push(first);
            stack.state.push(EvalState::Call);
            stack.state.push(EvalState::Eval);
            proof {
                assert(stack.value@ =~= old(stack).value@.drop_last().push(a).push(first));
            }
            Ok(())
        },
        Some(Tag::PersistentVector) => {
            let items = match heap.data(v) {
                Some(Data::PersistentVector(x)) => copy_handles(x.items_ref()),
                _ => {
                    return Err(Fault::WrongType);
                },
            };
            if items.len() == 0 {
                return Ok(());
            }
            let vk = match kind_named(heap, scope, "PersistentVector") {
                Ok(k) => k,
                Err(e) => {
                    return Err(e);
                },
            };
            let first = items[0];
            let ghost h0 = heap@;
            let a = alloc_of_kind(heap, vk, Data::PersistentVector(PersistentVector::from_vec(handles_after_first(&items))), None);
            let ghost h1 = heap@;
            let b = alloc_of_kind(heap, vk, Data::PersistentVector(PersistentVector::new()), None);
            proof {
                assert(heap@[a.ptr as int] == h1[a.ptr as int]);
                crate::gc_allocator::lemma_extends_trans(h0, h1, heap@);
            }
            stack.value.set(n - 1, a);
            stack.value.push(b);
            stack.value.push(first);
            stack.state.push(EvalState::EvalVec);
            stack.state.push(EvalState::Eval);
            proof {
                assert(stack.value@ =~= old(stack).value@.drop_last().push(a).push(b).push(first));
            }
            Ok(())
        },
        Some(Tag::PersistentMap) => {
            let pairs = match heap.data(v) {
                Some(Data::PersistentMap(x)) => copy_pairs(x.items_ref()),
                _ => {
                    return Err(Fault::WrongType);
                },
            };
            let lk = match kind_named(heap, scope, "LinkedMap") {
                Ok(k) => k,
                Err(e) => {
                    return Err(e);
                },
            };
            if pairs.len() == 0 {
                let _ = alloc_of_kind(heap, lk, Data::LinkedMap(LinkedMap::from_vec(pairs)), None);
                return Ok(());
            }
            let mk = match kind_named(heap, scope, "PersistentMap") {
                Ok(k) => k,
                Err(e) => {
                    return Err(e);
                },
            };
            let last = pairs[pairs.len() - 1];
            let ghost h0 = heap@;
            let a = alloc_of_kind(heap, lk, Data::LinkedMap(LinkedMap::from_vec(pairs_but_last(&pairs))), None);
            let ghost h1 = heap@;
            let b = alloc_of_kind(heap, mk, Data::PersistentMap(PersistentMap::new()), None);
            proof {
                assert(heap@[a.ptr as int] == h1[a.ptr as int]);
                crate::gc_allocator::lemma_extends_trans(h0, h1, heap@);
            }
            stack.value.set(n - 1, a);
            stack.value.push(b);
            stack.value.push(last.0);
            stack.value.push(last.1);
            stack.state.push(EvalState::EvalMap);
            stack.state.push(EvalState::EvalMapKeyValue);
            stack.state.push(EvalState::Eval);
            proof {
                assert(stack.value@ =~= old(stack).value@.drop_last().push(a).push(b).push(last.0).push(last.1));
            }
            Ok(())
        },
        _ => Ok(()),
    }
}

/// How `eval_eval_evaluated` leaves the heap and the stack, and what it gives.
pub open spec fn eval_eval_evaluated_done(h_pre: Seq<Option<Object>>, h_post: Seq<Option<Object>>, s_pre: Stack, s_post: Stack, r: Result<(), Fault>) -> bool {
    &&& r is Err ==> h_post == h_pre && same_stack(s_post, s_pre)
    &&& s_post.scope@ == s_pre.scope@
    &&& s_post.callable@ == s_pre.callable@
    &&& ({
        let h = h_pre;
        let h2 = h_post;
        let s = s_pre;
        let t = s_post;
        if s.value@.len() == 0 || s.scope@.len() == 0 {
            r == Err::<(), Fault>(Fault::StackUnderflow)
        } else {
            let v = s.value@.last();
            let scope = s.scope@.last();
            let rest = s.value@.drop_last();
            match data_at(h, v) {
                None => r == Err::<(), Fault>(Fault::WrongType),
                Some(d) => match kind_result(h, scope, "PersistentList"@) {
                    Err(e) => r == Err::<(), Fault>(e),
                    Ok(lk) => if !kind_eq(h, object_in(h, v).kind, lk) {
                        r is Ok && h2 == h && same_stack(t, s)
                    } else {
                        match d {
                            Data::PersistentList(l) => if l@.len() == 0 {
                                r is Ok && h2 == h && same_stack(t, s)
                            } else {
                                match kind_result(h, scope, "PersistentVector"@) {
                                    Err(e) => r == Err::<(), Fault>(e),
                                    Ok(vk) => {
                                        &&& r is Ok
                                        &&& grew(h, h2, 1)
                                        &&& holds_vector(h2, made(h, 0), vk, l@.drop_first())
                                        &&& t.value@ == rest.push(made(h, 0)).push(l@[0])
                                        &&& t.state@ == s.state@.push(EvalState::Call).push(EvalState::Eval)
                                    },
                                }
                            },
                            _ => r == Err::<(), Fault>(Fault::WrongType),
                        }
                    },
                },
            }
        }
    })
}

/// One step `Eval` of evaluating values already evaluated: only a non-empty list is
/// taken further, by calling its head with the rest; anything else stays as it is.
pub fn eval_eval_evaluated(heap: &mut GcAllocator, stack: &mut Stack) -> (r: Result<(), Fault>)
    ensures
        eval_eval_evaluated_done(old(heap)@, final(heap)@, *old(stack), *final(stack), r),
{
    let n = stack.value.len();
    let m = stack.scope.len();
    if n == 0 || m == 0 {
        return Err(Fault::StackUnderflow);
    }
    let v = stack.value[n - 1];
    let scope = stack.scope[m - 1];
    let kind = match heap.get(v) {
        Some(o) => o.kind,
        None => {
            return Err(Fault::WrongType);
        },
    };
    let lk = match kind_named(heap, scope, "PersistentList") {
        Ok(k) => k,
        Err(e) => {
            return Err(e);
        },
    };
    if !kinds_equal(heap, kind, lk) {
        return Ok(());
    }
    let items = match heap.data(v) {
        Some(Data::PersistentList(l)) => copy_handles(l.items_ref()),
        _ => {
            return Err(Fault::WrongType);
        },
    };
    if items.len() == 0 {
        return Ok(());
    }
    let vk = match kind_named(heap, scope, "PersistentVector") {
        Ok(k) => k,
        Err(e) => {
            return Err(e);
        },
    };
    let first = items[0];
    let a = alloc_of_kind(heap, vk, Data::PersistentVector(PersistentVector::from_vec(handles_after_first(&items))), None);
    stack.value.set(n - 1, a);
    stack.value.push(first);
    stack.state.push(EvalState::Call);
    stack.state.push(EvalState::Eval);
    proof {
        assert(stack.value@ =~= old(stack).value@.drop_last().push(a).push(first));
    }
    Ok(())
}

/// The three values on top, from the top: `Ok((top, second, third))`, or the fault of
/// taking them: a missing value, or the second or third not a persistent vector when
/// `vectors` asks for that. The second is checked before the third is taken.
pub open spec fn eval_vec_operands(h: Seq<Option<Object>>, s: Stack) -> Result<(Gc, Seq<Gc>, Seq<Gc>), Fault> {
    let vs = s.value@;
    if s.scope@.len() == 0 || vs.len() < 2 {
        Err(Fault::StackUnderflow)
    } else {
        match data_at(h, vs[vs.len() - 2]) {
            Some(Data::PersistentVector(done)) => if vs.len() < 3 {
                Err(Fault::StackUnderflow)
            } else {
                match data_at(h, vs[vs.len() - 3]) {
                    Some(Data::PersistentVector(pending)) => Ok((vs.last(), done@, pending@)),
                    _ => Err(Fault::WrongType),
                }
            },
            _ => Err(Fault::WrongType),
        }
    }
}

/// The persistent vector items of the object `g`.
fn vector_of(heap: &GcAllocator, g: Gc) -> (r: Option<Vec<Gc>>)
    ensures
        match data_at(heap@, g) {
            Some(Data::PersistentVector(v)) => r matches Some(x) && x@ == v@,
            _ => r is None,
        },
{
    match heap.data(g) {
        Some(Data::PersistentVector(v)) => Some(copy_handles(v.items_ref())),
        _ => None,
    }
}

/// How `eval_eval_vec` leaves the heap and the stack, and what it gives.
pub open spec fn eval_eval_vec_done(h_pre: Seq<Option<Object>>, h_post: Seq<Option<Object>>, s_pre: Stack, s_post: Stack, r: Result<(), Fault>) -> bool {
    &&& r is Err ==> h_post == h_pre && same_stack(s_post, s_pre)
    &&& s_post.scope@ == s_pre.scope@
    &&& s_post.callable@ == s_pre.callable@
    &&& ({
        let h = h_pre;
        let h2 = h_post;
        let s = s_pre;
        let t = s_post;
        match eval_vec_operands(h, s) {
            Err(e) => r == Err::<(), Fault>(e),
            Ok((value, done, pending)) => match kind_result(h, s.scope@.last(), "PersistentVector"@) {
                Err(e) => r == Err::<(), Fault>(e),
                Ok(vk) => {
                    let rest = s.value@.subrange(0, s.value@.len() - 3);
                    &&& r is Ok
                    &&& if pending.len() == 0 {
                        &&& grew(h, h2, 1)
                        &&& holds_vector(h2, made(h, 0), vk, done.push(value))
                        &&& t.value@ == rest.push(made(h, 0))
                        &&& t.state@ == s.state@
                    } else {
                        &&& grew(h, h2, 2)
                        &&& holds_vector(h2, made(h, 0), vk, pending.drop_first())
                        &&& holds_vector(h2, made(h, 1), vk, done.push(value))
                        &&& t.value@ == rest.push(made(h, 0)).push(made(h, 1)).push(pending[0])
                        &&& t.state@ == s.state@.push(EvalState::EvalVec).push(EvalState::Eval)
                    }
                },
            },
        }
    })
}

/// One step `EvalVec`: adds the value just evaluated to the vector of items evaluated;
/// evaluates the next item, or gives the vector evaluated when none is left.
pub fn eval_eval_vec(heap: &mut GcAllocator, stack: &mut Stack) -> (r: Result<(), Fault>)
    ensures
        eval_eval_vec_done(old(heap)@, final(heap)@, *old(stack), *final(stack), r),
{
    let n = stack.value.len();
    let m = stack.scope.len();
    if m == 0 || n < 2 {
        return Err(Fault::StackUnderflow);
    }
    let value = stack.value[n - 1];
    let mut done = match vector_of(heap, stack.value[n - 2]) {
        Some(x) => x,
        None => {
            return Err(Fault::WrongType);
        },
    };
    if n < 3 {
        return Err(Fault::StackUnderflow);
    }
    let pending = match vector_of(heap, stack.value[n - 3]) {
        Some(x) => x,
        None => {
            return Err(Fault::WrongType);
        },
    };
    let scope = stack.scope[m - 1];
    let vk = match kind_named(heap, scope, "PersistentVector") {
        Ok(k) => k,
        Err(e) => {
            return Err(e);
        },
    };
    done.push(value);
    let ghost rest = stack.value@.subrange(0, n - 3);
    let _ = stack.value.pop();
    let _ = stack.value.pop();
    let _ = stack.value.pop();
    proof {
        assert(stack.value@ =~= rest);
    }
    if pending.len() == 0 {
        let a = alloc_of_kind(heap, vk, Data::PersistentVector(PersistentVector::from_vec(done)), None);
        stack.value.push(a);
    } else {
        let first = pending[0];
        let ghost h0 = heap@;
        let a = alloc_of_kind(heap, vk, Data::PersistentVector(PersistentVector::from_vec(handles_after_first(&pending))), None);
        let ghost h1 = heap@;
        let b = alloc_of_kind(heap, vk, Data::PersistentVector(PersistentVector::from_vec(done)), None);
        proof {
            assert(heap@[a.ptr as int] == h1[a.ptr as int]);
            crate::gc_allocator::lemma_extends_trans(h0, h1, heap@);
        }
        stack.state.push(EvalState::EvalVec);
        stack.value.push(a);
        stack.value.push(b);
        stack.state.push(EvalState::Eval);
        stack.value.push(first);
    }
    Ok(())
}

/// The four values on top for step `EvalMap`, from the top: the key and value just
/// evaluated, the pairs of the map evaluated so far, and the pairs left (a linked map),
/// each checked in that order.
pub open spec fn eval_map_operands(h: Seq<Option<Object>>, s: Stack) -> Result<(Gc, Gc, Seq<(Gc, Gc)>, Gc, Seq<(Gc, Gc)>), Fault> {
    let vs = s.value@;
    if s.scope@.len() == 0 || vs.len() < 3 {
        Err(Fault::StackUnderflow)
    } else {
        match data_at(h, vs[vs.len() - 3]) {
            Some(Data::PersistentMap(done)) => if vs.len() < 4 {
                Err(Fault::StackUnderflow)
            } else {
                match data_at(h, vs[vs.len() - 4]) {
                    Some(Data::LinkedMap(pending)) => Ok((vs.last(), vs[vs.len() - 2], done@, vs[vs.len() - 4], pending@)),
                    _ => Err(Fault::WrongType),
                }
            },
            _ => Err(Fault::WrongType),
        }
    }
}

/// How `eval_eval_map` leaves the heap and the stack, and what it gives.
pub open spec fn eval_eval_map_done(h_pre: Seq<Option<Object>>, h_post: Seq<Option<Object>>, s_pre: Stack, s_post: Stack, r: Result<(), Fault>) -> bool {
    &&& r is Err ==> h_post == h_pre && same_stack(s_post, s_pre)
    &&& s_post.scope@ == s_pre.scope@
    &&& s_post.callable@ == s_pre.callable@
    &&& ({
        let h = h_pre;
        let h2 = h_post;
        let s = s_pre;
        let t = s_post;
        match eval_map_operands(h, s) {
            Err(e) => r == Err::<(), Fault>(e),
            Ok((key, value, done, left, pending)) => match kind_result(h, s.scope@.last(), "PersistentMap"@) {
                Err(e) => r == Err::<(), Fault>(e),
                Ok(mk) => {
                    let rest = s.value@.subrange(0, s.value@.len() - 4);
                    let bound = crate::entries::pairs_set(h, done, key, value);
                    &&& r is Ok
                    &&& if pending.len() == 0 {
                        &&& grew(h, h2, 1)
                        &&& holds_map(h2, made(h, 0), mk, bound)
                        &&& t.value@ == rest.push(made(h, 0))
                        &&& t.state@ == s.state@
                    } else {
                        &&& h2.len() == h.len() + 1
                        &&& forall|i: int| 0 <= i < h.len() && i != left.ptr ==> #[trigger] h2[i] == h[i]
                        &&& h2[left.ptr as int] == Some(Object { value: Data::LinkedMap(object_in(h2, left).value->LinkedMap_0), ..object_in(h, left) })
                        &&& object_in(h2, left).value->LinkedMap_0@ == pending.drop_first()
                        &&& holds_map(h2, made(h, 0), mk, bound)
                        &&& t.value@ == rest.push(left).push(made(h, 0)).push(pending[0].0).push(pending[0].1)
                        &&& t.state@ == s.state@.push(EvalState::EvalMap).push(EvalState::EvalMapKeyValue).push(EvalState::Eval)
                    }
                },
            },
        }
    })
}

/// One step `EvalMap`: binds the key just evaluated to the value just evaluated in the
/// map evaluated so far; evaluates the next pair (taken from the front of the linked map
/// of pairs left, which changes in place), or gives the map evaluated.
pub fn eval_eval_map(heap: &mut GcAllocator, stack: &mut Stack) -> (r: Result<(), Fault>)
    ensures
        eval_eval_map_done(old(heap)@, final(heap)@, *old(stack), *final(stack), r),
{
    let n = stack.value.len();
    let m = stack.scope.len();
    if m == 0 || n < 3 {
        return Err(Fault::StackUnderflow);
    }
    let key = stack.value[n - 1];
    let value = stack.value[n - 2];
    let done = match heap.data(stack.value[n - 3]) {
        Some(Data::PersistentMap(x)) => x.set(heap, key, value),
        _ => {
            return Err(Fault::WrongType);
        },
    };
    if n < 4 {
        return Err(Fault::StackUnderflow);
    }
    let left = stack.value[n - 4];
    let mut pending = match heap.data(left) {
        Some(Data::LinkedMap(x)) => LinkedMap::from_vec(copy_pairs(x.items_ref())),
        _ => {
            return Err(Fault::WrongType);
        },
    };
    let scope = stack.scope[m - 1];
    let mk = match kind_named(heap, scope, "PersistentMap") {
        Ok(k) => k,
        Err(e) => {
            return Err(e);
        },
    };
    let ghost rest = stack.value@.subrange(0, n - 4);
    let _ = stack.value.pop();
    let _ = stack.value.pop();
    let _ = stack.value.pop();
    let _ = stack.value.pop();
    proof {
        assert(stack.value@ =~= rest);
    }
    match pending.pop_front() {
        Some(pair) => {
            let ghost h0 = heap@;
            heap.set_value(left, Data::LinkedMap(pending));
            let ghost h1 = heap@;
            let a = alloc_of_kind(heap, mk, Data::PersistentMap(done), None);
            proof {
                assert(heap@[left.ptr as int] == h1[left.ptr as int]);
                assert forall|i: int| 0 <= i < h0.len() && i != left.ptr implies #[trigger] heap@[i] == h0[i] by {
                    assert(heap@[i] == h1[i]);
                }
            }
            stack.state.push(EvalState::EvalMap);
            stack.value.push(left);
            stack.value.push(a);
            stack.state.push(EvalState::EvalMapKeyValue);
            stack.state.push(EvalState::Eval);
            stack.value.push(pair.0);
            stack.value.push(pair.1);
        },
        None => {
            let a = alloc_of_kind(heap, mk, Data::PersistentMap(done), None);
            stack.value.push(a);
        },
    }
    Ok(())
}

/// How `eval_eval_map_key_value` leaves the stack, and what it gives.
pub open spec fn eval_eval_map_key_value_done(s_pre: Stack, s_post: Stack, r: Result<(), Fault>) -> bool {
    &&& r is Err ==> same_stack(s_post, s_pre)
    &&& s_post.scope@ == s_pre.scope@
    &&& s_post.callable@ == s_pre.callable@
    &&& if s_pre.value@.len() < 2 {
        r == Err::<(), Fault>(Fault::StackUnderflow)
    } else {
        let vs = s_pre.value@;
        &&& r is Ok
        &&& s_post.value@ == vs.subrange(0, vs.len() - 2).push(vs.last()).push(vs[vs.len() - 2])
        &&& s_post.state@ == s_pre.state@.push(EvalState::Eval)
    }
}

/// One step `EvalMapKeyValue`: puts the key of a pair above its value just evaluated and
/// evaluates it.
pub fn eval_eval_map_key_value(stack: &mut Stack) -> (r: Result<(), Fault>)
    ensures
        eval_eval_map_key_value_done(*old(stack), *final(stack), r),
{
    let n = stack.value.len();
    if n < 2 {
        return Err(Fault::StackUnderflow);
    }
    let value = stack.value[n - 1];
    let key = stack.value[n - 2];
    stack.value.set(n - 2, value);
    stack.value.set(n - 1, key);
    stack.state.push(EvalState::Eval);
    proof {
        let vs = old(stack).value@;
        assert(stack.value@ =~= vs.subrange(0, vs.len() - 2).push(vs.last()).push(vs[vs.len() - 2]));
    }
    Ok(())
}

/// How `eval_pop_value` leaves the stack, and what it gives.
pub open spec fn eval_pop_value_done(s_pre: Stack, s_post: Stack, r: Result<(), Fault>) -> bool {
    &&& r is Err ==> same_stack(s_post, s_pre)
    &&& s_post.scope@ == s_pre.scope@
    &&& s_post.callable@ == s_pre.callable@
    &&& s_post.state@ == s_pre.state@
    &&& if s_pre.value@.len() == 0 {
        r == Err::<(), Fault>(Fault::StackUnderflow)
    } else {
        r is Ok && s_post.value@ == s_pre.value@.drop_last()
    }
}

/// One step `PopValue`: drops the value on top.
pub fn eval_pop_value(stack: &mut Stack) -> (r: Result<(), Fault>)
    ensures
        eval_pop_value_done(*old(stack), *final(stack), r),
{
    match stack.value.pop() {
        Some(_) => Ok(()),
        None => Err(Fault::StackUnderflow),
    }
}

/// How `eval_pop_scope` leaves the stack, and what it gives.
pub open spec fn eval_pop_scope_done(s_pre: Stack, s_post: Stack, r: Result<(), Fault>) -> bool {
    &&& r is Err ==> same_stack(s_post, s_pre)
    &&& s_post.value@ == s_pre.value@
    &&& s_post.state@ == s_pre.state@
    &&& if s_pre.callable@.len() == 0 || s_pre.scope@.len() == 0 {
        r == Err::<(), Fault>(Fault::StackUnderflow)
    } else {
        r is Ok && s_post.callable@ == s_pre.callable@.drop_last() && s_post.scope@
            == s_pre.scope@.drop_last()
    }
}

/// One step `PopScope`: ends a call, dropping its function and its scope.
pub fn eval_pop_scope(stack: &mut Stack) -> (r: Result<(), Fault>)
    ensures
        eval_pop_scope_done(*old(stack), *final(stack), r),
{
    if stack.callable.len() == 0 || stack.scope.len() == 0 {
        return Err(Fault::StackUnderflow);
    }
    let _ = stack.callable.pop();
    let _ = stack.scope.pop();
    Ok(())
}

/// How `eval_if` leaves the stack, reading the heap, and what it gives.
pub open spec fn eval_if_done(h_pre: Seq<Option<Object>>, s_pre: Stack, s_post: Stack, r: Result<(), Fault>) -> bool {
    &&& r is Err ==> same_stack(s_post, s_pre)
    &&& s_post.scope@ == s_pre.scope@
    &&& s_post.callable@ == s_pre.callable@
    &&& ({
        let vs = s_pre.value@;
        if vs.len() < 3 {
            r == Err::<(), Fault>(Fault::StackUnderflow)
        } else {
            match data_at(h_pre, vs.last()) {
                Some(Data::Bool(b)) => {
                    &&& r is Ok
                    &&& s_post.value@ == vs.subrange(0, vs.len() - 3).push(if b { vs[vs.len() - 2] } else { vs[vs.len() - 3] })
                    &&& s_post.state@ == s_pre.state@.push(EvalState::Eval)
                },
                _ => r == Err::<(), Fault>(Fault::WrongType),
            }
        }
    })
}

/// One step `If`: with the condition just evaluated on top, then the form for true, then
/// the form for false, evaluates the one that the condition (a boolean) selects.
pub fn eval_if(heap: &GcAllocator, stack: &mut Stack) -> (r: Result<(), Fault>)
    ensures
        eval_if_done(heap@, *old(stack), *final(stack), r),
{
    let n = stack.value.len();
    if n < 3 {
        return Err(Fault::StackUnderflow);
    }
    let b = match heap.data(stack.value[n - 1]) {
        Some(Data::Bool(b)) => *b,
        _ => {
            return Err(Fault::WrongType);
        },
    };
    let chosen = if b { stack.value[n - 2] } else { stack.value[n - 3] };
    let ghost rest = stack.value@.subrange(0, n - 3);
    let _ = stack.value.pop();
    let _ = stack.value.pop();
    let _ = stack.value.pop();
    proof {
        assert(stack.value@ =~= rest);
    }
    stack.value.push(chosen);
    stack.state.push(EvalState::Eval);
    Ok(())
}

/// How `eval_def` leaves the heap and the stack, and what it gives.
pub open spec fn eval_def_done(h_pre: Seq<Option<Object>>, h_post: Seq<Option<Object>>, s_pre: Stack, s_post: Stack, r: Result<(), Fault>) -> bool {
    &&& r is Err ==> same_stack(s_post, s_pre) && h_post == h_pre
    &&& s_post.callable@ == s_pre.callable@
    &&& s_post.state@ == s_pre.state@
    &&& ({
        let vs = s_pre.value@;
        if vs.len() < 2 {
            r == Err::<(), Fault>(Fault::StackUnderflow)
        } else {
            match data_at(h_pre, vs[vs.len() - 2]) {
                Some(Data::Symbol(name)) => if s_pre.scope@.len() == 0 {
                    r == Err::<(), Fault>(Fault::StackUnderflow)
                } else {
                    let scope = s_pre.scope@.last();
                    match scope_set_result(h_pre, scope, name.0@, vs.last()) {
                        Err(e) => r == Err::<(), Fault>(e),
                        Ok(_) => exists|g: Gc| {
                            &&& r is Ok
                            &&& #[trigger] scope_set_done(h_pre, h_post, Ok(g), scope, name.0@, vs.last())
                            &&& s_post.scope@ == s_pre.scope@.drop_last().push(g)
                            &&& s_post.value@ == vs.subrange(0, vs.len() - 2)
                        },
                    }
                },
                _ => r == Err::<(), Fault>(Fault::WrongType),
            }
        }
    })
}

/// One step `Def`: with the value just evaluated on top and the name (a symbol) below,
/// replaces the scope on top with a new scope binding the name to the value.
pub fn eval_def(heap: &mut GcAllocator, stack: &mut Stack) -> (r: Result<(), Fault>)
    ensures
        eval_def_done(old(heap)@, final(heap)@, *old(stack), *final(stack), r),
{
    let n = stack.value.len();
    if n < 2 {
        return Err(Fault::StackUnderflow);
    }
    let value = stack.value[n - 1];
    let m = stack.scope.len();
    let name = match heap.data(stack.value[n - 2]) {
        Some(Data::Symbol(sym)) => string_from(sym.as_str()),
        _ => {
            return Err(Fault::WrongType);
        },
    };
    if m == 0 {
        return Err(Fault::StackUnderflow);
    }
    let scope = stack.scope[m - 1];
    let g = match scope_set(heap, scope, name.as_str(), value) {
        Ok(g) => g,
        Err(e) => {
            return Err(e);
        },
    };
    let ghost rest = stack.value@.subrange(0, n - 2);
    let _ = stack.value.pop();
    let _ = stack.value.pop();
    proof {
        assert(stack.value@ =~= rest);
    }
    stack.scope.set(m - 1, g);
    proof {
        assert(stack.scope@ =~= old(stack).scope@.drop_last().push(g));
    }
    Ok(())
}

/// What binding `ident` to `value` in `scope` gives: a new scope, or the fault that stops it.
pub open spec fn scope_set_result(h: Seq<Option<Object>>, scope: Gc, ident: Seq<char>, value: Gc) -> Result<(), Fault> {
    match (if live_in(h, scope) { Some(object_in(h, scope).value) } else { None::<Data> }) {
        Some(Data::PersistentScope(s)) => match scope_lookup_tag(h, scope, "PersistentScope"@, Tag::Kind) {
            Some(k) => Ok(()),
            None => Err(Fault::KindNotFound),
        },
        _ => Err(Fault::NotAScope),
    }
}

/// How `eval_catch` leaves the stack, and what it gives.
pub open spec fn eval_catch_done(s_pre: Stack, s_post: Stack, r: Result<(), Fault>) -> bool {
    &&& r == Err::<(), Fault>(Fault::Caught(if s_pre.value@.len() > 0 { Some(s_pre.value@.last()) } else { None }))
    &&& same_stack(s_post, s_pre)
}

/// One step `Catch`: a `try` block ended; the runtime stops there, with the value on top.
pub fn eval_catch(stack: &mut Stack) -> (r: Result<(), Fault>)
    ensures
        eval_catch_done(*old(stack), *final(stack), r),
{
    let n = stack.value.len();
    if n > 0 {
        Err(Fault::Caught(Some(stack.value[n - 1])))
    } else {
        Err(Fault::Caught(None))
    }
}

/// The three values on top for step `Expand`, from the top: the item just expanded, the
/// items expanded so far and the items left (each a list, persistent or not, checked in
/// that order), then the scope on top.
pub open spec fn expand_operands(h: Seq<Option<Object>>, s: Stack) -> Result<(Gc, Seq<Gc>, Seq<Gc>), Fault> {
    let vs = s.value@;
    if vs.len() < 2 {
        Err(Fault::StackUnderflow)
    } else {
        match list_items_of(h, vs[vs.len() - 2]) {
            None => Err(Fault::WrongType),
            Some(done) => if vs.len() < 3 {
                Err(Fault::StackUnderflow)
            } else {
                match list_items_of(h, vs[vs.len() - 3]) {
                    None => Err(Fault::WrongType),
                    Some(pending) => if s.scope@.len() == 0 {
                        Err(Fault::StackUnderflow)
                    } else {
                        Ok((vs.last(), done, pending))
                    },
                }
            },
        }
    }
}

/// Why step `Expand` fails on the item `first` (the next one left), if it does.
pub open spec fn expand_item_fault(h: Seq<Option<Object>>, scope: Gc, first: Gc, lk: Gc) -> Option<Fault> {
    match kind_result(h, scope, "Escape"@) {
        Err(e) => Some(e),
        Ok(ek) => if !live_in(h, first) {
            Some(Fault::WrongType)
        } else if of_kind(h, first, ek) {
            if object_in(h, first).value is Escape {
                None
            } else {
                Some(Fault::WrongType)
            }
        } else if of_kind(h, first, lk) {
            match object_in(h, first).value {
                Data::PersistentList(l) => match kind_result(h, scope, "PersistentVector"@) {
                    Err(e) => Some(e),
                    Ok(_) => expansion_fault(h, l@, scope),
                },
                _ => Some(Fault::WrongType),
            }
        } else {
            None
        }
    }
}

/// How `eval_expand` leaves the heap and the stack, and what it gives.
pub open spec fn eval_expand_done(h_pre: Seq<Option<Object>>, h_post: Seq<Option<Object>>, s_pre: Stack, s_post: Stack, r: Result<(), Fault>) -> bool {
    &&& r is Err ==> h_post == h_pre && same_stack(s_post, s_pre)
    &&& s_post.scope@ == s_pre.scope@
    &&& s_post.callable@ == s_pre.callable@
    &&& ({
        let h = h_pre;
        let h2 = h_post;
        let s = s_pre;
        let t = s_post;
        match expand_operands(h, s) {
            Err(e) => r == Err::<(), Fault>(e),
            Ok((value, done, pending)) => {
                let scope = s.scope@.last();
                let rest = s.value@.subrange(0, s.value@.len() - 3);
                match kind_result(h, scope, "PersistentList"@) {
                    Err(e) => r == Err::<(), Fault>(e),
                    Ok(lk) => if pending.len() == 0 {
                        &&& r is Ok
                        &&& grew(h, h2, 1)
                        &&& holds_persistent_list(h2, made(h, 0), lk, done.push(value))
                        &&& t.value@ == rest.push(made(h, 0))
                        &&& t.state@ == s.state@
                    } else {
                        let first = pending[0];
                        match expand_item_fault(h, scope, first, lk) {
                            Some(e) => r == Err::<(), Fault>(e),
                            None => {
                                let ek = kind_result(h, scope, "Escape"@)->Ok_0;
                                let kept = rest.push(made(h, 0)).push(made(h, 1));
                                &&& r is Ok
                                &&& extends(h, h2)
                                &&& holds_persistent_list(h2, made(h, 0), lk, pending.drop_first())
                                &&& holds_persistent_list(h2, made(h, 1), lk, done.push(value))
                                &&& if of_kind(h, first, ek) {
                                    &&& h2.len() == h.len() + 2
                                    &&& t.value@ == kept.push(object_in(h, first).value->Escape_0.0)
                                    &&& t.state@ == s.state@.push(EvalState::Expand).push(EvalState::Eval)
                                } else if of_kind(h, first, lk) {
                                    let nested = object_in(h, first).value->PersistentList_0@;
                                    let vk = kind_result(h, scope, "PersistentVector"@)->Ok_0;
                                    let h3 = h2.subrange(0, h.len() as int + 3);
                                    &&& h2.len() >= h.len() + 3
                                    &&& holds_vector(h2, made(h, 2), vk, nested)
                                    &&& expansion_started(h3, h2, kept, s.state@.push(EvalState::Expand), t.value@, t.state@, nested, scope)
                                } else {
                                    &&& h2.len() == h.len() + 2
                                    &&& t.value@ == kept.push(first)
                                    &&& t.state@ == s.state@.push(EvalState::Expand)
                                }
                            },
                        }
                    },
                }
            },
        }
    })
}

/// One step `Expand`: adds the item just expanded to the items expanded; expands the next
/// item left (evaluating the value of an escape, expanding a list in turn), or gives the
/// list of the items expanded when none is left.
pub fn eval_expand(heap: &mut GcAllocator, stack: &mut Stack) -> (r: Result<(), Fault>)
    ensures
        eval_expand_done(old(heap)@, final(heap)@, *old(stack), *final(stack), r),
{
    let n = stack.value.len();
    if n < 2 {
        return Err(Fault::StackUnderflow);
    }
    let value = stack.value[n - 1];
    let mut done = match list_items(heap, stack.value[n - 2]) {
        Some(x) => x,
        None => {
            return Err(Fault::WrongType);
        },
    };
    if n < 3 {
        return Err(Fault::StackUnderflow);
    }
    let pending = match list_items(heap, stack.value[n - 3]) {
        Some(x) => x,
        None => {
            return Err(Fault::WrongType);
        },
    };
    let m = stack.scope.len();
    if m == 0 {
        return Err(Fault::StackUnderflow);
    }
    let scope = stack.scope[m - 1];
    let lk = match kind_named(heap, scope, "PersistentList") {
        Ok(k) => k,
        Err(e) => {
            return Err(e);
        },
    };
    done.push(value);
    if pending.len() == 0 {
        let ghost rest = stack.value@.subrange(0, n - 3);
        let _ = stack.value.pop();
        let _ = stack.value.pop();
        let _ = stack.value.pop();
        proof {
            assert(stack.value@ =~= rest);
        }
        let a = alloc_of_kind(heap, lk, Data::PersistentList(PersistentList::from_vec(done)), None);
        stack.value.push(a);
        return Ok(());
    }
    let first = pending[0];
    let ek = match kind_named(heap, scope, "Escape") {
        Ok(k) => k,
        Err(e) => {
            return Err(e);
        },
    };
    let first_kind = match heap.get(first) {
        Some(o) => o.kind,
        None => {
            return Err(Fault::WrongType);
        },
    };
    let escaped = kinds_equal(heap, first_kind, ek);
    let nested_list = !escaped && kinds_equal(heap, first_kind, lk);
    let mut inner = first;
    let mut nested: Vec<Gc> = Vec::new();
    let mut vk = first;
    if escaped {
        inner = match heap.data(first) {
            Some(Data::Escape(e)) => e.0,
            _ => {
                return Err(Fault::WrongType);
            },
        };
    } else if nested_list {
        nested = match heap.data(first) {
            Some(Data::PersistentList(l)) => copy_handles(l.items_ref()),
            _ => {
                return Err(Fault::WrongType);
            },
        };
        vk = match kind_named(heap, scope, "PersistentVector") {
            Ok(k) => k,
            Err(e) => {
                return Err(e);
            },
        };
        if let Some(e) = check_expansion(heap, &nested, scope) {
            return Err(e);
        }
    }
    let ghost rest = stack.value@.subrange(0, n - 3);
    let _ = stack.value.pop();
    let _ = stack.value.pop();
    let _ = stack.value.pop();
    proof {
        assert(stack.value@ =~= rest);
    }
    let ghost h0 = heap@;
    let a = alloc_of_kind(heap, lk, Data::PersistentList(PersistentList::from_vec(handles_after_first(&pending))), None);
    let ghost h1 = heap@;
    let b = alloc_of_kind(heap, lk, Data::PersistentList(PersistentList::from_vec(done)), None);
    let ghost h2 = heap@;
    proof {
        assert(heap@[a.ptr as int] == h1[a.ptr as int]);
        lemma_extends_trans(h0, h1, h2);
    }
    stack.state.push(EvalState::Expand);
    stack.value.push(a);
    stack.value.push(b);
    if escaped {
        stack.state.push(EvalState::Eval);
        stack.value.push(inner);
    } else if nested_list {
        let c = alloc_of_kind(heap, vk, Data::PersistentVector(PersistentVector::from_vec(copy_handles(&nested))), None);
        let ghost h3 = heap@;
        proof {
            assert(heap@[a.ptr as int] == h2[a.ptr as int]);
            assert(heap@[b.ptr as int] == h2[b.ptr as int]);
            lemma_extends_trans(h0, h2, h3);
            assert forall|i: int| h0.len() <= i < h3.len() implies #[trigger] h3[i] is None || !(h3[i]->Some_0.value is Kind) by {
                if i == a.ptr {
                    assert(h3[i] == h2[i]);
                    assert(h2[i] == h1[i]);
                } else if i == b.ptr {
                    assert(h3[i] == h2[i]);
                }
            }
            lemma_expansion_fault_extends(h0, h3, nested@, scope);
        }
        start_expansion(heap, stack, &nested, scope);
        proof {
            lemma_extends_trans(h0, h3, heap@);
            assert(heap@.subrange(0, h0.len() as int + 3) =~= h3);
            assert(heap@[a.ptr as int] == h3[a.ptr as int]);
            assert(heap@[b.ptr as int] == h3[b.ptr as int]);
            assert(heap@[c.ptr as int] == h3[c.ptr as int]);
        }
    } else {
        stack.value.push(first);
    }
    Ok(())
}

/// How a value is called: as a function, as a macro, or as a special form.
#[derive(PartialEq, Eq, Structural, Clone, Copy)]
pub enum CallKind {
    Function,
    Macro,
    SpecialForm,
}

/// How a callable value is called, by its kind seen from `scope`: as a function, a macro
/// or a special form, looked up in that order; any other value cannot be called.
pub open spec fn call_class(h: Seq<Option<Object>>, scope: Gc, callable: Gc) -> Result<CallKind, Fault> {
    if !live_in(h, callable) {
        Err(Fault::WrongType)
    } else {
        match kind_result(h, scope, "Function"@) {
            Err(e) => Err(e),
            Ok(fk) => if of_kind(h, callable, fk) {
                Ok(CallKind::Function)
            } else {
                match kind_result(h, scope, "Macro"@) {
                    Err(e) => Err(e),
                    Ok(mk) => if of_kind(h, callable, mk) {
                        Ok(CallKind::Macro)
                    } else {
                        match kind_result(h, scope, "SpecialForm"@) {
                            Err(e) => Err(e),
                            Ok(sk) => if of_kind(h, callable, sk) {
                                Ok(CallKind::SpecialForm)
                            } else {
                                Err(Fault::NotCallable(callable))
                            },
                        }
                    },
                }
            },
        }
    }
}

/// How a callable value is called.
fn classify_callable(heap: &GcAllocator, scope: Gc, callable: Gc) -> (r: Result<CallKind, Fault>)
    ensures
        r == call_class(heap@, scope, callable),
{
    let k = match heap.get(callable) {
        Some(o) => o.kind,
        None => {
            return Err(Fault::WrongType);
        },
    };
    let fk = match kind_named(heap, scope, "Function") {
        Ok(x) => x,
        Err(e) => {
            return Err(e);
        },
    };
    if kinds_equal(heap, k, fk) {
        return Ok(CallKind::Function);
    }
    let mk = match kind_named(heap, scope, "Macro") {
        Ok(x) => x,
        Err(e) => {
            return Err(e);
        },
    };
    if kinds_equal(heap, k, mk) {
        return Ok(CallKind::Macro);
    }
    let sk = match kind_named(heap, scope, "SpecialForm") {
        Ok(x) => x,
        Err(e) => {
            return Err(e);
        },
    };
    if kinds_equal(heap, k, sk) {
        return Ok(CallKind::SpecialForm);
    }
    Err(Fault::NotCallable(callable))
}

/// The callable on top, the vector of arguments below it and its items, for step `Call`.
pub open spec fn call_operands(h: Seq<Option<Object>>, s: Stack) -> Result<(Gc, Gc, Seq<Gc>), Fault> {
    let vs = s.value@;
    if vs.len() < 2 {
        Err(Fault::StackUnderflow)
    } else {
        match data_at(h, vs[vs.len() - 2]) {
            Some(Data::PersistentVector(a)) => if s.scope@.len() == 0 {
                Err(Fault::StackUnderflow)
            } else {
                Ok((vs.last(), vs[vs.len() - 2], a@))
            },
            _ => Err(Fault::WrongType),
        }
    }
}

/// How `eval_call` leaves the heap and the stack, and what it gives.
pub open spec fn eval_call_done(h_pre: Seq<Option<Object>>, h_post: Seq<Option<Object>>, s_pre: Stack, s_post: Stack, r: Result<Option<SpecialFormKind>, Fault>) -> bool {
    &&& r is Err ==> h_post == h_pre && same_stack(s_post, s_pre)
    &&& s_post.scope@ == s_pre.scope@
    &&& s_post.callable@ == s_pre.callable@
    &&& ({
        let h = h_pre;
        let h2 = h_post;
        let s = s_pre;
        let t = s_post;
        match call_operands(h, s) {
            Err(e) => r == Err::<Option<SpecialFormKind>, Fault>(e),
            Ok((callable, args, items)) => {
                let scope = s.scope@.last();
                let rest = s.value@.subrange(0, s.value@.len() - 2);
                match call_class(h, scope, callable) {
                    Err(e) => r == Err::<Option<SpecialFormKind>, Fault>(e),
                    Ok(CallKind::Function) => if items.len() == 0 {
                        &&& r == Ok::<Option<SpecialFormKind>, Fault>(None)
                        &&& h2 == h
                        &&& t.value@ == rest.push(callable).push(args)
                        &&& t.state@ == s.state@.push(EvalState::PopScope).push(EvalState::CallFunction)
                    } else {
                        match kind_result(h, scope, "PersistentVector"@) {
                            Err(e) => r == Err::<Option<SpecialFormKind>, Fault>(e),
                            Ok(vk) => {
                                &&& r == Ok::<Option<SpecialFormKind>, Fault>(None)
                                &&& grew(h, h2, 2)
                                &&& holds_vector(h2, made(h, 0), vk, items.drop_first())
                                &&& holds_vector(h2, made(h, 1), vk, Seq::<Gc>::empty())
                                &&& t.value@ == rest.push(callable).push(made(h, 0)).push(made(h, 1)).push(items[0])
                                &&& t.state@ == s.state@.push(EvalState::PopScope).push(EvalState::CallFunction).push(
                                    EvalState::EvalVec,
                                ).push(EvalState::Eval)
                            },
                        }
                    },
                    Ok(CallKind::Macro) => {
                        &&& r == Ok::<Option<SpecialFormKind>, Fault>(None)
                        &&& h2 == h
                        &&& t.value@ == rest.push(callable).push(args)
                        &&& t.state@ == s.state@.push(EvalState::Eval).push(EvalState::PopScope).push(EvalState::CallFunction)
                    },
                    Ok(_) => match object_in(h, callable).value {
                        Data::SpecialForm(form) => {
                            &&& r == Ok::<Option<SpecialFormKind>, Fault>(Some(form.0))
                            &&& h2 == h
                            &&& t.value@ == rest.push(args)
                            &&& t.state@ == s.state@
                        },
                        _ => r == Err::<Option<SpecialFormKind>, Fault>(Fault::WrongType),
                    },
                }
            },
        }
    })
}

/// One step `Call`: calls the value just evaluated with the vector of arguments below it.
/// A function gets its arguments evaluated first, then is called by step `CallFunction`; a
/// macro is called with them unevaluated and what it gives is evaluated; for a special form
/// the arguments are left on top and the form is named, to be run next.
pub fn eval_call(heap: &mut GcAllocator, stack: &mut Stack) -> (r: Result<Option<SpecialFormKind>, Fault>)
    ensures
        eval_call_done(old(heap)@, final(heap)@, *old(stack), *final(stack), r),
{
    let n = stack.value.len();
    if n < 2 {
        return Err(Fault::StackUnderflow);
    }
    let callable = stack.value[n - 1];
    let args = stack.value[n - 2];
    let items = match heap.data(args) {
        Some(Data::PersistentVector(a)) => copy_handles(a.items_ref()),
        _ => {
            return Err(Fault::WrongType);
        },
    };
    let m = stack.scope.len();
    if m == 0 {
        return Err(Fault::StackUnderflow);
    }
    let scope = stack.scope[m - 1];
    let class = match classify_callable(heap, scope, callable) {
        Ok(c) => c,
        Err(e) => {
            return Err(e);
        },
    };
    match class {
        CallKind::Function => {
            if items.len() == 0 {
                stack.value.set(n - 1, args);
                stack.value.set(n - 2, callable);
                stack.state.push(EvalState::PopScope);
                stack.state.push(EvalState::CallFunction);
                proof {
                    assert(stack.value@ =~= old(stack).value@.subrange(0, n - 2).push(callable).push(args));
                }
                return Ok(None);
            }
            let vk = match kind_named(heap, scope, "PersistentVector") {
                Ok(k) => k,
                Err(e) => {
                    return Err(e);
                },
            };
            let ghost h0 = heap@;
            let a = alloc_of_kind(heap, vk, Data::PersistentVector(PersistentVector::from_vec(handles_after_first(&items))), None);
            let ghost h1 = heap@;
            let b = alloc_of_kind(heap, vk, Data::PersistentVector(PersistentVector::new()), None);
            proof {
                assert(heap@[a.ptr as int] == h1[a.ptr as int]);
                lemma_extends_trans(h0, h1, heap@);
            }
            stack.value.set(n - 2, callable);
            stack.value.set(n - 1, a);
            stack.value.push(b);
            stack.value.push(items[0]);
            stack.state.push(EvalState::PopScope);
            stack.state.push(EvalState::CallFunction);
            stack.state.push(EvalState::EvalVec);
            stack.state.push(EvalState::Eval);
            proof {
                assert(stack.value@ =~= old(stack).value@.subrange(0, n - 2).push(callable).push(a).push(b).push(items@[0]));
            }
            Ok(None)
        },
        CallKind::Macro => {
            stack.value.set(n - 1, args);
            stack.value.set(n - 2, callable);
            stack.state.push(EvalState::Eval);
            stack.state.push(EvalState::PopScope);
            stack.state.push(EvalState::CallFunction);
            proof {
                assert(stack.value@ =~= old(stack).value@.subrange(0, n - 2).push(callable).push(args));
            }
            Ok(None)
        },
        _ => {
            let form = match heap.data(callable) {
                Some(Data::SpecialForm(f)) => f.0,
                _ => {
                    return Err(Fault::WrongType);
                },
            };
            let _ = stack.value.pop();
            proof {
                assert(stack.value@ =~= old(stack).value@.subrange(0, n - 2).push(args));
            }
            Ok(Some(form))
        },
    }
}

/// How `eval_call_evaluated` leaves the stack, reading the heap, and what it gives.
pub open spec fn eval_call_evaluated_done(h_pre: Seq<Option<Object>>, s_pre: Stack, s_post: Stack, r: Result<Option<SpecialFormKind>, Fault>) -> bool {
    &&& r is Err ==> same_stack(s_post, s_pre)
    &&& s_post.scope@ == s_pre.scope@
    &&& s_post.callable@ == s_pre.callable@
    &&& ({
        let h = h_pre;
        let s = s_pre;
        let t = s_post;
        match call_operands(h, s) {
            Err(e) => r == Err::<Option<SpecialFormKind>, Fault>(e),
            Ok((callable, args, items)) => {
                let scope = s.scope@.last();
                let rest = s.value@.subrange(0, s.value@.len() - 2);
                match call_class(h, scope, callable) {
                    Err(e) => r == Err::<Option<SpecialFormKind>, Fault>(e),
                    Ok(CallKind::Function) => {
                        &&& r == Ok::<Option<SpecialFormKind>, Fault>(None)
                        &&& t.value@ == rest.push(callable).push(args)
                        &&& t.state@ == s.state@.push(EvalState::PopScope).push(EvalState::CallFunction)
                    },
                    Ok(CallKind::Macro) => {
                        &&& r == Ok::<Option<SpecialFormKind>, Fault>(None)
                        &&& t.value@ == rest.push(callable).push(args)
                        &&& t.state@ == s.state@.push(EvalState::Eval).push(EvalState::PopScope).push(EvalState::CallFunction)
                    },
                    Ok(_) => match object_in(h, callable).value {
                        Data::SpecialForm(form) => {
                            &&& r == Ok::<Option<SpecialFormKind>, Fault>(Some(form.0))
                            &&& t.value@ == rest.push(args)
                            &&& t.state@ == s.state@
                        },
                        _ => r == Err::<Option<SpecialFormKind>, Fault>(Fault::WrongType),
                    },
                }
            },
        }
    })
}

/// One step `Call` of evaluating values already evaluated: as `Call`, but the arguments of
/// a function are not evaluated again.
pub fn eval_call_evaluated(heap: &GcAllocator, stack: &mut Stack) -> (r: Result<Option<SpecialFormKind>, Fault>)
    ensures
        eval_call_evaluated_done(heap@, *old(stack), *final(stack), r),
{
    let n = stack.value.len();
    if n < 2 {
        return Err(Fault::StackUnderflow);
    }
    let callable = stack.value[n - 1];
    let args = stack.value[n - 2];
    match heap.data(args) {
        Some(Data::PersistentVector(_)) => {},
        _ => {
            return Err(Fault::WrongType);
        },
    }
    let m = stack.scope.len();
    if m == 0 {
        return Err(Fault::StackUnderflow);
    }
    let scope = stack.scope[m - 1];
    let class = match classify_callable(heap, scope, callable) {
        Ok(c) => c,
        Err(e) => {
            return Err(e);
        },
    };
    match class {
        CallKind::Function => {
            stack.value.set(n - 1, args);
            stack.value.set(n - 2, callable);
            stack.state.push(EvalState::PopScope);
            stack.state.push(EvalState::CallFunction);
            proof {
                assert(stack.value@ =~= old(stack).value@.subrange(0, n - 2).push(callable).push(args));
            }
            Ok(None)
        },
        CallKind::Macro => {
            stack.value.set(n - 1, args);
            stack.value.set(n - 2, callable);
            stack.state.push(EvalState::Eval);
            stack.state.push(EvalState::PopScope);
            stack.state.push(EvalState::CallFunction);
            proof {
                assert(stack.value@ =~= old(stack).value@.subrange(0, n - 2).push(callable).push(args));
            }
            Ok(None)
        },
        _ => {
            let form = match heap.data(callable) {
                Some(Data::SpecialForm(f)) => f.0,
                _ => {
                    return Err(Fault::WrongType);
                },
            };
            let _ = stack.value.pop();
            proof {
                assert(stack.value@ =~= old(stack).value@.subrange(0, n - 2).push(args));
            }
            Ok(Some(form))
        },
    }
}

/// A call that the runtime hands to the program embedding it: the number of the provided
/// function, the scope of the call and the vector of arguments. The program pushes the
/// value it gives onto the values of the stack, then evaluation goes on.
#[derive(Clone, Copy)]
pub struct HostCall {
    pub id: u64,
    pub scope: Gc,
    pub args: Gc,
}

/// The operands of step `CallFunction`, from the top: the vector of arguments (and its
/// items), then the function (and its parts and the items of its parameters), each
/// checked in that order after the scope on top.
pub open spec fn call_function_operands(h: Seq<Option<Object>>, s: Stack) -> Result<(Gc, Function, Gc, Seq<Gc>, Seq<Gc>), Fault> {
    let vs = s.value@;
    if s.scope@.len() == 0 || vs.len() < 1 {
        Err(Fault::StackUnderflow)
    } else {
        match data_at(h, vs.last()) {
            Some(Data::PersistentVector(a)) => if vs.len() < 2 {
                Err(Fault::StackUnderflow)
            } else {
                match data_at(h, vs[vs.len() - 2]) {
                    Some(Data::Function(f)) => match data_at(h, f.params) {
                        Some(Data::PersistentVector(p)) => if (f.name matches Some(n) && !(data_at(h, n) matches Some(Data::Symbol(_)))) {
                            Err(Fault::WrongType)
                        } else {
                            Ok((vs[vs.len() - 2], f, vs.last(), a@, p@))
                        },
                        _ => Err(Fault::WrongType),
                    },
                    _ => Err(Fault::WrongType),
                }
            },
            _ => Err(Fault::WrongType),
        }
    }
}

/// The bindings of a call's scope before its parameters: `arguments` to the vector of
/// arguments, then the function's name, if it has one, to the function itself.
pub open spec fn call_base(h: Seq<Option<Object>>, f: Function, callable: Gc, args: Gc) -> Map<Seq<char>, usize> {
    let base = Map::<Seq<char>, usize>::empty().insert("arguments"@, args.ptr);
    match f.name {
        Some(n) => match data_at(h, n) {
            Some(Data::Symbol(x)) => base.insert(x.0@, callable.ptr),
            _ => base,
        },
        None => base,
    }
}

/// For each parameter, its name when it is a symbol.
pub open spec fn param_names_of(h: Seq<Option<Object>>, params: Seq<Gc>) -> Seq<Option<Seq<char>>> {
    Seq::new(
        params.len(),
        |j: int|
            match data_at(h, params[j]) {
                Some(Data::Symbol(x)) => Some(x.0@),
                _ => None,
            },
    )
}

/// The characters of a name, if there is one.
pub open spec fn name_view(o: Option<String>) -> Option<Seq<char>> {
    match o {
        Some(s) => Some(s@),
        None => None,
    }
}

/// The bindings `m` with the first `n` parameters bound, in order, each one named to the
/// argument at its position, or to `nil` past the last argument.
pub open spec fn bind_params(m: Map<Seq<char>, usize>, names: Seq<Option<Seq<char>>>, items: Seq<Gc>, nil: Gc, n: nat) -> Map<Seq<char>, usize>
    decreases n,
{
    if n == 0 {
        m
    } else {
        let before = bind_params(m, names, items, nil, (n - 1) as nat);
        let i = n - 1;
        match names[i] {
            Some(x) => before.insert(x, (if i < items.len() { items[i] } else { nil }).ptr),
            None => before,
        }
    }
}

/// For each parameter, its name when it is a symbol.
fn param_names(heap: &GcAllocator, params: &Vec<Gc>) -> (r: Vec<Option<String>>)
    ensures
        r@.len() == params@.len(),
        forall|j: int| 0 <= j < params@.len() ==> name_view(#[trigger] r@[j]) == param_names_of(heap@, params@)[j],
{
    let mut r: Vec<Option<String>> = Vec::new();
    let mut i: usize = 0;
    while i < params.len()
        invariant
            i <= params@.len(),
            r@.len() == i,
            forall|j: int| 0 <= j < i ==> name_view(#[trigger] r@[j]) == param_names_of(heap@, params@)[j],
        decreases params@.len() - i,
    {
        let name = match heap.data(params[i]) {
            Some(Data::Symbol(x)) => Some(string_from(x.as_str())),
            _ => None,
        };
        r.push(name);
        i = i + 1;
    }
    r
}

/// Binds the named parameters in turn, each in a new scope object of kind `ck`, starting
/// from the bindings `table`; gives the last scope made, or `cur` when none is made.
fn bind_call_params(heap: &mut GcAllocator, ck: Gc, table: PersistentScope, cur: Gc, names: &Vec<Option<String>>, items: &Vec<Gc>, nil: Gc) -> (sc: Gc)
    requires
        live_in(old(heap)@, cur),
        object_in(old(heap)@, cur).kind == ck,
        object_in(old(heap)@, cur).value matches Data::PersistentScope(x) && x.entries() == table.entries() && x.parent == table.parent,
    ensures
        extends(old(heap)@, final(heap)@),
        sc == cur || sc.ptr >= old(heap)@.len(),
        live_in(final(heap)@, sc),
        object_in(final(heap)@, sc).kind == ck,
        object_in(final(heap)@, sc).value matches Data::PersistentScope(x) && x.parent == table.parent && x.entries() == bind_params(
            table.entries(),
            names@.map_values(|o: Option<String>| name_view(o)),
            items@,
            nil,
            names@.len(),
        ),
{
    let ghost h0 = heap@;
    let ghost ns = names@.map_values(|o: Option<String>| name_view(o));
    let mut t = table;
    let mut g = cur;
    let mut i: usize = 0;
    proof {
        assert(t.entries() == bind_params(table.entries(), ns, items@, nil, 0));
    }
    while i < names.len()
        invariant
            i <= names@.len(),
            ns == names@.map_values(|o: Option<String>| name_view(o)),
            extends(h0, heap@),
            g == cur || g.ptr >= h0.len(),
            live_in(heap@, g),
            object_in(heap@, g).kind == ck,
            object_in(heap@, g).value matches Data::PersistentScope(x) && x.entries() == t.entries() && x.parent == table.parent,
            t.parent == table.parent,
            t.entries() == bind_params(table.entries(), ns, items@, nil, i as nat),
        decreases names@.len() - i,
    {
        let ghost before = heap@;
        match &names[i] {
            Some(x) => {
                let v = if i < items.len() { items[i] } else { nil };
                t = t.set(x.as_str(), v);
                g = alloc_of_kind(heap, ck, Data::PersistentScope(t.copy()), None);
                proof {
                    lemma_extends_trans(h0, before, heap@);
                }
            },
            None => {},
        }
        i = i + 1;
    }
    g
}

/// How `eval_call_function` leaves the heap and the stack, and what it gives.
pub open spec fn eval_call_function_done(h_pre: Seq<Option<Object>>, h_post: Seq<Option<Object>>, s_pre: Stack, s_post: Stack, r: Result<Option<HostCall>, Fault>) -> bool {
    ({
        let h = h_pre;
        let h2 = h_post;
        let s = s_pre;
        let t = s_post;
        match call_function_operands(h, s) {
            Err(e) => r == Err::<Option<HostCall>, Fault>(e) && h2 == h && same_stack(t, s),
            Ok((callable, f, args, items, params)) => {
                let stack_scope = s.scope@.last();
                let rest = s.value@.subrange(0, s.value@.len() - 2);
                match kind_result(h, stack_scope, "Macro"@) {
                    Err(e) => r == Err::<Option<HostCall>, Fault>(e) && h2 == h && same_stack(t, s),
                    Ok(mk) => {
                        let parent = if of_kind(h, callable, mk) { stack_scope } else { f.scope };
                        match (kind_result(h, parent, "PersistentScope"@), value_result(h, parent, "nil"@, Tag::Nil)) {
                            (Err(e), _) => r == Err::<Option<HostCall>, Fault>(e) && h2 == h && same_stack(t, s),
                            (_, Err(e)) => r == Err::<Option<HostCall>, Fault>(e) && h2 == h && same_stack(t, s),
                            (Ok(ck), Ok(nil)) => {
                                let entries = bind_params(call_base(h, f, callable, args), param_names_of(h, params), items, nil, params.len());
                                let sc = t.scope@.last();
                                exists|hm: Seq<Option<Object>>| {
                                    &&& #[trigger] extends(h, hm)
                                    &&& t.scope@ == s.scope@.push(sc)
                                    &&& t.callable@ == s.callable@.push(callable)
                                    &&& sc.ptr >= h.len()
                                    &&& live_in(hm, sc)
                                    &&& object_in(hm, sc).kind == ck
                                    &&& object_in(hm, sc).value matches Data::PersistentScope(x)
                                    &&& x.entries() == entries
                                    &&& x.parent == Some(parent)
                                    &&& match f.body {
                                        FunctionKind::Internal(b) => {
                                            &&& r == Ok::<Option<HostCall>, Fault>(None)
                                            &&& h2 == hm
                                            &&& t.value@ == rest.push(b)
                                            &&& t.state@ == s.state@.push(EvalState::Eval)
                                        },
                                        FunctionKind::External(Builtin::Host(id)) => {
                                            &&& r == Ok::<Option<HostCall>, Fault>(Some(HostCall { id, scope: sc, args }))
                                            &&& h2 == hm
                                            &&& t.value@ == rest
                                            &&& t.state@ == s.state@
                                        },
                                        FunctionKind::External(bi) => exists|v: Result<Gc, Fault>| {
                                            &&& #[trigger] builtin_done(hm, h2, sc, bi, args, v)
                                            &&& match v {
                                                Ok(x) => r == Ok::<Option<HostCall>, Fault>(None) && t.value@ == rest.push(x) && t.state@ == s.state@,
                                                Err(e) => r == Err::<Option<HostCall>, Fault>(e),
                                            }
                                        },
                                    }
                                }
                            },
                        }
                    },
                }
            },
        }
    })
}

/// One step `CallFunction`: calls the function below the vector of arguments on top. Its
/// scope extends the scope the function was made in (for a macro, the scope on top) and
/// binds `arguments`, the function's name and its parameters, one new scope per binding;
/// the scope and the function are pushed until step `PopScope`. A body is then evaluated
/// in that scope; a provided function is run and what it gives pushed, or, for one that the
/// program embedding the runtime provides, the call is handed to it. The kinds of macros
/// and scopes and `nil` are looked up first.
#[verifier::rlimit(40)]
pub fn eval_call_function(heap: &mut GcAllocator, stack: &mut Stack) -> (r: Result<Option<HostCall>, Fault>)
    ensures
        eval_call_function_done(old(heap)@, final(heap)@, *old(stack), *final(stack), r),
{
    let ghost h0 = heap@;
    let n = stack.value.len();
    let m = stack.scope.len();
    if m == 0 || n < 1 {
        return Err(Fault::StackUnderflow);
    }
    let args = stack.value[n - 1];
    let items = match heap.data(args) {
        Some(Data::PersistentVector(a)) => copy_handles(a.items_ref()),
        _ => {
            return Err(Fault::WrongType);
        },
    };
    if n < 2 {
        return Err(Fault::StackUnderflow);
    }
    let callable = stack.value[n - 2];
    let f = match heap.data(callable) {
        Some(Data::Function(f)) => *f,
        _ => {
            return Err(Fault::WrongType);
        },
    };
    let params = match heap.data(f.params) {
        Some(Data::PersistentVector(p)) => copy_handles(p.items_ref()),
        _ => {
            return Err(Fault::WrongType);
        },
    };
    let name = match f.name {
        Some(g) => match heap.data(g) {
            Some(Data::Symbol(x)) => Some(string_from(x.as_str())),
            _ => {
                return Err(Fault::WrongType);
            },
        },
        None => None,
    };
    let stack_scope = stack.scope[m - 1];
    let mk = match kind_named(heap, stack_scope, "Macro") {
        Ok(k) => k,
        Err(e) => {
            return Err(e);
        },
    };
    let callable_kind = match heap.get(callable) {
        Some(o) => o.kind,
        None => {
            return Err(Fault::WrongType);
        },
    };
    let parent = if kinds_equal(heap, callable_kind, mk) { stack_scope } else { f.scope };
    let ck = match kind_named(heap, parent, "PersistentScope") {
        Ok(k) => k,
        Err(e) => {
            return Err(e);
        },
    };
    let nil = match nil_value(heap, parent) {
        Ok(v) => v,
        Err(e) => {
            return Err(e);
        },
    };
    let names = param_names(heap, &params);
    let ghost h_checked = heap@;
    let mut table = PersistentScope::with_parent(Some(parent));
    let _ = alloc_of_kind(heap, ck, Data::PersistentScope(table.copy()), None);
    let ghost h_empty = heap@;
    table = table.set("arguments", args);
    let mut cur = alloc_of_kind(heap, ck, Data::PersistentScope(table.copy()), None);
    let ghost h_args = heap@;
    match name {
        Some(x) => {
            table = table.set(x.as_str(), callable);
            cur = alloc_of_kind(heap, ck, Data::PersistentScope(table.copy()), None);
        },
        None => {},
    }
    proof {
        lemma_extends_trans(h0, h_empty, h_args);
        lemma_extends_trans(h0, h_args, heap@);
        assert(table.entries() == call_base(h0, f, callable, args));
    }
    let ghost h_base = heap@;
    let cur = bind_call_params(heap, ck, table, cur, &names, &items, nil);
    proof {
        lemma_extends_trans(h0, h_base, heap@);
        assert(names@.map_values(|o: Option<String>| name_view(o)) =~= param_names_of(h0, params@));
    }
    let ghost hm = heap@;
    let ghost sc = cur;
    stack.scope.push(cur);
    stack.callable.push(callable);
    let _ = stack.value.pop();
    let _ = stack.value.pop();
    match f.body {
        FunctionKind::Internal(b) => {
            stack.value.push(b);
            stack.state.push(EvalState::Eval);
            proof {
                assert(stack.value@ =~= old(stack).value@.subrange(0, n - 2).push(b));
                assert(extends(h0, hm));
            }
            Ok(None)
        },
        FunctionKind::External(Builtin::Host(id)) => {
            proof {
                assert(stack.value@ =~= old(stack).value@.subrange(0, n - 2));
                assert(extends(h0, hm));
            }
            Ok(Some(HostCall { id, scope: cur, args }))
        },
        FunctionKind::External(bi) => {
            let v = call_builtin(heap, cur, bi, args);
            proof {
                assert(extends(h0, hm));
                assert(builtin_done(hm, heap@, sc, bi, args, v));
            }
            match v {
                Ok(x) => {
                    stack.value.push(x);
                    proof {
                        assert(stack.value@ =~= old(stack).value@.subrange(0, n - 2).push(x));
                    }
                    Ok(None)
                },
                Err(e) => Err(e),
            }
        },
    }
}

/// What unwinding the steps `states` (top last) for a throw finds, with the functions
/// `callables` being called: the functions whose calls it ends, top first, and where it
/// stops: `Some(Some(k))` at a `try` handler with `k` steps left below it, `Some(None)` at
/// the bottom of the steps, `None` at the end of a call with no function left to end.
pub open spec fn thrown_through(states: Seq<EvalState>, callables: Seq<Gc>) -> (Seq<Gc>, Option<Option<nat>>)
    decreases states.len(),
{
    if states.len() == 0 {
        (Seq::empty(), Some(None))
    } else if states.last() == EvalState::Catch {
        (Seq::empty(), Some(Some((states.len() - 1) as nat)))
    } else if states.last() == EvalState::PopScope {
        if callables.len() == 0 {
            (Seq::empty(), None)
        } else {
            let (t, c) = thrown_through(states.drop_last(), callables.drop_last());
            (seq![callables.last()] + t, c)
        }
    } else {
        thrown_through(states.drop_last(), callables)
    }
}

/// The fault met when naming the functions `ended` in the stack trace, in order: one that
/// is not a function, or one without a name when symbols have no kind (`symbol_kind`).
pub open spec fn trace_fault(h: Seq<Option<Object>>, ended: Seq<Gc>, symbol_kind: Result<Gc, Fault>) -> Option<Fault>
    decreases ended.len(),
{
    if ended.len() == 0 {
        None
    } else {
        match data_at(h, ended[0]) {
            Some(Data::Function(f)) => if f.name is None && symbol_kind is Err {
                Some(symbol_kind->Err_0)
            } else {
                trace_fault(h, ended.drop_first(), symbol_kind)
            },
            _ => Some(Fault::WrongType),
        }
    }
}

/// Whether `trace` names the functions `ended`: each by its name, or by a new symbol
/// `anonymous` when it has none.
pub open spec fn names_trace(h: Seq<Option<Object>>, h2: Seq<Option<Object>>, ended: Seq<Gc>, trace: Seq<Gc>) -> bool {
    &&& trace.len() == ended.len()
    &&& forall|i: int| 0 <= i < ended.len() ==> match (#[trigger] object_in(h, ended[i])).value {
        Data::Function(f) => match f.name {
            Some(n) => trace[i] == n,
            None => trace[i].ptr >= h.len() && live_in(h2, trace[i]) && (object_in(h2, trace[i]).value matches Data::Symbol(x)
                && x.0@ == "anonymous"@),
        },
        _ => false,
    }
}

/// Unwinding stops where the unwinding of a throw does: a throw's unwinding of `st` is the
/// same as of the steps up to where unwinding stops.
pub proof fn lemma_thrown_through_stop(st: Seq<EvalState>, cs: Seq<Gc>)
    ensures
        unwind_stop(st) >= 0,
        unwind_stop(st) == 0 ==> thrown_through(st, cs) == (Seq::<Gc>::empty(), Some(None::<nat>)),
        unwind_stop(st) > 0 ==> unwind_stop(st) <= st.len() && stops_unwind(st[unwind_stop(st) - 1]) && thrown_through(st, cs)
            == thrown_through(st.subrange(0, unwind_stop(st)), cs),
    decreases st.len(),
{
    if st.len() == 0 {
    } else if stops_unwind(st.last()) {
        assert(st.subrange(0, st.len() as int) =~= st);
    } else {
        lemma_thrown_through_stop(st.drop_last(), cs);
        let k = unwind_stop(st);
        if k > 0 {
            assert(st.drop_last().subrange(0, k) =~= st.subrange(0, k));
        }
    }
}

/// A throw's unwinding through steps whose first stop is the end of a call, with a
/// function being called: that function first, then what unwinding the rest finds.
pub proof fn lemma_thrown_through_call(st: Seq<EvalState>, cs: Seq<Gc>)
    requires
        unwind_stop(st) > 0,
        st[unwind_stop(st) - 1] == EvalState::PopScope,
        cs.len() > 0,
    ensures
        unwind_stop(st) <= st.len(),
        thrown_through(st, cs) == ({
            let (t, c) = thrown_through(st.subrange(0, unwind_stop(st) - 1), cs.drop_last());
            (seq![cs.last()] + t, c)
        }),
{
    lemma_thrown_through_stop(st, cs);
    let k = unwind_stop(st);
    let x = st.subrange(0, k);
    assert(x.last() == EvalState::PopScope);
    assert(x.drop_last() =~= st.subrange(0, k - 1));
}

/// A throw's unwinding through steps whose first stop is the end of a call, with no
/// function being called: it ends no call and stops there.
pub proof fn lemma_thrown_through_underflow(st: Seq<EvalState>, cs: Seq<Gc>)
    requires
        unwind_stop(st) > 0,
        st[unwind_stop(st) - 1] == EvalState::PopScope,
        cs.len() == 0,
    ensures
        thrown_through(st, cs) == (Seq::<Gc>::empty(), None::<Option<nat>>),
{
    lemma_thrown_through_stop(st, cs);
    let k = unwind_stop(st);
    let x = st.subrange(0, k);
    assert(x.last() == EvalState::PopScope);
}

/// A throw's unwinding through steps whose first stop is a handler: no call ended, and
/// the handler found there.
pub proof fn lemma_thrown_through_catch(st: Seq<EvalState>, cs: Seq<Gc>)
    requires
        unwind_stop(st) > 0,
        st[unwind_stop(st) - 1] == EvalState::Catch,
    ensures
        unwind_stop(st) <= st.len(),
        thrown_through(st, cs) == (Seq::<Gc>::empty(), Some(Some((unwind_stop(st) - 1) as nat))),
{
    lemma_thrown_through_stop(st, cs);
    let k = unwind_stop(st);
    let x = st.subrange(0, k);
    assert(x.last() == EvalState::Catch);
}

/// The fault met naming `a + b` is the one met naming `a`, else the one met naming `b`.
pub proof fn lemma_trace_fault_append(h: Seq<Option<Object>>, a: Seq<Gc>, b: Seq<Gc>, symbol_kind: Result<Gc, Fault>)
    ensures
        trace_fault(h, a + b, symbol_kind) == (match trace_fault(h, a, symbol_kind) {
            Some(e) => Some(e),
            None => trace_fault(h, b, symbol_kind),
        }),
    decreases a.len(),
{
    if a.len() == 0 {
        assert(a + b =~= b);
    } else {
        lemma_trace_fault_append(h, a.drop_first(), b, symbol_kind);
        assert((a + b).drop_first() =~= a.drop_first() + b);
        assert((a + b)[0] == a[0]);
    }
}

/// How a throw's unwinding ended without a fault: at a `try` handler, with the value
/// found there, or at the bottom of the steps, with the names of the calls it ended.
pub enum Unwound {
    Caught(Gc),
    Uncaught(Vec<Gc>),
}

/// Unwinds the steps for a throw (`thrown_through`): each call ended is named in the
/// trace, by its function's name or by a new symbol `anonymous` of kind `symbol_kind`.
pub fn unwind_throw(heap: &mut GcAllocator, stack: &mut Stack, symbol_kind: Result<Gc, Fault>) -> (r: Result<Unwound, Fault>)
    ensures
        extends(old(heap)@, final(heap)@),
        final(stack).scope@ == old(stack).scope@,
        ({
            let h = old(heap)@;
            let s = *old(stack);
            let t = *final(stack);
            let (ended, stop) = thrown_through(s.state@, s.callable@);
            match trace_fault(h, ended, symbol_kind) {
                Some(e) => r == Err::<Unwound, Fault>(e),
                None => match stop {
                    None => r == Err::<Unwound, Fault>(Fault::StackUnderflow),
                    Some(Some(k)) => if s.value@.len() == 0 {
                        r == Err::<Unwound, Fault>(Fault::StackUnderflow)
                    } else {
                        &&& r == Ok::<Unwound, Fault>(Unwound::Caught(s.value@.last()))
                        &&& k <= s.state@.len()
                        &&& ended.len() <= s.callable@.len()
                        &&& t.state@ == s.state@.subrange(0, k as int)
                        &&& t.value@ == s.value@.drop_last()
                        &&& t.callable@ == s.callable@.subrange(0, s.callable@.len() - ended.len())
                    },
                    Some(None) => r matches Ok(Unwound::Uncaught(trace)) && {
                        &&& names_trace(h, final(heap)@, ended, trace@)
                        &&& ended.len() <= s.callable@.len()
                        &&& t.state@ == Seq::<EvalState>::empty()
                        &&& t.value@ == s.value@
                        &&& t.callable@ == s.callable@.subrange(0, s.callable@.len() - ended.len())
                    },
                },
            }
        }),
{
    let ghost h0 = heap@;
    let ghost s0 = *stack;
    let mut trace: Vec<Gc> = Vec::new();
    let ghost mut done: Seq<Gc> = Seq::empty();
    loop
        invariant
            extends(h0, heap@),
            stack.value@ == s0.value@,
            stack.scope@ == s0.scope@,
            stack.state@.len() <= s0.state@.len(),
            stack.state@ == s0.state@.subrange(0, stack.state@.len() as int),
            done.len() <= s0.callable@.len(),
            stack.callable@ == s0.callable@.subrange(0, s0.callable@.len() - done.len()),
            ({
                let (e2, c2) = thrown_through(stack.state@, stack.callable@);
                thrown_through(s0.state@, s0.callable@) == (done + e2, c2)
            }),
            trace_fault(h0, done, symbol_kind) is None,
            names_trace(h0, heap@, done, trace@),
            forall|i: int| h0.len() <= i < heap@.len() ==> (#[trigger] heap@[i] is Some && heap@[i]->Some_0.value is Symbol),
            h0 == old(heap)@,
            s0 == *old(stack),
        decreases stack.state@.len(),
    {
        let ghost st = stack.state@;
        let ghost cs = stack.callable@;
        let ghost hb = heap@;
        proof {
            lemma_thrown_through_stop(st, cs);
        }
        let unwound = stack.unwind();
        proof {
            let k = unwind_stop(st);
            if k > 0 {
                assert(stack.state@ =~= s0.state@.subrange(0, stack.state@.len() as int));
                if st[k - 1] == EvalState::PopScope && cs.len() > 0 {
                    lemma_thrown_through_call(st, cs);
                } else if st[k - 1] == EvalState::PopScope {
                    lemma_thrown_through_underflow(st, cs);
                } else if st[k - 1] == EvalState::Catch {
                    lemma_thrown_through_catch(st, cs);
                }
            }
        }
        match unwound {
            Err(e) => {
                proof {
                    assert(done + Seq::<Gc>::empty() =~= done);
                }
                return Err(e);
            },
            Ok(UnwindResult::Callable(c)) => {
                let ghost rest = thrown_through(stack.state@, stack.callable@);
                proof {
                    assert(unwind_stop(st) > 0);
                    assert(st[unwind_stop(st) - 1] != EvalState::Catch);
                    assert(stack.state@ == st.subrange(0, unwind_stop(st) - 1));
                    assert(cs.len() > 0);
                    assert(cs.last() == c);
                    assert(stack.callable@ =~= s0.callable@.subrange(0, s0.callable@.len() - (done.len() + 1)));
                    assert(done + (seq![c] + rest.0) =~= (done + seq![c]) + rest.0);
                }
                let name = match heap.data(c) {
                    Some(Data::Function(f)) => f.name,
                    _ => {
                        proof {
                            let e2 = seq![c] + rest.0;
                            lemma_trace_fault_append(h0, done, e2, symbol_kind);
                            assert(e2[0] == c);
                            assert(e2.drop_first() =~= rest.0);
                            if live_in(h0, c) {
                                assert(hb[c.ptr as int] == h0[c.ptr as int]);
                            }
                        }
                        return Err(Fault::WrongType);
                    },
                };
                proof {
                    if live_in(h0, c) {
                        assert(hb[c.ptr as int] == h0[c.ptr as int]);
                    } else if c.ptr < hb.len() && c.ptr >= h0.len() {
                        assert(hb[c.ptr as int] is Some && hb[c.ptr as int]->Some_0.value is Symbol);
                    }
                    assert(live_in(h0, c));
                    lemma_trace_fault_append(h0, done, seq![c], symbol_kind);
                    let e2 = seq![c] + rest.0;
                    lemma_trace_fault_append(h0, done, e2, symbol_kind);
                    lemma_trace_fault_append(h0, done + seq![c], rest.0, symbol_kind);
                }
                let ghost hc = heap@;
                let item = match name {
                    Some(n) => n,
                    None => match symbol_kind {
                        Ok(k) => alloc_of_kind(heap, k, Data::Symbol(Symbol::new(string_from("anonymous"))), None),
                        Err(e) => {
                            proof {
                                let e2 = seq![c] + rest.0;
                                lemma_trace_fault_append(h0, done, e2, symbol_kind);
                                assert(e2[0] == c);
                            }
                            return Err(e);
                        },
                    },
                };
                let ghost old_trace = trace@;
                trace.push(item);
                proof {
                    assert forall|i: int| h0.len() <= i < heap@.len() implies (#[trigger] heap@[i] is Some && heap@[i]->Some_0.value is Symbol) by {
                        if i < hc.len() {
                            assert(heap@[i] == hc[i]);
                        }
                    }
                    let nd = done + seq![c];
                    assert forall|i: int| 0 <= i < nd.len() implies match (#[trigger] object_in(h0, nd[i])).value {
                        Data::Function(f) => match f.name {
                            Some(n) => trace@[i] == n,
                            None => trace@[i].ptr >= h0.len() && live_in(heap@, trace@[i]) && (object_in(heap@, trace@[i]).value matches Data::Symbol(x)
                                && x.0@ == "anonymous"@),
                        },
                        _ => false,
                    } by {
                        if i < done.len() {
                            assert(nd[i] == done[i]);
                            assert(trace@[i] == old_trace[i]);
                            let g = trace@[i];
                            if live_in(hc, g) {
                                assert(heap@[g.ptr as int] == hc[g.ptr as int]);
                            }
                        } else {
                            assert(nd[i] == c);
                        }
                    }
                    lemma_trace_fault_append(h0, done, seq![c], symbol_kind);
                    assert(object_in(h0, c) == object_in(hb, c));
                    assert(object_in(hb, c).value matches Data::Function(f) && f.name == name);
                    assert(name is None ==> symbol_kind is Ok);
                    assert(seq![c].drop_first() =~= Seq::<Gc>::empty());
                    assert(seq![c][0] == c);
                    assert(trace_fault(h0, Seq::<Gc>::empty(), symbol_kind) is None);
                    assert(trace_fault(h0, seq![c], symbol_kind) is None);
                    assert(trace_fault(h0, nd, symbol_kind) is None);
                    done = nd;
                }
            },
            Ok(UnwindResult::Caught(x)) => {
                proof {
                    assert(stack.state@ =~= s0.state@.subrange(0, unwind_stop(st) - 1));
                    assert(done + Seq::<Gc>::empty() =~= done);
                }
                return Ok(Unwound::Caught(x));
            },
            Ok(UnwindResult::Uncaught) => {
                proof {
                    assert(done + Seq::<Gc>::empty() =~= done);
                }
                return Ok(Unwound::Uncaught(trace));
            },
        }
    }
}

/// How `eval_throw` leaves the heap and the stack, and what it gives.
pub open spec fn eval_throw_done(h_pre: Seq<Option<Object>>, h_post: Seq<Option<Object>>, s_pre: Stack, s_post: Stack, r: Result<(), Fault>) -> bool {
    &&& r is Err
    &&& ({
        let h = h_pre;
        let h2 = h_post;
        let s = s_pre;
        let t = s_post;
        if s.scope@.len() == 0 {
            r == Err::<(), Fault>(Fault::StackUnderflow)
        } else {
            let scope = s.scope@.last();
            let thrown = if s.value@.len() > 0 { Ok(s.value@.last()) } else { value_result(h, scope, "nil"@, Tag::Nil) };
            let values = if s.value@.len() > 0 { s.value@.drop_last() } else { s.value@ };
            match thrown {
                Err(e) => r == Err::<(), Fault>(e),
                Ok(v) => match (kind_result(h, scope, "Keyword"@), kind_result(h, scope, "PersistentVector"@), kind_result(h, scope, "PersistentMap"@)) {
                    (Ok(kk), Ok(vk), Ok(mk)) => {
                        let (ended, stop) = thrown_through(s.state@, s.callable@);
                        match trace_fault(h, ended, kind_result(h, scope, "Symbol"@)) {
                            Some(e) => r == Err::<(), Fault>(e),
                            None => match stop {
                                None => r == Err::<(), Fault>(Fault::StackUnderflow),
                                Some(Some(k)) => if values.len() == 0 {
                                    r == Err::<(), Fault>(Fault::StackUnderflow)
                                } else {
                                    &&& r == Err::<(), Fault>(Fault::Caught(Some(values.last())))
                                    &&& extends(h, h2)
                                    &&& k <= s.state@.len()
                                    &&& t.state@ == s.state@.subrange(0, k as int)
                                    &&& t.value@ == values.drop_last()
                                    &&& t.callable@ == s.callable@.subrange(0, s.callable@.len() - ended.len())
                                },
                                Some(None) => r matches Err(Fault::Uncaught(m)) && exists|trace: Seq<Gc>| {
                                    &&& extends(h, h2)
                                    &&& #[trigger] names_trace(h, h2, ended, trace)
                                    &&& t.state@ == Seq::<EvalState>::empty()
                                    &&& t.value@ == values
                                    &&& t.callable@ == s.callable@.subrange(0, s.callable@.len() - ended.len())
                                    &&& live_in(h2, m)
                                    &&& object_in(h2, m).kind == mk
                                    &&& object_in(h2, m).value matches Data::PersistentMap(pairs)
                                    &&& pairs@.len() == 2
                                    &&& pairs@[0].1 == v
                                    &&& object_in(h2, pairs@[0].0).value matches Data::Keyword(kv) && kv.0@ == "value"@
                                    &&& object_in(h2, pairs@[0].0).kind == kk
                                    &&& object_in(h2, pairs@[1].0).value matches Data::Keyword(ks) && ks.0@ == "stack_trace"@
                                    &&& object_in(h2, pairs@[1].0).kind == kk
                                    &&& holds_vector(h2, pairs@[1].1, vk, trace)
                                },
                            },
                        }
                    },
                    (Err(e), _, _) => r == Err::<(), Fault>(e),
                    (_, Err(e), _) => r == Err::<(), Fault>(e),
                    (_, _, Err(e)) => r == Err::<(), Fault>(e),
                },
            }
        }
    })
}

/// One step `Throw`: throws the value on top (or `nil`). Unwinding ends the calls in turn
/// until a `try` handler is found, where the runtime stops (`Caught`, with the value then
/// on top); when none is found, the runtime stops with an uncaught error, a map binding
/// `:value` to the value thrown and `:stack_trace` to a vector naming the calls ended.
pub fn eval_throw(heap: &mut GcAllocator, stack: &mut Stack) -> (r: Result<(), Fault>)
    ensures
        eval_throw_done(old(heap)@, final(heap)@, *old(stack), *final(stack), r),
{
    let ghost h0 = heap@;
    let ghost s0 = *stack;
    let m = stack.scope.len();
    if m == 0 {
        return Err(Fault::StackUnderflow);
    }
    let scope = stack.scope[m - 1];
    let v = if stack.value.len() > 0 {
        stack.value[stack.value.len() - 1]
    } else {
        match nil_value(heap, scope) {
            Ok(n) => n,
            Err(e) => {
                return Err(e);
            },
        }
    };
    let kk = match kind_named(heap, scope, "Keyword") {
        Ok(k) => k,
        Err(e) => {
            return Err(e);
        },
    };
    let vk = match kind_named(heap, scope, "PersistentVector") {
        Ok(k) => k,
        Err(e) => {
            return Err(e);
        },
    };
    let mk = match kind_named(heap, scope, "PersistentMap") {
        Ok(k) => k,
        Err(e) => {
            return Err(e);
        },
    };
    let sk = kind_named(heap, scope, "Symbol");
    if stack.value.len() > 0 {
        let _ = stack.value.pop();
    }
    let trace = match unwind_throw(heap, stack, sk) {
        Ok(Unwound::Caught(x)) => {
            return Err(Fault::Caught(Some(x)));
        },
        Ok(Unwound::Uncaught(trace)) => trace,
        Err(e) => {
            return Err(e);
        },
    };
    let ghost hx = heap@;
    let ghost names = trace@;
    let kv = alloc_of_kind(heap, kk, Data::Keyword(Keyword::new(string_from("value"))), None);
    let ks = alloc_of_kind(heap, kk, Data::Keyword(Keyword::new(string_from("stack_trace"))), None);
    let tv = alloc_of_kind(heap, vk, Data::PersistentVector(PersistentVector::from_vec(trace)), None);
    let ghost he = heap@;
    let first = PersistentMap::new().set(heap, kv, v);
    let error = first.set(heap, ks, tv);
    proof {
        reveal_strlit("value");
        reveal_strlit("stack_trace");
        assert(first@ =~= seq![(kv, v)]);
        let a = object_in(he, kv).value;
        let b = object_in(he, ks).value;
        assert(a matches Data::Keyword(x) && x.0@ == "value"@);
        assert(b matches Data::Keyword(y) && y.0@ == "stack_trace"@);
        assert("value"@[0] != "stack_trace"@[0]);
        assert(chars_order("value"@, "stack_trace"@) != Order::Equal);
        assert(!values_equal(he, kv, ks));
        assert(scan_pairs(he, first@, ks, 1) is None);
        assert(scan_pairs(he, first@, ks, 0) is None);
        assert(error@ =~= seq![(kv, v), (ks, tv)]);
    }
    let m = alloc_of_kind(heap, mk, Data::PersistentMap(error), None);
    proof {
        lemma_extends_trans(h0, hx, heap@);
        assert(names_trace(h0, heap@, thrown_through(s0.state@, s0.callable@).0, names)) by {
            let ended = thrown_through(s0.state@, s0.callable@).0;
            assert forall|i: int| 0 <= i < ended.len() implies match (#[trigger] object_in(h0, ended[i])).value {
                Data::Function(f) => match f.name {
                    Some(n) => names[i] == n,
                    None => names[i].ptr >= h0.len() && live_in(heap@, names[i]) && (object_in(heap@, names[i]).value matches Data::Symbol(x)
                        && x.0@ == "anonymous"@),
                },
                _ => false,
            } by {
                let g = names[i];
                if live_in(hx, g) {
                    assert(heap@[g.ptr as int] == hx[g.ptr as int]);
                }
            }
        }
    }
    Err(Fault::Uncaught(m))
}


/// What running the special form `kind` does to the heap and the stack, and gives.
pub open spec fn special_form_done(
    kind: SpecialFormKind,
    h_pre: Seq<Option<Object>>,
    h_post: Seq<Option<Object>>,
    s_pre: Stack,
    s_post: Stack,
    r: Result<(), Fault>,
) -> bool {
    match kind {
        SpecialFormKind::If => h_post == h_pre && if_special_form_done(h_pre, s_pre, s_post, r),
        SpecialFormKind::Def => h_post == h_pre && def_special_form_done(h_pre, s_pre, s_post, r),
        SpecialFormKind::Fn => fn_special_form_done(h_pre, h_post, s_pre, s_post, r),
        SpecialFormKind::Macro => macro_special_form_done(h_pre, h_post, s_pre, s_post, r),
        SpecialFormKind::Do => h_post == h_pre && do_special_form_done(h_pre, s_pre, s_post, r),
        SpecialFormKind::Quote => h_post == h_pre && quote_special_form_done(h_pre, s_pre, s_post, r),
        SpecialFormKind::Eval => h_post == h_pre && eval_special_form_done(h_pre, s_pre, s_post, r),
        SpecialFormKind::Read => read_special_form_done(h_pre, h_post, s_pre, s_post, r),
        SpecialFormKind::Expand => expand_special_form_done(h_pre, h_post, s_pre, s_post, r),
        SpecialFormKind::Throw => h_post == h_pre && throw_special_form_done(h_pre, s_pre, s_post, r),
        SpecialFormKind::Try => h_post == h_pre && try_special_form_done(h_pre, s_pre, s_post, r),
    }
}

/// Runs the special form `kind` on the arguments on top of the stack.
pub fn run_special_form(heap: &mut GcAllocator, stack: &mut Stack, kind: SpecialFormKind) -> (r: Result<(), Fault>)
    ensures
        special_form_done(kind, old(heap)@, final(heap)@, *old(stack), *final(stack), r),
{
    match kind {
        SpecialFormKind::If => if_special_form(heap, stack),
        SpecialFormKind::Def => def_special_form(heap, stack),
        SpecialFormKind::Fn => fn_special_form(heap, stack),
        SpecialFormKind::Macro => macro_special_form(heap, stack),
        SpecialFormKind::Do => do_special_form(heap, stack),
        SpecialFormKind::Quote => quote_special_form(heap, stack),
        SpecialFormKind::Eval => eval_special_form(heap, stack),
        SpecialFormKind::Read => read_special_form(heap, stack),
        SpecialFormKind::Expand => expand_special_form(heap, stack),
        SpecialFormKind::Throw => throw_special_form(heap, stack),
        SpecialFormKind::Try => try_special_form(heap, stack),
    }
}

/// What one step of the evaluator ended with.
pub enum StepResult {
    /// A step ran; more may follow.
    Ran,
    /// No step was left.
    Finished,
    /// A provided function of the embedding program is to be called.
    Host(HostCall),
}

/// Whether the stack `m` is `s` with its top step taken off.
pub open spec fn popped_state(s: Stack, m: Stack) -> bool {
    &&& m.value@ == s.value@
    &&& m.scope@ == s.scope@
    &&& m.callable@ == s.callable@
    &&& m.state@ == s.state@.drop_last()
}

/// The result of a step whose step function gave `x`.
pub open spec fn ran(x: Result<(), Fault>) -> Result<StepResult, Fault> {
    match x {
        Ok(()) => Ok(StepResult::Ran),
        Err(e) => Err(e),
    }
}

/// What the step function gave, for a step that ended with `r`.
pub open spec fn ran_of(r: Result<StepResult, Fault>) -> Result<(), Fault> {
    match r {
        Ok(_) => Ok(()),
        Err(e) => Err(e),
    }
}

/// The result of a step `CallFunction` whose step function gave `x`.
pub open spec fn called(x: Result<Option<HostCall>, Fault>) -> Result<StepResult, Fault> {
    match x {
        Ok(Some(c)) => Ok(StepResult::Host(c)),
        Ok(None) => Ok(StepResult::Ran),
        Err(e) => Err(e),
    }
}

/// What the step function of `CallFunction` gave, for a step that ended with `r`.
pub open spec fn called_of(r: Result<StepResult, Fault>) -> Result<Option<HostCall>, Fault> {
    match r {
        Ok(StepResult::Host(c)) => Ok(Some(c)),
        Ok(_) => Ok(None),
        Err(e) => Err(e),
    }
}

/// A step `Call` on the stack `m`: the call step leaves `h1`, `m1` and gives `x`; a
/// special form that it names then runs, leaving `h2` and `t`, and the step ends with `r`.
pub open spec fn call_then(
    h: Seq<Option<Object>>,
    m: Stack,
    evaluated: bool,
    h1: Seq<Option<Object>>,
    m1: Stack,
    x: Result<Option<SpecialFormKind>, Fault>,
    h2: Seq<Option<Object>>,
    t: Stack,
    r: Result<StepResult, Fault>,
) -> bool {
    &&& if evaluated {
        h1 == h && eval_call_evaluated_done(h, m, m1, x)
    } else {
        eval_call_done(h, h1, m, m1, x)
    }
    &&& match x {
        Ok(Some(kind)) => r == ran(ran_of(r)) && special_form_done(kind, h1, h2, m1, t, ran_of(r)),
        Ok(None) => r == Ok::<StepResult, Fault>(StepResult::Ran) && h2 == h1 && same_stack(t, m1),
        Err(e) => r == Err::<StepResult, Fault>(e) && h2 == h1 && same_stack(t, m1),
    }
}

/// What running the step `state` does to the heap `h` and the stack `m` (the step already
/// taken off it), leaving `h2` and `t`, and ending with `r`.
pub open spec fn step_from(
    h: Seq<Option<Object>>,
    m: Stack,
    state: EvalState,
    evaluated: bool,
    h2: Seq<Option<Object>>,
    t: Stack,
    r: Result<StepResult, Fault>,
) -> bool {
    match state {
        EvalState::Eval => r == ran(ran_of(r)) && if evaluated {
            eval_eval_evaluated_done(h, h2, m, t, ran_of(r))
        } else {
            eval_eval_done(h, h2, m, t, ran_of(r))
        },
        EvalState::EvalVec => if evaluated {
            r == Err::<StepResult, Fault>(Fault::InvalidState) && h2 == h && same_stack(t, m)
        } else {
            r == ran(ran_of(r)) && eval_eval_vec_done(h, h2, m, t, ran_of(r))
        },
        EvalState::EvalMap => if evaluated {
            r == Err::<StepResult, Fault>(Fault::InvalidState) && h2 == h && same_stack(t, m)
        } else {
            r == ran(ran_of(r)) && eval_eval_map_done(h, h2, m, t, ran_of(r))
        },
        EvalState::EvalMapKeyValue => if evaluated {
            r == Err::<StepResult, Fault>(Fault::InvalidState) && h2 == h && same_stack(t, m)
        } else {
            r == ran(ran_of(r)) && h2 == h && eval_eval_map_key_value_done(m, t, ran_of(r))
        },
        EvalState::Call => exists|h1: Seq<Option<Object>>, m1: Stack, x: Result<Option<SpecialFormKind>, Fault>|
            #[trigger] call_then(h, m, evaluated, h1, m1, x, h2, t, r),
        EvalState::CallFunction => r == called(called_of(r)) && eval_call_function_done(h, h2, m, t, called_of(r)),
        EvalState::PopValue => r == ran(ran_of(r)) && h2 == h && eval_pop_value_done(m, t, ran_of(r)),
        EvalState::PopScope => r == ran(ran_of(r)) && h2 == h && eval_pop_scope_done(m, t, ran_of(r)),
        EvalState::Throw => r == ran(ran_of(r)) && eval_throw_done(h, h2, m, t, ran_of(r)),
        EvalState::Catch => r == ran(ran_of(r)) && h2 == h && eval_catch_done(m, t, ran_of(r)),
        EvalState::If => r == ran(ran_of(r)) && h2 == h && eval_if_done(h, m, t, ran_of(r)),
        EvalState::Def => r == ran(ran_of(r)) && eval_def_done(h, h2, m, t, ran_of(r)),
        EvalState::Expand => r == ran(ran_of(r)) && eval_expand_done(h, h2, m, t, ran_of(r)),
    }
}

/// One step of the evaluator from the heap `h` and the stack `s`: with no step left it
/// finishes, changing nothing; else the step on top is taken off and run.
pub open spec fn step_done(
    h: Seq<Option<Object>>,
    s: Stack,
    evaluated: bool,
    h2: Seq<Option<Object>>,
    t: Stack,
    r: Result<StepResult, Fault>,
) -> bool {
    if s.state@.len() == 0 {
        r == Ok::<StepResult, Fault>(StepResult::Finished) && h2 == h && same_stack(t, s)
    } else {
        exists|m: Stack| popped_state(s, m) && #[trigger] step_from(h, m, s.state@.last(), evaluated, h2, t, r)
    }
}

/// Pops the step on top and runs it. With `evaluated`, values are taken as already
/// evaluated: a symbol is looked up, other values stand for themselves, and the steps
/// that evaluate the items of vectors and maps cannot occur.
pub fn step(heap: &mut GcAllocator, stack: &mut Stack, evaluated: bool) -> (r: Result<StepResult, Fault>)
    ensures
        step_done(old(heap)@, *old(stack), evaluated, final(heap)@, *final(stack), r),
        old(stack).state@.len() == 0 <==> r matches Ok(StepResult::Finished),
        r matches Ok(StepResult::Host(_)) ==> old(stack).state@.last() == EvalState::CallFunction,
{
    let ghost h0 = heap@;
    let state = match stack.state.pop() {
        Some(s) => s,
        None => {
            proof {
                assert(same_stack(*stack, *old(stack)));
            }
            return Ok(StepResult::Finished);
        },
    };
    let ghost m = *stack;
    assert(popped_state(*old(stack), m));
    let r = match state {
        EvalState::Eval => if evaluated {
            step_ran(eval_eval_evaluated(heap, stack))
        } else {
            step_ran(eval_eval(heap, stack))
        },
        EvalState::EvalVec => if evaluated {
            Err(Fault::InvalidState)
        } else {
            step_ran(eval_eval_vec(heap, stack))
        },
        EvalState::EvalMap => if evaluated {
            Err(Fault::InvalidState)
        } else {
            step_ran(eval_eval_map(heap, stack))
        },
        EvalState::EvalMapKeyValue => if evaluated {
            Err(Fault::InvalidState)
        } else {
            step_ran(eval_eval_map_key_value(stack))
        },
        EvalState::Call => {
            let form = if evaluated {
                eval_call_evaluated(heap, stack)
            } else {
                eval_call(heap, stack)
            };
            let ghost h1 = heap@;
            let ghost m1 = *stack;
            let ghost x = form;
            let rr = match form {
                Ok(Some(kind)) => step_ran(run_special_form(heap, stack, kind)),
                Ok(None) => Ok(StepResult::Ran),
                Err(e) => Err(e),
            };
            proof {
                assert(call_then(h0, m, evaluated, h1, m1, x, heap@, *stack, rr));
            }
            rr
        },
        EvalState::CallFunction => match eval_call_function(heap, stack) {
            Ok(Some(call)) => Ok(StepResult::Host(call)),
            Ok(None) => Ok(StepResult::Ran),
            Err(e) => Err(e),
        },
        EvalState::PopValue => step_ran(eval_pop_value(stack)),
        EvalState::PopScope => step_ran(eval_pop_scope(stack)),
        EvalState::Throw => step_ran(eval_throw(heap, stack)),
        EvalState::Catch => step_ran(eval_catch(stack)),
        EvalState::If => step_ran(eval_if(heap, stack)),
        EvalState::Def => step_ran(eval_def(heap, stack)),
        EvalState::Expand => step_ran(eval_expand(heap, stack)),
    };
    proof {
        assert(step_from(h0, m, state, evaluated, heap@, *stack, r));
    }
    r
}

/// The result of a step whose step function gave `x`.
fn step_ran(x: Result<(), Fault>) -> (r: Result<StepResult, Fault>)
    ensures
        r == ran(x),
{
    match x {
        Ok(()) => Ok(StepResult::Ran),
        Err(e) => Err(e),
    }
}

/// Whether `n` steps, each of which ran and asked for nothing, lead from the heap `h` and
/// the stack `s` to the heap `h2` and the stack `t`.
pub open spec fn runs(
    h: Seq<Option<Object>>,
    s: Stack,
    evaluated: bool,
    n: nat,
    h2: Seq<Option<Object>>,
    t: Stack,
) -> bool
    decreases n,
{
    if n == 0 {
        h2 == h && same_stack(t, s)
    } else {
        exists|hm: Seq<Option<Object>>, m: Stack|
            runs(h, s, evaluated, (n - 1) as nat, hm, m) && #[trigger] step_done(hm, m, evaluated, h2, t, Ok(StepResult::Ran))
    }
}

/// How running at most `fuel` steps from the heap `h` and the stack `s` ends, leaving
/// `h2` and `t`: with no step left (`Ok(None)`), at a call of a provided function of the
/// embedding program (`Ok(Some(..))`), at a fault of a step, or out of steps.
pub open spec fn steps_done(
    h: Seq<Option<Object>>,
    s: Stack,
    evaluated: bool,
    fuel: nat,
    h2: Seq<Option<Object>>,
    t: Stack,
    r: Result<Option<HostCall>, Fault>,
) -> bool {
    match r {
        Ok(None) => exists|n: nat, hm: Seq<Option<Object>>, m: Stack|
            n <= fuel && #[trigger] runs(h, s, evaluated, n, hm, m) && m.state@.len() == 0 && h2 == hm && same_stack(t, m),
        Ok(Some(c)) => exists|n: nat, hm: Seq<Option<Object>>, m: Stack|
            n < fuel && #[trigger] runs(h, s, evaluated, n, hm, m) && step_done(hm, m, evaluated, h2, t, Ok(StepResult::Host(c))),
        Err(e) => {
            ||| e == Fault::OutOfSteps && runs(h, s, evaluated, fuel, h2, t) && t.state@.len() > 0
            ||| exists|n: nat, hm: Seq<Option<Object>>, m: Stack|
                n < fuel && #[trigger] runs(h, s, evaluated, n, hm, m) && step_done(hm, m, evaluated, h2, t, Err(e))
        },
    }
}

/// Runs steps until none is left (`None`) or a provided function of the embedding
/// program is to be called (`Some`), at most `fuel` of them.
pub fn run_steps(heap: &mut GcAllocator, stack: &mut Stack, evaluated: bool, fuel: u64) -> (r: Result<Option<HostCall>, Fault>)
    ensures
        steps_done(old(heap)@, *old(stack), evaluated, fuel as nat, final(heap)@, *final(stack), r),
        r matches Ok(None) ==> final(stack).state@.len() == 0,
        old(stack).state@.len() == 0 ==> (r matches Ok(None) && same_stack(*final(stack), *old(stack)) && final(heap)@ == old(heap)@),
{
    let ghost h0 = heap@;
    let ghost s0 = *stack;
    assert(runs(h0, s0, evaluated, 0, heap@, *stack));
    if stack.state.len() == 0 {
        proof {
            assert(same_stack(*stack, *old(stack)));
            assert(runs(h0, s0, evaluated, 0, heap@, *stack));
        }
        return Ok(None);
    }
    let mut left = fuel;
    loop
        invariant
            old(stack).state@.len() > 0,
            h0 == old(heap)@,
            s0 == *old(stack),
            left <= fuel,
            runs(h0, s0, evaluated, (fuel - left) as nat, heap@, *stack),
        decreases left,
    {
        let ghost n = (fuel - left) as nat;
        if left == 0 {
            if stack.state.len() == 0 {
                return Ok(None);
            }
            return Err(Fault::OutOfSteps);
        }
        let ghost hm = heap@;
        let ghost m = *stack;
        left = left - 1;
        match step(heap, stack, evaluated) {
            Ok(StepResult::Finished) => {
                return Ok(None);
            },
            Ok(StepResult::Host(call)) => {
                proof {
                    assert(step_done(hm, m, evaluated, heap@, *stack, Ok(StepResult::Host(call))));
                }
                return Ok(Some(call));
            },
            Ok(StepResult::Ran) => {
                proof {
                    assert(step_done(hm, m, evaluated, heap@, *stack, Ok(StepResult::Ran)));
                    assert((fuel - left) as nat == n + 1);
                    assert(runs(h0, s0, evaluated, n + 1, heap@, *stack));
                }
            },
            Err(e) => {
                proof {
                    assert(step_done(hm, m, evaluated, heap@, *stack, Err(e)));
                }
                return Err(e);
            },
        }
    }
}

/// How an evaluation ended: with a scope and a value, or paused at a call of a provided
/// function of the embedding program, with the stack to resume from.
pub enum Evaluation {
    Done(Gc, Gc),
    Paused(Stack, HostCall),
}

/// How running at most `fuel` steps from the heap `h` and the stack `s`, then taking the
/// scope and the value on top, ends, leaving the heap `h2`.
pub open spec fn finish_done(
    h: Seq<Option<Object>>,
    s: Stack,
    evaluated: bool,
    fuel: nat,
    h2: Seq<Option<Object>>,
    r: Result<Evaluation, Fault>,
) -> bool {
    exists|t: Stack, x: Result<Option<HostCall>, Fault>|
        #[trigger] steps_done(h, s, evaluated, fuel, h2, t, x) && match x {
            Ok(None) => r == match popped_scope_and_value(t.value@, t.scope@).2 {
                Some((sc, v)) => Ok::<Evaluation, Fault>(Evaluation::Done(sc, v)),
                None => Err(Fault::StackUnderflow),
            },
            Ok(Some(c)) => r matches Ok(Evaluation::Paused(t2, c2)) && c2 == c && same_stack(t2, t),
            Err(e) => r == Err::<Evaluation, Fault>(e),
        }
}

/// Runs `stack` (for at most `fuel` steps) and takes the scope and value left on top.
fn finish(heap: &mut GcAllocator, stack: Stack, evaluated: bool, fuel: u64) -> (r: Result<Evaluation, Fault>)
    ensures
        finish_done(old(heap)@, stack, evaluated, fuel as nat, final(heap)@, r),
        stack.state@.len() == 0 ==> r == (match popped_scope_and_value(stack.value@, stack.scope@).2 {
            Some((sc, v)) => Ok::<Evaluation, Fault>(Evaluation::Done(sc, v)),
            None => Err(Fault::StackUnderflow),
        }),
{
    let ghost s0 = stack;
    let mut stack = stack;
    let x = run_steps(heap, &mut stack, evaluated, fuel);
    let ghost t = stack;
    let ghost gx = x;
    let r = match x {
        Ok(None) => match stack.pop_scope_and_value() {
            Some((sc, v)) => Ok(Evaluation::Done(sc, v)),
            None => Err(Fault::StackUnderflow),
        },
        Ok(Some(call)) => Ok(Evaluation::Paused(stack, call)),
        Err(e) => Err(e),
    };
    proof {
        assert(steps_done(old(heap)@, s0, evaluated, fuel as nat, heap@, t, gx));
    }
    r
}

/// The evaluator's stack bound to `__stack` in `scope`, with `scope` and `value` pushed and
/// the step `Eval` on top.
pub fn start(heap: &GcAllocator, scope: Gc, value: Gc) -> (r: Result<Stack, Fault>)
    ensures
        match value_result(heap@, scope, "__stack"@, Tag::Stack) {
            Ok(g) => r matches Ok(s) && started(heap@, g, scope, value, s),
            Err(e) => r == Err::<Stack, Fault>(e),
        },
{
    let mut stack = match get_stack(heap, scope) {
        Ok(s) => s,
        Err(e) => {
            return Err(e);
        },
    };
    stack.push_scope_and_value(scope, value);
    Ok(stack)
}

/// Whether `s` is the stack object `g` with `scope` and `value` pushed to be evaluated.
pub open spec fn started(h: Seq<Option<Object>>, g: Gc, scope: Gc, value: Gc, s: Stack) -> bool {
    object_in(h, g).value matches Data::Stack(t) && (s.value@, s.scope@, s.state@) == pushed_scope_and_value(
        t.value@,
        t.scope@,
        t.state@,
        scope,
        value,
    ) && s.callable@ == t.callable@
}

/// How evaluating `value` in `scope` from the heap `h`, for at most `fuel` steps, ends,
/// leaving the heap `h2`: it starts from the stack bound to `__stack`, or fails as the
/// lookup of that stack does.
pub open spec fn evaluation_done(
    h: Seq<Option<Object>>,
    scope: Gc,
    value: Gc,
    evaluated: bool,
    fuel: nat,
    h2: Seq<Option<Object>>,
    r: Result<Evaluation, Fault>,
) -> bool {
    match value_result(h, scope, "__stack"@, Tag::Stack) {
        Err(e) => r == Err::<Evaluation, Fault>(e),
        Ok(g) => exists|s: Stack| started(h, g, scope, value, s) && #[trigger] finish_done(h, s, evaluated, fuel, h2, r),
    }
}

/// Evaluates `value` in `scope`, taking values as already evaluated, for at most `fuel`
/// steps.
pub fn eval(heap: &mut GcAllocator, scope: Gc, value: Gc, fuel: u64) -> (r: Result<Evaluation, Fault>)
    ensures
        evaluation_done(old(heap)@, scope, value, true, fuel as nat, final(heap)@, r),
{
    let stack = match start(heap, scope, value) {
        Ok(s) => s,
        Err(e) => {
            return Err(e);
        },
    };
    let ghost s = stack;
    let r = finish(heap, stack, true, fuel);
    proof {
        assert(finish_done(old(heap)@, s, true, fuel as nat, heap@, r));
    }
    r
}

/// Evaluates `value` in `scope`, evaluating the items of vectors and maps, for at most
/// `fuel` steps.
pub fn eval_raw(heap: &mut GcAllocator, scope: Gc, value: Gc, fuel: u64) -> (r: Result<Evaluation, Fault>)
    ensures
        evaluation_done(old(heap)@, scope, value, false, fuel as nat, final(heap)@, r),
{
    let stack = match start(heap, scope, value) {
        Ok(s) => s,
        Err(e) => {
            return Err(e);
        },
    };
    let ghost s = stack;
    let r = finish(heap, stack, false, fuel);
    proof {
        assert(finish_done(old(heap)@, s, false, fuel as nat, heap@, r));
    }
    r
}

/// Resumes a paused evaluation with `value`, the result of the provided function it
/// paused at, for at most `fuel` more steps.
pub fn resume(heap: &mut GcAllocator, stack: Stack, value: Gc, evaluated: bool, fuel: u64) -> (r: Result<Evaluation, Fault>)
    ensures
        exists|s: Stack|
            s.value@ == stack.value@.push(value) && s.scope@ == stack.scope@ && s.callable@ == stack.callable@ && s.state@
                == stack.state@ && #[trigger] finish_done(old(heap)@, s, evaluated, fuel as nat, final(heap)@, r),
{
    let mut stack = stack;
    stack.value.push(value);
    let ghost s = stack;
    let r = finish(heap, stack, evaluated, fuel);
    proof {
        assert(finish_done(old(heap)@, s, evaluated, fuel as nat, heap@, r));
    }
    r
}

/// Reads the first value of `text` and evaluates it in `scope`, for at most `fuel` steps.
pub fn run(heap: &mut GcAllocator, scope: Gc, text: &str, fuel: u64) -> (r: Result<Evaluation, Fault>)
    ensures
        text@.len() + 3 > usize::MAX ==> r == Err::<Evaluation, Fault>(Fault::Overflow),
        text@.len() + 3 <= usize::MAX ==> match read_form(old(heap)@, scope, text@, (0int, 1int, 0int)) {
            Err(e) => r == Err::<Evaluation, Fault>(e),
            Ok((f, _)) => exists|h1: Seq<Option<Object>>, g: Gc|
                read_made(old(heap)@, h1) && holds_form(old(heap)@, scope, Seq::empty(), h1, g, f) && #[trigger] evaluation_done(
                    h1,
                    scope,
                    g,
                    false,
                    fuel as nat,
                    final(heap)@,
                    r,
                ),
        },
{
    let value = match read(heap, scope, text) {
        Ok(v) => v,
        Err(e) => {
            return Err(e);
        },
    };
    let ghost h1 = heap@;
    let r = eval_raw(heap, scope, value, fuel);
    proof {
        assert(evaluation_done(h1, scope, value, false, fuel as nat, heap@, r));
    }
    r
}

} // verus!
