use vstd::prelude::*;

use crate::fault::Fault;
use crate::gc_allocator::{object_in, GcAllocator};
use crate::object::{kind_named, kind_result, made_object, new_object_of_kind, string_from, Data};
use crate::context::nil_value;
use crate::gc::Gc;
use crate::function::Function;
use crate::function_kind::FunctionKind;
use crate::eval::{grew, holds_list, made};
use crate::gc_allocator::{extends, lemma_extends_trans, live_in};
use crate::handles::handles_after_first;
use crate::list::List;
use crate::value::{kind_eq, kinds_equal};
use crate::handles::copy_handles;
use crate::object::{alloc_of_kind, value_result, Object, Tag};
use crate::persistent_scope::{allocated, lemma_lookup_tag_extends};
use crate::stack::{same_stack, EvalState, Stack};
use crate::reader::{chars_of, holds_form, lemma_read_made_same, read_form, read_made, read_value, Reader};

verus! {

/// The forms that the evaluator treats before evaluating their arguments.
#[derive(PartialEq, Eq, Structural, Clone, Copy)]
pub enum SpecialFormKind {
    If,
    Def,
    Fn,
    Macro,
    Do,
    Quote,
    Eval,
    Read,
    Expand,
    Throw,
    Try,
}

/// A special form as a value.
#[derive(Clone, Copy)]
pub struct SpecialForm(pub SpecialFormKind);

impl SpecialForm {
    pub fn new(form: SpecialFormKind) -> (s: SpecialForm)
        ensures
            s.0 == form,
    {
        SpecialForm(form)
    }
}

/// The kind of special forms, bound to `SpecialForm` in `scope`.
pub fn special_form_kind(heap: &GcAllocator, scope: Gc) -> (r: Result<Gc, Fault>)
    ensures
        r == kind_result(heap@, scope, "SpecialForm"@),
{
    kind_named(heap, scope, "SpecialForm")
}

/// A new special form object holding `value`.
pub fn new_special_form(heap: &mut GcAllocator, scope: Gc, value: SpecialFormKind) -> (r: Result<Gc, Fault>)
    ensures
        made_object(old(heap)@, final(heap)@, r, scope, "SpecialForm"@, None),
        r matches Ok(g) ==> object_in(final(heap)@, g).value == Data::SpecialForm(SpecialForm(value)),
{
    new_object_of_kind(heap, scope, "SpecialForm", Data::SpecialForm(SpecialForm(value)), None)
}

/// The items of the object `g` when it is a vector, persistent or not.
pub open spec fn vector_items_of(h: Seq<Option<Object>>, g: Gc) -> Option<Seq<Gc>> {
    if !live_in(h, g) {
        None
    } else {
        match object_in(h, g).value {
            Data::PersistentVector(v) => Some(v@),
            Data::Vector(v) => Some(v@),
            _ => None,
        }
    }
}

/// The items of the object `g` when it is a vector, persistent or not.
pub fn vector_items(heap: &GcAllocator, g: Gc) -> (r: Option<Vec<Gc>>)
    ensures
        match vector_items_of(heap@, g) {
            Some(items) => r matches Some(v) && v@ == items,
            None => r is None,
        },
{
    match heap.data(g) {
        Some(Data::PersistentVector(v)) => Some(copy_handles(v.items_ref())),
        Some(Data::Vector(v)) => Some(copy_handles(v.items_ref())),
        _ => None,
    }
}

/// The arguments of a special form: the items of the vector on top of the values.
pub open spec fn args_on_top(h: Seq<Option<Object>>, s: Stack) -> Result<Seq<Gc>, Fault> {
    if s.value@.len() == 0 {
        Err(Fault::StackUnderflow)
    } else {
        match vector_items_of(h, s.value@.last()) {
            Some(items) => Ok(items),
            None => Err(Fault::WrongType),
        }
    }
}

/// `nil`, seen from the scope on top.
pub open spec fn nil_in(h: Seq<Option<Object>>, s: Stack) -> Result<Gc, Fault> {
    if s.scope@.len() == 0 {
        Err(Fault::StackUnderflow)
    } else {
        value_result(h, s.scope@.last(), "nil"@, Tag::Nil)
    }
}

/// Argument `i`, or `nil` when there is none.
pub open spec fn arg_or_nil(h: Seq<Option<Object>>, s: Stack, args: Seq<Gc>, i: int) -> Result<Gc, Fault> {
    if i < args.len() {
        Ok(args[i])
    } else {
        nil_in(h, s)
    }
}

/// The arguments on top of the values.
fn peek_args(heap: &GcAllocator, stack: &Stack) -> (r: Result<Vec<Gc>, Fault>)
    ensures
        match args_on_top(heap@, *stack) {
            Ok(items) => r matches Ok(v) && v@ == items,
            Err(e) => r matches Err(f) && f == e,
        },
{
    let n = stack.value.len();
    if n == 0 {
        return Err(Fault::StackUnderflow);
    }
    match vector_items(heap, stack.value[n - 1]) {
        Some(items) => Ok(items),
        None => Err(Fault::WrongType),
    }
}

/// Pops the value on top, which is there.
fn drop_top(stack: &mut Stack)
    requires
        old(stack).value@.len() > 0,
    ensures
        final(stack).value@ == old(stack).value@.drop_last(),
        final(stack).scope@ == old(stack).scope@,
        final(stack).callable@ == old(stack).callable@,
        final(stack).state@ == old(stack).state@,
{
    let _ = stack.value.pop();
}

/// `nil`, seen from the scope on top.
fn nil_on_top(heap: &GcAllocator, stack: &Stack) -> (r: Result<Gc, Fault>)
    ensures
        r == nil_in(heap@, *stack),
{
    let m = stack.scope.len();
    if m == 0 {
        return Err(Fault::StackUnderflow);
    }
    nil_value(heap, stack.scope[m - 1])
}

/// Argument `i`, or `nil` when there is none.
fn arg_or_nil_of(heap: &GcAllocator, stack: &Stack, args: &Vec<Gc>, i: usize) -> (r: Result<Gc, Fault>)
    ensures
        r == arg_or_nil(heap@, *stack, args@, i as int),
{
    if i < args.len() {
        Ok(args[i])
    } else {
        nil_on_top(heap, stack)
    }
}

/// How `if_special_form` leaves the stack, reading the heap, and what it gives.
pub open spec fn if_special_form_done(h_pre: Seq<Option<Object>>, s_pre: Stack, s_post: Stack, r: Result<(), Fault>) -> bool {
    &&& r is Err ==> same_stack(s_post, s_pre)
    &&& s_post.scope@ == s_pre.scope@
    &&& s_post.callable@ == s_pre.callable@
    &&& match args_on_top(h_pre, s_pre) {
        Err(e) => r == Err::<(), Fault>(e),
        Ok(args) => if args.len() < 2 {
            r == Err::<(), Fault>(Fault::MissingArgument)
        } else {
            match arg_or_nil(h_pre, s_pre, args, 2) {
                Err(e) => r == Err::<(), Fault>(e),
                Ok(otherwise) => {
                    &&& r is Ok
                    &&& s_post.value@ == s_pre.value@.drop_last().push(otherwise).push(args[1]).push(args[0])
                    &&& s_post.state@ == s_pre.state@.push(EvalState::If).push(EvalState::Eval)
                },
            }
        },
    }
}

/// `if`: evaluates its condition, then, by step `If`, its second argument when the
/// condition is true and its third (or `nil`) otherwise.
pub fn if_special_form(heap: &GcAllocator, stack: &mut Stack) -> (r: Result<(), Fault>)
    ensures
        if_special_form_done(heap@, *old(stack), *final(stack), r),
{
    let args = match peek_args(heap, stack) {
        Ok(a) => a,
        Err(e) => {
            return Err(e);
        },
    };
    if args.len() < 2 {
        return Err(Fault::MissingArgument);
    }
    let otherwise = match arg_or_nil_of(heap, stack, &args, 2) {
        Ok(v) => v,
        Err(e) => {
            return Err(e);
        },
    };
    drop_top(stack);
    stack.state.push(EvalState::If);
    stack.value.push(otherwise);
    stack.value.push(args[1]);
    stack.value.push(args[0]);
    stack.state.push(EvalState::Eval);
    Ok(())
}

/// How `def_special_form` leaves the stack, reading the heap, and what it gives.
pub open spec fn def_special_form_done(h_pre: Seq<Option<Object>>, s_pre: Stack, s_post: Stack, r: Result<(), Fault>) -> bool {
    &&& r is Err ==> same_stack(s_post, s_pre)
    &&& s_post.scope@ == s_pre.scope@
    &&& s_post.callable@ == s_pre.callable@
    &&& match args_on_top(h_pre, s_pre) {
        Err(e) => r == Err::<(), Fault>(e),
        Ok(args) => if args.len() < 2 {
            r == Err::<(), Fault>(Fault::MissingArgument)
        } else {
            match nil_in(h_pre, s_pre) {
                Err(e) => r == Err::<(), Fault>(e),
                Ok(nil) => {
                    &&& r is Ok
                    &&& s_post.value@ == s_pre.value@.drop_last().push(nil).push(args[0]).push(args[1])
                    &&& s_post.state@ == s_pre.state@.push(EvalState::Def).push(EvalState::Eval)
                },
            }
        },
    }
}

/// `def`: evaluates its second argument, then binds its first to it by step `Def`; the
/// form itself gives `nil`.
pub fn def_special_form(heap: &GcAllocator, stack: &mut Stack) -> (r: Result<(), Fault>)
    ensures
        def_special_form_done(heap@, *old(stack), *final(stack), r),
{
    let args = match peek_args(heap, stack) {
        Ok(a) => a,
        Err(e) => {
            return Err(e);
        },
    };
    if args.len() < 2 {
        return Err(Fault::MissingArgument);
    }
    let nil = match nil_on_top(heap, stack) {
        Ok(v) => v,
        Err(e) => {
            return Err(e);
        },
    };
    drop_top(stack);
    stack.value.push(nil);
    stack.value.push(args[0]);
    stack.value.push(args[1]);
    stack.state.push(EvalState::Def);
    stack.state.push(EvalState::Eval);
    Ok(())
}

/// Whether `g` refers to a symbol.
pub open spec fn is_symbol_at(h: Seq<Option<Object>>, g: Gc) -> bool {
    live_in(h, g) && object_in(h, g).value is Symbol
}

/// The name, parameters and body of a function written as `(fn name [params] body)` or
/// `(fn [params] body)`.
pub open spec fn function_parts(h: Seq<Option<Object>>, args: Seq<Gc>) -> Result<(Option<Gc>, Gc, Gc), Fault> {
    if args.len() < 1 {
        Err(Fault::MissingArgument)
    } else if is_symbol_at(h, args[0]) {
        if args.len() < 2 {
            Err(Fault::MissingArgument)
        } else if vector_items_of(h, args[1]) is None {
            Err(Fault::WrongType)
        } else if args.len() < 3 {
            Err(Fault::MissingArgument)
        } else {
            Ok((Some(args[0]), args[1], args[2]))
        }
    } else if vector_items_of(h, args[0]) is Some {
        if args.len() < 2 {
            Err(Fault::MissingArgument)
        } else {
            Ok((None, args[0], args[1]))
        }
    } else {
        Err(Fault::WrongType)
    }
}

/// The name, parameters and body of a function written with the arguments `args`.
pub fn build_function(heap: &GcAllocator, args: &Vec<Gc>) -> (r: Result<(Option<Gc>, Gc, Gc), Fault>)
    ensures
        r == function_parts(heap@, args@),
{
    if args.len() < 1 {
        return Err(Fault::MissingArgument);
    }
    let first = args[0];
    let is_symbol = match heap.data(first) {
        Some(Data::Symbol(_)) => true,
        _ => false,
    };
    if is_symbol {
        if args.len() < 2 {
            return Err(Fault::MissingArgument);
        }
        if vector_items(heap, args[1]).is_none() {
            return Err(Fault::WrongType);
        }
        if args.len() < 3 {
            return Err(Fault::MissingArgument);
        }
        Ok((Some(first), args[1], args[2]))
    } else if vector_items(heap, first).is_some() {
        if args.len() < 2 {
            return Err(Fault::MissingArgument);
        }
        Ok((None, first, args[1]))
    } else {
        Err(Fault::WrongType)
    }
}

/// `fn` or `macro`: a new function, or macro, of the kind bound to `kind_name` in the scope
/// on top, made in that scope.
fn make_function(heap: &mut GcAllocator, stack: &mut Stack, kind_name: &str) -> (r: Result<(), Fault>)
    ensures
        r is Err ==> same_stack(*final(stack), *old(stack)) && final(heap)@ == old(heap)@,
        final(stack).scope@ == old(stack).scope@,
        final(stack).callable@ == old(stack).callable@,
        final(stack).state@ == old(stack).state@,
        match args_on_top(old(heap)@, *old(stack)) {
            Err(e) => r == Err::<(), Fault>(e),
            Ok(args) => match function_parts(old(heap)@, args) {
                Err(e) => r == Err::<(), Fault>(e),
                Ok((name, params, body)) => if old(stack).scope@.len() == 0 {
                    r == Err::<(), Fault>(Fault::StackUnderflow)
                } else {
                    let scope = old(stack).scope@.last();
                    match kind_result(old(heap)@, scope, kind_name@) {
                        Err(e) => r == Err::<(), Fault>(e),
                        Ok(k) => {
                            let f = Gc { ptr: old(heap)@.len() as usize };
                            &&& r is Ok
                            &&& allocated(old(heap)@, final(heap)@, f, k, None)
                            &&& object_in(final(heap)@, f).value == Data::Function(
                                Function::new_spec(name, scope, params, FunctionKind::Internal(body)),
                            )
                            &&& final(stack).value@ == old(stack).value@.drop_last().push(f)
                        },
                    }
                },
            },
        },
{
    let args = match peek_args(heap, stack) {
        Ok(a) => a,
        Err(e) => {
            return Err(e);
        },
    };
    let (name, params, body) = match build_function(heap, &args) {
        Ok(p) => p,
        Err(e) => {
            return Err(e);
        },
    };
    let m = stack.scope.len();
    if m == 0 {
        return Err(Fault::StackUnderflow);
    }
    let scope = stack.scope[m - 1];
    let k = match kind_named(heap, scope, kind_name) {
        Ok(k) => k,
        Err(e) => {
            return Err(e);
        },
    };
    let f = alloc_of_kind(heap, k, Data::Function(Function::new(name, scope, params, body)), None);
    drop_top(stack);
    stack.value.push(f);
    Ok(())
}

/// How `fn_special_form` leaves the heap and the stack, and what it gives.
pub open spec fn fn_special_form_done(h_pre: Seq<Option<Object>>, h_post: Seq<Option<Object>>, s_pre: Stack, s_post: Stack, r: Result<(), Fault>) -> bool {
    &&& r is Err ==> same_stack(s_post, s_pre) && h_post == h_pre
    &&& s_post.scope@ == s_pre.scope@
    &&& s_post.callable@ == s_pre.callable@
    &&& s_post.state@ == s_pre.state@
    &&& match args_on_top(h_pre, s_pre) {
        Err(e) => r == Err::<(), Fault>(e),
        Ok(args) => match function_parts(h_pre, args) {
            Err(e) => r == Err::<(), Fault>(e),
            Ok((name, params, body)) => if s_pre.scope@.len() == 0 {
                r == Err::<(), Fault>(Fault::StackUnderflow)
            } else {
                let scope = s_pre.scope@.last();
                match kind_result(h_pre, scope, "Function"@) {
                    Err(e) => r == Err::<(), Fault>(e),
                    Ok(k) => {
                        let f = Gc { ptr: h_pre.len() as usize };
                        &&& r is Ok
                        &&& allocated(h_pre, h_post, f, k, None)
                        &&& object_in(h_post, f).value == Data::Function(
                            Function::new_spec(name, scope, params, FunctionKind::Internal(body)),
                        )
                        &&& s_post.value@ == s_pre.value@.drop_last().push(f)
                    },
                }
            },
        },
    }
}

/// `fn`: a new function made in the scope on top.
pub fn fn_special_form(heap: &mut GcAllocator, stack: &mut Stack) -> (r: Result<(), Fault>)
    ensures
        fn_special_form_done(old(heap)@, final(heap)@, *old(stack), *final(stack), r),
{
    make_function(heap, stack, "Function")
}

/// How `macro_special_form` leaves the heap and the stack, and what it gives.
pub open spec fn macro_special_form_done(h_pre: Seq<Option<Object>>, h_post: Seq<Option<Object>>, s_pre: Stack, s_post: Stack, r: Result<(), Fault>) -> bool {
    &&& r is Err ==> same_stack(s_post, s_pre) && h_post == h_pre
    &&& s_post.scope@ == s_pre.scope@
    &&& s_post.callable@ == s_pre.callable@
    &&& s_post.state@ == s_pre.state@
    &&& match args_on_top(h_pre, s_pre) {
        Err(e) => r == Err::<(), Fault>(e),
        Ok(args) => match function_parts(h_pre, args) {
            Err(e) => r == Err::<(), Fault>(e),
            Ok((name, params, body)) => if s_pre.scope@.len() == 0 {
                r == Err::<(), Fault>(Fault::StackUnderflow)
            } else {
                let scope = s_pre.scope@.last();
                match kind_result(h_pre, scope, "Macro"@) {
                    Err(e) => r == Err::<(), Fault>(e),
                    Ok(k) => {
                        let f = Gc { ptr: h_pre.len() as usize };
                        &&& r is Ok
                        &&& allocated(h_pre, h_post, f, k, None)
                        &&& object_in(h_post, f).value == Data::Function(
                            Function::new_spec(name, scope, params, FunctionKind::Internal(body)),
                        )
                        &&& s_post.value@ == s_pre.value@.drop_last().push(f)
                    },
                }
            },
        },
    }
}

/// `macro`: a new macro made in the scope on top.
pub fn macro_special_form(heap: &mut GcAllocator, stack: &mut Stack) -> (r: Result<(), Fault>)
    ensures
        macro_special_form_done(old(heap)@, final(heap)@, *old(stack), *final(stack), r),
{
    make_function(heap, stack, "Macro")
}

/// The steps that `do` pushes for `n` forms: `Eval` for each, with `PopValue` between
/// two, so that only the value of the last form stays.
pub open spec fn do_states(n: nat) -> Seq<EvalState>
    decreases n,
{
    if n == 0 {
        Seq::empty()
    } else if n == 1 {
        seq![EvalState::Eval]
    } else {
        do_states((n - 1) as nat).push(EvalState::PopValue).push(EvalState::Eval)
    }
}

/// The items of `s` from last to first.
pub open spec fn reversed(s: Seq<Gc>) -> Seq<Gc> {
    Seq::new(s.len(), |i: int| s[s.len() - 1 - i])
}

/// How `do_special_form` leaves the stack, reading the heap, and what it gives.
pub open spec fn do_special_form_done(h_pre: Seq<Option<Object>>, s_pre: Stack, s_post: Stack, r: Result<(), Fault>) -> bool {
    &&& r is Err ==> same_stack(s_post, s_pre)
    &&& s_post.scope@ == s_pre.scope@
    &&& s_post.callable@ == s_pre.callable@
    &&& match args_on_top(h_pre, s_pre) {
        Err(e) => r == Err::<(), Fault>(e),
        Ok(args) => {
            &&& r is Ok
            &&& s_post.value@ == s_pre.value@.drop_last() + reversed(args)
            &&& s_post.state@ == s_pre.state@ + do_states(args.len())
        },
    }
}

/// `do`: evaluates its arguments in order and gives the value of the last; with no
/// argument it leaves no value.
pub fn do_special_form(heap: &GcAllocator, stack: &mut Stack) -> (r: Result<(), Fault>)
    ensures
        do_special_form_done(heap@, *old(stack), *final(stack), r),
{
    let args = match peek_args(heap, stack) {
        Ok(a) => a,
        Err(e) => {
            return Err(e);
        },
    };
    drop_top(stack);
    let ghost values0 = stack.value@;
    let ghost states0 = stack.state@;
    let n = args.len();
    let mut i: usize = n;
    while i > 0
        invariant
            i <= n,
            n == args@.len(),
            stack.value@ == values0 + reversed(args@.subrange(i as int, n as int)),
            stack.state@ == states0 + do_states((n - i) as nat),
            stack.scope@ == old(stack).scope@,
            stack.callable@ == old(stack).callable@,
        decreases i,
    {
        i = i - 1;
        if i + 1 < n {
            stack.state.push(EvalState::PopValue);
        }
        stack.state.push(EvalState::Eval);
        stack.value.push(args[i]);
        proof {
            assert(reversed(args@.subrange(i as int, n as int)) =~= reversed(args@.subrange(i + 1, n as int)).push(args@[i as int]));
            if i + 1 < n {
                assert(do_states((n - i) as nat) == do_states((n - i - 1) as nat).push(EvalState::PopValue).push(EvalState::Eval));
            } else {
                assert(do_states((n - i) as nat) =~= seq![EvalState::Eval]);
            }
            assert(stack.state@ =~= states0 + do_states((n - i) as nat));
            assert(stack.value@ =~= values0 + reversed(args@.subrange(i as int, n as int)));
        }
    }
    proof {
        assert(args@.subrange(0, n as int) =~= args@);
    }
    Ok(())
}

/// How `quote_special_form` leaves the stack, reading the heap, and what it gives.
pub open spec fn quote_special_form_done(h_pre: Seq<Option<Object>>, s_pre: Stack, s_post: Stack, r: Result<(), Fault>) -> bool {
    &&& r is Err ==> same_stack(s_post, s_pre)
    &&& s_post.scope@ == s_pre.scope@
    &&& s_post.callable@ == s_pre.callable@
    &&& s_post.state@ == s_pre.state@
    &&& match args_on_top(h_pre, s_pre) {
        Err(e) => r == Err::<(), Fault>(e),
        Ok(args) => r is Ok && s_post.value@ == if args.len() > 0 {
            s_pre.value@.drop_last().push(args[0])
        } else {
            s_pre.value@.drop_last()
        },
    }
}

/// `quote`: gives its first argument without evaluating it; with no argument it leaves
/// no value.
pub fn quote_special_form(heap: &GcAllocator, stack: &mut Stack) -> (r: Result<(), Fault>)
    ensures
        quote_special_form_done(heap@, *old(stack), *final(stack), r),
{
    let args = match peek_args(heap, stack) {
        Ok(a) => a,
        Err(e) => {
            return Err(e);
        },
    };
    drop_top(stack);
    if args.len() > 0 {
        stack.value.push(args[0]);
    }
    Ok(())
}

/// How `read_special_form` leaves the heap and the stack, and what it gives.
pub open spec fn read_special_form_done(h_pre: Seq<Option<Object>>, h_post: Seq<Option<Object>>, s_pre: Stack, s_post: Stack, r: Result<(), Fault>) -> bool {
    &&& read_made(h_pre, h_post)
    &&& r is Err ==> same_stack(s_post, s_pre)
    &&& s_post.scope@ == s_pre.scope@
    &&& s_post.callable@ == s_pre.callable@
    &&& s_post.state@ == s_pre.state@
    &&& ({
        let h = h_pre;
        let s = s_pre;
        let t = s_post;
        match args_on_top(h, s) {
            Err(e) => r == Err::<(), Fault>(e),
            Ok(args) => if args.len() == 0 {
                match nil_in(h, s) {
                    Err(e) => r == Err::<(), Fault>(e),
                    Ok(n) => r is Ok && t.value@ == s.value@.drop_last().push(n),
                }
            } else if !(live_in(h, args[0]) && object_in(h, args[0]).value is Str) {
                r == Err::<(), Fault>(Fault::WrongType)
            } else if s.scope@.len() == 0 {
                r == Err::<(), Fault>(Fault::StackUnderflow)
            } else {
                let text = object_in(h, args[0]).value->Str_0@;
                if text.len() + 3 > usize::MAX {
                    r == Err::<(), Fault>(Fault::Overflow)
                } else {
                    match read_form(h, s.scope@.last(), text, (0int, 1int, 0int)) {
                        Err(e) => r == Err::<(), Fault>(e),
                        Ok((f, _)) => {
                            &&& r is Ok
                            &&& t.value@.len() == s.value@.len()
                            &&& t.value@.drop_last() == s.value@.drop_last()
                            &&& holds_form(h, s.scope@.last(), Seq::empty(), h_post, t.value@.last(), f)
                        },
                    }
                }
            }
        }
    })
}

/// `read`: reads the first value of its first argument, a string, with the kinds bound
/// in the scope on top; with no argument it gives `nil`.
pub fn read_special_form(heap: &mut GcAllocator, stack: &mut Stack) -> (r: Result<(), Fault>)
    ensures
        read_special_form_done(old(heap)@, final(heap)@, *old(stack), *final(stack), r),
{
    proof {
        lemma_read_made_same(heap@);
    }
    let args = match peek_args(heap, stack) {
        Ok(a) => a,
        Err(e) => {
            return Err(e);
        },
    };
    if args.len() == 0 {
        let n = match nil_on_top(heap, stack) {
            Ok(n) => n,
            Err(e) => {
                return Err(e);
            },
        };
        drop_top(stack);
        stack.value.push(n);
        return Ok(());
    }
    let chars = match heap.data(args[0]) {
        Some(Data::Str(text)) => chars_of(text.as_str()),
        _ => {
            return Err(Fault::WrongType);
        },
    };
    let m = stack.scope.len();
    if m == 0 {
        return Err(Fault::StackUnderflow);
    }
    let scope = stack.scope[m - 1];
    if chars.len() > usize::MAX - 3 {
        return Err(Fault::Overflow);
    }
    let mut reader = Reader::new(None, chars);
    let value = match read_value(heap, scope, &mut reader) {
        Ok(g) => g,
        Err(e) => {
            return Err(e);
        },
    };
    drop_top(stack);
    stack.value.push(value);
    proof {
        assert(stack.value@.drop_last() =~= old(stack).value@.drop_last());
    }
    Ok(())
}

/// How `eval_special_form` leaves the stack, reading the heap, and what it gives.
pub open spec fn eval_special_form_done(h_pre: Seq<Option<Object>>, s_pre: Stack, s_post: Stack, r: Result<(), Fault>) -> bool {
    &&& r is Err ==> same_stack(s_post, s_pre)
    &&& s_post.scope@ == s_pre.scope@
    &&& s_post.callable@ == s_pre.callable@
    &&& match args_on_top(h_pre, s_pre) {
        Err(e) => r == Err::<(), Fault>(e),
        Ok(args) => r is Ok && if args.len() > 0 {
            s_post.value@ == s_pre.value@.drop_last().push(args[0])
                && s_post.state@ == s_pre.state@.push(EvalState::Eval)
        } else {
            s_post.value@ == s_pre.value@.drop_last() && s_post.state@ == s_pre.state@
        },
    }
}

/// `eval`: evaluates the value of its first argument; with no argument it leaves no
/// value.
pub fn eval_special_form(heap: &GcAllocator, stack: &mut Stack) -> (r: Result<(), Fault>)
    ensures
        eval_special_form_done(heap@, *old(stack), *final(stack), r),
{
    let args = match peek_args(heap, stack) {
        Ok(a) => a,
        Err(e) => {
            return Err(e);
        },
    };
    drop_top(stack);
    if args.len() > 0 {
        stack.value.push(args[0]);
        stack.state.push(EvalState::Eval);
    }
    Ok(())
}

/// How `throw_special_form` leaves the stack, reading the heap, and what it gives.
pub open spec fn throw_special_form_done(h_pre: Seq<Option<Object>>, s_pre: Stack, s_post: Stack, r: Result<(), Fault>) -> bool {
    &&& r is Err ==> same_stack(s_post, s_pre)
    &&& s_post.scope@ == s_pre.scope@
    &&& s_post.callable@ == s_pre.callable@
    &&& match args_on_top(h_pre, s_pre) {
        Err(e) => r == Err::<(), Fault>(e),
        Ok(args) => match arg_or_nil(h_pre, s_pre, args, 0) {
            Err(e) => r == Err::<(), Fault>(e),
            Ok(v) => {
                &&& r is Ok
                &&& s_post.value@ == s_pre.value@.drop_last().push(v)
                &&& s_post.state@ == s_pre.state@.push(EvalState::Throw).push(EvalState::Eval)
            },
        },
    }
}

/// `throw`: evaluates its first argument (or `nil`), then throws it by step `Throw`.
pub fn throw_special_form(heap: &GcAllocator, stack: &mut Stack) -> (r: Result<(), Fault>)
    ensures
        throw_special_form_done(heap@, *old(stack), *final(stack), r),
{
    let args = match peek_args(heap, stack) {
        Ok(a) => a,
        Err(e) => {
            return Err(e);
        },
    };
    let v = match arg_or_nil_of(heap, stack, &args, 0) {
        Ok(v) => v,
        Err(e) => {
            return Err(e);
        },
    };
    drop_top(stack);
    stack.state.push(EvalState::Throw);
    stack.state.push(EvalState::Eval);
    stack.value.push(v);
    Ok(())
}

/// How `try_special_form` leaves the stack, reading the heap, and what it gives.
pub open spec fn try_special_form_done(h_pre: Seq<Option<Object>>, s_pre: Stack, s_post: Stack, r: Result<(), Fault>) -> bool {
    &&& r is Err ==> same_stack(s_post, s_pre)
    &&& s_post.scope@ == s_pre.scope@
    &&& s_post.callable@ == s_pre.callable@
    &&& match args_on_top(h_pre, s_pre) {
        Err(e) => r == Err::<(), Fault>(e),
        Ok(args) => match (arg_or_nil(h_pre, s_pre, args, 0), arg_or_nil(h_pre, s_pre, args, 1)) {
            (Ok(block), Ok(handler)) => {
                &&& r is Ok
                &&& s_post.value@ == s_pre.value@.drop_last().push(handler).push(block)
                &&& s_post.state@ == s_pre.state@.push(EvalState::Catch).push(EvalState::Eval)
            },
            (Err(e), _) => r == Err::<(), Fault>(e),
            (_, Err(e)) => r == Err::<(), Fault>(e),
        },
    }
}

/// `try`: evaluates its first argument (or `nil`), with its second (or `nil`) kept as
/// the handler that step `Catch` finds.
pub fn try_special_form(heap: &GcAllocator, stack: &mut Stack) -> (r: Result<(), Fault>)
    ensures
        try_special_form_done(heap@, *old(stack), *final(stack), r),
{
    let args = match peek_args(heap, stack) {
        Ok(a) => a,
        Err(e) => {
            return Err(e);
        },
    };
    let block = match arg_or_nil_of(heap, stack, &args, 0) {
        Ok(v) => v,
        Err(e) => {
            return Err(e);
        },
    };
    let handler = match arg_or_nil_of(heap, stack, &args, 1) {
        Ok(v) => v,
        Err(e) => {
            return Err(e);
        },
    };
    drop_top(stack);
    stack.state.push(EvalState::Catch);
    stack.value.push(handler);
    stack.state.push(EvalState::Eval);
    stack.value.push(block);
    Ok(())
}

/// The items of the object `g` when it is a list, persistent or not.
pub open spec fn list_items_of(h: Seq<Option<Object>>, g: Gc) -> Option<Seq<Gc>> {
    if !live_in(h, g) {
        None
    } else {
        match object_in(h, g).value {
            Data::PersistentList(l) => Some(l@),
            Data::List(l) => Some(l@),
            _ => None,
        }
    }
}

/// The items of the object `g` when it is a list, persistent or not.
pub fn list_items(heap: &GcAllocator, g: Gc) -> (r: Option<Vec<Gc>>)
    ensures
        match list_items_of(heap@, g) {
            Some(items) => r matches Some(v) && v@ == items,
            None => r is None,
        },
{
    match heap.data(g) {
        Some(Data::PersistentList(l)) => Some(copy_handles(l.items_ref())),
        Some(Data::List(l)) => Some(copy_handles(l.items_ref())),
        _ => None,
    }
}

/// Whether the object `g` is of the kind `k` (compared by name, size and alignment).
pub open spec fn of_kind(h: Seq<Option<Object>>, g: Gc, k: Gc) -> bool {
    kind_eq(h, object_in(h, g).kind, k)
}

/// Why starting the expansion of `items` in `scope` fails, if it does: the kind of lists
/// must be bound; when there are items, so must the kind of escapes be, and the first item
/// must refer to an object, an escape when it is of that kind.
pub open spec fn expansion_fault(h: Seq<Option<Object>>, items: Seq<Gc>, scope: Gc) -> Option<Fault> {
    match kind_result(h, scope, "List"@) {
        Err(e) => Some(e),
        Ok(lk) => if items.len() == 0 {
            None
        } else {
            match kind_result(h, scope, "Escape"@) {
                Err(e) => Some(e),
                Ok(ek) => if !live_in(h, items[0]) {
                    Some(Fault::WrongType)
                } else if of_kind(h, items[0], ek) && !(object_in(h, items[0]).value is Escape) {
                    Some(Fault::WrongType)
                } else {
                    None
                },
            }
        },
    }
}

/// Whether the heap `h2` and the stacks `values2` and `states2` are what starting the
/// expansion of `items` in `scope` makes of `h`, `values` and `states`: a list of the items
/// left and an empty list of the items expanded are pushed, then the first item, or the
/// value of an escape to be evaluated; with no item, only an empty list is pushed.
pub open spec fn expansion_started(
    h: Seq<Option<Object>>,
    h2: Seq<Option<Object>>,
    values: Seq<Gc>,
    states: Seq<EvalState>,
    values2: Seq<Gc>,
    states2: Seq<EvalState>,
    items: Seq<Gc>,
    scope: Gc,
) -> bool {
    let lk = kind_result(h, scope, "List"@)->Ok_0;
    if items.len() == 0 {
        &&& grew(h, h2, 1)
        &&& holds_list(h2, made(h, 0), lk, Seq::<Gc>::empty())
        &&& values2 == values.push(made(h, 0))
        &&& states2 == states
    } else {
        let ek = kind_result(h, scope, "Escape"@)->Ok_0;
        let first = items[0];
        &&& grew(h, h2, 2)
        &&& holds_list(h2, made(h, 0), lk, items.drop_first())
        &&& holds_list(h2, made(h, 1), lk, Seq::<Gc>::empty())
        &&& if of_kind(h, first, ek) {
            &&& values2 == values.push(made(h, 0)).push(made(h, 1)).push(object_in(h, first).value->Escape_0.0)
            &&& states2 == states.push(EvalState::Expand).push(EvalState::Eval)
        } else {
            &&& values2 == values.push(made(h, 0)).push(made(h, 1)).push(first)
            &&& states2 == states.push(EvalState::Expand)
        }
    }
}

/// Why starting the expansion of `items` in `scope` fails, if it does.
pub(crate) fn check_expansion(heap: &GcAllocator, items: &Vec<Gc>, scope: Gc) -> (r: Option<Fault>)
    ensures
        r == expansion_fault(heap@, items@, scope),
{
    if let Err(e) = kind_named(heap, scope, "List") {
        return Some(e);
    }
    if items.len() == 0 {
        return None;
    }
    let ek = match kind_named(heap, scope, "Escape") {
        Ok(k) => k,
        Err(e) => {
            return Some(e);
        },
    };
    let first = items[0];
    match heap.get(first) {
        Some(o) => if kinds_equal(heap, o.kind, ek) {
            match &o.value {
                Data::Escape(_) => None,
                _ => Some(Fault::WrongType),
            }
        } else {
            None
        },
        None => Some(Fault::WrongType),
    }
}

/// Starts the expansion of `items` in `scope`.
pub(crate) fn start_expansion(heap: &mut GcAllocator, stack: &mut Stack, items: &Vec<Gc>, scope: Gc)
    requires
        expansion_fault(old(heap)@, items@, scope) is None,
    ensures
        expansion_started(old(heap)@, final(heap)@, old(stack).value@, old(stack).state@, final(stack).value@,
            final(stack).state@, items@, scope),
        final(stack).scope@ == old(stack).scope@,
        final(stack).callable@ == old(stack).callable@,
{
    let lk = match kind_named(heap, scope, "List") {
        Ok(k) => k,
        Err(_) => {
            return;
        },
    };
    if items.len() == 0 {
        let g = alloc_of_kind(heap, lk, Data::List(List::new()), None);
        stack.value.push(g);
        return;
    }
    let ek = match kind_named(heap, scope, "Escape") {
        Ok(k) => k,
        Err(_) => {
            return;
        },
    };
    let first = items[0];
    let (escaped, inner) = match heap.get(first) {
        Some(o) => if kinds_equal(heap, o.kind, ek) {
            match &o.value {
                Data::Escape(e) => (true, e.0),
                _ => (false, first),
            }
        } else {
            (false, first)
        },
        None => (false, first),
    };
    let ghost h0 = heap@;
    let a = alloc_of_kind(heap, lk, Data::List(List::from_vec(handles_after_first(items))), None);
    let ghost h1 = heap@;
    let b = alloc_of_kind(heap, lk, Data::List(List::new()), None);
    proof {
        assert(heap@[a.ptr as int] == h1[a.ptr as int]);
        lemma_extends_trans(h0, h1, heap@);
    }
    stack.state.push(EvalState::Expand);
    stack.value.push(a);
    stack.value.push(b);
    if escaped {
        stack.state.push(EvalState::Eval);
        stack.value.push(inner);
    } else {
        stack.value.push(first);
    }
}

/// How `expand_special_form` leaves the heap and the stack, and what it gives.
pub open spec fn expand_special_form_done(h_pre: Seq<Option<Object>>, h_post: Seq<Option<Object>>, s_pre: Stack, s_post: Stack, r: Result<(), Fault>) -> bool {
    &&& r is Err ==> same_stack(s_post, s_pre) && h_post == h_pre
    &&& s_post.scope@ == s_pre.scope@
    &&& s_post.callable@ == s_pre.callable@
    &&& if s_pre.scope@.len() == 0 {
        r == Err::<(), Fault>(Fault::StackUnderflow)
    } else {
        match args_on_top(h_pre, s_pre) {
            Err(e) => r == Err::<(), Fault>(e),
            Ok(items) => match expansion_fault(h_pre, items, s_pre.scope@.last()) {
                Some(e) => r == Err::<(), Fault>(e),
                None => r is Ok && expansion_started(h_pre, h_post, s_pre.value@.drop_last(),
                    s_pre.state@, s_post.value@, s_post.state@, items, s_pre.scope@.last()),
            },
        }
    }
}

/// `expand`: expands its arguments as a list, item by item, evaluating the value of each
/// escape among them and expanding each list among them in turn; gives the list expanded.
pub fn expand_special_form(heap: &mut GcAllocator, stack: &mut Stack) -> (r: Result<(), Fault>)
    ensures
        expand_special_form_done(old(heap)@, final(heap)@, *old(stack), *final(stack), r),
{
    let m = stack.scope.len();
    if m == 0 {
        return Err(Fault::StackUnderflow);
    }
    let scope = stack.scope[m - 1];
    let items = match peek_args(heap, stack) {
        Ok(a) => a,
        Err(e) => {
            return Err(e);
        },
    };
    if let Some(e) = check_expansion(heap, &items, scope) {
        return Err(e);
    }
    drop_top(stack);
    start_expansion(heap, stack, &items, scope);
    Ok(())
}

/// Whether starting an expansion fails does not change as the heap grows, when it does not
/// fail.
pub proof fn lemma_expansion_fault_extends(h: Seq<Option<Object>>, h2: Seq<Option<Object>>, items: Seq<Gc>, scope: Gc)
    requires
        extends(h, h2),
        expansion_fault(h, items, scope) is None,
        forall|i: int| h.len() <= i < h2.len() ==> #[trigger] h2[i] is None || !(h2[i]->Some_0.value is Kind),
    ensures
        expansion_fault(h2, items, scope) is None,
        kind_result(h2, scope, "List"@) == kind_result(h, scope, "List"@),
        items.len() > 0 ==> kind_result(h2, scope, "Escape"@) == kind_result(h, scope, "Escape"@),
        items.len() > 0 ==> (of_kind(h2, items[0], kind_result(h, scope, "Escape"@)->Ok_0) == of_kind(h, items[0], kind_result(h, scope, "Escape"@)->Ok_0)),
        items.len() > 0 ==> object_in(h2, items[0]) == object_in(h, items[0]),
{
    lemma_lookup_tag_extends(h, h2, scope, "List"@, Tag::Kind);
    if items.len() > 0 {
        lemma_lookup_tag_extends(h, h2, scope, "Escape"@, Tag::Kind);
        let ek = kind_result(h, scope, "Escape"@)->Ok_0;
        let first = items[0];
        assert(h2[first.ptr as int] == h[first.ptr as int]);
        let k = object_in(h, first).kind;
        if k.ptr < h.len() {
            assert(h2[k.ptr as int] == h[k.ptr as int]);
        } else if k.ptr < h2.len() {
            assert(h2[k.ptr as int] is None || !(h2[k.ptr as int]->Some_0.value is Kind));
        }
        assert(h2[ek.ptr as int] == h[ek.ptr as int]);
    }
}

} // verus!
