use vstd::prelude::*;

use crate::fault::Fault;
use crate::gc_allocator::{object_in, GcAllocator};
use crate::object::{kind_named, kind_result, made_object, new_object_of_kind, string_from, Data};

use crate::gc::Gc;
use crate::handles::copy_handles;
use crate::gc_allocator::live_in;
use crate::object::{value_named, value_result, Tag};

verus! {

/// The steps of the evaluator.
#[derive(PartialEq, Eq, Structural, Clone, Copy, Debug, Hash)]
pub enum EvalState {
    Eval,
    EvalVec,
    EvalMap,
    EvalMapKeyValue,
    Call,
    CallFunction,
    PopValue,
    PopScope,
    Throw,
    Catch,
    If,
    Def,
    Expand,
}

/// What unwinding the stack found: a handler, a function being called, or nothing.
#[derive(Clone, Copy)]
pub enum UnwindResult {
    Caught(Gc),
    Callable(Gc),
    Uncaught,
}

/// The state of the evaluator: stacks of values, scopes, functions being called and
/// steps still to run. The front of each stack is its last element.
pub struct Stack {
    pub value: Vec<Gc>,
    pub scope: Vec<Gc>,
    pub callable: Vec<Gc>,
    pub state: Vec<EvalState>,
}

/// Whether two stacks hold the same values, scopes, functions and steps.
pub open spec fn same_stack(a: Stack, b: Stack) -> bool {
    &&& a.value@ == b.value@
    &&& a.scope@ == b.scope@
    &&& a.callable@ == b.callable@
    &&& a.state@ == b.state@
}

/// The stacks of values, scopes and steps after pushing `scope` and `value` to be
/// evaluated.
pub open spec fn pushed_scope_and_value(
    values: Seq<Gc>,
    scopes: Seq<Gc>,
    states: Seq<EvalState>,
    scope: Gc,
    value: Gc,
) -> (Seq<Gc>, Seq<Gc>, Seq<EvalState>) {
    (values.push(value), scopes.push(scope), states.push(EvalState::Eval))
}

/// What popping a scope and then a value takes from the stacks of values and scopes:
/// the scope on top and the value on top, when both are there. A scope is popped even
/// when no value follows it.
pub open spec fn popped_scope_and_value(values: Seq<Gc>, scopes: Seq<Gc>) -> (Seq<Gc>, Seq<Gc>, Option<(Gc, Gc)>) {
    if scopes.len() == 0 {
        (values, scopes, None)
    } else if values.len() == 0 {
        (values, scopes.drop_last(), None)
    } else {
        (values.drop_last(), scopes.drop_last(), Some((scopes.last(), values.last())))
    }
}

/// Popping a scope and a value gives back the scope and value just pushed, and the
/// stacks of values and scopes as they were; one more step to evaluate stays behind.
pub proof fn lemma_push_then_pop(values: Seq<Gc>, scopes: Seq<Gc>, states: Seq<EvalState>, scope: Gc, value: Gc)
    ensures
        ({
            let (v1, s1, t1) = pushed_scope_and_value(values, scopes, states, scope, value);
            let (v2, s2, r) = popped_scope_and_value(v1, s1);
            &&& v2 == values
            &&& s2 == scopes
            &&& r == Some((scope, value))
            &&& t1 == states.push(EvalState::Eval)
        }),
{
    assert(values.push(value).drop_last() =~= values);
    assert(scopes.push(scope).drop_last() =~= scopes);
}

impl Stack {
    /// Pushes `value` to be evaluated in `scope`.
    pub fn push_scope_and_value(&mut self, scope: Gc, value: Gc)
        ensures
            (final(self).value@, final(self).scope@, final(self).state@) == pushed_scope_and_value(
                old(self).value@,
                old(self).scope@,
                old(self).state@,
                scope,
                value,
            ),
            final(self).callable@ == old(self).callable@,
    {
        self.value.push(value);
        self.scope.push(scope);
        self.state.push(EvalState::Eval);
    }

    /// Pops the scope on top, then the value on top, and gives both when both were there.
    pub fn pop_scope_and_value(&mut self) -> (r: Option<(Gc, Gc)>)
        ensures
            (final(self).value@, final(self).scope@, r) == popped_scope_and_value(old(self).value@, old(self).scope@),
            final(self).callable@ == old(self).callable@,
            final(self).state@ == old(self).state@,
    {
        match self.scope.pop() {
            Some(scope) => match self.value.pop() {
                Some(value) => Some((scope, value)),
                None => None,
            },
            None => None,
        }
    }

    /// Pops steps until one that a thrown value stops at: a handler of `try` (its value
    /// is popped and given), the end of a call (its function is popped and given), or
    /// the end of the steps.
    pub fn unwind(&mut self) -> (r: Result<UnwindResult, Fault>)
        ensures
            final(self).scope@ == old(self).scope@,
            ({
                let k = unwind_stop(old(self).state@);
                if k == 0 {
                    r == Ok::<UnwindResult, Fault>(UnwindResult::Uncaught) && final(self).state@ == Seq::<EvalState>::empty()
                        && final(self).value@ == old(self).value@ && final(self).callable@ == old(self).callable@
                } else {
                    let stop = old(self).state@[k - 1];
                    &&& final(self).state@ == old(self).state@.subrange(0, k - 1)
                    &&& if stop == EvalState::Catch {
                        if old(self).value@.len() > 0 {
                            r == Ok::<UnwindResult, Fault>(UnwindResult::Caught(old(self).value@.last()))
                                && final(self).value@ == old(self).value@.drop_last() && final(self).callable@ == old(self).callable@
                        } else {
                            r == Err::<UnwindResult, Fault>(Fault::StackUnderflow)
                        }
                    } else {
                        if old(self).callable@.len() > 0 {
                            r == Ok::<UnwindResult, Fault>(UnwindResult::Callable(old(self).callable@.last()))
                                && final(self).callable@ == old(self).callable@.drop_last() && final(self).value@ == old(self).value@
                        } else {
                            r == Err::<UnwindResult, Fault>(Fault::StackUnderflow)
                        }
                    }
                }
            }),
    {
        loop
            invariant
                self.scope@ == old(self).scope@,
                self.value@ == old(self).value@,
                self.callable@ == old(self).callable@,
                self.state@.len() <= old(self).state@.len(),
                self.state@ == old(self).state@.subrange(0, self.state@.len() as int),
                unwind_stop(old(self).state@) == unwind_stop(self.state@),
            decreases self.state@.len(),
        {
            let ghost before = self.state@;
            match self.state.pop() {
                Some(EvalState::Catch) => {
                    proof {
                        assert(before.drop_last() == self.state@);
                        assert(stops_unwind(before.last()));
                    }
                    return match self.value.pop() {
                        Some(v) => Ok(UnwindResult::Caught(v)),
                        None => Err(Fault::StackUnderflow),
                    };
                },
                Some(EvalState::PopScope) => {
                    proof {
                        assert(before.drop_last() == self.state@);
                        assert(stops_unwind(before.last()));
                    }
                    return match self.callable.pop() {
                        Some(c) => Ok(UnwindResult::Callable(c)),
                        None => Err(Fault::StackUnderflow),
                    };
                },
                None => {
                    return Ok(UnwindResult::Uncaught);
                },
                _ => {
                    proof {
                        assert(before.drop_last() == self.state@);
                        assert(self.state@ =~= old(self).state@.subrange(0, self.state@.len() as int));
                    }
                },
            }
        }
    }

    pub fn new() -> (s: Stack)
        ensures
            s.value@ == Seq::<Gc>::empty(),
            s.scope@ == Seq::<Gc>::empty(),
            s.callable@ == Seq::<Gc>::empty(),
            s.state@ == Seq::<EvalState>::empty(),
    {
        Stack { value: Vec::new(), scope: Vec::new(), callable: Vec::new(), state: Vec::new() }
    }
}

/// Whether unwinding stops at the step `s`.
pub open spec fn stops_unwind(s: EvalState) -> bool {
    s == EvalState::Catch || s == EvalState::PopScope
}

/// The number of steps left below the top once unwinding has popped the first step, from
/// the top, that it stops at; 0 when no step stops it.
pub open spec fn unwind_stop(states: Seq<EvalState>) -> int
    decreases states.len(),
{
    if states.len() == 0 {
        0
    } else if stops_unwind(states.last()) {
        states.len() as int
    } else {
        unwind_stop(states.drop_last())
    }
}

/// The evaluator's stack bound to `__stack` in `scope`, copied.
pub fn get_stack(heap: &GcAllocator, scope: Gc) -> (r: Result<Stack, Fault>)
    ensures
        match value_result(heap@, scope, "__stack"@, Tag::Stack) {
            Ok(g) => r matches Ok(s) && (object_in(heap@, g).value matches Data::Stack(t) && same_stack(s, t)),
            Err(e) => r matches Err(f) && f == e,
        },
{
    let g = match value_named(heap, scope, "__stack", Tag::Stack) {
        Ok(g) => g,
        Err(e) => {
            return Err(e);
        },
    };
    match heap.data(g) {
        Some(Data::Stack(t)) => Ok(Stack {
            value: copy_handles(&t.value),
            scope: copy_handles(&t.scope),
            callable: copy_handles(&t.callable),
            state: copy_states(&t.state),
        }),
        _ => Err(Fault::ValueNotFound),
    }
}

/// A copy of a sequence of steps.
fn copy_states(v: &Vec<EvalState>) -> (r: Vec<EvalState>)
    ensures
        r@ == v@,
{
    let mut r: Vec<EvalState> = Vec::new();
    let mut i: usize = 0;
    while i < v.len()
        invariant
            i <= v@.len(),
            r@ == v@.subrange(0, i as int),
        decreases v@.len() - i,
    {
        r.push(v[i]);
        i = i + 1;
        assert(r@ == v@.subrange(0, i as int));
    }
    assert(v@.subrange(0, v@.len() as int) == v@);
    r
}

/// A new stack object holding `value`.
pub fn new_stack(heap: &mut GcAllocator, scope: Gc, value: Stack) -> (r: Result<Gc, Fault>)
    ensures
        made_object(old(heap)@, final(heap)@, r, scope, "Stack"@, None),
        r matches Ok(g) ==> (object_in(final(heap)@, g).value matches Data::Stack(t) && same_stack(t, value)),
{
    new_object_of_kind(heap, scope, "Stack", Data::Stack(value), None)
}

/// The kind of stacks, bound to `Stack` in `scope`.
pub fn stack_kind(heap: &GcAllocator, scope: Gc) -> (r: Result<Gc, Fault>)
    ensures
        r == kind_result(heap@, scope, "Stack"@),
{
    kind_named(heap, scope, "Stack")
}

} // verus!
