use vstd::prelude::*;

use crate::fault::Fault;
use crate::gc::Gc;
use crate::gc_allocator::{live_in, object_in, GcAllocator};
use crate::object::{kind_named, kind_result, value_named, value_result, Data, Object, Tag};

verus! {

/// The kind of booleans, bound to `Bool` in `scope`.
pub fn bool_kind(heap: &GcAllocator, scope: Gc) -> (r: Result<Gc, Fault>)
    ensures
        r == kind_result(heap@, scope, "Bool"@),
{
    kind_named(heap, scope, "Bool")
}

/// The boolean bound to `true` in `scope`.
pub fn true_value(heap: &GcAllocator, scope: Gc) -> (r: Result<Gc, Fault>)
    ensures
        r == value_result(heap@, scope, "true"@, Tag::Bool),
{
    value_named(heap, scope, "true", Tag::Bool)
}

/// The boolean bound to `false` in `scope`.
pub fn false_value(heap: &GcAllocator, scope: Gc) -> (r: Result<Gc, Fault>)
    ensures
        r == value_result(heap@, scope, "false"@, Tag::Bool),
{
    value_named(heap, scope, "false", Tag::Bool)
}

/// The boolean value of `b`: the object bound to `true` or to `false`. No object is made.
pub open spec fn bool_result(h: Seq<Option<Object>>, scope: Gc, b: bool) -> Result<Gc, Fault> {
    if b {
        value_result(h, scope, "true"@, Tag::Bool)
    } else {
        value_result(h, scope, "false"@, Tag::Bool)
    }
}

/// The boolean object for `value`, shared by all uses: `true` or `false` of `scope`.
pub fn new_bool(heap: &GcAllocator, scope: Gc, value: bool) -> (r: Result<Gc, Fault>)
    ensures
        r == bool_result(heap@, scope, value),
{
    if value {
        true_value(heap, scope)
    } else {
        false_value(heap, scope)
    }
}

/// What `bool.not` gives for the arguments `args`.
pub open spec fn bool_not_done(h: Seq<Option<Object>>, scope: Gc, args: Seq<Gc>, r: Result<Gc, Fault>) -> bool {
    ({
        let operand = if args.len() > 0 { Ok(args[0]) } else { value_result(h, scope, "false"@, Tag::Bool) };
        match operand {
            Ok(v) => match object_in(h, v).value {
                Data::Bool(b) => if live_in(h, v) {
                    r == bool_result(h, scope, !b)
                } else {
                    r == Err::<Gc, Fault>(Fault::WrongType)
                },
                _ => r == Err::<Gc, Fault>(Fault::WrongType),
            },
            Err(e) => r == Err::<Gc, Fault>(e),
        }
    })
}

/// The negation of the boolean `args[0]`, or of `false` when there is no argument.
pub fn bool_not(heap: &GcAllocator, scope: Gc, args: &Vec<Gc>) -> (r: Result<Gc, Fault>)
    ensures
        bool_not_done(heap@, scope, args@, r),
{
    let v = if args.len() > 0 {
        args[0]
    } else {
        match false_value(heap, scope) {
            Ok(v) => v,
            Err(e) => {
                return Err(e);
            },
        }
    };
    match heap.data(v) {
        Some(Data::Bool(b)) => new_bool(heap, scope, !*b),
        _ => Err(Fault::WrongType),
    }
}

} // verus!
