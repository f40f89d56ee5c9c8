use vstd::prelude::*;

use crate::gc::Gc;

verus! {

/// Why the runtime could not go on. Each case stands for a point at which the
/// runtime stops with a message.
#[derive(Clone, Copy)]
pub enum Fault {
    /// A kind that the runtime needs is not bound in the scope, under its name.
    KindNotFound,
    /// A value that the runtime needs (`nil`, `true`, `false`, the evaluator's stack)
    /// is not bound in the scope, under its name.
    ValueNotFound,
    /// A handle that should refer to a scope does not.
    NotAScope,
    /// An argument or an operand is missing.
    MissingArgument,
    /// A value is not of the type that the operation needs.
    WrongType,
    /// A position past the end of a vector.
    IndexOutOfRange,
    /// An arithmetic operation overflows its type.
    Overflow,
    /// An integer division by zero.
    DivideByZero,
    /// A character literal holds no character.
    EmptyCharLiteral,
    /// A number literal does not denote a value of its type.
    InvalidNumber,
    /// A closing bracket where the reader needs a value: reading would stay in place.
    UnexpectedCloser,
    /// The evaluator found one of its stacks empty where it needed a value.
    StackUnderflow,
    /// The evaluator was asked to call a value that cannot be called.
    NotCallable(Gc),
    /// A step of the evaluator that cannot occur where it did.
    InvalidState,
    /// A thrown value that no `try` caught; the value describes the error.
    Uncaught(Gc),
    /// A `try` handler was reached; the runtime stops there with the value on top.
    Caught(Option<Gc>),
    /// The global error handler was called with this value.
    GlobalError(Gc),
    /// The evaluator ran out of the steps it was given.
    OutOfSteps,
}

} // verus!
