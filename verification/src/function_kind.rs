use vstd::prelude::*;

use crate::gc::Gc;

verus! {

/// The integer types of the runtime.
#[derive(PartialEq, Eq, Structural, Clone, Copy)]
pub enum NumberType {
    U8,
    U16,
    U32,
    U64,
    USize,
    I8,
    I16,
    I32,
    I64,
    ISize,
}

/// The operations on two integers that the runtime offers for each integer type.
#[derive(PartialEq, Eq, Structural, Clone, Copy)]
pub enum NumberOp {
    Add,
    Sub,
    Mul,
    Div,
    Eq,
}

/// The collections that the provided collection functions work on.
#[derive(PartialEq, Eq, Structural, Clone, Copy)]
pub enum Collection {
    PersistentList,
    List,
    PersistentVector,
    Vector,
    PersistentMap,
    ValueMap,
    PersistentSet,
    ValueSet,
    LinkedMap,
    PersistentScope,
}

/// The comparisons of two values that the runtime provides (`=`, `!=`, `>`, `>=`, `<`,
/// `<=`).
#[derive(PartialEq, Eq, Structural, Clone, Copy)]
pub enum CompareOp {
    Eq,
    Ne,
    Gt,
    Ge,
    Lt,
    Le,
}

/// The functions that the runtime itself provides.
#[derive(PartialEq, Eq, Structural, Clone, Copy)]
pub enum Builtin {
    BoolNot,
    Number(NumberType, NumberOp),
    AtomNew,
    AtomGet,
    AtomSet,
    Compare(CompareOp),
    ValueNot,
    KindOf,
    KindName,
    KindSize,
    KindAlign,
    GcAllocatorCollect,
    GlobalErrorHandler,
    IsEmpty(Collection),
    Len(Collection),
    Nth(Collection),
    PushFront(Collection),
    PushBack(Collection),
    Insert(Collection),
    Get(Collection),
    Has(Collection),
    Put(Collection),
    Remove(Collection),
    Add(Collection),
    /// A function that the program embedding the runtime provides; the evaluator
    /// hands the call to it by this number.
    Host(u64),
}

/// What a function runs when called: a body to evaluate, or a provided function.
#[derive(Clone, Copy)]
pub enum FunctionKind {
    Internal(Gc),
    External(Builtin),
}

impl FunctionKind {
    pub fn new_internal(body: Gc) -> (k: FunctionKind)
        ensures
            k == FunctionKind::Internal(body),
    {
        FunctionKind::Internal(body)
    }

    pub fn new_external(body: Builtin) -> (k: FunctionKind)
        ensures
            k == FunctionKind::External(body),
    {
        FunctionKind::External(body)
    }
}

} // verus!
