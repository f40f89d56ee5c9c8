use vstd::prelude::*;

use crate::boolean::{bool_result, new_bool};
use crate::fault::Fault;
use crate::function_kind::{NumberOp, NumberType};
use crate::gc::Gc;
use crate::gc_allocator::{live_in, object_in, GcAllocator};
use crate::object::{kind_named, kind_result, made_object, new_object_of_kind, Data, Object, Tag};

verus! {

/// The name under which the kind of numbers of type `t` is looked up.
pub open spec fn number_kind_name(t: NumberType) -> Seq<char> {
    match t {
        NumberType::U8 => "U8"@,
        NumberType::U16 => "U16"@,
        NumberType::U32 => "U32"@,
        NumberType::U64 => "U64"@,
        NumberType::USize => "USize"@,
        NumberType::I8 => "I8"@,
        NumberType::I16 => "I16"@,
        NumberType::I32 => "I32"@,
        NumberType::I64 => "I64"@,
        NumberType::ISize => "ISize"@,
    }
}

/// The name under which the kind of numbers of type `t` is looked up.
pub fn number_kind_str(t: NumberType) -> (s: &'static str)
    ensures
        s@ == number_kind_name(t),
{
    match t {
        NumberType::U8 => "U8",
        NumberType::U16 => "U16",
        NumberType::U32 => "U32",
        NumberType::U64 => "U64",
        NumberType::USize => "USize",
        NumberType::I8 => "I8",
        NumberType::I16 => "I16",
        NumberType::I32 => "I32",
        NumberType::I64 => "I64",
        NumberType::ISize => "ISize",
    }
}

/// The value of `d` when it is a number of type `t`.
pub open spec fn number_value(d: Data, t: NumberType) -> Option<int> {
    match (t, d) {
        (NumberType::U8, Data::U8(x)) => Some(x as int),
        (NumberType::U16, Data::U16(x)) => Some(x as int),
        (NumberType::U32, Data::U32(x)) => Some(x as int),
        (NumberType::U64, Data::U64(x)) => Some(x as int),
        (NumberType::USize, Data::USize(x)) => Some(x as int),
        (NumberType::I8, Data::I8(x)) => Some(x as int),
        (NumberType::I16, Data::I16(x)) => Some(x as int),
        (NumberType::I32, Data::I32(x)) => Some(x as int),
        (NumberType::I64, Data::I64(x)) => Some(x as int),
        (NumberType::ISize, Data::ISize(x)) => Some(x as int),
        _ => None,
    }
}

/// Whether `v` is a value of the type `t`.
pub open spec fn in_range(t: NumberType, v: int) -> bool {
    match t {
        NumberType::U8 => u8::MIN <= v <= u8::MAX,
        NumberType::U16 => u16::MIN <= v <= u16::MAX,
        NumberType::U32 => u32::MIN <= v <= u32::MAX,
        NumberType::U64 => u64::MIN <= v <= u64::MAX,
        NumberType::USize => usize::MIN <= v <= usize::MAX,
        NumberType::I8 => i8::MIN <= v <= i8::MAX,
        NumberType::I16 => i16::MIN <= v <= i16::MAX,
        NumberType::I32 => i32::MIN <= v <= i32::MAX,
        NumberType::I64 => i64::MIN <= v <= i64::MAX,
        NumberType::ISize => isize::MIN <= v <= isize::MAX,
    }
}

/// The number of type `t` with the value `v`.
pub open spec fn number_data(t: NumberType, v: int) -> Data {
    match t {
        NumberType::U8 => Data::U8(v as u8),
        NumberType::U16 => Data::U16(v as u16),
        NumberType::U32 => Data::U32(v as u32),
        NumberType::U64 => Data::U64(v as u64),
        NumberType::USize => Data::USize(v as usize),
        NumberType::I8 => Data::I8(v as i8),
        NumberType::I16 => Data::I16(v as i16),
        NumberType::I32 => Data::I32(v as i32),
        NumberType::I64 => Data::I64(v as i64),
        NumberType::ISize => Data::ISize(v as isize),
    }
}

/// The quotient of `x` by `d`, rounded toward zero.
pub open spec fn truncating_div(x: int, d: int) -> int {
    if x == 0 {
        0
    } else if x > 0 && d > 0 {
        x / d
    } else if x < 0 && d < 0 {
        (x * -1) / (d * -1)
    } else if x < 0 {
        ((x * -1) / d) * -1
    } else {
        (x / (d * -1)) * -1
    }
}

/// The type of the operands of the operation `op` on numbers of type `t`: the same type,
/// but for `i64.eq`, which takes `isize` operands.
pub open spec fn operand_type(t: NumberType, op: NumberOp) -> NumberType {
    if t == NumberType::I64 && op == NumberOp::Eq {
        NumberType::ISize
    } else {
        t
    }
}

/// What the operation `op` on numbers of type `t` gives for the operands `a` and `b`: a
/// number of type `t`, a boolean for `eq`, or the fault that stops it.
pub open spec fn binary_outcome(t: NumberType, op: NumberOp, a: int, b: int) -> Result<Data, Fault> {
    match op {
        NumberOp::Eq => Ok(Data::Bool(a == b)),
        NumberOp::Add => if in_range(t, a + b) { Ok(number_data(t, a + b)) } else { Err(Fault::Overflow) },
        NumberOp::Sub => if in_range(t, a - b) { Ok(number_data(t, a - b)) } else { Err(Fault::Overflow) },
        NumberOp::Mul => if in_range(t, a * b) { Ok(number_data(t, a * b)) } else { Err(Fault::Overflow) },
        NumberOp::Div => if b == 0 {
            Err(Fault::DivideByZero)
        } else if in_range(t, truncating_div(a, b)) {
            Ok(number_data(t, truncating_div(a, b)))
        } else {
            Err(Fault::Overflow)
        },
    }
}

/// The operation `op` on two `u8` operands, for numbers of type `t` (which is `U8`,
/// or `I64` for `eq`).
fn u8_binary(t: NumberType, op: NumberOp, x: u8, y: u8) -> (res: Result<Data, Fault>)
    requires
        t == NumberType::U8 || (t == NumberType::I64 && op == NumberOp::Eq && NumberType::U8 == NumberType::ISize),
    ensures
        res == binary_outcome(t, op, x as int, y as int),
{
    match op {
        NumberOp::Add => match x.checked_add(y) {
            Some(v) => Ok(Data::U8(v)),
            None => Err(Fault::Overflow),
        },
        NumberOp::Sub => match x.checked_sub(y) {
            Some(v) => Ok(Data::U8(v)),
            None => Err(Fault::Overflow),
        },
        NumberOp::Mul => match x.checked_mul(y) {
            Some(v) => Ok(Data::U8(v)),
            None => Err(Fault::Overflow),
        },
        NumberOp::Div => if y == 0 {
            Err(Fault::DivideByZero)
        } else {
            match x.checked_div(y) {
                Some(v) => Ok(Data::U8(v)),
                None => Err(Fault::Overflow),
            }
        },
        NumberOp::Eq => Ok(Data::Bool(x == y)),
    }
}

/// The operation `op` on two `u16` operands, for numbers of type `t` (which is `U16`,
/// or `I64` for `eq`).
fn u16_binary(t: NumberType, op: NumberOp, x: u16, y: u16) -> (res: Result<Data, Fault>)
    requires
        t == NumberType::U16 || (t == NumberType::I64 && op == NumberOp::Eq && NumberType::U16 == NumberType::ISize),
    ensures
        res == binary_outcome(t, op, x as int, y as int),
{
    match op {
        NumberOp::Add => match x.checked_add(y) {
            Some(v) => Ok(Data::U16(v)),
            None => Err(Fault::Overflow),
        },
        NumberOp::Sub => match x.checked_sub(y) {
            Some(v) => Ok(Data::U16(v)),
            None => Err(Fault::Overflow),
        },
        NumberOp::Mul => match x.checked_mul(y) {
            Some(v) => Ok(Data::U16(v)),
            None => Err(Fault::Overflow),
        },
        NumberOp::Div => if y == 0 {
            Err(Fault::DivideByZero)
        } else {
            match x.checked_div(y) {
                Some(v) => Ok(Data::U16(v)),
                None => Err(Fault::Overflow),
            }
        },
        NumberOp::Eq => Ok(Data::Bool(x == y)),
    }
}

/// The operation `op` on two `u32` operands, for numbers of type `t` (which is `U32`,
/// or `I64` for `eq`).
fn u32_binary(t: NumberType, op: NumberOp, x: u32, y: u32) -> (res: Result<Data, Fault>)
    requires
        t == NumberType::U32 || (t == NumberType::I64 && op == NumberOp::Eq && NumberType::U32 == NumberType::ISize),
    ensures
        res == binary_outcome(t, op, x as int, y as int),
{
    match op {
        NumberOp::Add => match x.checked_add(y) {
            Some(v) => Ok(Data::U32(v)),
            None => Err(Fault::Overflow),
        },
        NumberOp::Sub => match x.checked_sub(y) {
            Some(v) => Ok(Data::U32(v)),
            None => Err(Fault::Overflow),
        },
        NumberOp::Mul => match x.checked_mul(y) {
            Some(v) => Ok(Data::U32(v)),
            None => Err(Fault::Overflow),
        },
        NumberOp::Div => if y == 0 {
            Err(Fault::DivideByZero)
        } else {
            match x.checked_div(y) {
                Some(v) => Ok(Data::U32(v)),
                None => Err(Fault::Overflow),
            }
        },
        NumberOp::Eq => Ok(Data::Bool(x == y)),
    }
}

/// The operation `op` on two `u64` operands, for numbers of type `t` (which is `U64`,
/// or `I64` for `eq`).
fn u64_binary(t: NumberType, op: NumberOp, x: u64, y: u64) -> (res: Result<Data, Fault>)
    requires
        t == NumberType::U64 || (t == NumberType::I64 && op == NumberOp::Eq && NumberType::U64 == NumberType::ISize),
    ensures
        res == binary_outcome(t, op, x as int, y as int),
{
    match op {
        NumberOp::Add => match x.checked_add(y) {
            Some(v) => Ok(Data::U64(v)),
            None => Err(Fault::Overflow),
        },
        NumberOp::Sub => match x.checked_sub(y) {
            Some(v) => Ok(Data::U64(v)),
            None => Err(Fault::Overflow),
        },
        NumberOp::Mul => match x.checked_mul(y) {
            Some(v) => Ok(Data::U64(v)),
            None => Err(Fault::Overflow),
        },
        NumberOp::Div => if y == 0 {
            Err(Fault::DivideByZero)
        } else {
            match x.checked_div(y) {
                Some(v) => Ok(Data::U64(v)),
                None => Err(Fault::Overflow),
            }
        },
        NumberOp::Eq => Ok(Data::Bool(x == y)),
    }
}

/// The operation `op` on two `usize` operands, for numbers of type `t` (which is `USize`,
/// or `I64` for `eq`).
fn usize_binary(t: NumberType, op: NumberOp, x: usize, y: usize) -> (res: Result<Data, Fault>)
    requires
        t == NumberType::USize || (t == NumberType::I64 && op == NumberOp::Eq && NumberType::USize == NumberType::ISize),
    ensures
        res == binary_outcome(t, op, x as int, y as int),
{
    match op {
        NumberOp::Add => match x.checked_add(y) {
            Some(v) => Ok(Data::USize(v)),
            None => Err(Fault::Overflow),
        },
        NumberOp::Sub => match x.checked_sub(y) {
            Some(v) => Ok(Data::USize(v)),
            None => Err(Fault::Overflow),
        },
        NumberOp::Mul => match x.checked_mul(y) {
            Some(v) => Ok(Data::USize(v)),
            None => Err(Fault::Overflow),
        },
        NumberOp::Div => if y == 0 {
            Err(Fault::DivideByZero)
        } else {
            match x.checked_div(y) {
                Some(v) => Ok(Data::USize(v)),
                None => Err(Fault::Overflow),
            }
        },
        NumberOp::Eq => Ok(Data::Bool(x == y)),
    }
}

/// The operation `op` on two `i8` operands, for numbers of type `t` (which is `I8`,
/// or `I64` for `eq`).
fn i8_binary(t: NumberType, op: NumberOp, x: i8, y: i8) -> (res: Result<Data, Fault>)
    requires
        t == NumberType::I8 || (t == NumberType::I64 && op == NumberOp::Eq && NumberType::I8 == NumberType::ISize),
    ensures
        res == binary_outcome(t, op, x as int, y as int),
{
    match op {
        NumberOp::Add => match x.checked_add(y) {
            Some(v) => Ok(Data::I8(v)),
            None => Err(Fault::Overflow),
        },
        NumberOp::Sub => match x.checked_sub(y) {
            Some(v) => Ok(Data::I8(v)),
            None => Err(Fault::Overflow),
        },
        NumberOp::Mul => match x.checked_mul(y) {
            Some(v) => Ok(Data::I8(v)),
            None => Err(Fault::Overflow),
        },
        NumberOp::Div => if y == 0 {
            Err(Fault::DivideByZero)
        } else {
            match x.checked_div(y) {
                Some(v) => Ok(Data::I8(v)),
                None => Err(Fault::Overflow),
            }
        },
        NumberOp::Eq => Ok(Data::Bool(x == y)),
    }
}

/// The operation `op` on two `i16` operands, for numbers of type `t` (which is `I16`,
/// or `I64` for `eq`).
fn i16_binary(t: NumberType, op: NumberOp, x: i16, y: i16) -> (res: Result<Data, Fault>)
    requires
        t == NumberType::I16 || (t == NumberType::I64 && op == NumberOp::Eq && NumberType::I16 == NumberType::ISize),
    ensures
        res == binary_outcome(t, op, x as int, y as int),
{
    match op {
        NumberOp::Add => match x.checked_add(y) {
            Some(v) => Ok(Data::I16(v)),
            None => Err(Fault::Overflow),
        },
        NumberOp::Sub => match x.checked_sub(y) {
            Some(v) => Ok(Data::I16(v)),
            None => Err(Fault::Overflow),
        },
        NumberOp::Mul => match x.checked_mul(y) {
            Some(v) => Ok(Data::I16(v)),
            None => Err(Fault::Overflow),
        },
        NumberOp::Div => if y == 0 {
            Err(Fault::DivideByZero)
        } else {
            match x.checked_div(y) {
                Some(v) => Ok(Data::I16(v)),
                None => Err(Fault::Overflow),
            }
        },
        NumberOp::Eq => Ok(Data::Bool(x == y)),
    }
}

/// The operation `op` on two `i32` operands, for numbers of type `t` (which is `I32`,
/// or `I64` for `eq`).
fn i32_binary(t: NumberType, op: NumberOp, x: i32, y: i32) -> (res: Result<Data, Fault>)
    requires
        t == NumberType::I32 || (t == NumberType::I64 && op == NumberOp::Eq && NumberType::I32 == NumberType::ISize),
    ensures
        res == binary_outcome(t, op, x as int, y as int),
{
    match op {
        NumberOp::Add => match x.checked_add(y) {
            Some(v) => Ok(Data::I32(v)),
            None => Err(Fault::Overflow),
        },
        NumberOp::Sub => match x.checked_sub(y) {
            Some(v) => Ok(Data::I32(v)),
            None => Err(Fault::Overflow),
        },
        NumberOp::Mul => match x.checked_mul(y) {
            Some(v) => Ok(Data::I32(v)),
            None => Err(Fault::Overflow),
        },
        NumberOp::Div => if y == 0 {
            Err(Fault::DivideByZero)
        } else {
            match x.checked_div(y) {
                Some(v) => Ok(Data::I32(v)),
                None => Err(Fault::Overflow),
            }
        },
        NumberOp::Eq => Ok(Data::Bool(x == y)),
    }
}

/// The operation `op` on two `i64` operands, for numbers of type `t` (which is `I64`,
/// or `I64` for `eq`).
fn i64_binary(t: NumberType, op: NumberOp, x: i64, y: i64) -> (res: Result<Data, Fault>)
    requires
        t == NumberType::I64 || (t == NumberType::I64 && op == NumberOp::Eq && NumberType::I64 == NumberType::ISize),
    ensures
        res == binary_outcome(t, op, x as int, y as int),
{
    match op {
        NumberOp::Add => match x.checked_add(y) {
            Some(v) => Ok(Data::I64(v)),
            None => Err(Fault::Overflow),
        },
        NumberOp::Sub => match x.checked_sub(y) {
            Some(v) => Ok(Data::I64(v)),
            None => Err(Fault::Overflow),
        },
        NumberOp::Mul => match x.checked_mul(y) {
            Some(v) => Ok(Data::I64(v)),
            None => Err(Fault::Overflow),
        },
        NumberOp::Div => if y == 0 {
            Err(Fault::DivideByZero)
        } else {
            match x.checked_div(y) {
                Some(v) => Ok(Data::I64(v)),
                None => Err(Fault::Overflow),
            }
        },
        NumberOp::Eq => Ok(Data::Bool(x == y)),
    }
}

/// The operation `op` on two `isize` operands, for numbers of type `t` (which is `ISize`,
/// or `I64` for `eq`).
fn isize_binary(t: NumberType, op: NumberOp, x: isize, y: isize) -> (res: Result<Data, Fault>)
    requires
        t == NumberType::ISize || (t == NumberType::I64 && op == NumberOp::Eq && NumberType::ISize == NumberType::ISize),
    ensures
        res == binary_outcome(t, op, x as int, y as int),
{
    match op {
        NumberOp::Add => match x.checked_add(y) {
            Some(v) => Ok(Data::ISize(v)),
            None => Err(Fault::Overflow),
        },
        NumberOp::Sub => match x.checked_sub(y) {
            Some(v) => Ok(Data::ISize(v)),
            None => Err(Fault::Overflow),
        },
        NumberOp::Mul => match x.checked_mul(y) {
            Some(v) => Ok(Data::ISize(v)),
            None => Err(Fault::Overflow),
        },
        NumberOp::Div => if y == 0 {
            Err(Fault::DivideByZero)
        } else {
            match x.checked_div(y) {
                Some(v) => Ok(Data::ISize(v)),
                None => Err(Fault::Overflow),
            }
        },
        NumberOp::Eq => Ok(Data::Bool(x == y)),
    }
}

/// The operation `op` on the operands `a` and `b`, which are numbers of the operand type
/// of `op` on numbers of type `t`.
pub fn binary_data(t: NumberType, op: NumberOp, a: &Data, b: &Data) -> (r: Result<Data, Fault>)
    requires
        number_value(*a, operand_type(t, op)) is Some,
        number_value(*b, operand_type(t, op)) is Some,
    ensures
        r == binary_outcome(t, op, number_value(*a, operand_type(t, op))->0, number_value(*b, operand_type(t, op))->0),
{
    match (a, b) {
        (Data::U8(x), Data::U8(y)) => u8_binary(t, op, *x, *y),
        (Data::U16(x), Data::U16(y)) => u16_binary(t, op, *x, *y),
        (Data::U32(x), Data::U32(y)) => u32_binary(t, op, *x, *y),
        (Data::U64(x), Data::U64(y)) => u64_binary(t, op, *x, *y),
        (Data::USize(x), Data::USize(y)) => usize_binary(t, op, *x, *y),
        (Data::I8(x), Data::I8(y)) => i8_binary(t, op, *x, *y),
        (Data::I16(x), Data::I16(y)) => i16_binary(t, op, *x, *y),
        (Data::I32(x), Data::I32(y)) => i32_binary(t, op, *x, *y),
        (Data::I64(x), Data::I64(y)) => i64_binary(t, op, *x, *y),
        (Data::ISize(x), Data::ISize(y)) => isize_binary(t, op, *x, *y),
        _ => Err(Fault::WrongType),
    }
}

/// Operand `i` of a number operation: `MissingArgument` when there is none, `WrongType`
/// when it is not a number of type `t`.
pub open spec fn number_operand(h: Seq<Option<Object>>, args: Seq<Gc>, i: int, t: NumberType) -> Result<int, Fault> {
    if args.len() <= i {
        Err(Fault::MissingArgument)
    } else if !live_in(h, args[i]) {
        Err(Fault::WrongType)
    } else {
        match number_value(object_in(h, args[i]).value, t) {
            Some(v) => Ok(v),
            None => Err(Fault::WrongType),
        }
    }
}

/// The two operands of a number operation, first checked first.
pub open spec fn number_operands(h: Seq<Option<Object>>, args: Seq<Gc>, t: NumberType) -> Result<(int, int), Fault> {
    match number_operand(h, args, 0, t) {
        Err(e) => Err(e),
        Ok(a) => match number_operand(h, args, 1, t) {
            Err(e) => Err(e),
            Ok(b) => Ok((a, b)),
        },
    }
}

/// A new number object holding `value`, of the kind looked up for numbers of type `t`.
pub fn new_number(heap: &mut GcAllocator, scope: Gc, t: NumberType, value: Data) -> (r: Result<Gc, Fault>)
    ensures
        made_object(old(heap)@, final(heap)@, r, scope, number_kind_name(t), None),
        r matches Ok(g) ==> object_in(final(heap)@, g).value == value,
{
    new_object_of_kind(heap, scope, number_kind_str(t), value, None)
}

/// What the provided function `op` on numbers of type `t` gives for the arguments `args`,
/// from the heap `h` to the heap `h2`.
pub open spec fn number_binary_done(h: Seq<Option<Object>>, h2: Seq<Option<Object>>, scope: Gc, t: NumberType, op: NumberOp, args: Seq<Gc>, r: Result<Gc, Fault>) -> bool {
    match number_operands(h, args, operand_type(t, op)) {
        Err(e) => r == Err::<Gc, Fault>(e) && h2 == h,
        Ok((a, b)) => match binary_outcome(t, op, a, b) {
            Err(e) => r == Err::<Gc, Fault>(e) && h2 == h,
            Ok(Data::Bool(x)) => r == bool_result(h, scope, x) && h2 == h,
            Ok(d) => made_object(h, h2, r, scope, number_kind_name(t), None) && (r matches Ok(g)
                ==> object_in(h2, g).value == d),
        },
    }
}

/// The provided function `op` on numbers of type `t` (such as `u8.add`), applied to the
/// arguments `args`: a new number, or for `eq` the shared boolean.
pub fn number_binary(heap: &mut GcAllocator, scope: Gc, t: NumberType, op: NumberOp, args: &Vec<Gc>) -> (r: Result<Gc, Fault>)
    ensures
        number_binary_done(old(heap)@, final(heap)@, scope, t, op, args@, r),
{
    let ot = if t == NumberType::I64 && op == NumberOp::Eq { NumberType::ISize } else { t };
    if args.len() < 1 {
        return Err(Fault::MissingArgument);
    }
    let a = match heap.data(args[0]) {
        Some(d) => if number_is(d, ot) { d } else { return Err(Fault::WrongType); },
        None => {
            return Err(Fault::WrongType);
        },
    };
    if args.len() < 2 {
        return Err(Fault::MissingArgument);
    }
    let b = match heap.data(args[1]) {
        Some(d) => if number_is(d, ot) { d } else { return Err(Fault::WrongType); },
        None => {
            return Err(Fault::WrongType);
        },
    };
    let result = binary_data(t, op, a, b);
    match result {
        Ok(Data::Bool(x)) => new_bool(heap, scope, x),
        Ok(d) => new_number(heap, scope, t, d),
        Err(e) => Err(e),
    }
}

/// Whether `d` is a number of type `t`.
pub fn number_is(d: &Data, t: NumberType) -> (b: bool)
    ensures
        b == (number_value(*d, t) is Some),
{
    match (t, d) {
        (NumberType::U8, Data::U8(_)) => true,
        (NumberType::U16, Data::U16(_)) => true,
        (NumberType::U32, Data::U32(_)) => true,
        (NumberType::U64, Data::U64(_)) => true,
        (NumberType::USize, Data::USize(_)) => true,
        (NumberType::I8, Data::I8(_)) => true,
        (NumberType::I16, Data::I16(_)) => true,
        (NumberType::I32, Data::I32(_)) => true,
        (NumberType::I64, Data::I64(_)) => true,
        (NumberType::ISize, Data::ISize(_)) => true,
        _ => false,
    }
}

/// The kind of `u8` numbers, looked up under `U8` in `scope`.
pub fn u8_kind(heap: &GcAllocator, scope: Gc) -> (r: Result<Gc, Fault>)
    ensures
        r == kind_result(heap@, scope, "U8"@),
{
    kind_named(heap, scope, "U8")
}

/// A new `u8` number object holding `value`.
pub fn new_u8(heap: &mut GcAllocator, scope: Gc, value: u8) -> (r: Result<Gc, Fault>)
    ensures
        made_object(old(heap)@, final(heap)@, r, scope, "U8"@, None),
        r matches Ok(g) ==> object_in(final(heap)@, g).value == Data::U8(value),
{
    new_object_of_kind(heap, scope, "U8", Data::U8(value), None)
}

/// The kind of `u16` numbers, bound to `U16` in `scope`.
pub fn u16_kind(heap: &GcAllocator, scope: Gc) -> (r: Result<Gc, Fault>)
    ensures
        r == kind_result(heap@, scope, "U16"@),
{
    kind_named(heap, scope, "U16")
}

/// A new `u16` number object holding `value`.
pub fn new_u16(heap: &mut GcAllocator, scope: Gc, value: u16) -> (r: Result<Gc, Fault>)
    ensures
        made_object(old(heap)@, final(heap)@, r, scope, "U16"@, None),
        r matches Ok(g) ==> object_in(final(heap)@, g).value == Data::U16(value),
{
    new_object_of_kind(heap, scope, "U16", Data::U16(value), None)
}

/// The kind of `u32` numbers, looked up under `U32` in `scope`.
pub fn u32_kind(heap: &GcAllocator, scope: Gc) -> (r: Result<Gc, Fault>)
    ensures
        r == kind_result(heap@, scope, "U32"@),
{
    kind_named(heap, scope, "U32")
}

/// A new `u32` number object holding `value`.
pub fn new_u32(heap: &mut GcAllocator, scope: Gc, value: u32) -> (r: Result<Gc, Fault>)
    ensures
        made_object(old(heap)@, final(heap)@, r, scope, "U32"@, None),
        r matches Ok(g) ==> object_in(final(heap)@, g).value == Data::U32(value),
{
    new_object_of_kind(heap, scope, "U32", Data::U32(value), None)
}

/// The kind of `u64` numbers, looked up under `U64` in `scope`.
pub fn u64_kind(heap: &GcAllocator, scope: Gc) -> (r: Result<Gc, Fault>)
    ensures
        r == kind_result(heap@, scope, "U64"@),
{
    kind_named(heap, scope, "U64")
}

/// A new `u64` number object holding `value`.
pub fn new_u64(heap: &mut GcAllocator, scope: Gc, value: u64) -> (r: Result<Gc, Fault>)
    ensures
        made_object(old(heap)@, final(heap)@, r, scope, "U64"@, None),
        r matches Ok(g) ==> object_in(final(heap)@, g).value == Data::U64(value),
{
    new_object_of_kind(heap, scope, "U64", Data::U64(value), None)
}

/// The kind of `usize` numbers, looked up under `USize` in `scope`.
pub fn usize_kind(heap: &GcAllocator, scope: Gc) -> (r: Result<Gc, Fault>)
    ensures
        r == kind_result(heap@, scope, "USize"@),
{
    kind_named(heap, scope, "USize")
}

/// A new `usize` number object holding `value`.
pub fn new_usize(heap: &mut GcAllocator, scope: Gc, value: usize) -> (r: Result<Gc, Fault>)
    ensures
        made_object(old(heap)@, final(heap)@, r, scope, "USize"@, None),
        r matches Ok(g) ==> object_in(final(heap)@, g).value == Data::USize(value),
{
    new_object_of_kind(heap, scope, "USize", Data::USize(value), None)
}

/// The kind of `i8` numbers, looked up under `I8` in `scope`.
pub fn i8_kind(heap: &GcAllocator, scope: Gc) -> (r: Result<Gc, Fault>)
    ensures
        r == kind_result(heap@, scope, "I8"@),
{
    kind_named(heap, scope, "I8")
}

/// A new `i8` number object holding `value`.
pub fn new_i8(heap: &mut GcAllocator, scope: Gc, value: i8) -> (r: Result<Gc, Fault>)
    ensures
        made_object(old(heap)@, final(heap)@, r, scope, "I8"@, None),
        r matches Ok(g) ==> object_in(final(heap)@, g).value == Data::I8(value),
{
    new_object_of_kind(heap, scope, "I8", Data::I8(value), None)
}

/// The kind of `i16` numbers, bound to `I16` in `scope`.
pub fn i16_kind(heap: &GcAllocator, scope: Gc) -> (r: Result<Gc, Fault>)
    ensures
        r == kind_result(heap@, scope, "I16"@),
{
    kind_named(heap, scope, "I16")
}

/// A new `i16` number object holding `value`.
pub fn new_i16(heap: &mut GcAllocator, scope: Gc, value: i16) -> (r: Result<Gc, Fault>)
    ensures
        made_object(old(heap)@, final(heap)@, r, scope, "I16"@, None),
        r matches Ok(g) ==> object_in(final(heap)@, g).value == Data::I16(value),
{
    new_object_of_kind(heap, scope, "I16", Data::I16(value), None)
}

/// The kind of `i32` numbers, looked up under `I32` in `scope`.
pub fn i32_kind(heap: &GcAllocator, scope: Gc) -> (r: Result<Gc, Fault>)
    ensures
        r == kind_result(heap@, scope, "I32"@),
{
    kind_named(heap, scope, "I32")
}

/// A new `i32` number object holding `value`.
pub fn new_i32(heap: &mut GcAllocator, scope: Gc, value: i32) -> (r: Result<Gc, Fault>)
    ensures
        made_object(old(heap)@, final(heap)@, r, scope, "I32"@, None),
        r matches Ok(g) ==> object_in(final(heap)@, g).value == Data::I32(value),
{
    new_object_of_kind(heap, scope, "I32", Data::I32(value), None)
}

/// The kind of `i64` numbers, looked up under `I64` in `scope`.
pub fn i64_kind(heap: &GcAllocator, scope: Gc) -> (r: Result<Gc, Fault>)
    ensures
        r == kind_result(heap@, scope, "I64"@),
{
    kind_named(heap, scope, "I64")
}

/// A new `i64` number object holding `value`.
pub fn new_i64(heap: &mut GcAllocator, scope: Gc, value: i64) -> (r: Result<Gc, Fault>)
    ensures
        made_object(old(heap)@, final(heap)@, r, scope, "I64"@, None),
        r matches Ok(g) ==> object_in(final(heap)@, g).value == Data::I64(value),
{
    new_object_of_kind(heap, scope, "I64", Data::I64(value), None)
}

/// The kind of `isize` numbers, looked up under `ISize` in `scope`.
pub fn isize_kind(heap: &GcAllocator, scope: Gc) -> (r: Result<Gc, Fault>)
    ensures
        r == kind_result(heap@, scope, "ISize"@),
{
    kind_named(heap, scope, "ISize")
}

/// A new `isize` number object holding `value`.
pub fn new_isize(heap: &mut GcAllocator, scope: Gc, value: isize) -> (r: Result<Gc, Fault>)
    ensures
        made_object(old(heap)@, final(heap)@, r, scope, "ISize"@, None),
        r matches Ok(g) ==> object_in(final(heap)@, g).value == Data::ISize(value),
{
    new_object_of_kind(heap, scope, "ISize", Data::ISize(value), None)
}

} // verus!
