use vstd::prelude::*;

use crate::gc::Gc;
use crate::gc_allocator::{live_in, object_in, GcAllocator};
use crate::kind::Kind;
use crate::object::{Data, Object};
use vstd::string::StrSliceExecFns;

verus! {

/// The result of comparing two values that can be compared.
#[derive(PartialEq, Eq, Structural, Clone, Copy)]
pub enum Order {
    Less,
    Equal,
    Greater,
}

/// The order of two integers.
pub open spec fn int_order(a: int, b: int) -> Order {
    if a < b {
        Order::Less
    } else if a == b {
        Order::Equal
    } else {
        Order::Greater
    }
}

/// The order of two strings: character by character, and a prefix before the longer.
pub open spec fn chars_order(a: Seq<char>, b: Seq<char>) -> Order
    decreases a.len(),
{
    if a.len() == 0 {
        if b.len() == 0 {
            Order::Equal
        } else {
            Order::Less
        }
    } else if b.len() == 0 {
        Order::Greater
    } else if int_order(a[0] as int, b[0] as int) == Order::Equal {
        chars_order(a.drop_first(), b.drop_first())
    } else {
        int_order(a[0] as int, b[0] as int)
    }
}

/// The order of two kinds: by name, then size, then alignment.
pub open spec fn kind_order(a: Kind, b: Kind) -> Order {
    if chars_order(a.name@, b.name@) != Order::Equal {
        chars_order(a.name@, b.name@)
    } else if a.size != b.size {
        int_order(a.size as int, b.size as int)
    } else {
        int_order(a.align as int, b.align as int)
    }
}

/// Whether `a` and `b` refer to kinds with the same name, size and alignment.
pub open spec fn kind_eq(h: Seq<Option<Object>>, a: Gc, b: Gc) -> bool {
    live_in(h, a) && live_in(h, b) && match (object_in(h, a).value, object_in(h, b).value) {
        (Data::Kind(x), Data::Kind(y)) => x.name@ == y.name@ && x.size == y.size && x.align == y.align,
        _ => false,
    }
}

/// The order of the objects that `a` and `b` refer to, when they can be compared: they
/// must be of equal kinds and of the same type, and a type without an order (maps, sets,
/// scopes, functions) is never ordered. Nested values are compared to a nesting of at
/// most `depth`.
pub open spec fn gc_order(h: Seq<Option<Object>>, a: Gc, b: Gc, depth: nat) -> Option<Order>
    decreases depth, 2nat, 0nat,
{
    if !live_in(h, a) || !live_in(h, b) {
        None
    } else if !kind_eq(h, object_in(h, a).kind, object_in(h, b).kind) {
        None
    } else {
        data_order(h, object_in(h, a).value, object_in(h, b).value, depth)
    }
}

/// The order of two contents, as `gc_order` describes.
pub open spec fn data_order(h: Seq<Option<Object>>, a: Data, b: Data, depth: nat) -> Option<Order>
    decreases depth, 1nat, 0nat,
{
    match (a, b) {
        (Data::Nil, Data::Nil) => Some(Order::Equal),
        (Data::Bool(x), Data::Bool(y)) => Some(
            int_order(if x { 1int } else { 0int }, if y { 1int } else { 0int }),
        ),
        (Data::Char(x), Data::Char(y)) => Some(int_order(x as int, y as int)),
        (Data::Str(x), Data::Str(y)) => Some(chars_order(x@, y@)),
        (Data::U8(x), Data::U8(y)) => Some(int_order(x as int, y as int)),
        (Data::U16(x), Data::U16(y)) => Some(int_order(x as int, y as int)),
        (Data::U32(x), Data::U32(y)) => Some(int_order(x as int, y as int)),
        (Data::U64(x), Data::U64(y)) => Some(int_order(x as int, y as int)),
        (Data::USize(x), Data::USize(y)) => Some(int_order(x as int, y as int)),
        (Data::I8(x), Data::I8(y)) => Some(int_order(x as int, y as int)),
        (Data::I16(x), Data::I16(y)) => Some(int_order(x as int, y as int)),
        (Data::I32(x), Data::I32(y)) => Some(int_order(x as int, y as int)),
        (Data::I64(x), Data::I64(y)) => Some(int_order(x as int, y as int)),
        (Data::ISize(x), Data::ISize(y)) => Some(int_order(x as int, y as int)),
        (Data::Symbol(x), Data::Symbol(y)) => Some(chars_order(x.0@, y.0@)),
        (Data::Keyword(x), Data::Keyword(y)) => Some(chars_order(x.0@, y.0@)),
        (Data::Kind(x), Data::Kind(y)) => Some(kind_order(x, y)),
        (Data::Escape(x), Data::Escape(y)) => if depth == 0 {
            None
        } else {
            gc_order(h, x.0, y.0, (depth - 1) as nat)
        },
        (Data::Atom(x), Data::Atom(y)) => if depth == 0 {
            None
        } else {
            gc_order(h, x.value, y.value, (depth - 1) as nat)
        },
        (Data::PersistentList(x), Data::PersistentList(y)) => seq_order(h, x@, y@, depth),
        (Data::PersistentVector(x), Data::PersistentVector(y)) => seq_order(h, x@, y@, depth),
        (Data::List(x), Data::List(y)) => seq_order(h, x@, y@, depth),
        (Data::Vector(x), Data::Vector(y)) => seq_order(h, x@, y@, depth),
        (Data::LinkedMap(x), Data::LinkedMap(y)) => pairs_order(h, x@, y@, depth),
        _ => None,
    }
}

/// The lexicographic order of two sequences of values.
pub open spec fn seq_order(h: Seq<Option<Object>>, a: Seq<Gc>, b: Seq<Gc>, depth: nat) -> Option<Order>
    decreases depth, 0nat, a.len(),
{
    if a.len() == 0 {
        if b.len() == 0 {
            Some(Order::Equal)
        } else {
            Some(Order::Less)
        }
    } else if b.len() == 0 {
        Some(Order::Greater)
    } else if depth == 0 {
        None
    } else if gc_order(h, a[0], b[0], (depth - 1) as nat) == Some(Order::Equal) {
        seq_order(h, a.drop_first(), b.drop_first(), depth)
    } else {
        gc_order(h, a[0], b[0], (depth - 1) as nat)
    }
}

/// The order of two key-value pairs: by key, then by value.
pub open spec fn pair_order(h: Seq<Option<Object>>, a: (Gc, Gc), b: (Gc, Gc), depth: nat) -> Option<Order>
    decreases depth, 0nat, 0nat,
{
    if depth == 0 {
        None
    } else if gc_order(h, a.0, b.0, (depth - 1) as nat) == Some(Order::Equal) {
        gc_order(h, a.1, b.1, (depth - 1) as nat)
    } else {
        gc_order(h, a.0, b.0, (depth - 1) as nat)
    }
}

/// The lexicographic order of two sequences of key-value pairs.
pub open spec fn pairs_order(h: Seq<Option<Object>>, a: Seq<(Gc, Gc)>, b: Seq<(Gc, Gc)>, depth: nat) -> Option<Order>
    decreases depth, 0nat, a.len() + 1,
{
    if a.len() == 0 {
        if b.len() == 0 {
            Some(Order::Equal)
        } else {
            Some(Order::Less)
        }
    } else if b.len() == 0 {
        Some(Order::Greater)
    } else if pair_order(h, a[0], b[0], depth) == Some(Order::Equal) {
        pairs_order(h, a.drop_first(), b.drop_first(), depth)
    } else {
        pair_order(h, a[0], b[0], depth)
    }
}

/// The nesting to which the runtime compares values: the number of slots of the heap,
/// which bounds the nesting of values that do not contain themselves.
pub open spec fn full_depth(h: Seq<Option<Object>>) -> nat {
    h.len()
}

/// Whether two values are equal: of equal kinds, and equal as their type compares them.
pub open spec fn values_equal(h: Seq<Option<Object>>, a: Gc, b: Gc) -> bool {
    gc_order(h, a, b, full_depth(h)) == Some(Order::Equal)
}

/// The order of two integers.
fn order_ints(a: i128, b: i128) -> (r: Order)
    ensures
        r == int_order(a as int, b as int),
{
    if a < b {
        Order::Less
    } else if a == b {
        Order::Equal
    } else {
        Order::Greater
    }
}

/// The order of two strings, as `chars_order` states it.
pub fn order_strs(a: &str, b: &str) -> (r: Order)
    ensures
        r == chars_order(a@, b@),
{
    let n = a.unicode_len();
    let m = b.unicode_len();
    let mut i: usize = 0;
    assert(a@.skip(0) =~= a@);
    assert(b@.skip(0) =~= b@);
    while i < n && i < m
        invariant
            n == a@.len(),
            m == b@.len(),
            i <= n,
            i <= m,
            chars_order(a@, b@) == chars_order(a@.skip(i as int), b@.skip(i as int)),
        decreases n - i,
    {
        let x = a.get_char(i);
        let y = b.get_char(i);
        let o = order_ints(x as u32 as i128, y as u32 as i128);
        assert(a@.skip(i as int)[0] == x);
        assert(b@.skip(i as int)[0] == y);
        if o != Order::Equal {
            return o;
        }
        assert(a@.skip(i as int).drop_first() =~= a@.skip(i + 1));
        assert(b@.skip(i as int).drop_first() =~= b@.skip(i + 1));
        i = i + 1;
    }
    if i == n {
        if i == m {
            Order::Equal
        } else {
            Order::Less
        }
    } else {
        Order::Greater
    }
}

/// Whether `a` and `b` refer to kinds with the same name, size and alignment.
pub fn kinds_equal(heap: &GcAllocator, a: Gc, b: Gc) -> (r: bool)
    ensures
        r == kind_eq(heap@, a, b),
{
    match (heap.data(a), heap.data(b)) {
        (Some(Data::Kind(x)), Some(Data::Kind(y))) => {
            proof {
                lemma_chars_order_equal(x.name@, y.name@);
            }
            x.size == y.size && x.align == y.align && order_strs(x.name.as_str(), y.name.as_str())
                == Order::Equal
        },
        _ => false,
    }
}

/// Two strings are in the order `Equal` exactly when they are the same.
pub proof fn lemma_chars_order_equal(a: Seq<char>, b: Seq<char>)
    ensures
        (chars_order(a, b) == Order::Equal) <==> (a == b),
    decreases a.len(),
{
    if a.len() > 0 && b.len() > 0 {
        lemma_chars_order_equal(a.drop_first(), b.drop_first());
        if a == b {
            assert(a.drop_first() == b.drop_first());
        }
        if a.drop_first() == b.drop_first() && a[0] == b[0] {
            assert(a =~= seq![a[0]] + a.drop_first());
            assert(b =~= seq![b[0]] + b.drop_first());
        }
    } else if a.len() == 0 && b.len() == 0 {
        assert(a =~= b);
    }
}

/// The order of two values, as `gc_order` states it.
pub fn compare(heap: &GcAllocator, a: Gc, b: Gc, depth: usize) -> (r: Option<Order>)
    ensures
        r == gc_order(heap@, a, b, depth as nat),
    decreases depth, 2nat, 0nat,
{
    match (heap.get(a), heap.get(b)) {
        (Some(x), Some(y)) => {
            if !kinds_equal(heap, x.kind, y.kind) {
                None
            } else {
                compare_data(heap, &x.value, &y.value, depth)
            }
        },
        _ => None,
    }
}

/// The order of two contents, as `data_order` states it.
pub fn compare_data(heap: &GcAllocator, a: &Data, b: &Data, depth: usize) -> (r: Option<Order>)
    ensures
        r == data_order(heap@, *a, *b, depth as nat),
    decreases depth, 1nat, 0nat,
{
    match (a, b) {
        (Data::Nil, Data::Nil) => Some(Order::Equal),
        (Data::Bool(x), Data::Bool(y)) => Some(
            order_ints(if *x { 1 } else { 0 }, if *y { 1 } else { 0 }),
        ),
        (Data::Char(x), Data::Char(y)) => Some(order_ints(*x as u32 as i128, *y as u32 as i128)),
        (Data::Str(x), Data::Str(y)) => Some(order_strs(x.as_str(), y.as_str())),
        (Data::U8(x), Data::U8(y)) => Some(order_ints(*x as i128, *y as i128)),
        (Data::U16(x), Data::U16(y)) => Some(order_ints(*x as i128, *y as i128)),
        (Data::U32(x), Data::U32(y)) => Some(order_ints(*x as i128, *y as i128)),
        (Data::U64(x), Data::U64(y)) => Some(order_ints(*x as i128, *y as i128)),
        (Data::USize(x), Data::USize(y)) => Some(order_ints(*x as i128, *y as i128)),
        (Data::I8(x), Data::I8(y)) => Some(order_ints(*x as i128, *y as i128)),
        (Data::I16(x), Data::I16(y)) => Some(order_ints(*x as i128, *y as i128)),
        (Data::I32(x), Data::I32(y)) => Some(order_ints(*x as i128, *y as i128)),
        (Data::I64(x), Data::I64(y)) => Some(order_ints(*x as i128, *y as i128)),
        (Data::ISize(x), Data::ISize(y)) => Some(order_ints(*x as i128, *y as i128)),
        (Data::Symbol(x), Data::Symbol(y)) => Some(order_strs(x.0.as_str(), y.0.as_str())),
        (Data::Keyword(x), Data::Keyword(y)) => Some(order_strs(x.0.as_str(), y.0.as_str())),
        (Data::Kind(x), Data::Kind(y)) => {
            let o = order_strs(x.name.as_str(), y.name.as_str());
            if o != Order::Equal {
                Some(o)
            } else if x.size != y.size {
                Some(order_ints(x.size as i128, y.size as i128))
            } else {
                Some(order_ints(x.align as i128, y.align as i128))
            }
        },
        (Data::Escape(x), Data::Escape(y)) => if depth == 0 {
            None
        } else {
            compare(heap, x.0, y.0, depth - 1)
        },
        (Data::Atom(x), Data::Atom(y)) => if depth == 0 {
            None
        } else {
            compare(heap, x.value, y.value, depth - 1)
        },
        (Data::PersistentList(x), Data::PersistentList(y)) => compare_seqs(heap, x.items_ref(), y.items_ref(), depth),
        (Data::PersistentVector(x), Data::PersistentVector(y)) => compare_seqs(heap, x.items_ref(), y.items_ref(), depth),
        (Data::List(x), Data::List(y)) => compare_seqs(heap, x.items_ref(), y.items_ref(), depth),
        (Data::Vector(x), Data::Vector(y)) => compare_seqs(heap, x.items_ref(), y.items_ref(), depth),
        (Data::LinkedMap(x), Data::LinkedMap(y)) => compare_pair_seqs(heap, x.items_ref(), y.items_ref(), depth),
        _ => None,
    }
}

/// The lexicographic order of two sequences of values, as `seq_order` states it.
pub fn compare_seqs(heap: &GcAllocator, a: &Vec<Gc>, b: &Vec<Gc>, depth: usize) -> (r: Option<Order>)
    ensures
        r == seq_order(heap@, a@, b@, depth as nat),
    decreases depth, 0nat, a@.len(),
{
    let mut i: usize = 0;
    assert(a@.skip(0) =~= a@);
    assert(b@.skip(0) =~= b@);
    while i < a.len() && i < b.len()
        invariant
            i <= a@.len(),
            i <= b@.len(),
            seq_order(heap@, a@, b@, depth as nat) == seq_order(heap@, a@.skip(i as int), b@.skip(i as int), depth as nat),
        decreases a@.len() - i,
    {
        if depth == 0 {
            return None;
        }
        let o = compare(heap, a[i], b[i], depth - 1);
        assert(a@.skip(i as int)[0] == a@[i as int]);
        assert(b@.skip(i as int)[0] == b@[i as int]);
        match o {
            Some(Order::Equal) => {},
            _ => { return o; },
        }
        assert(a@.skip(i as int).drop_first() =~= a@.skip(i + 1));
        assert(b@.skip(i as int).drop_first() =~= b@.skip(i + 1));
        i = i + 1;
    }
    if i == a.len() {
        if i == b.len() {
            Some(Order::Equal)
        } else {
            Some(Order::Less)
        }
    } else {
        Some(Order::Greater)
    }
}

/// The lexicographic order of two sequences of pairs, as `pairs_order` states it.
pub fn compare_pair_seqs(heap: &GcAllocator, a: &Vec<(Gc, Gc)>, b: &Vec<(Gc, Gc)>, depth: usize) -> (r: Option<Order>)
    ensures
        r == pairs_order(heap@, a@, b@, depth as nat),
    decreases depth, 0nat, a@.len() + 1,
{
    let mut i: usize = 0;
    assert(a@.skip(0) =~= a@);
    assert(b@.skip(0) =~= b@);
    while i < a.len() && i < b.len()
        invariant
            i <= a@.len(),
            i <= b@.len(),
            pairs_order(heap@, a@, b@, depth as nat) == pairs_order(heap@, a@.skip(i as int), b@.skip(i as int), depth as nat),
        decreases a@.len() - i,
    {
        let o = compare_pair(heap, a[i], b[i], depth);
        assert(a@.skip(i as int)[0] == a@[i as int]);
        assert(b@.skip(i as int)[0] == b@[i as int]);
        match o {
            Some(Order::Equal) => {},
            _ => { return o; },
        }
        assert(a@.skip(i as int).drop_first() =~= a@.skip(i + 1));
        assert(b@.skip(i as int).drop_first() =~= b@.skip(i + 1));
        i = i + 1;
    }
    if i == a.len() {
        if i == b.len() {
            Some(Order::Equal)
        } else {
            Some(Order::Less)
        }
    } else {
        Some(Order::Greater)
    }
}

/// The order of two key-value pairs, as `pair_order` states it.
fn compare_pair(heap: &GcAllocator, a: (Gc, Gc), b: (Gc, Gc), depth: usize) -> (r: Option<Order>)
    ensures
        r == pair_order(heap@, a, b, depth as nat),
    decreases depth, 0nat, 0nat,
{
    if depth == 0 {
        None
    } else {
        let o = compare(heap, a.0, b.0, depth - 1);
        match o {
            Some(Order::Equal) => compare(heap, a.1, b.1, depth - 1),
            _ => o,
        }
    }
}

/// Whether two values are equal, as `values_equal` states it.
pub fn value_equals(heap: &GcAllocator, a: Gc, b: Gc) -> (r: bool)
    ensures
        r == values_equal(heap@, a, b),
{
    match compare(heap, a, b, heap.len()) {
        Some(Order::Equal) => true,
        _ => false,
    }
}

/// The order the other way round: `Less` and `Greater` swap, `Equal` stays.
pub open spec fn flipped(o: Option<Order>) -> Option<Order> {
    match o {
        Some(Order::Less) => Some(Order::Greater),
        Some(Order::Greater) => Some(Order::Less),
        other => other,
    }
}

/// A value that can be compared with itself is equal to itself.
pub proof fn lemma_gc_order_reflexive(h: Seq<Option<Object>>, x: Gc, depth: nat)
    ensures
        gc_order(h, x, x, depth) is Some ==> gc_order(h, x, x, depth) == Some(Order::Equal),
    decreases depth, 2nat, 0nat,
{
    if live_in(h, x) && kind_eq(h, object_in(h, x).kind, object_in(h, x).kind) {
        lemma_data_order_reflexive(h, object_in(h, x).value, depth);
    }
}

/// Contents that can be compared with themselves are equal to themselves.
pub proof fn lemma_data_order_reflexive(h: Seq<Option<Object>>, d: Data, depth: nat)
    ensures
        data_order(h, d, d, depth) is Some ==> data_order(h, d, d, depth) == Some(Order::Equal),
    decreases depth, 1nat, 0nat,
{
    match d {
        Data::Str(x) => lemma_chars_order_equal(x@, x@),
        Data::Symbol(x) => lemma_chars_order_equal(x.0@, x.0@),
        Data::Keyword(x) => lemma_chars_order_equal(x.0@, x.0@),
        Data::Kind(x) => lemma_chars_order_equal(x.name@, x.name@),
        Data::Escape(x) => if depth > 0 {
            lemma_gc_order_reflexive(h, x.0, (depth - 1) as nat);
        },
        Data::Atom(x) => if depth > 0 {
            lemma_gc_order_reflexive(h, x.value, (depth - 1) as nat);
        },
        Data::PersistentList(x) => lemma_seq_order_reflexive(h, x@, depth),
        Data::PersistentVector(x) => lemma_seq_order_reflexive(h, x@, depth),
        Data::List(x) => lemma_seq_order_reflexive(h, x@, depth),
        Data::Vector(x) => lemma_seq_order_reflexive(h, x@, depth),
        Data::LinkedMap(x) => lemma_pairs_order_reflexive(h, x@, depth),
        _ => {},
    }
}

/// A sequence of values that can be compared with itself is equal to itself.
pub proof fn lemma_seq_order_reflexive(h: Seq<Option<Object>>, a: Seq<Gc>, depth: nat)
    ensures
        seq_order(h, a, a, depth) is Some ==> seq_order(h, a, a, depth) == Some(Order::Equal),
    decreases depth, 0nat, a.len(),
{
    if a.len() > 0 && depth > 0 {
        lemma_gc_order_reflexive(h, a[0], (depth - 1) as nat);
        if gc_order(h, a[0], a[0], (depth - 1) as nat) == Some(Order::Equal) {
            lemma_seq_order_reflexive(h, a.drop_first(), depth);
        }
    }
}

/// A pair that can be compared with itself is equal to itself.
pub proof fn lemma_pair_order_reflexive(h: Seq<Option<Object>>, a: (Gc, Gc), depth: nat)
    ensures
        pair_order(h, a, a, depth) is Some ==> pair_order(h, a, a, depth) == Some(Order::Equal),
    decreases depth, 0nat, 0nat,
{
    if depth > 0 {
        lemma_gc_order_reflexive(h, a.0, (depth - 1) as nat);
        lemma_gc_order_reflexive(h, a.1, (depth - 1) as nat);
    }
}

/// A sequence of pairs that can be compared with itself is equal to itself.
pub proof fn lemma_pairs_order_reflexive(h: Seq<Option<Object>>, a: Seq<(Gc, Gc)>, depth: nat)
    ensures
        pairs_order(h, a, a, depth) is Some ==> pairs_order(h, a, a, depth) == Some(Order::Equal),
    decreases depth, 0nat, a.len() + 1,
{
    if a.len() > 0 {
        lemma_pair_order_reflexive(h, a[0], depth);
        if pair_order(h, a[0], a[0], depth) == Some(Order::Equal) {
            lemma_pairs_order_reflexive(h, a.drop_first(), depth);
        }
    }
}

/// Two strings compared the other way round are in the flipped order.
pub proof fn lemma_chars_order_flip(a: Seq<char>, b: Seq<char>)
    ensures
        Some(chars_order(b, a)) == flipped(Some(chars_order(a, b))),
    decreases a.len(),
{
    if a.len() > 0 && b.len() > 0 {
        lemma_chars_order_flip(a.drop_first(), b.drop_first());
    }
}

/// Two values compared the other way round are in the flipped order, or neither way.
pub proof fn lemma_gc_order_flip(h: Seq<Option<Object>>, a: Gc, b: Gc, depth: nat)
    ensures
        gc_order(h, b, a, depth) == flipped(gc_order(h, a, b, depth)),
    decreases depth, 2nat, 0nat,
{
    if live_in(h, a) && live_in(h, b) {
        let ka = object_in(h, a).kind;
        let kb = object_in(h, b).kind;
        assert(kind_eq(h, ka, kb) == kind_eq(h, kb, ka));
        if kind_eq(h, ka, kb) {
            lemma_data_order_flip(h, object_in(h, a).value, object_in(h, b).value, depth);
        }
    }
}

/// Two contents compared the other way round are in the flipped order, or neither way.
pub proof fn lemma_data_order_flip(h: Seq<Option<Object>>, a: Data, b: Data, depth: nat)
    ensures
        data_order(h, b, a, depth) == flipped(data_order(h, a, b, depth)),
    decreases depth, 1nat, 1nat,
{
    if a is Nil || a is Bool || a is Char || a is U8 || a is U16 || a is U32 || a is U64 || a is USize || a is I8
        || a is I16 || a is I32 || a is I64 || a is ISize {
        lemma_scalar_order_flip(h, a, b, depth);
    } else if a is Str || a is Symbol || a is Keyword || a is Kind {
        lemma_text_order_flip(h, a, b, depth);
    } else if a is Escape || a is Atom || a is PersistentList || a is PersistentVector || a is List || a is Vector
        || a is LinkedMap {
        lemma_nested_order_flip(h, a, b, depth);
    } else {
        lemma_unordered_flip(h, a, b, depth);
    }
}

/// Scalar contents compared the other way round are in the flipped order.
proof fn lemma_scalar_order_flip(h: Seq<Option<Object>>, a: Data, b: Data, depth: nat)
    requires
        a is Nil || a is Bool || a is Char || a is U8 || a is U16 || a is U32 || a is U64 || a is USize || a is I8
            || a is I16 || a is I32 || a is I64 || a is ISize,
    ensures
        data_order(h, b, a, depth) == flipped(data_order(h, a, b, depth)),
{
}

/// Contents ordered by their text compared the other way round are in the flipped order.
proof fn lemma_text_order_flip(h: Seq<Option<Object>>, a: Data, b: Data, depth: nat)
    requires
        a is Str || a is Symbol || a is Keyword || a is Kind,
    ensures
        data_order(h, b, a, depth) == flipped(data_order(h, a, b, depth)),
{
    match (a, b) {
        (Data::Str(x), Data::Str(y)) => lemma_chars_order_flip(x@, y@),
        (Data::Symbol(x), Data::Symbol(y)) => lemma_chars_order_flip(x.0@, y.0@),
        (Data::Keyword(x), Data::Keyword(y)) => lemma_chars_order_flip(x.0@, y.0@),
        (Data::Kind(x), Data::Kind(y)) => lemma_chars_order_flip(x.name@, y.name@),
        _ => {},
    }
}

/// Contents holding values compared the other way round are in the flipped order.
proof fn lemma_nested_order_flip(h: Seq<Option<Object>>, a: Data, b: Data, depth: nat)
    requires
        a is Escape || a is Atom || a is PersistentList || a is PersistentVector || a is List || a is Vector
            || a is LinkedMap,
    ensures
        data_order(h, b, a, depth) == flipped(data_order(h, a, b, depth)),
    decreases depth, 1nat, 0nat,
{
    match (a, b) {
        (Data::Escape(x), Data::Escape(y)) => if depth > 0 {
            lemma_gc_order_flip(h, x.0, y.0, (depth - 1) as nat);
        },
        (Data::Atom(x), Data::Atom(y)) => if depth > 0 {
            lemma_gc_order_flip(h, x.value, y.value, (depth - 1) as nat);
        },
        (Data::PersistentList(x), Data::PersistentList(y)) => lemma_seq_order_flip(h, x@, y@, depth),
        (Data::PersistentVector(x), Data::PersistentVector(y)) => lemma_seq_order_flip(h, x@, y@, depth),
        (Data::List(x), Data::List(y)) => lemma_seq_order_flip(h, x@, y@, depth),
        (Data::Vector(x), Data::Vector(y)) => lemma_seq_order_flip(h, x@, y@, depth),
        (Data::LinkedMap(x), Data::LinkedMap(y)) => lemma_pairs_order_flip(h, x@, y@, depth),
        _ => {},
    }
}

/// Contents of a type without an order are in no order, either way round.
proof fn lemma_unordered_flip(h: Seq<Option<Object>>, a: Data, b: Data, depth: nat)
    requires
        !(a is Nil || a is Bool || a is Char || a is U8 || a is U16 || a is U32 || a is U64 || a is USize || a is I8
            || a is I16 || a is I32 || a is I64 || a is ISize),
        !(a is Str || a is Symbol || a is Keyword || a is Kind),
        !(a is Escape || a is Atom || a is PersistentList || a is PersistentVector || a is List || a is Vector
            || a is LinkedMap),
    ensures
        data_order(h, b, a, depth) == flipped(data_order(h, a, b, depth)),
{
}

/// Two sequences of values compared the other way round are in the flipped order.
pub proof fn lemma_seq_order_flip(h: Seq<Option<Object>>, a: Seq<Gc>, b: Seq<Gc>, depth: nat)
    ensures
        seq_order(h, b, a, depth) == flipped(seq_order(h, a, b, depth)),
    decreases depth, 0nat, a.len(),
{
    if a.len() > 0 && b.len() > 0 && depth > 0 {
        lemma_gc_order_flip(h, a[0], b[0], (depth - 1) as nat);
        lemma_seq_order_flip(h, a.drop_first(), b.drop_first(), depth);
    }
}

/// Two pairs compared the other way round are in the flipped order.
pub proof fn lemma_pair_order_flip(h: Seq<Option<Object>>, a: (Gc, Gc), b: (Gc, Gc), depth: nat)
    ensures
        pair_order(h, b, a, depth) == flipped(pair_order(h, a, b, depth)),
    decreases depth, 0nat, 0nat,
{
    if depth > 0 {
        lemma_gc_order_flip(h, a.0, b.0, (depth - 1) as nat);
        lemma_gc_order_flip(h, a.1, b.1, (depth - 1) as nat);
    }
}

/// Two sequences of pairs compared the other way round are in the flipped order.
pub proof fn lemma_pairs_order_flip(h: Seq<Option<Object>>, a: Seq<(Gc, Gc)>, b: Seq<(Gc, Gc)>, depth: nat)
    ensures
        pairs_order(h, b, a, depth) == flipped(pairs_order(h, a, b, depth)),
    decreases depth, 0nat, a.len() + 1,
{
    if a.len() > 0 && b.len() > 0 {
        lemma_pair_order_flip(h, a[0], b[0], depth);
        lemma_pairs_order_flip(h, a.drop_first(), b.drop_first(), depth);
    }
}

} // verus!
