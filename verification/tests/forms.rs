use lisp::builtins::call_builtin;
use lisp::context::new_context;
use lisp::eval::{run, Evaluation};
use lisp::fault::Fault;
use lisp::function_kind::{Builtin, Collection, NumberOp, NumberType};
use lisp::gc::Gc;
use lisp::gc_allocator::GcAllocator;
use lisp::map::ValueMap;
use lisp::numbers::{new_i16, new_isize, new_u16};
use lisp::object::Data;
use lisp::persistent_map::PersistentMap;
use lisp::persistent_set::PersistentSet;
use lisp::persistent_vector::{new_persistent_vector_from, PersistentVector};
use lisp::keyword::new_keyword;
use lisp::vector::{new_vector_from, Vector};

const FUEL: u64 = 100_000;

fn context() -> (GcAllocator, Gc) {
    let mut heap = GcAllocator::new();
    let root = new_context(&mut heap);
    (heap, root)
}

fn data(heap: &GcAllocator, g: Gc) -> &Data {
    heap.data(g).expect("a live object")
}

fn value_of(heap: &mut GcAllocator, root: Gc, text: &str) -> Gc {
    match run(heap, root, text, FUEL) {
        Ok(Evaluation::Done(_, v)) => v,
        Ok(Evaluation::Paused(_, _)) => panic!("paused"),
        Err(_) => panic!("fault on {}", text),
    }
}

fn fault_of(heap: &mut GcAllocator, root: Gc, text: &str) -> Fault {
    match run(heap, root, text, FUEL) {
        Err(f) => f,
        Ok(_) => panic!("no fault"),
    }
}

fn args(heap: &mut GcAllocator, root: Gc, items: Vec<Gc>) -> Gc {
    new_persistent_vector_from(heap, root, PersistentVector::from_vec(items)).ok().expect("a vector")
}

fn isize_of(heap: &mut GcAllocator, root: Gc, v: isize) -> Gc {
    new_isize(heap, root, v).ok().expect("a number")
}

#[test]
fn do_gives_its_last_value() {
    let (mut heap, root) = context();
    let v = value_of(&mut heap, root, "(do 1 2 3)");
    assert!(matches!(data(&heap, v), Data::ISize(3)));
}

#[test]
fn eval_evaluates_its_argument_once() {
    // A special form gets its arguments unevaluated: `eval` evaluates its argument as
    // written, so `(eval e)` gives what `e` gives.
    let (mut heap, root) = context();
    let v = value_of(&mut heap, root, "(eval (isize.add 1 2))");
    assert!(matches!(data(&heap, v), Data::ISize(3)));
    let q = value_of(&mut heap, root, "(eval (quote (isize.add 1 2)))");
    match data(&heap, q) {
        Data::PersistentList(l) => assert_eq!(l.to_vec().len(), 3),
        _ => panic!("not a list"),
    }
}

#[test]
fn read_reads_a_string() {
    let (mut heap, root) = context();
    let v = value_of(&mut heap, root, "(read \"(a b)\")");
    match data(&heap, v) {
        Data::PersistentList(l) => assert_eq!(l.to_vec().len(), 2),
        _ => panic!("not a list"),
    }
    let n = value_of(&mut heap, root, "(read)");
    assert!(matches!(data(&heap, n), Data::Nil));
    assert!(matches!(fault_of(&mut heap, root, "(read 1)"), Fault::WrongType));
}

#[test]
fn named_functions_are_called() {
    let (mut heap, root) = context();
    let v = value_of(&mut heap, root, "(do (def twice (fn [x] (isize.add x x))) (twice 21))");
    assert!(matches!(data(&heap, v), Data::ISize(42)));
}

#[test]
fn booleans_atoms_and_kinds() {
    let (mut heap, root) = context();
    let b = value_of(&mut heap, root, "(bool.not true)");
    assert!(matches!(data(&heap, b), Data::Bool(false)));
    let a = value_of(&mut heap, root, "(atom.get (atom.new 3))");
    assert!(matches!(data(&heap, a), Data::ISize(3)));
    let n = value_of(&mut heap, root, "(kind.name 1)");
    match data(&heap, n) {
        Data::Str(s) => assert_eq!(s, "ISize"),
        _ => panic!("not a string"),
    }
    // The name given is that of the kind of the argument: a kind's kind is `Kind`.
    let k = value_of(&mut heap, root, "(kind.name (kind.of 1))");
    match data(&heap, k) {
        Data::Str(s) => assert_eq!(s, "Kind"),
        _ => panic!("not a string"),
    }
    let s = value_of(&mut heap, root, "(kind.size 1)");
    assert!(matches!(data(&heap, s), Data::USize(8)));
}

#[test]
fn atom_get_after_set() {
    let (mut heap, root) = context();
    let a = value_of(&mut heap, root, "(do (def a (atom.new 1)) (atom.set a 5) (atom.get a))");
    assert!(matches!(data(&heap, a), Data::ISize(5)));
}

#[test]
fn the_global_error_handler_stops_the_runtime() {
    let (mut heap, root) = context();
    assert!(matches!(fault_of(&mut heap, root, "(global_error_handler 1)"), Fault::GlobalError(_)));
}

#[test]
fn throw_without_value_throws_nil() {
    let (mut heap, root) = context();
    match fault_of(&mut heap, root, "(throw)") {
        Fault::Uncaught(m) => match data(&heap, m) {
            Data::PersistentMap(p) => assert!(matches!(data(&heap, p.to_vec()[0].1), Data::Nil)),
            _ => panic!("not a map"),
        },
        _ => panic!("not uncaught"),
    }
}

#[test]
fn try_stops_at_its_handler() {
    let (mut heap, root) = context();
    assert!(matches!(fault_of(&mut heap, root, "(try (throw 1) 2)"), Fault::Caught(_)));
}

#[test]
fn collection_functions_need_their_collection() {
    let (mut heap, root) = context();
    assert!(matches!(fault_of(&mut heap, root, "(vector.len [1 2])"), Fault::WrongType));
}

#[test]
fn vector_functions() {
    let (mut heap, root) = context();
    let one = isize_of(&mut heap, root, 1);
    let two = isize_of(&mut heap, root, 2);
    let v = new_vector_from(&mut heap, root, Vector::from_vec(vec![one])).ok().expect("a vector");
    let a = args(&mut heap, root, vec![v]);
    let len = call_builtin(&mut heap, root, Builtin::Len(Collection::Vector), a).ok().expect("a length");
    assert!(matches!(data(&heap, len), Data::USize(1)));
    let a = args(&mut heap, root, vec![v, two]);
    let _ = call_builtin(&mut heap, root, Builtin::PushBack(Collection::Vector), a).ok().expect("pushed");
    match data(&heap, v) {
        Data::Vector(items) => {
            let items = items.to_vec();
            assert_eq!(items.len(), 2);
            assert_eq!(items[1].ptr, two.ptr);
        },
        _ => panic!("not a vector"),
    }
    let zero = new_lisp_usize(&mut heap, root, 0);
    let a = args(&mut heap, root, vec![v, zero]);
    let first = call_builtin(&mut heap, root, Builtin::Nth(Collection::Vector), a).ok().expect("an item");
    assert_eq!(first.ptr, one.ptr);
    let far = new_lisp_usize(&mut heap, root, 10);
    let a = args(&mut heap, root, vec![v, far]);
    let missing = call_builtin(&mut heap, root, Builtin::Nth(Collection::Vector), a).ok().expect("nil");
    assert!(matches!(data(&heap, missing), Data::Nil));
}

fn new_lisp_usize(heap: &mut GcAllocator, root: Gc, n: usize) -> Gc {
    lisp::numbers::new_usize(heap, root, n).ok().expect("a number")
}

#[test]
fn get_after_set_in_maps() {
    let (mut heap, root) = context();
    let k = new_keyword(&mut heap, root, "k").ok().expect("a keyword");
    let k2 = new_keyword(&mut heap, root, "k").ok().expect("a keyword");
    let one = isize_of(&mut heap, root, 1);
    let two = isize_of(&mut heap, root, 2);
    let m = PersistentMap::new().set(&heap, k, one);
    assert_eq!(m.get(&heap, k2).map(|g| g.ptr), Some(one.ptr));
    let m2 = m.set(&heap, k2, two);
    assert_eq!(m2.len(), 1);
    assert_eq!(m2.get(&heap, k).map(|g| g.ptr), Some(two.ptr));
    assert_eq!(m.get(&heap, k).map(|g| g.ptr), Some(one.ptr));
    let mut vm = ValueMap::new();
    vm.set(&heap, k, one);
    vm.set(&heap, k2, two);
    assert_eq!(vm.len(), 1);
    assert_eq!(vm.get(&heap, k).map(|g| g.ptr), Some(two.ptr));
    assert_eq!(vm.remove(&heap, k).map(|g| g.ptr), Some(two.ptr));
    assert!(vm.is_empty());
}

#[test]
fn has_after_add_in_sets() {
    let (mut heap, root) = context();
    let k = new_keyword(&mut heap, root, "k").ok().expect("a keyword");
    let k2 = new_keyword(&mut heap, root, "k").ok().expect("a keyword");
    let one = isize_of(&mut heap, root, 1);
    let mut s = PersistentSet::new();
    assert!(!s.has(&heap, k));
    s.add(&heap, k);
    assert!(s.has(&heap, k));
    assert!(s.has(&heap, k2));
    assert_eq!(s.get(&heap, k2).map(|g| g.ptr), Some(k.ptr));
    s.add(&heap, k2);
    assert_eq!(s.len(), 1);
    assert!(!s.has(&heap, one));
}

#[test]
fn comparisons_of_different_types() {
    let (mut heap, root) = context();
    let v = value_of(&mut heap, root, "(= 1 :a)");
    assert!(matches!(data(&heap, v), Data::Bool(false)));
    let w = value_of(&mut heap, root, "(<= :a :b)");
    assert!(matches!(data(&heap, w), Data::Bool(true)));
}

#[test]
fn sixteen_bit_arithmetic() {
    let (mut heap, root) = context();
    let a = new_i16(&mut heap, root, 40).ok().expect("an i16");
    let b = new_i16(&mut heap, root, 2).ok().expect("an i16");
    let xs = args(&mut heap, root, vec![a, b]);
    let r = call_builtin(&mut heap, root, Builtin::Number(NumberType::I16, NumberOp::Add), xs).ok().expect("a sum");
    assert!(matches!(data(&heap, r), Data::I16(42)));
    let c = new_u16(&mut heap, root, 7).ok().expect("a u16");
    let d = new_u16(&mut heap, root, 6).ok().expect("a u16");
    let ys = args(&mut heap, root, vec![c, d]);
    let r = call_builtin(&mut heap, root, Builtin::Number(NumberType::U16, NumberOp::Mul), ys).ok().expect("a product");
    assert!(matches!(data(&heap, r), Data::U16(42)));
}

#[test]
fn unsigned_arithmetic() {
    let (mut heap, root) = context();
    let v = value_of(&mut heap, root, "(usize.sub 5u 3u)");
    assert!(matches!(data(&heap, v), Data::USize(2)));
    assert!(matches!(fault_of(&mut heap, root, "(usize.sub 3u 5u)"), Fault::Overflow));
    let e = value_of(&mut heap, root, "(usize.eq 3u 3u)");
    assert!(matches!(data(&heap, e), Data::Bool(true)));
    assert!(matches!(fault_of(&mut heap, root, "(usize.add 1 2)"), Fault::WrongType));
}
