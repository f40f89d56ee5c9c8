use lisp::context::new_context;
use lisp::eval::{eval, resume, run, Evaluation};
use lisp::fault::Fault;
use lisp::function::add_external_function;
use lisp::function_kind::Builtin;
use lisp::gc::Gc;
use lisp::gc_allocator::GcAllocator;
use lisp::object::Data;
use lisp::reader::read;

const FUEL: u64 = 100_000;

fn context() -> (GcAllocator, Gc) {
    let mut heap = GcAllocator::new();
    let root = new_context(&mut heap);
    (heap, root)
}

fn data(heap: &GcAllocator, g: Gc) -> &Data {
    heap.data(g).expect("a live object")
}

fn value_of(heap: &mut GcAllocator, root: Gc, text: &str) -> Gc {
    match run(heap, root, text, FUEL) {
        Ok(Evaluation::Done(_, v)) => v,
        Ok(Evaluation::Paused(_, _)) => panic!("paused"),
        Err(_) => panic!("fault"),
    }
}

fn fault_of(heap: &mut GcAllocator, root: Gc, text: &str) -> Fault {
    match run(heap, root, text, FUEL) {
        Err(f) => f,
        Ok(_) => panic!("no fault"),
    }
}

#[test]
fn evaluates_a_number() {
    let (mut heap, root) = context();
    let v = value_of(&mut heap, root, "7");
    assert!(matches!(data(&heap, v), Data::ISize(7)));
}

#[test]
fn evaluates_if() {
    let (mut heap, root) = context();
    let v = value_of(&mut heap, root, "(if true 1 2)");
    assert!(matches!(data(&heap, v), Data::ISize(1)));
    let w = value_of(&mut heap, root, "(if false 1 2)");
    assert!(matches!(data(&heap, w), Data::ISize(2)));
}

#[test]
fn calls_a_provided_function() {
    let (mut heap, root) = context();
    let v = value_of(&mut heap, root, "(isize.add 40 2)");
    assert!(matches!(data(&heap, v), Data::ISize(42)));
}

#[test]
fn provided_arithmetic_overflows() {
    let (mut heap, root) = context();
    assert!(matches!(fault_of(&mut heap, root, "(isize.mul 9223372036854775807 2)"), Fault::Overflow));
    assert!(matches!(fault_of(&mut heap, root, "(isize.div 1 0)"), Fault::DivideByZero));
}


#[test]
fn compares_values() {
    let (mut heap, root) = context();
    let v = value_of(&mut heap, root, "(= 1 1)");
    assert!(matches!(data(&heap, v), Data::Bool(true)));
    let w = value_of(&mut heap, root, "(< 2 1)");
    assert!(matches!(data(&heap, w), Data::Bool(false)));
}

#[test]
fn defines_and_reads_back() {
    let (mut heap, root) = context();
    let v = value_of(&mut heap, root, "(do (def x 3) x)");
    assert!(matches!(data(&heap, v), Data::ISize(3)));
}

#[test]
fn quotes() {
    let (mut heap, root) = context();
    let v = value_of(&mut heap, root, "(quote abc)");
    match data(&heap, v) {
        Data::Symbol(s) => assert_eq!(s.0, "abc"),
        _ => panic!("not a symbol"),
    }
}

#[test]
fn calls_a_function() {
    let (mut heap, root) = context();
    let v = value_of(&mut heap, root, "((fn [a b] (isize.sub a b)) 10 4)");
    assert!(matches!(data(&heap, v), Data::ISize(6)));
}

#[test]
fn unbound_symbol_is_a_fault() {
    let (mut heap, root) = context();
    let _ = fault_of(&mut heap, root, "(undefined 1)");
}

#[test]
fn uncaught_throw_describes_the_value() {
    let (mut heap, root) = context();
    match fault_of(&mut heap, root, "(throw 5)") {
        Fault::Uncaught(m) => match data(&heap, m) {
            Data::PersistentMap(p) => {
                let pairs = p.to_vec();
                assert_eq!(pairs.len(), 2);
                match data(&heap, pairs[0].0) {
                    Data::Keyword(k) => assert_eq!(k.0, "value"),
                    _ => panic!("not a keyword"),
                }
                assert!(matches!(data(&heap, pairs[0].1), Data::ISize(5)));
                match data(&heap, pairs[1].0) {
                    Data::Keyword(k) => assert_eq!(k.0, "stack_trace"),
                    _ => panic!("not a keyword"),
                }
            },
            _ => panic!("not a map"),
        },
        _ => panic!("not uncaught"),
    }
}

#[test]
fn hands_host_calls_to_the_program() {
    let mut heap = GcAllocator::new();
    let root = new_context(&mut heap);
    let scope = add_external_function(&mut heap, root, "host", &vec!["a"], Builtin::Host(9)).ok().expect("a scope");
    match run(&mut heap, scope, "(host 1)", FUEL) {
        Ok(Evaluation::Paused(stack, call)) => {
            assert_eq!(call.id, 9);
            match data(&heap, call.args) {
                Data::PersistentVector(v) => assert_eq!(v.to_vec().len(), 1),
                _ => panic!("arguments are not a vector"),
            }
            let answer = read(&mut heap, scope, "11").ok().expect("a value");
            match resume(&mut heap, stack, answer, false, FUEL) {
                Ok(Evaluation::Done(_, v)) => assert!(matches!(data(&heap, v), Data::ISize(11))),
                _ => panic!("not done"),
            }
        },
        _ => panic!("not paused"),
    }
}

#[test]
fn runs_out_of_steps() {
    let (mut heap, root) = context();
    assert!(matches!(run(&mut heap, root, "(isize.add 1 2)", 2), Err(Fault::OutOfSteps)));
}

#[test]
fn evaluated_values_stand_for_themselves() {
    let (mut heap, root) = context();
    let v = read(&mut heap, root, "[1 2]").ok().expect("a value");
    match eval(&mut heap, root, v, FUEL) {
        Ok(Evaluation::Done(_, w)) => assert_eq!(w.ptr, v.ptr),
        _ => panic!("not done"),
    }
}

