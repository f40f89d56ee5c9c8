use lisp::context::new_context;
use lisp::gc::Gc;
use lisp::gc_allocator::GcAllocator;
use lisp::object::{kind_named, Data};
use lisp::persistent_scope::scope_get;
use lisp::reader::read;
use lisp::show::{show, show_all};

fn context() -> (GcAllocator, Gc) {
    let mut heap = GcAllocator::new();
    let root = new_context(&mut heap);
    (heap, root)
}

fn shown(text: &str) -> String {
    let (mut heap, root) = context();
    let g = read(&mut heap, root, text).ok().expect("read");
    show(&heap, g)
}

#[test]
fn atoms_show_as_rust_shows_them() {
    assert_eq!(shown("sym"), "sym");
    assert_eq!(shown(":key"), ":key");
    assert_eq!(shown("\"a\nb\""), "\"a\\nb\"");
    assert_eq!(shown("-42"), "-42");
    assert_eq!(shown("7"), "7");
}

#[test]
fn collections_separate_items_by_a_comma() {
    assert_eq!(shown("(a b c)"), "(a, b, c)");
    assert_eq!(shown("[a b]"), "[a, b]");
    assert_eq!(shown("{:a b}"), "{:a b}");
    assert_eq!(shown("()"), "()");
    assert_eq!(shown("(a (b [c]))"), "(a, (b, [c]))");
}

#[test]
fn named_values_show_as_their_contents() {
    let (heap, root) = context();
    let nil = scope_get(&heap, root, "nil").expect("nil");
    let t = scope_get(&heap, root, "true").expect("true");
    let stack = scope_get(&heap, root, "__stack").expect("stack");
    let form = scope_get(&heap, root, "if").expect("if");
    assert_eq!(show(&heap, nil), "()");
    assert_eq!(show(&heap, t), "true");
    assert_eq!(show(&heap, stack), "(\"Stack\",)");
    assert_eq!(show(&heap, form), ":special-form");
    let u8_kind = kind_named(&heap, root, "U8").ok().expect("U8");
    assert_eq!(show(&heap, u8_kind), "(\"Kind\", {\"name\" \"U8\", \"size\" \"1\", \"align\" \"1\"})");
    let a = scope_get(&heap, root, "default_gc_allocator").expect("allocator");
    assert_eq!(show(&heap, a), format!("GcAllocator {{ size: {}, max_size: {} }}", heap.size(), heap.max_size()));
}

#[test]
fn println_joins_its_arguments_by_a_comma() {
    let (mut heap, root) = context();
    let a = read(&mut heap, root, "(1 2)").ok().expect("read");
    let b = read(&mut heap, root, "x").ok().expect("read");
    assert_eq!(show_all(&heap, &vec![a, b]), "(1, 2), x");
    assert_eq!(show_all(&heap, &vec![]), "");
}

#[test]
fn characters_show_quoted() {
    let (mut heap, root) = context();
    let c = lisp::object::new_object_of_kind(&mut heap, root, "Char", Data::Char('x'), None).ok().expect("char");
    assert_eq!(show(&heap, c), "'x'");
}
