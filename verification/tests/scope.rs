use lisp::context::new_context;
use lisp::function_kind::{Builtin, NumberOp, NumberType};
use lisp::gc::Gc;
use lisp::gc_allocator::GcAllocator;
use lisp::object::Data;
use lisp::persistent_scope::{scope_get, scope_set, PersistentScope};
use lisp::special_form::SpecialFormKind;
use lisp::function_kind::FunctionKind;

fn context() -> (GcAllocator, Gc) {
    let mut heap = GcAllocator::new();
    let root = new_context(&mut heap);
    (heap, root)
}

#[test]
fn the_first_scope_binds_the_kinds() {
    let (heap, root) = context();
    for name in ["Kind", "Scope", "Nil", "Bool", "Char", "String", "U8", "USize", "ISize", "Stack", "Symbol", "Keyword",
        "Function", "Macro", "SpecialForm", "Escape", "List", "Vector", "Map", "Set", "PersistentList", "PersistentVector",
        "PersistentMap", "PersistentSet", "PersistentScope", "LinkedMap", "GcAllocator", "F32", "F64"] {
        let g = scope_get(&heap, root, name).expect("bound");
        match heap.data(g) {
            Some(Data::Kind(k)) => assert_eq!(k.name(), name),
            _ => panic!("{} is not a kind", name),
        }
    }
    for (name, size) in [("F32", 4), ("F64", 8)] {
        let g = scope_get(&heap, root, name).expect("bound");
        match heap.data(g) {
            Some(Data::Kind(k)) => {
                assert_eq!(k.size(), size);
                assert_eq!(k.align(), size);
            },
            _ => panic!("{} is not a kind", name),
        }
    }
    let a = scope_get(&heap, root, "default_gc_allocator").expect("bound");
    assert!(matches!(heap.data(a), Some(Data::Allocator)));
    let k = heap.get(a).expect("live").kind;
    match heap.data(k) {
        Some(Data::Kind(k)) => assert_eq!(k.name(), "GcAllocator"),
        _ => panic!("not a kind"),
    }
}

#[test]
fn the_first_scope_binds_values_and_forms() {
    let (heap, root) = context();
    let t = scope_get(&heap, root, "true").expect("bound");
    assert!(matches!(heap.data(t), Some(Data::Bool(true))));
    let f = scope_get(&heap, root, "false").expect("bound");
    assert!(matches!(heap.data(f), Some(Data::Bool(false))));
    let s = scope_get(&heap, root, "__stack").expect("bound");
    match heap.data(s) {
        Some(Data::Stack(st)) => assert!(st.value.is_empty() && st.state.is_empty()),
        _ => panic!("not a stack"),
    }
    let form = scope_get(&heap, root, "try").expect("bound");
    match heap.data(form) {
        Some(Data::SpecialForm(k)) => assert!(k.0 == SpecialFormKind::Try),
        _ => panic!("not a special form"),
    }
    let add = scope_get(&heap, root, "u16.add").expect("bound");
    match heap.data(add) {
        Some(Data::Function(func)) => {
            assert!(matches!(func.body, FunctionKind::External(Builtin::Number(NumberType::U16, NumberOp::Add))));
            assert_eq!(func.scope.ptr, root.ptr);
        },
        _ => panic!("not a function"),
    }
    let collect = scope_get(&heap, root, "gc_allocator.collect").expect("bound");
    let macro_kind = scope_get(&heap, root, "Macro").expect("bound");
    assert_eq!(heap.get(collect).expect("live").kind.ptr, macro_kind.ptr);
    match heap.data(root) {
        Some(Data::PersistentScope(p)) => {
            assert_eq!(p.len(), 145);
            assert!(p.parent().is_none());
        },
        _ => panic!("not a scope"),
    }
}

#[test]
fn lookup_after_set() {
    let (mut heap, root) = context();
    let one = scope_get(&heap, root, "true").expect("bound");
    let scope = scope_set(&mut heap, root, "answer", one).ok().expect("a scope");
    assert_eq!(scope_get(&heap, scope, "answer").map(|g| g.ptr), Some(one.ptr));
    assert!(scope_get(&heap, root, "answer").is_none());
    let nil = scope_get(&heap, scope, "nil").expect("bound in the parent's table");
    assert!(matches!(heap.data(nil), Some(Data::Nil)));
}

#[test]
fn scope_tables() {
    let t = PersistentScope::with_parent(None);
    assert_eq!(t.len(), 0);
    assert!(t.is_empty());
    let t = t.set("a", Gc::from_raw(1)).set("b", Gc::from_raw(2)).set("a", Gc::from_raw(3));
    assert_eq!(t.get("a").map(|g| g.ptr), Some(3));
    assert_eq!(t.get("b").map(|g| g.ptr), Some(2));
    assert!(t.has("b"));
    assert_eq!(t.len(), 2);
    let c = t.copy();
    let t = t.remove("a");
    assert_eq!(t.get("a").map(|g| g.ptr), None);
    assert_eq!(c.get("a").map(|g| g.ptr), Some(3));
    assert!(c.has("b"));
    let s2 = c.set("z", Gc::from_raw(9));
    assert!(s2.has("z"));
    assert!(!c.has("z"));
    assert!(!s2.remove("z").has("z"));
}
