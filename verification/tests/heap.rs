use lisp::context::new_context;
use lisp::gc::{Gc, Trace};
use lisp::gc_allocator::GcAllocator;
use lisp::kind::Kind;
use lisp::object::{kind_named, Data, Object, Tag};
use lisp::persistent_scope::scope_get;

fn context() -> (GcAllocator, Gc) {
    let mut heap = GcAllocator::new();
    let root = new_context(&mut heap);
    (heap, root)
}

#[test]
fn handles() {
    let null = Gc::null();
    assert!(null.is_null());
    assert_eq!(null.as_ptr(), 0);
    let g = Gc::from_raw(5);
    assert!(!g.is_null());
    assert_eq!(g.as_ptr(), 5);
    assert!(g.ptr_eq(&Gc::from_raw(5)));
    assert!(!g.ptr_eq(&null));
}

#[test]
fn handle_types() {
    let (heap, root) = context();
    let nil = scope_get(&heap, root, "nil").expect("nil is bound");
    assert!(nil.is(&heap, Tag::Nil));
    assert!(!nil.is(&heap, Tag::Bool));
    assert!(!Gc::null().is(&heap, Tag::Nil));
}

#[test]
fn kinds_describe_types() {
    let k = Kind::new("U8".to_string(), 1, 1);
    assert_eq!(k.name(), "U8");
    assert_eq!(k.size(), 1);
    assert_eq!(k.align(), 1);
    let (heap, root) = context();
    let u64_kind = kind_named(&heap, root, "U64").ok().expect("U64 is bound");
    match heap.data(u64_kind) {
        Some(Data::Kind(k)) => {
            assert_eq!(k.name(), "U64");
            assert_eq!(k.size(), 8);
            assert_eq!(k.align(), core::mem::align_of::<u64>());
        },
        _ => panic!("not a kind"),
    }
}

#[test]
fn objects_are_marked_by_trace() {
    let mut o = Object::new(Gc::from_raw(1), Data::Nil);
    assert!(!o.is_marked());
    o.trace(true);
    assert!(o.is_marked());
    o.trace(false);
    assert!(!o.is_marked());
}

#[test]
fn a_new_heap_holds_only_the_null_slot() {
    let heap = GcAllocator::new();
    assert_eq!(heap.len(), 1);
    assert_eq!(heap.size(), 0);
    assert!(!heap.is_live(Gc::null()));
}

#[test]
fn collect_frees_what_the_scope_does_not_reach() {
    let (mut heap, root) = context();
    let u8_kind = kind_named(&heap, root, "U8").ok().expect("U8 is bound");
    let before = heap.size();
    let loose = heap.alloc_object(root, u8_kind, Data::U8(3));
    assert!(heap.is_live(loose));
    assert_eq!(heap.size(), before + 1);
    let freed = heap.collect(root);
    assert_eq!(freed, 1);
    assert!(!heap.is_live(loose));
    assert_eq!(heap.size(), before);
    assert!(scope_get(&heap, root, "nil").is_some());
    let nil = scope_get(&heap, root, "nil").expect("nil is bound");
    assert!(heap.is_live(nil));
}

#[test]
fn collect_twice_frees_nothing_more() {
    let (mut heap, root) = context();
    let u8_kind = kind_named(&heap, root, "U8").ok().expect("U8 is bound");
    let _ = heap.alloc_object(root, u8_kind, Data::U8(3));
    let _ = heap.collect(root);
    let size = heap.size();
    assert_eq!(heap.collect(root), 0);
    assert_eq!(heap.size(), size);
}

#[test]
fn collect_keeps_every_binding_of_the_first_scope() {
    let (mut heap, root) = context();
    let _ = heap.collect(root);
    for name in ["Kind", "Keyword", "nil", "true", "false", "__stack", "if", "u8.add", "global_error_handler"] {
        let g = scope_get(&heap, root, name).expect("bound");
        assert!(heap.is_live(g), "{} is live", name);
    }
}

#[test]
fn collect_clears_marks() {
    let (mut heap, root) = context();
    let _ = heap.collect(root);
    let nil = scope_get(&heap, root, "nil").expect("nil is bound");
    assert!(!heap.get(nil).expect("live").is_marked());
}

#[test]
fn collect_keeps_the_metadata_of_what_it_keeps() {
    let (mut heap, root) = context();
    let v = lisp::reader::read(&mut heap, root, "sym").ok().expect("a symbol");
    let meta = heap.get(v).expect("live").meta.expect("metadata");
    let scope = lisp::persistent_scope::scope_set(&mut heap, root, "x", v).ok().expect("bound");
    let _ = heap.collect(scope);
    assert!(heap.is_live(v));
    assert!(heap.is_live(meta));
}

fn size_of_objects(heap: &GcAllocator) -> usize {
    let mut total = 0usize;
    for i in 1..heap.len() {
        let g = Gc::from_raw(i);
        if let Some(o) = heap.get(g) {
            total += heap.kind_size(o.kind);
        }
    }
    total
}

#[test]
fn size_is_the_size_of_the_objects_across_allocation_and_collection() {
    let mut heap = GcAllocator::new();
    assert_eq!(heap.size(), size_of_objects(&heap));
    let byte = heap.unsafe_alloc(Object::new(Gc::null(), Data::Kind(Kind::new("Byte".to_string(), 1, 1))));
    let list_kind = heap.unsafe_alloc(Object::new(Gc::null(), Data::Kind(Kind::new("Pair".to_string(), 16, 8))));
    let kept = heap.alloc_object(byte, byte, Data::U8(3));
    let _ = heap.alloc_object(byte, byte, Data::U8(4));
    let _ = heap.alloc_object(byte, list_kind, Data::U8(5));
    let root = heap.alloc_object(byte, list_kind, Data::Atom(lisp::atom::Atom::new(kept)));
    assert_eq!(heap.size(), 1 + 1 + 16 + 16);
    assert_eq!(heap.size(), size_of_objects(&heap));
    let before = heap.size();
    let freed = heap.collect(root);
    assert!(freed <= before);
    assert_eq!(freed, 1 + 16);
    assert!(heap.is_live(kept) && heap.is_live(byte) && heap.is_live(list_kind));
    assert_eq!(heap.size(), size_of_objects(&heap));
}

#[test]
fn a_new_context_accounts_the_size_of_each_of_its_objects() {
    let (mut heap, root) = context();
    assert_eq!(heap.size(), size_of_objects(&heap));
    let kind_kind = scope_get(&heap, root, "Kind").expect("Kind is bound");
    assert!(heap.kind_size(kind_kind) > 0);
    let _ = heap.collect(root);
    assert_eq!(heap.size(), size_of_objects(&heap));
}
