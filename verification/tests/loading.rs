use lisp::context::{new_context, new_string};
use lisp::fault::Fault;
use lisp::gc::Gc;
use lisp::gc_allocator::GcAllocator;
use lisp::loading::{file_load_step, is_local_path, lisp_file, load_step, FileLoad, LoadStep};
use lisp::module::{module_get, new_module};
use lisp::object::Data;
use lisp::persistent_scope::scope_get;

fn context() -> (GcAllocator, Gc) {
    let mut heap = GcAllocator::new();
    let root = new_context(&mut heap);
    (heap, root)
}

#[test]
fn local_paths() {
    assert!(is_local_path("./a"));
    assert!(is_local_path("/usr/a.lisp"));
    assert!(is_local_path("\\a"));
    assert!(!is_local_path("std/num"));
    assert!(!is_local_path(""));
}

#[test]
fn lisp_file_names() {
    assert_eq!(lisp_file("./a"), "./a.lisp");
    assert_eq!(lisp_file("./a.txt"), "./a.txt");
    assert_eq!(lisp_file("./.hidden"), "./.hidden.lisp");
}

#[test]
fn a_fresh_module_is_cached_below_its_parent() {
    let (mut heap, root) = context();
    let parent = match new_module(&mut heap, root, None) {
        Ok(m) => m,
        Err(_) => panic!("no module"),
    };
    let (m, sc) = match file_load_step(&mut heap, root, parent, "/src/a.lisp", "/src") {
        Ok(FileLoad::Fresh(m, sc)) => (m, sc),
        _ => panic!("not a fresh module"),
    };
    assert_eq!(scope_get(&heap, sc, "module").map(|g| g.ptr), Some(m.ptr));
    assert_eq!(module_get(&heap, m, "parent").map(|g| g.ptr), Some(parent.ptr));
    let text = |heap: &GcAllocator, g: Option<Gc>| match g.and_then(|g| heap.data(g)) {
        Some(Data::Str(s)) => s.clone(),
        _ => panic!("a string"),
    };
    assert_eq!(text(&heap, module_get(&heap, m, "filename")), "/src/a.lisp");
    assert_eq!(text(&heap, module_get(&heap, m, "dirname")), "/src");
    assert_eq!(text(&heap, scope_get(&heap, sc, "__filename")), "/src/a.lisp");
    assert_eq!(text(&heap, scope_get(&heap, sc, "__dirname")), "/src");
    assert!(scope_get(&heap, sc, "import").is_some() && scope_get(&heap, sc, "export").is_some());
    let cache = module_get(&heap, parent, "cache").expect("a cache");
    assert_eq!(module_get(&heap, cache, "/src/a.lisp").map(|g| g.ptr), Some(m.ptr));
    match file_load_step(&mut heap, root, parent, "/src/a.lisp", "/src") {
        Ok(FileLoad::Cached(c)) => assert_eq!(c.ptr, m.ptr),
        _ => panic!("not cached"),
    }
    match file_load_step(&mut heap, root, parent, "/src/b.lisp", "/src") {
        Ok(FileLoad::Fresh(b, _)) => assert_ne!(b.ptr, m.ptr),
        _ => panic!("not a fresh module"),
    }
}

#[test]
fn a_parent_that_is_not_a_module_is_refused() {
    let (mut heap, root) = context();
    let s = match new_string(&mut heap, root, "x") {
        Ok(g) => g,
        Err(_) => panic!("no string"),
    };
    assert!(matches!(file_load_step(&mut heap, root, s, "/a.lisp", "/"), Err(Fault::WrongType)));
    assert!(matches!(heap.data(s), Some(Data::Str(_))));
}

#[test]
fn loaders_are_asked_in_turn_until_one_gives_a_module() {
    let (mut heap, root) = context();
    let parent = new_module(&mut heap, root, None).ok().expect("module");
    let loaders = module_get(&heap, parent, "loaders").expect("loaders");
    let items = match heap.data(loaders) {
        Some(Data::Vector(v)) => v.to_vec(),
        _ => panic!("loaders are a vector"),
    };
    assert!(items.len() >= 1);
    match load_step(&heap, parent, 0, None) {
        Ok(LoadStep::Call(first, next)) => {
            assert_eq!(first.as_ptr(), items[0].as_ptr());
            assert_eq!(next, 1);
        },
        _ => panic!("the first loader is asked first"),
    }
    let nil = scope_get(&heap, root, "nil").expect("nil");
    match load_step(&heap, parent, 1, Some(nil)) {
        Ok(LoadStep::Call(second, 2)) => assert_eq!(second.as_ptr(), items[1].as_ptr()),
        Ok(LoadStep::Exhausted) => assert_eq!(items.len(), 1),
        _ => panic!("a nil answer asks the next loader"),
    }
    assert!(matches!(load_step(&heap, parent, items.len(), Some(nil)), Ok(LoadStep::Exhausted)));
    let module = new_module(&mut heap, root, Some(parent)).ok().expect("module");
    assert!(matches!(load_step(&heap, parent, 1, Some(module)), Ok(LoadStep::Found(m)) if m.as_ptr() == module.as_ptr()));
    let s = new_string(&mut heap, root, "x").ok().expect("string");
    assert!(matches!(load_step(&heap, s, 0, None), Err(Fault::ValueNotFound)));
}
