use lisp::context::{new_context, new_string};
use lisp::eval::Evaluation;
use lisp::fault::Fault;
use lisp::function_kind::{Builtin, FunctionKind};
use lisp::gc::Gc;
use lisp::gc_allocator::GcAllocator;
use lisp::module::{
    export, import_form, module_get, module_scope, module_set, new_module, run_in_scope, DYLIB_LOADER, EXPORT, FILE_LOADER,
    IMPORT,
};
use lisp::object::Data;
use lisp::persistent_scope::{new_scope, scope_get, scope_set};
use lisp::persistent_vector::{new_persistent_vector_from, PersistentVector};
use lisp::symbol::new_symbol;

const FUEL: u64 = 100_000;

fn context() -> (GcAllocator, Gc) {
    let mut heap = GcAllocator::new();
    let root = new_context(&mut heap);
    (heap, root)
}

fn ok<T>(r: Result<T, Fault>, what: &str) -> T {
    match r {
        Ok(v) => v,
        Err(_) => panic!("no {}", what),
    }
}

fn data(heap: &GcAllocator, g: Gc) -> &Data {
    heap.data(g).expect("a live object")
}

fn text(heap: &mut GcAllocator, root: Gc, s: &str) -> Gc {
    ok(new_string(heap, root, s), "a string")
}

fn host_id(heap: &GcAllocator, g: Gc) -> u64 {
    match data(heap, g) {
        Data::Function(f) => match f.body {
            FunctionKind::External(Builtin::Host(id)) => id,
            _ => panic!("not provided by the program"),
        },
        _ => panic!("not a function"),
    }
}

#[test]
fn module_get_after_set() {
    let (mut heap, root) = context();
    let m = ok(new_module(&mut heap, root, None), "a module");
    let exports = module_get(&heap, m, "exports").expect("exports");
    let a = text(&mut heap, root, "a");
    let b = text(&mut heap, root, "b");
    assert!(module_get(&heap, m, "name").is_none());
    ok(module_set(&mut heap, root, m, "name", a), "set");
    assert_eq!(module_get(&heap, m, "name").map(|g| g.ptr), Some(a.ptr));
    ok(module_set(&mut heap, root, m, "name", b), "set again");
    assert_eq!(module_get(&heap, m, "name").map(|g| g.ptr), Some(b.ptr));
    assert_eq!(module_get(&heap, m, "exports").map(|g| g.ptr), Some(exports.ptr));
}

#[test]
fn module_set_refuses_what_is_not_a_map() {
    let (mut heap, root) = context();
    let a = text(&mut heap, root, "a");
    assert!(matches!(module_set(&mut heap, root, a, "name", a), Err(Fault::WrongType)));
    assert!(module_get(&heap, a, "name").is_none());
}

#[test]
fn first_module_has_nil_parent_and_two_loaders() {
    let (mut heap, root) = context();
    let m = ok(new_module(&mut heap, root, None), "a module");
    let parent = module_get(&heap, m, "parent").expect("parent");
    assert!(matches!(data(&heap, parent), Data::Nil));
    let exports = module_get(&heap, m, "exports").expect("exports");
    match data(&heap, exports) {
        Data::ValueMap(e) => assert_eq!(e.len(), 0),
        _ => panic!("exports is not a map"),
    }
    assert!(module_get(&heap, m, "cache").is_some());
    let loaders = module_get(&heap, m, "loaders").expect("loaders");
    let items = match data(&heap, loaders) {
        Data::Vector(v) => v.to_vec(),
        _ => panic!("loaders is not a vector"),
    };
    assert_eq!(items.len(), 2);
    assert_eq!(host_id(&heap, items[0]), DYLIB_LOADER);
    assert_eq!(host_id(&heap, items[1]), FILE_LOADER);
}

#[test]
fn child_module_shares_loaders_and_cache() {
    let (mut heap, root) = context();
    let first = ok(new_module(&mut heap, root, None), "a module");
    let child = ok(new_module(&mut heap, root, Some(first)), "a child module");
    assert_eq!(module_get(&heap, child, "parent").map(|g| g.ptr), Some(first.ptr));
    assert_eq!(
        module_get(&heap, child, "loaders").map(|g| g.ptr),
        module_get(&heap, first, "loaders").map(|g| g.ptr)
    );
    assert_eq!(
        module_get(&heap, child, "cache").map(|g| g.ptr),
        module_get(&heap, first, "cache").map(|g| g.ptr)
    );
    assert_ne!(
        module_get(&heap, child, "exports").map(|g| g.ptr),
        module_get(&heap, first, "exports").map(|g| g.ptr)
    );
}

#[test]
fn child_of_what_is_not_a_module_is_refused() {
    let (mut heap, root) = context();
    let a = text(&mut heap, root, "a");
    assert!(matches!(new_module(&mut heap, root, Some(a)), Err(Fault::WrongType)));
}

#[test]
fn module_scope_binds_the_module_and_its_names() {
    let (mut heap, root) = context();
    let m = ok(new_module(&mut heap, root, None), "a module");
    let s = ok(module_scope(&mut heap, root, m, "/src/main.lisp", "/src"), "a scope");
    assert_eq!(scope_get(&heap, s, "module").map(|g| g.ptr), Some(m.ptr));
    let f = scope_get(&heap, s, "__filename").expect("filename");
    assert!(matches!(data(&heap, f), Data::Str(t) if t == "/src/main.lisp"));
    let d = module_get(&heap, m, "dirname").expect("dirname");
    assert!(matches!(data(&heap, d), Data::Str(t) if t == "/src"));
    let import = scope_get(&heap, s, "import").expect("import");
    assert_eq!(host_id(&heap, import), IMPORT);
    let export = scope_get(&heap, s, "export").expect("export");
    assert_eq!(host_id(&heap, export), EXPORT);
    let fm = module_get(&heap, m, "filename").expect("filename in the module");
    assert!(matches!(data(&heap, fm), Data::Str(t) if t == "/src/main.lisp"));
    let st = scope_get(&heap, s, "__stack").expect("stack");
    assert!(matches!(data(&heap, st), Data::Stack(_)));
}

fn symbols(heap: &mut GcAllocator, root: Gc, names: &[&str]) -> Gc {
    let items: Vec<Gc> = names.iter().map(|n| ok(new_symbol(heap, root, n), "a symbol")).collect();
    ok(new_persistent_vector_from(heap, root, PersistentVector::from_vec(items)), "a vector")
}

#[test]
fn export_binds_names_in_the_exports() {
    let (mut heap, root) = context();
    let m = ok(new_module(&mut heap, root, None), "a module");
    let s = ok(module_scope(&mut heap, root, m, "/a.lisp", "/"), "a scope");
    let v = text(&mut heap, root, "value");
    let caller = ok(scope_set(&mut heap, s, "x", v), "a binding");
    let call = ok(new_scope(&mut heap, caller), "a call scope");
    let args = symbols(&mut heap, root, &["x"]);
    let r = ok(export(&mut heap, call, args), "exported");
    assert!(matches!(data(&heap, r), Data::Nil));
    let exports = module_get(&heap, m, "exports").expect("exports");
    assert_eq!(module_get(&heap, exports, "x").map(|g| g.ptr), Some(v.ptr));
    assert!(module_get(&heap, exports, "y").is_none());
}

#[test]
fn export_of_an_unbound_name_fails() {
    let (mut heap, root) = context();
    let m = ok(new_module(&mut heap, root, None), "a module");
    let s = ok(module_scope(&mut heap, root, m, "/a.lisp", "/"), "a scope");
    let call = ok(new_scope(&mut heap, s), "a call scope");
    let args = symbols(&mut heap, root, &["nowhere"]);
    assert!(matches!(export(&mut heap, call, args), Err(Fault::ValueNotFound)));
}

#[test]
fn export_without_a_caller_fails() {
    let (mut heap, root) = context();
    let args = symbols(&mut heap, root, &["x"]);
    assert!(matches!(export(&mut heap, root, args), Err(Fault::NotAScope)));
}

#[test]
fn import_form_defines_each_name() {
    let (mut heap, root) = context();
    let m = ok(new_module(&mut heap, root, None), "a module");
    let exports = module_get(&heap, m, "exports").expect("exports");
    let v = text(&mut heap, root, "value");
    ok(module_set(&mut heap, root, exports, "x", v), "set");
    let x = ok(new_symbol(&mut heap, root, "x"), "a symbol");
    let form = ok(import_form(&mut heap, root, exports, &vec![x]), "a form");
    let items = match data(&heap, form) {
        Data::List(l) => l.to_vec(),
        _ => panic!("not a list"),
    };
    assert_eq!(items.len(), 2);
    assert!(matches!(data(&heap, items[0]), Data::Symbol(s) if s.0 == "do"));
    let def = match data(&heap, items[1]) {
        Data::List(l) => l.to_vec(),
        _ => panic!("not a list"),
    };
    assert_eq!(def.len(), 3);
    assert!(matches!(data(&heap, def[0]), Data::Symbol(s) if s.0 == "def"));
    assert_eq!(def[1].ptr, x.ptr);
    assert_eq!(def[2].ptr, v.ptr);
}

#[test]
fn import_of_a_name_not_exported_fails() {
    let (mut heap, root) = context();
    let m = ok(new_module(&mut heap, root, None), "a module");
    let exports = module_get(&heap, m, "exports").expect("exports");
    let y = ok(new_symbol(&mut heap, root, "y"), "a symbol");
    assert!(matches!(import_form(&mut heap, root, exports, &vec![y]), Err(Fault::ValueNotFound)));
    let s = text(&mut heap, root, "y");
    assert!(matches!(import_form(&mut heap, root, exports, &vec![s]), Err(Fault::WrongType)));
}

#[test]
fn run_in_scope_runs_every_form() {
    let (mut heap, root) = context();
    match run_in_scope(&mut heap, root, "(def a 40) (isize.add a 2)", FUEL) {
        Ok(Evaluation::Done(_, v)) => assert!(matches!(data(&heap, v), Data::ISize(42))),
        _ => panic!("no value"),
    }
}
