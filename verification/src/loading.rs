use vstd::prelude::*;

use crate::fault::Fault;
use crate::gc::Gc;
use crate::gc_allocator::{live_in, object_in, GcAllocator};
use crate::function::provided_function;
use crate::function_kind::Builtin;
use crate::module::{
    data_of, holds_text, keys_below, kept_but, lemma_lookup_kept_but, lemma_module_value_extends, lemma_module_value_kept,
    lemma_scope_kinds_kept_but, lemma_str_key_found, map_pairs, module_get, module_makeable, module_scope, module_set, module_value, new_module,
    scope_kinds, str_key_at, str_of, EXPORT, IMPORT,
};
use crate::object::kind_result;
use crate::object::{Data, Object};
use crate::persistent_scope::{get_scope_root, scope_root};
use crate::reader::{chars_of, string_of_chars};

verus! {

/// Whether `name` names a file by a path relative to the module (`.`) or from a root
/// (`/` or `\`); other names are left to other loaders.
pub open spec fn local_path(name: Seq<char>) -> bool {
    name.len() > 0 && (name[0] == '.' || name[0] == '/' || name[0] == '\\')
}

/// Whether `name` names a file that a module is loaded from by this loader.
pub fn is_local_path(name: &str) -> (b: bool)
    ensures
        b == local_path(name@),
{
    if name.unicode_len() == 0 {
        return false;
    }
    let c = name.get_char(0);
    c == '.' || c == '/' || c == '\\'
}

/// Whether `std::path::Path::extension` finds an extension in the path `name`.
pub uninterp spec fn has_extension(name: Seq<char>) -> bool;

/// Calls `std::path::Path::extension` on `name`; whether it finds one is named
/// `has_extension`.
#[verifier::external_body]
fn path_has_extension(name: &str) -> (b: bool)
    ensures
        b == has_extension(name@),
{
    std::path::Path::new(name).extension().is_some()
}

/// The name of the file a module named `name` is read from: `name` itself when it has an
/// extension, else `name` with the extension `lisp`.
pub open spec fn lisp_file_name(name: Seq<char>) -> Seq<char> {
    if has_extension(name) {
        name
    } else {
        name + seq!['.', 'l', 'i', 's', 'p']
    }
}

/// The name of the file a module named `name` is read from (see `lisp_file_name`).
pub fn lisp_file(name: &str) -> (r: String)
    ensures
        r@ == lisp_file_name(name@),
{
    let mut chars = chars_of(name);
    if !path_has_extension(name) {
        chars.push('.');
        chars.push('l');
        chars.push('i');
        chars.push('s');
        chars.push('p');
        assert(chars@ =~= name@ + seq!['.', 'l', 'i', 's', 'p']);
    }
    string_of_chars(&chars)
}

/// What loading a module file found: the module in the cache, or a new module and the
/// scope its file is to be run in.
pub enum FileLoad {
    Cached(Gc),
    Fresh(Gc, Gc),
}

/// Whether the cache of the module map `parent`, if it has one, is a map apart from it
/// whose keys lie in `h`.
pub open spec fn cache_apart(h: Seq<Option<Object>>, parent: Gc) -> bool {
    module_value(h, parent, "cache"@) matches Some(c) ==> c.ptr != parent.ptr && c.ptr < h.len() && map_pairs(h, c) is Some
        && keys_below(h, c)
}

/// The module cached under `path` in the cache of the module map `parent`, if any.
pub open spec fn cached_module(h: Seq<Option<Object>>, parent: Gc, path: Seq<char>) -> Option<Gc> {
    match module_value(h, parent, "cache"@) {
        Some(c) => module_value(h, c, path),
        None => None,
    }
}

/// Whether what loading a new module below `parent` is made of is there: what a module
/// is made of (see `module_makeable`), a map as the parent's cache when it has one, and
/// the kinds of the scope a module runs in, bound in the outermost scope of `scope`.
pub open spec fn file_loadable(h: Seq<Option<Object>>, scope: Gc, parent: Gc) -> bool {
    &&& module_makeable(h, scope, Some(parent))
    &&& (module_value(h, parent, "cache"@) matches Some(c) ==> map_pairs(h, c) is Some)
    &&& scope_kinds(h, scope_root(h, scope))
}

/// What a fresh load made: `m` is a new module map that binds `filename` to the string
/// `path` and `dirname` to the string `dirname`, and `sc` a new scope extending `root`
/// that binds `__stack` to a new empty stack, `module` to `m`, `__filename` and
/// `__dirname` to the names, and `import` and `export` to the provided macros (when the
/// kinds of a module's scope were bound in `h`).
pub open spec fn fresh_module(
    h: Seq<Option<Object>>,
    h2: Seq<Option<Object>>,
    root: Gc,
    m: Gc,
    sc: Gc,
    path: Seq<char>,
    dirname: Seq<char>,
) -> bool {
    let s = object_in(h2, sc).value->PersistentScope_0;
    &&& m.ptr >= h.len()
    &&& map_pairs(h2, m) is Some
    &&& module_value(h2, m, "filename"@) matches Some(f) && holds_text(h2, f, path)
    &&& module_value(h2, m, "dirname"@) matches Some(d) && holds_text(h2, d, dirname)
    &&& live_in(h2, sc)
    &&& object_in(h2, sc).value is PersistentScope
    &&& s.parent == Some(root)
    &&& s.entries().dom() =~= set!["__stack"@, "module"@, "__filename"@, "__dirname"@, "import"@, "export"@]
    &&& s.entries()["module"@] == m.ptr
    &&& holds_text(h2, Gc { ptr: s.entries()["__filename"@] }, path)
    &&& holds_text(h2, Gc { ptr: s.entries()["__dirname"@] }, dirname)
    &&& data_of(h2, Gc { ptr: s.entries()["__stack"@] }) matches Some(Data::Stack(t)) && t.value@.len() == 0
        && t.scope@.len() == 0 && t.callable@.len() == 0 && t.state@.len() == 0
    &&& scope_kinds(h, root) ==> provided_function(
        h2,
        Gc { ptr: s.entries()["import"@] },
        root,
        kind_result(h, root, "Macro"@)->Ok_0,
        "import"@,
        seq!["...imports"@, "module_path"@],
        Builtin::Host(IMPORT),
    ) && provided_function(
        h2,
        Gc { ptr: s.entries()["export"@] },
        root,
        kind_result(h, root, "Macro"@)->Ok_0,
        "export"@,
        seq!["...exports"@],
        Builtin::Host(EXPORT),
    )
}

/// The step of loading the file at `path` (in the directory `dirname`) as a module
/// below the module map `parent`, before the file is run: the module cached under `path`
/// in the parent's cache when there is one; else a new module below `parent`, cached
/// under `path` in the cache it shares with `parent`, with the scope its file runs in
/// (see `module_scope`), made below the outermost scope of `scope`.
#[verifier::rlimit(60)]
pub fn file_load_step(heap: &mut GcAllocator, scope: Gc, parent: Gc, path: &str, dirname: &str) -> (r: Result<FileLoad, Fault>)
    ensures
        map_pairs(old(heap)@, parent) is None ==> r == Err::<FileLoad, Fault>(Fault::WrongType) && final(heap)@ == old(heap)@,
        cached_module(old(heap)@, parent, path@) matches Some(x) ==> r == Ok::<FileLoad, Fault>(FileLoad::Cached(x)) && final(heap)@
            == old(heap)@,
        map_pairs(old(heap)@, parent) is Some && cached_module(old(heap)@, parent, path@) is None && file_loadable(
            old(heap)@,
            scope,
            parent,
        ) ==> r matches Ok(FileLoad::Fresh(_, _)),
        r matches Ok(FileLoad::Fresh(m, sc)) ==> ({
            let h = old(heap)@;
            let h2 = final(heap)@;
            &&& fresh_module(h, h2, scope_root(h, scope), m, sc, path@, dirname@)
            &&& keys_below(h, parent) && cache_apart(h, parent) ==> (module_value(h2, parent, "cache"@) matches Some(c)
                && module_value(h2, c, path@) == Some(m))
        }),
{
    let ghost h0 = heap@;
    match heap.data(parent) {
        Some(Data::ValueMap(_)) => {},
        _ => {
            return Err(Fault::WrongType);
        },
    }
    match module_get(heap, parent, "cache") {
        Some(c) => match module_get(heap, c, path) {
            Some(m) => {
                return Ok(FileLoad::Cached(m));
            },
            None => {},
        },
        None => {},
    }
    let root = get_scope_root(heap, scope);
    let m = match new_module(heap, scope, Some(parent)) {
        Ok(m) => m,
        Err(e) => {
            return Err(e);
        },
    };
    let ghost hm = heap@;
    proof {
        reveal_strlit("parent");
        reveal_strlit("exports");
        reveal_strlit("cache");
        assert("parent"@[0] != "cache"@[0]);
        assert("exports"@[0] != "cache"@[0]);
        let ps = map_pairs(hm, m)->Some_0;
        assert(str_of(data_of(hm, ps[0].0)) != Some("cache"@));
        assert(str_of(data_of(hm, ps[1].0)) != Some("cache"@));
        assert(str_key_at(hm, ps, "cache"@, 2) == Some(2int));
        assert(str_key_at(hm, ps, "cache"@, 1) == Some(2int));
        assert(str_key_at(hm, ps, "cache"@, 0) == Some(2int));
        assert(module_value(hm, m, "cache"@) == Some(ps[2].1));
        assert forall|i: int| 0 <= i < ps.len() implies #[trigger] ps[i].0.ptr < hm.len() by {
            assert(live_in(hm, ps[i].0));
        }
        assert(keys_below(hm, m));
        if file_loadable(h0, scope, parent) {
            lemma_lookup_kept_but(h0, hm, parent, scope, "String"@);
            if module_value(h0, parent, "cache"@) is Some {
                let c0 = module_value(h0, parent, "cache"@)->Some_0;
                assert(hm[c0.ptr as int] == h0[c0.ptr as int]);
            }
            assert(map_pairs(hm, ps[2].1) is Some);
        }
    }
    let cache = match module_get(heap, m, "cache") {
        Some(c) => c,
        None => {
            return Err(Fault::ValueNotFound);
        },
    };
    proof {
        if keys_below(h0, parent) && cache_apart(h0, parent) {
            match module_value(h0, parent, "cache"@) {
                Some(c0) => {
                    lemma_module_value_extends(h0, hm, parent, "cache"@);
                    assert(hm[c0.ptr as int] == h0[c0.ptr as int]);
                    let p = map_pairs(h0, c0)->Some_0;
                    assert forall|i: int| 0 <= i < p.len() implies #[trigger] p[i].0.ptr < hm.len() by {}
                },
                None => {
                    assert(map_pairs(hm, cache) == Some(Seq::<(Gc, Gc)>::empty()));
                },
            }
        }
    }
    match module_set(heap, scope, cache, path, m) {
        Ok(()) => {},
        Err(e) => {
            return Err(e);
        },
    }
    let ghost hs = heap@;
    proof {
        assert(kept_but(hm, hs, cache));
        let pm = map_pairs(hm, m)->Some_0;
        if cache.ptr != m.ptr {
            assert(hs[m.ptr as int] == hm[m.ptr as int]);
        } else {
            let ps2 = map_pairs(hs, m)->Some_0;
            match str_key_at(hm, pm, path@, 0) {
                Some(k) => {
                    lemma_str_key_found(hm, pm, path@, 0);
                    assert(ps2 == pm.update(k, (pm[k].0, m)));
                    assert forall|i: int| 0 <= i < ps2.len() implies #[trigger] ps2[i].0.ptr < hs.len() by {
                        assert(ps2[i].0 == pm[i].0);
                    }
                },
                None => {
                    let sg = Gc { ptr: hm.len() as usize };
                    assert(ps2 == pm.push((sg, m)));
                    assert forall|i: int| 0 <= i < ps2.len() implies #[trigger] ps2[i].0.ptr < hs.len() by {
                        if i < pm.len() {
                            assert(ps2[i].0 == pm[i].0);
                        } else {
                            assert(ps2[i].0 == sg);
                        }
                    }
                },
            }
        }
        assert(map_pairs(hs, m) is Some);
        assert(keys_below(hs, m));
        if scope_kinds(h0, root) {
            lemma_scope_kinds_kept_but(h0, hm, parent, root);
            lemma_scope_kinds_kept_but(hm, hs, cache, root);
        }
    }
    let sc = match module_scope(heap, root, m, path, dirname) {
        Ok(g) => g,
        Err(e) => {
            return Err(e);
        },
    };
    proof {
        if keys_below(h0, parent) && cache_apart(h0, parent) {
            assert(m.ptr != cache.ptr);
            assert(hs[m.ptr as int] == hm[m.ptr as int]);
            lemma_module_value_kept(hs, heap@, cache, m, path@);
            assert(module_value(hm, parent, "cache"@) == Some(cache));
            assert(keys_below(hm, parent));
            assert(parent.ptr != cache.ptr);
            lemma_module_value_kept(hm, hs, parent, cache, "cache"@);
            assert(parent.ptr != m.ptr);
            lemma_module_value_kept(hs, heap@, parent, m, "cache"@);
        }
    }
    Ok(FileLoad::Fresh(m, sc))
}

/// What loading a module does next.
pub enum LoadStep {
    /// Calls the loader `.0` with the parent module and the file name; the loader after it
    /// is at `.1`.
    Call(Gc, usize),
    /// A loader gave the module `.0`.
    Found(Gc),
    /// No loader gave a module.
    Exhausted,
}

/// The loaders of the module `parent`: the items of the vector bound to `loaders`.
pub open spec fn loaders_of(h: Seq<Option<Object>>, parent: Gc) -> Result<Seq<Gc>, Fault> {
    match module_value(h, parent, "loaders"@) {
        None => Err(Fault::ValueNotFound),
        Some(l) => match data_of(h, l) {
            Some(Data::Vector(v)) => Ok(v@),
            _ => Err(Fault::WrongType),
        },
    }
}

/// The next step of loading a module of `parent`, the loader at `index` being the next to
/// ask and `previous` what the loader asked last gave: that answer when it is a map (a
/// module), else the loader at `index`, else nothing more to ask.
pub open spec fn load_next(h: Seq<Option<Object>>, parent: Gc, index: int, previous: Option<Gc>) -> Result<LoadStep, Fault> {
    if previous matches Some(r) && map_pairs(h, r) is Some {
        Ok(LoadStep::Found(previous->0))
    } else {
        match loaders_of(h, parent) {
            Err(e) => Err(e),
            Ok(items) => if 0 <= index < items.len() {
                Ok(LoadStep::Call(items[index], (index + 1) as usize))
            } else {
                Ok(LoadStep::Exhausted)
            },
        }
    }
}

/// Decides the next step of loading a module of `parent`: the loaders of `parent` are
/// asked in turn, from the first (`index` 0, `previous` `None`), each given the parent
/// module and the file name, until one gives a module.
pub fn load_step(heap: &GcAllocator, parent: Gc, index: usize, previous: Option<Gc>) -> (r: Result<LoadStep, Fault>)
    ensures
        r == load_next(heap@, parent, index as int, previous),
{
    if let Some(g) = previous {
        if let Some(Data::ValueMap(_)) = heap.data(g) {
            return Ok(LoadStep::Found(g));
        }
    }
    let l = match module_get(heap, parent, "loaders") {
        Some(l) => l,
        None => {
            return Err(Fault::ValueNotFound);
        },
    };
    match heap.data(l) {
        Some(Data::Vector(v)) => {
            if index < v.len() {
                let items = v.to_vec();
                Ok(LoadStep::Call(items[index], index + 1))
            } else {
                Ok(LoadStep::Exhausted)
            }
        },
        _ => Err(Fault::WrongType),
    }
}

} // verus!
