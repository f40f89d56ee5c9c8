use vstd::prelude::*;

use crate::context::{new_string, nil_value};
use crate::eval::{eval_raw, evaluation_done, Evaluation};
use crate::fault::Fault;
use crate::gc::Gc;
use crate::gc_allocator::{extends, lemma_extends_trans, live_in, object_in, GcAllocator};
use crate::map::ValueMap;
use crate::object::{kind_result, made_object, new_object_of_kind, string_from, value_result, Data, Object, Tag};
use crate::reader::{chars_of, holds_form, read_form, read_made, read_value, Reader};
use crate::persistent_scope::{lemma_lookup_tag_extends, scope_get, scope_lookup};
use crate::symbol::new_symbol;
use crate::function::{lemma_provided_extends, make_provided, names_of, new_external_function, provided_function};
use crate::persistent_scope::{new_persistent_scope_from, PersistentScope};
use crate::scope_table::{table_entries, ScopeTable};
use crate::stack::Stack;
use crate::function_kind::{Builtin, FunctionKind};
use crate::vector::Vector;
use crate::list::List;
use crate::symbol::Symbol;
use crate::object::{alloc_of_kind, kind_named};

verus! {

/// The number by which the program embedding the runtime is asked to load a module from
/// a dynamic library.
pub const DYLIB_LOADER: u64 = 1u64;

/// The number by which the program embedding the runtime is asked to load a module from
/// a file of source text.
pub const FILE_LOADER: u64 = 2u64;

/// The number by which the program embedding the runtime is asked to import names from a
/// module (`import`).
pub const IMPORT: u64 = 3u64;

/// The number by which the program embedding the runtime is asked to export names from the
/// module being loaded (`export`).
pub const EXPORT: u64 = 4u64;

/// The contents of `d` when it is a string.
pub open spec fn str_of(d: Option<Data>) -> Option<Seq<char>> {
    match d {
        Some(Data::Str(s)) => Some(s@),
        _ => None,
    }
}

/// The contents of the object `g` refers to, if any.
pub open spec fn data_of(h: Seq<Option<Object>>, g: Gc) -> Option<Data> {
    if live_in(h, g) {
        Some(object_in(h, g).value)
    } else {
        None
    }
}

/// The pairs of the map `g` refers to, when it refers to a map.
pub open spec fn map_pairs(h: Seq<Option<Object>>, g: Gc) -> Option<Seq<(Gc, Gc)>> {
    match data_of(h, g) {
        Some(Data::ValueMap(m)) => Some(m@),
        _ => None,
    }
}

/// The first position at or after `i` whose key is a string reading `key`.
pub open spec fn str_key_at(h: Seq<Option<Object>>, pairs: Seq<(Gc, Gc)>, key: Seq<char>, i: int) -> Option<int>
    decreases pairs.len() - i,
{
    if i < 0 || i >= pairs.len() {
        None
    } else if str_of(data_of(h, pairs[i].0)) == Some(key) {
        Some(i)
    } else {
        str_key_at(h, pairs, key, i + 1)
    }
}

/// The value bound in the module map `module` to the string `key`.
pub open spec fn module_value(h: Seq<Option<Object>>, module: Gc, key: Seq<char>) -> Option<Gc> {
    match map_pairs(h, module) {
        Some(p) => match str_key_at(h, p, key, 0) {
            Some(i) => Some(p[i].1),
            None => None,
        },
        None => None,
    }
}

/// A position found by scanning is within the pairs and holds the key.
pub proof fn lemma_str_key_found(h: Seq<Option<Object>>, pairs: Seq<(Gc, Gc)>, key: Seq<char>, i: int)
    requires
        str_key_at(h, pairs, key, i) is Some,
    ensures
        i <= str_key_at(h, pairs, key, i)->Some_0 < pairs.len(),
        str_of(data_of(h, pairs[str_key_at(h, pairs, key, i)->Some_0].0)) == Some(key),
    decreases pairs.len() - i,
{
    if 0 <= i < pairs.len() && str_of(data_of(h, pairs[i].0)) != Some(key) {
        lemma_str_key_found(h, pairs, key, i + 1);
    }
}

/// Whether the strings `a` and `b` hold the same characters.
fn same_text(a: &str, b: &str) -> (r: bool)
    ensures
        r == (a@ == b@),
{
    let n = a.unicode_len();
    if b.unicode_len() != n {
        return false;
    }
    let mut i: usize = 0;
    while i < n
        invariant
            n == a@.len(),
            n == b@.len(),
            i <= n,
            forall|j: int| 0 <= j < i ==> a@[j] == b@[j],
        decreases n - i,
    {
        if a.get_char(i) != b.get_char(i) {
            return false;
        }
        i = i + 1;
    }
    assert(a@ =~= b@);
    true
}

/// The position of the first pair of `pairs` whose key is a string reading `key`.
fn find_str_key(heap: &GcAllocator, pairs: &Vec<(Gc, Gc)>, key: &str) -> (r: Option<usize>)
    ensures
        r matches Some(i) ==> str_key_at(heap@, pairs@, key@, 0) == Some(i as int),
        r is None ==> str_key_at(heap@, pairs@, key@, 0) is None,
{
    let mut i: usize = 0;
    while i < pairs.len()
        invariant
            i <= pairs@.len(),
            str_key_at(heap@, pairs@, key@, i as int) == str_key_at(heap@, pairs@, key@, 0),
        decreases pairs@.len() - i,
    {
        let found = match heap.data(pairs[i].0) {
            Some(Data::Str(s)) => same_text(s.as_str(), key),
            _ => false,
        };
        if found {
            return Some(i);
        }
        i = i + 1;
    }
    None
}

/// The value bound in the module map `module` to the string `key`.
pub fn module_get(heap: &GcAllocator, module: Gc, key: &str) -> (r: Option<Gc>)
    ensures
        r == module_value(heap@, module, key@),
{
    match heap.data(module) {
        Some(Data::ValueMap(m)) => {
            let pairs = m.items_ref();
            assert(map_pairs(heap@, module) == Some(pairs@));
            match find_str_key(heap, pairs, key) {
                Some(i) => {
                    proof {
                        lemma_str_key_found(heap@, pairs@, key@, 0);
                    }
                    assert(module_value(heap@, module, key@) == Some(pairs@[i as int].1));
                    Some(pairs[i].1)
                },
                None => {
                    assert(module_value(heap@, module, key@) is None);
                    None
                },
            }
        },
        _ => {
            assert(map_pairs(heap@, module) is None);
            None
        },
    }
}

/// Whether `h2` is `h` with the map `module` holding `pairs` (its kind and metadata kept)
/// and, past the end of `h`, new objects.
pub open spec fn map_rewritten(h: Seq<Option<Object>>, h2: Seq<Option<Object>>, module: Gc, pairs: Seq<(Gc, Gc)>) -> bool {
    &&& h2.len() >= h.len()
    &&& forall|j: int| 0 <= j < h.len() && j != module.ptr ==> #[trigger] h2[j] == h[j]
    &&& live_in(h2, module)
    &&& object_in(h2, module).kind == object_in(h, module).kind
    &&& object_in(h2, module).meta == object_in(h, module).meta
    &&& object_in(h2, module).marked == object_in(h, module).marked
    &&& map_pairs(h2, module) == Some(pairs)
}

/// Whether no key of the map `module` refers to a slot at or past the end of `h`.
pub open spec fn keys_below(h: Seq<Option<Object>>, module: Gc) -> bool {
    map_pairs(h, module) matches Some(p) ==> forall|i: int| 0 <= i < p.len() ==> #[trigger] p[i].0.ptr < h.len()
}

/// Scanning keys that read the same in `h2` as in `h`, over `p2` that begins with the
/// keys of `p`, finds what it found in `p`, or goes on past the end of `p`.
proof fn lemma_str_key_kept(
    h: Seq<Option<Object>>,
    h2: Seq<Option<Object>>,
    p: Seq<(Gc, Gc)>,
    p2: Seq<(Gc, Gc)>,
    k: Seq<char>,
    j: int,
)
    requires
        0 <= j <= p.len() <= p2.len(),
        forall|x: int|
            #![trigger p[x]]
            0 <= x < p.len() ==> p2[x].0 == p[x].0 && str_of(data_of(h2, p[x].0)) == str_of(data_of(h, p[x].0)),
    ensures
        str_key_at(h, p, k, j) is Some ==> str_key_at(h2, p2, k, j) == str_key_at(h, p, k, j),
        str_key_at(h, p, k, j) is None ==> str_key_at(h2, p2, k, j) == str_key_at(h2, p2, k, p.len() as int),
    decreases p.len() - j,
{
    if j < p.len() {
        let _ = p[j];
        lemma_str_key_kept(h, h2, p, p2, k, j + 1);
    }
}

/// The keys of the map `module` read in `h2` as they read in `h`.
proof fn lemma_keys_read_alike(h: Seq<Option<Object>>, h2: Seq<Option<Object>>, module: Gc, p: Seq<(Gc, Gc)>, p2: Seq<(Gc, Gc)>)
    requires
        map_pairs(h, module) == Some(p),
        map_rewritten(h, h2, module, p2),
        forall|i: int| 0 <= i < p.len() ==> #[trigger] p[i].0.ptr < h.len() || p[i].0.ptr > h2.len() || h2.len() == h.len(),
    ensures
        forall|x: int| #![trigger p[x]] 0 <= x < p.len() ==> str_of(data_of(h2, p[x].0)) == str_of(data_of(h, p[x].0)),
{
    assert forall|x: int| #![trigger p[x]] 0 <= x < p.len() implies str_of(data_of(h2, p[x].0)) == str_of(data_of(h, p[x].0)) by {
        let g = p[x].0;
        if g.ptr == module.ptr {
        } else if g.ptr < h.len() {
            assert(h2[g.ptr as int] == h[g.ptr as int]);
        }
    }
}

/// Reading a module map after binding a key that it held: that key gives the value bound,
/// every other key what it gave before.
proof fn lemma_set_found(h: Seq<Option<Object>>, h2: Seq<Option<Object>>, module: Gc, key: Seq<char>, value: Gc)
    requires
        map_pairs(h, module) is Some,
        str_key_at(h, map_pairs(h, module)->Some_0, key, 0) is Some,
        h2.len() == h.len(),
        map_rewritten(
            h,
            h2,
            module,
            map_pairs(h, module)->Some_0.update(
                str_key_at(h, map_pairs(h, module)->Some_0, key, 0)->Some_0,
                (map_pairs(h, module)->Some_0[str_key_at(h, map_pairs(h, module)->Some_0, key, 0)->Some_0].0, value),
            ),
        ),
    ensures
        module_value(h2, module, key) == Some(value),
        forall|k: Seq<char>| k != key ==> #[trigger] module_value(h2, module, k) == module_value(h, module, k),
{
    let p = map_pairs(h, module)->Some_0;
    let i = str_key_at(h, p, key, 0)->Some_0;
    let p2 = p.update(i, (p[i].0, value));
    lemma_str_key_found(h, p, key, 0);
    lemma_keys_read_alike(h, h2, module, p, p2);
    lemma_str_key_kept(h, h2, p, p2, key, 0);
    assert forall|k: Seq<char>| k != key implies #[trigger] module_value(h2, module, k) == module_value(h, module, k) by {
        lemma_str_key_kept(h, h2, p, p2, k, 0);
        if str_key_at(h, p, k, 0) is Some {
            lemma_str_key_found(h, p, k, 0);
        } else {
            assert(str_key_at(h2, p2, k, p.len() as int) is None);
        }
    }
}

/// Reading a module map after binding a key that it did not hold, under a new string at
/// the end of `h`: that key gives the value bound, every other key what it gave before.
proof fn lemma_set_added(h: Seq<Option<Object>>, h2: Seq<Option<Object>>, module: Gc, key: Seq<char>, value: Gc)
    requires
        map_pairs(h, module) is Some,
        str_key_at(h, map_pairs(h, module)->Some_0, key, 0) is None,
        keys_below(h, module),
        h2.len() == h.len() + 1,
        map_rewritten(h, h2, module, map_pairs(h, module)->Some_0.push((Gc { ptr: h.len() as usize }, value))),
        str_of(data_of(h2, Gc { ptr: h.len() as usize })) == Some(key),
    ensures
        module_value(h2, module, key) == Some(value),
        forall|k: Seq<char>| k != key ==> #[trigger] module_value(h2, module, k) == module_value(h, module, k),
{
    let p = map_pairs(h, module)->Some_0;
    let p2 = p.push((Gc { ptr: h.len() as usize }, value));
    lemma_keys_read_alike(h, h2, module, p, p2);
    lemma_str_key_kept(h, h2, p, p2, key, 0);
    assert(str_key_at(h2, p2, key, p.len() as int) == Some(p.len() as int));
    assert forall|k: Seq<char>| k != key implies #[trigger] module_value(h2, module, k) == module_value(h, module, k) by {
        lemma_str_key_kept(h, h2, p, p2, k, 0);
        if str_key_at(h, p, k, 0) is Some {
            lemma_str_key_found(h, p, k, 0);
        } else {
            assert(str_key_at(h2, p2, k, p.len() as int + 1) is None);
        }
    }
}

/// A module map whose keys lie in a heap reads the same in any heap that extends it.
pub(crate) proof fn lemma_module_value_extends(h: Seq<Option<Object>>, h2: Seq<Option<Object>>, module: Gc, key: Seq<char>)
    requires
        extends(h, h2),
        map_pairs(h, module) is Some,
        keys_below(h, module),
    ensures
        map_pairs(h2, module) == map_pairs(h, module),
        keys_below(h2, module),
        module_value(h2, module, key) == module_value(h, module, key),
{
    assert(h2[module.ptr as int] == h[module.ptr as int]);
    let p = map_pairs(h, module)->Some_0;
    assert forall|x: int| #![trigger p[x]] 0 <= x < p.len() implies p[x].0 == p[x].0 && str_of(data_of(h2, p[x].0)) == str_of(
        data_of(h, p[x].0),
    ) by {
        assert(h2[p[x].0.ptr as int] == h[p[x].0.ptr as int]);
    }
    lemma_str_key_kept(h, h2, p, p, key, 0);
}

/// A module map whose keys lie in `h` reads the same in `h2` when `h2` keeps every object
/// of `h` but `x`, and `x` is neither the map nor a string in either heap.
pub(crate) proof fn lemma_module_value_kept(h: Seq<Option<Object>>, h2: Seq<Option<Object>>, c: Gc, x: Gc, key: Seq<char>)
    requires
        map_pairs(h, c) is Some,
        keys_below(h, c),
        c.ptr != x.ptr,
        kept_but(h, h2, x),
        str_of(data_of(h, x)) is None,
        str_of(data_of(h2, x)) is None,
    ensures
        map_pairs(h2, c) == map_pairs(h, c),
        keys_below(h2, c),
        module_value(h2, c, key) == module_value(h, c, key),
{
    assert(h2[c.ptr as int] == h[c.ptr as int]);
    let p = map_pairs(h, c)->Some_0;
    assert forall|i: int| #![trigger p[i]] 0 <= i < p.len() implies p[i].0 == p[i].0 && str_of(data_of(h2, p[i].0)) == str_of(
        data_of(h, p[i].0),
    ) by {
        if p[i].0.ptr != x.ptr {
            assert(h2[p[i].0.ptr as int] == h[p[i].0.ptr as int]);
        }
    }
    lemma_str_key_kept(h, h2, p, p, key, 0);
}

/// Binds the string `key` to `value` in the module map `module`, in place: the first pair
/// whose key reads `key` gets `value`, or a pair of a new string and `value` is added.
pub fn module_set(heap: &mut GcAllocator, scope: Gc, module: Gc, key: &str, value: Gc) -> (r: Result<(), Fault>)
    ensures
        match map_pairs(old(heap)@, module) {
            None => r == Err::<(), Fault>(Fault::WrongType) && final(heap)@ == old(heap)@,
            Some(p) => match str_key_at(old(heap)@, p, key@, 0) {
                Some(i) => r is Ok && final(heap)@.len() == old(heap)@.len() && map_rewritten(
                    old(heap)@,
                    final(heap)@,
                    module,
                    p.update(i, (p[i].0, value)),
                ),
                None => match kind_result(old(heap)@, scope, "String"@) {
                    Err(e) => r == Err::<(), Fault>(e) && final(heap)@ == old(heap)@,
                    Ok(k) => {
                        let s = Gc { ptr: old(heap)@.len() as usize };
                        &&& r is Ok
                        &&& final(heap)@.len() == old(heap)@.len() + 1
                        &&& map_rewritten(old(heap)@, final(heap)@, module, p.push((s, value)))
                        &&& live_in(final(heap)@, s)
                        &&& object_in(final(heap)@, s).kind == k
                        &&& object_in(final(heap)@, s).meta is None
                        &&& str_of(data_of(final(heap)@, s)) == Some(key@)
                    },
                },
            },
        },
        r is Ok && (module_value(old(heap)@, module, key@) is Some || keys_below(old(heap)@, module)) ==> module_value(
            final(heap)@,
            module,
            key@,
        ) == Some(value),
        r is Ok && (module_value(old(heap)@, module, key@) is Some || keys_below(old(heap)@, module)) ==> forall|k: Seq<char>|
            k != key@ ==> #[trigger] module_value(final(heap)@, module, k) == module_value(old(heap)@, module, k),
        r is Ok && keys_below(old(heap)@, module) ==> keys_below(final(heap)@, module),
        r is Ok ==> map_and_strings(old(heap)@, final(heap)@, module),
{
    let mut pairs = match heap.data(module) {
        Some(Data::ValueMap(m)) => m.to_vec(),
        _ => {
            return Err(Fault::WrongType);
        },
    };
    let ghost p = pairs@;
    let ghost h0 = heap@;
    match find_str_key(heap, &pairs, key) {
        Some(i) => {
            proof {
                lemma_str_key_found(heap@, pairs@, key@, 0);
            }
            let k = pairs[i].0;
            pairs.set(i, (k, value));
            let map = ValueMap::from_vec(pairs);
            assert(map@ == p.update(i as int, (p[i as int].0, value)));
            let ghost hb = heap@;
            heap.set_value(module, Data::ValueMap(map));
            assert(map_pairs(heap@, module) == Some(map@));
            assert(map_rewritten(hb, heap@, module, map@));
            proof {
                lemma_set_found(h0, heap@, module, key@, value);
                assert(map_and_strings(h0, heap@, module));
            }
            Ok(())
        },
        None => {
            let s = match new_string(heap, scope, key) {
                Ok(s) => s,
                Err(e) => {
                    return Err(e);
                },
            };
            let ghost h1 = heap@;
            pairs.push((s, value));
            let map = ValueMap::from_vec(pairs);
            proof {
                assert(live_in(h1, module));
                assert(h1[module.ptr as int] == h0[module.ptr as int]);
            }
            heap.set_value(module, Data::ValueMap(map));
            proof {
                assert(heap@[s.ptr as int] == h1[s.ptr as int]);
                assert forall|j: int| 0 <= j < h0.len() && j != module.ptr implies #[trigger] heap@[j] == h0[j] by {
                    assert(h1[j] == h0[j]);
                }
                if keys_below(h0, module) {
                    lemma_set_added(h0, heap@, module, key@, value);
                }
                assert forall|j: int| h0.len() <= j < heap@.len() implies is_string_slot(#[trigger] heap@[j]) by {
                    assert(j == s.ptr);
                }
            }
            Ok(())
        },
    }
}

/// The text that `run_in_scope` reads: `content` as the body of a `do`.
pub open spec fn do_text(content: Seq<char>) -> Seq<char> {
    seq!['(', 'd', 'o', ' '] + content + seq![')']
}

/// Runs the text `content` as the body of a `do`, in `scope`, for at most `fuel` steps.
pub fn run_in_scope(heap: &mut GcAllocator, scope: Gc, content: &str, fuel: u64) -> (r: Result<Evaluation, Fault>)
    ensures
        content@.len() + 8 > usize::MAX ==> r == Err::<Evaluation, Fault>(Fault::Overflow),
        content@.len() + 8 <= usize::MAX ==> match read_form(old(heap)@, scope, do_text(content@), (0int, 1int, 0int)) {
            Err(e) => r == Err::<Evaluation, Fault>(e),
            Ok((f, _)) => exists|h1: Seq<Option<Object>>, g: Gc|
                read_made(old(heap)@, h1) && holds_form(old(heap)@, scope, Seq::empty(), h1, g, f) && #[trigger] evaluation_done(
                    h1,
                    scope,
                    g,
                    false,
                    fuel as nat,
                    final(heap)@,
                    r,
                ),
        },
{
    let body = chars_of(content);
    if body.len() > usize::MAX - 8 {
        return Err(Fault::Overflow);
    }
    let mut chars: Vec<char> = Vec::new();
    chars.push('(');
    chars.push('d');
    chars.push('o');
    chars.push(' ');
    let mut i: usize = 0;
    while i < body.len()
        invariant
            i <= body@.len(),
            body@.len() + 8 <= usize::MAX,
            chars@ == seq!['(', 'd', 'o', ' '] + body@.subrange(0, i as int),
        decreases body@.len() - i,
    {
        chars.push(body[i]);
        i = i + 1;
        assert(chars@ =~= seq!['(', 'd', 'o', ' '] + body@.subrange(0, i as int));
    }
    chars.push(')');
    assert(chars@ =~= do_text(content@));
    let mut reader = Reader::new(None, chars);
    let value = match read_value(heap, scope, &mut reader) {
        Ok(v) => v,
        Err(e) => {
            return Err(e);
        },
    };
    let ghost h1 = heap@;
    let r = eval_raw(heap, scope, value, fuel);
    proof {
        assert(evaluation_done(h1, scope, value, false, fuel as nat, heap@, r));
    }
    r
}


/// Whether `h2` is `h` with the map `m` rewritten (a map still) and new strings past the
/// end of `h`.
pub open spec fn map_and_strings(h: Seq<Option<Object>>, h2: Seq<Option<Object>>, m: Gc) -> bool {
    &&& h.len() <= h2.len()
    &&& forall|j: int| 0 <= j < h.len() && j != m.ptr ==> #[trigger] h2[j] == h[j]
    &&& map_pairs(h2, m) is Some
    &&& forall|j: int| h.len() <= j < h2.len() ==> is_string_slot(#[trigger] h2[j])
}

/// Whether a slot of the heap holds a string.
pub open spec fn is_string_slot(slot: Option<Object>) -> bool {
    slot matches Some(o) && o.value is Str
}

/// Rewriting a map and adding strings keeps every lookup through scopes, every kind found
/// and every symbol.
proof fn lemma_lookup_kept(h: Seq<Option<Object>>, h2: Seq<Option<Object>>, m: Gc, scope: Gc, name: Seq<char>)
    requires
        map_pairs(h, m) is Some,
        map_and_strings(h, h2, m),
    ensures
        scope_lookup(h2, scope, name) == scope_lookup(h, scope, name),
        kind_result(h2, scope, name) == kind_result(h, scope, name),
        symbol_name(h2, scope) == symbol_name(h, scope),
    decreases scope.ptr,
{
    if scope.ptr == m.ptr {
    } else if scope.ptr < h.len() {
        assert(h2[scope.ptr as int] == h[scope.ptr as int]);
        if live_in(h, scope) {
            match object_in(h, scope).value {
                Data::PersistentScope(s) => {
                    match s.parent {
                        Some(p) => {
                            if p.ptr < scope.ptr {
                                lemma_lookup_kept(h, h2, m, p, name);
                            }
                        },
                        None => {},
                    }
                },
                _ => {},
            }
        }
    } else if scope.ptr < h2.len() {
        assert(is_string_slot(h2[scope.ptr as int]));
    }
    match scope_lookup(h, scope, name) {
        Some(g) => {
            if g.ptr == m.ptr {
            } else if g.ptr < h.len() {
                assert(h2[g.ptr as int] == h[g.ptr as int]);
            } else if g.ptr < h2.len() {
                assert(is_string_slot(h2[g.ptr as int]));
            }
        },
        None => {},
    }
}

/// A binding found through scopes is found the same in a heap that keeps every object but
/// the map `p`, and a kind found stays found.
pub(crate) proof fn lemma_lookup_kept_but(h: Seq<Option<Object>>, h2: Seq<Option<Object>>, p: Gc, scope: Gc, name: Seq<char>)
    requires
        map_pairs(h, p) is Some,
        kept_but(h, h2, p),
    ensures
        scope_lookup(h, scope, name) is Some ==> scope_lookup(h2, scope, name) == scope_lookup(h, scope, name),
        kind_result(h, scope, name) is Ok ==> kind_result(h2, scope, name) == kind_result(h, scope, name),
    decreases scope.ptr,
{
    if live_in(h, scope) && object_in(h, scope).value is PersistentScope {
        assert(scope.ptr != p.ptr);
        assert(h2[scope.ptr as int] == h[scope.ptr as int]);
        match object_in(h, scope).value {
            Data::PersistentScope(s) => {
                match s.parent {
                    Some(q) => {
                        if q.ptr < scope.ptr {
                            lemma_lookup_kept_but(h, h2, p, q, name);
                        }
                    },
                    None => {},
                }
            },
            _ => {},
        }
    }
    if kind_result(h, scope, name) is Ok {
        let g = scope_lookup(h, scope, name)->0;
        assert(g.ptr != p.ptr);
        assert(h2[g.ptr as int] == h[g.ptr as int]);
    }
}

/// The kinds of a module's scope stay bound, the same, in a heap that keeps every object
/// but the map `p`.
pub(crate) proof fn lemma_scope_kinds_kept_but(h: Seq<Option<Object>>, h2: Seq<Option<Object>>, p: Gc, root: Gc)
    requires
        map_pairs(h, p) is Some,
        kept_but(h, h2, p),
        scope_kinds(h, root),
    ensures
        scope_kinds(h2, root),
        kind_result(h2, root, "Macro"@) == kind_result(h, root, "Macro"@),
{
    lemma_lookup_kept_but(h, h2, p, root, "String"@);
    lemma_lookup_kept_but(h, h2, p, root, "Stack"@);
    lemma_lookup_kept_but(h, h2, p, root, "Symbol"@);
    lemma_lookup_kept_but(h, h2, p, root, "PersistentVector"@);
    lemma_lookup_kept_but(h, h2, p, root, "Macro"@);
    lemma_lookup_kept_but(h, h2, p, root, "PersistentScope"@);
}

/// Rewriting a map and adding strings, twice, is rewriting it and adding strings.
proof fn lemma_map_and_strings_trans(a: Seq<Option<Object>>, b: Seq<Option<Object>>, c: Seq<Option<Object>>, m: Gc)
    requires
        map_and_strings(a, b, m),
        map_and_strings(b, c, m),
    ensures
        map_and_strings(a, c, m),
{
    assert forall|j: int| 0 <= j < a.len() && j != m.ptr implies #[trigger] c[j] == a[j] by {
        assert(b[j] == a[j]);
    }
    assert forall|j: int| a.len() <= j < c.len() implies is_string_slot(#[trigger] c[j]) by {
        if j < b.len() {
            assert(is_string_slot(b[j]));
        }
    }
}

/// Whether the symbol `g` names a value bound in `caller`, and, where the keys of the map
/// `exports` lie in `h`, `exports` binds that name to that value in `h2`.
pub open spec fn exported(h: Seq<Option<Object>>, h2: Seq<Option<Object>>, caller: Gc, exports: Gc, g: Gc) -> bool {
    &&& symbol_name(h, g) is Some
    &&& scope_lookup(h, caller, symbol_name(h, g)->Some_0) is Some
    &&& keys_below(h, exports) ==> module_value(h2, exports, symbol_name(h, g)->Some_0) == scope_lookup(
        h,
        caller,
        symbol_name(h, g)->Some_0,
    )
}

/// Whether one of the first `n` of `names` is a symbol naming `k`.
pub open spec fn named_among(h: Seq<Option<Object>>, names: Seq<Gc>, n: int, k: Seq<char>) -> bool {
    exists|j: int| 0 <= j < n && #[trigger] symbol_name(h, names[j]) == Some(k)
}

/// Whether each of `names` is a symbol naming a value bound in `caller`.
pub open spec fn all_exportable(h: Seq<Option<Object>>, caller: Gc, names: Seq<Gc>) -> bool {
    forall|j: int|
        0 <= j < names.len() ==> (#[trigger] symbol_name(h, names[j]) matches Some(t) && scope_lookup(h, caller, t) is Some)
}

/// `export`: binds in the exports of the module bound to `module` in the calling scope
/// (the parent of `scope`) each symbol of the vector `args` to its value there; gives
/// `nil`.
pub fn export(heap: &mut GcAllocator, scope: Gc, args: Gc) -> (r: Result<Gc, Fault>)
    ensures
        ({
            let h = old(heap)@;
            let caller = match data_of(h, scope) {
                Some(Data::PersistentScope(s)) => s.parent,
                _ => None,
            };
            match (value_result(h, scope, "nil"@, Tag::Nil), caller) {
                (Err(e), _) => r == Err::<Gc, Fault>(e),
                (Ok(_), None) => r == Err::<Gc, Fault>(Fault::NotAScope),
                (Ok(nil), Some(c)) => (r is Ok ==> r == Ok::<Gc, Fault>(nil)) && match scope_lookup(h, c, "module"@) {
                    None => r == Err::<Gc, Fault>(Fault::ValueNotFound),
                    Some(m) => match module_value(h, m, "exports"@) {
                        None => r == Err::<Gc, Fault>(if map_pairs(h, m) is Some { Fault::ValueNotFound } else { Fault::WrongType }),
                        Some(e) => if map_pairs(h, e) is None {
                            r == Err::<Gc, Fault>(Fault::WrongType)
                        } else if !(data_of(h, args) matches Some(Data::PersistentVector(_))) {
                            r == Err::<Gc, Fault>(Fault::WrongType)
                        } else {
                            let names = data_of(h, args)->Some_0->PersistentVector_0@;
                            let h2 = final(heap)@;
                            &&& r is Ok ==> forall|j: int| 0 <= j < names.len() ==> exported(h, h2, c, e, #[trigger] names[j])
                            &&& r is Ok && keys_below(h, e) ==> forall|k: Seq<char>|
                                !named_among(h, names, names.len() as int, k) ==> #[trigger] module_value(h2, e, k)
                                    == module_value(h, e, k)
                            &&& all_exportable(h, c, names) && kind_result(h, c, "String"@) is Ok ==> r is Ok
                        },
                    },
                },
            }
        }),
{
    let ghost h0 = heap@;
    let nil = match nil_value(heap, scope) {
        Ok(n) => n,
        Err(e) => {
            return Err(e);
        },
    };
    let caller = match heap.data(scope) {
        Some(Data::PersistentScope(s)) => match s.parent {
            Some(c) => c,
            None => {
                return Err(Fault::NotAScope);
            },
        },
        _ => {
            return Err(Fault::NotAScope);
        },
    };
    let module = match scope_get(heap, caller, "module") {
        Some(m) => m,
        None => {
            return Err(Fault::ValueNotFound);
        },
    };
    let exports = match module_get(heap, module, "exports") {
        Some(e) => e,
        None => {
            return match heap.data(module) {
                Some(Data::ValueMap(_)) => Err(Fault::ValueNotFound),
                _ => Err(Fault::WrongType),
            };
        },
    };
    match heap.data(exports) {
        Some(Data::ValueMap(_)) => {},
        _ => {
            return Err(Fault::WrongType);
        },
    }
    let names = match heap.data(args) {
        Some(Data::PersistentVector(v)) => v.to_vec(),
        _ => {
            return Err(Fault::WrongType);
        },
    };
    let mut i: usize = 0;
    while i < names.len()
        invariant
            i <= names@.len(),
            h0 == old(heap)@,
            value_result(h0, scope, "nil"@, Tag::Nil) == Ok::<Gc, Fault>(nil),
            data_of(h0, scope) matches Some(Data::PersistentScope(s)) && s.parent == Some(caller),
            scope_lookup(h0, caller, "module"@) == Some(module),
            module_value(h0, module, "exports"@) == Some(exports),
            data_of(h0, args) matches Some(Data::PersistentVector(v)) && v@ == names@,
            map_pairs(h0, exports) is Some,
            map_and_strings(h0, heap@, exports),
            forall|j: int| 0 <= j < i ==> exported(h0, heap@, caller, exports, #[trigger] names@[j]),
            keys_below(h0, exports) ==> keys_below(heap@, exports),
            keys_below(h0, exports) ==> forall|k: Seq<char>|
                !named_among(h0, names@, i as int, k) ==> #[trigger] module_value(heap@, exports, k) == module_value(h0, exports, k),
        decreases names@.len() - i,
    {
        let name = names[i];
        let ghost hb = heap@;
        proof {
            lemma_lookup_kept(h0, hb, exports, name, "module"@);
        }
        let text = match heap.data(name) {
            Some(Data::Symbol(x)) => string_from(x.as_str()),
            _ => {
                assert(symbol_name(h0, names@[i as int]) is None);
                return Err(Fault::WrongType);
            },
        };
        let ghost t = text@;
        assert(symbol_name(h0, names@[i as int]) == Some(t));
        let text = text.as_str();
        proof {
            lemma_lookup_kept(h0, hb, exports, caller, t);
            lemma_lookup_kept(h0, hb, exports, caller, "String"@);
        }
        let value = match scope_get(heap, caller, text) {
            Some(v) => v,
            None => {
                return Err(Fault::ValueNotFound);
            },
        };
        match module_set(heap, caller, exports, text, value) {
            Ok(()) => {},
            Err(e) => {
                return Err(e);
            },
        }
        proof {
            assert(map_and_strings(hb, heap@, exports)) by {
                if heap@.len() > hb.len() {
                    assert(heap@.len() == hb.len() + 1);
                    heap.lemma_len_fits();
                    let sg = Gc { ptr: hb.len() as usize };
                    assert(str_of(data_of(heap@, sg)) == Some(t));
                    assert(live_in(heap@, sg));
                    assert forall|j: int| hb.len() <= j < heap@.len() implies is_string_slot(#[trigger] heap@[j]) by {
                        assert(j == sg.ptr);
                    }
                }
            }
            lemma_map_and_strings_trans(h0, hb, heap@, exports);
            assert forall|j: int| 0 <= j < i + 1 implies exported(h0, heap@, caller, exports, #[trigger] names@[j]) by {
                if j < i {
                    assert(exported(h0, hb, caller, exports, names@[j]));
                    if keys_below(h0, exports) {
                        let tj = symbol_name(h0, names@[j])->Some_0;
                        if tj != t {
                            assert(module_value(heap@, exports, tj) == module_value(hb, exports, tj));
                        }
                    }
                }
            }
            if keys_below(h0, exports) {
                assert(keys_below(heap@, exports)) by {
                    let p = map_pairs(hb, exports)->Some_0;
                    let p2 = map_pairs(heap@, exports)->Some_0;
                    assert(keys_below(hb, exports));
                    assert(forall|x: int| 0 <= x < p.len() ==> #[trigger] p[x].0.ptr < hb.len());
                    match str_key_at(hb, p, t, 0) {
                        Some(f) => {
                            lemma_str_key_found(hb, p, t, 0);
                            assert(p2 == p.update(f, (p[f].0, value)));
                            assert forall|x: int| 0 <= x < p2.len() implies #[trigger] p2[x].0.ptr < heap@.len() by {
                                assert(p[x].0.ptr < hb.len());
                            }
                        },
                        None => {
                            assert(p2 == p.push((Gc { ptr: hb.len() as usize }, value)));
                            assert forall|x: int| 0 <= x < p2.len() implies #[trigger] p2[x].0.ptr < heap@.len() by {
                                if x < p.len() {
                                    assert(p[x].0.ptr < hb.len());
                                }
                            }
                        },
                    }
                }
                assert forall|k: Seq<char>| !named_among(h0, names@, i + 1, k) implies #[trigger] module_value(heap@, exports, k)
                    == module_value(h0, exports, k) by {
                    assert(!named_among(h0, names@, i as int, k));
                    assert(k != t);
                    assert(module_value(heap@, exports, k) == module_value(hb, exports, k));
                }
            }
        }
        i = i + 1;
    }
    Ok(nil)
}


/// Whether `g` refers to a string reading `text`.
pub open spec fn holds_text(h: Seq<Option<Object>>, g: Gc, text: Seq<char>) -> bool {
    str_of(data_of(h, g)) == Some(text)
}

/// Whether `g` refers to a new, empty map.
pub open spec fn new_empty_map(h0: Seq<Option<Object>>, h: Seq<Option<Object>>, g: Gc) -> bool {
    g.ptr >= h0.len() && map_pairs(h, g) == Some(Seq::<(Gc, Gc)>::empty())
}

/// Whether the heap `h2` keeps the objects of `h` but the one that `p` refers to.
pub open spec fn kept_but(h: Seq<Option<Object>>, h2: Seq<Option<Object>>, p: Gc) -> bool {
    &&& h.len() <= h2.len()
    &&& forall|j: int| 0 <= j < h.len() && j != p.ptr ==> #[trigger] h2[j] == h[j]
}

/// Whether the kinds of strings and of maps are bound in `scope`.
pub open spec fn module_kinds(h: Seq<Option<Object>>, scope: Gc) -> bool {
    kind_result(h, scope, "String"@) is Ok && kind_result(h, scope, "Map"@) is Ok
}

/// Whether what a new module is made of is there: the kinds of strings and maps, and a
/// parent module map that has loaders, or else `nil` and the kinds that loaders are made of.
pub open spec fn module_makeable(h: Seq<Option<Object>>, scope: Gc, parent: Option<Gc>) -> bool {
    &&& module_kinds(h, scope)
    &&& match parent {
        Some(p) => map_pairs(h, p) is Some && module_value(h, p, "loaders"@) is Some,
        None => value_result(h, scope, "nil"@, Tag::Nil) is Ok && loader_kinds(h, scope),
    }
}

/// The kinds of strings and maps, bound in a heap, are bound the same in any heap that
/// extends it.
proof fn lemma_module_kinds_extends(h: Seq<Option<Object>>, h2: Seq<Option<Object>>, scope: Gc)
    requires
        extends(h, h2),
        module_kinds(h, scope),
    ensures
        module_kinds(h2, scope),
{
    lemma_kind_extends(h, h2, scope, "String"@);
    lemma_kind_extends(h, h2, scope, "Map"@);
}

/// A new module map: the strings `parent`, `exports`, `cache` and `loaders` bound to the
/// parent module (or `nil`), a new map of exports, the cache of modules (the parent's,
/// which gets a new one when it has none, or a new one) and the loaders (the parent's, or
/// a new vector of a loader of dynamic libraries and a loader of files, provided by the
/// embedding program). The parent's cache and loaders are looked up first.
#[verifier::rlimit(90)]
pub fn new_module(heap: &mut GcAllocator, scope: Gc, parent: Option<Gc>) -> (r: Result<Gc, Fault>)
    ensures
        r matches Ok(m) ==> ({
            let h = old(heap)@;
            let h2 = final(heap)@;
            let ps = map_pairs(h2, m)->Some_0;
            &&& map_pairs(h2, m) is Some
            &&& ps.len() == 4
            &&& holds_text(h2, ps[0].0, "parent"@)
            &&& holds_text(h2, ps[1].0, "exports"@)
            &&& holds_text(h2, ps[2].0, "cache"@)
            &&& holds_text(h2, ps[3].0, "loaders"@)
            &&& ps[0].1 == match parent {
                Some(p) => p,
                None => value_result(h, scope, "nil"@, Tag::Nil)->Ok_0,
            }
            &&& new_empty_map(h, h2, ps[1].1)
            &&& match parent {
                Some(p) => {
                    &&& module_value(h, p, "cache"@) matches Some(c) ==> ps[2].1 == c
                    &&& module_value(h, p, "cache"@) is None ==> new_empty_map(h, h2, ps[2].1)
                    &&& module_value(h, p, "cache"@) is None && keys_below(h, p) ==> module_value(h2, p, "cache"@) == Some(ps[2].1)
                    &&& module_value(h, p, "loaders"@) == Some(ps[3].1)
                },
                None => new_empty_map(h, h2, ps[2].1) && ps[3].1.ptr >= h.len() && (data_of(h2, ps[3].1) matches Some(
                    Data::Vector(v),
                ) && v@.len() == 2 && loader_function(h2, v@[0], scope, "dylib_loader"@, DYLIB_LOADER) && loader_function(
                    h2,
                    v@[1],
                    scope,
                    "file_loader"@,
                    FILE_LOADER,
                )),
            }
        }),
        parent is None ==> (value_result(old(heap)@, scope, "nil"@, Tag::Nil) is Err ==> r is Err),
        parent matches Some(p) ==> (map_pairs(old(heap)@, p) is None ==> r == Err::<Gc, Fault>(Fault::WrongType)),
        parent matches Some(p) ==> (map_pairs(old(heap)@, p) is Some && module_value(old(heap)@, p, "loaders"@) is None ==> r
            == Err::<Gc, Fault>(Fault::ValueNotFound)),
        module_makeable(old(heap)@, scope, parent) ==> r is Ok,
        r is Ok ==> (parent matches Some(p) ==> (module_value(old(heap)@, p, "cache"@) is Some ==> extends(old(heap)@, final(heap)@))),
        r is Ok ==> (parent matches Some(p) ==> (keys_below(old(heap)@, p) ==> keys_below(final(heap)@, p) && map_pairs(final(heap)@, p)
            is Some)),
        r matches Ok(m) ==> m.ptr >= old(heap)@.len() && kept_but(
            old(heap)@,
            final(heap)@,
            match parent {
                Some(p) => p,
                None => Gc { ptr: 0 },
            },
        ),
{
    let ghost h0 = heap@;
    let (first, cache0, loaders0) = match parent {
        Some(p) => {
            match heap.data(p) {
                Some(Data::ValueMap(_)) => {},
                _ => {
                    return Err(Fault::WrongType);
                },
            }
            let l = match module_get(heap, p, "loaders") {
                Some(l) => l,
                None => {
                    return Err(Fault::ValueNotFound);
                },
            };
            (p, module_get(heap, p, "cache"), Some(l))
        },
        None => match nil_value(heap, scope) {
            Ok(n) => (n, None, None),
            Err(e) => {
                return Err(e);
            },
        },
    };
    let k1 = match new_string(heap, scope, "parent") {
        Ok(g) => g,
        Err(e) => {
            return Err(e);
        },
    };
    let ghost h1 = heap@;
    proof {
        if module_makeable(h0, scope, parent) {
            lemma_module_kinds_extends(h0, h1, scope);
        }
    }
    let k2 = match new_string(heap, scope, "exports") {
        Ok(g) => g,
        Err(e) => {
            return Err(e);
        },
    };
    let ghost h2 = heap@;
    proof {
        lemma_extends_trans(h0, h1, h2);
        if module_makeable(h0, scope, parent) {
            lemma_module_kinds_extends(h0, h2, scope);
        }
    }
    let exports = match new_object_of_kind(heap, scope, "Map", Data::ValueMap(ValueMap::new()), None) {
        Ok(g) => g,
        Err(e) => {
            return Err(e);
        },
    };
    let ghost h3 = heap@;
    proof {
        lemma_extends_trans(h0, h2, h3);
        if module_makeable(h0, scope, parent) {
            lemma_module_kinds_extends(h0, h3, scope);
        }
    }
    let k3 = match new_string(heap, scope, "cache") {
        Ok(g) => g,
        Err(e) => {
            return Err(e);
        },
    };
    let ghost h4 = heap@;
    proof {
        lemma_extends_trans(h0, h3, h4);
        if module_makeable(h0, scope, parent) {
            lemma_module_kinds_extends(h0, h4, scope);
        }
        assert(h1[k1.ptr as int] == h4[k1.ptr as int]);
        assert(h2[k2.ptr as int] == h4[k2.ptr as int]);
        assert(h3[exports.ptr as int] == h4[exports.ptr as int]);
    }
    let cache = match cache0 {
        Some(c) => c,
        None => {
            let c = match new_object_of_kind(heap, scope, "Map", Data::ValueMap(ValueMap::new()), None) {
                Ok(g) => g,
                Err(e) => {
                    return Err(e);
                },
            };
            let ghost h5 = heap@;
            proof {
                lemma_extends_trans(h0, h4, h5);
                if module_makeable(h0, scope, parent) {
                    lemma_module_kinds_extends(h0, h5, scope);
                }
            }
            match parent {
                Some(p) => {
                    proof {
                        assert(h5[p.ptr as int] == h0[p.ptr as int]);
                        if keys_below(h0, p) {
                            assert(extends(h0, h5));
                            lemma_module_value_extends(h0, h5, p, "cache"@);
                        }
                    }
                    match module_set(heap, scope, p, "cache", c) {
                        Ok(()) => {},
                        Err(e) => {
                            return Err(e);
                        },
                    }
                    proof {
                        assert(heap@[c.ptr as int] == h5[c.ptr as int]);
                        if module_makeable(h0, scope, parent) {
                            lemma_lookup_kept(h5, heap@, p, scope, "String"@);
                            lemma_lookup_kept(h5, heap@, p, scope, "Map"@);
                        }
                    }
                },
                None => {},
            }
            c
        },
    };
    let ghost hc = heap@;
    proof {
        assert(kept_but(h4, hc, first));
        assert(hc[k1.ptr as int] == h4[k1.ptr as int]);
        assert(hc[k2.ptr as int] == h4[k2.ptr as int]);
        assert(hc[k3.ptr as int] == h4[k3.ptr as int]);
        assert(hc[exports.ptr as int] == h4[exports.ptr as int]);
    }
    let k4 = match new_string(heap, scope, "loaders") {
        Ok(g) => g,
        Err(e) => {
            return Err(e);
        },
    };
    let ghost hk = heap@;
    proof {
        if module_makeable(h0, scope, parent) {
            lemma_module_kinds_extends(hc, hk, scope);
            if parent is None {
                lemma_extends_trans(h0, hc, hk);
                lemma_loader_kinds_extends(h0, hk, scope);
            }
        }
    }
    let loaders = match loaders0 {
        Some(l) => l,
        None => {
            let f1 = match add_loader(heap, scope, "dylib_loader", DYLIB_LOADER) {
                Ok(g) => g,
                Err(e) => {
                    return Err(e);
                },
            };
            let ghost hf1 = heap@;
            let f2 = match add_loader(heap, scope, "file_loader", FILE_LOADER) {
                Ok(g) => g,
                Err(e) => {
                    return Err(e);
                },
            };
            let ghost hf2 = heap@;
            let mut items: Vec<Gc> = Vec::new();
            items.push(f1);
            items.push(f2);
            let v = match new_object_of_kind(heap, scope, "Vector", Data::Vector(Vector::from_vec(items)), None) {
                Ok(g) => g,
                Err(e) => {
                    return Err(e);
                },
            };
            proof {
                lemma_extends_trans(hk, hf1, hf2);
                lemma_extends_trans(hk, hf2, heap@);
                if module_makeable(h0, scope, parent) {
                    lemma_module_kinds_extends(hk, heap@, scope);
                }
                lemma_extends_trans(hf1, hf2, heap@);
                lemma_loader_extends(hf1, heap@, f1, scope, "dylib_loader"@, DYLIB_LOADER);
                lemma_loader_extends(hf2, heap@, f2, scope, "file_loader"@, FILE_LOADER);
            }
            v
        },
    };
    let ghost hl = heap@;
    proof {
        if module_makeable(h0, scope, parent) && loaders0 is Some {
            assert(hl == hk);
        }
    }
    let mut pairs: Vec<(Gc, Gc)> = Vec::new();
    pairs.push((k1, first));
    pairs.push((k2, exports));
    pairs.push((k3, cache));
    pairs.push((k4, loaders));
    let r = new_object_of_kind(heap, scope, "Map", Data::ValueMap(ValueMap::from_vec(pairs)), None);
    proof {
        if let Ok(m) = r {
            let fp = match parent {
                Some(p) => p,
                None => Gc { ptr: 0 },
            };
            assert(kept_but(h0, heap@, fp)) by {
                lemma_extends_trans(hk, hl, heap@);
                assert forall|j: int| 0 <= j < h0.len() && j != fp.ptr implies #[trigger] heap@[j] == h0[j] by {
                    assert(h4[j] == h0[j]);
                    assert(hc[j] == h4[j]);
                    assert(hk[j] == hc[j]);
                    assert(heap@[j] == hk[j]);
                }
            }
            lemma_extends_trans(hk, hl, heap@);
            assert(extends(hk, heap@));
            assert(heap@[k1.ptr as int] == hc[k1.ptr as int]);
            assert(heap@[k2.ptr as int] == hc[k2.ptr as int]);
            assert(heap@[k3.ptr as int] == hc[k3.ptr as int]);
            assert(heap@[k4.ptr as int] == hk[k4.ptr as int]);
            assert(heap@[exports.ptr as int] == hc[exports.ptr as int]);
            if let Some(p) = parent {
                if cache0 is Some {
                    assert(extends(h0, heap@)) by {
                        assert forall|j: int| 0 <= j < h0.len() implies #[trigger] heap@[j] == h0[j] by {
                            assert(h4[j] == h0[j]);
                            assert(hc[j] == h4[j]);
                            assert(hk[j] == hc[j]);
                            assert(heap@[j] == hk[j]);
                        }
                    }
                    if keys_below(h0, p) {
                        lemma_module_value_extends(h0, heap@, p, "cache"@);
                    }
                }
            }
            if cache0 is None {
                assert(heap@[cache.ptr as int] == hc[cache.ptr as int]);
                if let Some(p) = parent {
                    if keys_below(h0, p) {
                        assert(extends(hc, heap@));
                        lemma_module_value_extends(hc, heap@, p, "cache"@);
                    }
                }
            }
            if loaders0 is None {
                assert(heap@[loaders.ptr as int] == hl[loaders.ptr as int]);
                let v = data_of(hl, loaders)->Some_0->Vector_0;
                lemma_loader_extends(hl, heap@, v@[0], scope, "dylib_loader"@, DYLIB_LOADER);
                lemma_loader_extends(hl, heap@, v@[1], scope, "file_loader"@, FILE_LOADER);
            }
        }
    }
    r
}

/// Whether `f` refers to a provided function made in `scope`, named by the symbol `name`,
/// with a vector of the parameters `filename` and `module`, that the embedding program
/// runs under the number `id`: a loader of modules.
pub open spec fn loader_function(h: Seq<Option<Object>>, f: Gc, scope: Gc, name: Seq<char>, id: u64) -> bool {
    &&& data_of(h, f) matches Some(Data::Function(func))
    &&& func.scope == scope
    &&& func.body == FunctionKind::External(Builtin::Host(id))
    &&& func.name matches Some(n) && symbol_name(h, n) == Some(name)
    &&& data_of(h, func.params) matches Some(Data::Vector(v)) && v@.len() == 2 && symbol_name(h, v@[0]) == Some("filename"@)
        && symbol_name(h, v@[1]) == Some("module"@)
}

/// A loader found in a heap is found, the same, in any heap that extends it.
proof fn lemma_loader_extends(h: Seq<Option<Object>>, h2: Seq<Option<Object>>, f: Gc, scope: Gc, name: Seq<char>, id: u64)
    requires
        extends(h, h2),
        loader_function(h, f, scope, name, id),
    ensures
        loader_function(h2, f, scope, name, id),
{
    let func = data_of(h, f)->Some_0->Function_0;
    let n = func.name->Some_0;
    let v = data_of(h, func.params)->Some_0->Vector_0;
    assert(h2[f.ptr as int] == h[f.ptr as int]);
    assert(h2[n.ptr as int] == h[n.ptr as int]);
    assert(h2[func.params.ptr as int] == h[func.params.ptr as int]);
    assert(h2[v@[0].ptr as int] == h[v@[0].ptr as int]);
    assert(h2[v@[1].ptr as int] == h[v@[1].ptr as int]);
}

/// A kind found in a heap is found, the same, in any heap that extends it.
proof fn lemma_kind_extends(h: Seq<Option<Object>>, h2: Seq<Option<Object>>, scope: Gc, name: Seq<char>)
    requires
        extends(h, h2),
        kind_result(h, scope, name) is Ok,
    ensures
        kind_result(h2, scope, name) == kind_result(h, scope, name),
{
    lemma_lookup_tag_extends(h, h2, scope, name, Tag::Kind);
}

/// Whether the kinds that a loader is made of are bound in `scope`.
pub open spec fn loader_kinds(h: Seq<Option<Object>>, scope: Gc) -> bool {
    &&& kind_result(h, scope, "Symbol"@) is Ok
    &&& kind_result(h, scope, "Vector"@) is Ok
    &&& kind_result(h, scope, "Function"@) is Ok
}

/// The kinds of a loader, bound in a heap, are bound the same in any heap that extends it.
proof fn lemma_loader_kinds_extends(h: Seq<Option<Object>>, h2: Seq<Option<Object>>, scope: Gc)
    requires
        extends(h, h2),
        loader_kinds(h, scope),
    ensures
        loader_kinds(h2, scope),
{
    lemma_kind_extends(h, h2, scope, "Symbol"@);
    lemma_kind_extends(h, h2, scope, "Vector"@);
    lemma_kind_extends(h, h2, scope, "Function"@);
}

/// A new provided function named `name`, with the parameters `filename` and `module`, that
/// the embedding program runs under the number `id`.
fn add_loader(heap: &mut GcAllocator, scope: Gc, name: &str, id: u64) -> (r: Result<Gc, Fault>)
    ensures
        extends(old(heap)@, final(heap)@),
        r matches Ok(f) ==> loader_function(final(heap)@, f, scope, name@, id),
        loader_kinds(old(heap)@, scope) ==> r is Ok,
        loader_kinds(old(heap)@, scope) ==> loader_kinds(final(heap)@, scope),
{
    let ghost h0 = heap@;
    let n = match new_symbol(heap, scope, name) {
        Ok(g) => g,
        Err(e) => {
            return Err(e);
        },
    };
    let ghost h1 = heap@;
    proof {
        if loader_kinds(h0, scope) {
            lemma_loader_kinds_extends(h0, h1, scope);
        }
    }
    let a = match new_symbol(heap, scope, "filename") {
        Ok(g) => g,
        Err(e) => {
            proof {
                lemma_extends_trans(h0, h1, heap@);
            }
            return Err(e);
        },
    };
    let ghost h2 = heap@;
    proof {
        lemma_extends_trans(h0, h1, h2);
        if loader_kinds(h0, scope) {
            lemma_loader_kinds_extends(h0, h2, scope);
        }
    }
    let b = match new_symbol(heap, scope, "module") {
        Ok(g) => g,
        Err(e) => {
            return Err(e);
        },
    };
    let ghost h3 = heap@;
    proof {
        lemma_extends_trans(h0, h2, h3);
        if loader_kinds(h0, scope) {
            lemma_loader_kinds_extends(h0, h3, scope);
        }
    }
    let mut params: Vec<Gc> = Vec::new();
    params.push(a);
    params.push(b);
    let p = match new_object_of_kind(heap, scope, "Vector", Data::Vector(Vector::from_vec(params)), None) {
        Ok(g) => g,
        Err(e) => {
            return Err(e);
        },
    };
    let ghost h4 = heap@;
    proof {
        lemma_extends_trans(h0, h3, h4);
        if loader_kinds(h0, scope) {
            lemma_loader_kinds_extends(h0, h4, scope);
        }
    }
    let r = new_external_function(heap, scope, Some(n), p, Builtin::Host(id));
    proof {
        lemma_extends_trans(h0, h4, heap@);
        if loader_kinds(h0, scope) {
            lemma_loader_kinds_extends(h0, heap@, scope);
        }
        if r is Ok {
            assert(heap@[n.ptr as int] == h1[n.ptr as int]);
            assert(heap@[a.ptr as int] == h2[a.ptr as int]);
            assert(heap@[b.ptr as int] == h3[b.ptr as int]);
            assert(heap@[p.ptr as int] == h4[p.ptr as int]);
        }
    }
    r
}


/// The name of the symbol that `g` refers to, if it refers to one.
pub open spec fn symbol_name(h: Seq<Option<Object>>, g: Gc) -> Option<Seq<char>> {
    match data_of(h, g) {
        Some(Data::Symbol(x)) => Some(x.0@),
        _ => None,
    }
}

/// The value that importing the symbol `g` from the exports map `exports` binds.
pub open spec fn imported(h: Seq<Option<Object>>, exports: Gc, g: Gc) -> Option<Gc> {
    match symbol_name(h, g) {
        Some(n) => module_value(h, exports, n),
        None => None,
    }
}

/// The fault met importing `names` from `exports`, from position `i` on: a name that is
/// not a symbol, or one that the module does not export.
pub open spec fn import_fault(h: Seq<Option<Object>>, exports: Gc, names: Seq<Gc>, i: int) -> Option<Fault>
    decreases names.len() - i,
{
    if i < 0 || i >= names.len() {
        None
    } else if symbol_name(h, names[i]) is None {
        Some(Fault::WrongType)
    } else if imported(h, exports, names[i]) is None {
        Some(Fault::ValueNotFound)
    } else {
        import_fault(h, exports, names, i + 1)
    }
}

/// No fault importing from `i` on: every name from `i` on is imported.
pub proof fn lemma_import_fault_none(h: Seq<Option<Object>>, exports: Gc, names: Seq<Gc>, i: int, j: int)
    requires
        0 <= i <= j < names.len(),
        import_fault(h, exports, names, i) is None,
    ensures
        imported(h, exports, names[j]) is Some,
    decreases j - i,
{
    if i < j {
        lemma_import_fault_none(h, exports, names, i + 1, j);
    }
}

/// The form that `import` expands to: `(do (def name value) ...)`, binding each symbol of
/// `names` to the value bound to its name in the exports map `exports`.
pub fn import_form(heap: &mut GcAllocator, scope: Gc, exports: Gc, names: &Vec<Gc>) -> (r: Result<Gc, Fault>)
    ensures
        extends(old(heap)@, final(heap)@),
        ({
            let h = old(heap)@;
            let h2 = final(heap)@;
            match (kind_result(h, scope, "Symbol"@), kind_result(h, scope, "List"@)) {
                (Err(e), _) => r == Err::<Gc, Fault>(e),
                (_, Err(e)) => r == Err::<Gc, Fault>(e),
                (Ok(sk), Ok(lk)) => match import_fault(h, exports, names@, 0) {
                    Some(e) => r == Err::<Gc, Fault>(e),
                    None => r matches Ok(g) && data_of(h2, g) matches Some(Data::List(l)) && l@.len() == names@.len() + 1 && symbol_name(
                        h2,
                        l@[0],
                    ) == Some("do"@) && forall|i: int|
                        0 <= i < names@.len() ==> (data_of(h2, #[trigger] l@[i + 1]) matches Some(Data::List(d)) && d@.len() == 3
                            && symbol_name(h2, d@[0]) == Some("def"@) && d@[1] == names@[i] && Some(d@[2]) == imported(h, exports, names@[i])),
                },
            }
        }),
{
    let ghost h0 = heap@;
    let sk = match kind_named(heap, scope, "Symbol") {
        Ok(k) => k,
        Err(e) => {
            return Err(e);
        },
    };
    let lk = match kind_named(heap, scope, "List") {
        Ok(k) => k,
        Err(e) => {
            return Err(e);
        },
    };
    let mut values: Vec<Gc> = Vec::new();
    let mut i: usize = 0;
    while i < names.len()
        invariant
            i <= names@.len(),
            heap@ == h0,
            h0 == old(heap)@,
            kind_result(h0, scope, "Symbol"@) == Ok::<Gc, Fault>(sk),
            kind_result(h0, scope, "List"@) == Ok::<Gc, Fault>(lk),
            values@.len() == i,
            import_fault(h0, exports, names@, i as int) == import_fault(h0, exports, names@, 0),
            forall|j: int| 0 <= j < i ==> Some(#[trigger] values@[j]) == imported(h0, exports, names@[j]),
        decreases names@.len() - i,
    {
        let text = match heap.data(names[i]) {
            Some(Data::Symbol(x)) => string_from(x.as_str()),
            _ => {
                return Err(Fault::WrongType);
            },
        };
        let value = match module_get(heap, exports, text.as_str()) {
            Some(v) => v,
            None => {
                return Err(Fault::ValueNotFound);
            },
        };
        values.push(value);
        i = i + 1;
    }
    proof {
        assert(live_in(h0, scope));
    }
    let head = alloc_of_kind(heap, sk, Data::Symbol(Symbol::new(string_from("do"))), None);
    let mut items: Vec<Gc> = Vec::new();
    items.push(head);
    let mut i: usize = 0;
    while i < names.len()
        invariant
            i <= names@.len(),
            values@.len() == names@.len(),
            forall|j: int| 0 <= j < names@.len() ==> Some(#[trigger] values@[j]) == imported(h0, exports, names@[j]),
            extends(h0, heap@),
            h0.len() > 0,
            items@.len() == i + 1,
            symbol_name(heap@, items@[0]) == Some("do"@),
            forall|j: int| 0 <= j < i ==> (data_of(heap@, #[trigger] items@[j + 1]) matches Some(Data::List(d)) && d@.len() == 3
                && symbol_name(heap@, d@[0]) == Some("def"@) && d@[1] == names@[j] && Some(d@[2]) == imported(h0, exports, names@[j])),
        decreases names@.len() - i,
    {
        let ghost hb = heap@;
        let def = alloc_of_kind(heap, sk, Data::Symbol(Symbol::new(string_from("def"))), None);
        let mut parts: Vec<Gc> = Vec::new();
        parts.push(def);
        parts.push(names[i]);
        parts.push(values[i]);
        let ghost hd = heap@;
        let item = alloc_of_kind(heap, lk, Data::List(List::from_vec(parts)), None);
        let ghost t0 = items@;
        items.push(item);
        proof {
            lemma_extends_trans(hb, hd, heap@);
            lemma_extends_trans(h0, hb, heap@);
            assert(heap@[def.ptr as int] == hd[def.ptr as int]);
            assert(heap@[t0[0].ptr as int] == hb[t0[0].ptr as int]);
            assert forall|j: int| 0 <= j < i + 1 implies (data_of(heap@, #[trigger] items@[j + 1]) matches Some(Data::List(d)) && d@.len()
                == 3 && symbol_name(heap@, d@[0]) == Some("def"@) && d@[1] == names@[j] && Some(d@[2]) == imported(h0, exports, names@[j])) by {
                if j < i {
                    let g = t0[j + 1];
                    assert(items@[j + 1] == g);
                    assert(heap@[g.ptr as int] == hb[g.ptr as int]);
                    let d = hb[g.ptr as int]->Some_0.value->List_0;
                    assert(heap@[d@[0].ptr as int] == hb[d@[0].ptr as int]);
                }
            }
        }
        i = i + 1;
    }
    let ghost hi = heap@;
    let g = alloc_of_kind(heap, lk, Data::List(List::from_vec(items)), None);
    proof {
        lemma_extends_trans(h0, hi, heap@);
        assert(heap@[items@[0].ptr as int] == hi[items@[0].ptr as int]);
        assert forall|j: int| 0 <= j < names@.len() implies (data_of(heap@, #[trigger] items@[j + 1]) matches Some(Data::List(d)) && d@.len()
            == 3 && symbol_name(heap@, d@[0]) == Some("def"@) && d@[1] == names@[j] && Some(d@[2]) == imported(h0, exports, names@[j])) by {
            let x = items@[j + 1];
            assert(heap@[x.ptr as int] == hi[x.ptr as int]);
            let d = hi[x.ptr as int]->Some_0.value->List_0;
            assert(heap@[d@[0].ptr as int] == hi[d@[0].ptr as int]);
        }
    }
    Ok(g)
}


/// A new provided macro named `name` with the parameters `params`, that the embedding
/// program runs under the number `id`, made in `scope`.
fn add_host_macro(heap: &mut GcAllocator, scope: Gc, name: &str, params: &Vec<&str>, id: u64) -> (r: Result<Gc, Fault>)
    ensures
        extends(old(heap)@, final(heap)@),
        match (kind_result(old(heap)@, scope, "Symbol"@), kind_result(old(heap)@, scope, "PersistentVector"@), kind_result(
            old(heap)@,
            scope,
            "Macro"@,
        )) {
            (Ok(_), Ok(_), Ok(mk)) => r matches Ok(f) && provided_function(
                final(heap)@,
                f,
                scope,
                mk,
                name@,
                names_of(params@),
                Builtin::Host(id),
            ),
            _ => r == Err::<Gc, Fault>(Fault::KindNotFound) && final(heap)@ == old(heap)@,
        },
{
    let sk = match kind_named(heap, scope, "Symbol") {
        Ok(k) => k,
        Err(e) => {
            return Err(e);
        },
    };
    let vk = match kind_named(heap, scope, "PersistentVector") {
        Ok(k) => k,
        Err(e) => {
            return Err(e);
        },
    };
    let mk = match kind_named(heap, scope, "Macro") {
        Ok(k) => k,
        Err(e) => {
            return Err(e);
        },
    };
    Ok(make_provided(heap, sk, vk, mk, scope, name, params, Builtin::Host(id)))
}

/// Binds, in the module map `module`, `filename` and `dirname` to new strings of the
/// names.
fn bind_file_names(heap: &mut GcAllocator, root: Gc, module: Gc, filename: &str, dirname: &str) -> (r: Result<(), Fault>)
    requires
        map_pairs(old(heap)@, module) is Some,
    ensures
        r is Ok ==> map_and_strings(old(heap)@, final(heap)@, module),
        r is Ok && keys_below(old(heap)@, module) ==> keys_below(final(heap)@, module) && (module_value(final(heap)@, module, "filename"@)
            matches Some(f) && holds_text(final(heap)@, f, filename@)) && (module_value(final(heap)@, module, "dirname"@) matches Some(d)
            && holds_text(final(heap)@, d, dirname@)),
        scope_kinds(old(heap)@, root) ==> r is Ok && scope_kinds(final(heap)@, root) && kind_result(final(heap)@, root, "Macro"@)
            == kind_result(old(heap)@, root, "Macro"@),
{
    let ghost h0 = heap@;
    let f = match new_string(heap, root, filename) {
        Ok(g) => g,
        Err(e) => {
            return Err(e);
        },
    };
    let ghost ha = heap@;
    proof {
        if scope_kinds(h0, root) {
            lemma_scope_kinds_kept(h0, ha, root, module);
        }
        if keys_below(h0, module) {
            lemma_module_value_extends(h0, ha, module, "filename"@);
        }
        assert(ha[module.ptr as int] == h0[module.ptr as int]);
        assert forall|j: int| 0 <= j < h0.len() && j != module.ptr implies #[trigger] ha[j] == h0[j] by {}
    }
    match module_set(heap, root, module, "filename", f) {
        Ok(()) => {},
        Err(e) => {
            return Err(e);
        },
    }
    let ghost hb = heap@;
    proof {
        if scope_kinds(h0, root) {
            lemma_scope_kinds_kept(ha, hb, root, module);
        }
        assert(hb[f.ptr as int] == ha[f.ptr as int]);
    }
    let d = match new_string(heap, root, dirname) {
        Ok(g) => g,
        Err(e) => {
            return Err(e);
        },
    };
    let ghost hc = heap@;
    proof {
        if scope_kinds(h0, root) {
            lemma_scope_kinds_kept(hb, hc, root, module);
        }
        if keys_below(h0, module) {
            lemma_module_value_extends(hb, hc, module, "filename"@);
            lemma_module_value_extends(hb, hc, module, "dirname"@);
        }
        assert(hc[f.ptr as int] == hb[f.ptr as int]);
        assert(hc[module.ptr as int] == hb[module.ptr as int]);
    }
    match module_set(heap, root, module, "dirname", d) {
        Ok(()) => {},
        Err(e) => {
            return Err(e);
        },
    }
    proof {
        if scope_kinds(h0, root) {
            lemma_scope_kinds_kept(hc, heap@, root, module);
        }
        reveal_strlit("filename");
        reveal_strlit("dirname");
        assert("filename"@[0] != "dirname"@[0]);
        assert(heap@[f.ptr as int] == hc[f.ptr as int]);
        assert(heap@[d.ptr as int] == hc[d.ptr as int]);
        assert(map_and_strings(hb, hc, module)) by {
            assert forall|j: int| hb.len() <= j < hc.len() implies is_string_slot(#[trigger] hc[j]) by {
                assert(j == d.ptr);
            }
        }
        lemma_map_and_strings_trans(hb, hc, heap@, module);
        assert(map_and_strings(h0, ha, module)) by {
            assert forall|j: int| h0.len() <= j < ha.len() implies is_string_slot(#[trigger] ha[j]) by {
                assert(j == f.ptr);
            }
        }
        lemma_map_and_strings_trans(h0, ha, hb, module);
        lemma_map_and_strings_trans(h0, hb, heap@, module);
    }
    Ok(())
}

/// Whether the kinds that a module's scope is made of are bound in `root`.
pub open spec fn scope_kinds(h: Seq<Option<Object>>, root: Gc) -> bool {
    &&& kind_result(h, root, "String"@) is Ok
    &&& kind_result(h, root, "Stack"@) is Ok
    &&& kind_result(h, root, "Symbol"@) is Ok
    &&& kind_result(h, root, "PersistentVector"@) is Ok
    &&& kind_result(h, root, "Macro"@) is Ok
    &&& kind_result(h, root, "PersistentScope"@) is Ok
}

/// The kinds of a module's scope, bound in a heap, are bound the same in any heap that
/// extends it, or that rewrites a map of it and adds strings.
proof fn lemma_scope_kinds_kept(h: Seq<Option<Object>>, h2: Seq<Option<Object>>, root: Gc, m: Gc)
    requires
        scope_kinds(h, root),
        extends(h, h2) || (map_pairs(h, m) is Some && map_and_strings(h, h2, m)),
    ensures
        scope_kinds(h2, root),
        kind_result(h2, root, "Macro"@) == kind_result(h, root, "Macro"@),
{
    if extends(h, h2) {
        lemma_kind_extends(h, h2, root, "String"@);
        lemma_kind_extends(h, h2, root, "Stack"@);
        lemma_kind_extends(h, h2, root, "Symbol"@);
        lemma_kind_extends(h, h2, root, "PersistentVector"@);
        lemma_kind_extends(h, h2, root, "Macro"@);
        lemma_kind_extends(h, h2, root, "PersistentScope"@);
    } else {
        lemma_lookup_kept(h, h2, m, root, "String"@);
        lemma_lookup_kept(h, h2, m, root, "Stack"@);
        lemma_lookup_kept(h, h2, m, root, "Symbol"@);
        lemma_lookup_kept(h, h2, m, root, "PersistentVector"@);
        lemma_lookup_kept(h, h2, m, root, "Macro"@);
        lemma_lookup_kept(h, h2, m, root, "PersistentScope"@);
    }
}

/// The scope that a module read from the file `filename`, in the directory `dirname`, runs
/// in: a new scope extending `root`, binding `__stack` to a new evaluator stack,
/// `module` to the module map `module`, `__filename` and `__dirname` to the names, and
/// `import` and `export` to macros that the embedding program provides. The module map
/// gets the names under `filename` and `dirname` too.
#[verifier::rlimit(40)]
pub fn module_scope(heap: &mut GcAllocator, root: Gc, module: Gc, filename: &str, dirname: &str) -> (r: Result<Gc, Fault>)
    ensures
        r matches Ok(g) ==> ({
            let h = old(heap)@;
            let h2 = final(heap)@;
            let s = object_in(h2, g).value->PersistentScope_0;
            &&& live_in(h2, g)
            &&& object_in(h2, g).value is PersistentScope
            &&& s.parent == Some(root) && s.entries().dom()
                =~= set!["__stack"@, "module"@, "__filename"@, "__dirname"@, "import"@, "export"@] && s.entries()["module"@]
                == module.ptr
            &&& holds_text(h2, Gc { ptr: s.entries()["__filename"@] }, filename@)
            &&& holds_text(h2, Gc { ptr: s.entries()["__dirname"@] }, dirname@)
            &&& data_of(h2, Gc { ptr: s.entries()["__stack"@] }) matches Some(Data::Stack(t)) && t.value@.len() == 0 && t.scope@.len()
                == 0 && t.callable@.len() == 0 && t.state@.len() == 0
            &&& scope_kinds(h, root) ==> provided_function(
                h2,
                Gc { ptr: s.entries()["import"@] },
                root,
                kind_result(h, root, "Macro"@)->Ok_0,
                "import"@,
                seq!["...imports"@, "module_path"@],
                Builtin::Host(IMPORT),
            ) && provided_function(
                h2,
                Gc { ptr: s.entries()["export"@] },
                root,
                kind_result(h, root, "Macro"@)->Ok_0,
                "export"@,
                seq!["...exports"@],
                Builtin::Host(EXPORT),
            )
            &&& keys_below(h, module) ==> (module_value(h2, module, "filename"@) matches Some(f) && holds_text(h2, f, filename@))
            &&& keys_below(h, module) ==> (module_value(h2, module, "dirname"@) matches Some(d) && holds_text(h2, d, dirname@))
        }),
        map_pairs(old(heap)@, module) is None ==> r == Err::<Gc, Fault>(Fault::WrongType),
        map_pairs(old(heap)@, module) is Some && scope_kinds(old(heap)@, root) ==> r is Ok,
        r is Ok ==> kept_but(old(heap)@, final(heap)@, module) && map_pairs(final(heap)@, module) is Some,
{
    let ghost h0 = heap@;
    match heap.data(module) {
        Some(Data::ValueMap(_)) => {},
        _ => {
            return Err(Fault::WrongType);
        },
    }
    match bind_file_names(heap, root, module, filename, dirname) {
        Ok(()) => {},
        Err(e) => {
            return Err(e);
        },
    }
    let ghost h1 = heap@;
    let stack = match new_object_of_kind(heap, root, "Stack", Data::Stack(Stack::new()), None) {
        Ok(g) => g,
        Err(e) => {
            return Err(e);
        },
    };
    let ghost hs = heap@;
    proof {
        if scope_kinds(h0, root) {
            lemma_scope_kinds_kept(h1, hs, root, module);
        }
    }
    let f2 = match new_string(heap, root, filename) {
        Ok(g) => g,
        Err(e) => {
            return Err(e);
        },
    };
    let ghost hf = heap@;
    proof {
        if scope_kinds(h0, root) {
            lemma_scope_kinds_kept(hs, hf, root, module);
        }
        lemma_extends_trans(h1, hs, hf);
    }
    let d2 = match new_string(heap, root, dirname) {
        Ok(g) => g,
        Err(e) => {
            return Err(e);
        },
    };
    let ghost hd = heap@;
    proof {
        if scope_kinds(h0, root) {
            lemma_scope_kinds_kept(hf, hd, root, module);
        }
        lemma_extends_trans(h1, hf, hd);
    }
    let mut import_params: Vec<&str> = Vec::new();
    import_params.push("...imports");
    import_params.push("module_path");
    let import = match add_host_macro(heap, root, "import", &import_params, IMPORT) {
        Ok(g) => g,
        Err(e) => {
            return Err(e);
        },
    };
    let ghost hi = heap@;
    proof {
        if scope_kinds(h0, root) {
            lemma_scope_kinds_kept(hd, hi, root, module);
        }
    }
    let mut export_params: Vec<&str> = Vec::new();
    export_params.push("...exports");
    let export = match add_host_macro(heap, root, "export", &export_params, EXPORT) {
        Ok(g) => g,
        Err(e) => {
            return Err(e);
        },
    };
    let ghost he = heap@;
    proof {
        if scope_kinds(h0, root) {
            lemma_scope_kinds_kept(hi, he, root, module);
        }
    }
    let mut table = ScopeTable::new();
    table.insert("__stack", stack.ptr);
    table.insert("module", module.ptr);
    table.insert("__filename", f2.ptr);
    table.insert("__dirname", d2.ptr);
    table.insert("import", import.ptr);
    table.insert("export", export.ptr);
    proof {
        reveal_strlit("__stack");
        reveal_strlit("module");
        reveal_strlit("__filename");
        reveal_strlit("__dirname");
        reveal_strlit("import");
        reveal_strlit("export");
        assert("__filename"@[2] != "__dirname"@[2]);
        assert("module"@[0] != "import"@[0]);
        assert("module"@[0] != "export"@[0]);
        assert("module"@.len() != "__filename"@.len());
        assert("module"@.len() != "__dirname"@.len());
        assert("__filename"@.len() != "import"@.len() && "__filename"@.len() != "export"@.len());
        assert("__dirname"@.len() != "import"@.len() && "__dirname"@.len() != "export"@.len());
        assert("__stack"@.len() != "module"@.len() && "__stack"@.len() != "__filename"@.len());
        assert("__stack"@[2] != "__dirname"@[2]);
        assert("__stack"@.len() != "import"@.len() || "__stack"@[0] != "import"@[0]);
        assert("__stack"@[0] != "export"@[0]);
        assert("import"@[0] != "export"@[0]);
        assert(table_entries(table)["__filename"@] == f2.ptr);
        assert(table_entries(table)["__dirname"@] == d2.ptr);
        assert(table_entries(table)["module"@] == module.ptr);
        assert(table_entries(table)["__stack"@] == stack.ptr);
        assert(table_entries(table)["import"@] == import.ptr);
        assert(table_entries(table)["export"@] == export.ptr);
    }
    let r = new_persistent_scope_from(heap, root, PersistentScope::new(table, Some(root)));
    proof {
        lemma_extends_trans(hd, hi, he);
        lemma_extends_trans(hf, hd, he);
        lemma_extends_trans(hs, hf, he);
        lemma_extends_trans(h1, hs, he);
        if r is Ok {
            assert(extends(he, heap@));
            lemma_extends_trans(h1, he, heap@);
            assert(kept_but(h0, heap@, module)) by {
                assert forall|j: int| 0 <= j < h0.len() && j != module.ptr implies #[trigger] heap@[j] == h0[j] by {
                    assert(h1[j] == h0[j]);
                }
            }
            assert(heap@[module.ptr as int] == h1[module.ptr as int]);
            assert(heap@[f2.ptr as int] == hf[f2.ptr as int]);
            assert(heap@[d2.ptr as int] == hd[d2.ptr as int]);
            assert(heap@[stack.ptr as int] == hs[stack.ptr as int]);
            assert(import_params@ =~= seq!["...imports", "module_path"]);
            assert(names_of(import_params@) =~= seq!["...imports"@, "module_path"@]);
            assert(export_params@ =~= seq!["...exports"]);
            assert(names_of(export_params@) =~= seq!["...exports"@]);
            lemma_extends_trans(hi, he, heap@);
            if scope_kinds(h0, root) {
                let mk = kind_result(h0, root, "Macro"@)->Ok_0;
                lemma_provided_extends(hi, heap@, import, root, mk, "import"@, names_of(import_params@), Builtin::Host(IMPORT));
                lemma_provided_extends(he, heap@, export, root, mk, "export"@, names_of(export_params@), Builtin::Host(EXPORT));
            }
            if keys_below(h0, module) {
                lemma_module_value_extends(h1, heap@, module, "filename"@);
                lemma_module_value_extends(h1, heap@, module, "dirname"@);
                let f = module_value(h1, module, "filename"@)->Some_0;
                let d = module_value(h1, module, "dirname"@)->Some_0;
                assert(heap@[f.ptr as int] == h1[f.ptr as int]);
                assert(heap@[d.ptr as int] == h1[d.ptr as int]);
            }
        }
    }
    r
}

} // verus!
