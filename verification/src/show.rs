//! The text that a value is shown as.
use vstd::prelude::*;

use crate::function_kind::FunctionKind;
use crate::gc::Gc;
use crate::gc_allocator::{live_in, object_in, GcAllocator};
use crate::object::{Data, Object};
use crate::reader::string_of_chars;

verus! {

/// The text `format!("{:?}", c)` gives for a character: the character in single quotes,
/// with the escapes of `char::escape_debug`.
pub uninterp spec fn char_debug_text(c: char) -> Seq<char>;

/// The text `format!("{:?}", s)` gives for a string: the characters in double quotes,
/// with the escapes of `str::escape_debug`.
pub uninterp spec fn str_debug_text(s: Seq<char>) -> Seq<char>;

/// Calls `format!("{:?}", c)`; its text is named `char_debug_text`.
#[verifier::external_body]
fn char_debug(c: char) -> (s: String)
    ensures
        s@ == char_debug_text(c),
{
    format!("{:?}", c)
}

/// Calls `format!("{:?}", s)`; its text is named `str_debug_text`.
#[verifier::external_body]
fn str_debug(s: &str) -> (t: String)
    ensures
        t@ == str_debug_text(s@),
{
    format!("{:?}", s)
}

/// The decimal digit of `d`, below ten.
pub open spec fn digit_char(d: int) -> char {
    if d == 0 {
        '0'
    } else if d == 1 {
        '1'
    } else if d == 2 {
        '2'
    } else if d == 3 {
        '3'
    } else if d == 4 {
        '4'
    } else if d == 5 {
        '5'
    } else if d == 6 {
        '6'
    } else if d == 7 {
        '7'
    } else if d == 8 {
        '8'
    } else {
        '9'
    }
}

/// The decimal digits of `n`, most significant first, with no leading zero.
pub open spec fn digits(n: nat) -> Seq<char>
    decreases n,
{
    if n < 10 {
        seq![digit_char(n as int)]
    } else {
        digits(n / 10).push(digit_char((n % 10) as int))
    }
}

/// The decimal text of `n`, with a minus sign before a negative number.
pub open spec fn decimal(n: int) -> Seq<char> {
    if n < 0 {
        seq!['-'] + digits((-n) as nat)
    } else {
        digits(n as nat)
    }
}

/// The text of a kind: its name, size and alignment as a map of strings, after the word
/// `Kind` in a tuple.
pub open spec fn kind_text(name: Seq<char>, size: usize, align: usize) -> Seq<char> {
    "(\"Kind\", {\"name\" "@ + str_debug_text(name) + ", \"size\" \""@ + decimal(size as int)
        + "\", \"align\" \""@ + decimal(align as int) + "\"})"@
}

/// The text of the value `g` of the heap `h`, whose size and limit are `sizes`, nested
/// values shown down to `depth` levels (`...` below them): `()` for nil, the number, the
/// character or string as Rust shows it, the name of a symbol, `:` and the name of a
/// keyword, the items of a list in round brackets and of a vector in square ones, the
/// pairs of a map and the items of a set in braces, each separated by `, `, a key and its
/// value by a space; an atom as its value, an escape as `` ` `` and its value.
pub open spec fn shown(h: Seq<Option<Object>>, sizes: (usize, usize), g: Gc, depth: nat) -> Seq<char>
    decreases depth, 1nat, 0nat,
{
    if depth == 0 {
        "..."@
    } else if !live_in(h, g) {
        "<freed>"@
    } else {
        let d = (depth - 1) as nat;
        match object_in(h, g).value {
            Data::Nil => "()"@,
            Data::Bool(b) => if b {
                "true"@
            } else {
                "false"@
            },
            Data::Char(c) => char_debug_text(c),
            Data::Str(s) => str_debug_text(s@),
            Data::U8(n) => decimal(n as int),
            Data::U16(n) => decimal(n as int),
            Data::U32(n) => decimal(n as int),
            Data::U64(n) => decimal(n as int),
            Data::USize(n) => decimal(n as int),
            Data::I8(n) => decimal(n as int),
            Data::I16(n) => decimal(n as int),
            Data::I32(n) => decimal(n as int),
            Data::I64(n) => decimal(n as int),
            Data::ISize(n) => decimal(n as int),
            Data::Symbol(s) => s.0@,
            Data::Keyword(k) => ":"@ + k.0@,
            Data::Kind(k) => kind_text(k.name@, k.size, k.align),
            Data::Escape(e) => "`"@ + shown(h, sizes, e.0, d),
            Data::Atom(a) => shown(h, sizes, a.value, d),
            Data::PersistentList(l) => "("@ + shown_items(h, sizes, l@, depth) + ")"@,
            Data::List(l) => "("@ + shown_items(h, sizes, l@, depth) + ")"@,
            Data::PersistentVector(v) => "["@ + shown_items(h, sizes, v@, depth) + "]"@,
            Data::Vector(v) => "["@ + shown_items(h, sizes, v@, depth) + "]"@,
            Data::PersistentMap(m) => "{"@ + shown_pairs(h, sizes, m@, depth) + "}"@,
            Data::ValueMap(m) => "{"@ + shown_pairs(h, sizes, m@, depth) + "}"@,
            Data::LinkedMap(m) => "{"@ + shown_pairs(h, sizes, m@, depth) + "}"@,
            Data::PersistentSet(s) => "{"@ + shown_items(h, sizes, s@, depth) + "}"@,
            Data::ValueSet(s) => "{"@ + shown_items(h, sizes, s@, depth) + "}"@,
            Data::PersistentScope(_) => "<scope>"@,
            Data::Scope(_) => "<scope>"@,
            Data::Function(f) => "(\"fn\", "@ + match f.name {
                Some(n) => shown(h, sizes, n, d) + ", "@,
                None => Seq::empty(),
            } + shown(h, sizes, f.params, d) + ", "@ + match f.body {
                FunctionKind::Internal(b) => shown(h, sizes, b, d),
                FunctionKind::External(_) => ":external"@,
            } + ")"@,
            Data::SpecialForm(_) => ":special-form"@,
            Data::Stack(_) => "(\"Stack\",)"@,
            Data::Allocator => "GcAllocator { size: "@ + decimal(sizes.0 as int) + ", max_size: "@
                + decimal(sizes.1 as int) + " }"@,
        }
    }
}

/// The items of `items` shown one level below `depth`, separated by `, `.
pub open spec fn shown_items(h: Seq<Option<Object>>, sizes: (usize, usize), items: Seq<Gc>, depth: nat) -> Seq<char>
    decreases depth, 0nat, items.len(),
{
    if depth == 0 || items.len() == 0 {
        Seq::empty()
    } else if items.len() == 1 {
        shown(h, sizes, items[0], (depth - 1) as nat)
    } else {
        shown_items(h, sizes, items.drop_last(), depth) + ", "@ + shown(h, sizes, items.last(), (depth - 1) as nat)
    }
}

/// The pairs of `pairs` shown one level below `depth`, a key and its value separated by
/// a space, the pairs by `, `.
pub open spec fn shown_pairs(h: Seq<Option<Object>>, sizes: (usize, usize), pairs: Seq<(Gc, Gc)>, depth: nat) -> Seq<char>
    decreases depth, 0nat, pairs.len(),
{
    if depth == 0 || pairs.len() == 0 {
        Seq::empty()
    } else {
        let d = (depth - 1) as nat;
        let last = shown(h, sizes, pairs.last().0, d) + " "@ + shown(h, sizes, pairs.last().1, d);
        if pairs.len() == 1 {
            last
        } else {
            shown_pairs(h, sizes, pairs.drop_last(), depth) + ", "@ + last
        }
    }
}

/// Appends the characters of `text` to `out`.
fn push_text(out: &mut Vec<char>, text: &str)
    ensures
        final(out)@ == old(out)@ + text@,
{
    let n = text.unicode_len();
    let mut i: usize = 0;
    while i < n
        invariant
            n == text@.len(),
            i <= n,
            out@ == old(out)@ + text@.subrange(0, i as int),
        decreases n - i,
    {
        out.push(text.get_char(i));
        i = i + 1;
        proof {
            assert(out@ =~= old(out)@ + text@.subrange(0, i as int));
        }
    }
    assert(text@.subrange(0, n as int) =~= text@);
}

/// The decimal digit of `d`, below ten.
fn digit(d: u64) -> (c: char)
    requires
        d < 10,
    ensures
        c == digit_char(d as int),
{
    if d == 0 {
        '0'
    } else if d == 1 {
        '1'
    } else if d == 2 {
        '2'
    } else if d == 3 {
        '3'
    } else if d == 4 {
        '4'
    } else if d == 5 {
        '5'
    } else if d == 6 {
        '6'
    } else if d == 7 {
        '7'
    } else if d == 8 {
        '8'
    } else {
        '9'
    }
}

/// Appends the decimal digits of `n` to `out`.
fn push_digits(out: &mut Vec<char>, n: u64)
    ensures
        final(out)@ == old(out)@ + digits(n as nat),
    decreases n,
{
    if n >= 10 {
        push_digits(out, n / 10);
    }
    out.push(digit(n % 10));
    proof {
        assert(out@ =~= old(out)@ + digits(n as nat));
    }
}

/// Appends the decimal text of `n` to `out`.
fn push_unsigned(out: &mut Vec<char>, n: u64)
    ensures
        final(out)@ == old(out)@ + decimal(n as int),
{
    push_digits(out, n);
}

/// Appends the decimal text of `n` to `out`, with a minus sign when it is negative.
fn push_signed(out: &mut Vec<char>, n: i64)
    ensures
        final(out)@ == old(out)@ + decimal(n as int),
{
    if n < 0 {
        out.push('-');
        let m: u64 = (0i128 - (n as i128)) as u64;
        push_digits(out, m);
        proof {
            assert(out@ =~= old(out)@ + decimal(n as int));
        }
    } else {
        push_digits(out, n as u64);
    }
}

/// Appends the text of the value `g`, nested values shown down to `depth` levels.
fn show_at(heap: &GcAllocator, g: Gc, depth: usize, out: &mut Vec<char>)
    ensures
        final(out)@ == old(out)@ + shown(heap@, (heap.spec_size(), heap.spec_max_size()), g, depth as nat),
    decreases depth, 1nat, 0nat,
{
    let ghost sizes = (heap.spec_size(), heap.spec_max_size());
    if depth == 0 {
        push_text(out, "...");
        return;
    }
    let d = depth - 1;
    let data = match heap.data(g) {
        Some(x) => x,
        None => {
            push_text(out, "<freed>");
            return;
        },
    };
    match data {
        Data::Nil => push_text(out, "()"),
        Data::Bool(b) => if *b {
            push_text(out, "true")
        } else {
            push_text(out, "false")
        },
        Data::Char(c) => {
            let t = char_debug(*c);
            push_text(out, t.as_str());
        },
        Data::Str(s) => {
            let t = str_debug(s.as_str());
            push_text(out, t.as_str());
        },
        Data::U8(n) => push_unsigned(out, *n as u64),
        Data::U16(n) => push_unsigned(out, *n as u64),
        Data::U32(n) => push_unsigned(out, *n as u64),
        Data::U64(n) => push_unsigned(out, *n),
        Data::USize(n) => push_unsigned(out, *n as u64),
        Data::I8(n) => push_signed(out, *n as i64),
        Data::I16(n) => push_signed(out, *n as i64),
        Data::I32(n) => push_signed(out, *n as i64),
        Data::I64(n) => push_signed(out, *n),
        Data::ISize(n) => push_signed(out, *n as i64),
        Data::Symbol(s) => push_text(out, s.0.as_str()),
        Data::Keyword(k) => {
            push_text(out, ":");
            push_text(out, k.0.as_str());
        },
        Data::Kind(k) => {
            push_text(out, "(\"Kind\", {\"name\" ");
            let t = str_debug(k.name.as_str());
            push_text(out, t.as_str());
            push_text(out, ", \"size\" \"");
            push_unsigned(out, k.size as u64);
            push_text(out, "\", \"align\" \"");
            push_unsigned(out, k.align as u64);
            push_text(out, "\"})");
        },
        Data::Escape(e) => {
            push_text(out, "`");
            show_at(heap, e.0, d, out);
        },
        Data::Atom(a) => show_at(heap, a.value, d, out),
        Data::PersistentList(l) => {
            push_text(out, "(");
            show_items(heap, &l.to_vec(), depth, out);
            push_text(out, ")");
        },
        Data::List(l) => {
            push_text(out, "(");
            show_items(heap, &l.to_vec(), depth, out);
            push_text(out, ")");
        },
        Data::PersistentVector(v) => {
            push_text(out, "[");
            show_items(heap, &v.to_vec(), depth, out);
            push_text(out, "]");
        },
        Data::Vector(v) => {
            push_text(out, "[");
            show_items(heap, &v.to_vec(), depth, out);
            push_text(out, "]");
        },
        Data::PersistentMap(m) => {
            push_text(out, "{");
            show_pairs(heap, &m.to_vec(), depth, out);
            push_text(out, "}");
        },
        Data::ValueMap(m) => {
            push_text(out, "{");
            show_pairs(heap, &m.to_vec(), depth, out);
            push_text(out, "}");
        },
        Data::LinkedMap(m) => {
            push_text(out, "{");
            show_pairs(heap, &m.to_vec(), depth, out);
            push_text(out, "}");
        },
        Data::PersistentSet(s) => {
            push_text(out, "{");
            show_items(heap, &s.to_vec(), depth, out);
            push_text(out, "}");
        },
        Data::ValueSet(s) => {
            push_text(out, "{");
            show_items(heap, &s.to_vec(), depth, out);
            push_text(out, "}");
        },
        Data::PersistentScope(_) => push_text(out, "<scope>"),
        Data::Scope(_) => push_text(out, "<scope>"),
        Data::Function(f) => {
            push_text(out, "(\"fn\", ");
            match f.name {
                Some(n) => {
                    show_at(heap, n, d, out);
                    push_text(out, ", ");
                },
                None => {},
            }
            show_at(heap, f.params, d, out);
            push_text(out, ", ");
            match f.body {
                FunctionKind::Internal(b) => show_at(heap, b, d, out),
                FunctionKind::External(_) => push_text(out, ":external"),
            }
            push_text(out, ")");
        },
        Data::SpecialForm(_) => push_text(out, ":special-form"),
        Data::Stack(_) => push_text(out, "(\"Stack\",)"),
        Data::Allocator => {
            push_text(out, "GcAllocator { size: ");
            push_unsigned(out, heap.size() as u64);
            push_text(out, ", max_size: ");
            push_unsigned(out, heap.max_size() as u64);
            push_text(out, " }");
        },
    }
    proof {
        assert(out@ =~= old(out)@ + shown(heap@, sizes, g, depth as nat));
    }
}

/// Appends the items `items`, each shown one level below `depth`, separated by `, `.
fn show_items(heap: &GcAllocator, items: &Vec<Gc>, depth: usize, out: &mut Vec<char>)
    requires
        depth > 0,
    ensures
        final(out)@ == old(out)@ + shown_items(heap@, (heap.spec_size(), heap.spec_max_size()), items@, depth as nat),
    decreases depth, 0nat, items@.len(),
{
    let ghost sizes = (heap.spec_size(), heap.spec_max_size());
    let mut i: usize = 0;
    while i < items.len()
        invariant
            depth > 0,
            sizes == (heap.spec_size(), heap.spec_max_size()),
            i <= items@.len(),
            out@ == old(out)@ + shown_items(heap@, sizes, items@.take(i as int), depth as nat),
        decreases items@.len() - i,
    {
        if i > 0 {
            push_text(out, ", ");
        }
        show_at(heap, items[i], depth - 1, out);
        proof {
            let next = items@.take(i + 1);
            assert(next.drop_last() =~= items@.take(i as int));
            assert(next.last() == items@[i as int]);
            if i == 0 {
                assert(next.len() == 1);
                assert(next[0] == items@[0]);
            }
            assert(out@ =~= old(out)@ + shown_items(heap@, sizes, next, depth as nat));
        }
        i = i + 1;
    }
    assert(items@.take(items@.len() as int) =~= items@);
}

/// Appends the pairs `pairs`, each key and value shown one level below `depth` and
/// separated by a space, the pairs by `, `.
fn show_pairs(heap: &GcAllocator, pairs: &Vec<(Gc, Gc)>, depth: usize, out: &mut Vec<char>)
    requires
        depth > 0,
    ensures
        final(out)@ == old(out)@ + shown_pairs(heap@, (heap.spec_size(), heap.spec_max_size()), pairs@, depth as nat),
    decreases depth, 0nat, pairs@.len(),
{
    let ghost sizes = (heap.spec_size(), heap.spec_max_size());
    let mut i: usize = 0;
    while i < pairs.len()
        invariant
            depth > 0,
            sizes == (heap.spec_size(), heap.spec_max_size()),
            i <= pairs@.len(),
            out@ == old(out)@ + shown_pairs(heap@, sizes, pairs@.take(i as int), depth as nat),
        decreases pairs@.len() - i,
    {
        if i > 0 {
            push_text(out, ", ");
        }
        let (k, v) = pairs[i];
        show_at(heap, k, depth - 1, out);
        push_text(out, " ");
        show_at(heap, v, depth - 1, out);
        proof {
            let next = pairs@.take(i + 1);
            assert(next.drop_last() =~= pairs@.take(i as int));
            assert(next.last() == pairs@[i as int]);
            assert(out@ =~= old(out)@ + shown_pairs(heap@, sizes, next, depth as nat));
        }
        i = i + 1;
    }
    assert(pairs@.take(pairs@.len() as int) =~= pairs@);
}

/// The text of the value `g`, each nested value shown as deep as the heap has slots, so
/// that a value holding no cycle is shown whole.
pub fn show(heap: &GcAllocator, g: Gc) -> (s: String)
    ensures
        s@ == shown(heap@, (heap.spec_size(), heap.spec_max_size()), g, heap@.len()),
{
    let mut out: Vec<char> = Vec::new();
    show_at(heap, g, heap.len(), &mut out);
    assert(out@ =~= Seq::<char>::empty() + out@);
    string_of_chars(&out)
}

/// The texts of the values `items`, separated by `, `, each shown as deep as the heap has
/// slots less one: the line that `println` prints.
pub fn show_all(heap: &GcAllocator, items: &Vec<Gc>) -> (s: String)
    ensures
        s@ == shown_items(heap@, (heap.spec_size(), heap.spec_max_size()), items@, heap@.len()),
{
    let mut out: Vec<char> = Vec::new();
    if heap.len() > 0 {
        show_items(heap, items, heap.len(), &mut out);
    }
    assert(out@ =~= Seq::<char>::empty() + out@);
    string_of_chars(&out)
}

/// A boolean is shown as the word for its truth: `true` when it holds, `false` when it
/// does not, at any depth and in any heap.
pub proof fn lemma_show_bool(h: Seq<Option<Object>>, sizes: (usize, usize), g: Gc, depth: nat)
    requires
        depth > 0,
        live_in(h, g),
        object_in(h, g).value is Bool,
    ensures
        object_in(h, g).value->Bool_0 ==> shown(h, sizes, g, depth) == "true"@,
        !object_in(h, g).value->Bool_0 ==> shown(h, sizes, g, depth) == "false"@,
{
}

/// Two booleans that differ are shown differently.
pub proof fn lemma_show_bool_apart(h: Seq<Option<Object>>, sizes: (usize, usize), a: Gc, b: Gc, depth: nat)
    requires
        depth > 0,
        live_in(h, a),
        live_in(h, b),
        object_in(h, a).value is Bool,
        object_in(h, b).value is Bool,
        object_in(h, a).value->Bool_0 != object_in(h, b).value->Bool_0,
    ensures
        shown(h, sizes, a, depth) != shown(h, sizes, b, depth),
{
    lemma_show_bool(h, sizes, a, depth);
    lemma_show_bool(h, sizes, b, depth);
    reveal_strlit("true");
    reveal_strlit("false");
    assert("true"@.len() != "false"@.len());
}

} // verus!
