use lisp::context::new_context;
use lisp::fault::Fault;
use lisp::gc::Gc;
use lisp::gc_allocator::GcAllocator;
use lisp::object::Data;
use lisp::symbol::Symbol;
use lisp::value::Order;
use lisp::reader::{is_closer, is_newline, is_numeric, is_whitespace, read, read_value, Reader};

fn context() -> (GcAllocator, Gc) {
    let mut heap = GcAllocator::new();
    let root = new_context(&mut heap);
    (heap, root)
}

fn chars(text: &str) -> Vec<char> {
    text.chars().collect()
}

fn data(heap: &GcAllocator, g: Gc) -> &Data {
    heap.data(g).expect("a live object")
}

fn kind_name(heap: &GcAllocator, g: Gc) -> String {
    let kind = heap.get(g).expect("a live object").kind;
    match heap.data(kind) {
        Some(Data::Kind(k)) => k.name.clone(),
        _ => panic!("not a kind"),
    }
}

fn meta_line_col(heap: &GcAllocator, g: Gc) -> (usize, usize) {
    let meta = heap.get(g).expect("a live object").meta.expect("metadata");
    match data(heap, meta) {
        Data::ValueMap(m) => {
            let entries = m.to_vec();
            assert_eq!(entries.len(), 3);
            let line = match data(heap, entries[1].1) {
                Data::USize(n) => *n,
                _ => panic!("line is not a usize"),
            };
            let col = match data(heap, entries[2].1) {
                Data::USize(n) => *n,
                _ => panic!("col is not a usize"),
            };
            (line, col)
        },
        _ => panic!("metadata is not a map"),
    }
}

#[test]
fn reader_starts_at_line_one() {
    let reader = Reader::new(Some("a.lisp".to_string()), chars("ab"));
    assert_eq!(reader.line(), 1);
    assert_eq!(reader.col(), 0);
    assert_eq!(reader.filename().map(|f| f.as_str()), Some("a.lisp"));
}

#[test]
fn reader_counts_lines_and_columns() {
    let mut reader = Reader::new(None, chars("a\nbc"));
    assert_eq!(reader.peek(), Some('a'));
    assert_eq!(reader.peek_nth(1), Some('\n'));
    assert_eq!(reader.next(), Some('a'));
    assert_eq!((reader.line(), reader.col()), (1, 1));
    assert_eq!(reader.next(), Some('\n'));
    assert_eq!((reader.line(), reader.col()), (2, 0));
    reader.consume();
    assert_eq!((reader.line(), reader.col()), (2, 1));
    assert_eq!(reader.peek(), Some('c'));
    assert_eq!(reader.next(), Some('c'));
    assert_eq!(reader.peek(), None);
    assert_eq!(reader.next(), None);
    assert_eq!((reader.line(), reader.col()), (2, 3));
    assert!(reader.filename().is_none());
}

#[test]
fn reader_moves_on_past_the_end() {
    let mut reader = Reader::new(None, chars("a"));
    reader.consume();
    reader.consume();
    reader.consume();
    assert_eq!((reader.index, reader.line(), reader.col()), (3, 1, 3));
    assert_eq!(reader.next(), None);
    assert_eq!((reader.index, reader.line(), reader.col()), (4, 1, 4));
}

#[test]
fn symbols_show_and_order_by_name() {
    let a = Symbol::new("a".to_string());
    let b = Symbol::new("b".to_string());
    let ab = Symbol::new("ab".to_string());
    assert_eq!(a.to_string(), "a");
    assert_eq!(Symbol::new("foo".to_string()).into_string(), "foo");
    assert!(matches!(a.compare(&b), Order::Less));
    assert!(matches!(a.compare(&ab), Order::Less));
    assert!(matches!(b.compare(&ab), Order::Greater));
    assert!(matches!(a.compare(&Symbol::new("a".to_string())), Order::Equal));
}

#[test]
fn character_classes() {
    assert!(is_newline('\n'));
    assert!(!is_newline(' '));
    assert!(is_whitespace(' '));
    assert!(is_whitespace(','));
    assert!(is_whitespace('\t'));
    assert!(!is_whitespace('a'));
    assert!(is_closer(')'));
    assert!(is_closer(']'));
    assert!(is_closer('}'));
    assert!(!is_closer('('));
    let mut reader = Reader::new(None, chars("-1"));
    assert!(is_numeric(&mut reader, '-'));
    assert!(is_numeric(&mut reader, '7'));
    let mut reader = Reader::new(None, chars("-a"));
    assert!(!is_numeric(&mut reader, '-'));
    assert!(!is_numeric(&mut reader, 'x'));
}

#[test]
fn read_integer() {
    let (mut heap, root) = context();
    let g = read(&mut heap, root, "42").ok().expect("a value");
    assert!(matches!(data(&heap, g), Data::ISize(42)));
    assert_eq!(kind_name(&heap, g), "ISize");
    assert_eq!(meta_line_col(&heap, g), (1, 1));
}

#[test]
fn read_negative_integer() {
    let (mut heap, root) = context();
    let g = read(&mut heap, root, "-17").ok().expect("a value");
    assert!(matches!(data(&heap, g), Data::ISize(-17)));
}

#[test]
fn read_unsigned_suffix_keeps_following_digits() {
    // The type letters are read before the digits that follow them, which join the text.
    let (mut heap, root) = context();
    let g = read(&mut heap, root, "5u8").ok().expect("a value");
    assert!(matches!(data(&heap, g), Data::USize(58)));
    assert_eq!(kind_name(&heap, g), "USize");
}

#[test]
fn read_underscores_are_skipped() {
    let (mut heap, root) = context();
    let g = read(&mut heap, root, "1_000").ok().expect("a value");
    assert!(matches!(data(&heap, g), Data::ISize(1000)));
}

#[test]
fn read_float_is_invalid() {
    let (mut heap, root) = context();
    assert!(matches!(read(&mut heap, root, "1.5"), Err(Fault::InvalidNumber)));
}

#[test]
fn read_number_out_of_range() {
    let (mut heap, root) = context();
    assert!(matches!(read(&mut heap, root, "99999999999999999999"), Err(Fault::InvalidNumber)));
}

#[test]
fn read_string_and_char() {
    let (mut heap, root) = context();
    let g = read(&mut heap, root, "\"hi there\"").ok().expect("a value");
    match data(&heap, g) {
        Data::Str(s) => assert_eq!(s, "hi there"),
        _ => panic!("not a string"),
    }
    let c = read(&mut heap, root, "'x'").ok().expect("a value");
    assert!(matches!(data(&heap, c), Data::Char('x')));
    assert_eq!(kind_name(&heap, c), "Char");
}

#[test]
fn read_empty_char_fails() {
    let (mut heap, root) = context();
    assert!(matches!(read(&mut heap, root, "''"), Err(Fault::EmptyCharLiteral)));
}

#[test]
fn read_keyword_and_symbol() {
    let (mut heap, root) = context();
    let k = read(&mut heap, root, ":name").ok().expect("a value");
    match data(&heap, k) {
        Data::Keyword(x) => assert_eq!(x.0, "name"),
        _ => panic!("not a keyword"),
    }
    let s = read(&mut heap, root, "  foo-bar)").ok().expect("a value");
    match data(&heap, s) {
        Data::Symbol(x) => assert_eq!(x.0, "foo-bar"),
        _ => panic!("not a symbol"),
    }
    assert_eq!(meta_line_col(&heap, s), (1, 2));
}

#[test]
fn read_list_and_vector() {
    let (mut heap, root) = context();
    let l = read(&mut heap, root, "(a\n  b)").ok().expect("a value");
    assert_eq!(kind_name(&heap, l), "PersistentList");
    let items = match data(&heap, l) {
        Data::PersistentList(p) => p.to_vec(),
        _ => panic!("not a list"),
    };
    assert_eq!(items.len(), 2);
    assert_eq!(meta_line_col(&heap, items[1]), (2, 2));
    let v = read(&mut heap, root, "[1, 2 3]").ok().expect("a value");
    assert_eq!(kind_name(&heap, v), "PersistentVector");
    match data(&heap, v) {
        Data::PersistentVector(p) => assert_eq!(p.to_vec().len(), 3),
        _ => panic!("not a vector"),
    }
}

#[test]
fn read_map_keeps_the_last_value() {
    // After a key, every value up to the closing brace is read and the last one kept.
    let (mut heap, root) = context();
    let m = read(&mut heap, root, "{:a 1 :b 2}").ok().expect("a value");
    assert_eq!(kind_name(&heap, m), "PersistentMap");
    let pairs = match data(&heap, m) {
        Data::PersistentMap(p) => p.to_vec(),
        _ => panic!("not a map"),
    };
    assert_eq!(pairs.len(), 1);
    assert!(matches!(data(&heap, pairs[0].1), Data::ISize(2)));
}

#[test]
fn read_stray_closer_fails() {
    let (mut heap, root) = context();
    assert!(matches!(read(&mut heap, root, "(a ])"), Err(Fault::UnexpectedCloser)));
}

#[test]
fn read_end_gives_nil() {
    let (mut heap, root) = context();
    let g = read(&mut heap, root, "   ").ok().expect("a value");
    assert!(matches!(data(&heap, g), Data::Nil));
}

#[test]
fn read_skips_comments() {
    let (mut heap, root) = context();
    let g = read(&mut heap, root, "; a comment\n7").ok().expect("a value");
    assert!(matches!(data(&heap, g), Data::ISize(7)));
}

#[test]
fn read_escape() {
    let (mut heap, root) = context();
    let g = read(&mut heap, root, "`x").ok().expect("a value");
    assert_eq!(kind_name(&heap, g), "Escape");
    match data(&heap, g) {
        Data::Escape(e) => assert!(matches!(data(&heap, e.0), Data::Symbol(_))),
        _ => panic!("not an escape"),
    }
}

#[test]
fn read_value_moves_the_reader() {
    let (mut heap, root) = context();
    let mut reader = Reader::new(Some("f".to_string()), chars("a b"));
    let a = read_value(&mut heap, root, &mut reader).ok().expect("a value");
    let b = read_value(&mut heap, root, &mut reader).ok().expect("a value");
    match (data(&heap, a), data(&heap, b)) {
        (Data::Symbol(x), Data::Symbol(y)) => {
            assert_eq!(x.0, "a");
            assert_eq!(y.0, "b");
        },
        _ => panic!("not symbols"),
    }
    assert_eq!(meta_line_col(&heap, b), (1, 2));
}

#[test]
fn read_without_kinds_fails() {
    let mut heap = GcAllocator::new();
    let nothing = Gc::null();
    assert!(matches!(read(&mut heap, nothing, "a"), Err(Fault::KindNotFound)));
    assert!(matches!(read(&mut heap, nothing, ""), Err(Fault::ValueNotFound)));
}

#[test]
fn unicode_white_space_separates_forms() {
    assert!(is_whitespace('\u{3000}'));
    assert!(is_whitespace('\u{85}'));
    assert!(is_whitespace('\u{2028}'));
    assert!(!is_whitespace('\u{200b}'));
    assert!(!is_whitespace('\u{180e}'));
}
