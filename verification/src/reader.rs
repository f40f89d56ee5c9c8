use vstd::prelude::*;

use crate::fault::Fault;
use crate::function_kind::NumberType;
use crate::gc::Gc;
use crate::gc_allocator::{extends, lemma_extends_trans, live_in, object_in};
use crate::persistent_scope::scope_lookup;
use crate::numbers::{in_range, number_data, number_kind_name, number_kind_str};
use crate::entries::{pairs_set, scan_pairs};
use crate::symbol::Symbol;
use crate::escape::Escape;
use crate::persistent_list::PersistentList;
use crate::persistent_map::PersistentMap;
use crate::persistent_vector::PersistentVector;
use crate::gc_allocator::GcAllocator;
use crate::keyword::Keyword;
use crate::map::ValueMap;
use crate::object::{alloc_of_kind, kind_named, kind_result, string_from, value_named, value_result, Data, Object, Tag};
use crate::value::{chars_order, values_equal, Order};

verus! {

/// Whether `c` has the Unicode property `White_Space`, which is what `char::is_whitespace`
/// answers: the controls from tab to carriage return, the space, next line, no-break
/// space, the Ogham space mark, the spaces from en quad to hair space, the line and
/// paragraph separators, the narrow no-break space, the medium mathematical space and
/// the ideographic space.
pub open spec fn char_whitespace(c: char) -> bool {
    let n = c as u32;
    ||| 0x09 <= n <= 0x0d
    ||| n == 0x20
    ||| n == 0x85
    ||| n == 0xa0
    ||| n == 0x1680
    ||| 0x2000 <= n <= 0x200a
    ||| n == 0x2028
    ||| n == 0x2029
    ||| n == 0x202f
    ||| n == 0x205f
    ||| n == 0x3000
}

/// Whether `c`, a character past ASCII, is numeric as `char::is_numeric` answers (the
/// Unicode general categories of numbers).
pub uninterp spec fn numeric_beyond_ascii(c: char) -> bool;

/// Whether `c`, a character past ASCII, is alphabetic as `char::is_alphabetic` answers
/// (the Unicode property `Alphabetic`).
pub uninterp spec fn alphabetic_beyond_ascii(c: char) -> bool;

/// Whether `c` is numeric, as `char::is_numeric` answers: among the ASCII characters the
/// decimal digits, past them the Unicode general categories of numbers.
pub open spec fn char_numeric(c: char) -> bool {
    if (c as u32) < 0x80 {
        '0' <= c && c <= '9'
    } else {
        numeric_beyond_ascii(c)
    }
}

/// Whether `c` is alphabetic, as `char::is_alphabetic` answers: among the ASCII
/// characters the letters, past them the Unicode property `Alphabetic`.
pub open spec fn char_alphabetic(c: char) -> bool {
    if (c as u32) < 0x80 {
        ('a' <= c && c <= 'z') || ('A' <= c && c <= 'Z')
    } else {
        alphabetic_beyond_ascii(c)
    }
}

/// Calls `char::is_whitespace`: whether `c` has the Unicode property `White_Space`.
#[verifier::external_body]
fn std_is_whitespace(c: char) -> (b: bool)
    ensures
        b == char_whitespace(c),
{
    c.is_whitespace()
}

/// Calls `char::is_numeric`: among the ASCII characters the decimal digits are numeric;
/// past ASCII its answer is named `numeric_beyond_ascii`.
#[verifier::external_body]
fn std_is_numeric(c: char) -> (b: bool)
    ensures
        b == char_numeric(c),
        (c as u32) >= 0x80 ==> b == numeric_beyond_ascii(c),
{
    c.is_numeric()
}

/// Calls `char::is_alphabetic`: among the ASCII characters the letters are alphabetic;
/// past ASCII its answer is named `alphabetic_beyond_ascii`.
#[verifier::external_body]
pub(crate) fn std_is_alphabetic(c: char) -> (b: bool)
    ensures
        b == char_alphabetic(c),
        (c as u32) >= 0x80 ==> b == alphabetic_beyond_ascii(c),
{
    c.is_alphabetic()
}

/// A position in the text: the index of the next character, the line (from 1) and the
/// column (from 0) it stands at.
pub type Pos = (int, int, int);

/// The character at index `i`, when there is one.
pub open spec fn char_at(chars: Seq<char>, i: int) -> Option<char> {
    if 0 <= i < chars.len() {
        Some(chars[i])
    } else {
        None
    }
}

/// The position after one character is consumed at `p`: a newline starts the next line,
/// anything else (or nothing, past the end) moves one column on.
pub open spec fn advance(chars: Seq<char>, p: Pos) -> Pos {
    if char_at(chars, p.0) == Some('\n') {
        (p.0 + 1, p.1 + 1, 0)
    } else {
        (p.0 + 1, p.1, p.2 + 1)
    }
}

/// The position after `n` characters of `chars` are consumed from the start (line 1,
/// column 0).
pub open spec fn advanced(chars: Seq<char>, n: nat) -> Pos
    decreases n,
{
    if n == 0 {
        (0int, 1int, 0int)
    } else {
        advance(chars, advanced(chars, (n - 1) as nat))
    }
}

/// The number of newlines among the first `n` characters of `chars`.
pub open spec fn newlines(chars: Seq<char>, n: nat) -> int
    decreases n,
{
    if n == 0 {
        0
    } else {
        newlines(chars, (n - 1) as nat) + if chars[n - 1] == '\n' { 1int } else { 0int }
    }
}

/// The index where the line holding index `n` starts: just after the last newline among
/// the first `n` characters, or 0.
pub open spec fn line_start(chars: Seq<char>, n: nat) -> int
    decreases n,
{
    if n == 0 {
        0
    } else if chars[n - 1] == '\n' {
        n as int
    } else {
        line_start(chars, (n - 1) as nat)
    }
}

/// After `n` characters are consumed from the start, the line is one more than the number
/// of newlines read, and the column counts the characters read since the last of them.
pub proof fn lemma_line_and_column(chars: Seq<char>, n: nat)
    requires
        n <= chars.len(),
    ensures
        advanced(chars, n) == (n as int, 1 + newlines(chars, n), n - line_start(chars, n)),
    decreases n,
{
    if n > 0 {
        lemma_line_and_column(chars, (n - 1) as nat);
    }
}

/// Whether `c` separates values: white space or a comma.
pub open spec fn spec_whitespace(c: char) -> bool {
    char_whitespace(c) || c == ','
}

/// Whether `c` closes a list, a vector or a map.
pub open spec fn spec_closer(c: char) -> bool {
    c == ')' || c == ']' || c == '}'
}

/// Whether a number starts with `c`, read at index `i`: a numeric character, or a minus
/// sign followed by one.
pub open spec fn numeric_start(chars: Seq<char>, i: int, c: char) -> bool {
    char_numeric(c) || (c == '-' && (char_at(chars, i + 1) matches Some(d) && char_numeric(d)))
}

/// A reader of characters that keeps the line and column of the next one.
pub struct Reader {
    pub filename: Option<String>,
    pub index: usize,
    pub line: usize,
    pub col: usize,
    pub chars: Vec<char>,
}

impl Reader {
    /// The position of the next character.
    pub open spec fn pos(&self) -> Pos {
        (self.index as int, self.line as int, self.col as int)
    }

    /// The reader's bounds: at most one step past the end, a line and column that the
    /// steps taken account for, and a text short enough that a step never overflows.
    pub open spec fn wf(&self) -> bool {
        &&& self.chars@.len() + 3 <= usize::MAX
        &&& self.index <= self.chars@.len() + 1
        &&& self.line + self.col <= self.index + 1
    }

    /// A reader at the start of `chars`, line 1, column 0.
    pub fn new(filename: Option<String>, chars: Vec<char>) -> (r: Reader)
        requires
            chars@.len() + 3 <= usize::MAX,
        ensures
            r.wf(),
            r.chars@ == chars@,
            r.filename == filename,
            r.pos() == (0int, 1int, 0int),
    {
        Reader { filename, index: 0, line: 1, col: 0, chars }
    }

    /// The name of the file being read, when there is one.
    pub fn filename(&self) -> (r: Option<&String>)
        ensures
            r is Some <==> self.filename is Some,
            r matches Some(f) ==> *f == self.filename->Some_0,
    {
        match &self.filename {
            Some(f) => Some(f),
            None => None,
        }
    }

    /// The line of the next character, from 1.
    pub fn line(&self) -> (r: usize)
        ensures
            r == self.line,
    {
        self.line
    }

    /// The column of the next character, from 0.
    pub fn col(&self) -> (r: usize)
        ensures
            r == self.col,
    {
        self.col
    }

    /// Moves past the next character, or one step on past the end: the index moves on, and
    /// the line after a newline, else the column.
    pub fn consume(&mut self)
        requires
            old(self).index < usize::MAX,
            old(self).line < usize::MAX,
            old(self).col < usize::MAX,
        ensures
            old(self).wf() && old(self).index <= old(self).chars@.len() ==> final(self).wf(),
            final(self).pos() == advance(old(self).chars@, old(self).pos()),
            final(self).chars == old(self).chars,
            final(self).filename == old(self).filename,
    {
        if self.peek() == Some('\n') {
            self.line = self.line + 1;
            self.col = 0;
        } else {
            self.col = self.col + 1;
        }
        self.index = self.index + 1;
    }

    /// The next character, if any; the reader moves on either way, as `consume` does.
    pub fn next(&mut self) -> (r: Option<char>)
        requires
            old(self).index < usize::MAX,
            old(self).line < usize::MAX,
            old(self).col < usize::MAX,
        ensures
            r == char_at(old(self).chars@, old(self).index as int),
            old(self).wf() && old(self).index <= old(self).chars@.len() ==> final(self).wf(),
            final(self).pos() == advance(old(self).chars@, old(self).pos()),
            final(self).chars == old(self).chars,
            final(self).filename == old(self).filename,
    {
        let index = self.index;
        self.consume();
        if index < self.chars.len() {
            Some(self.chars[index])
        } else {
            None
        }
    }

    /// The next character, if any.
    pub fn peek(&self) -> (r: Option<char>)
        ensures
            r == char_at(self.chars@, self.index as int),
    {
        if self.index < self.chars.len() {
            Some(self.chars[self.index])
        } else {
            None
        }
    }

    /// The character `n` places after the next one, if any.
    pub fn peek_nth(&self, n: usize) -> (r: Option<char>)
        requires
            self.index + n <= usize::MAX,
        ensures
            r == char_at(self.chars@, self.index + n),
    {
        let i = self.index + n;
        if i < self.chars.len() {
            Some(self.chars[i])
        } else {
            None
        }
    }
}

/// Whether `ch` ends a line.
pub fn is_newline(ch: char) -> (b: bool)
    ensures
        b == (ch == '\n'),
{
    ch == '\n'
}

/// Whether `ch` separates values: white space or a comma.
pub fn is_whitespace(ch: char) -> (b: bool)
    ensures
        b == spec_whitespace(ch),
{
    std_is_whitespace(ch) || ch == ','
}

/// Whether `ch` closes a list, a vector or a map.
pub fn is_closer(ch: char) -> (b: bool)
    ensures
        b == spec_closer(ch),
{
    ch == ')' || ch == ']' || ch == '}'
}

/// Whether a number starts with `ch`, the next character of `reader`.
pub fn is_numeric(reader: &mut Reader, ch: char) -> (b: bool)
    requires
        old(reader).index + 1 <= usize::MAX,
    ensures
        b == numeric_start(old(reader).chars@, old(reader).index as int, ch),
        *final(reader) == *old(reader),
{
    if std_is_numeric(ch) {
        return true;
    }
    if ch == '-' {
        if let Some(next_ch) = reader.peek_nth(1) {
            return std_is_numeric(next_ch);
        }
    }
    false
}


/// What the reader reads: a form, with the line and column its metadata records.
pub enum Form {
    /// The end of the text: the value `nil`.
    Nil,
    List((int, int), Seq<Form>),
    Vector((int, int), Seq<Form>),
    /// The key-value pairs in the order read.
    Dict((int, int), Seq<(Form, Form)>),
    Str((int, int), Seq<char>),
    Char((int, int), char),
    Keyword((int, int), Seq<char>),
    Symbol((int, int), Seq<char>),
    Escape(Box<Form>),
    Number((int, int), NumberType, int),
}

/// The fault met looking up the kind named `name` in `scope`, if any.
pub open spec fn kind_fault(h: Seq<Option<Object>>, scope: Gc, name: Seq<char>) -> Option<Fault> {
    match kind_result(h, scope, name) {
        Ok(_) => None,
        Err(e) => Some(e),
    }
}

/// The fault met making the metadata of a form: its keys are keywords, the file name a
/// string, the line and column numbers of type `usize`, the whole a map.
pub open spec fn meta_fault(h: Seq<Option<Object>>, scope: Gc) -> Option<Fault> {
    match (kind_fault(h, scope, "Keyword"@), kind_fault(h, scope, "String"@), kind_fault(h, scope, "USize"@), kind_fault(
        h,
        scope,
        "Map"@,
    )) {
        (Some(e), _, _, _) => Some(e),
        (_, Some(e), _, _) => Some(e),
        (_, _, Some(e), _) => Some(e),
        (_, _, _, Some(e)) => Some(e),
        _ => None,
    }
}

/// The characters from `p` up to the first that closes a form or separates values,
/// appended to `acc`, and the position after them.
pub open spec fn read_word(chars: Seq<char>, p: Pos, acc: Seq<char>) -> (Seq<char>, Pos)
    decreases chars.len() - p.0,
{
    match char_at(chars, p.0) {
        Some(c) => if spec_closer(c) || spec_whitespace(c) {
            (acc, p)
        } else {
            read_word(chars, advance(chars, p), acc.push(c))
        },
        None => (acc, p),
    }
}

/// The characters from `p` up to `end`, appended to `acc`, and the position after
/// `end` (or one step past the end of the text).
pub open spec fn read_until(chars: Seq<char>, p: Pos, end: char, acc: Seq<char>) -> (Seq<char>, Pos)
    decreases chars.len() - p.0,
{
    match char_at(chars, p.0) {
        Some(c) => if c == end {
            (acc, advance(chars, p))
        } else {
            read_until(chars, advance(chars, p), end, acc.push(c))
        },
        None => (acc, advance(chars, p)),
    }
}

/// The position of the end of the line that `p` stands on.
pub open spec fn skip_comment(chars: Seq<char>, p: Pos) -> Pos
    decreases chars.len() - p.0,
{
    match char_at(chars, p.0) {
        Some(c) => if c == '\n' {
            p
        } else {
            skip_comment(chars, advance(chars, p))
        },
        None => p,
    }
}

/// The letters from `p` naming a number's type, appended to `acc`, and the position
/// after them.
pub open spec fn type_size(chars: Seq<char>, p: Pos, acc: Seq<char>) -> (Seq<char>, Pos)
    decreases chars.len() - p.0,
{
    match char_at(chars, p.0) {
        Some(c) => if char_alphabetic(c) {
            type_size(chars, advance(chars, p), acc.push(c))
        } else {
            (acc, p)
        },
        None => (acc, p),
    }
}

/// A comment ends at or after where it starts and within the text.
pub proof fn lemma_skip_comment(chars: Seq<char>, p: Pos)
    requires
        0 <= p.0 <= chars.len(),
    ensures
        p.0 <= skip_comment(chars, p).0 <= chars.len(),
        (char_at(chars, p.0) matches Some(c) && c != '\n') ==> p.0 < skip_comment(chars, p).0,
    decreases chars.len() - p.0,
{
    if char_at(chars, p.0) matches Some(c) && c != '\n' {
        lemma_skip_comment(chars, advance(chars, p));
    }
}

/// The letters of a type end at or after where they start and within the text.
pub proof fn lemma_type_size(chars: Seq<char>, p: Pos, acc: Seq<char>)
    requires
        0 <= p.0 <= chars.len(),
    ensures
        p.0 <= type_size(chars, p, acc).1.0 <= chars.len(),
    decreases chars.len() - p.0,
{
    if let Some(c) = char_at(chars, p.0) {
        if char_alphabetic(c) {
            lemma_type_size(chars, advance(chars, p), acc.push(c));
        }
    }
}

/// The start of a number's text, read from `p` after its first character `ch`: a
/// leading dot gets a zero before it, a minus sign takes the next character with it.
pub open spec fn number_head(chars: Seq<char>, p: Pos, ch: char) -> (Seq<char>, bool, Pos) {
    if ch == '.' {
        (seq!['0', ch], true, p)
    } else if ch == '-' {
        match char_at(chars, p.0) {
            Some(c) => (seq!['-', c], false, advance(chars, p)),
            None => (seq!['0'], false, advance(chars, p)),
        }
    } else {
        (seq![ch], false, p)
    }
}

/// The rest of a number's text from `p`: digits (and one dot) are kept, underscores
/// skipped, and the first of `i`, `u` or `f` starts the type with the letters after it.
/// Gives the text, whether a dot was read, the type read and the position after.
pub open spec fn number_rest(chars: Seq<char>, p: Pos, text: Seq<char>, dot: bool, typ: Option<(char, Seq<char>)>) -> (
    Seq<char>,
    bool,
    Option<(char, Seq<char>)>,
    Pos,
)
    decreases chars.len() - p.0,
{
    match char_at(chars, p.0) {
        Some(c) => if c == '.' {
            if dot {
                (text, dot, typ, p)
            } else {
                number_rest(chars, advance(chars, p), text.push(c), true, typ)
            }
        } else if char_numeric(c) {
            number_rest(chars, advance(chars, p), text.push(c), dot, typ)
        } else if c == '_' {
            number_rest(chars, advance(chars, p), text, dot, typ)
        } else if c == 'i' || c == 'u' || c == 'f' {
            if typ is Some {
                (text, dot, typ, p)
            } else {
                let (size, q) = type_size(chars, advance(chars, p), Seq::empty());
                proof {
                    lemma_type_size(chars, advance(chars, p), Seq::empty());
                }
                number_rest(chars, q, text, dot, Some((c, size)))
            }
        } else {
            (text, dot, typ, p)
        },
        None => (text, dot, typ, p),
    }
}

/// The type of a number read with the type letter `c` and the size `size`.
pub open spec fn number_type(c: char, size: Seq<char>) -> NumberType {
    if c == 'u' {
        if size == "8"@ {
            NumberType::U8
        } else if size == "16"@ {
            NumberType::U16
        } else if size == "32"@ {
            NumberType::U32
        } else if size == "64"@ {
            NumberType::U64
        } else {
            NumberType::USize
        }
    } else {
        if size == "8"@ {
            NumberType::I8
        } else if size == "16"@ {
            NumberType::I16
        } else if size == "32"@ {
            NumberType::I32
        } else if size == "64"@ {
            NumberType::I64
        } else {
            NumberType::ISize
        }
    }
}

/// Whether numbers of type `t` have a sign.
pub open spec fn is_signed(t: NumberType) -> bool {
    match t {
        NumberType::I8 | NumberType::I16 | NumberType::I32 | NumberType::I64 | NumberType::ISize => true,
        _ => false,
    }
}

/// The value of a sequence of ASCII decimal digits, none when another character is
/// among them.
pub open spec fn digits_value(s: Seq<char>) -> Option<int>
    decreases s.len(),
{
    if s.len() == 0 {
        Some(0)
    } else if '0' <= s.last() <= '9' {
        match digits_value(s.drop_last()) {
            Some(v) => Some(v * 10 + (s.last() as int - '0' as int)),
            None => None,
        }
    } else {
        None
    }
}

/// The integer that `s` writes in decimal, as `from_str` of Rust's integer types reads
/// it: an optional `+` (or `-`, when `signed`) and then at least one ASCII digit.
pub open spec fn decimal(s: Seq<char>, signed: bool) -> Option<int> {
    if s.len() == 0 {
        None
    } else if (s[0] == '+' || s[0] == '-') && s.len() == 1 {
        None
    } else if s[0] == '+' {
        digits_value(s.drop_first())
    } else if s[0] == '-' && signed {
        match digits_value(s.drop_first()) {
            Some(v) => Some(-v),
            None => None,
        }
    } else {
        digits_value(s)
    }
}

/// The value of a number's text `text` as a number of type `t`, none when `from_str`
/// of that type fails on it.
pub open spec fn number_parse(t: NumberType, text: Seq<char>) -> Option<int> {
    match decimal(text, is_signed(t)) {
        Some(v) => if in_range(t, v) {
            Some(v)
        } else {
            None
        },
        None => None,
    }
}

/// A number read from `p`, after its first character `ch`: its metadata first, then its
/// text and type (`size` unless a dot makes it `f64`), then its value and kind.
pub open spec fn read_number(h: Seq<Option<Object>>, scope: Gc, chars: Seq<char>, p: Pos, ch: char) -> Result<(Form, Pos), Fault> {
    match meta_fault(h, scope) {
        Some(e) => Err(e),
        None => {
            let (text0, dot0, p0) = number_head(chars, p, ch);
            let (text, dot, typ, q) = number_rest(chars, p0, text0, dot0, None);
            let (c, size) = match typ {
                Some((c, size)) => (c, size),
                None => if dot {
                    ('f', "64"@)
                } else {
                    ('i', "size"@)
                },
            };
            let t = number_type(c, size);
            match number_parse(t, text) {
                Some(v) => match kind_fault(h, scope, number_kind_name(t)) {
                    Some(e) => Err(e),
                    None => Ok((Form::Number((p.1, p.2), t, v), q)),
                },
                None => Err(Fault::InvalidNumber),
            }
        },
    }
}

/// The form read from `p`: white space is skipped, a comment runs to the end of its line,
/// and the first other character decides what is read. At the end of the text, `nil`.
pub open spec fn read_form(h: Seq<Option<Object>>, scope: Gc, chars: Seq<char>, p: Pos) -> Result<(Form, Pos), Fault>
    decreases chars.len() + 2 - p.0, 0int,
{
    match char_at(chars, p.0) {
        None => match value_result(h, scope, "nil"@, Tag::Nil) {
            Ok(_) => Ok((Form::Nil, p)),
            Err(e) => Err(e),
        },
        Some(c) => {
            let q = advance(chars, p);
            if spec_whitespace(c) {
                read_form(h, scope, chars, q)
            } else if c == '(' || c == '[' {
                match meta_fault(h, scope) {
                    Some(e) => Err(e),
                    None => match read_items(h, scope, chars, q, if c == '(' { ')' } else { ']' }, Seq::empty()) {
                        Err(e) => Err(e),
                        Ok((items, r)) => if c == '(' {
                            match kind_fault(h, scope, "PersistentList"@) {
                                Some(e) => Err(e),
                                None => Ok((Form::List((q.1, q.2), items), r)),
                            }
                        } else {
                            match kind_fault(h, scope, "PersistentVector"@) {
                                Some(e) => Err(e),
                                None => Ok((Form::Vector((q.1, q.2), items), r)),
                            }
                        },
                    },
                }
            } else if c == '{' {
                match meta_fault(h, scope) {
                    Some(e) => Err(e),
                    None => match read_entries(h, scope, chars, q, Seq::empty()) {
                        Err(e) => Err(e),
                        Ok((pairs, r)) => match kind_fault(h, scope, "PersistentMap"@) {
                            Some(e) => Err(e),
                            None => Ok((Form::Dict((q.1, q.2), pairs), r)),
                        },
                    },
                }
            } else if c == '"' || c == '\'' {
                match meta_fault(h, scope) {
                    Some(e) => Err(e),
                    None => {
                        let (s, r) = read_until(chars, q, c, Seq::empty());
                        if c == '"' {
                            match kind_fault(h, scope, "String"@) {
                                Some(e) => Err(e),
                                None => Ok((Form::Str((q.1, q.2), s), r)),
                            }
                        } else if s.len() == 0 {
                            Err(Fault::EmptyCharLiteral)
                        } else {
                            match kind_fault(h, scope, "Char"@) {
                                Some(e) => Err(e),
                                None => Ok((Form::Char((q.1, q.2), s[0]), r)),
                            }
                        }
                    },
                }
            } else if c == ':' {
                match meta_fault(h, scope) {
                    Some(e) => Err(e),
                    None => {
                        let (s, r) = read_word(chars, q, Seq::empty());
                        match kind_fault(h, scope, "Keyword"@) {
                            Some(e) => Err(e),
                            None => Ok((Form::Keyword((q.1, q.2), s), r)),
                        }
                    },
                }
            } else if c == '`' {
                match read_form(h, scope, chars, q) {
                    Err(e) => Err(e),
                    Ok((f, r)) => match kind_fault(h, scope, "Escape"@) {
                        Some(e) => Err(e),
                        None => Ok((Form::Escape(Box::new(f)), r)),
                    },
                }
            } else if c == ';' {
                proof {
                    lemma_skip_comment(chars, p);
                }
                read_form(h, scope, chars, skip_comment(chars, p))
            } else if numeric_start(chars, p.0, c) {
                read_number(h, scope, chars, q, c)
            } else {
                match meta_fault(h, scope) {
                    Some(e) => Err(e),
                    None => {
                        let (s, r) = read_word(chars, p, Seq::empty());
                        match kind_fault(h, scope, "Symbol"@) {
                            Some(e) => Err(e),
                            None => Ok((Form::Symbol((p.1, p.2), s), r)),
                        }
                    },
                }
            }
        },
    }
}

/// The items of a list or vector read from `p` up to `closer`, appended to `acc`, and the
/// position after the closer (or the end of the text). An item that reads nothing (a
/// closer of another kind) is a fault.
pub open spec fn read_items(h: Seq<Option<Object>>, scope: Gc, chars: Seq<char>, p: Pos, closer: char, acc: Seq<Form>) -> Result<(Seq<Form>, Pos), Fault>
    decreases chars.len() + 2 - p.0, 1int,
{
    match char_at(chars, p.0) {
        None => Ok((acc, p)),
        Some(c) => if c == closer {
            Ok((acc, advance(chars, p)))
        } else if spec_whitespace(c) {
            read_items(h, scope, chars, advance(chars, p), closer, acc)
        } else {
            match read_form(h, scope, chars, p) {
                Err(e) => Err(e),
                Ok((f, q)) => if p.0 < q.0 <= chars.len() + 1 {
                    read_items(h, scope, chars, q, closer, acc.push(f))
                } else {
                    Err(Fault::UnexpectedCloser)
                },
            }
        },
    }
}

/// The pairs of a map read from `p` up to `}`, appended to `acc`. After each key, every
/// value up to the `}` is read and the last one kept (`nil` when there is none).
pub open spec fn read_entries(h: Seq<Option<Object>>, scope: Gc, chars: Seq<char>, p: Pos, acc: Seq<(Form, Form)>) -> Result<(Seq<(Form, Form)>, Pos), Fault>
    decreases chars.len() + 2 - p.0, 1int,
{
    match char_at(chars, p.0) {
        None => Ok((acc, p)),
        Some(c) => if c == '}' {
            Ok((acc, advance(chars, p)))
        } else if spec_whitespace(c) {
            read_entries(h, scope, chars, advance(chars, p), acc)
        } else {
            match read_form(h, scope, chars, p) {
                Err(e) => Err(e),
                Ok((k, q)) => if p.0 < q.0 <= chars.len() + 1 {
                    match value_result(h, scope, "nil"@, Tag::Nil) {
                        Err(e) => Err(e),
                        Ok(_) => match read_entry_value(h, scope, chars, q, Form::Nil) {
                            Err(e) => Err(e),
                            Ok((v, r)) => if p.0 < r.0 <= chars.len() + 1 {
                                read_entries(h, scope, chars, r, acc.push((k, v)))
                            } else {
                                Err(Fault::UnexpectedCloser)
                            },
                        },
                    }
                } else {
                    Err(Fault::UnexpectedCloser)
                },
            }
        },
    }
}

/// The value of a map's pair read from `p` up to (not past) the `}`: the last value
/// read, or `v` when there is none.
pub open spec fn read_entry_value(h: Seq<Option<Object>>, scope: Gc, chars: Seq<char>, p: Pos, v: Form) -> Result<(Form, Pos), Fault>
    decreases chars.len() + 2 - p.0, 1int,
{
    match char_at(chars, p.0) {
        None => Ok((v, p)),
        Some(c) => if c == '}' {
            Ok((v, p))
        } else if spec_whitespace(c) {
            read_entry_value(h, scope, chars, advance(chars, p), v)
        } else {
            match read_form(h, scope, chars, p) {
                Err(e) => Err(e),
                Ok((f, q)) => if p.0 < q.0 <= chars.len() + 1 {
                    read_entry_value(h, scope, chars, q, f)
                } else {
                    Err(Fault::UnexpectedCloser)
                },
            }
        },
    }
}


/// Whether `h2` extends `h` with objects that the reader makes: none is a scope, a kind
/// or `nil`, so no lookup of a kind or of `nil` changes.
pub open spec fn read_made(h: Seq<Option<Object>>, h2: Seq<Option<Object>>) -> bool {
    &&& extends(h, h2)
    &&& forall|i: int| h.len() <= i < h2.len() ==> #[trigger] h2[i] is Some && plain(h2[i]->Some_0.value)
}

/// Whether `d` is neither a scope, nor a kind, nor `nil`.
pub open spec fn plain(d: Data) -> bool {
    !(d is PersistentScope) && !(d is Kind) && !(d is Nil)
}

/// Objects that the reader makes in turn are objects that it makes.
pub proof fn lemma_read_made_trans(a: Seq<Option<Object>>, b: Seq<Option<Object>>, c: Seq<Option<Object>>)
    requires
        read_made(a, b),
        read_made(b, c),
    ensures
        read_made(a, c),
{
    lemma_extends_trans(a, b, c);
    assert forall|i: int| a.len() <= i < c.len() implies #[trigger] c[i] is Some && plain(c[i]->Some_0.value) by {
        if i < b.len() {
            assert(c[i] == b[i]);
        }
    }
}

/// A name bound in a scope stays bound to the same handle when the reader makes objects.
pub proof fn lemma_read_made_lookup(h: Seq<Option<Object>>, h2: Seq<Option<Object>>, scope: Gc, name: Seq<char>)
    requires
        read_made(h, h2),
    ensures
        scope_lookup(h2, scope, name) == scope_lookup(h, scope, name),
    decreases scope.ptr,
{
    if live_in(h, scope) {
        assert(h2[scope.ptr as int] == h[scope.ptr as int]);
        match object_in(h, scope).value {
            Data::PersistentScope(s) => {
                if !s.entries().dom().contains(name) {
                    if let Some(p) = s.parent {
                        if p.ptr < scope.ptr {
                            lemma_read_made_lookup(h, h2, p, name);
                        }
                    }
                }
            },
            _ => {},
        }
    } else if live_in(h2, scope) {
        assert(h2[scope.ptr as int] is Some && plain(h2[scope.ptr as int]->Some_0.value));
    }
}

/// The kind and the `nil` that the reader looks up are the same when it has made
/// objects.
pub proof fn lemma_read_made_kind(h: Seq<Option<Object>>, h2: Seq<Option<Object>>, scope: Gc, name: Seq<char>)
    requires
        read_made(h, h2),
    ensures
        kind_result(h2, scope, name) == kind_result(h, scope, name),
        value_result(h2, scope, name, Tag::Nil) == value_result(h, scope, name, Tag::Nil),
{
    lemma_read_made_lookup(h, h2, scope, name);
    if let Some(g) = scope_lookup(h, scope, name) {
        if live_in(h, g) {
            assert(h2[g.ptr as int] == h[g.ptr as int]);
        } else if live_in(h2, g) {
            assert(h2[g.ptr as int] is Some && plain(h2[g.ptr as int]->Some_0.value));
        }
    }
}

/// Whether `g` refers to an object of the kind bound to `name` in `scope` (in `h0`).
pub open spec fn made_as(h0: Seq<Option<Object>>, scope: Gc, h: Seq<Option<Object>>, g: Gc, name: Seq<char>) -> bool {
    &&& live_in(h, g)
    &&& kind_result(h0, scope, name) == Ok::<Gc, Fault>(object_in(h, g).kind)
}

/// Whether `g` refers to the keyword `name`.
pub open spec fn keyword_holds(h0: Seq<Option<Object>>, scope: Gc, h: Seq<Option<Object>>, g: Gc, name: Seq<char>) -> bool {
    &&& made_as(h0, scope, h, g, "Keyword"@)
    &&& object_in(h, g).value matches Data::Keyword(k) && k.0@ == name
}

/// Whether `meta` is the metadata of a form read in the file `file` at `at` (line,
/// column): a map of the keywords `filename`, `line` and `col` to a string and two
/// numbers of type `usize`.
pub open spec fn holds_meta(h0: Seq<Option<Object>>, scope: Gc, file: Seq<char>, h: Seq<Option<Object>>, meta: Option<Gc>, at: (int, int)) -> bool {
    &&& meta is Some
    &&& made_as(h0, scope, h, meta->Some_0, "Map"@)
    &&& object_in(h, meta->Some_0).meta is None
    &&& object_in(h, meta->Some_0).value matches Data::ValueMap(m) && {
        let e = m@;
        &&& e.len() == 3
        &&& keyword_holds(h0, scope, h, e[0].0, "filename"@)
        &&& made_as(h0, scope, h, e[0].1, "String"@)
        &&& object_in(h, e[0].1).value matches Data::Str(x) && x@ == file
        &&& keyword_holds(h0, scope, h, e[1].0, "line"@)
        &&& made_as(h0, scope, h, e[1].1, "USize"@)
        &&& object_in(h, e[1].1).value matches Data::USize(x) && x == at.0
        &&& keyword_holds(h0, scope, h, e[2].0, "col"@)
        &&& made_as(h0, scope, h, e[2].1, "USize"@)
        &&& object_in(h, e[2].1).value matches Data::USize(x) && x == at.1
    }
}

/// Whether `g` refers to the value that the form `f` reads as, in the file `file`: an
/// object of the kind that the form's type is bound to in `scope` (in `h0`), with its
/// metadata, holding the form's contents. A map holds what setting the pairs read, in
/// turn, into an empty map gives.
pub open spec fn holds_form(h0: Seq<Option<Object>>, scope: Gc, file: Seq<char>, h: Seq<Option<Object>>, g: Gc, f: Form) -> bool
    decreases f,
{
    let o = object_in(h, g);
    match f {
        Form::Nil => value_result(h0, scope, "nil"@, Tag::Nil) == Ok::<Gc, Fault>(g),
        Form::List(at, items) => {
            &&& made_as(h0, scope, h, g, "PersistentList"@)
            &&& holds_meta(h0, scope, file, h, o.meta, at)
            &&& o.value matches Data::PersistentList(l) && l@.len() == items.len() && forall|i: int|
                0 <= i < items.len() ==> holds_form(h0, scope, file, h, #[trigger] l@[i], items[i])
        },
        Form::Vector(at, items) => {
            &&& made_as(h0, scope, h, g, "PersistentVector"@)
            &&& holds_meta(h0, scope, file, h, o.meta, at)
            &&& o.value matches Data::PersistentVector(l) && l@.len() == items.len() && forall|i: int|
                0 <= i < items.len() ==> holds_form(h0, scope, file, h, #[trigger] l@[i], items[i])
        },
        Form::Dict(at, pairs) => {
            &&& made_as(h0, scope, h, g, "PersistentMap"@)
            &&& holds_meta(h0, scope, file, h, o.meta, at)
            &&& o.value matches Data::PersistentMap(m) && dict_holds(h0, scope, file, h, m@, pairs)
        },
        Form::Str(at, s) => {
            &&& made_as(h0, scope, h, g, "String"@)
            &&& holds_meta(h0, scope, file, h, o.meta, at)
            &&& o.value matches Data::Str(x) && x@ == s
        },
        Form::Char(at, c) => {
            &&& made_as(h0, scope, h, g, "Char"@)
            &&& holds_meta(h0, scope, file, h, o.meta, at)
            &&& o.value == Data::Char(c)
        },
        Form::Keyword(at, s) => {
            &&& made_as(h0, scope, h, g, "Keyword"@)
            &&& holds_meta(h0, scope, file, h, o.meta, at)
            &&& o.value matches Data::Keyword(k) && k.0@ == s
        },
        Form::Symbol(at, s) => {
            &&& made_as(h0, scope, h, g, "Symbol"@)
            &&& holds_meta(h0, scope, file, h, o.meta, at)
            &&& o.value matches Data::Symbol(k) && k.0@ == s
        },
        Form::Escape(b) => {
            &&& made_as(h0, scope, h, g, "Escape"@)
            &&& o.meta is None
            &&& o.value matches Data::Escape(e) && holds_form(h0, scope, file, h, e.0, *b)
        },
        Form::Number(at, t, v) => {
            &&& made_as(h0, scope, h, g, number_kind_name(t))
            &&& holds_meta(h0, scope, file, h, o.meta, at)
            &&& o.value == number_data(t, v)
        },
    }
}

/// The pairs that setting the pairs `ks` in turn into an empty map gives, the keys of each
/// compared in the heap at the same position of `hs`.
pub open spec fn set_in_turn(hs: Seq<Seq<Option<Object>>>, ks: Seq<(Gc, Gc)>) -> Seq<(Gc, Gc)>
    decreases ks.len(),
{
    if ks.len() == 0 || hs.len() < ks.len() {
        Seq::empty()
    } else {
        pairs_set(hs[ks.len() - 1], set_in_turn(hs, ks.drop_last()), ks.last().0, ks.last().1)
    }
}

/// Whether the heaps `hs` are those the pairs `ks` were set in, in turn: each a part of
/// `h` that its pair lies in, and none shorter than one before it.
pub open spec fn set_heaps(hs: Seq<Seq<Option<Object>>>, ks: Seq<(Gc, Gc)>, h: Seq<Option<Object>>) -> bool {
    &&& hs.len() == ks.len()
    &&& forall|i: int| 0 <= i < hs.len() ==> extends(#[trigger] hs[i], h) && ks[i].0.ptr < hs[i].len() && ks[i].1.ptr < hs[i].len()
    &&& forall|i: int, j: int| 0 <= i <= j < hs.len() ==> (#[trigger] hs[i]).len() <= (#[trigger] hs[j]).len()
}

/// Whether the pairs `e` are those of a map of `h` built by setting the pairs `ks`, in turn,
/// in the heaps `hs`.
pub open spec fn dict_of(h: Seq<Option<Object>>, e: Seq<(Gc, Gc)>, ks: Seq<(Gc, Gc)>, hs: Seq<Seq<Option<Object>>>) -> bool {
    set_heaps(hs, ks, h) && e == set_in_turn(hs, ks)
}

/// Whether the pairs `e` are what setting, in turn, pairs that hold those read (`pairs`)
/// gives.
pub open spec fn dict_holds(h0: Seq<Option<Object>>, scope: Gc, file: Seq<char>, h: Seq<Option<Object>>, e: Seq<(Gc, Gc)>, pairs: Seq<(Form, Form)>) -> bool
    decreases pairs,
{
    exists|ks: Seq<(Gc, Gc)>, hs: Seq<Seq<Option<Object>>>|
        #[trigger] dict_of(h, e, ks, hs) && ks.len() == pairs.len() && forall|i: int|
            0 <= i < pairs.len() ==> holds_form(h0, scope, file, h, (#[trigger] ks[i]).0, pairs[i].0) && holds_form(
                h0,
                scope,
                file,
                h,
                ks[i].1,
                pairs[i].1,
            )
}

/// Setting pairs in turn depends only on the heaps of the pairs set.
proof fn lemma_set_in_turn_heaps(hs: Seq<Seq<Option<Object>>>, hs2: Seq<Seq<Option<Object>>>, ks: Seq<(Gc, Gc)>)
    requires
        hs.len() >= ks.len(),
        hs2.len() >= ks.len(),
        forall|i: int| 0 <= i < ks.len() ==> hs[i] == hs2[i],
    ensures
        set_in_turn(hs, ks) == set_in_turn(hs2, ks),
    decreases ks.len(),
{
    if ks.len() > 0 {
        lemma_set_in_turn_heaps(hs, hs2, ks.drop_last());
    }
}

/// Pairs built in turn in a heap are built the same in any heap that extends it.
pub proof fn lemma_dict_holds_extends(
    h0: Seq<Option<Object>>,
    scope: Gc,
    file: Seq<char>,
    h: Seq<Option<Object>>,
    h2: Seq<Option<Object>>,
    e: Seq<(Gc, Gc)>,
    pairs: Seq<(Form, Form)>,
)
    requires
        extends(h, h2),
        dict_holds(h0, scope, file, h, e, pairs),
    ensures
        dict_holds(h0, scope, file, h2, e, pairs),
    decreases pairs,
{
    let (ks, hs) = choose|ks: Seq<(Gc, Gc)>, hs: Seq<Seq<Option<Object>>>|
        #[trigger] dict_of(h, e, ks, hs) && ks.len() == pairs.len() && forall|i: int|
            0 <= i < pairs.len() ==> holds_form(h0, scope, file, h, (#[trigger] ks[i]).0, pairs[i].0) && holds_form(
                h0,
                scope,
                file,
                h,
                ks[i].1,
                pairs[i].1,
            );
    assert forall|i: int| 0 <= i < hs.len() implies extends(#[trigger] hs[i], h2) && ks[i].0.ptr < hs[i].len() && ks[i].1.ptr < hs[i].len() by {
        lemma_extends_trans(hs[i], h, h2);
    }
    assert forall|i: int| 0 <= i < pairs.len() implies holds_form(h0, scope, file, h2, (#[trigger] ks[i]).0, pairs[i].0) && holds_form(
        h0,
        scope,
        file,
        h2,
        ks[i].1,
        pairs[i].1,
    ) by {
        lemma_holds_form_extends(h0, scope, file, h, h2, ks[i].0, pairs[i].0);
        lemma_holds_form_extends(h0, scope, file, h, h2, ks[i].1, pairs[i].1);
    }
    assert(dict_of(h2, e, ks, hs));
}

/// Metadata found in a heap is found, the same, in any heap that extends it.
pub proof fn lemma_holds_meta_extends(h0: Seq<Option<Object>>, scope: Gc, file: Seq<char>, h: Seq<Option<Object>>, h2: Seq<Option<Object>>, meta: Option<Gc>, at: (int, int))
    requires
        extends(h, h2),
        holds_meta(h0, scope, file, h, meta, at),
    ensures
        holds_meta(h0, scope, file, h2, meta, at),
{
    let m = meta->Some_0;
    assert(h2[m.ptr as int] == h[m.ptr as int]);
    if let Data::ValueMap(vm) = object_in(h, m).value {
        let e = vm@;
        assert(h2[e[0].0.ptr as int] == h[e[0].0.ptr as int]);
        assert(h2[e[0].1.ptr as int] == h[e[0].1.ptr as int]);
        assert(h2[e[1].0.ptr as int] == h[e[1].0.ptr as int]);
        assert(h2[e[1].1.ptr as int] == h[e[1].1.ptr as int]);
        assert(h2[e[2].0.ptr as int] == h[e[2].0.ptr as int]);
        assert(h2[e[2].1.ptr as int] == h[e[2].1.ptr as int]);
    }
}

/// A value found holding a form in a heap holds it, the same, in any heap that extends it.
pub proof fn lemma_holds_form_extends(h0: Seq<Option<Object>>, scope: Gc, file: Seq<char>, h: Seq<Option<Object>>, h2: Seq<Option<Object>>, g: Gc, f: Form)
    requires
        extends(h, h2),
        holds_form(h0, scope, file, h, g, f),
    ensures
        holds_form(h0, scope, file, h2, g, f),
    decreases f,
{
    if !(f is Nil) {
        assert(h2[g.ptr as int] == h[g.ptr as int]);
    }
    let o = object_in(h, g);
    match f {
        Form::Nil => {
            assert(holds_form(h0, scope, file, h, g, f) == (value_result(h0, scope, "nil"@, Tag::Nil) == Ok::<Gc, Fault>(g)));
            assert(holds_form(h0, scope, file, h2, g, f) == (value_result(h0, scope, "nil"@, Tag::Nil) == Ok::<Gc, Fault>(g)));
            assert(holds_form(h0, scope, file, h2, g, f));
        },
        Form::List(at, items) => {
            lemma_holds_meta_extends(h0, scope, file, h, h2, o.meta, at);
            if let Data::PersistentList(l) = o.value {
                assert forall|i: int| 0 <= i < items.len() implies holds_form(h0, scope, file, h2, #[trigger] l@[i], items[i]) by {
                    lemma_holds_form_extends(h0, scope, file, h, h2, l@[i], items[i]);
                }
            }
            assert(holds_form(h0, scope, file, h2, g, f));
        },
        Form::Vector(at, items) => {
            lemma_holds_meta_extends(h0, scope, file, h, h2, o.meta, at);
            if let Data::PersistentVector(l) = o.value {
                assert forall|i: int| 0 <= i < items.len() implies holds_form(h0, scope, file, h2, #[trigger] l@[i], items[i]) by {
                    lemma_holds_form_extends(h0, scope, file, h, h2, l@[i], items[i]);
                }
            }
            assert(holds_form(h0, scope, file, h2, g, f));
        },
        Form::Dict(at, pairs) => {
            lemma_holds_meta_extends(h0, scope, file, h, h2, o.meta, at);
            if let Data::PersistentMap(m) = o.value {
                lemma_dict_holds_extends(h0, scope, file, h, h2, m@, pairs);
            }
        },
        Form::Escape(b) => {
            if let Data::Escape(e) = o.value {
                lemma_holds_form_extends(h0, scope, file, h, h2, e.0, *b);
            }
            assert(holds_form(h0, scope, file, h2, g, f));
        },
        Form::Str(at, _) => {
            lemma_holds_meta_extends(h0, scope, file, h, h2, o.meta, at);
            assert(holds_form(h0, scope, file, h2, g, f));
        },
        Form::Char(at, _) => {
            lemma_holds_meta_extends(h0, scope, file, h, h2, o.meta, at);
            assert(holds_form(h0, scope, file, h2, g, f));
        },
        Form::Keyword(at, _) => {
            lemma_holds_meta_extends(h0, scope, file, h, h2, o.meta, at);
            assert(holds_form(h0, scope, file, h2, g, f));
        },
        Form::Symbol(at, _) => {
            lemma_holds_meta_extends(h0, scope, file, h, h2, o.meta, at);
            assert(holds_form(h0, scope, file, h2, g, f));
        },
        Form::Number(at, _, _) => {
            lemma_holds_meta_extends(h0, scope, file, h, h2, o.meta, at);
            assert(holds_form(h0, scope, file, h2, g, f));
        },
    }
}


/// The name of the file that `r` reads, or the empty text.
pub open spec fn file_of(r: Reader) -> Seq<char> {
    match r.filename {
        Some(f) => f@,
        None => Seq::empty(),
    }
}

/// Whether `r` is what reading gives when the reading specification gives `expect`:
/// the same fault, or a value holding the form read with the reader `rd` then at the
/// position after it.
pub open spec fn read_post(h0: Seq<Option<Object>>, scope: Gc, file: Seq<char>, h: Seq<Option<Object>>, rd: Reader, r: Result<Gc, Fault>, expect: Result<(Form, Pos), Fault>) -> bool {
    match expect {
        Err(e) => r == Err::<Gc, Fault>(e),
        Ok((f, q)) => r matches Ok(g) && rd.pos() == q && holds_form(h0, scope, file, h, g, f),
    }
}

/// The string of the characters `chars`, collected by `String::from_iter`.
#[verifier::external_body]
pub(crate) fn string_of_chars(chars: &Vec<char>) -> (s: String)
    ensures
        s@ == chars@,
{
    chars.iter().collect()
}

/// A new object holding `value`, with the metadata `meta`, of the kind bound to `name`
/// in `scope` (as it was in `h0`, before the reader made objects).
fn make(heap: &mut GcAllocator, scope: Gc, name: &str, value: Data, meta: Option<Gc>, Ghost(h0): Ghost<Seq<Option<Object>>>) -> (r: Result<Gc, Fault>)
    requires
        read_made(h0, old(heap)@),
        plain(value),
    ensures
        read_made(h0, final(heap)@),
        read_made(old(heap)@, final(heap)@),
        match kind_result(h0, scope, name@) {
            Err(e) => r == Err::<Gc, Fault>(e) && final(heap)@ == old(heap)@,
            Ok(k) => r matches Ok(g) && g.ptr == old(heap)@.len() && live_in(final(heap)@, g) && object_in(final(heap)@, g) == (Object {
                marked: false,
                kind: k,
                meta,
                value,
            }),
        },
{
    proof {
        lemma_read_made_kind(h0, heap@, scope, name@);
    }
    match kind_named(heap, scope, name) {
        Ok(k) => {
            let ghost h1 = heap@;
            let g = alloc_of_kind(heap, k, value, meta);
            proof {
                assert(live_in(h1, scope));
                assert(read_made(h1, heap@));
                lemma_read_made_trans(h0, h1, heap@);
            }
            Ok(g)
        },
        Err(e) => Err(e),
    }
}

/// The metadata of a form read at the position of `reader`: a map of the keywords
/// `filename`, `line` and `col` to the file's name (or the empty string), the line and the
/// column.
fn create_meta(heap: &mut GcAllocator, scope: Gc, reader: &Reader, Ghost(h0): Ghost<Seq<Option<Object>>>) -> (r: Result<Gc, Fault>)
    requires
        read_made(h0, old(heap)@),
    ensures
        read_made(h0, final(heap)@),
        read_made(old(heap)@, final(heap)@),
        match meta_fault(h0, scope) {
            Some(e) => r == Err::<Gc, Fault>(e),
            None => holds_meta(h0, scope, file_of(*reader), final(heap)@, r.ok(), (reader.line as int, reader.col as int)) && r is Ok,
        },
{
    let ghost ha = heap@;
    let k1 = match make(heap, scope, "Keyword", Data::Keyword(Keyword::new(string_from("filename"))), None, Ghost(h0)) {
        Ok(g) => g,
        Err(e) => {
            return Err(e);
        },
    };
    let ghost hb = heap@;
    let file = match reader.filename() {
        Some(f) => f.clone(),
        None => String::new(),
    };
    let v1 = match make(heap, scope, "String", Data::Str(file), None, Ghost(h0)) {
        Ok(g) => g,
        Err(e) => {
            return Err(e);
        },
    };
    let ghost hc = heap@;
    let k2 = match make(heap, scope, "Keyword", Data::Keyword(Keyword::new(string_from("line"))), None, Ghost(h0)) {
        Ok(g) => g,
        Err(e) => {
            return Err(e);
        },
    };
    let ghost hd = heap@;
    let v2 = match make(heap, scope, "USize", Data::USize(reader.line), None, Ghost(h0)) {
        Ok(g) => g,
        Err(e) => {
            return Err(e);
        },
    };
    let ghost he = heap@;
    let k3 = match make(heap, scope, "Keyword", Data::Keyword(Keyword::new(string_from("col"))), None, Ghost(h0)) {
        Ok(g) => g,
        Err(e) => {
            return Err(e);
        },
    };
    let ghost hf = heap@;
    let v3 = match make(heap, scope, "USize", Data::USize(reader.col), None, Ghost(h0)) {
        Ok(g) => g,
        Err(e) => {
            return Err(e);
        },
    };
    let ghost hg = heap@;
    proof {
        lemma_read_made_trans(hb, hc, hd);
        lemma_read_made_trans(hb, hd, he);
        lemma_read_made_trans(hb, he, hf);
        lemma_read_made_trans(hb, hf, hg);
        lemma_read_made_trans(hd, he, hf);
        lemma_read_made_trans(hd, hf, hg);
        lemma_read_made_trans(hc, hd, hg);
        lemma_read_made_trans(he, hf, hg);
        assert(hg[k1.ptr as int] == hb[k1.ptr as int]);
        assert(hg[v1.ptr as int] == hc[v1.ptr as int]);
        assert(hg[k2.ptr as int] == hd[k2.ptr as int]);
        assert(hg[v2.ptr as int] == he[v2.ptr as int]);
        assert(hg[k3.ptr as int] == hf[k3.ptr as int]);
        reveal_strlit("filename");
        reveal_strlit("line");
        reveal_strlit("col");
        assert("line"@[0] != "filename"@[0]);
        assert(chars_order("line"@, "filename"@) != Order::Equal);
        assert("col"@[0] != "filename"@[0]);
        assert(chars_order("col"@, "filename"@) != Order::Equal);
        assert("col"@[0] != "line"@[0]);
        assert(chars_order("col"@, "line"@) != Order::Equal);
    }
    let mut map = ValueMap::new();
    map.set(heap, k1, v1);
    proof {
        assert(map@ =~= seq![(k1, v1)]);
        assert(!values_equal(hg, k1, k2));
        assert(scan_pairs(hg, map@, k2, 1) is None);
    }
    map.set(heap, k2, v2);
    proof {
        assert(map@ =~= seq![(k1, v1), (k2, v2)]);
        assert(!values_equal(hg, k1, k3));
        assert(!values_equal(hg, k2, k3));
        assert(scan_pairs(hg, map@, k3, 2) is None);
        assert(scan_pairs(hg, map@, k3, 1) is None);
    }
    map.set(heap, k3, v3);
    proof {
        assert(map@ =~= seq![(k1, v1), (k2, v2), (k3, v3)]);
    }
    let m = make(heap, scope, "Map", Data::ValueMap(map), None, Ghost(h0));
    proof {
        lemma_read_made_trans(ha, hb, hg);
        lemma_read_made_trans(ha, hg, heap@);
        if let Ok(g) = m {
            assert(heap@[k1.ptr as int] == hg[k1.ptr as int]);
            assert(heap@[v1.ptr as int] == hg[v1.ptr as int]);
            assert(heap@[k2.ptr as int] == hg[k2.ptr as int]);
            assert(heap@[v2.ptr as int] == hg[v2.ptr as int]);
            assert(heap@[k3.ptr as int] == hg[k3.ptr as int]);
            assert(heap@[v3.ptr as int] == hg[v3.ptr as int]);
        }
    }
    m
}


/// The characters of a word from the position of `reader`: up to the first that closes
/// a form or separates values.
fn read_word_chars(reader: &mut Reader) -> (v: Vec<char>)
    requires
        old(reader).wf(),
    ensures
        final(reader).wf(),
        final(reader).chars == old(reader).chars,
        final(reader).filename == old(reader).filename,
        (v@, final(reader).pos()) == read_word(old(reader).chars@, old(reader).pos(), Seq::empty()),
{
    let mut v: Vec<char> = Vec::new();
    loop
        invariant
            reader.wf(),
            reader.chars == old(reader).chars,
            reader.filename == old(reader).filename,
            read_word(reader.chars@, reader.pos(), v@) == read_word(old(reader).chars@, old(reader).pos(), Seq::<char>::empty()),
        decreases reader.chars@.len() + 2 - reader.index,
    {
        match reader.peek() {
            Some(c) => {
                if is_closer(c) || is_whitespace(c) {
                    return v;
                }
                reader.consume();
                v.push(c);
            },
            None => {
                return v;
            },
        }
    }
}

/// The characters from the position of `reader` up to `end`, which is consumed too (or
/// one step past the end of the text).
fn read_until_chars(reader: &mut Reader, end: char) -> (v: Vec<char>)
    requires
        old(reader).wf(),
        old(reader).index <= old(reader).chars@.len(),
    ensures
        final(reader).wf(),
        final(reader).chars == old(reader).chars,
        final(reader).filename == old(reader).filename,
        (v@, final(reader).pos()) == read_until(old(reader).chars@, old(reader).pos(), end, Seq::empty()),
{
    let mut v: Vec<char> = Vec::new();
    loop
        invariant
            reader.wf(),
            reader.index <= reader.chars@.len(),
            reader.chars == old(reader).chars,
            reader.filename == old(reader).filename,
            read_until(reader.chars@, reader.pos(), end, v@) == read_until(old(reader).chars@, old(reader).pos(), end, Seq::<char>::empty()),
        decreases reader.chars@.len() - reader.index,
    {
        match reader.next() {
            Some(c) => {
                if c == end {
                    return v;
                }
                v.push(c);
            },
            None => {
                return v;
            },
        }
    }
}

/// Moves the reader to the end of the line it stands on.
fn skip_comment_chars(reader: &mut Reader)
    requires
        old(reader).wf(),
        old(reader).index <= old(reader).chars@.len(),
    ensures
        final(reader).wf(),
        final(reader).chars == old(reader).chars,
        final(reader).filename == old(reader).filename,
        final(reader).pos() == skip_comment(old(reader).chars@, old(reader).pos()),
{
    loop
        invariant
            reader.wf(),
            reader.index <= reader.chars@.len(),
            reader.chars == old(reader).chars,
            reader.filename == old(reader).filename,
            skip_comment(reader.chars@, reader.pos()) == skip_comment(old(reader).chars@, old(reader).pos()),
        decreases reader.chars@.len() - reader.index,
    {
        match reader.peek() {
            Some(c) => {
                if is_newline(c) {
                    return;
                }
                reader.consume();
            },
            None => {
                return;
            },
        }
    }
}

/// The letters naming a number's type, from the position of `reader`.
fn type_size_chars(reader: &mut Reader) -> (v: Vec<char>)
    requires
        old(reader).wf(),
        old(reader).index <= old(reader).chars@.len(),
    ensures
        final(reader).wf(),
        final(reader).index <= final(reader).chars@.len(),
        final(reader).chars == old(reader).chars,
        final(reader).filename == old(reader).filename,
        (v@, final(reader).pos()) == type_size(old(reader).chars@, old(reader).pos(), Seq::empty()),
{
    let mut v: Vec<char> = Vec::new();
    loop
        invariant
            reader.wf(),
            reader.index <= reader.chars@.len(),
            reader.chars == old(reader).chars,
            reader.filename == old(reader).filename,
            type_size(reader.chars@, reader.pos(), v@) == type_size(old(reader).chars@, old(reader).pos(), Seq::<char>::empty()),
        decreases reader.chars@.len() - reader.index,
    {
        match reader.peek() {
            Some(c) => {
                if !std_is_alphabetic(c) {
                    return v;
                }
                reader.consume();
                v.push(c);
            },
            None => {
                return v;
            },
        }
    }
}

/// The text of a number from the position of `reader`, after its start `text` (with a
/// dot read when `dot`): the text, whether a dot was read, the type letter and the
/// letters after it.
fn number_text(reader: &mut Reader, text0: Vec<char>, dot0: bool) -> (r: (Vec<char>, bool, Option<char>, Vec<char>))
    requires
        old(reader).wf(),
        old(reader).index <= old(reader).chars@.len() + 1,
    ensures
        final(reader).wf(),
        final(reader).chars == old(reader).chars,
        final(reader).filename == old(reader).filename,
        number_rest(old(reader).chars@, old(reader).pos(), text0@, dot0, None) == (r.0@, r.1, match r.2 {
            Some(c) => Some((c, r.3@)),
            None => None,
        }, final(reader).pos()),
{
    let mut text = text0;
    let mut dot = dot0;
    let mut typ: Option<char> = None;
    let mut size: Vec<char> = Vec::new();
    loop
        invariant
            reader.wf(),
            reader.chars == old(reader).chars,
            reader.filename == old(reader).filename,
            number_rest(reader.chars@, reader.pos(), text@, dot, match typ {
                Some(c) => Some((c, size@)),
                None => None,
            }) == number_rest(old(reader).chars@, old(reader).pos(), text0@, dot0, None),
        decreases reader.chars@.len() + 2 - reader.index,
    {
        match reader.peek() {
            Some(c) => {
                if c == '.' {
                    if dot {
                        return (text, dot, typ, size);
                    }
                    dot = true;
                    reader.consume();
                    text.push(c);
                } else if std_is_numeric(c) {
                    reader.consume();
                    text.push(c);
                } else if c == '_' {
                    reader.consume();
                } else if c == 'i' || c == 'u' || c == 'f' {
                    if typ.is_some() {
                        return (text, dot, typ, size);
                    }
                    reader.consume();
                    typ = Some(c);
                    proof {
                        lemma_type_size(reader.chars@, reader.pos(), Seq::empty());
                    }
                    size = type_size_chars(reader);
                } else {
                    return (text, dot, typ, size);
                }
            },
            None => {
                return (text, dot, typ, size);
            },
        }
    }
}

/// Whether `v` holds the characters of `s`.
fn same_chars(v: &Vec<char>, s: &str) -> (b: bool)
    ensures
        b == (v@ == s@),
{
    let n = s.unicode_len();
    if v.len() != n {
        return false;
    }
    let mut i: usize = 0;
    while i < n
        invariant
            n == s@.len(),
            v@.len() == n,
            i <= n,
            forall|j: int| 0 <= j < i ==> v@[j] == s@[j],
        decreases n - i,
    {
        if v[i] != s.get_char(i) {
            return false;
        }
        i = i + 1;
    }
    assert(v@ =~= s@);
    true
}

/// The type of a number read with the type letter `c` and the size `size`.
fn number_type_of(c: char, size: &Vec<char>) -> (t: NumberType)
    ensures
        t == number_type(c, size@),
{
    if c == 'u' {
        if same_chars(size, "8") {
            NumberType::U8
        } else if same_chars(size, "16") {
            NumberType::U16
        } else if same_chars(size, "32") {
            NumberType::U32
        } else if same_chars(size, "64") {
            NumberType::U64
        } else {
            NumberType::USize
        }
    } else {
        if same_chars(size, "8") {
            NumberType::I8
        } else if same_chars(size, "16") {
            NumberType::I16
        } else if same_chars(size, "32") {
            NumberType::I32
        } else if same_chars(size, "64") {
            NumberType::I64
        } else {
            NumberType::ISize
        }
    }
}

/// `u8::from_str`: the decimal text `s` as a `u8`, none when it is not one.
#[verifier::external_body]
fn u8_from_str(s: &str) -> (r: Option<u8>)
    ensures
        r == (match number_parse(NumberType::U8, s@) {
            Some(v) => Some(v as u8),
            None => None::<u8>,
        }),
{
    s.parse::<u8>().ok()
}

/// `u16::from_str`: the decimal text `s` as a `u16`, none when it is not one.
#[verifier::external_body]
fn u16_from_str(s: &str) -> (r: Option<u16>)
    ensures
        r == (match number_parse(NumberType::U16, s@) {
            Some(v) => Some(v as u16),
            None => None::<u16>,
        }),
{
    s.parse::<u16>().ok()
}

/// `u32::from_str`: the decimal text `s` as a `u32`, none when it is not one.
#[verifier::external_body]
fn u32_from_str(s: &str) -> (r: Option<u32>)
    ensures
        r == (match number_parse(NumberType::U32, s@) {
            Some(v) => Some(v as u32),
            None => None::<u32>,
        }),
{
    s.parse::<u32>().ok()
}

/// `u64::from_str`: the decimal text `s` as a `u64`, none when it is not one.
#[verifier::external_body]
fn u64_from_str(s: &str) -> (r: Option<u64>)
    ensures
        r == (match number_parse(NumberType::U64, s@) {
            Some(v) => Some(v as u64),
            None => None::<u64>,
        }),
{
    s.parse::<u64>().ok()
}

/// `usize::from_str`: the decimal text `s` as a `usize`, none when it is not one.
#[verifier::external_body]
fn usize_from_str(s: &str) -> (r: Option<usize>)
    ensures
        r == (match number_parse(NumberType::USize, s@) {
            Some(v) => Some(v as usize),
            None => None::<usize>,
        }),
{
    s.parse::<usize>().ok()
}

/// `i8::from_str`: the decimal text `s` as a `i8`, none when it is not one.
#[verifier::external_body]
fn i8_from_str(s: &str) -> (r: Option<i8>)
    ensures
        r == (match number_parse(NumberType::I8, s@) {
            Some(v) => Some(v as i8),
            None => None::<i8>,
        }),
{
    s.parse::<i8>().ok()
}

/// `i16::from_str`: the decimal text `s` as a `i16`, none when it is not one.
#[verifier::external_body]
fn i16_from_str(s: &str) -> (r: Option<i16>)
    ensures
        r == (match number_parse(NumberType::I16, s@) {
            Some(v) => Some(v as i16),
            None => None::<i16>,
        }),
{
    s.parse::<i16>().ok()
}

/// `i32::from_str`: the decimal text `s` as a `i32`, none when it is not one.
#[verifier::external_body]
fn i32_from_str(s: &str) -> (r: Option<i32>)
    ensures
        r == (match number_parse(NumberType::I32, s@) {
            Some(v) => Some(v as i32),
            None => None::<i32>,
        }),
{
    s.parse::<i32>().ok()
}

/// `i64::from_str`: the decimal text `s` as a `i64`, none when it is not one.
#[verifier::external_body]
fn i64_from_str(s: &str) -> (r: Option<i64>)
    ensures
        r == (match number_parse(NumberType::I64, s@) {
            Some(v) => Some(v as i64),
            None => None::<i64>,
        }),
{
    s.parse::<i64>().ok()
}

/// `isize::from_str`: the decimal text `s` as a `isize`, none when it is not one.
#[verifier::external_body]
fn isize_from_str(s: &str) -> (r: Option<isize>)
    ensures
        r == (match number_parse(NumberType::ISize, s@) {
            Some(v) => Some(v as isize),
            None => None::<isize>,
        }),
{
    s.parse::<isize>().ok()
}

/// The number of type `t` that `text` writes, none when `from_str` of that type fails
/// on it.
fn parse_number(t: NumberType, text: &Vec<char>) -> (r: Option<Data>)
    ensures
        r == (match number_parse(t, text@) {
            Some(v) => Some(number_data(t, v)),
            None => None::<Data>,
        }),
{
    let s = string_of_chars(text);
    let s = s.as_str();
    match t {
        NumberType::U8 => match u8_from_str(s) {
            Some(x) => Some(Data::U8(x)),
            None => None,
        },
        NumberType::U16 => match u16_from_str(s) {
            Some(x) => Some(Data::U16(x)),
            None => None,
        },
        NumberType::U32 => match u32_from_str(s) {
            Some(x) => Some(Data::U32(x)),
            None => None,
        },
        NumberType::U64 => match u64_from_str(s) {
            Some(x) => Some(Data::U64(x)),
            None => None,
        },
        NumberType::USize => match usize_from_str(s) {
            Some(x) => Some(Data::USize(x)),
            None => None,
        },
        NumberType::I8 => match i8_from_str(s) {
            Some(x) => Some(Data::I8(x)),
            None => None,
        },
        NumberType::I16 => match i16_from_str(s) {
            Some(x) => Some(Data::I16(x)),
            None => None,
        },
        NumberType::I32 => match i32_from_str(s) {
            Some(x) => Some(Data::I32(x)),
            None => None,
        },
        NumberType::I64 => match i64_from_str(s) {
            Some(x) => Some(Data::I64(x)),
            None => None,
        },
        NumberType::ISize => match isize_from_str(s) {
            Some(x) => Some(Data::ISize(x)),
            None => None,
        },
    }
}

/// A number read from the position of `reader`, just after its first character `ch`.
fn read_number_value(heap: &mut GcAllocator, scope: Gc, reader: &mut Reader, ch: char, Ghost(h0): Ghost<Seq<Option<Object>>>) -> (r: Result<Gc, Fault>)
    requires
        read_made(h0, old(heap)@),
        old(reader).wf(),
        old(reader).index <= old(reader).chars@.len(),
    ensures
        read_made(h0, final(heap)@),
        read_made(old(heap)@, final(heap)@),
        final(reader).wf(),
        final(reader).chars == old(reader).chars,
        final(reader).filename == old(reader).filename,
        read_post(h0, scope, file_of(*old(reader)), final(heap)@, *final(reader), r, read_number(h0, scope, old(reader).chars@, old(reader).pos(), ch)),
{
    let meta = match create_meta(heap, scope, reader, Ghost(h0)) {
        Ok(m) => m,
        Err(e) => {
            return Err(e);
        },
    };
    let ghost hm = heap@;
    let dot = ch == '.';
    let mut text: Vec<char> = Vec::new();
    if dot {
        text.push('0');
        text.push(ch);
    } else if ch == '-' {
        match reader.next() {
            Some(c) => {
                text.push('-');
                text.push(c);
            },
            None => {
                text.push('0');
            },
        }
    } else {
        text.push(ch);
    }
    proof {
        let (t0, d0, p0) = number_head(old(reader).chars@, old(reader).pos(), ch);
        assert(text@ =~= t0);
    }
    let (text, dot, typ, size) = number_text(reader, text, dot);
    let t = match typ {
        Some(c) => number_type_of(c, &size),
        None => if dot {
            proof {
                reveal_strlit("64");
                reveal_strlit("8");
                reveal_strlit("16");
                reveal_strlit("32");
                assert("64"@.len() != "8"@.len());
                assert("64"@[0] != "16"@[0]);
                assert("64"@[0] != "32"@[0]);
            }
            NumberType::I64
        } else {
            proof {
                reveal_strlit("size");
                reveal_strlit("8");
                reveal_strlit("16");
                reveal_strlit("32");
                reveal_strlit("64");
                assert("size"@.len() != "8"@.len());
                assert("size"@.len() != "16"@.len());
                assert("size"@.len() != "32"@.len());
                assert("size"@.len() != "64"@.len());
            }
            NumberType::ISize
        },
    };
    let data = match parse_number(t, &text) {
        Some(d) => d,
        None => {
            return Err(Fault::InvalidNumber);
        },
    };
    let r = make(heap, scope, number_kind_str(t), data, Some(meta), Ghost(h0));
    proof {
        lemma_read_made_trans(h0, hm, heap@);
        if r is Ok {
            lemma_holds_meta_extends(h0, scope, file_of(*old(reader)), hm, heap@, Some(meta), (old(reader).line as int, old(reader).col as int));
        }
    }
    r
}


/// A value holding a form lies in the heap it holds it in.
proof fn lemma_holds_form_in(h0: Seq<Option<Object>>, scope: Gc, file: Seq<char>, h: Seq<Option<Object>>, g: Gc, f: Form)
    requires
        h0.len() <= h.len(),
        holds_form(h0, scope, file, h, g, f),
    ensures
        g.ptr < h.len(),
{
}

/// Setting a pair that holds the pair read last, into pairs built in turn from those read
/// before, builds pairs in turn from all of them.
proof fn lemma_dict_push(
    h0: Seq<Option<Object>>,
    scope: Gc,
    file: Seq<char>,
    h: Seq<Option<Object>>,
    e: Seq<(Gc, Gc)>,
    pairs: Seq<(Form, Form)>,
    k: Gc,
    v: Gc,
    kf: Form,
    vf: Form,
)
    requires
        h0.len() <= h.len(),
        dict_holds(h0, scope, file, h, e, pairs),
        holds_form(h0, scope, file, h, k, kf),
        holds_form(h0, scope, file, h, v, vf),
    ensures
        dict_holds(h0, scope, file, h, pairs_set(h, e, k, v), pairs.push((kf, vf))),
{
    let (ks, hs) = choose|ks: Seq<(Gc, Gc)>, hs: Seq<Seq<Option<Object>>>|
        #[trigger] dict_of(h, e, ks, hs) && ks.len() == pairs.len() && forall|i: int|
            0 <= i < pairs.len() ==> holds_form(h0, scope, file, h, (#[trigger] ks[i]).0, pairs[i].0) && holds_form(
                h0,
                scope,
                file,
                h,
                ks[i].1,
                pairs[i].1,
            );
    let ks2 = ks.push((k, v));
    let hs2 = hs.push(h);
    let p2 = pairs.push((kf, vf));
    lemma_holds_form_in(h0, scope, file, h, k, kf);
    lemma_holds_form_in(h0, scope, file, h, v, vf);
    assert(ks2.drop_last() =~= ks);
    lemma_set_in_turn_heaps(hs, hs2, ks);
    assert(set_in_turn(hs2, ks2) == pairs_set(h, e, k, v));
    assert forall|i: int| 0 <= i < hs2.len() implies extends(#[trigger] hs2[i], h) && ks2[i].0.ptr < hs2[i].len() && ks2[i].1.ptr
        < hs2[i].len() by {
        if i < hs.len() {
            assert(hs2[i] == hs[i]);
            assert(ks2[i] == ks[i]);
        }
    }
    assert forall|i: int, j: int| 0 <= i <= j < hs2.len() implies (#[trigger] hs2[i]).len() <= (#[trigger] hs2[j]).len() by {
        if j < hs.len() {
            assert(hs2[i] == hs[i]);
            assert(hs2[j] == hs[j]);
        } else if i < hs.len() {
            assert(hs2[i] == hs[i]);
            assert(extends(hs[i], h));
        }
    }
    assert(dict_of(h, pairs_set(h, e, k, v), ks2, hs2));
    assert forall|i: int| 0 <= i < p2.len() implies holds_form(h0, scope, file, h, (#[trigger] ks2[i]).0, p2[i].0) && holds_form(
        h0,
        scope,
        file,
        h,
        ks2[i].1,
        p2[i].1,
    ) by {
        if i < pairs.len() {
            assert(ks2[i] == ks[i]);
            assert(p2[i] == pairs[i]);
        }
    }
}

/// A string (after `"`) or a character (after `'`) read from the position of `reader`.
fn read_text_value(heap: &mut GcAllocator, scope: Gc, reader: &mut Reader, Ghost(h0): Ghost<Seq<Option<Object>>>) -> (r: Result<Gc, Fault>)
    requires
        read_made(h0, old(heap)@),
        old(reader).wf(),
        char_at(old(reader).chars@, old(reader).index as int) matches Some(c) && (c == '"' || c == '\'') && !spec_whitespace(c),
    ensures
        read_made(h0, final(heap)@),
        read_made(old(heap)@, final(heap)@),
        final(reader).wf(),
        final(reader).chars == old(reader).chars,
        final(reader).filename == old(reader).filename,
        read_post(h0, scope, file_of(*old(reader)), final(heap)@, *final(reader), r, read_form(h0, scope, old(reader).chars@, old(reader).pos())),
{
    let c = reader.chars[reader.index];
    reader.consume();
    let meta = match create_meta(heap, scope, reader, Ghost(h0)) {
        Ok(m) => m,
        Err(e) => {
            return Err(e);
        },
    };
    let ghost hm = heap@;
    let ghost at = (reader.line as int, reader.col as int);
    let v = read_until_chars(reader, c);
    let r = if c == '"' {
        make(heap, scope, "String", Data::Str(string_of_chars(&v)), Some(meta), Ghost(h0))
    } else {
        if v.len() == 0 {
            return Err(Fault::EmptyCharLiteral);
        }
        make(heap, scope, "Char", Data::Char(v[0]), Some(meta), Ghost(h0))
    };
    proof {
        lemma_read_made_trans(h0, hm, heap@);
        if r is Ok {
            lemma_holds_meta_extends(h0, scope, file_of(*old(reader)), hm, heap@, Some(meta), at);
        }
    }
    r
}

/// A keyword (after `:`) or a symbol read from the position of `reader`.
fn read_word_value(heap: &mut GcAllocator, scope: Gc, reader: &mut Reader, Ghost(h0): Ghost<Seq<Option<Object>>>) -> (r: Result<Gc, Fault>)
    requires
        read_made(h0, old(heap)@),
        old(reader).wf(),
        char_at(old(reader).chars@, old(reader).index as int) matches Some(c) && !spec_whitespace(c) && c != '(' && c != '['
            && c != '{' && c != '"' && c != '\'' && c != '`' && c != ';' && (c == ':' || !numeric_start(
            old(reader).chars@,
            old(reader).index as int,
            c,
        )),
    ensures
        read_made(h0, final(heap)@),
        read_made(old(heap)@, final(heap)@),
        final(reader).wf(),
        final(reader).chars == old(reader).chars,
        final(reader).filename == old(reader).filename,
        read_post(h0, scope, file_of(*old(reader)), final(heap)@, *final(reader), r, read_form(h0, scope, old(reader).chars@, old(reader).pos())),
{
    let c = reader.chars[reader.index];
    let keyword = c == ':';
    if keyword {
        reader.consume();
    }
    let meta = match create_meta(heap, scope, reader, Ghost(h0)) {
        Ok(m) => m,
        Err(e) => {
            return Err(e);
        },
    };
    let ghost hm = heap@;
    let ghost at = (reader.line as int, reader.col as int);
    let v = read_word_chars(reader);
    let r = if keyword {
        make(heap, scope, "Keyword", Data::Keyword(Keyword::new(string_of_chars(&v))), Some(meta), Ghost(h0))
    } else {
        make(heap, scope, "Symbol", Data::Symbol(Symbol::new(string_of_chars(&v))), Some(meta), Ghost(h0))
    };
    proof {
        lemma_read_made_trans(h0, hm, heap@);
        if r is Ok {
            lemma_holds_meta_extends(h0, scope, file_of(*old(reader)), hm, heap@, Some(meta), at);
        }
    }
    r
}


/// The form read from the position of `reader` (see `read_form`), as a value made in
/// `heap` with the kinds bound in `scope` (as they were in `h0`).
pub fn read_form_value(heap: &mut GcAllocator, scope: Gc, reader: &mut Reader, Ghost(h0): Ghost<Seq<Option<Object>>>) -> (r: Result<Gc, Fault>)
    requires
        read_made(h0, old(heap)@),
        old(reader).wf(),
    ensures
        read_made(h0, final(heap)@),
        read_made(old(heap)@, final(heap)@),
        final(reader).wf(),
        final(reader).chars == old(reader).chars,
        final(reader).filename == old(reader).filename,
        read_post(h0, scope, file_of(*old(reader)), final(heap)@, *final(reader), r, read_form(h0, scope, old(reader).chars@, old(reader).pos())),
    decreases old(reader).chars@.len() + 2 - old(reader).index, 2int,
{
    loop
        invariant
            reader.wf(),
            reader.chars == old(reader).chars,
            reader.filename == old(reader).filename,
            heap@ == old(heap)@,
            read_made(h0, heap@),
            old(reader).index <= reader.index,
            read_form(h0, scope, reader.chars@, reader.pos()) == read_form(h0, scope, old(reader).chars@, old(reader).pos()),
        decreases reader.chars@.len() + 2 - reader.index,
    {
        let c = match reader.peek() {
            Some(c) => c,
            None => {
                proof {
                    lemma_read_made_kind(h0, heap@, scope, "nil"@);
                }
                return value_named(heap, scope, "nil", Tag::Nil);
            },
        };
        if is_whitespace(c) {
            reader.consume();
        } else if c == ';' {
            proof {
                lemma_skip_comment(reader.chars@, reader.pos());
            }
            skip_comment_chars(reader);
        } else if c == '(' {
            return read_seq_value(heap, scope, reader, ')', Ghost(h0));
        } else if c == '[' {
            return read_seq_value(heap, scope, reader, ']', Ghost(h0));
        } else if c == '{' {
            return read_map_value(heap, scope, reader, Ghost(h0));
        } else if c == '"' || c == '\'' {
            return read_text_value(heap, scope, reader, Ghost(h0));
        } else if c == ':' {
            return read_word_value(heap, scope, reader, Ghost(h0));
        } else if c == '`' {
            let ghost pe = reader.pos();
            reader.consume();
            let inner = match read_form_value(heap, scope, reader, Ghost(h0)) {
                Ok(g) => g,
                Err(e) => {
                    return Err(e);
                },
            };
            let ghost hi = heap@;
            let r = make(heap, scope, "Escape", Data::Escape(Escape::new(inner)), None, Ghost(h0));
            proof {
                lemma_read_made_trans(h0, hi, heap@);
                if r is Ok {
                    let (fi, _) = read_form(h0, scope, old(reader).chars@, advance(old(reader).chars@, pe))->Ok_0;
                    lemma_holds_form_extends(h0, scope, file_of(*old(reader)), hi, heap@, inner, fi);
                }
            }
            return r;
        } else if is_numeric(reader, c) {
            reader.consume();
            return read_number_value(heap, scope, reader, c, Ghost(h0));
        } else {
            return read_word_value(heap, scope, reader, Ghost(h0));
        }
    }
}

/// A list (at `(`, with `closer` `)`) or a vector (at `[`, with `closer` `]`) read from
/// the position of `reader`.
fn read_seq_value(heap: &mut GcAllocator, scope: Gc, reader: &mut Reader, closer: char, Ghost(h0): Ghost<Seq<Option<Object>>>) -> (r: Result<Gc, Fault>)
    requires
        read_made(h0, old(heap)@),
        old(reader).wf(),
        char_at(old(reader).chars@, old(reader).index as int) matches Some(c) && !spec_whitespace(c) && ((c == '(' && closer == ')')
            || (c == '[' && closer == ']')),
    ensures
        read_made(h0, final(heap)@),
        read_made(old(heap)@, final(heap)@),
        final(reader).wf(),
        final(reader).chars == old(reader).chars,
        final(reader).filename == old(reader).filename,
        read_post(h0, scope, file_of(*old(reader)), final(heap)@, *final(reader), r, read_form(h0, scope, old(reader).chars@, old(reader).pos())),
    decreases old(reader).chars@.len() + 2 - old(reader).index, 1int,
{
    reader.consume();
    let meta = match create_meta(heap, scope, reader, Ghost(h0)) {
        Ok(m) => m,
        Err(e) => {
            return Err(e);
        },
    };
    let ghost hm = heap@;
    let ghost at = (reader.line as int, reader.col as int);
    let items = match read_items_value(heap, scope, reader, closer, Ghost(h0)) {
        Ok(v) => v,
        Err(e) => {
            return Err(e);
        },
    };
    let ghost hi = heap@;
    let ghost forms = read_items(h0, scope, old(reader).chars@, advance(old(reader).chars@, old(reader).pos()), closer, Seq::empty())->Ok_0.0;
    let r = if closer == ')' {
        make(heap, scope, "PersistentList", Data::PersistentList(PersistentList::from_vec(items)), Some(meta), Ghost(h0))
    } else {
        make(heap, scope, "PersistentVector", Data::PersistentVector(PersistentVector::from_vec(items)), Some(meta), Ghost(h0))
    };
    proof {
        lemma_read_made_trans(hm, hi, heap@);
        lemma_read_made_trans(h0, hi, heap@);
        if let Ok(g) = r {
            lemma_holds_meta_extends(h0, scope, file_of(*old(reader)), hm, heap@, Some(meta), at);
            let l = match object_in(heap@, g).value {
                Data::PersistentList(l) => l@,
                Data::PersistentVector(l) => l@,
                _ => Seq::empty(),
            };
            assert forall|i: int| 0 <= i < forms.len() implies holds_form(h0, scope, file_of(*old(reader)), heap@, #[trigger] l[i], forms[i]) by {
                lemma_holds_form_extends(h0, scope, file_of(*old(reader)), hi, heap@, l[i], forms[i]);
            }
        }
    }
    r
}

/// The items of a list or vector read from the position of `reader` up to `closer` (see
/// `read_items`).
fn read_items_value(heap: &mut GcAllocator, scope: Gc, reader: &mut Reader, closer: char, Ghost(h0): Ghost<Seq<Option<Object>>>) -> (r: Result<Vec<Gc>, Fault>)
    requires
        read_made(h0, old(heap)@),
        old(reader).wf(),
    ensures
        read_made(h0, final(heap)@),
        read_made(old(heap)@, final(heap)@),
        final(reader).wf(),
        final(reader).chars == old(reader).chars,
        final(reader).filename == old(reader).filename,
        match read_items(h0, scope, old(reader).chars@, old(reader).pos(), closer, Seq::empty()) {
            Err(e) => r == Err::<Vec<Gc>, Fault>(e),
            Ok((forms, q)) => r matches Ok(v) && final(reader).pos() == q && v@.len() == forms.len() && forall|i: int|
                0 <= i < forms.len() ==> holds_form(h0, scope, file_of(*old(reader)), final(heap)@, #[trigger] v@[i], forms[i]),
        },
    decreases old(reader).chars@.len() + 2 - old(reader).index, 3int,
{
    let mut items: Vec<Gc> = Vec::new();
    let ghost mut acc: Seq<Form> = Seq::empty();
    loop
        invariant
            reader.wf(),
            reader.chars == old(reader).chars,
            reader.filename == old(reader).filename,
            read_made(h0, heap@),
            read_made(old(heap)@, heap@),
            old(reader).index <= reader.index,
            read_items(h0, scope, reader.chars@, reader.pos(), closer, acc) == read_items(h0, scope, old(reader).chars@, old(reader).pos(), closer, Seq::empty()),
            items@.len() == acc.len(),
            forall|i: int| 0 <= i < acc.len() ==> holds_form(h0, scope, file_of(*old(reader)), heap@, #[trigger] items@[i], acc[i]),
        decreases reader.chars@.len() + 2 - reader.index,
    {
        let c = match reader.peek() {
            Some(c) => c,
            None => {
                return Ok(items);
            },
        };
        if c == closer {
            reader.consume();
            return Ok(items);
        } else if is_whitespace(c) {
            reader.consume();
        } else {
            let start = reader.index;
            let ghost p = reader.pos();
            let ghost hb = heap@;
            let g = match read_form_value(heap, scope, reader, Ghost(h0)) {
                Ok(g) => g,
                Err(e) => {
                    return Err(e);
                },
            };
            if reader.index <= start {
                return Err(Fault::UnexpectedCloser);
            }
            proof {
                let f = read_form(h0, scope, reader.chars@, p)->Ok_0.0;
                lemma_read_made_trans(old(heap)@, hb, heap@);
                assert forall|i: int| 0 <= i < acc.len() implies holds_form(h0, scope, file_of(*old(reader)), heap@, #[trigger] items@[i], acc[i]) by {
                    lemma_holds_form_extends(h0, scope, file_of(*old(reader)), hb, heap@, items@[i], acc[i]);
                }
                acc = acc.push(f);
            }
            items.push(g);
        }
    }
}

/// A map (at `{`) read from the position of `reader`.
fn read_map_value(heap: &mut GcAllocator, scope: Gc, reader: &mut Reader, Ghost(h0): Ghost<Seq<Option<Object>>>) -> (r: Result<Gc, Fault>)
    requires
        read_made(h0, old(heap)@),
        old(reader).wf(),
        char_at(old(reader).chars@, old(reader).index as int) matches Some(c) && !spec_whitespace(c) && c == '{',
    ensures
        read_made(h0, final(heap)@),
        read_made(old(heap)@, final(heap)@),
        final(reader).wf(),
        final(reader).chars == old(reader).chars,
        final(reader).filename == old(reader).filename,
        read_post(h0, scope, file_of(*old(reader)), final(heap)@, *final(reader), r, read_form(h0, scope, old(reader).chars@, old(reader).pos())),
    decreases old(reader).chars@.len() + 2 - old(reader).index, 1int,
{
    reader.consume();
    let meta = match create_meta(heap, scope, reader, Ghost(h0)) {
        Ok(m) => m,
        Err(e) => {
            return Err(e);
        },
    };
    let ghost hm = heap@;
    let ghost at = (reader.line as int, reader.col as int);
    let map = match read_entries_value(heap, scope, reader, Ghost(h0)) {
        Ok(m) => m,
        Err(e) => {
            return Err(e);
        },
    };
    let ghost hi = heap@;
    let ghost pairs = read_entries(h0, scope, old(reader).chars@, advance(old(reader).chars@, old(reader).pos()), Seq::empty())->Ok_0.0;
    let r = make(heap, scope, "PersistentMap", Data::PersistentMap(map), Some(meta), Ghost(h0));
    proof {
        lemma_read_made_trans(hm, hi, heap@);
        lemma_read_made_trans(h0, hi, heap@);
        if let Ok(g) = r {
            lemma_holds_meta_extends(h0, scope, file_of(*old(reader)), hm, heap@, Some(meta), at);
            lemma_dict_holds_extends(h0, scope, file_of(*old(reader)), hi, heap@, map@, pairs);
        }
    }
    r
}

/// The pairs of a map read from the position of `reader` up to `}` (see `read_entries`),
/// each set in turn into a persistent map.
fn read_entries_value(heap: &mut GcAllocator, scope: Gc, reader: &mut Reader, Ghost(h0): Ghost<Seq<Option<Object>>>) -> (r: Result<PersistentMap, Fault>)
    requires
        read_made(h0, old(heap)@),
        old(reader).wf(),
    ensures
        read_made(h0, final(heap)@),
        read_made(old(heap)@, final(heap)@),
        final(reader).wf(),
        final(reader).chars == old(reader).chars,
        final(reader).filename == old(reader).filename,
        match read_entries(h0, scope, old(reader).chars@, old(reader).pos(), Seq::empty()) {
            Err(e) => r is Err && r == Err::<PersistentMap, Fault>(e),
            Ok((pairs, q)) => r matches Ok(m) && final(reader).pos() == q && dict_holds(h0, scope, file_of(*old(reader)), final(heap)@, m@, pairs),
        },
    decreases old(reader).chars@.len() + 2 - old(reader).index, 3int,
{
    let mut map = PersistentMap::new();
    let ghost mut acc: Seq<(Form, Form)> = Seq::empty();
    let ghost file = file_of(*old(reader));
    assert(dict_of(heap@, map@, Seq::empty(), Seq::empty()));
    loop
        invariant
            reader.wf(),
            reader.chars == old(reader).chars,
            reader.filename == old(reader).filename,
            file == file_of(*old(reader)),
            read_made(h0, heap@),
            read_made(old(heap)@, heap@),
            old(reader).index <= reader.index,
            read_entries(h0, scope, reader.chars@, reader.pos(), acc) == read_entries(h0, scope, old(reader).chars@, old(reader).pos(), Seq::empty()),
            dict_holds(h0, scope, file, heap@, map@, acc),
        decreases reader.chars@.len() + 2 - reader.index,
    {
        let c = match reader.peek() {
            Some(c) => c,
            None => {
                return Ok(map);
            },
        };
        if c == '}' {
            reader.consume();
            return Ok(map);
        } else if is_whitespace(c) {
            reader.consume();
        } else {
            let start = reader.index;
            let ghost p = reader.pos();
            let ghost hb = heap@;
            let key = match read_form_value(heap, scope, reader, Ghost(h0)) {
                Ok(g) => g,
                Err(e) => {
                    return Err(e);
                },
            };
            if reader.index <= start {
                return Err(Fault::UnexpectedCloser);
            }
            let ghost kf = read_form(h0, scope, reader.chars@, p)->Ok_0.0;
            let ghost q = reader.pos();
            let ghost hk = heap@;
            proof {
                lemma_read_made_kind(h0, heap@, scope, "nil"@);
                lemma_read_made_trans(old(heap)@, hb, heap@);
            }
            let mut value = match value_named(heap, scope, "nil", Tag::Nil) {
                Ok(g) => g,
                Err(e) => {
                    return Err(e);
                },
            };
            let ghost mut vf = Form::Nil;
            loop
                invariant
                    reader.wf(),
                    reader.chars == old(reader).chars,
                    reader.filename == old(reader).filename,
                    file == file_of(*old(reader)),
                    read_made(h0, heap@),
                    read_made(hk, heap@),
                    read_made(old(heap)@, heap@),
                    old(reader).index <= reader.index,
                    q.0 <= reader.index,
                    match read_entry_value(h0, scope, reader.chars@, q, Form::Nil) {
                        Err(e) => read_entries(h0, scope, old(reader).chars@, old(reader).pos(), Seq::empty()) == Err::<(Seq<(Form, Form)>, Pos), Fault>(e),
                        Ok(_) => true,
                    },
                    read_entry_value(h0, scope, reader.chars@, reader.pos(), vf) == read_entry_value(h0, scope, reader.chars@, q, Form::Nil),
                    holds_form(h0, scope, file, heap@, value, vf),
                ensures
                    read_entry_value(h0, scope, reader.chars@, q, Form::Nil) == Ok::<(Form, Pos), Fault>((vf, reader.pos())),
                    reader.wf(),
                    reader.chars == old(reader).chars,
                    reader.filename == old(reader).filename,
                    read_made(h0, heap@),
                    read_made(hk, heap@),
                    q.0 <= reader.index,
                    holds_form(h0, scope, file, heap@, value, vf),
                decreases reader.chars@.len() + 2 - reader.index,
            {
                let d = match reader.peek() {
                    Some(d) => d,
                    None => {
                        break;
                    },
                };
                if d == '}' {
                    break;
                } else if is_whitespace(d) {
                    reader.consume();
                } else {
                    let start2 = reader.index;
                    let ghost p2 = reader.pos();
                    let ghost hv = heap@;
                    let g = match read_form_value(heap, scope, reader, Ghost(h0)) {
                        Ok(g) => g,
                        Err(e) => {
                            return Err(e);
                        },
                    };
                    if reader.index <= start2 {
                        return Err(Fault::UnexpectedCloser);
                    }
                    proof {
                        lemma_read_made_trans(hk, hv, heap@);
                        vf = read_form(h0, scope, reader.chars@, p2)->Ok_0.0;
                    }
                    value = g;
                }
            }
            proof {
                lemma_read_made_trans(hb, hk, heap@);
                lemma_read_made_trans(old(heap)@, hb, heap@);
                lemma_dict_holds_extends(h0, scope, file, hb, heap@, map@, acc);
                lemma_holds_form_extends(h0, scope, file, hk, heap@, key, kf);
                lemma_dict_push(h0, scope, file, heap@, map@, acc, key, value, kf, vf);
                acc = acc.push((kf, vf));
            }
            map = map.set(heap, key, value);
        }
    }
}


/// Making no object is making objects as the reader does.
pub proof fn lemma_read_made_same(h: Seq<Option<Object>>)
    ensures
        read_made(h, h),
{
}

/// Reads the next value from `reader`, making it in `heap` with the kinds bound in
/// `scope` (see `read_form` for the text and `holds_form` for the value).
pub fn read_value(heap: &mut GcAllocator, scope: Gc, reader: &mut Reader) -> (r: Result<Gc, Fault>)
    requires
        old(reader).wf(),
    ensures
        read_made(old(heap)@, final(heap)@),
        final(reader).wf(),
        final(reader).chars == old(reader).chars,
        final(reader).filename == old(reader).filename,
        read_post(old(heap)@, scope, file_of(*old(reader)), final(heap)@, *final(reader), r, read_form(old(heap)@, scope, old(reader).chars@, old(reader).pos())),
{
    proof {
        lemma_read_made_same(heap@);
    }
    read_form_value(heap, scope, reader, Ghost(heap@))
}

/// The characters of `text`.
pub fn chars_of(text: &str) -> (v: Vec<char>)
    ensures
        v@ == text@,
{
    let n = text.unicode_len();
    let mut v: Vec<char> = Vec::new();
    let mut i: usize = 0;
    while i < n
        invariant
            n == text@.len(),
            i <= n,
            v@ == text@.subrange(0, i as int),
        decreases n - i,
    {
        v.push(text.get_char(i));
        i = i + 1;
    }
    assert(v@ =~= text@);
    v
}

/// Reads the first value of `text`, from line 1, column 0, with no file name.
pub fn read(heap: &mut GcAllocator, scope: Gc, text: &str) -> (r: Result<Gc, Fault>)
    ensures
        read_made(old(heap)@, final(heap)@),
        text@.len() + 3 > usize::MAX ==> r == Err::<Gc, Fault>(Fault::Overflow),
        text@.len() + 3 <= usize::MAX ==> match read_form(old(heap)@, scope, text@, (0int, 1int, 0int)) {
            Err(e) => r == Err::<Gc, Fault>(e),
            Ok((f, _)) => r matches Ok(g) && holds_form(old(heap)@, scope, Seq::empty(), final(heap)@, g, f),
        },
{
    let chars = chars_of(text);
    if chars.len() > usize::MAX - 3 {
        proof {
            lemma_read_made_same(heap@);
        }
        return Err(Fault::Overflow);
    }
    let mut reader = Reader::new(None, chars);
    read_value(heap, scope, &mut reader)
}

/// A word is read whole: from `p`, every character up to the first closer or white space
/// (or the end of the text) is appended to `acc`, and reading stops just before that one.
pub proof fn lemma_read_word_whole(chars: Seq<char>, p: Pos, acc: Seq<char>, q: int)
    requires
        0 <= p.0 <= q <= chars.len(),
        forall|j: int| p.0 <= j < q ==> !spec_closer(#[trigger] chars[j]) && !spec_whitespace(chars[j]),
        q == chars.len() || spec_closer(chars[q]) || spec_whitespace(chars[q]),
    ensures
        read_word(chars, p, acc).0 == acc + chars.subrange(p.0, q),
        read_word(chars, p, acc).1.0 == q,
    decreases q - p.0,
{
    if p.0 < q {
        lemma_read_word_whole(chars, advance(chars, p), acc.push(chars[p.0]), q);
        assert(acc.push(chars[p.0]) + chars.subrange(p.0 + 1, q) =~= acc + chars.subrange(p.0, q));
    } else {
        assert(acc + chars.subrange(p.0, q) =~= acc);
    }
}

/// A text that is one word, starting no other form (no bracket, quote, colon, backquote,
/// semicolon or number), is read as the symbol named by the whole word, at line 1,
/// column 0, and reading ends at the end of the text.
pub proof fn lemma_read_symbol(h: Seq<Option<Object>>, scope: Gc, w: Seq<char>)
    requires
        w.len() > 0,
        forall|j: int| 0 <= j < w.len() ==> !spec_closer(#[trigger] w[j]) && !spec_whitespace(w[j]),
        w[0] != '(' && w[0] != '[' && w[0] != '{' && w[0] != '"' && w[0] != '\'' && w[0] != ':' && w[0] != '`'
            && w[0] != ';',
        !numeric_start(w, 0, w[0]),
        meta_fault(h, scope) is None,
        kind_result(h, scope, "Symbol"@) is Ok,
    ensures
        read_form(h, scope, w, (0int, 1int, 0int)) matches Ok((f, r)) && f == Form::Symbol((1int, 0int), w) && r.0
            == w.len(),
{
    lemma_read_word_whole(w, (0int, 1int, 0int), Seq::empty(), w.len() as int);
    assert(Seq::<char>::empty() + w.subrange(0, w.len() as int) =~= w);
}

} // verus!
