//! Splitting an input line into tokens under shell-style quoting.
//!
//! The tokenizer is specified as a small automaton over the characters of the
//! line: [`scan`] folds [`step`] over the input and [`finish`] flushes what is
//! left at the end.

use vstd::prelude::*;
use vstd::std_specs::iter::IteratorSpec;
use vstd::string::StrSliceExecFns;
use vstd::string::StringExecFns;

verus! {

/// Assumed of the standard library's `String::push`, and not proved here:
/// after the call the string holds the characters it held before, followed by
/// `ch`.
pub assume_specification[ String::push ](s: &mut String, ch: char)
    ensures
        final(s)@ == old(s)@.push(ch),
;

/// The characters with the Unicode `White_Space` property.
pub open spec fn is_whitespace(c: char) -> bool {
    ||| '\u{9}' <= c <= '\u{D}'
    ||| c == ' '
    ||| c == '\u{85}'
    ||| c == '\u{A0}'
    ||| c == '\u{1680}'
    ||| '\u{2000}' <= c <= '\u{200A}'
    ||| c == '\u{2028}'
    ||| c == '\u{2029}'
    ||| c == '\u{202F}'
    ||| c == '\u{205F}'
    ||| c == '\u{3000}'
}

/// Tells whether `c` separates tokens when it stands outside quotes.
pub fn char_is_whitespace(c: char) -> (r: bool)
    ensures
        r == is_whitespace(c),
{
    ('\u{9}' <= c && c <= '\u{D}')
        || c == ' '
        || c == '\u{85}'
        || c == '\u{A0}'
        || c == '\u{1680}'
        || ('\u{2000}' <= c && c <= '\u{200A}')
        || c == '\u{2028}'
        || c == '\u{2029}'
        || c == '\u{202F}'
        || c == '\u{205F}'
        || c == '\u{3000}'
}

/// Where the scanner stands relative to quotes and escapes.
pub enum Context {
    /// Outside quotes, no escape pending.
    Plain,
    /// Outside quotes, right after a backslash.
    Escaped,
    /// Inside single quotes.
    Single,
    /// Inside double quotes.
    Double,
}

/// The tokenizer's state after some prefix of the line.
pub struct Scanner {
    /// The tokens completed so far, in input order.
    pub tokens: Seq<Seq<char>>,
    /// The token under construction.
    pub current: Seq<char>,
    /// The quoting context of the next character.
    pub context: Context,
}

impl Scanner {
    /// The state before any character has been read.
    pub open spec fn start() -> Scanner {
        Scanner { tokens: Seq::empty(), current: Seq::empty(), context: Context::Plain }
    }

    /// Appends `c` to the token under construction and moves to `context`.
    pub open spec fn take(self, c: char, context: Context) -> Scanner {
        Scanner { tokens: self.tokens, current: self.current.push(c), context }
    }

    /// Moves to `context` without consuming a character into the token.
    pub open spec fn enter(self, context: Context) -> Scanner {
        Scanner { tokens: self.tokens, current: self.current, context }
    }

    /// Completes the token under construction, if it holds any character.
    pub open spec fn flush(self) -> Scanner {
        if self.current.len() > 0 {
            Scanner {
                tokens: self.tokens.push(self.current),
                current: Seq::empty(),
                context: self.context,
            }
        } else {
            self
        }
    }
}

/// The effect of one character on the scanner.
pub open spec fn step(s: Scanner, c: char) -> Scanner {
    match s.context {
        Context::Single => if c == '\'' {
            s.enter(Context::Plain)
        } else {
            s.take(c, Context::Single)
        },
        Context::Double => if c == '"' {
            s.enter(Context::Plain)
        } else {
            s.take(c, Context::Double)
        },
        Context::Escaped => s.take(c, Context::Plain),
        Context::Plain => if c == '\\' {
            s.enter(Context::Escaped)
        } else if c == '\'' {
            s.enter(Context::Single)
        } else if c == '"' {
            s.enter(Context::Double)
        } else if is_whitespace(c) {
            s.flush()
        } else {
            s.take(c, Context::Plain)
        },
    }
}

/// The scanner after reading `input` from state `s`.
pub open spec fn scan_from(s: Scanner, input: Seq<char>) -> Scanner
    decreases input.len(),
{
    if input.len() == 0 {
        s
    } else {
        step(scan_from(s, input.drop_last()), input.last())
    }
}

/// The scanner after reading all of `input`.
pub open spec fn scan(input: Seq<char>) -> Scanner {
    scan_from(Scanner::start(), input)
}

/// The tokens of a line that ends in state `s`: a backslash that nothing
/// follows stands for itself, and an open quote is closed by the end of input.
pub open spec fn finish(s: Scanner) -> Seq<Seq<char>> {
    match s.context {
        Context::Escaped => s.take('\\', Context::Plain).flush().tokens,
        _ => s.flush().tokens,
    }
}

/// The tokens of `input`.
pub open spec fn tokens_of(input: Seq<char>) -> Seq<Seq<char>> {
    finish(scan(input))
}

/// The quoting context that the two quote flags stand for.
spec fn quote_context(in_single: bool, in_double: bool) -> Context {
    if in_single {
        Context::Single
    } else if in_double {
        Context::Double
    } else {
        Context::Plain
    }
}

/// Splits a line into tokens. Single and double quotes group characters
/// literally, a backslash outside quotes makes the next character literal, and
/// whitespace outside quotes separates tokens.
pub fn tokenize(input: &str) -> (tokens: Vec<String>)
    ensures
        tokens.deep_view() == tokens_of(input@),
{
    let mut tokens: Vec<String> = Vec::new();
    let mut current = String::new();
    let mut in_single = false;
    let mut in_double = false;
    let mut iter = input.chars();
    let ghost mut read: int = 0;
    assert(input@.take(0) =~= Seq::<char>::empty());
    assert(tokens.deep_view() =~= Seq::<Seq<char>>::empty());
    loop
        invariant_except_break
            scan(input@.take(read)) == (Scanner {
                tokens: tokens.deep_view(),
                current: current@,
                context: quote_context(in_single, in_double),
            }),
        invariant
            0 <= read <= input@.len(),
            iter.remaining() == input@.skip(read),
            !(in_single && in_double),
        ensures
            tokens_of(input@) == (Scanner {
                tokens: tokens.deep_view(),
                current: current@,
                context: Context::Plain,
            }).flush().tokens,
        decreases input@.len() - read,
    {
        let ghost before = scan(input@.take(read));
        match iter.next() {
            None => {
                assert(input@.take(read) =~= input@);
                break ;
            },
            Some(ch) => {
                proof {
                    assert(input@.take(read + 1).drop_last() =~= input@.take(read));
                    assert(scan(input@.take(read + 1)) == step(before, ch));
                    read = read + 1;
                }
                if in_single {
                    if ch == '\'' {
                        in_single = false;
                    } else {
                        current.push(ch);
                    }
                } else if in_double {
                    if ch == '"' {
                        in_double = false;
                    } else {
                        current.push(ch);
                    }
                } else if ch == '\\' {
                    match iter.next() {
                        Some(next_ch) => {
                            proof {
                                assert(input@.take(read + 1).drop_last() =~= input@.take(read));
                                read = read + 1;
                            }
                            current.push(next_ch);
                        },
                        None => {
                            assert(input@.take(read) =~= input@);
                            current.push('\\');
                            break ;
                        },
                    }
                } else if ch == '\'' {
                    in_single = true;
                } else if ch == '"' {
                    in_double = true;
                } else if char_is_whitespace(ch) {
                    if !current.as_str().is_empty() {
                        let ghost done = tokens.deep_view();
                        tokens.push(current);
                        current = String::new();
                        assert(tokens.deep_view() =~= done.push(before.current));
                    }
                } else {
                    current.push(ch);
                }
            },
        }
    }
    if !current.as_str().is_empty() {
        let ghost done = tokens.deep_view();
        let ghost last = current@;
        tokens.push(current);
        assert(tokens.deep_view() =~= done.push(last));
    }
    tokens
}

/// `s` without its leading whitespace.
pub open spec fn trim_start(s: Seq<char>) -> Seq<char>
    decreases s.len(),
{
    if s.len() > 0 && is_whitespace(s.first()) {
        trim_start(s.drop_first())
    } else {
        s
    }
}

/// `s` without its trailing whitespace.
pub open spec fn trim_end(s: Seq<char>) -> Seq<char>
    decreases s.len(),
{
    if s.len() > 0 && is_whitespace(s.last()) {
        trim_end(s.drop_last())
    } else {
        s
    }
}

/// `s` without its leading and trailing whitespace.
pub open spec fn trimmed(s: Seq<char>) -> Seq<char> {
    trim_end(trim_start(s))
}

/// Leading whitespace ends at the first character that is none.
proof fn lemma_trim_start_at(s: Seq<char>, from: int)
    requires
        0 <= from <= s.len(),
        forall|j: int| 0 <= j < from ==> is_whitespace(#[trigger] s[j]),
        from < s.len() ==> !is_whitespace(s[from]),
    ensures
        trim_start(s) == s.skip(from),
    decreases from,
{
    if from == 0 {
        assert(s.skip(0) =~= s);
    } else {
        let rest = s.drop_first();
        assert forall|j: int| 0 <= j < from - 1 implies is_whitespace(#[trigger] rest[j]) by {
            assert(rest[j] == s[j + 1]);
        }
        lemma_trim_start_at(rest, from - 1);
        assert(rest.skip(from - 1) =~= s.skip(from));
    }
}

/// Trailing whitespace begins after the last character that is none.
proof fn lemma_trim_end_at(s: Seq<char>, to: int)
    requires
        0 <= to <= s.len(),
        forall|j: int| to <= j < s.len() ==> is_whitespace(#[trigger] s[j]),
        0 < to ==> !is_whitespace(s[to - 1]),
    ensures
        trim_end(s) == s.take(to),
    decreases s.len() - to,
{
    if to == s.len() {
        assert(s.take(to) =~= s);
    } else {
        let rest = s.drop_last();
        lemma_trim_end_at(rest, to);
        assert(rest.take(to) =~= s.take(to));
    }
}

/// Removes leading and trailing whitespace.
pub fn trim<'a>(input: &'a str) -> (out: &'a str)
    ensures
        out@ == trimmed(input@),
{
    let len = input.unicode_len();
    let mut iter = input.chars();
    let mut from: usize = 0;
    let mut to: usize = 0;
    let mut read: usize = 0;
    loop
        invariant
            read <= len == input@.len(),
            iter.remaining() == input@.skip(read as int),
            from <= read,
            to <= read,
            to > 0 ==> from < to,
            forall|j: int| 0 <= j < from ==> is_whitespace(#[trigger] input@[j]),
            forall|j: int| to <= j < read ==> is_whitespace(#[trigger] input@[j]),
            to == 0 ==> from == read,
            to > 0 ==> !is_whitespace(input@[from as int]) && !is_whitespace(input@[to - 1]),
        ensures
            read == len,
        decreases len - read,
    {
        match iter.next() {
            None => {
                break ;
            },
            Some(ch) => {
                if char_is_whitespace(ch) {
                    if to == 0 {
                        from = read + 1;
                    }
                } else {
                    to = read + 1;
                }
                read = read + 1;
            },
        }
    }
    proof {
        if to == 0 {
            lemma_trim_start_at(input@, len as int);
            assert(input@.skip(len as int) =~= Seq::<char>::empty());
            assert(input@.subrange(0, 0) =~= Seq::<char>::empty());
        } else {
            lemma_trim_start_at(input@, from as int);
            lemma_trim_end_at(input@.skip(from as int), to - from);
            assert(input@.skip(from as int).take(to - from) =~= input@.subrange(
                from as int,
                to as int,
            ));
        }
    }
    if to == 0 {
        input.substring_char(0, 0)
    } else {
        input.substring_char(from, to)
    }
}

/// Tells whether two strings hold the same characters.
pub fn same_text(a: &str, b: &str) -> (r: bool)
    ensures
        r == (a@ == b@),
{
    let mut left = a.chars();
    let mut right = b.chars();
    let ghost mut read: int = 0;
    loop
        invariant
            0 <= read <= a@.len(),
            read <= b@.len(),
            left.remaining() == a@.skip(read),
            right.remaining() == b@.skip(read),
            a@.take(read) == b@.take(read),
        decreases a@.len() - read,
    {
        let x = left.next();
        let y = right.next();
        match x {
            None => {
                proof {
                    if y is None {
                        assert(a@.take(read) =~= a@);
                        assert(b@.take(read) =~= b@);
                    }
                }
                return y.is_none();
            },
            Some(c) => {
                match y {
                    None => {
                        return false;
                    },
                    Some(d) => {
                        if c != d {
                            assert(a@[read] != b@[read]);
                            return false;
                        }
                        proof {
                            assert(a@.take(read + 1) =~= a@.take(read).push(c));
                            assert(b@.take(read + 1) =~= b@.take(read).push(d));
                            read = read + 1;
                        }
                    },
                }
            },
        }
    }
}

} // verus!
