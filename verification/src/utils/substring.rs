//! Finding one string inside another, position by position.

use vstd::prelude::*;
use vstd::std_specs::iter::IteratorSpec;
use vstd::string::StrSliceExecFns;

verus! {

/// The characters of `s`, in order.
pub fn chars_of(s: &str) -> (chars: Vec<char>)
    ensures
        chars@ == s@,
{
    let mut chars: Vec<char> = Vec::new();
    let mut iter = s.chars();
    let ghost mut read: int = 0;
    loop
        invariant
            0 <= read <= s@.len(),
            iter.remaining() == s@.skip(read),
            chars@ == s@.take(read),
        ensures
            chars@ == s@,
        decreases s@.len() - read,
    {
        match iter.next() {
            None => {
                assert(s@.take(read) =~= s@);
                break ;
            },
            Some(ch) => {
                chars.push(ch);
                proof {
                    assert(s@.take(read + 1) =~= s@.take(read).push(ch));
                    read = read + 1;
                }
            },
        }
    }
    chars
}

/// Tells whether `needle` stands in `hay` at position `at`.
pub open spec fn occurs_at(needle: Seq<char>, hay: Seq<char>, at: int) -> bool {
    0 <= at && at + needle.len() <= hay.len() && hay.subrange(at, at + needle.len()) == needle
}

/// Tells whether `needle` stands somewhere in `hay`.
pub open spec fn occurs_in(needle: Seq<char>, hay: Seq<char>) -> bool {
    exists|at: int| occurs_at(needle, hay, at)
}

/// Tells whether `needle` stands in `hay` at position `at`.
fn matches_at(needle: &Vec<char>, hay: &Vec<char>, at: usize) -> (r: bool)
    requires
        at + needle@.len() <= hay@.len(),
    ensures
        r == occurs_at(needle@, hay@, at as int),
{
    let len = hay.len();
    let mut k: usize = 0;
    while k < needle.len()
        invariant
            k <= needle@.len(),
            at + needle@.len() <= hay@.len() == len,
            forall|j: int| 0 <= j < k ==> hay@[at + j] == needle@[j],
        decreases needle@.len() - k,
    {
        if hay[at + k] != needle[k] {
            assert(hay@.subrange(at as int, at + needle@.len())[k as int] != needle@[k as int]);
            return false;
        }
        k = k + 1;
    }
    assert(hay@.subrange(at as int, at + needle@.len()) =~= needle@);
    true
}

/// Tells whether `needle` stands somewhere in `hay`.
pub fn contains(hay: &str, needle: &str) -> (r: bool)
    ensures
        r == occurs_in(needle@, hay@),
{
    let text = chars_of(hay);
    let word = chars_of(needle);
    if word.len() > text.len() {
        assert forall|at: int| !occurs_at(needle@, hay@, at) by {}
        return false;
    }
    let last = text.len() - word.len();
    let mut at: usize = 0;
    loop
        invariant
            text@ == hay@,
            word@ == needle@,
            at <= last == hay@.len() - needle@.len(),
            forall|k: int| 0 <= k < at ==> !occurs_at(needle@, hay@, k),
        decreases last - at,
    {
        if matches_at(&word, &text, at) {
            assert(occurs_at(needle@, hay@, at as int));
            return true;
        }
        if at == last {
            assert forall|k: int| !occurs_at(needle@, hay@, k) by {}
            return false;
        }
        at = at + 1;
    }
}

/// Tells whether `s` begins with `prefix`.
pub fn starts_with(s: &str, prefix: &str) -> (r: bool)
    ensures
        r == occurs_at(prefix@, s@, 0),
{
    let s = chars_of(s);
    let prefix = chars_of(prefix);
    if prefix.len() > s.len() {
        return false;
    }
    matches_at(&prefix, &s, 0)
}

/// `s` without its first `n` characters, and empty where it has no more
/// than `n`.
pub fn skip_chars<'a>(s: &'a str, n: usize) -> (rest: &'a str)
    ensures
        rest@ == if n <= s@.len() {
            s@.skip(n as int)
        } else {
            Seq::empty()
        },
{
    let len = s.unicode_len();
    if n <= len {
        s.substring_char(n, len)
    } else {
        assert(s@.subrange(0, 0) =~= Seq::<char>::empty());
        s.substring_char(0, 0)
    }
}

} // verus!
