//! Splitting a string into its words: the runs of characters between
//! whitespace.

use vstd::prelude::*;
use vstd::std_specs::iter::IteratorSpec;
use crate::utils::string_utils::{char_is_whitespace, is_whitespace};

verus! {

/// The length of the longest prefix of `s` that holds no whitespace.
pub open spec fn word_len(s: Seq<char>) -> nat
    decreases s.len(),
{
    if s.len() == 0 || is_whitespace(s.first()) {
        0
    } else {
        1 + word_len(s.drop_first())
    }
}

/// The words of `s`: its maximal runs of characters that are no whitespace,
/// in order.
pub open spec fn words_of(s: Seq<char>) -> Seq<Seq<char>>
    decreases s.len(),
{
    let n = word_len(s) as int;
    if s.len() == 0 {
        Seq::empty()
    } else if is_whitespace(s.first()) {
        words_of(s.drop_first())
    } else if 0 < n <= s.len() {
        seq![s.take(n)] + words_of(s.skip(n))
    } else {
        Seq::empty()
    }
}

/// The first word of `s` lies within `s`, holds no whitespace and ends at
/// whitespace or at the end of `s`.
pub proof fn lemma_word_len(s: Seq<char>)
    ensures
        word_len(s) <= s.len(),
        s.len() > 0 && !is_whitespace(s.first()) ==> word_len(s) > 0,
        forall|i: int| 0 <= i < word_len(s) ==> !is_whitespace(#[trigger] s[i]),
        word_len(s) < s.len() ==> is_whitespace(s[word_len(s) as int]),
    decreases s.len(),
{
    if s.len() > 0 && !is_whitespace(s.first()) {
        let rest = s.drop_first();
        lemma_word_len(rest);
        assert forall|i: int| 0 <= i < word_len(s) implies !is_whitespace(#[trigger] s[i]) by {
            if i > 0 {
                assert(s[i] == rest[i - 1]);
            }
        }
        if word_len(s) < s.len() {
            assert(s[word_len(s) as int] == rest[word_len(rest) as int]);
        }
    }
}

/// The characters of `s` that are no whitespace, in order.
pub open spec fn without_whitespace(s: Seq<char>) -> Seq<char> {
    s.filter(|c: char| !is_whitespace(c))
}

/// Dropping the whitespace of a string that holds none changes nothing.
proof fn lemma_without_whitespace_keeps_word(word: Seq<char>)
    requires
        forall|i: int| 0 <= i < word.len() ==> !is_whitespace(#[trigger] word[i]),
    ensures
        without_whitespace(word) == word,
    decreases word.len(),
{
    reveal(Seq::filter);
    if word.len() > 0 {
        let rest = word.drop_last();
        assert forall|i: int| 0 <= i < rest.len() implies !is_whitespace(#[trigger] rest[i]) by {
            assert(rest[i] == word[i]);
        }
        lemma_without_whitespace_keeps_word(rest);
        assert(!is_whitespace(word[word.len() - 1]));
        assert(rest.push(word.last()) =~= word);
    }
}

/// Splitting into words loses and adds no character: the words, one after
/// the other, are the line without its whitespace.
pub proof fn lemma_words_keep_characters(s: Seq<char>)
    ensures
        words_of(s).flatten() == without_whitespace(s),
    decreases s.len(),
{
    let keep = |c: char| !is_whitespace(c);
    if s.len() == 0 {
        reveal(Seq::filter);
        assert(words_of(s).flatten() =~= s);
    } else if is_whitespace(s.first()) {
        let head = seq![s.first()];
        let rest = s.drop_first();
        assert(s =~= head + rest);
        Seq::filter_distributes_over_add(head, rest, keep);
        assert(head.filter(keep) =~= Seq::<char>::empty()) by {
            reveal_with_fuel(Seq::filter, 2);
            assert(head.drop_last() =~= Seq::<char>::empty());
        }
        lemma_words_keep_characters(rest);
        assert(head.filter(keep) + rest.filter(keep) =~= rest.filter(keep));
    } else {
        lemma_word_len(s);
        let n = word_len(s) as int;
        let word = s.take(n);
        let rest = s.skip(n);
        assert(s =~= word + rest);
        Seq::filter_distributes_over_add(word, rest, keep);
        assert forall|i: int| 0 <= i < word.len() implies !is_whitespace(#[trigger] word[i]) by {
            assert(word[i] == s[i]);
        }
        lemma_without_whitespace_keeps_word(word);
        lemma_words_keep_characters(rest);
        let words = seq![word] + words_of(rest);
        assert(words.first() == word);
        assert(words.drop_first() =~= words_of(rest));
    }
}

/// Tells whether `s` holds no whitespace.
pub open spec fn no_whitespace(s: Seq<char>) -> bool {
    forall|i: int| 0 <= i < s.len() ==> !is_whitespace(#[trigger] s[i])
}

/// A string that begins with a word, followed by whitespace or by nothing,
/// has that word as its first and the words of the rest after it.
pub proof fn lemma_words_after_word(word: Seq<char>, rest: Seq<char>)
    requires
        word.len() > 0,
        no_whitespace(word),
        rest.len() > 0 ==> is_whitespace(rest.first()),
    ensures
        word_len(word + rest) == word.len(),
        words_of(word + rest) == seq![word] + words_of(rest),
    decreases word.len(),
{
    let whole = word + rest;
    assert(whole.first() == word[0]);
    assert(!is_whitespace(word[0]));
    let tail = word.drop_first();
    assert(whole.drop_first() =~= tail + rest);
    if tail.len() == 0 {
        assert(tail + rest =~= rest);
        assert(word_len(rest) == 0);
    } else {
        assert forall|i: int| 0 <= i < tail.len() implies !is_whitespace(#[trigger] tail[i]) by {
            assert(tail[i] == word[i + 1]);
        }
        lemma_words_after_word(tail, rest);
    }
    assert(word_len(whole) == word.len());
    assert(whole.take(word.len() as int) =~= word);
    assert(whole.skip(word.len() as int) =~= rest);
}

/// Splits `s` at its runs of whitespace. Leading and trailing whitespace
/// yields no word, so no word is empty and a string of whitespace has none.
pub fn words(s: &str) -> (out: Vec<String>)
    ensures
        out.deep_view() == words_of(s@),
{
    let mut out: Vec<String> = Vec::new();
    let mut current = String::new();
    let mut iter = s.chars();
    let ghost mut read: int = 0;
    assert(current@ + s@.skip(0) =~= s@);
    assert(out.deep_view() + words_of(s@) =~= words_of(s@));
    loop
        invariant
            0 <= read <= s@.len(),
            iter.remaining() == s@.skip(read),
            no_whitespace(current@),
            words_of(s@) == out.deep_view() + words_of(current@ + s@.skip(read)),
        ensures
            read == s@.len(),
        decreases s@.len() - read,
    {
        match iter.next() {
            None => {
                break ;
            },
            Some(ch) => {
                let ghost done = out.deep_view();
                let ghost word = current@;
                let ghost rest = s@.skip(read);
                let ghost tail = s@.skip(read + 1);
                proof {
                    assert(rest.first() == ch);
                    assert(rest.drop_first() =~= tail);
                    read = read + 1;
                }
                if char_is_whitespace(ch) {
                    assert(words_of(rest) == words_of(tail));
                    if !current.as_str().is_empty() {
                        proof {
                            lemma_words_after_word(word, rest);
                        }
                        out.push(current);
                        current = String::new();
                        assert(out.deep_view() =~= done.push(word));
                        assert(current@ + tail =~= tail);
                        assert(done + (seq![word] + words_of(tail)) =~= done.push(word)
                            + words_of(tail));
                    } else {
                        assert(word + rest =~= rest);
                        assert(current@ + tail =~= tail);
                    }
                } else {
                    current.push(ch);
                    assert(current@ + tail =~= word + rest);
                }
            },
        }
    }
    proof {
        assert(current@ + s@.skip(read) =~= current@);
    }
    if !current.as_str().is_empty() {
        let ghost done = out.deep_view();
        let ghost word = current@;
        proof {
            lemma_words_after_word(word, Seq::empty());
            assert(word + Seq::<char>::empty() =~= word);
            assert(words_of(Seq::<char>::empty()) =~= Seq::<Seq<char>>::empty());
        }
        out.push(current);
        assert(out.deep_view() =~= done.push(word));
        assert(done + (seq![word] + Seq::<Seq<char>>::empty()) =~= done.push(word));
    } else {
        assert(words_of(current@) =~= Seq::<Seq<char>>::empty());
        assert(out.deep_view() + Seq::<Seq<char>>::empty() =~= out.deep_view());
    }
    out
}

} // verus!
