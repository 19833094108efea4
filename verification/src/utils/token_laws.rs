//! Laws of the tokenizer: what it does to lines without quotes and escapes,
//! and how it treats runs of whitespace.

use vstd::prelude::*;
use crate::utils::separated::joined;
use crate::utils::string_utils::{
    finish,
    is_whitespace,
    scan,
    scan_from,
    step,
    tokens_of,
    Context,
    Scanner,
};
use crate::utils::words::{
    lemma_word_len,
    lemma_words_keep_characters,
    without_whitespace,
    word_len,
    words_of,
};

verus! {

/// The characters that open a quote or an escape.
pub open spec fn is_quoting(c: char) -> bool {
    c == '\'' || c == '"' || c == '\\'
}

/// Tells whether `s` holds neither a quote nor a backslash.
pub open spec fn unquoted(s: Seq<char>) -> bool {
    forall|i: int| 0 <= i < s.len() ==> !is_quoting(#[trigger] s[i])
}

/// Tells whether `s` holds whitespace only.
pub open spec fn all_whitespace(s: Seq<char>) -> bool {
    forall|i: int| 0 <= i < s.len() ==> is_whitespace(#[trigger] s[i])
}

/// Tells whether `s` holds no whitespace, quote or backslash.
pub open spec fn all_plain(s: Seq<char>) -> bool {
    forall|i: int| 0 <= i < s.len() ==> !is_whitespace(#[trigger] s[i]) && !is_quoting(s[i])
}

/// Reading one character is one step.
pub proof fn lemma_scan_one(s: Scanner, c: char)
    ensures
        scan_from(s, seq![c]) == step(s, c),
{
    assert(seq![c].drop_last() =~= Seq::<char>::empty());
    assert(scan_from(s, Seq::<char>::empty()) == s);
    assert(seq![c].last() == c);
}

/// Reading `a` and then `b` is reading `a + b`.
pub proof fn lemma_scan_from_concat(s: Scanner, a: Seq<char>, b: Seq<char>)
    ensures
        scan_from(s, a + b) == scan_from(scan_from(s, a), b),
    decreases b.len(),
{
    if b.len() == 0 {
        assert(a + b =~= a);
    } else {
        lemma_scan_from_concat(s, a, b.drop_last());
        assert((a + b).drop_last() =~= a + b.drop_last());
        assert((a + b).last() == b.last());
    }
}

/// Outside quotes, a run of one or more whitespace characters completes the
/// token under construction and does nothing else.
pub proof fn lemma_scan_whitespace(s: Scanner, run: Seq<char>)
    requires
        s.context is Plain,
        run.len() >= 1,
        all_whitespace(run),
    ensures
        scan_from(s, run) == s.flush(),
    decreases run.len(),
{
    let rest = run.drop_last();
    assert(is_whitespace(run[run.len() - 1]));
    if rest.len() == 0 {
        assert(scan_from(s, rest) == s);
    } else {
        assert forall|i: int| 0 <= i < rest.len() implies is_whitespace(#[trigger] rest[i]) by {
            assert(rest[i] == run[i]);
        }
        lemma_scan_whitespace(s, rest);
    }
}

/// Outside quotes, characters that are neither whitespace nor quote nor
/// backslash are appended to the token under construction as they stand.
pub proof fn lemma_scan_plain(s: Scanner, word: Seq<char>)
    requires
        s.context is Plain,
        all_plain(word),
    ensures
        scan_from(s, word) == (Scanner {
            tokens: s.tokens,
            current: s.current + word,
            context: Context::Plain,
        }),
    decreases word.len(),
{
    if word.len() == 0 {
        assert(s.current + word =~= s.current);
    } else {
        let rest = word.drop_last();
        assert forall|i: int| 0 <= i < rest.len() implies !is_whitespace(#[trigger] rest[i])
            && !is_quoting(rest[i]) by {
            assert(rest[i] == word[i]);
        }
        lemma_scan_plain(s, rest);
        assert(!is_whitespace(word[word.len() - 1]) && !is_quoting(word[word.len() - 1]));
        assert((s.current + rest).push(word.last()) =~= s.current + word);
    }
}

/// From a state outside quotes with no token under construction, a line
/// without quotes and backslashes adds exactly its words.
proof fn lemma_unquoted_adds_words(s: Scanner, input: Seq<char>)
    requires
        s.context is Plain,
        s.current.len() == 0,
        unquoted(input),
    ensures
        finish(scan_from(s, input)) == s.tokens + words_of(input),
    decreases input.len(),
{
    if input.len() == 0 {
        assert(s.tokens + words_of(input) =~= s.tokens);
    } else if is_whitespace(input.first()) {
        let head = seq![input.first()];
        let rest = input.drop_first();
        assert(input =~= head + rest);
        lemma_scan_from_concat(s, head, rest);
        assert(!is_quoting(input[0]));
        lemma_scan_whitespace(s, head);
        assert forall|i: int| 0 <= i < rest.len() implies !is_quoting(#[trigger] rest[i]) by {
            assert(rest[i] == input[i + 1]);
        }
        lemma_unquoted_adds_words(s, rest);
    } else {
        lemma_word_len(input);
        let n = word_len(input) as int;
        let word = input.take(n);
        let rest = input.skip(n);
        assert(input =~= word + rest);
        lemma_scan_from_concat(s, word, rest);
        assert forall|i: int| 0 <= i < word.len() implies !is_whitespace(#[trigger] word[i])
            && !is_quoting(word[i]) by {
            assert(word[i] == input[i]);
        }
        lemma_scan_plain(s, word);
        let after_word = scan_from(s, word);
        assert(s.current + word =~= word);
        if rest.len() == 0 {
            assert(words_of(rest) =~= Seq::<Seq<char>>::empty());
            assert(s.tokens.push(word) =~= s.tokens + (seq![word] + words_of(rest)));
        } else {
            let gap = seq![rest.first()];
            let tail = rest.drop_first();
            assert(rest =~= gap + tail);
            assert(rest[0] == input[n]);
            lemma_scan_from_concat(after_word, gap, tail);
            lemma_scan_whitespace(after_word, gap);
            let flushed = after_word.flush();
            assert forall|i: int| 0 <= i < tail.len() implies !is_quoting(#[trigger] tail[i]) by {
                assert(tail[i] == input[i + n + 1]);
            }
            lemma_unquoted_adds_words(flushed, tail);
            assert(words_of(rest) == words_of(tail));
            assert(s.tokens.push(word) + words_of(tail) =~= s.tokens + (seq![word] + words_of(
                rest,
            )));
        }
    }
}

/// A line that holds neither quotes nor backslashes is split at its runs of
/// whitespace and nowhere else: the tokens are the maximal runs of characters
/// that are no whitespace, as they stand and in order, and together they hold
/// the characters of the line but for its whitespace.
pub proof fn lemma_unquoted_line_splits_into_words(input: Seq<char>)
    requires
        unquoted(input),
    ensures
        tokens_of(input) == words_of(input),
        tokens_of(input).flatten() == without_whitespace(input),
{
    lemma_unquoted_adds_words(Scanner::start(), input);
    assert(Scanner::start().tokens + words_of(input) =~= words_of(input));
    lemma_words_keep_characters(input);
}

/// Tells whether each token holds at least one character and no
/// whitespace, quote or backslash.
pub open spec fn plain_tokens(tokens: Seq<Seq<char>>) -> bool {
    forall|i: int|
        0 <= i < tokens.len() ==> (#[trigger] tokens[i]).len() > 0 && all_plain(tokens[i])
}

/// After a line of plain tokens joined by single spaces, all tokens but the
/// last are complete and the last is under construction.
proof fn lemma_scan_joined(tokens: Seq<Seq<char>>)
    requires
        tokens.len() >= 1,
        plain_tokens(tokens),
    ensures
        scan(joined(tokens, seq![' '])) == (Scanner {
            tokens: tokens.drop_last(),
            current: tokens.last(),
            context: Context::Plain,
        }),
    decreases tokens.len(),
{
    let space = seq![' '];
    if tokens.len() == 1 {
        lemma_scan_plain(Scanner::start(), tokens[0]);
        assert(Scanner::start().current + tokens[0] =~= tokens[0]);
        assert(tokens.drop_last() =~= Seq::<Seq<char>>::empty());
    } else {
        let front = tokens.drop_last();
        assert forall|i: int| 0 <= i < front.len() implies (#[trigger] front[i]).len() > 0
            && all_plain(front[i]) by {
            assert(front[i] == tokens[i]);
        }
        lemma_scan_joined(front);
        let line = joined(front, space);
        lemma_scan_from_concat(Scanner::start(), line + space, tokens.last());
        lemma_scan_from_concat(Scanner::start(), line, space);
        let at_gap = scan(line);
        lemma_scan_whitespace(at_gap, space);
        assert(front.last().len() > 0);
        assert(front.drop_last().push(front.last()) =~= front);
        lemma_scan_plain(at_gap.flush(), tokens.last());
        assert(Seq::<char>::empty() + tokens.last() =~= tokens.last());
    }
}

/// Tokens that hold no whitespace, quote or backslash, and at least one
/// character each, survive being joined by single spaces and tokenized again.
pub proof fn lemma_join_round_trip(tokens: Seq<Seq<char>>)
    requires
        plain_tokens(tokens),
    ensures
        tokens_of(joined(tokens, seq![' '])) == tokens,
{
    if tokens.len() == 0 {
        assert(tokens =~= Seq::<Seq<char>>::empty());
    } else {
        lemma_scan_joined(tokens);
        assert(tokens.last().len() > 0);
        assert(tokens.drop_last().push(tokens.last()) =~= tokens);
    }
}

/// Between tokens, a run of one or more whitespace characters does what a
/// single space does: whatever stands before the run, where it leaves the
/// scanner outside quotes and escapes, and whatever follows it.
pub proof fn lemma_whitespace_run_collapses(before: Seq<char>, run: Seq<char>, after: Seq<char>)
    requires
        scan(before).context is Plain,
        run.len() >= 1,
        all_whitespace(run),
    ensures
        tokens_of(before + run + after) == tokens_of(before + seq![' '] + after),
{
    let space = seq![' '];
    lemma_scan_from_concat(Scanner::start(), before + run, after);
    lemma_scan_from_concat(Scanner::start(), before, run);
    lemma_scan_from_concat(Scanner::start(), before + space, after);
    lemma_scan_from_concat(Scanner::start(), before, space);
    lemma_scan_whitespace(scan(before), run);
    lemma_scan_whitespace(scan(before), space);
}

/// A word without whitespace, quotes and backslashes is one token.
pub proof fn lemma_plain_word_is_one_token(word: Seq<char>)
    requires
        word.len() > 0,
        all_plain(word),
    ensures
        tokens_of(word) == seq![word],
{
    lemma_scan_plain(Scanner::start(), word);
    assert(Scanner::start().current + word =~= word);
    assert(Seq::<Seq<char>>::empty().push(word) =~= seq![word]);
}

/// The context inside the quotes that `quote` opens.
pub open spec fn quoted_by(quote: char) -> Context {
    if quote == '\'' {
        Context::Single
    } else {
        Context::Double
    }
}

/// Tells whether `quote` is one of the two quote characters and `content`
/// does not hold it.
pub open spec fn quotable(quote: char, content: Seq<char>) -> bool {
    &&& quote == '\'' || quote == '"'
    &&& forall|i: int| 0 <= i < content.len() ==> #[trigger] content[i] != quote
}

/// Inside quotes, every character but the closing quote is appended to the
/// token under construction as it stands.
proof fn lemma_scan_inside_quotes(s: Scanner, quote: char, content: Seq<char>)
    requires
        quotable(quote, content),
        s.context == quoted_by(quote),
    ensures
        scan_from(s, content) == (Scanner {
            tokens: s.tokens,
            current: s.current + content,
            context: s.context,
        }),
    decreases content.len(),
{
    if content.len() == 0 {
        assert(s.current + content =~= s.current);
    } else {
        let rest = content.drop_last();
        assert forall|i: int| 0 <= i < rest.len() implies #[trigger] rest[i] != quote by {
            assert(rest[i] == content[i]);
        }
        lemma_scan_inside_quotes(s, quote, rest);
        assert(content[content.len() - 1] != quote);
        assert((s.current + rest).push(content.last()) =~= s.current + content);
    }
}

/// Quoted content is literal: between a pair of single or of double quotes,
/// whitespace, backslashes and the other quote character are appended to the
/// token under construction as they stand. The quotes themselves add nothing
/// and end no token, so what stands right before and right after them belongs
/// to the same token.
pub proof fn lemma_quoted_is_literal(s: Scanner, quote: char, content: Seq<char>)
    requires
        s.context is Plain,
        quotable(quote, content),
    ensures
        scan_from(s, seq![quote] + content + seq![quote]) == (Scanner {
            tokens: s.tokens,
            current: s.current + content,
            context: Context::Plain,
        }),
{
    let open = seq![quote];
    lemma_scan_from_concat(s, open + content, open);
    lemma_scan_from_concat(s, open, content);
    lemma_scan_one(s, quote);
    let inside = scan_from(s, open);
    lemma_scan_inside_quotes(inside, quote, content);
    lemma_scan_one(scan_from(inside, content), quote);
}

/// Outside quotes, a backslash makes the next character literal, whatever it
/// is, and is not itself part of the token.
pub proof fn lemma_escaped_is_literal(s: Scanner, c: char)
    requires
        s.context is Plain,
    ensures
        scan_from(s, seq!['\\', c]) == s.take(c, Context::Plain),
{
    assert(seq!['\\', c] =~= seq!['\\'] + seq![c]);
    lemma_scan_from_concat(s, seq!['\\'], seq![c]);
    lemma_scan_one(s, '\\');
    lemma_scan_one(step(s, '\\'), c);
}

/// A quoted segment with unquoted text right before and right after it makes
/// one token with them.
pub proof fn lemma_adjacent_segments_concatenate(
    before: Seq<char>,
    quote: char,
    content: Seq<char>,
    after: Seq<char>,
)
    requires
        all_plain(before),
        all_plain(after),
        quotable(quote, content),
        before.len() + content.len() + after.len() > 0,
    ensures
        tokens_of(before + seq![quote] + content + seq![quote] + after) == seq![
            before + content + after,
        ],
{
    let start = Scanner::start();
    let quoted = seq![quote] + content + seq![quote];
    assert(before + seq![quote] + content + seq![quote] + after =~= before + quoted + after);
    lemma_scan_from_concat(start, before + quoted, after);
    lemma_scan_from_concat(start, before, quoted);
    lemma_scan_plain(start, before);
    lemma_quoted_is_literal(scan_from(start, before), quote, content);
    lemma_scan_plain(scan_from(start, before + quoted), after);
    assert(start.current + before + content + after =~= before + content + after);
    assert(Seq::<Seq<char>>::empty().push(before + content + after) =~= seq![
        before + content + after,
    ]);
}

/// Tells whether every token holds at least one character.
pub open spec fn no_empty_token(tokens: Seq<Seq<char>>) -> bool {
    forall|i: int| 0 <= i < tokens.len() ==> (#[trigger] tokens[i]).len() > 0
}

/// Reading on never completes an empty token.
proof fn lemma_scan_keeps_tokens_nonempty(s: Scanner, input: Seq<char>)
    requires
        no_empty_token(s.tokens),
    ensures
        no_empty_token(scan_from(s, input).tokens),
    decreases input.len(),
{
    if input.len() > 0 {
        lemma_scan_keeps_tokens_nonempty(s, input.drop_last());
    }
}

/// No token is empty, whatever the line holds.
pub proof fn lemma_tokens_nonempty(input: Seq<char>)
    ensures
        no_empty_token(tokens_of(input)),
{
    lemma_scan_keeps_tokens_nonempty(Scanner::start(), input);
}

} // verus!
