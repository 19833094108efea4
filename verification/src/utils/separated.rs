//! Strings put together from pieces with a separator between them, and
//! taken apart again.

use vstd::prelude::*;
use vstd::std_specs::iter::IteratorSpec;
use vstd::string::StringExecFns;

verus! {

/// The texts of `parts` with `separator` between each two neighbours.
pub open spec fn joined(parts: Seq<Seq<char>>, separator: Seq<char>) -> Seq<char>
    decreases parts.len(),
{
    if parts.len() == 0 {
        Seq::empty()
    } else if parts.len() == 1 {
        parts[0]
    } else {
        joined(parts.drop_last(), separator) + separator + parts.last()
    }
}

/// Concatenates `parts`, putting `separator` between each two neighbours.
pub fn join(parts: &[String], separator: &str) -> (out: String)
    ensures
        out@ == joined(parts.deep_view(), separator@),
{
    let mut out = String::new();
    let mut i: usize = 0;
    assert(parts.deep_view().take(0) =~= Seq::<Seq<char>>::empty());
    while i < parts.len()
        invariant
            i <= parts@.len(),
            out@ == joined(parts.deep_view().take(i as int), separator@),
        decreases parts@.len() - i,
    {
        if i > 0 {
            out.append(separator);
        }
        out.append(parts[i].as_str());
        proof {
            let done = parts.deep_view().take(i + 1);
            assert(done.drop_last() =~= parts.deep_view().take(i as int));
            assert(done.last() == parts@[i as int]@);
            if i == 0 {
                assert(out@ =~= done[0]);
            }
        }
        i = i + 1;
    }
    assert(parts.deep_view().take(i as int) =~= parts.deep_view());
    out
}

/// The pieces of `s` between occurrences of `separator`. There is always at
/// least one piece, and a piece may be empty.
pub open spec fn split_on(s: Seq<char>, separator: char) -> Seq<Seq<char>>
    decreases s.len(),
{
    if s.len() == 0 {
        seq![Seq::empty()]
    } else {
        let before = split_on(s.drop_last(), separator);
        if s.last() == separator {
            before.push(Seq::empty())
        } else {
            before.drop_last().push(before.last().push(s.last()))
        }
    }
}

/// Splitting never yields an empty list.
pub proof fn lemma_split_on_nonempty(s: Seq<char>, separator: char)
    ensures
        split_on(s, separator).len() >= 1,
    decreases s.len(),
{
    if s.len() > 0 {
        lemma_split_on_nonempty(s.drop_last(), separator);
    }
}

/// No piece holds the separator.
pub proof fn lemma_split_on_pieces(s: Seq<char>, separator: char)
    ensures
        forall|i: int, j: int|
            0 <= i < split_on(s, separator).len() && 0 <= j < split_on(s, separator)[i].len()
                ==> split_on(s, separator)[i][j] != separator,
    decreases s.len(),
{
    if s.len() > 0 {
        lemma_split_on_pieces(s.drop_last(), separator);
        lemma_split_on_nonempty(s.drop_last(), separator);
    }
}

/// The pieces, put together again with the separator between them, are the
/// string that was split.
pub proof fn lemma_split_on_rejoins(s: Seq<char>, separator: char)
    ensures
        joined(split_on(s, separator), seq![separator]) == s,
    decreases s.len(),
{
    let glue = seq![separator];
    if s.len() == 0 {
        assert(joined(seq![Seq::<char>::empty()], glue) =~= s);
    } else {
        let before = split_on(s.drop_last(), separator);
        lemma_split_on_rejoins(s.drop_last(), separator);
        lemma_split_on_nonempty(s.drop_last(), separator);
        if s.last() == separator {
            let pieces = before.push(Seq::empty());
            assert(pieces.drop_last() =~= before);
            assert(joined(pieces, glue) =~= s.drop_last() + glue);
            assert(s.drop_last() + glue =~= s);
        } else {
            let grown = before.last().push(s.last());
            let pieces = before.drop_last().push(grown);
            assert(pieces.drop_last() =~= before.drop_last());
            if before.len() == 1 {
                assert(joined(pieces, glue) =~= s.drop_last().push(s.last()));
            } else {
                assert(joined(pieces, glue) =~= (joined(before.drop_last(), glue) + glue
                    + before.last()).push(s.last()));
            }
            assert(s.drop_last().push(s.last()) =~= s);
        }
    }
}

/// Splits `s` at every occurrence of `separator`.
pub fn split(s: &str, separator: char) -> (pieces: Vec<String>)
    ensures
        pieces.deep_view() == split_on(s@, separator),
{
    let mut pieces: Vec<String> = Vec::new();
    let mut current = String::new();
    let mut iter = s.chars();
    let ghost mut read: int = 0;
    assert(s@.take(0) =~= Seq::<char>::empty());
    assert(pieces.deep_view().push(current@) =~= seq![Seq::<char>::empty()]);
    loop
        invariant
            0 <= read <= s@.len(),
            iter.remaining() == s@.skip(read),
            split_on(s@.take(read), separator) == pieces.deep_view().push(current@),
        ensures
            split_on(s@, separator) == pieces.deep_view().push(current@),
        decreases s@.len() - read,
    {
        match iter.next() {
            None => {
                assert(s@.take(read) =~= s@);
                break ;
            },
            Some(ch) => {
                let ghost done = pieces.deep_view();
                let ghost piece = current@;
                proof {
                    assert(s@.take(read + 1).drop_last() =~= s@.take(read));
                    assert(done.push(piece).drop_last() =~= done);
                    read = read + 1;
                }
                if ch == separator {
                    pieces.push(current);
                    current = String::new();
                    assert(pieces.deep_view() =~= done.push(piece));
                } else {
                    current.push(ch);
                }
            },
        }
    }
    let ghost done = pieces.deep_view();
    let ghost piece = current@;
    pieces.push(current);
    assert(pieces.deep_view() =~= done.push(piece));
    pieces
}

} // verus!
