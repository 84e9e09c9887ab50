//! Operations on text that the searches share: looking for a character,
//! splitting a list at its separator, and joining one.
//!
//! Text is modelled as `Seq<char>`, a list of texts as `Seq<Seq<char>>`.

use vstd::prelude::*;

verus! {

/// The pieces of `s` between the occurrences of `sep`, in order.
///
/// A text without `sep` is a single piece, so the empty text has one empty
/// piece. Each occurrence of `sep` closes one piece and opens the next; two
/// separators in a row, or one at either end, give an empty piece.
pub open spec fn split(s: Seq<char>, sep: char) -> Seq<Seq<char>>
    decreases s.len(),
{
    if s.len() == 0 {
        seq![Seq::<char>::empty()]
    } else {
        let before = split(s.drop_last(), sep);
        if s.last() == sep {
            before.push(Seq::<char>::empty())
        } else {
            before.drop_last().push(before.last().push(s.last()))
        }
    }
}

/// The texts of `parts` in order, with `sep` between neighbours.
pub open spec fn join(parts: Seq<Seq<char>>, sep: Seq<char>) -> Seq<char>
    decreases parts.len(),
{
    if parts.len() == 0 {
        Seq::<char>::empty()
    } else if parts.len() == 1 {
        parts[0]
    } else {
        join(parts.drop_last(), sep) + sep + parts.last()
    }
}

/// How often `c` occurs in `s`.
pub open spec fn count(s: Seq<char>, c: char) -> nat
    decreases s.len(),
{
    if s.len() == 0 {
        0
    } else {
        count(s.drop_last(), c) + if s.last() == c {
            1nat
        } else {
            0nat
        }
    }
}

/// Splitting yields one piece more than there are separators.
pub proof fn lemma_split_len(s: Seq<char>, sep: char)
    ensures
        split(s, sep).len() == count(s, sep) + 1,
    decreases s.len(),
{
    if s.len() > 0 {
        lemma_split_len(s.drop_last(), sep);
    }
}

/// No piece of a split holds the separator.
pub proof fn lemma_split_pieces_lack_separator(s: Seq<char>, sep: char)
    ensures
        forall|k: int|
            0 <= k < split(s, sep).len() ==> !(#[trigger] split(s, sep)[k]).contains(sep),
    decreases s.len(),
{
    if s.len() > 0 {
        let before = split(s.drop_last(), sep);
        lemma_split_len(s.drop_last(), sep);
        lemma_split_pieces_lack_separator(s.drop_last(), sep);
        assert forall|k: int| 0 <= k < split(s, sep).len() implies !(#[trigger] split(
            s,
            sep,
        )[k]).contains(sep) by {
            let piece = split(s, sep)[k];
            if s.last() != sep && k == before.len() - 1 {
                // The open piece grew by a character that is not the separator.
                assert(piece == before.last().push(s.last()));
                if piece.contains(sep) {
                    let i = choose|i: int| 0 <= i < piece.len() && piece[i] == sep;
                    assert(before.last()[i] == sep);
                }
            } else if k < before.len() {
                assert(piece == before[k]);
            }
        }
    }
}

/// Joining the pieces of a split with the separator gives the text back.
pub proof fn lemma_join_split(s: Seq<char>, sep: char)
    ensures
        join(split(s, sep), seq![sep]) == s,
    decreases s.len(),
{
    if s.len() > 0 {
        let by = seq![sep];
        let before = split(s.drop_last(), sep);
        let pieces = split(s, sep);
        lemma_split_len(s.drop_last(), sep);
        lemma_join_split(s.drop_last(), sep);
        assert(s.drop_last().push(s.last()) == s);
        if s.last() == sep {
            // A separator closes the open piece and opens an empty one.
            assert(pieces.drop_last() == before);
            assert(join(pieces, by) == join(before, by) + by + Seq::<char>::empty());
        } else if before.len() > 1 {
            // Any other character is added to the open piece.
            let head = join(before.drop_last(), by) + by;
            assert(pieces.drop_last() == before.drop_last());
            assert(join(before, by) == head + before.last());
            assert(join(pieces, by) == head + before.last().push(s.last()));
        }
    }
}

/// Whether `c` occurs in `s`.
pub fn contains_char(s: &str, c: char) -> (found: bool)
    ensures
        found == s@.contains(c),
{
    let mut found = false;
    for x in it: s.chars()
        invariant
            it.seq() == s@,
            found == (exists|j: int| 0 <= j < it.index() && s@[j] == c),
    {
        if x == c {
            found = true;
        }
    }
    found
}

/// Whether `s` is not empty and its last character is `c`.
pub fn ends_with_char(s: &str, c: char) -> (ends: bool)
    ensures
        ends == (s@.len() > 0 && s@.last() == c),
{
    let mut ends = false;
    for x in it: s.chars()
        invariant
            it.seq() == s@,
            ends == (it.index() > 0 && s@[it.index() - 1] == c),
    {
        ends = x == c;
    }
    ends
}

/// The pieces of `s` between the occurrences of `sep`, as owned strings.
pub fn split_at_char(s: &str, sep: char) -> (pieces: Vec<String>)
    ensures
        pieces.deep_view() == split(s@, sep),
{
    let n: usize = s.unicode_len();
    let mut pieces: Vec<String> = Vec::new();
    let mut start: usize = 0;
    let mut i: usize = 0;
    assert(s@.take(0) == Seq::<char>::empty());
    assert(split(s@.take(0), sep) == seq![s@.subrange(0, 0)]);
    for c in it: s.chars()
        invariant
            it.seq() == s@,
            n == s@.len(),
            i == it.index(),
            start <= i,
            split(s@.take(i as int), sep) == pieces.deep_view().push(
                s@.subrange(start as int, i as int),
            ),
    {
        let ghost done = pieces.deep_view();
        let ghost open = s@.subrange(start as int, i as int);
        proof {
            assert(s@.take(i + 1).drop_last() == s@.take(i as int));
            assert(done.push(open).drop_last() == done);
        }
        if c == sep {
            pieces.push(String::from_str(s.substring_char(start, i)));
            start = i + 1;
            proof {
                assert(pieces.deep_view() == done.push(open));
                assert(s@.subrange(i + 1, i + 1) == Seq::<char>::empty());
            }
        } else {
            assert(s@.subrange(start as int, i + 1) == open.push(c));
        }
        i += 1;
    }
    pieces.push(String::from_str(s.substring_char(start, i)));
    proof {
        assert(s@.take(n as int) == s@);
    }
    pieces
}

/// The texts of `parts` in order, with `sep` between neighbours.
pub fn join_with(parts: &[&str], sep: &str) -> (joined: String)
    ensures
        joined@ == join(parts.deep_view(), sep@),
{
    let mut joined = String::new();
    let mut i: usize = 0;
    while i < parts.len()
        invariant
            i <= parts.len(),
            joined@ == join(parts.deep_view().take(i as int), sep@),
        decreases parts.len() - i,
    {
        let ghost upto = parts.deep_view().take(i + 1);
        proof {
            assert(upto.drop_last() == parts.deep_view().take(i as int));
        }
        if i > 0 {
            joined.append(sep);
        }
        joined.append(parts[i]);
        i += 1;
    }
    assert(parts.deep_view().take(parts.len() as int) == parts.deep_view());
    joined
}

} // verus!
