//! Text as sequences of characters: the views that the rest of the crate
//! states its contracts over, and the few string operations it needs.

use vstd::prelude::*;

verus! {

/// The views of a sequence of strings, one per string and in the same order.
pub open spec fn texts(v: Seq<String>) -> Seq<Seq<char>> {
    Seq::new(v.len(), |i: int| v[i]@)
}

/// Whether `c` is one of the letters `A` to `Z`.
pub open spec fn is_upper(c: char) -> bool {
    'A' <= c && c <= 'Z'
}

/// Whether some character of `s` is one of the letters `A` to `Z`.
pub open spec fn contains_upper(s: Seq<char>) -> bool {
    exists|i: int| 0 <= i < s.len() && is_upper(#[trigger] s[i])
}

/// The pieces of `s` between occurrences of `sep`, in order.  There is always
/// one piece more than there are separators, so the empty text has one empty
/// piece and a text that ends with `sep` has an empty last piece.
pub open spec fn split(s: Seq<char>, sep: char) -> Seq<Seq<char>>
    decreases s.len(),
{
    if s.len() == 0 {
        seq![Seq::empty()]
    } else {
        let before = split(s.drop_last(), sep);
        if s.last() == sep {
            before.push(Seq::empty())
        } else {
            before.drop_last().push(before.last().push(s.last()))
        }
    }
}

/// The pieces put together again with `sep` between neighbours.
pub open spec fn join(pieces: Seq<Seq<char>>, sep: char) -> Seq<char>
    decreases pieces.len(),
{
    if pieces.len() == 0 {
        Seq::empty()
    } else if pieces.len() == 1 {
        pieces[0]
    } else {
        join(pieces.drop_last(), sep).push(sep) + pieces.last()
    }
}

/// Splitting always yields at least one piece.
pub proof fn lemma_split_nonempty(s: Seq<char>, sep: char)
    ensures
        split(s, sep).len() >= 1,
    decreases s.len(),
{
    if s.len() > 0 {
        lemma_split_nonempty(s.drop_last(), sep);
    }
}

/// Splitting loses nothing and no piece holds a separator: the pieces joined
/// with `sep` are the text again.
pub proof fn lemma_split_join(s: Seq<char>, sep: char)
    ensures
        join(split(s, sep), sep) == s,
        forall|i: int, j: int|
            0 <= i < split(s, sep).len() && 0 <= j < split(s, sep)[i].len() ==> #[trigger] split(
                s,
                sep,
            )[i][j] != sep,
    decreases s.len(),
{
    if s.len() == 0 {
        assert(join(seq![Seq::<char>::empty()], sep) =~= s);
    } else {
        let head = s.drop_last();
        let before = split(head, sep);
        lemma_split_nonempty(head, sep);
        lemma_split_join(head, sep);
        if s.last() == sep {
            let now = before.push(Seq::empty());
            assert(now.drop_last() =~= before);
            assert(join(now, sep) =~= join(before, sep).push(sep));
            assert(head.push(sep) =~= s);
        } else {
            let grown = before.last().push(s.last());
            let now = before.drop_last().push(grown);
            if before.len() == 1 {
                assert(join(before, sep) == before[0]);
                assert(join(now, sep) == grown);
                assert(grown =~= s);
            } else {
                assert(now.drop_last() =~= before.drop_last());
                assert(join(now, sep) =~= join(before.drop_last(), sep).push(sep) + grown);
                assert(join(before, sep) =~= join(before.drop_last(), sep).push(sep)
                    + before.last());
                assert(join(now, sep) =~= join(before, sep).push(s.last()));
                assert(head.push(s.last()) =~= s);
            }
        }
    }
}

/// Appends one character to a string: std's `String::push`, which puts `c`
/// after the characters that the string already holds.
#[verifier::external_body]
pub(crate) fn push_char(s: &mut String, c: char)
    ensures
        final(s)@ == old(s)@.push(c),
{
    s.push(c);
}

/// Whether `s` holds one of the letters `A` to `Z`.
pub fn has_upper(s: &str) -> (r: bool)
    ensures
        r == contains_upper(s@),
{
    let mut found = false;
    for c in it: s.chars()
        invariant
            it.seq() == s@,
            found == contains_upper(s@.take(it.index() as int)),
    {
        proof {
            let n = it.index() as int;
            let longer = s@.take(n + 1);
            assert(longer[n] == c);
            if contains_upper(longer) && !is_upper(c) {
                let j = choose|j: int| 0 <= j < n + 1 && is_upper(#[trigger] longer[j]);
                assert(s@.take(n)[j] == longer[j]);
            }
            if contains_upper(s@.take(n)) {
                let j = choose|j: int| 0 <= j < n && is_upper(#[trigger] s@.take(n)[j]);
                assert(longer[j] == s@.take(n)[j]);
            }
        }
        if 'A' <= c && c <= 'Z' {
            found = true;
        }
    }
    proof {
        assert(s@.take(s@.len() as int) =~= s@);
    }
    found
}

/// The first and the last character of `s`, if it has any.
pub fn ends_of(s: &str) -> (r: Option<(char, char)>)
    ensures
        r is None <==> s@.len() == 0,
        r matches Some((first, last)) ==> first == s@.first() && last == s@.last(),
{
    let mut ends: Option<(char, char)> = None;
    for c in it: s.chars()
        invariant
            it.seq() == s@,
            ends is None <==> it.index() == 0,
            ends matches Some((first, last)) ==> first == s@[0] && last == s@[it.index() - 1],
    {
        ends = match ends {
            None => Some((c, c)),
            Some((first, _)) => Some((first, c)),
        };
    }
    ends
}

/// The pieces of `s` between occurrences of `sep`.
pub fn split_on(s: &str, sep: char) -> (pieces: Vec<String>)
    ensures
        texts(pieces@) == split(s@, sep),
{
    let mut done: Vec<String> = Vec::new();
    let mut piece = String::new();
    for c in it: s.chars()
        invariant
            it.seq() == s@,
            split(s@.take(it.index() as int), sep) == texts(done@).push(piece@),
    {
        proof {
            let n = it.index() as int;
            assert(s@.take(n + 1).drop_last() =~= s@.take(n));
            assert(s@.take(n + 1).last() == c);
            assert(texts(done@).push(piece@).drop_last() =~= texts(done@));
        }
        if c == sep {
            let ghost before = texts(done@);
            done.push(piece);
            piece = String::new();
            proof {
                assert(texts(done@) =~= before.push(done@.last()@));
            }
        } else {
            push_char(&mut piece, c);
        }
    }
    proof {
        assert(s@.take(s@.len() as int) =~= s@);
    }
    let ghost before = texts(done@);
    done.push(piece);
    proof {
        assert(texts(done@) =~= before.push(done@.last()@));
    }
    done
}

} // verus!
