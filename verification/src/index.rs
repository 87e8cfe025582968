//! The layout of an index: the indexed paths as lines of text, each ended by
//! a newline, in the order in which they were written.

use crate::text::{lemma_split_join, lemma_split_nonempty, push_char, split, texts};
use vstd::prelude::*;
use vstd::string::*;

verus! {

/// The line that stands for `path` in an index.
pub open spec fn line_of(path: Seq<char>) -> Seq<char> {
    path.push('\n')
}

/// The text of the index that holds `paths`, in order.
pub open spec fn encode(paths: Seq<Seq<char>>) -> Seq<char>
    decreases paths.len(),
{
    if paths.len() == 0 {
        Seq::empty()
    } else {
        encode(paths.drop_last()) + line_of(paths.last())
    }
}

/// A line as it was before its newline, without the carriage return that may
/// stand before the newline.
pub open spec fn strip_cr(piece: Seq<char>) -> Seq<char> {
    if piece.len() > 0 && piece.last() == '\r' {
        piece.drop_last()
    } else {
        piece
    }
}

/// The lines of `text` that are ended by a newline, in order.
pub open spec fn complete_lines(text: Seq<char>) -> Seq<Seq<char>> {
    let pieces = split(text, '\n');
    Seq::new((pieces.len() - 1) as nat, |i: int| strip_cr(pieces[i]))
}

/// What follows the last newline of `text`.
pub open spec fn unfinished(text: Seq<char>) -> Seq<char> {
    split(text, '\n').last()
}

/// The lines of `text`: those that a newline ends and, if the text goes on
/// after its last newline, what follows it.
pub open spec fn decode(text: Seq<char>) -> Seq<Seq<char>> {
    if unfinished(text).len() == 0 {
        complete_lines(text)
    } else {
        complete_lines(text).push(unfinished(text))
    }
}

/// Whether `path` comes back unchanged from an index: it holds no newline and
/// does not end with a carriage return.
pub open spec fn fits_a_line(path: Seq<char>) -> bool {
    &&& forall|i: int| 0 <= i < path.len() ==> path[i] != '\n'
    &&& path.len() > 0 ==> path.last() != '\r'
}

/// A text without the separator is its own single piece.
pub proof fn lemma_split_plain(s: Seq<char>, sep: char)
    requires
        forall|i: int| 0 <= i < s.len() ==> s[i] != sep,
    ensures
        split(s, sep) == seq![s],
    decreases s.len(),
{
    if s.len() == 0 {
        assert(s =~= Seq::<char>::empty());
    } else {
        lemma_split_plain(s.drop_last(), sep);
        assert(s.drop_last().push(s.last()) =~= s);
        assert(seq![s.drop_last()].drop_last().push(s) =~= seq![s]);
    }
}

/// Reading a text in two parts gives the same lines as reading it whole: the
/// second part is read after what the first left unfinished.
pub proof fn lemma_decode_in_parts(a: Seq<char>, b: Seq<char>)
    ensures
        complete_lines(a + b) == complete_lines(a) + complete_lines(unfinished(a) + b),
        unfinished(a + b) == unfinished(unfinished(a) + b),
    decreases b.len(),
{
    let rest = unfinished(a);
    lemma_split_nonempty(a, '\n');
    if b.len() == 0 {
        assert(a + b =~= a);
        assert(rest + b =~= rest);
        lemma_split_join(a, '\n');
        lemma_split_plain(rest, '\n');
        assert(complete_lines(rest) =~= Seq::<Seq<char>>::empty());
        assert(complete_lines(a) + complete_lines(rest) =~= complete_lines(a));
    } else {
        let front = b.drop_last();
        lemma_decode_in_parts(a, front);
        lemma_split_nonempty(a + front, '\n');
        lemma_split_nonempty(rest + front, '\n');
        assert((a + b).drop_last() =~= a + front);
        assert((rest + b).drop_last() =~= rest + front);
        assert((a + b).last() == b.last());
        assert((rest + b).last() == b.last());
        let whole = split(a + front, '\n');
        let tail = split(rest + front, '\n');
        assert(whole.last() == tail.last());
        if b.last() == '\n' {
            assert(complete_lines(a + b) =~= complete_lines(a + front).push(
                strip_cr(whole.last()),
            ));
            assert(complete_lines(rest + b) =~= complete_lines(rest + front).push(
                strip_cr(tail.last()),
            ));
        } else {
            assert(complete_lines(a + b) =~= complete_lines(a + front));
            assert(complete_lines(rest + b) =~= complete_lines(rest + front));
        }
        assert(complete_lines(a + b) =~= complete_lines(a) + complete_lines(rest + b));
    }
}

/// An index of paths that fit a line splits at its newlines into these paths,
/// and nothing follows the last newline.
pub proof fn lemma_split_encode(paths: Seq<Seq<char>>)
    requires
        forall|i: int| 0 <= i < paths.len() ==> fits_a_line(#[trigger] paths[i]),
    ensures
        split(encode(paths), '\n') == paths.push(Seq::empty()),
    decreases paths.len(),
{
    if paths.len() == 0 {
        assert(seq![Seq::<char>::empty()] =~= paths.push(Seq::empty()));
    } else {
        let front = paths.drop_last();
        let last = paths.last();
        assert forall|i: int| 0 <= i < front.len() implies fits_a_line(#[trigger] front[i]) by {
            assert(front[i] == paths[i]);
        }
        lemma_split_encode(front);
        assert(fits_a_line(last));
        lemma_split_append_plain(encode(front), last, '\n');
        let text = encode(front) + last;
        assert(split(text, '\n') =~= front.push(last));
        assert(encode(paths) =~= text.push('\n'));
        assert(text.push('\n').drop_last() =~= text);
        assert(front.push(last) =~= paths);
    }
}

/// Text without the separator, put after `a`, lengthens the last piece of `a`.
pub proof fn lemma_split_append_plain(a: Seq<char>, b: Seq<char>, sep: char)
    requires
        forall|i: int| 0 <= i < b.len() ==> b[i] != sep,
    ensures
        split(a + b, sep) == split(a, sep).drop_last().push(split(a, sep).last() + b),
    decreases b.len(),
{
    lemma_split_nonempty(a, sep);
    if b.len() == 0 {
        assert(a + b =~= a);
        assert(split(a, sep).last() + b =~= split(a, sep).last());
        assert(split(a, sep).drop_last().push(split(a, sep).last()) =~= split(a, sep));
    } else {
        let front = b.drop_last();
        lemma_split_append_plain(a, front, sep);
        assert((a + b).drop_last() =~= a + front);
        assert((a + b).last() == b.last());
        let pieces = split(a, sep);
        let before = split(a + front, sep);
        assert(before.drop_last() =~= pieces.drop_last());
        assert(before.last().push(b.last()) =~= pieces.last() + b);
    }
}

/// Round trip: the lines of an index are the paths that it was made of, each
/// once and in the order written, provided that every path fits a line.
pub proof fn lemma_decode_encode(paths: Seq<Seq<char>>)
    requires
        forall|i: int| 0 <= i < paths.len() ==> fits_a_line(#[trigger] paths[i]),
    ensures
        decode(encode(paths)) == paths,
{
    lemma_split_encode(paths);
    let pieces = split(encode(paths), '\n');
    assert(pieces.last() == Seq::<char>::empty());
    assert forall|i: int| 0 <= i < paths.len() implies strip_cr(pieces[i]) == paths[i] by {
        assert(fits_a_line(paths[i]));
    }
    assert(complete_lines(encode(paths)) =~= paths);
}

/// An index ends where its last line ends: nothing follows the last newline.
pub proof fn lemma_encode_ends_lines(paths: Seq<Seq<char>>)
    ensures
        unfinished(encode(paths)) == Seq::<char>::empty(),
        decode(encode(paths)) == complete_lines(encode(paths)),
    decreases paths.len(),
{
    if paths.len() > 0 {
        let front = encode(paths.drop_last());
        let line = line_of(paths.last());
        lemma_split_nonempty(front, '\n');
        lemma_split_nonempty(paths.last(), '\n');
        assert(line.drop_last() =~= paths.last());
        assert((front + line).drop_last() =~= front + paths.last());
        lemma_split_nonempty(front + paths.last(), '\n');
    }
}

/// Each path adds its own lines to the lines of an index, after those of the
/// paths before it.
pub proof fn lemma_decode_encode_push(front: Seq<Seq<char>>, path: Seq<char>)
    ensures
        decode(encode(front.push(path))) == decode(encode(front)) + decode(line_of(path)),
{
    let paths = front.push(path);
    assert(paths.drop_last() =~= front);
    lemma_encode_ends_lines(front);
    lemma_encode_ends_lines(paths);
    lemma_decode_in_parts(encode(front), line_of(path));
    assert(Seq::<char>::empty() + line_of(path) =~= line_of(path));
    assert(encode(seq![path]) =~= line_of(path)) by {
        reveal_with_fuel(encode, 2);
    }
    lemma_encode_ends_lines(seq![path]);
}

/// A line is in an index exactly when it is among the lines that one of the
/// indexed paths gives: which lines an index has does not depend on the order
/// of its paths.
pub proof fn lemma_lines_of_index(paths: Seq<Seq<char>>, line: Seq<char>)
    ensures
        decode(encode(paths)).contains(line) <==> exists|i: int|
            0 <= i < paths.len() && decode(line_of(#[trigger] paths[i])).contains(line),
    decreases paths.len(),
{
    if paths.len() == 0 {
        assert(decode(encode(paths)) =~= Seq::<Seq<char>>::empty()) by {
            lemma_encode_ends_lines(paths);
        }
    } else {
        let front = paths.drop_last();
        let last = paths.last();
        assert(front.push(last) =~= paths);
        lemma_decode_encode_push(front, last);
        lemma_lines_of_index(front, line);
        let whole = decode(encode(paths));
        let head = decode(encode(front));
        let tail = decode(line_of(last));
        if whole.contains(line) {
            let k = choose|k: int| 0 <= k < whole.len() && whole[k] == line;
            if k < head.len() {
                assert(head[k] == line);
                let i = choose|i: int|
                    0 <= i < front.len() && decode(line_of(#[trigger] front[i])).contains(line);
                assert(paths[i] == front[i]);
            } else {
                assert(tail[k - head.len()] == line);
                assert(decode(line_of(paths[paths.len() - 1])).contains(line));
            }
        }
        if exists|i: int|
            0 <= i < paths.len() && decode(line_of(#[trigger] paths[i])).contains(line) {
            let i = choose|i: int|
                0 <= i < paths.len() && decode(line_of(#[trigger] paths[i])).contains(line);
            if i < front.len() {
                assert(front[i] == paths[i]);
                let k = choose|k: int| 0 <= k < head.len() && head[k] == line;
                assert(whole[k] == line);
            } else {
                let k = choose|k: int| 0 <= k < tail.len() && tail[k] == line;
                assert(whole[head.len() + k] == line);
            }
        }
    }
}

/// The line that stands for `path` in an index.
pub fn index_line(path: &str) -> (line: String)
    ensures
        line@ == line_of(path@),
{
    let mut line = path.to_owned();
    push_char(&mut line, '\n');
    line
}

/// The text of the index that holds `paths`, in order.
pub fn encode_index(paths: &Vec<String>) -> (text: String)
    ensures
        text@ == encode(texts(paths@)),
{
    let mut text = String::new();
    let mut i: usize = 0;
    while i < paths.len()
        invariant
            0 <= i <= paths@.len(),
            text@ == encode(texts(paths@).take(i as int)),
        decreases paths@.len() - i,
    {
        proof {
            let upto = texts(paths@).take(i + 1);
            assert(upto.drop_last() =~= texts(paths@).take(i as int));
            assert(upto.last() == paths@[i as int]@);
        }
        text.append(paths[i].as_str());
        push_char(&mut text, '\n');
        i += 1;
        assert(text@ =~= encode(texts(paths@).take(i as int)));
    }
    proof {
        assert(texts(paths@).take(paths@.len() as int) =~= texts(paths@));
    }
    text
}

/// Reads an index piece by piece and hands out its lines as they are
/// completed.  Between two pieces it keeps what followed the last newline.
pub struct LineReader {
    partial: String,
    held_cr: bool,
}

impl LineReader {
    #[verifier::type_invariant]
    spec fn well_formed(self) -> bool {
        &&& forall|i: int| 0 <= i < self.partial@.len() ==> self.partial@[i] != '\n'
        &&& !self.held_cr ==> self.partial@.len() == 0 || self.partial@.last() != '\r'
    }

    /// What was read since the last newline.
    pub closed spec fn pending(self) -> Seq<char> {
        if self.held_cr {
            self.partial@.push('\r')
        } else {
            self.partial@
        }
    }

    /// A reader that has read nothing.
    pub fn new() -> (r: LineReader)
        ensures
            r.pending() == Seq::<char>::empty(),
    {
        LineReader { partial: String::new(), held_cr: false }
    }

    /// Reads `chunk` and returns the lines that it completes.
    pub fn feed(&mut self, chunk: &str) -> (lines: Vec<String>)
        ensures
            texts(lines@) == complete_lines(old(self).pending() + chunk@),
            final(self).pending() == unfinished(old(self).pending() + chunk@),
    {
        proof {
            use_type_invariant(&*self);
        }
        let ghost start = self.pending();
        let mut partial = String::new();
        std::mem::swap(&mut self.partial, &mut partial);
        let mut held_cr = self.held_cr;
        let mut lines: Vec<String> = Vec::new();
        proof {
            lemma_split_plain(start, '\n');
            assert(start + chunk@.take(0) =~= start);
            assert(texts(lines@) =~= complete_lines(start));
        }
        for c in it: chunk.chars()
            invariant
                it.seq() == chunk@,
                forall|i: int| 0 <= i < partial@.len() ==> partial@[i] != '\n',
                !held_cr ==> partial@.len() == 0 || partial@.last() != '\r',
                texts(lines@) == complete_lines(start + chunk@.take(it.index() as int)),
                unfinished(start + chunk@.take(it.index() as int)) == if held_cr {
                    partial@.push('\r')
                } else {
                    partial@
                },
        {
            let ghost n = it.index() as int;
            let ghost before = start + chunk@.take(n);
            let ghost now = start + chunk@.take(n + 1);
            let ghost had = texts(lines@);
            proof {
                lemma_split_nonempty(before, '\n');
                assert(now.drop_last() =~= before);
                assert(now.last() == c);
            }
            if c == '\n' {
                let mut line = String::new();
                std::mem::swap(&mut partial, &mut line);
                held_cr = false;
                lines.push(line);
                proof {
                    assert(line@.push('\r').drop_last() =~= line@);
                    assert(strip_cr(unfinished(before)) == line@);
                    assert(texts(lines@) =~= had.push(line@));
                    assert(complete_lines(now) =~= complete_lines(before).push(
                        strip_cr(unfinished(before)),
                    ));
                }
            } else {
                if held_cr {
                    push_char(&mut partial, '\r');
                    held_cr = false;
                }
                if c == '\r' {
                    held_cr = true;
                } else {
                    push_char(&mut partial, c);
                }
                proof {
                    assert(complete_lines(now) =~= complete_lines(before));
                }
            }
        }
        proof {
            assert(chunk@.take(chunk@.len() as int) =~= chunk@);
        }
        *self = LineReader { partial, held_cr };
        lines
    }

    /// Ends the reading.  What followed the last newline is the last line,
    /// unless nothing followed it.
    pub fn finish(self) -> (last: Option<String>)
        ensures
            last is None <==> self.pending().len() == 0,
            last matches Some(line) ==> line@ == self.pending(),
    {
        let LineReader { partial, held_cr } = self;
        let mut line = partial;
        if held_cr {
            push_char(&mut line, '\r');
        }
        if line.as_str().is_empty() {
            None
        } else {
            Some(line)
        }
    }
}

/// The lines of the index `text`.
pub fn decode_index(text: &str) -> (lines: Vec<String>)
    ensures
        texts(lines@) == decode(text@),
{
    let mut reader = LineReader::new();
    let mut lines = reader.feed(text);
    proof {
        assert(Seq::<char>::empty() + text@ =~= text@);
    }
    let ghost had = texts(lines@);
    match reader.finish() {
        None => {},
        Some(last) => {
            lines.push(last);
            proof {
                assert(texts(lines@) =~= had.push(unfinished(text@)));
            }
        },
    }
    lines
}

} // verus!
