//! What holds between building an index and querying it.

use crate::config::Config;
use crate::index::{decode, encode, fits_a_line, lemma_decode_encode};
use crate::query::{accepts, passes, passing, PatternView};
use crate::update::{indexed, indexed_paths, WalkEvent};
use vstd::prelude::*;

verus! {

/// Where every event adds a path, the index holds the paths of all events.
proof fn lemma_all_indexed(config: Config, events: Seq<WalkEvent>)
    requires
        forall|j: int| 0 <= j < events.len() ==> indexed(config, #[trigger] events[j]) is Some,
    ensures
        indexed_paths(config, events) == Seq::new(
            events.len(),
            |j: int| indexed(config, events[j])->0,
        ),
    decreases events.len(),
{
    if events.len() > 0 {
        let front = events.drop_last();
        assert forall|j: int| 0 <= j < front.len() implies indexed(config, #[trigger] front[j])
            is Some by {
            assert(front[j] == events[j]);
        }
        lemma_all_indexed(config, front);
        assert(indexed(config, events[events.len() - 1]) is Some);
    }
    assert(indexed_paths(config, events) =~= Seq::new(
        events.len(),
        |j: int| indexed(config, events[j])->0,
    ));
}

/// A filter that every element passes leaves a sequence as it is.
proof fn lemma_filter_keeps_all(lines: Seq<Seq<char>>, wanted: spec_fn(Seq<char>) -> bool)
    requires
        forall|i: int| 0 <= i < lines.len() ==> wanted(#[trigger] lines[i]),
    ensures
        lines.filter(wanted) == lines,
    decreases lines.len(),
{
    reveal(Seq::filter);
    if lines.len() > 0 {
        let front = lines.drop_last();
        assert forall|i: int| 0 <= i < front.len() implies wanted(#[trigger] front[i]) by {
            assert(front[i] == lines[i]);
        }
        lemma_filter_keeps_all(front, wanted);
        assert(wanted(lines[lines.len() - 1]));
        assert(front.push(lines.last()) =~= lines);
    }
}

/// Round trip: build an index from entries that the policies all let in, then
/// query it with patterns that match every one of their paths and with no
/// type.  The answer holds the path of every entry, each once, in the order
/// in which the entries were reported.  This is stated for paths that fit a
/// line; a path with a newline in it comes back as two lines.
pub proof fn lemma_round_trip(config: Config, events: Seq<WalkEvent>, patterns: Seq<PatternView>)
    requires
        forall|j: int| 0 <= j < events.len() ==> indexed(config, #[trigger] events[j]) is Some,
        forall|j: int|
            0 <= j < events.len() ==> fits_a_line(indexed(config, #[trigger] events[j])->0),
        forall|j: int, k: int|
            #![trigger events[j], patterns[k]]
            0 <= j < events.len() && 0 <= k < patterns.len() ==> accepts(
                patterns[k],
                indexed(config, events[j])->0,
            ),
    ensures
        decode(encode(indexed_paths(config, events))).filter(
            passing(patterns, Seq::<PatternView>::empty()),
        ) == Seq::new(events.len(), |j: int| indexed(config, events[j])->0),
{
    let paths = indexed_paths(config, events);
    lemma_all_indexed(config, events);
    assert forall|i: int| 0 <= i < paths.len() implies fits_a_line(#[trigger] paths[i]) by {
        assert(fits_a_line(indexed(config, events[i])->0));
    }
    lemma_decode_encode(paths);
    let wanted = passing(patterns, Seq::<PatternView>::empty());
    assert forall|i: int| 0 <= i < paths.len() implies wanted(#[trigger] paths[i]) by {
        assert(paths[i] == indexed(config, events[i])->0);
        assert forall|k: int| 0 <= k < patterns.len() implies accepts(
            #[trigger] patterns[k],
            paths[i],
        ) by {
            assert(accepts(patterns[k], indexed(config, events[i])->0));
        }
        assert(passes(patterns, Seq::<PatternView>::empty(), paths[i]));
    }
    lemma_filter_keeps_all(paths, wanted);
}

/// Type filter: where a query names types, every line of its answer matches
/// the expression of one of them, whatever the patterns of the query are.
pub proof fn lemma_type_filter(
    lines: Seq<Seq<char>>,
    patterns: Seq<PatternView>,
    types: Seq<PatternView>,
    i: int,
)
    requires
        types.len() > 0,
        0 <= i < lines.filter(passing(patterns, types)).len(),
    ensures
        exists|k: int|
            0 <= k < types.len() && accepts(
                #[trigger] types[k],
                lines.filter(passing(patterns, types))[i],
            ),
{
    let wanted = passing(patterns, types);
    lines.lemma_filter_pred(wanted, i);
    assert(passes(patterns, types, lines.filter(wanted)[i]));
}

/// A query returns lines of the index only, and every line that it returns
/// passes it.
pub proof fn lemma_answer_is_sound(
    lines: Seq<Seq<char>>,
    patterns: Seq<PatternView>,
    types: Seq<PatternView>,
    i: int,
)
    requires
        0 <= i < lines.filter(passing(patterns, types)).len(),
    ensures
        lines.contains(lines.filter(passing(patterns, types))[i]),
        passes(patterns, types, lines.filter(passing(patterns, types))[i]),
{
    let wanted = passing(patterns, types);
    lines.lemma_filter_pred(wanted, i);
    lemma_filter_from(lines, wanted, i);
}

/// Every element of a filtered sequence is an element of the sequence.
proof fn lemma_filter_from(lines: Seq<Seq<char>>, wanted: spec_fn(Seq<char>) -> bool, i: int)
    requires
        0 <= i < lines.filter(wanted).len(),
    ensures
        lines.contains(lines.filter(wanted)[i]),
    decreases lines.len(),
{
    reveal(Seq::filter);
    if lines.len() > 0 {
        let front = lines.drop_last();
        if i < front.filter(wanted).len() {
            lemma_filter_from(front, wanted, i);
            let k = choose|k: int| 0 <= k < front.len() && front[k] == front.filter(wanted)[i];
            assert(lines[k] == front[k]);
        } else {
            assert(lines[lines.len() - 1] == lines.filter(wanted)[i]);
        }
    }
}

} // verus!
