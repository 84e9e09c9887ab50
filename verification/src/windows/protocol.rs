//! What a Windows search comes to when the primitive keeps to its protocol.
//!
//! The primitive is described by the lengths of the paths that it finds: one
//! for each extension of the search, zero where the name with that extension
//! gives no file. Nothing else of the host is modelled here.

use crate::windows::{
    after_lookup, after_pathext, distance, extensions, has_separator, start, State, Step,
};
use vstd::prelude::*;

verus! {

/// What the primitive returns where the path that it finds has `length` code
/// units, and the buffer that it is given has `buffer_len`: zero where there
/// is no file; the length of the path where the path and its terminating zero
/// fit the buffer; else the length that the buffer needs, the zero included.
pub open spec fn reply(length: u32, buffer_len: u32) -> u32
    recommends
        length < u32::MAX,
{
    if length == 0 {
        0
    } else if length < buffer_len {
        length
    } else {
        (length + 1) as u32
    }
}

/// How a search in `state` ends when the primitive finds, for the name with
/// `extensions[i]`, a path of `lengths[i]` code units.
pub open spec fn outcome(state: State, lengths: Seq<u32>) -> Step
    decreases distance(state).0, distance(state).1,
{
    match state {
        State::Lookup { index, buffer_len, .. } => if state.wf() && index < lengths.len()
            && lengths[index] < u32::MAX {
            outcome(after_lookup(state, reply(lengths[index], buffer_len)), lengths)
        } else {
            Step::NotFound
        },
        _ => state.step(),
    }
}

/// The first extension at or after `from` for which the primitive finds a
/// file.
pub open spec fn first_found(lengths: Seq<u32>, from: int) -> Option<int>
    decreases lengths.len() - from,
{
    if from < 0 || from >= lengths.len() {
        None
    } else if lengths[from] != 0 {
        Some(from)
    } else {
        first_found(lengths, from + 1)
    }
}

/// Extension order is priority order, and no path is cut short: against a
/// primitive that keeps to its protocol, the search ends with the whole path
/// of the first extension that gives a file, however long that path is and
/// however short the buffer was, and finds nothing exactly where no
/// extension gives a file.
pub proof fn lemma_first_extension_wins(state: State, lengths: Seq<u32>)
    requires
        state.wf(),
        state matches State::Lookup { extensions, .. } && lengths.len() == extensions.len(),
        forall|i: int| 0 <= i < lengths.len() ==> lengths[i] < u32::MAX,
    ensures
        outcome(state, lengths) == match first_found(lengths, state->Lookup_index) {
            Some(k) => Step::Found { length: lengths[k] },
            None => Step::NotFound,
        },
    decreases distance(state).0, distance(state).1,
{
    let index = state->Lookup_index;
    let buffer_len = state->Lookup_buffer_len;
    let next = after_lookup(state, reply(lengths[index], buffer_len));
    assert(outcome(state, lengths) == outcome(next, lengths));
    if lengths[index] == 0 {
        // No file: the next extension is tried, if there is one.
        if next is Lookup {
            lemma_first_extension_wins(next, lengths);
        } else {
            assert(first_found(lengths, index + 1) is None);
        }
    } else if lengths[index] < buffer_len {
        // The path fits: the search ends with it.
        assert(next.step() == Step::Found { length: lengths[index] });
    } else {
        // The path does not fit: the buffer grows, and the next answer fits.
        lemma_first_extension_wins(next, lengths);
    }
}

/// How the search for `name` in `paths` ends on a host whose `PATHEXT`
/// variable has the value `pathext`, and whose primitive finds a path of
/// `lengths[i]` code units for the name with the extension `i`.
pub open spec fn resolve(
    name: Seq<char>,
    paths: Seq<Seq<char>>,
    pathext: Option<Seq<char>>,
    lengths: Seq<u32>,
) -> Step {
    outcome(after_pathext(start(name, paths), pathext), lengths)
}

/// How a search ends, said without the machine: a name with a separator is
/// the result as it stands; for any other, the first extension that gives a
/// file decides, the default extensions before those of `PATHEXT`.
pub proof fn lemma_resolve(
    name: Seq<char>,
    paths: Seq<Seq<char>>,
    pathext: Option<Seq<char>>,
    lengths: Seq<u32>,
)
    requires
        lengths.len() == extensions(pathext).len(),
        forall|i: int| 0 <= i < lengths.len() ==> lengths[i] < u32::MAX,
    ensures
        resolve(name, paths, pathext, lengths) == if has_separator(name) {
            Step::Verbatim
        } else {
            match first_found(lengths, 0) {
                Some(k) => Step::Found { length: lengths[k] },
                None => Step::NotFound,
            }
        },
{
    if !has_separator(name) {
        lemma_first_extension_wins(after_pathext(start(name, paths), pathext), lengths);
    }
}

} // verus!
