//! What a POSIX search comes to on a given host, and what holds of it.
//!
//! A host is described by the value of its `PATH` variable and the status of
//! its paths. [`resolve`] is the result of a whole search on such a host;
//! the laws below are stated of it.

use crate::text::split;
use crate::unix::host::{can_execute, Host, HostView};
use crate::unix::{
    after_access, after_metadata, after_path_variable, candidate_path, has_separator,
    lemma_seek_wf, seek, start, Search, State, Step, ACCESS_DENIED,
};
use vstd::prelude::*;

verus! {

/// The directories to search: the explicit list if it has any entry, else the
/// pieces of the `PATH` variable between its colons, else nothing.
pub open spec fn search_dirs(paths: Seq<Seq<char>>, path_variable: Option<Seq<char>>) -> Seq<
    Seq<char>,
> {
    if paths.len() > 0 {
        paths
    } else {
        match path_variable {
            Some(list) => split(list, ':'),
            None => Seq::empty(),
        }
    }
}

/// The state after `host` has answered the pending question of `state`.
pub open spec fn answered(state: State, host: HostView) -> State {
    match state {
        State::ReadPathVariable { .. } => after_path_variable(state, host.path_variable),
        State::CheckAccess { .. } => after_access(state, host.status(state.path()).access),
        State::ReadMetadata { .. } => after_metadata(state, host.status(state.path()).is_file),
        State::Finished { .. } => state,
    }
}

/// The candidate of the first directory at or after `from` that is not empty
/// and whose candidate is an executable.
pub open spec fn first_match(
    name: Seq<char>,
    dirs: Seq<Seq<char>>,
    from: int,
    host: HostView,
) -> Option<Seq<char>>
    decreases dirs.len() - from,
{
    if from < 0 || from >= dirs.len() {
        None
    } else if dirs[from].len() > 0 && can_execute(host.status(candidate_path(dirs[from], name))) {
        Some(candidate_path(dirs[from], name))
    } else {
        first_match(name, dirs, from + 1, host)
    }
}

/// What a search in `state` comes to when `host` answers all its questions.
pub open spec fn outcome(state: State, host: HostView) -> Option<Seq<char>> {
    match state {
        State::ReadPathVariable { name } => match host.path_variable {
            Some(list) => first_match(name, split(list, ':'), 0, host),
            None => None,
        },
        State::CheckAccess { name, dirs, index } => first_match(name, dirs, index, host),
        State::ReadMetadata { name, dirs, index } => if host.status(
            candidate_path(dirs[index], name),
        ).is_file == Some(true) {
            Some(candidate_path(dirs[index], name))
        } else {
            first_match(name, dirs, index + 1, host)
        },
        State::Finished { result } => result,
    }
}

/// What the search for `name` in `paths` comes to on the host `host`.
pub open spec fn resolve(name: Seq<char>, paths: Seq<Seq<char>>, host: HostView) -> Option<
    Seq<char>,
> {
    outcome(start(name, paths), host)
}

/// How many questions about files a search in `state` can still ask, at
/// most, once its directories are known.
pub open spec fn probes_left(state: State) -> nat {
    match state {
        State::CheckAccess { dirs, index, .. } => (2 * (dirs.len() - index)) as nat,
        State::ReadMetadata { dirs, index, .. } => (2 * (dirs.len() - index) - 1) as nat,
        _ => 0,
    }
}

/// Passing over empty entries skips nothing that could match.
pub proof fn lemma_seek(name: Seq<char>, dirs: Seq<Seq<char>>, from: int, host: HostView)
    requires
        0 <= from,
    ensures
        outcome(seek(name, dirs, from), host) == first_match(name, dirs, from, host),
    decreases dirs.len() - from,
{
    if from < dirs.len() && dirs[from].len() == 0 {
        lemma_seek(name, dirs, from + 1, host);
    }
}

/// An answer of the host leaves the state well formed and what the search
/// comes to unchanged, and an answer about a file brings the end nearer.
pub proof fn lemma_answer_keeps_outcome(state: State, host: HostView)
    requires
        state.wf(),
    ensures
        answered(state, host).wf(),
        outcome(answered(state, host), host) == outcome(state, host),
        state is CheckAccess || state is ReadMetadata ==> probes_left(answered(state, host))
            < probes_left(state),
        !(answered(state, host) is ReadPathVariable),
{
    match state {
        State::ReadPathVariable { name } => {
            if let Some(list) = host.path_variable {
                lemma_seek_wf(name, split(list, ':'), 0);
                lemma_seek(name, split(list, ':'), 0, host);
            }
        },
        State::CheckAccess { name, dirs, index } => {
            lemma_seek_wf(name, dirs, index + 1);
            lemma_seek(name, dirs, index + 1, host);
        },
        State::ReadMetadata { name, dirs, index } => {
            lemma_seek_wf(name, dirs, index + 1);
            lemma_seek(name, dirs, index + 1, host);
        },
        State::Finished { .. } => {},
    }
}

/// Whether the directory `dirs[i]` holds the executable `name` on `host`.
pub open spec fn matches_at(
    name: Seq<char>,
    dirs: Seq<Seq<char>>,
    i: int,
    host: HostView,
) -> bool {
    &&& 0 <= i < dirs.len()
    &&& dirs[i].len() > 0
    &&& can_execute(host.status(candidate_path(dirs[i], name)))
}

/// `first_match` is the candidate of the first directory that matches, and
/// `None` exactly where no directory does.
pub proof fn lemma_first_match(name: Seq<char>, dirs: Seq<Seq<char>>, from: int, host: HostView)
    requires
        0 <= from,
    ensures
        match first_match(name, dirs, from, host) {
            Some(found) => exists|i: int|
                {
                    &&& from <= i
                    &&& #[trigger] matches_at(name, dirs, i, host)
                    &&& found == candidate_path(dirs[i], name)
                    &&& forall|j: int| from <= j < i ==> !matches_at(name, dirs, j, host)
                },
            None => forall|i: int| from <= i ==> !matches_at(name, dirs, i, host),
        },
    decreases dirs.len() - from,
{
    if from < dirs.len() && !matches_at(name, dirs, from, host) {
        lemma_first_match(name, dirs, from + 1, host);
        match first_match(name, dirs, from, host) {
            Some(found) => {
                let i = choose|i: int|
                    {
                        &&& from + 1 <= i
                        &&& #[trigger] matches_at(name, dirs, i, host)
                        &&& found == candidate_path(dirs[i], name)
                        &&& forall|j: int| from + 1 <= j < i ==> !matches_at(name, dirs, j, host)
                    };
                assert forall|j: int| from <= j < i implies !matches_at(name, dirs, j, host) by {
                    if j > from {
                        assert(from + 1 <= j);
                    }
                }
            },
            None => {
                assert forall|i: int| from <= i implies !matches_at(name, dirs, i, host) by {
                    if i > from {
                        assert(from + 1 <= i);
                    }
                }
            },
        }
    }
}

/// What a search comes to, said without the machine: a name with a separator
/// is returned as it stands; any other is looked for in each directory of the
/// search path in turn.
pub proof fn lemma_resolve(name: Seq<char>, paths: Seq<Seq<char>>, host: HostView)
    ensures
        resolve(name, paths, host) == if has_separator(name) {
            Some(name)
        } else {
            first_match(name, search_dirs(paths, host.path_variable), 0, host)
        },
{
    if !has_separator(name) && paths.len() > 0 {
        lemma_seek(name, paths, 0, host);
    }
}

/// A name that holds a separator is returned unchanged, whatever the search
/// path holds and whatever is on the host, and no question is asked.
pub proof fn lemma_path_is_returned_unchanged(
    name: Seq<char>,
    paths: Seq<Seq<char>>,
    host: HostView,
)
    requires
        has_separator(name),
    ensures
        start(name, paths) == (State::Finished { result: Some(name) }),
        resolve(name, paths, host) == Some(name),
{
}

/// Directory order is priority order: the search returns the candidate of the
/// first directory of the search path that holds the executable, whatever the
/// later directories hold.
pub proof fn lemma_first_match_wins(
    name: Seq<char>,
    paths: Seq<Seq<char>>,
    host: HostView,
    i: int,
)
    requires
        !has_separator(name),
        matches_at(name, search_dirs(paths, host.path_variable), i, host),
        forall|j: int|
            0 <= j < i ==> !matches_at(name, search_dirs(paths, host.path_variable), j, host),
    ensures
        resolve(name, paths, host) == Some(
            candidate_path(search_dirs(paths, host.path_variable)[i], name),
        ),
{
    let dirs = search_dirs(paths, host.path_variable);
    lemma_resolve(name, paths, host);
    lemma_first_match(name, dirs, 0, host);
    match first_match(name, dirs, 0, host) {
        Some(found) => {
            // Two directories cannot both be the first that matches.
            let k = choose|k: int|
                {
                    &&& 0 <= k
                    &&& #[trigger] matches_at(name, dirs, k, host)
                    &&& found == candidate_path(dirs[k], name)
                    &&& forall|j: int| 0 <= j < k ==> !matches_at(name, dirs, j, host)
                };
            assert(k == i);
        },
        None => {
            assert(!matches_at(name, dirs, i, host));
        },
    }
}

/// Whatever a search for a plain name returns is the candidate of a directory
/// of the search path, and an executable: `access(2)` granted permission for
/// it, and it is a regular file. A candidate without permission, and one that
/// is a directory, is never returned.
pub proof fn lemma_result_is_executable(name: Seq<char>, paths: Seq<Seq<char>>, host: HostView)
    requires
        !has_separator(name),
    ensures
        resolve(name, paths, host) matches Some(found) ==> {
            &&& host.status(found).access != ACCESS_DENIED
            &&& host.status(found).is_file == Some(true)
            &&& exists|i: int| #[trigger]
                matches_at(name, search_dirs(paths, host.path_variable), i, host) && found
                    == candidate_path(search_dirs(paths, host.path_variable)[i], name)
        },
{
    lemma_resolve(name, paths, host);
    lemma_first_match(name, search_dirs(paths, host.path_variable), 0, host);
}

/// A search for a plain name finds nothing exactly where no directory of the
/// search path holds the executable.
pub proof fn lemma_not_found(name: Seq<char>, paths: Seq<Seq<char>>, host: HostView)
    requires
        !has_separator(name),
    ensures
        resolve(name, paths, host) is None <==> forall|i: int|
            !matches_at(name, search_dirs(paths, host.path_variable), i, host),
{
    let dirs = search_dirs(paths, host.path_variable);
    lemma_resolve(name, paths, host);
    lemma_first_match(name, dirs, 0, host);
}

/// An explicit list of directories takes precedence in full: the `PATH`
/// variable is never asked for, and its value changes nothing.
pub proof fn lemma_explicit_list_ignores_path_variable(
    name: Seq<char>,
    paths: Seq<Seq<char>>,
    host: HostView,
    other: Option<Seq<char>>,
)
    requires
        paths.len() > 0,
    ensures
        !(start(name, paths) is ReadPathVariable),
        resolve(name, paths, host) == resolve(
            name,
            paths,
            HostView { path_variable: other, ..host },
        ),
{
    let changed = HostView { path_variable: other, ..host };
    lemma_seek_wf(name, paths, 0);
    lemma_resolve(name, paths, host);
    lemma_resolve(name, paths, changed);
    lemma_same_status_same_match(name, paths, 0, host, changed);
}

/// Without an explicit list and without a `PATH` variable, a search for a
/// plain name finds nothing, whatever files the host has: no default search
/// path steps in.
pub proof fn lemma_unset_path_finds_nothing(name: Seq<char>, host: HostView)
    requires
        !has_separator(name),
        host.path_variable is None,
    ensures
        resolve(name, Seq::empty(), host) is None,
{
}

/// Two hosts that give each candidate from `from` on the same status give the
/// same match.
pub proof fn lemma_same_status_same_match(
    name: Seq<char>,
    dirs: Seq<Seq<char>>,
    from: int,
    first: HostView,
    second: HostView,
)
    requires
        0 <= from,
        forall|i: int|
            from <= i < dirs.len() ==> first.status(#[trigger] candidate_path(dirs[i], name))
                == second.status(candidate_path(dirs[i], name)),
    ensures
        first_match(name, dirs, from, first) == first_match(name, dirs, from, second),
    decreases dirs.len() - from,
{
    if from < dirs.len() {
        let candidate = candidate_path(dirs[from], name);
        assert(first.status(candidate) == second.status(candidate));
        lemma_same_status_same_match(name, dirs, from + 1, first, second);
    }
}

/// A search repeated on an unchanged host returns the same result: what it
/// returns depends on the name, the explicit list, the value of the `PATH`
/// variable and the status of the candidates, and on nothing else.
pub proof fn lemma_resolution_repeats(
    name: Seq<char>,
    paths: Seq<Seq<char>>,
    first: HostView,
    second: HostView,
)
    requires
        first.path_variable == second.path_variable,
        forall|i: int|
            0 <= i < search_dirs(paths, first.path_variable).len() ==> first.status(
                #[trigger] candidate_path(search_dirs(paths, first.path_variable)[i], name),
            ) == second.status(candidate_path(search_dirs(paths, first.path_variable)[i], name)),
    ensures
        resolve(name, paths, first) == resolve(name, paths, second),
{
    lemma_resolve(name, paths, first);
    lemma_resolve(name, paths, second);
    lemma_same_status_same_match(name, search_dirs(paths, first.path_variable), 0, first, second);
}

impl Search {
    /// Drives the search to its end, with `host` answering every question,
    /// and returns the executable found.
    pub fn run(self, host: &Host) -> (result: Option<String>)
        ensures
            result.deep_view() == outcome(self@, host@),
    {
        let ghost begin = self@;
        let mut search = self;
        proof {
            use_type_invariant(&search);
            lemma_answer_keeps_outcome(search@, host@);
        }
        if search.step() == Step::ReadPathVariable {
            search = search.path_variable_returned(host.path_variable());
        }
        loop
            invariant
                begin == self@,
                !(search@ is ReadPathVariable),
                outcome(search@, host@) == outcome(begin, host@),
            decreases probes_left(search@),
        {
            proof {
                use_type_invariant(&search);
                lemma_answer_keeps_outcome(search@, host@);
            }
            match search.step() {
                Step::CheckAccess => {
                    let status = host.status(search.path());
                    search = search.access_returned(status.access);
                },
                Step::ReadMetadata => {
                    let status = host.status(search.path());
                    search = search.metadata_returned(status.is_file);
                },
                _ => {
                    return search.into_result();
                },
            }
        }
    }
}

} // verus!
