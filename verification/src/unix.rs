//! The POSIX search: each directory of the search path is probed in turn for
//! a regular file of the given name that may be read and executed.
//!
//! The search is a state machine, and does no input or output itself.
//! [`find_program_by_name_at_paths`] and [`find_program_by_name`] classify the
//! name and set the machine up; [`Search::step`] says what to ask of the
//! operating system next, and the three `..._returned` methods take the
//! answer. Nothing is cached: every search starts from scratch.
//!
//! A search reads two characters only: `/` in names and directories, and `:`
//! in the value of the `PATH` variable. Every other character is carried
//! through as it is.
//!
//! [`outcome`] says what a search comes to on a given host, and proves what
//! holds of it. [`host`] holds the answers of a host as plain values, and
//! drives a search against them.

pub mod host;
pub mod outcome;

use crate::text::{contains_char, ends_with_char, split, split_at_char};
use vstd::prelude::*;

verus! {

/// What `access(2)` returns where it refuses, or finds no such file.
pub const ACCESS_DENIED: i32 = -1;

/// Whether `name` is already a path, that is, holds a `/`.
pub open spec fn has_separator(name: Seq<char>) -> bool {
    name.contains('/')
}

/// The path of the entry `name` of the directory `dir`: the two with one `/`
/// between them, which is left out where `dir` already ends in one or is
/// empty.
pub open spec fn candidate_path(dir: Seq<char>, name: Seq<char>) -> Seq<char> {
    if dir.len() > 0 && dir.last() != '/' {
        dir.push('/') + name
    } else {
        dir + name
    }
}

/// What a search asks its driver to do next, or how it ended.
#[derive(Clone, Copy, Debug, PartialEq, Eq, Structural)]
pub enum Step {
    /// Read the `PATH` variable and hand its value to
    /// [`Search::path_variable_returned`].
    ReadPathVariable,
    /// Ask `access(2)` whether [`Search::path`] may be read and executed, and
    /// hand what it returns to [`Search::access_returned`].
    CheckAccess,
    /// Read the metadata of [`Search::path`] and hand to
    /// [`Search::metadata_returned`] whether it is a regular file.
    ReadMetadata,
    /// The search is over: [`Search::path`] is the executable.
    Found,
    /// The search is over: there is no such executable.
    NotFound,
}

/// The states of a search.
pub enum State {
    /// The search waits for the value of the `PATH` variable.
    ReadPathVariable { name: Seq<char> },
    /// The search waits to hear whether the candidate of `dirs[index]` may be
    /// read and executed.
    CheckAccess { name: Seq<char>, dirs: Seq<Seq<char>>, index: int },
    /// Permission was granted for the candidate of `dirs[index]`; the search
    /// waits to hear whether it is a regular file.
    ReadMetadata { name: Seq<char>, dirs: Seq<Seq<char>>, index: int },
    /// The search is over.
    Finished { result: Option<Seq<char>> },
}

impl State {
    /// A probing state points at a directory of its list, and not an empty one.
    pub open spec fn wf(self) -> bool {
        match self {
            State::CheckAccess { dirs, index, .. } | State::ReadMetadata { dirs, index, .. } => 0
                <= index < dirs.len() && dirs[index].len() > 0,
            _ => true,
        }
    }

    /// The path that the pending question is about, or the path found;
    /// empty where there is neither.
    pub open spec fn path(self) -> Seq<char> {
        match self {
            State::CheckAccess { name, dirs, index } | State::ReadMetadata { name, dirs, index } =>
                candidate_path(dirs[index], name),
            State::Finished { result: Some(found) } => found,
            _ => Seq::empty(),
        }
    }

    /// What a search in this state asks for, or how it ended.
    pub open spec fn step(self) -> Step {
        match self {
            State::ReadPathVariable { .. } => Step::ReadPathVariable,
            State::CheckAccess { .. } => Step::CheckAccess,
            State::ReadMetadata { .. } => Step::ReadMetadata,
            State::Finished { result: Some(_) } => Step::Found,
            State::Finished { result: None } => Step::NotFound,
        }
    }

    /// The result, once the search is over and found something.
    pub open spec fn result(self) -> Option<Seq<char>> {
        match self {
            State::Finished { result } => result,
            _ => None,
        }
    }
}

/// The state that examines the first directory at or after `from` that is not
/// empty, or the end of the search where there is none.
pub open spec fn seek(name: Seq<char>, dirs: Seq<Seq<char>>, from: int) -> State
    decreases dirs.len() - from,
{
    if from < 0 || from >= dirs.len() {
        State::Finished { result: None }
    } else if dirs[from].len() == 0 {
        seek(name, dirs, from + 1)
    } else {
        State::CheckAccess { name, dirs, index: from }
    }
}

/// The state in which a search for `name` in `paths` begins. A name with a
/// separator is the result as it stands; without an explicit list, the `PATH`
/// variable is asked for.
pub open spec fn start(name: Seq<char>, paths: Seq<Seq<char>>) -> State {
    if has_separator(name) {
        State::Finished { result: Some(name) }
    } else if paths.len() == 0 {
        State::ReadPathVariable { name }
    } else {
        seek(name, paths, 0)
    }
}

/// The state after the host has given the value of the `PATH` variable.
pub open spec fn after_path_variable(state: State, value: Option<Seq<char>>) -> State {
    match state {
        State::ReadPathVariable { name } => match value {
            Some(list) => seek(name, split(list, ':'), 0),
            None => State::Finished { result: None },
        },
        _ => state,
    }
}

/// The state after `access(2)` has returned `status` for the candidate.
pub open spec fn after_access(state: State, status: i32) -> State {
    match state {
        State::CheckAccess { name, dirs, index } => if status == ACCESS_DENIED {
            seek(name, dirs, index + 1)
        } else {
            State::ReadMetadata { name, dirs, index }
        },
        _ => state,
    }
}

/// The state after the candidate's metadata has been asked for.
pub open spec fn after_metadata(state: State, is_file: Option<bool>) -> State {
    match state {
        State::ReadMetadata { name, dirs, index } => if is_file == Some(true) {
            State::Finished { result: Some(candidate_path(dirs[index], name)) }
        } else {
            seek(name, dirs, index + 1)
        },
        _ => state,
    }
}

/// `seek` yields a well-formed state: it waits for the first probe of a
/// directory at or after `from`, or has ended without a result.
pub proof fn lemma_seek_wf(name: Seq<char>, dirs: Seq<Seq<char>>, from: int)
    requires
        0 <= from,
    ensures
        seek(name, dirs, from).wf(),
        seek(name, dirs, from) is CheckAccess || seek(name, dirs, from) == (State::Finished {
            result: None,
        }),
        seek(name, dirs, from) matches State::CheckAccess { name: n, dirs: d, index } ==> n == name
            && d == dirs && from <= index,
    decreases dirs.len() - from,
{
    if from < dirs.len() && dirs[from].len() == 0 {
        lemma_seek_wf(name, dirs, from + 1);
    }
}

/// A search that a driver runs against its host.
pub struct Search {
    name: String,
    dirs: Vec<String>,
    index: usize,
    step: Step,
    path: String,
}

impl View for Search {
    type V = State;

    closed spec fn view(&self) -> State {
        match self.step {
            Step::ReadPathVariable => State::ReadPathVariable { name: self.name@ },
            Step::CheckAccess => State::CheckAccess {
                name: self.name@,
                dirs: self.dirs.deep_view(),
                index: self.index as int,
            },
            Step::ReadMetadata => State::ReadMetadata {
                name: self.name@,
                dirs: self.dirs.deep_view(),
                index: self.index as int,
            },
            Step::Found => State::Finished { result: Some(self.path@) },
            Step::NotFound => State::Finished { result: None },
        }
    }
}

/// The path of the entry `name` of the directory `dir`.
fn join_path(dir: &str, name: &str) -> (path: String)
    ensures
        path@ == candidate_path(dir@, name@),
{
    let mut path = String::from_str(dir);
    if !dir.is_empty() && !ends_with_char(dir, '/') {
        proof {
            reveal_strlit("/");
        }
        path.append("/");
    }
    path.append(name);
    path
}

/// The search for `name` that examines `dirs` from the entry `from` on.
fn seek_from(name: String, dirs: Vec<String>, from: usize) -> (search: Search)
    ensures
        search@ == seek(name@, dirs.deep_view(), from as int),
        search@.wf(),
{
    proof {
        lemma_seek_wf(name@, dirs.deep_view(), from as int);
    }
    let mut index: usize = from;
    while index < dirs.len()
        invariant
            from <= index,
            seek(name@, dirs.deep_view(), index as int) == seek(
                name@,
                dirs.deep_view(),
                from as int,
            ),
        decreases dirs.len() - index,
    {
        if !dirs[index].as_str().is_empty() {
            let path = join_path(dirs[index].as_str(), name.as_str());
            return Search { name, dirs, index, step: Step::CheckAccess, path };
        }
        index += 1;
    }
    Search { name, dirs, index, step: Step::NotFound, path: String::new() }
}

/// Starts the search for `name` in the directories `dirs`, taken in order:
/// empty entries are passed over, and the first directory whose candidate
/// passes both probes wins.
pub fn helper(name: &str, dirs: Vec<String>) -> (search: Search)
    ensures
        search@ == seek(name@, dirs.deep_view(), 0),
        search@.wf(),
{
    seek_from(String::from_str(name), dirs, 0)
}

/// Starts the search for the executable `name` in `paths`.
///
/// A name that holds a `/` is a path already and is the result as it stands,
/// whatever `paths` holds. With an empty `paths` the search asks for the
/// `PATH` variable and goes through its directories.
pub fn find_program_by_name_at_paths(name: &str, paths: &[&str]) -> (search: Search)
    requires
        name@.len() > 0,
    ensures
        search@ == start(name@, paths.deep_view()),
        search@.wf(),
        has_separator(name@) ==> search@.result() == Some(name@),
{
    if contains_char(name, '/') {
        return Search {
            name: String::from_str(name),
            dirs: Vec::new(),
            index: 0,
            step: Step::Found,
            path: String::from_str(name),
        };
    }
    if paths.len() == 0 {
        return Search {
            name: String::from_str(name),
            dirs: Vec::new(),
            index: 0,
            step: Step::ReadPathVariable,
            path: String::new(),
        };
    }
    let mut dirs: Vec<String> = Vec::new();
    let mut i: usize = 0;
    while i < paths.len()
        invariant
            i <= paths.len(),
            dirs.deep_view() == paths.deep_view().take(i as int),
        decreases paths.len() - i,
    {
        let ghost copied = dirs.deep_view();
        dirs.push(String::from_str(paths[i]));
        proof {
            assert(dirs.deep_view() == copied.push(paths[i as int]@));
            assert(paths.deep_view().take(i + 1) == copied.push(paths[i as int]@));
        }
        i += 1;
    }
    assert(dirs.deep_view() == paths.deep_view());
    helper(name, dirs)
}

/// Starts the search for the executable `name` in the directories of the
/// `PATH` variable.
pub fn find_program_by_name(name: &str) -> (search: Search)
    requires
        name@.len() > 0,
    ensures
        search@ == start(name@, Seq::empty()),
        search@.wf(),
        has_separator(name@) ==> search@.result() == Some(name@),
{
    let paths: [&str; 0] = [];
    find_program_by_name_at_paths(name, &paths)
}

impl Search {
    #[verifier::type_invariant]
    spec fn inv(self) -> bool {
        match self.step {
            Step::CheckAccess | Step::ReadMetadata => {
                &&& self.index < self.dirs.len()
                &&& self.dirs[self.index as int]@.len() > 0
                &&& self.path@ == candidate_path(self.dirs[self.index as int]@, self.name@)
            },
            Step::Found => true,
            Step::ReadPathVariable | Step::NotFound => self.path@.len() == 0,
        }
    }

    /// What the driver is to do next.
    pub fn step(&self) -> (step: Step)
        ensures
            step == self@.step(),
            self@.wf(),
    {
        proof {
            use_type_invariant(self);
        }
        self.step
    }

    /// The path to probe while the search runs, and the executable once it is
    /// found.
    pub fn path(&self) -> (path: &str)
        ensures
            path@ == self@.path(),
    {
        proof {
            use_type_invariant(self);
        }
        self.path.as_str()
    }

    /// Takes the value of the `PATH` variable, `None` where it is not set.
    /// The search goes on through the pieces between its colons. Without the
    /// variable the search ends, and has found nothing.
    pub fn path_variable_returned(self, value: Option<&str>) -> (next: Search)
        ensures
            next@ == after_path_variable(self@, value.deep_view()),
            next@.wf(),
    {
        proof {
            use_type_invariant(&self);
        }
        match self.step {
            Step::ReadPathVariable => match value {
                Some(list) => seek_from(self.name, split_at_char(list, ':'), 0),
                None => Search { step: Step::NotFound, ..self },
            },
            _ => self,
        }
    }

    /// Takes what `access(2)` returned for the candidate. On `-1` the search
    /// goes on to the next directory; on anything else it asks for the
    /// candidate's metadata.
    pub fn access_returned(self, status: i32) -> (next: Search)
        ensures
            next@ == after_access(self@, status),
            next@.wf(),
    {
        proof {
            use_type_invariant(&self);
        }
        match self.step {
            Step::CheckAccess => if status == ACCESS_DENIED {
                seek_from(self.name, self.dirs, self.index + 1)
            } else {
                Search { step: Step::ReadMetadata, ..self }
            },
            _ => self,
        }
    }

    /// Takes whether the candidate's metadata says that it is a regular file,
    /// `None` where the metadata could not be read. A regular file ends the
    /// search: it is the result. Anything else sends the search on to the
    /// next directory.
    pub fn metadata_returned(self, is_file: Option<bool>) -> (next: Search)
        ensures
            next@ == after_metadata(self@, is_file),
            next@.wf(),
    {
        proof {
            use_type_invariant(&self);
        }
        match self.step {
            Step::ReadMetadata => match is_file {
                Some(true) => Search { step: Step::Found, ..self },
                _ => seek_from(self.name, self.dirs, self.index + 1),
            },
            _ => self,
        }
    }

    /// The executable that the search found; `None` where it found none, or
    /// has not ended.
    pub fn into_result(self) -> (result: Option<String>)
        ensures
            result.deep_view() == self@.result(),
    {
        match self.step {
            Step::Found => Some(self.path),
            _ => None,
        }
    }
}

} // verus!
