//! The Windows search: the operating system's own search primitive,
//! `SearchPathW`, is asked for the name with each filename extension in turn.
//!
//! The search is a state machine. [`find_program_by_name_at_paths`] and
//! [`find_program_by_name`] classify the name and join the directories;
//! [`Search::step`] says what to ask of the operating system next, and the two
//! `..._returned` methods take the answer. The driver owns the output buffer:
//! the search only says how long it has to be, and in the end how much of it
//! holds the path.
//!
//! [`protocol`] says how a search ends against a primitive that keeps to its
//! protocol.

pub mod protocol;

use crate::text::{contains_char, join, join_with, split, split_at_char};
use vstd::prelude::*;

verus! {

/// The length of the output buffer that a search begins with, in UTF-16 code
/// units: the longest path that the classic Windows interfaces take.
pub const MAX_PATH: u32 = 260;

/// Whether `name` is already a path, that is, holds a `/` or a `\`.
pub open spec fn has_separator(name: Seq<char>) -> bool {
    name.contains('/') || name.contains('\\')
}

/// The directory list handed to the primitive: the directories with a `;`
/// between neighbours. Without any directory there is no list, and the
/// primitive searches in the order that the operating system defines.
pub open spec fn path_list(paths: Seq<Seq<char>>) -> Option<Seq<char>> {
    if paths.len() == 0 {
        None
    } else {
        Some(join(paths, seq![';']))
    }
}

/// The extensions that every search tries first: none, then `.exe`.
pub open spec fn default_extensions() -> Seq<Seq<char>> {
    seq![Seq::empty(), seq!['.', 'e', 'x', 'e']]
}

/// The extensions to try, in order: the default ones, then the pieces of the
/// `PATHEXT` variable between its semicolons, where it is set.
pub open spec fn extensions(pathext: Option<Seq<char>>) -> Seq<Seq<char>> {
    match pathext {
        Some(list) => default_extensions() + split(list, ';'),
        None => default_extensions(),
    }
}

/// What a search asks its driver to do next, or how it ended.
#[derive(Clone, Copy, Debug, PartialEq, Eq, Structural)]
pub enum Step {
    /// Read the `PATHEXT` variable and hand its value to
    /// [`Search::pathext_returned`].
    ReadPathext,
    /// Call the primitive for [`Search::file_name`] in
    /// [`Search::path_list`], with an output buffer of
    /// [`Search::buffer_len`] code units, and hand what it returns to
    /// [`Search::lookup_returned`].
    Lookup,
    /// The search is over: the name is a path, and is the result as it
    /// stands.
    Verbatim,
    /// The search is over: the first `length` code units of the output
    /// buffer hold the path found.
    Found { length: u32 },
    /// The search is over: no extension gave a file.
    NotFound,
}

/// The states of a search.
pub enum State {
    /// The search waits for the value of the `PATHEXT` variable.
    ReadPathext { name: Seq<char>, path_list: Option<Seq<char>> },
    /// The search waits for what the primitive returns for the name with
    /// `extensions[index]`, given a buffer of `buffer_len` code units.
    Lookup {
        name: Seq<char>,
        path_list: Option<Seq<char>>,
        extensions: Seq<Seq<char>>,
        index: int,
        buffer_len: u32,
    },
    /// The search is over; `step` says how.
    Finished { name: Seq<char>, step: Step },
}

impl State {
    /// A waiting state points at one of its extensions, and a finished state
    /// says how it ended.
    pub open spec fn wf(self) -> bool {
        match self {
            State::ReadPathext { .. } => true,
            State::Lookup { extensions, index, .. } => 0 <= index < extensions.len(),
            State::Finished { step, .. } => step != Step::ReadPathext && step != Step::Lookup,
        }
    }

    /// What a search in this state asks for, or how it ended.
    pub open spec fn step(self) -> Step {
        match self {
            State::ReadPathext { .. } => Step::ReadPathext,
            State::Lookup { .. } => Step::Lookup,
            State::Finished { step, .. } => step,
        }
    }

    /// The name that the search is for.
    pub open spec fn name(self) -> Seq<char> {
        match self {
            State::ReadPathext { name, .. } => name,
            State::Lookup { name, .. } => name,
            State::Finished { name, .. } => name,
        }
    }

    /// The directory list for the primitive, while the search runs.
    pub open spec fn path_list(self) -> Option<Seq<char>> {
        match self {
            State::ReadPathext { path_list, .. } => path_list,
            State::Lookup { path_list, .. } => path_list,
            State::Finished { .. } => None,
        }
    }

    /// The file name for the primitive: the name with the extension under
    /// trial. The extension is attached here, since the primitive adds none
    /// to a name that holds a dot. Empty where no call is pending.
    pub open spec fn file_name(self) -> Seq<char> {
        match self {
            State::Lookup { name, extensions, index, .. } => name + extensions[index],
            _ => Seq::empty(),
        }
    }

    /// The length that the output buffer must have for the pending call;
    /// zero where none is pending.
    pub open spec fn buffer_len(self) -> u32 {
        match self {
            State::Lookup { buffer_len, .. } => buffer_len,
            _ => 0,
        }
    }
}

/// The state that tries `extensions[index]`, or the end of the search where
/// the extensions are used up.
pub open spec fn lookup(
    name: Seq<char>,
    path_list: Option<Seq<char>>,
    extensions: Seq<Seq<char>>,
    index: int,
    buffer_len: u32,
) -> State {
    if 0 <= index < extensions.len() {
        State::Lookup { name, path_list, extensions, index, buffer_len }
    } else {
        State::Finished { name, step: Step::NotFound }
    }
}

/// The state in which a search for `name` in `paths` begins. A name with a
/// separator is the result as it stands.
pub open spec fn start(name: Seq<char>, paths: Seq<Seq<char>>) -> State {
    if has_separator(name) {
        State::Finished { name, step: Step::Verbatim }
    } else {
        State::ReadPathext { name, path_list: path_list(paths) }
    }
}

/// The state after the host has given the value of the `PATHEXT` variable:
/// the first extension is tried, with a buffer of `MAX_PATH` code units.
pub open spec fn after_pathext(state: State, pathext: Option<Seq<char>>) -> State {
    match state {
        State::ReadPathext { name, path_list } => lookup(
            name,
            path_list,
            extensions(pathext),
            0,
            MAX_PATH,
        ),
        _ => state,
    }
}

/// The state after the primitive has returned `returned`.
///
/// A value above the buffer's length is the length that the primitive needs:
/// the same extension is tried again with such a buffer. Zero means that no
/// file has this extension: the next one is tried, with the buffer as it is.
/// Any other value is the length of the path that now stands in the buffer.
pub open spec fn after_lookup(state: State, returned: u32) -> State {
    match state {
        State::Lookup { name, path_list, extensions, index, buffer_len } => if returned
            > buffer_len {
            State::Lookup { name, path_list, extensions, index, buffer_len: returned }
        } else if returned != 0 {
            State::Finished { name, step: Step::Found { length: returned } }
        } else {
            lookup(name, path_list, extensions, index + 1, buffer_len)
        },
        _ => state,
    }
}

/// How far a waiting search is from its end: the extensions not yet used up,
/// and the room left for the buffer to grow.
pub open spec fn distance(state: State) -> (nat, nat) {
    match state {
        State::Lookup { extensions, index, buffer_len, .. } => (
            (extensions.len() - index) as nat,
            (u32::MAX - buffer_len) as nat,
        ),
        _ => (0, 0),
    }
}

/// Every answer of the primitive brings the search nearer to its end: it ends
/// the search, or moves it to the next extension, or makes the buffer longer
/// for the same extension. The buffer never shrinks. So a search ends
/// whatever the primitive returns, with no bound on the number of calls but
/// the lengths that a buffer can have.
pub proof fn lemma_lookup_progress(state: State, returned: u32)
    requires
        state.wf(),
        state is Lookup,
    ensures
        after_lookup(state, returned).wf(),
        after_lookup(state, returned) is Lookup ==> {
            let next = after_lookup(state, returned);
            &&& next.buffer_len() >= state.buffer_len()
            &&& distance(next).0 < distance(state).0 || (distance(next).0 == distance(state).0
                && distance(next).1 < distance(state).1)
        },
{
}

/// A search ends with a path in the buffer only on an answer that is not zero
/// and fits the buffer that was handed over.
pub proof fn lemma_found_fits(state: State, returned: u32)
    requires
        state is Lookup,
    ensures
        after_lookup(state, returned).step() == (Step::Found { length: returned }) <==> 0
            < returned <= state.buffer_len(),
        after_lookup(state, returned).step() is Found ==> after_lookup(state, returned).step()
            == (Step::Found { length: returned }),
{
}

/// A name that holds a separator is returned unchanged, whatever the
/// directories are, and no question is asked.
pub proof fn lemma_path_is_returned_unchanged(name: Seq<char>, paths: Seq<Seq<char>>)
    requires
        has_separator(name),
    ensures
        start(name, paths) == (State::Finished { name, step: Step::Verbatim }),
{
}

/// A search that a driver runs against its host.
pub struct Search {
    name: String,
    path_list: Option<String>,
    extensions: Vec<String>,
    index: usize,
    buffer_len: u32,
    step: Step,
    file_name: String,
}

impl View for Search {
    type V = State;

    closed spec fn view(&self) -> State {
        match self.step {
            Step::ReadPathext => State::ReadPathext {
                name: self.name@,
                path_list: self.path_list.deep_view(),
            },
            Step::Lookup => State::Lookup {
                name: self.name@,
                path_list: self.path_list.deep_view(),
                extensions: self.extensions.deep_view(),
                index: self.index as int,
                buffer_len: self.buffer_len,
            },
            step => State::Finished { name: self.name@, step },
        }
    }
}

/// Starts the calls of the primitive for `name` in `path_list`: one
/// extension after the other, beginning with `extensions[0]` and a buffer of
/// `MAX_PATH` code units, until one of them gives a file.
fn perform_actual_search(
    name: String,
    path_list: Option<String>,
    extensions: Vec<String>,
) -> (search: Search)
    ensures
        search@ == lookup(name@, path_list.deep_view(), extensions.deep_view(), 0, MAX_PATH),
        search@.wf(),
{
    try_extension(name, path_list, extensions, 0, MAX_PATH)
}

/// The search for `name` that tries `extensions[index]` next.
fn try_extension(
    name: String,
    path_list: Option<String>,
    extensions: Vec<String>,
    index: usize,
    buffer_len: u32,
) -> (search: Search)
    ensures
        search@ == lookup(
            name@,
            path_list.deep_view(),
            extensions.deep_view(),
            index as int,
            buffer_len,
        ),
        search@.wf(),
{
    if index < extensions.len() {
        let mut file_name = name.clone();
        file_name.append(extensions[index].as_str());
        Search { name, path_list, extensions, index, buffer_len, step: Step::Lookup, file_name }
    } else {
        Search {
            name,
            path_list: None,
            extensions,
            index,
            buffer_len: 0,
            step: Step::NotFound,
            file_name: String::new(),
        }
    }
}

/// Starts the search for the executable `name` in `paths`.
///
/// A name that holds a `/` or a `\` is a path already and is the result as it
/// stands, whatever `paths` holds. With an empty `paths` the primitive
/// searches in the order that the operating system defines.
pub fn find_program_by_name_at_paths(name: &str, paths: &[&str]) -> (search: Search)
    requires
        name@.len() > 0,
    ensures
        search@ == start(name@, paths.deep_view()),
        search@.wf(),
        has_separator(name@) ==> search@.step() == Step::Verbatim && search@.name() == name@,
{
    if contains_char(name, '/') || contains_char(name, '\\') {
        return Search {
            name: String::from_str(name),
            path_list: None,
            extensions: Vec::new(),
            index: 0,
            buffer_len: 0,
            step: Step::Verbatim,
            file_name: String::new(),
        };
    }
    let path_list = if paths.len() == 0 {
        None
    } else {
        proof {
            reveal_strlit(";");
            assert(";"@ == seq![';']);
        }
        Some(join_with(paths, ";"))
    };
    Search {
        name: String::from_str(name),
        path_list,
        extensions: Vec::new(),
        index: 0,
        buffer_len: 0,
        step: Step::ReadPathext,
        file_name: String::new(),
    }
}

/// Starts the search for the executable `name` in the order that the
/// operating system defines.
pub fn find_program_by_name(name: &str) -> (search: Search)
    requires
        name@.len() > 0,
    ensures
        search@ == start(name@, Seq::empty()),
        search@.wf(),
        has_separator(name@) ==> search@.step() == Step::Verbatim && search@.name() == name@,
{
    let paths: [&str; 0] = [];
    find_program_by_name_at_paths(name, &paths)
}

impl Search {
    #[verifier::type_invariant]
    spec fn inv(self) -> bool {
        match self.step {
            Step::ReadPathext => self.file_name@.len() == 0 && self.buffer_len == 0,
            Step::Lookup => {
                &&& self.index < self.extensions.len()
                &&& self.file_name@ == self.name@ + self.extensions[self.index as int]@
            },
            _ => self.file_name@.len() == 0 && self.buffer_len == 0 && self.path_list is None,
        }
    }

    /// What the driver is to do next.
    pub fn step(&self) -> (step: Step)
        ensures
            step == self@.step(),
            self@.wf(),
    {
        proof {
            use_type_invariant(self);
        }
        self.step
    }

    /// The name that the search is for.
    pub fn name(&self) -> (name: &str)
        ensures
            name@ == self@.name(),
    {
        self.name.as_str()
    }

    /// The directory list for the primitive; `None` where the primitive is to
    /// search in the order that the operating system defines.
    pub fn path_list(&self) -> (list: Option<&str>)
        ensures
            list.deep_view() == self@.path_list(),
    {
        proof {
            use_type_invariant(self);
        }
        match &self.path_list {
            Some(list) => Some(list.as_str()),
            None => None,
        }
    }

    /// The file name for the primitive: the name with the extension under
    /// trial.
    pub fn file_name(&self) -> (file_name: &str)
        ensures
            file_name@ == self@.file_name(),
    {
        proof {
            use_type_invariant(self);
        }
        self.file_name.as_str()
    }

    /// The length, in code units, that the output buffer must have for the
    /// pending call.
    pub fn buffer_len(&self) -> (len: u32)
        ensures
            len == self@.buffer_len(),
    {
        proof {
            use_type_invariant(self);
        }
        self.buffer_len
    }

    /// Takes the value of the `PATHEXT` variable, `None` where it is not set,
    /// and begins with the first extension.
    pub fn pathext_returned(self, pathext: Option<&str>) -> (next: Search)
        ensures
            next@ == after_pathext(self@, pathext.deep_view()),
            next@.wf(),
    {
        proof {
            use_type_invariant(&self);
        }
        match self.step {
            Step::ReadPathext => {
                let mut extensions: Vec<String> = Vec::new();
                extensions.push(String::new());
                extensions.push(String::from_str(".exe"));
                proof {
                    reveal_strlit(".exe");
                    assert(".exe"@ == seq!['.', 'e', 'x', 'e']);
                    assert(extensions.deep_view() == default_extensions());
                }
                if let Some(list) = pathext {
                    let mut more = split_at_char(list, ';');
                    let ghost first = extensions.deep_view();
                    let ghost second = more.deep_view();
                    extensions.append(&mut more);
                    assert(extensions.deep_view() == first + second);
                }
                perform_actual_search(self.name, self.path_list, extensions)
            },
            _ => self,
        }
    }

    /// Takes what the primitive returned for the pending call. On a value
    /// above the buffer's length the same extension is tried again, with a
    /// buffer of that length. On zero the next extension is tried, and the
    /// search ends where there is none. Any other value ends the search: it
    /// is the length of the path in the buffer.
    pub fn lookup_returned(self, returned: u32) -> (next: Search)
        ensures
            next@ == after_lookup(self@, returned),
            next@.wf(),
    {
        proof {
            use_type_invariant(&self);
        }
        match self.step {
            Step::Lookup => if returned > self.buffer_len {
                Search { buffer_len: returned, ..self }
            } else if returned != 0 {
                Search {
                    path_list: None,
                    buffer_len: 0,
                    step: Step::Found { length: returned },
                    file_name: String::new(),
                    ..self
                }
            } else {
                try_extension(
                    self.name,
                    self.path_list,
                    self.extensions,
                    self.index + 1,
                    self.buffer_len,
                )
            },
            _ => self,
        }
    }
}

} // verus!
