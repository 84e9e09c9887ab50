//! What a POSIX search can learn from its host, as a model and as plain
//! values.

use crate::unix::ACCESS_DENIED;
use vstd::prelude::*;

verus! {

/// What the operating system answers about one path.
#[derive(Clone, Copy, Debug)]
pub struct FileStatus {
    /// What `access(2)` returns when asked for read and execute permission:
    /// `-1` where it is refused, or where there is no such file.
    pub access: i32,
    /// Whether the metadata says that the path is a regular file; `None`
    /// where the metadata cannot be read.
    pub is_file: Option<bool>,
}

/// The status of a path that does not exist.
pub open spec fn missing() -> FileStatus {
    FileStatus { access: ACCESS_DENIED, is_file: None }
}

/// Whether a path with this status counts as an executable: permission is
/// granted, and the path is a regular file, not a directory.
pub open spec fn can_execute(status: FileStatus) -> bool {
    status.access != ACCESS_DENIED && status.is_file == Some(true)
}

/// What a search can learn from its host: the value of the `PATH` variable,
/// if it is set, and the status of every path.
pub struct HostView {
    pub path_variable: Option<Seq<char>>,
    pub files: Map<Seq<char>, FileStatus>,
}

impl HostView {
    /// The status of `path`; that of a missing file where the host knows none.
    pub open spec fn status(self, path: Seq<char>) -> FileStatus {
        if self.files.dom().contains(path) {
            self.files[path]
        } else {
            missing()
        }
    }
}

/// One path of a [`Host`] with its status.
struct Entry {
    path: String,
    status: FileStatus,
}

/// The files that a list of entries describes: of two entries for one path
/// the later one counts.
spec fn files_of(entries: Seq<Entry>) -> Map<Seq<char>, FileStatus>
    decreases entries.len(),
{
    if entries.len() == 0 {
        Map::empty()
    } else {
        files_of(entries.drop_last()).insert(entries.last().path@, entries.last().status)
    }
}

/// A host as plain values: the value of its `PATH` variable, and the status
/// of the paths that it knows. Every other path is missing.
pub struct Host {
    path_variable: Option<String>,
    entries: Vec<Entry>,
}

impl View for Host {
    type V = HostView;

    closed spec fn view(&self) -> HostView {
        HostView {
            path_variable: self.path_variable.deep_view(),
            files: files_of(self.entries@),
        }
    }
}

impl Host {
    /// A host without files, whose `PATH` variable has the value given, or is
    /// not set.
    pub fn new(path_variable: Option<&str>) -> (host: Host)
        ensures
            host@ == (HostView {
                path_variable: path_variable.deep_view(),
                files: Map::empty(),
            }),
    {
        let path_variable = match path_variable {
            Some(list) => Some(String::from_str(list)),
            None => None,
        };
        Host { path_variable, entries: Vec::new() }
    }

    /// Records the status of `path`, in place of an earlier one.
    pub fn add(&mut self, path: &str, status: FileStatus)
        ensures
            final(self)@ == (HostView {
                files: old(self)@.files.insert(path@, status),
                ..old(self)@
            }),
    {
        let ghost before = self.entries@;
        self.entries.push(Entry { path: String::from_str(path), status });
        assert(self.entries@.drop_last() == before);
    }

    /// The value of the `PATH` variable, `None` where it is not set.
    pub fn path_variable(&self) -> (value: Option<&str>)
        ensures
            value.deep_view() == self@.path_variable,
    {
        match &self.path_variable {
            Some(list) => Some(list.as_str()),
            None => None,
        }
    }

    /// The status of `path`.
    pub fn status(&self, path: &str) -> (status: FileStatus)
        ensures
            status == self@.status(path@),
    {
        let wanted = String::from_str(path);
        let mut i: usize = self.entries.len();
        assert(self.entries@.take(i as int) == self.entries@);
        while i > 0
            invariant
                i <= self.entries.len(),
                wanted@ == path@,
                self@.status(path@) == (HostView {
                    files: files_of(self.entries@.take(i as int)),
                    ..self@
                }).status(path@),
            decreases i,
        {
            i -= 1;
            assert(self.entries@.take(i + 1).drop_last() == self.entries@.take(i as int));
            if self.entries[i].path == wanted {
                return self.entries[i].status;
            }
        }
        FileStatus { access: ACCESS_DENIED, is_file: None }
    }
}

} // verus!
