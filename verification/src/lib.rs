//! Resolution of an executable's name against an ordered list of directories,
//! in the manner of a shell's `PATH` lookup, without any shell.
//!
//! The crate performs no input or output of its own. Each platform module
//! holds the search as a state machine: it says which question to ask of the
//! operating system next, and takes the answer as a plain value. Whoever
//! drives the machine reads the variables and probes the files.
//!
//! - [`unix`]: one probe of permission and one of the file type for each
//!   directory of the search path, the first match wins.
//! - [`windows`]: one call of the system's search primitive for each filename
//!   extension, with an output buffer that grows on demand.
//! - [`text`]: what both need of text.

pub mod text;
pub mod unix;
pub mod windows;
