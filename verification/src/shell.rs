//! Output streams of shell builtins.

use vstd::prelude::*;

verus! {

/// A file descriptor number.
#[derive(Clone, Copy, Debug, PartialEq, Eq, Structural)]
pub struct Fd {
    pub value: i32,
}

impl Fd {
    /// The standard output stream.
    pub fn stdout() -> (r: Fd)
        ensures
            r.value == 1,
    {
        Fd { value: 1 }
    }

    /// The standard error stream.
    pub fn stderr() -> (r: Fd)
        ensures
            r.value == 2,
    {
        Fd { value: 2 }
    }
}

/// Which output stream a builtin writes to.
#[derive(Clone, Copy, Debug, PartialEq, Eq, Structural)]
pub enum OutKind {
    Stdout,
    Stderr,
}

impl OutKind {
    /// The file descriptor of the stream.
    pub fn to_fd(self) -> (r: Fd)
        ensures
            r.value == (match self {
                OutKind::Stdout => 1i32,
                OutKind::Stderr => 2i32,
            }),
    {
        match self {
            OutKind::Stdout => Fd::stdout(),
            OutKind::Stderr => Fd::stderr(),
        }
    }
}

/// The descriptor type that file watchers use.
pub type WatchFd = i32;

} // verus!
