//! Failures an enumeration can report.
use vstd::prelude::*;

verus! {

/// The class of an enumeration failure.
#[derive(Clone, Copy, Debug, PartialEq, Eq, Hash, Structural)]
pub enum ErrorKind {
    /// An operating-system enumeration call returned a failure code.
    Read,
    /// An address or a name could not be decoded.
    Parse,
    /// A buffer could not be allocated or grown far enough.
    Resource,
}

/// An enumeration failure: its class and a description naming the
/// platform call that failed.
#[derive(Clone, Debug, PartialEq, Eq, Hash)]
pub struct Error {
    pub kind: ErrorKind,
    pub msg: String,
}

impl Error {
    /// Builds a failure value from its class and description.
    pub fn new(kind: ErrorKind, msg: String) -> (r: Error)
        ensures
            r.kind == kind,
            r.msg == msg,
    {
        Error { kind, msg }
    }

    /// The class of the failure.
    pub fn kind(&self) -> (r: ErrorKind)
        ensures
            r == self.kind,
    {
        self.kind
    }

    /// The textual description of the failure.
    pub fn message(&self) -> (r: &str)
        ensures
            r@ == self.msg@,
    {
        self.msg.as_str()
    }
}

} // verus!
