//! Errors of a sandbox.

use vstd::prelude::*;
use vstd::std_specs::convert::FromSpecImpl;

use crate::text::concat2;
use crate::vfs::VfsError;

verus! {

/// The kinds of operating-system error that are told apart.
#[derive(Debug, Clone, Copy, PartialEq, Eq, Structural)]
pub enum IoErrorKind {
    NotFound,
    PermissionDenied,
    AlreadyExists,
    Other,
}

/// A failed operating-system call: its kind and its description.
#[derive(Debug, Clone, PartialEq, Eq)]
pub struct IoFailure {
    pub kind: IoErrorKind,
    pub message: String,
}

/// Why a sandbox operation failed.
#[derive(Debug, Clone, PartialEq, Eq)]
pub enum Error {
    NotStarted,
    AlreadyStarted,
    Unsupported(&'static str),
    Config(String),
    Io(IoFailure),
    Hypervisor(String),
    Vfs(VfsError),
    Other(String),
}

impl Error {
    /// The text that describes the error.
    pub open spec fn spec_message(self) -> Seq<char> {
        match self {
            Error::NotStarted => "sandbox not started"@,
            Error::AlreadyStarted => "sandbox already started"@,
            Error::Unsupported(m) => "unsupported on this backend: "@ + m@,
            Error::Config(m) => "invalid config: "@ + m@,
            Error::Io(e) => "i/o: "@ + e.message@,
            Error::Hypervisor(m) => "hypervisor: "@ + m@,
            Error::Vfs(e) => "vfs: "@ + e.spec_message(),
            Error::Other(m) => "other: "@ + m@,
        }
    }

    /// The text that describes the error.
    pub fn message(&self) -> (r: String)
        ensures
            r@ == self.spec_message(),
    {
        match self {
            Error::NotStarted => "sandbox not started".to_owned(),
            Error::AlreadyStarted => "sandbox already started".to_owned(),
            Error::Unsupported(m) => concat2("unsupported on this backend: ", *m),
            Error::Config(m) => concat2("invalid config: ", m.as_str()),
            Error::Io(e) => concat2("i/o: ", e.message.as_str()),
            Error::Hypervisor(m) => concat2("hypervisor: ", m.as_str()),
            Error::Vfs(e) => concat2("vfs: ", e.message().as_str()),
            Error::Other(m) => concat2("other: ", m.as_str()),
        }
    }
}

impl From<IoFailure> for Error {
    fn from(e: IoFailure) -> (r: Self) {
        Error::Io(e)
    }
}

impl FromSpecImpl<IoFailure> for Error {
    open spec fn obeys_from_spec() -> bool {
        true
    }

    open spec fn from_spec(e: IoFailure) -> Self {
        Error::Io(e)
    }
}

impl From<VfsError> for Error {
    fn from(e: VfsError) -> (r: Self) {
        Error::Vfs(e)
    }
}

impl FromSpecImpl<VfsError> for Error {
    open spec fn obeys_from_spec() -> bool {
        true
    }

    open spec fn from_spec(e: VfsError) -> Self {
        Error::Vfs(e)
    }
}

/// The text of an error ends with its cause.
pub proof fn messages_end_with_the_cause(e: &Error, r: String, v: &VfsError, cause: String)
    requires
        call_ensures(Error::message, (e,), r),
        call_ensures(VfsError::message, (v,), cause),
    ensures
        *e matches Error::Unsupported(m) ==> r@ == "unsupported on this backend: "@ + m@,
        *e matches Error::Config(m) ==> r@ == "invalid config: "@ + m@,
        *e matches Error::Io(f) ==> r@ == "i/o: "@ + f.message@,
        *e matches Error::Hypervisor(m) ==> r@ == "hypervisor: "@ + m@,
        *e matches Error::Other(m) ==> r@ == "other: "@ + m@,
        *e == Error::Vfs(*v) ==> r@ == "vfs: "@ + cause@,
{
}

/// A failure becomes an error that holds it.
pub proof fn failures_become_errors(f: IoFailure, e: Error, v: VfsError, w: Error)
    requires
        call_ensures(<Error as From<IoFailure>>::from, (f,), e),
        call_ensures(<Error as From<VfsError>>::from, (v,), w),
    ensures
        e == Error::Io(f),
        w == Error::Vfs(v),
{
}

} // verus!
