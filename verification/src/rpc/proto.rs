//! The messages, one request and one response for each operation.

use vstd::prelude::*;

use crate::vfs::{DirEntry, FileAttr, VfsError, VfsOp, VfsResult};

verus! {

/// The version that both sides must speak.
pub const PROTOCOL_VERSION: u32 = 1;

/// What the guest asks.
#[derive(Debug, Clone, PartialEq, Eq)]
pub enum Request {
    Hello { protocol_version: u32 },
    Stat { path: String },
    List { path: String },
    Read { path: String, offset: u64, len: u32 },
    Write { path: String, offset: u64, data: Vec<u8> },
    Create { path: String, mode: u32 },
    Mkdir { path: String, mode: u32 },
    Remove { path: String },
    Rmdir { path: String },
    Rename { from: String, to: String },
    Truncate { path: String, size: u64 },
}

/// What the host answers.
#[derive(Debug, PartialEq, Eq)]
pub enum Response {
    Hello { protocol_version: u32 },
    Stat(Result<FileAttr, VfsError>),
    List(Result<Vec<DirEntry>, VfsError>),
    Read(Result<Vec<u8>, VfsError>),
    Write(Result<u32, VfsError>),
    Create(Result<FileAttr, VfsError>),
    Mkdir(Result<FileAttr, VfsError>),
    Remove(Result<(), VfsError>),
    Rmdir(Result<(), VfsError>),
    Rename(Result<(), VfsError>),
    Truncate(Result<(), VfsError>),
}

impl Request {
    /// The file-system operation that is asked for; none for the opening handshake.
    pub open spec fn op(self) -> Option<VfsOp> {
        match self {
            Request::Hello { .. } => None,
            Request::Stat { .. } => Some(VfsOp::Stat),
            Request::List { .. } => Some(VfsOp::List),
            Request::Read { .. } => Some(VfsOp::Read),
            Request::Write { .. } => Some(VfsOp::Write),
            Request::Create { .. } => Some(VfsOp::Create),
            Request::Mkdir { .. } => Some(VfsOp::Mkdir),
            Request::Remove { .. } => Some(VfsOp::Remove),
            Request::Rmdir { .. } => Some(VfsOp::Rmdir),
            Request::Rename { .. } => Some(VfsOp::Rename),
            Request::Truncate { .. } => Some(VfsOp::Truncate),
        }
    }
}

impl Response {
    /// The file-system operation that is answered; none for the opening handshake.
    pub open spec fn op(self) -> Option<VfsOp> {
        match self {
            Response::Hello { .. } => None,
            Response::Stat(_) => Some(VfsOp::Stat),
            Response::List(_) => Some(VfsOp::List),
            Response::Read(_) => Some(VfsOp::Read),
            Response::Write(_) => Some(VfsOp::Write),
            Response::Create(_) => Some(VfsOp::Create),
            Response::Mkdir(_) => Some(VfsOp::Mkdir),
            Response::Remove(_) => Some(VfsOp::Remove),
            Response::Rmdir(_) => Some(VfsOp::Rmdir),
            Response::Rename(_) => Some(VfsOp::Rename),
            Response::Truncate(_) => Some(VfsOp::Truncate),
        }
    }
}

/// What a file system gave back for an operation.
#[derive(Debug, PartialEq, Eq)]
pub enum Outcome {
    Stat(VfsResult<FileAttr>),
    List(VfsResult<Vec<DirEntry>>),
    Read(VfsResult<Vec<u8>>),
    Write(VfsResult<u32>),
    Create(VfsResult<FileAttr>),
    Mkdir(VfsResult<FileAttr>),
    Remove(VfsResult<()>),
    Rmdir(VfsResult<()>),
    Rename(VfsResult<()>),
    Truncate(VfsResult<()>),
}

impl Outcome {
    /// The operation that was performed.
    pub open spec fn op(self) -> VfsOp {
        match self {
            Outcome::Stat(_) => VfsOp::Stat,
            Outcome::List(_) => VfsOp::List,
            Outcome::Read(_) => VfsOp::Read,
            Outcome::Write(_) => VfsOp::Write,
            Outcome::Create(_) => VfsOp::Create,
            Outcome::Mkdir(_) => VfsOp::Mkdir,
            Outcome::Remove(_) => VfsOp::Remove,
            Outcome::Rmdir(_) => VfsOp::Rmdir,
            Outcome::Rename(_) => VfsOp::Rename,
            Outcome::Truncate(_) => VfsOp::Truncate,
        }
    }

    /// The response that carries the outcome to the guest.
    pub open spec fn as_response(self) -> Response {
        match self {
            Outcome::Stat(r) => Response::Stat(r),
            Outcome::List(r) => Response::List(r),
            Outcome::Read(r) => Response::Read(r),
            Outcome::Write(r) => Response::Write(r),
            Outcome::Create(r) => Response::Create(r),
            Outcome::Mkdir(r) => Response::Mkdir(r),
            Outcome::Remove(r) => Response::Remove(r),
            Outcome::Rmdir(r) => Response::Rmdir(r),
            Outcome::Rename(r) => Response::Rename(r),
            Outcome::Truncate(r) => Response::Truncate(r),
        }
    }

    /// It is a failure with an input/output error that satisfies `p`.
    pub open spec fn is_io_error(self, p: spec_fn(String) -> bool) -> bool {
        match self {
            Outcome::Stat(Err(VfsError::Io(m))) => p(m),
            Outcome::List(Err(VfsError::Io(m))) => p(m),
            Outcome::Read(Err(VfsError::Io(m))) => p(m),
            Outcome::Write(Err(VfsError::Io(m))) => p(m),
            Outcome::Create(Err(VfsError::Io(m))) => p(m),
            Outcome::Mkdir(Err(VfsError::Io(m))) => p(m),
            Outcome::Remove(Err(VfsError::Io(m))) => p(m),
            Outcome::Rmdir(Err(VfsError::Io(m))) => p(m),
            Outcome::Rename(Err(VfsError::Io(m))) => p(m),
            Outcome::Truncate(Err(VfsError::Io(m))) => p(m),
            _ => false,
        }
    }
}

} // verus!
