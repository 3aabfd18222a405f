//! The guest side: the request for each operation, and what its response means.

use vstd::prelude::*;

use crate::rpc::proto::{Outcome, Request, Response, PROTOCOL_VERSION};
use crate::rpc::server::{serving, ServeAction, ServeEvent};
use crate::text::{concat2, decimal, decimal_text};
use crate::vfs::{DirEntry, FileAttr, VfsError, VfsOp, VfsResult};

verus! {

/// What came back for a request: a response, or the text of what went wrong on the way.
pub type Reply = Result<Response, String>;

/// What a reply to a request for `op` means. A response to that operation means what it carries,
/// one to any other is an error; so is a failure on the way, with its text.
pub open spec fn reads(op: VfsOp, reply: Reply, r: Outcome) -> bool {
    &&& r.op() == op
    &&& match reply {
        Ok(resp) => if resp.op() == Some(op) {
            r.as_response() == resp
        } else {
            r.is_io_error(|m: String| m@ == "bad resp"@)
        },
        Err(e) => r.is_io_error(|m: String| m == e),
    }
}

/// What a reply to the opening handshake means: the host must answer it with the same version.
pub open spec fn hello_reads(reply: Reply, r: Result<(), String>) -> bool {
    match reply {
        Ok(Response::Hello { protocol_version }) => if protocol_version == PROTOCOL_VERSION {
            r is Ok
        } else {
            r matches Err(m) && m@ == "protocol mismatch: server "@ + decimal(
                protocol_version as nat,
            )
        },
        Ok(_) => r matches Err(m) && m@ == "unexpected response"@,
        Err(e) => r == Err::<(), String>(e),
    }
}

/// What is returned where a reply holds no response to the request.
fn bad_reply<T>(reply: Reply) -> (r: VfsResult<T>)
    ensures
        match reply {
            Ok(_) => r matches Err(VfsError::Io(m)) && m@ == "bad resp"@,
            Err(e) => r == Err::<T, VfsError>(VfsError::Io(e)),
        },
{
    match reply {
        Ok(_) => Err(VfsError::Io("bad resp".to_owned())),
        Err(e) => Err(VfsError::Io(e)),
    }
}

/// The calls of a virtual file system, as requests and readings of replies.
pub struct Client {}

impl Client {
    /// Opens a connection.
    pub fn hello() -> (r: Request)
        ensures
            r == (Request::Hello { protocol_version: PROTOCOL_VERSION }),
    {
        Request::Hello { protocol_version: PROTOCOL_VERSION }
    }

    /// The handshake succeeds where the host speaks the same version.
    pub fn hello_reply(reply: Reply) -> (r: Result<(), String>)
        ensures
            hello_reads(reply, r),
    {
        match reply {
            Ok(Response::Hello { protocol_version }) => if protocol_version == PROTOCOL_VERSION {
                Ok(())
            } else {
                Err(
                    concat2(
                        "protocol mismatch: server ",
                        decimal_text(protocol_version as u64).as_str(),
                    ),
                )
            },
            Ok(_) => Err("unexpected response".to_owned()),
            Err(e) => Err(e),
        }
    }

    /// Asks for the attributes of an entry.
    pub fn stat(path: &str) -> (r: Request)
        ensures
            r matches Request::Stat { path: p } && p@ == path@,
    {
        Request::Stat { path: path.to_owned() }
    }

    /// The attributes, or why there are none.
    pub fn stat_reply(reply: Reply) -> (r: VfsResult<FileAttr>)
        ensures
            reads(VfsOp::Stat, reply, Outcome::Stat(r)),
    {
        match reply {
            Ok(Response::Stat(x)) => x,
            other => bad_reply(other),
        }
    }

    /// Asks for the entries of a directory.
    pub fn list(path: &str) -> (r: Request)
        ensures
            r matches Request::List { path: p } && p@ == path@,
    {
        Request::List { path: path.to_owned() }
    }

    /// The entries, or why there are none.
    pub fn list_reply(reply: Reply) -> (r: VfsResult<Vec<DirEntry>>)
        ensures
            reads(VfsOp::List, reply, Outcome::List(r)),
    {
        match reply {
            Ok(Response::List(x)) => x,
            other => bad_reply(other),
        }
    }

    /// Asks for `len` bytes of a file from `offset` on.
    pub fn read(path: &str, offset: u64, len: u32) -> (r: Request)
        ensures
            r matches Request::Read { path: p, offset: o, len: l } && p@ == path@ && o == offset
                && l == len,
    {
        Request::Read { path: path.to_owned(), offset, len }
    }

    /// The bytes, or why there are none.
    pub fn read_reply(reply: Reply) -> (r: VfsResult<Vec<u8>>)
        ensures
            reads(VfsOp::Read, reply, Outcome::Read(r)),
    {
        match reply {
            Ok(Response::Read(x)) => x,
            other => bad_reply(other),
        }
    }

    /// Asks to write bytes to a file from `offset` on.
    pub fn write(path: &str, offset: u64, data: Vec<u8>) -> (r: Request)
        ensures
            r matches Request::Write { path: p, offset: o, data: d } && p@ == path@ && o == offset
                && d == data,
    {
        Request::Write { path: path.to_owned(), offset, data }
    }

    /// How many bytes were written, or why none.
    pub fn write_reply(reply: Reply) -> (r: VfsResult<u32>)
        ensures
            reads(VfsOp::Write, reply, Outcome::Write(r)),
    {
        match reply {
            Ok(Response::Write(x)) => x,
            other => bad_reply(other),
        }
    }

    /// Asks for a new file.
    pub fn create(path: &str, mode: u32) -> (r: Request)
        ensures
            r matches Request::Create { path: p, mode: m } && p@ == path@ && m == mode,
    {
        Request::Create { path: path.to_owned(), mode }
    }

    /// The attributes of the new file, or why there is none.
    pub fn create_reply(reply: Reply) -> (r: VfsResult<FileAttr>)
        ensures
            reads(VfsOp::Create, reply, Outcome::Create(r)),
    {
        match reply {
            Ok(Response::Create(x)) => x,
            other => bad_reply(other),
        }
    }

    /// Asks for a new directory.
    pub fn mkdir(path: &str, mode: u32) -> (r: Request)
        ensures
            r matches Request::Mkdir { path: p, mode: m } && p@ == path@ && m == mode,
    {
        Request::Mkdir { path: path.to_owned(), mode }
    }

    /// The attributes of the new directory, or why there is none.
    pub fn mkdir_reply(reply: Reply) -> (r: VfsResult<FileAttr>)
        ensures
            reads(VfsOp::Mkdir, reply, Outcome::Mkdir(r)),
    {
        match reply {
            Ok(Response::Mkdir(x)) => x,
            other => bad_reply(other),
        }
    }

    /// Asks to remove a file.
    pub fn remove(path: &str) -> (r: Request)
        ensures
            r matches Request::Remove { path: p } && p@ == path@,
    {
        Request::Remove { path: path.to_owned() }
    }

    /// Whether the file was removed.
    pub fn remove_reply(reply: Reply) -> (r: VfsResult<()>)
        ensures
            reads(VfsOp::Remove, reply, Outcome::Remove(r)),
    {
        match reply {
            Ok(Response::Remove(x)) => x,
            other => bad_reply(other),
        }
    }

    /// Asks to remove a directory.
    pub fn rmdir(path: &str) -> (r: Request)
        ensures
            r matches Request::Rmdir { path: p } && p@ == path@,
    {
        Request::Rmdir { path: path.to_owned() }
    }

    /// Whether the directory was removed.
    pub fn rmdir_reply(reply: Reply) -> (r: VfsResult<()>)
        ensures
            reads(VfsOp::Rmdir, reply, Outcome::Rmdir(r)),
    {
        match reply {
            Ok(Response::Rmdir(x)) => x,
            other => bad_reply(other),
        }
    }

    /// Asks to move an entry.
    pub fn rename(from: &str, to: &str) -> (r: Request)
        ensures
            r matches Request::Rename { from: f, to: t } && f@ == from@ && t@ == to@,
    {
        Request::Rename { from: from.to_owned(), to: to.to_owned() }
    }

    /// Whether the entry was moved.
    pub fn rename_reply(reply: Reply) -> (r: VfsResult<()>)
        ensures
            reads(VfsOp::Rename, reply, Outcome::Rename(r)),
    {
        match reply {
            Ok(Response::Rename(x)) => x,
            other => bad_reply(other),
        }
    }

    /// Asks to set the size of a file.
    pub fn truncate(path: &str, size: u64) -> (r: Request)
        ensures
            r matches Request::Truncate { path: p, size: s } && p@ == path@ && s == size,
    {
        Request::Truncate { path: path.to_owned(), size }
    }

    /// Whether the size was set.
    pub fn truncate_reply(reply: Reply) -> (r: VfsResult<()>)
        ensures
            reads(VfsOp::Truncate, reply, Outcome::Truncate(r)),
    {
        match reply {
            Ok(Response::Truncate(x)) => x,
            other => bad_reply(other),
        }
    }
}

/// What the guest reads is what the file system of the host gave back: the request reaches the
/// file system as it was made, and the outcome comes back unchanged.
pub proof fn call_is_transparent(req: Request, o: Outcome, r: Outcome)
    requires
        req.op() == Some(o.op()),
        serving(ServeEvent::Performed(o)) matches ServeAction::Send(resp) && reads(
            o.op(),
            Ok(resp),
            r,
        ),
    ensures
        serving(ServeEvent::Read(Some(req))) == ServeAction::Perform(req),
        r == o,
{
}

/// The handshake with a host of this version succeeds.
pub proof fn handshake_agrees(req: Request, r: Result<(), String>)
    requires
        req is Hello,
        serving(ServeEvent::Read(Some(req))) matches ServeAction::Send(resp) && hello_reads(
            Ok(resp),
            r,
        ),
    ensures
        r is Ok,
{
}

} // verus!
