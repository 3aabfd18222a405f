//! The error numbers that the agent answers with.

use vstd::prelude::*;

use crate::vfs::VfsError;

verus! {

/// No such file or directory.
pub const ENOENT: i32 = 2;

/// Input/output error.
pub const EIO: i32 = 5;

/// Bad file descriptor.
pub const EBADF: i32 = 9;

/// Permission denied.
pub const EACCES: i32 = 13;

/// File exists.
pub const EEXIST: i32 = 17;

/// Not a directory.
pub const ENOTDIR: i32 = 20;

/// Is a directory.
pub const EISDIR: i32 = 21;

/// The constant `libc::ENOENT` is two.
#[verifier::external_body]
pub(crate) fn enoent() -> (r: i32)
    ensures
        r == ENOENT,
{
    libc::ENOENT
}

/// The constant `libc::EIO` is five.
#[verifier::external_body]
fn eio() -> (r: i32)
    ensures
        r == EIO,
{
    libc::EIO
}

/// The constant `libc::EBADF` is nine.
#[verifier::external_body]
pub(crate) fn ebadf() -> (r: i32)
    ensures
        r == EBADF,
{
    libc::EBADF
}

/// The constant `libc::EACCES` is thirteen.
#[verifier::external_body]
fn eacces() -> (r: i32)
    ensures
        r == EACCES,
{
    libc::EACCES
}

/// The constant `libc::EEXIST` is seventeen.
#[verifier::external_body]
fn eexist() -> (r: i32)
    ensures
        r == EEXIST,
{
    libc::EEXIST
}

/// The constant `libc::ENOTDIR` is twenty.
#[verifier::external_body]
fn enotdir() -> (r: i32)
    ensures
        r == ENOTDIR,
{
    libc::ENOTDIR
}

/// The constant `libc::EISDIR` is twenty-one.
#[verifier::external_body]
fn eisdir() -> (r: i32)
    ensures
        r == EISDIR,
{
    libc::EISDIR
}

/// The number of an error.
pub open spec fn errno_of(e: VfsError) -> i32 {
    match e {
        VfsError::NotFound => ENOENT,
        VfsError::PermissionDenied => EACCES,
        VfsError::AlreadyExists => EEXIST,
        VfsError::NotADirectory => ENOTDIR,
        VfsError::IsADirectory => EISDIR,
        VfsError::Io(_) => EIO,
    }
}

/// The number of an error.
pub fn errno(e: &VfsError) -> (r: i32)
    ensures
        r == errno_of(*e),
{
    match e {
        VfsError::NotFound => enoent(),
        VfsError::PermissionDenied => eacces(),
        VfsError::AlreadyExists => eexist(),
        VfsError::NotADirectory => enotdir(),
        VfsError::IsADirectory => eisdir(),
        VfsError::Io(_) => eio(),
    }
}

/// Errors of different kinds have different numbers, none of which means success.
pub proof fn errno_tells_errors_apart(a: VfsError, b: VfsError)
    ensures
        errno_of(a) > 0,
        errno_of(a) == errno_of(b) <==> (a == b || (a is Io && b is Io)),
{
}

} // verus!
