//! The data that a virtual file system hands out, and its errors.

use vstd::prelude::*;

use crate::text::concat2;

verus! {

/// Kind of file-system entry.
#[derive(Debug, Clone, Copy, PartialEq, Eq, Structural)]
pub enum FsKind {
    File,
    Dir,
    Symlink,
}

/// The attributes that the guest agent needs to answer a `stat`.
#[derive(Debug, Clone, Copy, PartialEq, Eq, Structural)]
pub struct FileAttr {
    pub size: u64,
    pub mode: u32,
    pub kind: FsKind,
    pub mtime_secs: i64,
    pub atime_secs: i64,
    pub ctime_secs: i64,
}

/// One entry of a directory.
#[derive(Debug, Clone, PartialEq, Eq)]
pub struct DirEntry {
    pub name: String,
    pub kind: FsKind,
}

/// Why a file-system operation failed.
#[derive(Debug, Clone, PartialEq, Eq)]
pub enum VfsError {
    NotFound,
    PermissionDenied,
    AlreadyExists,
    NotADirectory,
    IsADirectory,
    Io(String),
}

/// The operations of a virtual file system.
#[derive(Debug, Clone, Copy, PartialEq, Eq, Structural)]
pub enum VfsOp {
    Stat,
    List,
    Read,
    Write,
    Create,
    Mkdir,
    Remove,
    Rmdir,
    Rename,
    Truncate,
}

impl VfsOp {
    /// The operation changes the file system.
    pub open spec fn mutates(self) -> bool {
        !(self is Stat || self is List || self is Read)
    }
}

/// The outcome of a file-system operation.
pub type VfsResult<T> = Result<T, VfsError>;

impl VfsError {
    /// The text that describes the error.
    pub open spec fn spec_message(self) -> Seq<char> {
        match self {
            VfsError::NotFound => "not found"@,
            VfsError::PermissionDenied => "permission denied"@,
            VfsError::AlreadyExists => "already exists"@,
            VfsError::NotADirectory => "not a directory"@,
            VfsError::IsADirectory => "is a directory"@,
            VfsError::Io(m) => "io: "@ + m@,
        }
    }

    /// The text that describes the error.
    pub fn message(&self) -> (r: String)
        ensures
            r@ == self.spec_message(),
    {
        match self {
            VfsError::NotFound => "not found".to_owned(),
            VfsError::PermissionDenied => "permission denied".to_owned(),
            VfsError::AlreadyExists => "already exists".to_owned(),
            VfsError::NotADirectory => "not a directory".to_owned(),
            VfsError::IsADirectory => "is a directory".to_owned(),
            VfsError::Io(m) => concat2("io: ", m.as_str()),
        }
    }
}

/// An operation changes something exactly where it is not one that looks.
pub proof fn looking_changes_nothing(op: VfsOp)
    ensures
        op.mutates() <==> op is Write || op is Create || op is Mkdir || op is Remove || op is Rmdir
            || op is Rename || op is Truncate,
{
}

/// The text of an error ends with what is known of it, and tells the kinds of errors apart.
pub proof fn messages_say_what_happened(a: &VfsError, r: String, b: &VfsError, s: String)
    requires
        call_ensures(VfsError::message, (a,), r),
        call_ensures(VfsError::message, (b,), s),
    ensures
        *a matches VfsError::Io(m) ==> r@ == "io: "@ + m@,
        a is NotFound && b is PermissionDenied ==> r@ != s@,
        a is AlreadyExists && b is NotFound ==> r@ != s@,
        a is NotADirectory && b is IsADirectory ==> r@ != s@,
{
    reveal_strlit("not found");
    reveal_strlit("permission denied");
    reveal_strlit("already exists");
    reveal_strlit("not a directory");
    reveal_strlit("is a directory");
    assert("not found"@.len() == 9);
    assert("permission denied"@.len() == 17);
    assert("already exists"@.len() == 14);
    assert("not a directory"@.len() == 15);
    assert("is a directory"@.len() == 14);
}

} // verus!
