//! The FUSE operations.
//!
//! An operation that needs the host is done in steps: it names the request to send, and a second
//! function turns what came back into the answer to the kernel. Nothing is cached between
//! operations but the two tables.

use vstd::prelude::*;

use crate::agent::errno::{ebadf, enoent, errno, errno_of, EBADF, EIO, ENOENT};
use crate::agent::tables::{
    numbers_are_stable, numbers_tell_paths_apart, Tables, TablesView, ROOT_INO,
};
use crate::path::{join_path, pushed};
use crate::rpc::client::{Client, Reply};
use crate::rpc::proto::{Outcome, Request, Response};
use crate::text::same_text;
use crate::vfs::{DirEntry, FileAttr, FsKind, VfsError, VfsResult};

verus! {

/// How long the kernel may keep an answer, in seconds.
pub const TTL_SECS: u64 = 1;

/// What the kernel calls the kind of an entry.
#[derive(Debug, Clone, Copy, PartialEq, Eq, Structural)]
pub enum FileType {
    RegularFile,
    Directory,
    Symlink,
}

/// The attributes that the kernel is given. Times are whole seconds after the epoch.
#[derive(Debug, Clone, Copy, PartialEq, Eq, Structural)]
pub struct FuseAttr {
    pub ino: u64,
    pub size: u64,
    pub blocks: u64,
    pub atime: u64,
    pub mtime: u64,
    pub ctime: u64,
    pub crtime: u64,
    pub kind: FileType,
    pub perm: u16,
    pub nlink: u32,
    pub uid: u32,
    pub gid: u32,
    pub rdev: u32,
    pub blksize: u32,
    pub flags: u32,
}

/// The kind of an entry as the kernel calls it.
pub open spec fn file_type_of(k: FsKind) -> FileType {
    match k {
        FsKind::File => FileType::RegularFile,
        FsKind::Dir => FileType::Directory,
        FsKind::Symlink => FileType::Symlink,
    }
}

/// The kind of an entry as the kernel calls it.
pub fn file_type(k: FsKind) -> (r: FileType)
    ensures
        r == file_type_of(k),
{
    match k {
        FsKind::File => FileType::RegularFile,
        FsKind::Dir => FileType::Directory,
        FsKind::Symlink => FileType::Symlink,
    }
}

/// A number that is not below zero: the number itself, or zero for one that is.
pub open spec fn at_least_zero(s: i64) -> u64 {
    if s < 0 {
        0
    } else {
        s as u64
    }
}

/// A number that is not below zero.
fn clamp_at_zero(s: i64) -> (r: u64)
    ensures
        r == at_least_zero(s),
{
    if s < 0 {
        0
    } else {
        s as u64
    }
}

/// How many blocks of 512 bytes hold so many bytes.
pub open spec fn block_count(size: u64) -> int {
    (size + 511) / 512
}

/// The attributes of an entry with a number, as the kernel is given them: everything belongs to the
/// superuser, a directory counts two links and anything else one, the change time serves as the
/// creation time, and of the mode the permission bits remain.
pub open spec fn fuse_attr_of(ino: u64, a: FileAttr) -> FuseAttr {
    FuseAttr {
        ino,
        size: a.size,
        blocks: block_count(a.size) as u64,
        atime: at_least_zero(a.atime_secs),
        mtime: at_least_zero(a.mtime_secs),
        ctime: at_least_zero(a.ctime_secs),
        crtime: at_least_zero(a.ctime_secs),
        kind: file_type_of(a.kind),
        perm: (a.mode % 4096) as u16,
        nlink: if a.kind is Dir {
            2
        } else {
            1
        },
        uid: 0,
        gid: 0,
        rdev: 0,
        blksize: 4096,
        flags: 0,
    }
}

/// The attributes of an entry with a number, as the kernel is given them.
pub fn to_fuse_attr(ino: u64, a: &FileAttr) -> (r: FuseAttr)
    ensures
        r == fuse_attr_of(ino, *a),
{
    let whole: u64 = a.size / 512;
    let blocks: u64 = if a.size % 512 == 0 {
        whole
    } else {
        whole + 1
    };
    let mode: u32 = a.mode;
    let perm: u32 = mode & 0o7777;
    assert(mode & 0o7777 == mode % 4096) by (bit_vector);
    FuseAttr {
        ino,
        size: a.size,
        blocks,
        atime: clamp_at_zero(a.atime_secs),
        mtime: clamp_at_zero(a.mtime_secs),
        ctime: clamp_at_zero(a.ctime_secs),
        crtime: clamp_at_zero(a.ctime_secs),
        kind: file_type(a.kind),
        perm: perm as u16,
        nlink: match a.kind {
            FsKind::Dir => 2,
            _ => 1,
        },
        uid: 0,
        gid: 0,
        rdev: 0,
        blksize: 4096,
        flags: 0,
    }
}

// ---------------------------------------------------------------- replies

/// The attributes that came back for a `stat`, or the error number.
pub open spec fn stat_result(reply: Reply) -> Result<FileAttr, i32> {
    match reply {
        Ok(Response::Stat(Ok(a))) => Ok(a),
        Ok(Response::Stat(Err(e))) => Err(errno_of(e)),
        _ => Err(EIO),
    }
}

/// The attributes that came back for a `create`, or the error number.
pub open spec fn create_result(reply: Reply) -> Result<FileAttr, i32> {
    match reply {
        Ok(Response::Create(Ok(a))) => Ok(a),
        Ok(Response::Create(Err(e))) => Err(errno_of(e)),
        _ => Err(EIO),
    }
}

/// The attributes that came back for a `mkdir`, or the error number.
pub open spec fn mkdir_result(reply: Reply) -> Result<FileAttr, i32> {
    match reply {
        Ok(Response::Mkdir(Ok(a))) => Ok(a),
        Ok(Response::Mkdir(Err(e))) => Err(errno_of(e)),
        _ => Err(EIO),
    }
}

/// The entries that came back for a `list`, or the error number.
pub open spec fn list_result(reply: Reply) -> Result<Vec<DirEntry>, i32> {
    match reply {
        Ok(Response::List(Ok(v))) => Ok(v),
        Ok(Response::List(Err(e))) => Err(errno_of(e)),
        _ => Err(EIO),
    }
}

/// The bytes that came back for a `read`, or the error number.
pub open spec fn read_result(reply: Reply) -> Result<Vec<u8>, i32> {
    match reply {
        Ok(Response::Read(Ok(d))) => Ok(d),
        Ok(Response::Read(Err(e))) => Err(errno_of(e)),
        _ => Err(EIO),
    }
}

/// The count that came back for a `write`, or the error number.
pub open spec fn write_result(reply: Reply) -> Result<u32, i32> {
    match reply {
        Ok(Response::Write(Ok(n))) => Ok(n),
        Ok(Response::Write(Err(e))) => Err(errno_of(e)),
        _ => Err(EIO),
    }
}

/// Whether the file was removed, or the error number.
pub open spec fn remove_result(reply: Reply) -> Result<(), i32> {
    match reply {
        Ok(Response::Remove(Ok(_))) => Ok(()),
        Ok(Response::Remove(Err(e))) => Err(errno_of(e)),
        _ => Err(EIO),
    }
}

/// Whether the directory was removed, or the error number.
pub open spec fn rmdir_result(reply: Reply) -> Result<(), i32> {
    match reply {
        Ok(Response::Rmdir(Ok(_))) => Ok(()),
        Ok(Response::Rmdir(Err(e))) => Err(errno_of(e)),
        _ => Err(EIO),
    }
}

/// Whether the entry was moved, or the error number.
pub open spec fn rename_result(reply: Reply) -> Result<(), i32> {
    match reply {
        Ok(Response::Rename(Ok(_))) => Ok(()),
        Ok(Response::Rename(Err(e))) => Err(errno_of(e)),
        _ => Err(EIO),
    }
}

/// Whether the size was set, or the error number.
pub open spec fn truncate_result(reply: Reply) -> Result<(), i32> {
    match reply {
        Ok(Response::Truncate(Ok(_))) => Ok(()),
        Ok(Response::Truncate(Err(e))) => Err(errno_of(e)),
        _ => Err(EIO),
    }
}

/// The outcome with the error's number in place of the error.
fn numbered<T>(r: VfsResult<T>) -> (n: Result<T, i32>)
    ensures
        n == match r {
            Ok(v) => Ok::<T, i32>(v),
            Err(e) => Err::<T, i32>(errno_of(e)),
        },
{
    match r {
        Ok(v) => Ok(v),
        Err(e) => Err(errno(&e)),
    }
}

// ---------------------------------------------------------------- directories

/// One entry of a directory as the kernel is given it.
#[derive(Debug, Clone, PartialEq, Eq)]
pub struct FuseDirEntry {
    pub ino: u64,
    /// Where a later reading that begins behind this entry starts.
    pub offset: i64,
    pub kind: FileType,
    pub name: String,
}

/// A directory that is being read: its entries, and the position of the next one to hand out.
pub struct Listing {
    ino: u64,
    path: String,
    kinds: Vec<FileType>,
    names: Vec<String>,
    next: usize,
}

/// What a reading of a directory holds.
#[verifier::ext_equal]
pub struct ListingView {
    pub ino: u64,
    pub path: Seq<char>,
    pub entries: Seq<(FileType, Seq<char>)>,
    pub next: int,
}

impl View for Listing {
    type V = ListingView;

    closed spec fn view(&self) -> ListingView {
        ListingView {
            ino: self.ino,
            path: self.path@,
            entries: Seq::new(self.names@.len(), |i: int| (self.kinds@[i], self.names@[i]@)),
            next: self.next as int,
        }
    }
}

/// All that a directory shows: itself, its parent, and what the host lists.
pub open spec fn shown_entries(listed: Seq<DirEntry>) -> Seq<(FileType, Seq<char>)> {
    seq![(FileType::Directory, "."@), (FileType::Directory, ".."@)] + Seq::new(
        listed.len(),
        |i: int| (file_type_of(listed[i].kind), listed[i].name@),
    )
}

/// The position at which a reading from `offset` begins: the end where the offset is negative or
/// lies behind it.
pub open spec fn start_of(offset: i64, len: int) -> int {
    if 0 <= offset < len {
        offset as int
    } else {
        len
    }
}

impl ListingView {
    /// There is an entry left.
    pub open spec fn has_next(self) -> bool {
        0 <= self.next < self.entries.len()
    }

    /// The name of the next entry.
    pub open spec fn next_name(self) -> Seq<char> {
        self.entries[self.next].1
    }

    /// The next entry is the directory itself or its parent.
    pub open spec fn next_is_dots(self) -> bool {
        self.next_name() == "."@ || self.next_name() == ".."@
    }

    /// The path of the next entry, where it is neither.
    pub open spec fn next_path(self) -> Seq<char> {
        pushed(self.path, self.next_name())
    }

    /// The number of the next entry: that of the directory for itself, that of the root for the
    /// parent, and else that of its path.
    pub open spec fn next_ino(self, t: TablesView) -> u64 {
        if self.next_name() == "."@ {
            self.ino
        } else if self.next_name() == ".."@ {
            ROOT_INO
        } else {
            t.number(self.next_path())
        }
    }

    /// The tables once the next entry has been handed out.
    pub open spec fn next_tables(self, t: TablesView) -> TablesView {
        if self.next_is_dots() {
            t
        } else {
            t.interned(self.next_path())
        }
    }
}

impl Listing {
    /// The reading is sound.
    pub closed spec fn valid(self) -> bool {
        &&& self.kinds@.len() == self.names@.len()
        &&& self.next <= self.names@.len()
    }
}

// ---------------------------------------------------------------- operations

/// A request about a path that matters for the answer too.
#[derive(Debug, Clone, PartialEq, Eq)]
pub struct PathCall {
    pub path: String,
    pub request: Request,
}

/// The state of a mounted file system.
pub struct TokimoFuse {
    tables: Tables,
}

impl View for TokimoFuse {
    type V = TablesView;

    closed spec fn view(&self) -> TablesView {
        self.tables@
    }
}

impl TokimoFuse {
    /// A file system that has not been used yet.
    pub fn new() -> (r: Self)
        ensures
            r@ == TablesView::initial(),
            r@.wf(),
    {
        TokimoFuse { tables: Tables::new() }
    }

    /// Whether there are a number and a handle left to give out.
    pub fn has_room(&self) -> (r: bool)
        ensures
            r == self@.has_room(),
    {
        self.tables.has_room()
    }

    /// The path of an entry of a directory.
    fn child(&self, parent: u64, name: &str) -> (r: Result<String, i32>)
        ensures
            match self@.path_of(parent) {
                Some(p) => r matches Ok(c) && c@ == pushed(p, name@),
                None => r == Err::<String, i32>(ENOENT),
            },
    {
        match self.tables.path_for(parent) {
            Some(p) => Ok(join_path(p.as_str(), name)),
            None => Err(enoent()),
        }
    }

    /// Looks an entry up: asks for its attributes.
    pub fn lookup(&self, parent: u64, name: &str) -> (r: Result<PathCall, i32>)
        ensures
            match self@.path_of(parent) {
                Some(p) => r matches Ok(c) && c.path@ == pushed(p, name@) && (
                c.request matches Request::Stat { path } && path@ == c.path@),
                None => r == Err::<PathCall, i32>(ENOENT),
            },
    {
        match self.child(parent, name) {
            Ok(path) => {
                let request = Client::stat(path.as_str());
                Ok(PathCall { path, request })
            },
            Err(e) => Err(e),
        }
    }

    /// The entry exists where attributes came back; it then has a number.
    pub fn lookup_done(&mut self, path: String, reply: Reply) -> (r: Result<FuseAttr, i32>)
        requires
            old(self)@.wf(),
            old(self)@.has_room(),
        ensures
            final(self)@.wf(),
            match stat_result(reply) {
                Ok(a) => {
                    &&& r == Ok::<FuseAttr, i32>(fuse_attr_of(old(self)@.number(path@), a))
                    &&& final(self)@ == old(self)@.interned(path@)
                },
                Err(e) => r == Err::<FuseAttr, i32>(e) && final(self)@ == old(self)@,
            },
    {
        match numbered(Client::stat_reply(reply)) {
            Ok(a) => {
                let ino: u64 = self.tables.intern(path);
                Ok(to_fuse_attr(ino, &a))
            },
            Err(e) => Err(e),
        }
    }

    /// Asks for the attributes of what a number stands for.
    pub fn getattr(&self, ino: u64) -> (r: Result<Request, i32>)
        ensures
            match self@.path_of(ino) {
                Some(p) => r matches Ok(Request::Stat { path }) && path@ == p,
                None => r == Err::<Request, i32>(ENOENT),
            },
    {
        match self.tables.path_for(ino) {
            Some(p) => Ok(Client::stat(p.as_str())),
            None => Err(enoent()),
        }
    }

    /// The attributes, under the number that was asked for.
    pub fn getattr_done(&self, ino: u64, reply: Reply) -> (r: Result<FuseAttr, i32>)
        ensures
            r == match stat_result(reply) {
                Ok(a) => Ok::<FuseAttr, i32>(fuse_attr_of(ino, a)),
                Err(e) => Err::<FuseAttr, i32>(e),
            },
    {
        match numbered(Client::stat_reply(reply)) {
            Ok(a) => Ok(to_fuse_attr(ino, &a)),
            Err(e) => Err(e),
        }
    }

    /// Sets attributes, of which only the size is honoured: where one is given it is set first;
    /// then, as where none is, the attributes are asked for.
    pub fn setattr(&self, ino: u64, size: Option<u64>) -> (r: Result<PathCall, i32>)
        ensures
            match self@.path_of(ino) {
                Some(p) => r matches Ok(c) && c.path@ == p && match size {
                    Some(s) => c.request matches Request::Truncate { path, size: n } && path@ == p
                        && n == s,
                    None => c.request matches Request::Stat { path } && path@ == p,
                },
                None => r == Err::<PathCall, i32>(ENOENT),
            },
    {
        match self.tables.path_for(ino) {
            Some(path) => {
                let request = match size {
                    Some(s) => Client::truncate(path.as_str(), s),
                    None => Client::stat(path.as_str()),
                };
                Ok(PathCall { path, request })
            },
            None => Err(enoent()),
        }
    }

    /// Once the size is set the attributes are asked for; the answer is that of `getattr_done`.
    pub fn setattr_resized(&self, path: &str, reply: Reply) -> (r: Result<Request, i32>)
        ensures
            match truncate_result(reply) {
                Ok(_) => r matches Ok(Request::Stat { path: p }) && p@ == path@,
                Err(e) => r == Err::<Request, i32>(e),
            },
    {
        match numbered(Client::truncate_reply(reply)) {
            Ok(_) => Ok(Client::stat(path)),
            Err(e) => Err(e),
        }
    }

    /// Opens a directory: gives out a handle for it.
    pub fn opendir(&mut self, ino: u64) -> (r: Result<u64, i32>)
        requires
            old(self)@.wf(),
            old(self)@.has_room(),
        ensures
            final(self)@.wf(),
            match old(self)@.path_of(ino) {
                Some(p) => r == Ok::<u64, i32>(old(self)@.next_fh) && final(self)@ == old(
                    self,
                )@.opened(p),
                None => r == Err::<u64, i32>(ENOENT) && final(self)@ == old(self)@,
            },
    {
        match self.tables.path_for(ino) {
            Some(p) => Ok(self.tables.alloc_fh(p)),
            None => Err(enoent()),
        }
    }

    /// Gives back the handle of a directory.
    pub fn releasedir(&mut self, fh: u64)
        requires
            old(self)@.wf(),
        ensures
            final(self)@.wf(),
            final(self)@ == old(self)@.released(fh),
    {
        self.tables.release_fh(fh);
    }

    /// Reads a directory: asks for its entries.
    pub fn readdir(&self, ino: u64) -> (r: Result<PathCall, i32>)
        ensures
            match self@.path_of(ino) {
                Some(p) => r matches Ok(c) && c.path@ == p && (c.request matches Request::List {
                    path,
                } && path@ == p),
                None => r == Err::<PathCall, i32>(ENOENT),
            },
    {
        match self.tables.path_for(ino) {
            Some(path) => {
                let request = Client::list(path.as_str());
                Ok(PathCall { path, request })
            },
            None => Err(enoent()),
        }
    }

    /// Begins to hand out the entries that came back, from `offset` on.
    pub fn readdir_begin(&self, ino: u64, path: String, offset: i64, reply: Reply) -> (r: Result<
        Listing,
        i32,
    >)
        ensures
            match list_result(reply) {
                Ok(listed) => r matches Ok(l) && l.valid() && l@ == (ListingView {
                    ino,
                    path: path@,
                    entries: shown_entries(listed@),
                    next: start_of(offset, shown_entries(listed@).len() as int),
                }),
                Err(e) => r == Err::<Listing, i32>(e),
            },
    {
        let listed = match numbered(Client::list_reply(reply)) {
            Ok(v) => v,
            Err(e) => {
                return Err(e);
            },
        };
        let mut kinds: Vec<FileType> = Vec::new();
        let mut names: Vec<String> = Vec::new();
        kinds.push(FileType::Directory);
        names.push(".".to_owned());
        kinds.push(FileType::Directory);
        names.push("..".to_owned());
        let mut i: usize = 0;
        while i < listed.len()
            invariant
                i <= listed@.len(),
                kinds@.len() == names@.len() == i + 2,
                forall|j: int|
                    0 <= j < names@.len() ==> (#[trigger] kinds@[j], names@[j]@) == shown_entries(
                        listed@,
                    )[j],
            decreases listed@.len() - i,
        {
            kinds.push(file_type(listed[i].kind));
            names.push(listed[i].name.clone());
            i += 1;
        }
        let next: usize = if offset < 0 || offset as u64 >= names.len() as u64 {
            names.len()
        } else {
            offset as usize
        };
        let l = Listing { ino, path, kinds, names, next };
        assert(l@.entries =~= shown_entries(listed@));
        Ok(l)
    }

    /// Hands out the next entry. The entries of a directory get their numbers as they are handed
    /// out.
    pub fn readdir_next(&mut self, l: &mut Listing) -> (r: Option<FuseDirEntry>)
        requires
            old(self)@.wf(),
            old(self)@.has_room(),
            old(l).valid(),
        ensures
            final(self)@.wf(),
            final(l).valid(),
            final(l)@ == (ListingView { next: final(l)@.next, ..old(l)@ }),
            if old(l)@.has_next() {
                &&& r matches Some(e) && {
                    &&& e.ino == old(l)@.next_ino(old(self)@)
                    &&& e.offset == (old(l)@.next + 1) as i64
                    &&& e.kind == old(l)@.entries[old(l)@.next].0
                    &&& e.name@ == old(l)@.next_name()
                }
                &&& final(l)@.next == old(l)@.next + 1
                &&& final(self)@ == old(l)@.next_tables(old(self)@)
            } else {
                r is None && final(l)@ == old(l)@ && final(self)@ == old(self)@
            },
    {
        let i: usize = l.next;
        if i >= l.names.len() {
            return None;
        }
        let name = l.names[i].clone();
        let kind = l.kinds[i];
        let ino: u64 = if same_text(name.as_str(), ".") {
            l.ino
        } else if same_text(name.as_str(), "..") {
            ROOT_INO
        } else {
            self.tables.intern(join_path(l.path.as_str(), name.as_str()))
        };
        l.next = i + 1;
        assert(l@.entries =~= old(l)@.entries);
        Some(FuseDirEntry { ino, offset: (i + 1) as i64, kind, name })
    }

    /// Opens a file: gives out a handle for it.
    pub fn open(&mut self, ino: u64) -> (r: Result<u64, i32>)
        requires
            old(self)@.wf(),
            old(self)@.has_room(),
        ensures
            final(self)@.wf(),
            match old(self)@.path_of(ino) {
                Some(p) => r == Ok::<u64, i32>(old(self)@.next_fh) && final(self)@ == old(
                    self,
                )@.opened(p),
                None => r == Err::<u64, i32>(ENOENT) && final(self)@ == old(self)@,
            },
    {
        match self.tables.path_for(ino) {
            Some(p) => Ok(self.tables.alloc_fh(p)),
            None => Err(enoent()),
        }
    }

    /// Gives back the handle of a file.
    pub fn release(&mut self, fh: u64)
        requires
            old(self)@.wf(),
        ensures
            final(self)@.wf(),
            final(self)@ == old(self)@.released(fh),
    {
        self.tables.release_fh(fh);
    }

    /// Asks for bytes of an open file.
    pub fn read(&self, fh: u64, offset: i64, size: u32) -> (r: Result<Request, i32>)
        ensures
            match self@.handle_path(fh) {
                Some(p) => r matches Ok(Request::Read { path, offset: o, len }) && path@ == p && o
                    == at_least_zero(offset) && len == size,
                None => r == Err::<Request, i32>(EBADF),
            },
    {
        match self.tables.handle_path(fh) {
            Some(p) => Ok(Client::read(p.as_str(), clamp_at_zero(offset), size)),
            None => Err(ebadf()),
        }
    }

    /// The bytes.
    pub fn read_done(&self, reply: Reply) -> (r: Result<Vec<u8>, i32>)
        ensures
            r == read_result(reply),
    {
        numbered(Client::read_reply(reply))
    }

    /// Asks to write bytes to an open file.
    pub fn write(&self, fh: u64, offset: i64, data: Vec<u8>) -> (r: Result<Request, i32>)
        ensures
            match self@.handle_path(fh) {
                Some(p) => r matches Ok(Request::Write { path, offset: o, data: d }) && path@ == p
                    && o == at_least_zero(offset) && d == data,
                None => r == Err::<Request, i32>(EBADF),
            },
    {
        match self.tables.handle_path(fh) {
            Some(p) => Ok(Client::write(p.as_str(), clamp_at_zero(offset), data)),
            None => Err(ebadf()),
        }
    }

    /// How many bytes were written.
    pub fn write_done(&self, reply: Reply) -> (r: Result<u32, i32>)
        ensures
            r == write_result(reply),
    {
        numbered(Client::write_reply(reply))
    }

    /// Asks for a new file.
    pub fn create(&self, parent: u64, name: &str, mode: u32) -> (r: Result<PathCall, i32>)
        ensures
            match self@.path_of(parent) {
                Some(p) => r matches Ok(c) && c.path@ == pushed(p, name@) && (
                c.request matches Request::Create { path, mode: m } && path@ == c.path@ && m
                    == mode),
                None => r == Err::<PathCall, i32>(ENOENT),
            },
    {
        match self.child(parent, name) {
            Ok(path) => {
                let request = Client::create(path.as_str(), mode);
                Ok(PathCall { path, request })
            },
            Err(e) => Err(e),
        }
    }

    /// The new file has a number and is open.
    pub fn create_done(&mut self, path: String, reply: Reply) -> (r: Result<(FuseAttr, u64), i32>)
        requires
            old(self)@.wf(),
            old(self)@.has_room(),
        ensures
            final(self)@.wf(),
            match create_result(reply) {
                Ok(a) => {
                    &&& r == Ok::<(FuseAttr, u64), i32>(
                        (fuse_attr_of(old(self)@.number(path@), a), old(self)@.next_fh),
                    )
                    &&& final(self)@ == old(self)@.interned(path@).opened(path@)
                },
                Err(e) => r == Err::<(FuseAttr, u64), i32>(e) && final(self)@ == old(self)@,
            },
    {
        match numbered(Client::create_reply(reply)) {
            Ok(a) => {
                let ino: u64 = self.tables.intern(path.clone());
                let fh: u64 = self.tables.alloc_fh(path);
                Ok((to_fuse_attr(ino, &a), fh))
            },
            Err(e) => Err(e),
        }
    }

    /// Asks for a new directory.
    pub fn mkdir(&self, parent: u64, name: &str, mode: u32) -> (r: Result<PathCall, i32>)
        ensures
            match self@.path_of(parent) {
                Some(p) => r matches Ok(c) && c.path@ == pushed(p, name@) && (
                c.request matches Request::Mkdir { path, mode: m } && path@ == c.path@ && m
                    == mode),
                None => r == Err::<PathCall, i32>(ENOENT),
            },
    {
        match self.child(parent, name) {
            Ok(path) => {
                let request = Client::mkdir(path.as_str(), mode);
                Ok(PathCall { path, request })
            },
            Err(e) => Err(e),
        }
    }

    /// The new directory has a number.
    pub fn mkdir_done(&mut self, path: String, reply: Reply) -> (r: Result<FuseAttr, i32>)
        requires
            old(self)@.wf(),
            old(self)@.has_room(),
        ensures
            final(self)@.wf(),
            match mkdir_result(reply) {
                Ok(a) => {
                    &&& r == Ok::<FuseAttr, i32>(fuse_attr_of(old(self)@.number(path@), a))
                    &&& final(self)@ == old(self)@.interned(path@)
                },
                Err(e) => r == Err::<FuseAttr, i32>(e) && final(self)@ == old(self)@,
            },
    {
        match numbered(Client::mkdir_reply(reply)) {
            Ok(a) => {
                let ino: u64 = self.tables.intern(path);
                Ok(to_fuse_attr(ino, &a))
            },
            Err(e) => Err(e),
        }
    }

    /// Asks to remove a file.
    pub fn unlink(&self, parent: u64, name: &str) -> (r: Result<Request, i32>)
        ensures
            match self@.path_of(parent) {
                Some(p) => r matches Ok(Request::Remove { path }) && path@ == pushed(p, name@),
                None => r == Err::<Request, i32>(ENOENT),
            },
    {
        match self.child(parent, name) {
            Ok(path) => Ok(Client::remove(path.as_str())),
            Err(e) => Err(e),
        }
    }

    /// Whether the file was removed.
    pub fn unlink_done(&self, reply: Reply) -> (r: Result<(), i32>)
        ensures
            r == remove_result(reply),
    {
        numbered(Client::remove_reply(reply))
    }

    /// Asks to remove a directory.
    pub fn rmdir(&self, parent: u64, name: &str) -> (r: Result<Request, i32>)
        ensures
            match self@.path_of(parent) {
                Some(p) => r matches Ok(Request::Rmdir { path }) && path@ == pushed(p, name@),
                None => r == Err::<Request, i32>(ENOENT),
            },
    {
        match self.child(parent, name) {
            Ok(path) => Ok(Client::rmdir(path.as_str())),
            Err(e) => Err(e),
        }
    }

    /// Whether the directory was removed.
    pub fn rmdir_done(&self, reply: Reply) -> (r: Result<(), i32>)
        ensures
            r == rmdir_result(reply),
    {
        numbered(Client::rmdir_reply(reply))
    }

    /// Asks to move an entry.
    pub fn rename(&self, parent: u64, name: &str, newparent: u64, newname: &str) -> (r: Result<
        Request,
        i32,
    >)
        ensures
            match (self@.path_of(parent), self@.path_of(newparent)) {
                (Some(p), Some(np)) => r matches Ok(Request::Rename { from, to }) && from@
                    == pushed(p, name@) && to@ == pushed(np, newname@),
                _ => r == Err::<Request, i32>(ENOENT),
            },
    {
        let from = match self.child(parent, name) {
            Ok(path) => path,
            Err(e) => {
                return Err(e);
            },
        };
        match self.child(newparent, newname) {
            Ok(to) => Ok(Client::rename(from.as_str(), to.as_str())),
            Err(e) => Err(e),
        }
    }

    /// Whether the entry was moved.
    pub fn rename_done(&self, reply: Reply) -> (r: Result<(), i32>)
        ensures
            r == rename_result(reply),
    {
        numbered(Client::rename_reply(reply))
    }
}

/// A reading of a directory that begins at the offset of an entry goes on behind that entry: no
/// entry is skipped and none comes twice.
pub proof fn readdir_resumes_behind_entry(l: ListingView)
    requires
        l.has_next(),
        l.entries.len() <= i64::MAX,
    ensures
        start_of((l.next + 1) as i64, l.entries.len() as int) == l.next + 1,
        start_of(0, l.entries.len() as int) == 0,
{
}

/// The number that an entry of a directory is handed out with is the one that looking the entry up
/// gives.
pub proof fn readdir_agrees_with_lookup(t: TablesView, l: ListingView)
    requires
        t.wf(),
        t.next_ino < u64::MAX,
        t.path_of(l.ino) == Some(l.path),
        l.has_next(),
        !l.next_is_dots(),
    ensures
        l.next_tables(t).path_of(l.ino) == Some(l.path),
        l.next_tables(t).number(pushed(l.path, l.next_name())) == l.next_ino(t),
        l.next_tables(t).knows(pushed(l.path, l.next_name())),
{
    numbers_are_stable(t, l.next_path(), l.ino);
    numbers_tell_paths_apart(t, l.next_path(), l.next_path());
}

/// An error of the file system on the host is answered with its own number, whatever the
/// operation.
pub proof fn host_error_is_answered(e: VfsError)
    ensures
        stat_result(Ok(Outcome::Stat(Err(e)).as_response())) == Err::<FileAttr, i32>(errno_of(e)),
        list_result(Ok(Outcome::List(Err(e)).as_response())) == Err::<Vec<DirEntry>, i32>(
            errno_of(e),
        ),
        read_result(Ok(Outcome::Read(Err(e)).as_response())) == Err::<Vec<u8>, i32>(errno_of(e)),
        write_result(Ok(Outcome::Write(Err(e)).as_response())) == Err::<u32, i32>(errno_of(e)),
        create_result(Ok(Outcome::Create(Err(e)).as_response())) == Err::<FileAttr, i32>(
            errno_of(e),
        ),
        mkdir_result(Ok(Outcome::Mkdir(Err(e)).as_response())) == Err::<FileAttr, i32>(
            errno_of(e),
        ),
        remove_result(Ok(Outcome::Remove(Err(e)).as_response())) == Err::<(), i32>(errno_of(e)),
        rmdir_result(Ok(Outcome::Rmdir(Err(e)).as_response())) == Err::<(), i32>(errno_of(e)),
        rename_result(Ok(Outcome::Rename(Err(e)).as_response())) == Err::<(), i32>(errno_of(e)),
        truncate_result(Ok(Outcome::Truncate(Err(e)).as_response())) == Err::<(), i32>(
            errno_of(e),
        ),
{
}

/// What the file system on the host gave back for a read is what the kernel gets, and a number that
/// was opened is read under its own path.
pub proof fn read_reaches_the_file(t: TablesView, ino: u64, d: Vec<u8>)
    requires
        t.wf(),
        t.path_of(ino) is Some,
        t.next_fh < u64::MAX,
    ensures
        t.opened(t.path_of(ino)->0).handle_path(t.next_fh) == t.path_of(ino),
        read_result(Ok(Outcome::Read(Ok(d)).as_response())) == Ok::<Vec<u8>, i32>(d),
{
}

} // verus!
