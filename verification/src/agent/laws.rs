//! What the operations of the agent are for: laws over their arguments and results.

use vstd::prelude::*;

use crate::agent::args::{Args, Channel};
use crate::agent::errno::errno;
use crate::agent::fuse::{
    file_type, to_fuse_attr, FileType, FuseAttr, FuseDirEntry, Listing, PathCall, TokimoFuse,
};
use crate::agent::tables::{number_leads_back, numbers_are_stable, numbers_tell_paths_apart};
use crate::path::{components, plain, pushed_name_is_last_component};
use crate::rpc::client::Reply;
use crate::rpc::proto::{Request, Response};
use crate::vfs::{DirEntry, FileAttr, FsKind, VfsError};

verus! {

// ---------------------------------------------------------------- attributes

/// The kernel's kind is that of the host: directories are directories, links are links, and
/// everything else is a file.
pub open spec fn same_kind(t: FileType, k: FsKind) -> bool {
    &&& t is Directory <==> k is Dir
    &&& t is Symlink <==> k is Symlink
    &&& t is RegularFile <==> k is File
}

/// The attributes show what the host reported: its size to the byte, in blocks that just hold it;
/// its kind; its times, as far as they are not before the epoch; and its permission bits.
pub open spec fn shows(x: FuseAttr, ino: u64, a: FileAttr) -> bool {
    &&& x.ino == ino
    &&& x.size == a.size
    &&& a.size <= 512 * x.blocks < a.size + 512
    &&& same_kind(x.kind, a.kind)
    &&& a.mtime_secs >= 0 ==> x.mtime == a.mtime_secs
    &&& a.atime_secs >= 0 ==> x.atime == a.atime_secs
    &&& a.ctime_secs >= 0 ==> x.ctime == a.ctime_secs && x.crtime == a.ctime_secs
    &&& a.mtime_secs < 0 ==> x.mtime == 0
    &&& a.atime_secs < 0 ==> x.atime == 0
    &&& a.ctime_secs < 0 ==> x.ctime == 0 && x.crtime == 0
    &&& x.perm < 4096
    &&& (a.mode - x.perm) % 4096 == 0
    &&& x.nlink == if a.kind is Dir {
        2int
    } else {
        1int
    }
    &&& x.uid == 0 && x.gid == 0 && x.rdev == 0 && x.flags == 0
    &&& x.blksize == 4096
}

/// The kernel is given the attributes that the host reported, for every size, time and mode.
pub proof fn attributes_show_the_entry(ino: u64, a: &FileAttr, x: FuseAttr)
    requires
        call_ensures(to_fuse_attr, (ino, a), x),
    ensures
        shows(x, ino, *a),
{
}

/// Entries that differ in size, kind, number or permission bits are not shown alike.
pub proof fn attributes_tell_entries_apart(
    ino: u64,
    a: &FileAttr,
    x: FuseAttr,
    other: u64,
    b: &FileAttr,
    y: FuseAttr,
)
    requires
        call_ensures(to_fuse_attr, (ino, a), x),
        call_ensures(to_fuse_attr, (other, b), y),
        x == y,
    ensures
        ino == other,
        a.size == b.size,
        a.kind == b.kind,
        a.mode % 4096 == b.mode % 4096,
        a.mtime_secs == b.mtime_secs || (a.mtime_secs <= 0 && b.mtime_secs <= 0),
{
}

/// The kind of an entry is told the same way whether it is listed or looked up.
pub proof fn kinds_agree(k: FsKind, listed: FileType, ino: u64, a: &FileAttr, x: FuseAttr)
    requires
        a.kind == k,
        call_ensures(file_type, (k,), listed),
        call_ensures(to_fuse_attr, (ino, a), x),
    ensures
        same_kind(listed, k),
        listed == x.kind,
{
}

// ---------------------------------------------------------------- errors

/// The number of an error is the one that the kernel knows it by.
pub open spec fn is_errno(n: i32, e: VfsError) -> bool {
    &&& e is NotFound ==> n == 2
    &&& e is Io ==> n == 5
    &&& e is PermissionDenied ==> n == 13
    &&& e is AlreadyExists ==> n == 17
    &&& e is NotADirectory ==> n == 20
    &&& e is IsADirectory ==> n == 21
}

/// Every error has the number that the kernel knows it by.
pub proof fn errors_have_their_numbers(e: &VfsError, n: i32)
    requires
        call_ensures(errno, (e,), n),
    ensures
        is_errno(n, *e),
{
}

// ---------------------------------------------------------------- reading and writing

/// What is read or written of an open file is what the kernel asked for: that file, from exactly
/// that place on, so many bytes, and those bytes. A place before the start is the start, and a
/// handle that is not open is refused.
pub proof fn reads_and_writes_go_where_they_are_aimed(
    fs: &TokimoFuse,
    fh: u64,
    offset: i64,
    size: u32,
    data: Vec<u8>,
    r: Result<Request, i32>,
    w: Result<Request, i32>,
)
    requires
        call_ensures(TokimoFuse::read, (fs, fh, offset, size), r),
        call_ensures(TokimoFuse::write, (fs, fh, offset, data), w),
    ensures
        match fs@.handle_path(fh) {
            Some(p) => {
                &&& r matches Ok(Request::Read { path, offset: o, len }) && path@ == p && len
                    == size && (offset >= 0 ==> o == offset) && (offset < 0 ==> o == 0)
                &&& w matches Ok(Request::Write { path, offset: o, data: d }) && path@ == p && d@
                    == data@ && (offset >= 0 ==> o == offset) && (offset < 0 ==> o == 0)
            },
            None => r == Err::<Request, i32>(9) && w == Err::<Request, i32>(9),
        },
{
}

/// Reads of different places or different lengths are different requests.
pub proof fn different_reads_are_different_requests(
    fs: &TokimoFuse,
    fh: u64,
    a: i64,
    n: u32,
    r: Result<Request, i32>,
    b: i64,
    m: u32,
    s: Result<Request, i32>,
)
    requires
        fs@.handle_path(fh) is Some,
        a >= 0,
        b >= 0,
        call_ensures(TokimoFuse::read, (fs, fh, a, n), r),
        call_ensures(TokimoFuse::read, (fs, fh, b, m), s),
        r == s,
    ensures
        a == b,
        n == m,
{
}

/// The kernel gets the bytes that the host gave, and the count of those that it took; an error of
/// the host under its number; and an input/output error for anything else.
pub proof fn replies_to_reads_and_writes_come_through(
    fs: &TokimoFuse,
    reply: Reply,
    r: Result<Vec<u8>, i32>,
    w: Result<u32, i32>,
)
    requires
        call_ensures(TokimoFuse::read_done, (fs, reply), r),
        call_ensures(TokimoFuse::write_done, (fs, reply), w),
    ensures
        match reply {
            Ok(Response::Read(Ok(d))) => r == Ok::<Vec<u8>, i32>(d),
            Ok(Response::Read(Err(e))) => r matches Err(n) && is_errno(n, e),
            _ => r == Err::<Vec<u8>, i32>(5),
        },
        match reply {
            Ok(Response::Write(Ok(n))) => w == Ok::<u32, i32>(n),
            Ok(Response::Write(Err(e))) => w matches Err(n) && is_errno(n, e),
            _ => w == Err::<u32, i32>(5),
        },
{
}

// ---------------------------------------------------------------- handles

/// An open file or directory is known by a new handle, which stands for the path of the number that
/// was opened; no other handle and no number changes. A number that is not known is refused.
pub proof fn opening_gives_a_handle(fs: &mut TokimoFuse, ino: u64, r: Result<u64, i32>, other: u64)
    requires
        old(fs)@.wf(),
        old(fs)@.has_room(),
        call_ensures(TokimoFuse::open, (fs, ino), r),
    ensures
        match old(fs)@.path_of(ino) {
            Some(p) => {
                &&& r matches Ok(fh) && old(fs)@.handle_path(fh) is None
                    && final(fs)@.handle_path(fh) == Some(p)
                    && (other != fh ==> final(fs)@.handle_path(other)
                    == old(fs)@.handle_path(other))
                &&& final(fs)@.path_of(other) == old(fs)@.path_of(other)
            },
            None => r == Err::<u64, i32>(2) && final(fs)@ == old(fs)@,
        },
{
}

/// As files are opened, so are directories.
pub proof fn opening_a_directory_gives_a_handle(
    fs: &mut TokimoFuse,
    ino: u64,
    r: Result<u64, i32>,
    other: u64,
)
    requires
        old(fs)@.wf(),
        old(fs)@.has_room(),
        call_ensures(TokimoFuse::opendir, (fs, ino), r),
    ensures
        match old(fs)@.path_of(ino) {
            Some(p) => {
                &&& r matches Ok(fh) && old(fs)@.handle_path(fh) is None
                    && final(fs)@.handle_path(fh) == Some(p)
                    && (other != fh ==> final(fs)@.handle_path(other)
                    == old(fs)@.handle_path(other))
                &&& final(fs)@.path_of(other) == old(fs)@.path_of(other)
            },
            None => r == Err::<u64, i32>(2) && final(fs)@ == old(fs)@,
        },
{
}

/// A handle that was given back stands for nothing; every other handle, and every number, stands
/// for what it did.
pub proof fn a_released_handle_is_gone(fs: &mut TokimoFuse, fh: u64, other: u64)
    requires
        old(fs)@.wf(),
        call_ensures(TokimoFuse::release, (fs, fh), ()),
    ensures
        final(fs)@.handle_path(fh) is None,
        other != fh ==> final(fs)@.handle_path(other) == old(fs)@.handle_path(other),
        final(fs)@.path_of(other) == old(fs)@.path_of(other),
{
}

/// As handles of files are given back, so are those of directories.
pub proof fn a_released_directory_is_gone(fs: &mut TokimoFuse, fh: u64, other: u64)
    requires
        old(fs)@.wf(),
        call_ensures(TokimoFuse::releasedir, (fs, fh), ()),
    ensures
        final(fs)@.handle_path(fh) is None,
        other != fh ==> final(fs)@.handle_path(other) == old(fs)@.handle_path(other),
        final(fs)@.path_of(other) == old(fs)@.path_of(other),
{
}

// ---------------------------------------------------------------- paths

/// A file system that has not been used knows the root under the number one, and nothing else.
pub proof fn a_new_file_system_knows_the_root(fs: TokimoFuse, ino: u64, fh: u64)
    requires
        call_ensures(TokimoFuse::new, (), fs),
    ensures
        fs@.path_of(1) == Some("/"@),
        ino != 1 ==> fs@.path_of(ino) is None,
        fs@.handle_path(fh) is None,
        fs@.has_room(),
{
}

/// The path is that of an entry of a directory: the components of the directory, and the name.
pub open spec fn is_entry_path(path: Seq<char>, dir: Seq<char>, name: Seq<char>) -> bool {
    components(path) == components(dir).push(name)
}

/// An entry is looked up, made and removed under its directory and its name, with the mode that was
/// asked for. A directory that is not known is refused.
pub proof fn operations_name_the_entry(
    fs: &TokimoFuse,
    parent: u64,
    name: &str,
    mode: u32,
    looked: Result<PathCall, i32>,
    created: Result<PathCall, i32>,
    made: Result<PathCall, i32>,
    unlinked: Result<Request, i32>,
    removed: Result<Request, i32>,
)
    requires
        plain(name@),
        call_ensures(TokimoFuse::lookup, (fs, parent, name), looked),
        call_ensures(TokimoFuse::create, (fs, parent, name, mode), created),
        call_ensures(TokimoFuse::mkdir, (fs, parent, name, mode), made),
        call_ensures(TokimoFuse::unlink, (fs, parent, name), unlinked),
        call_ensures(TokimoFuse::rmdir, (fs, parent, name), removed),
    ensures
        match fs@.path_of(parent) {
            Some(d) => {
                &&& looked matches Ok(c) && is_entry_path(c.path@, d, name@) && (
                c.request matches Request::Stat { path } && path@ == c.path@)
                &&& created matches Ok(c) && is_entry_path(c.path@, d, name@) && (
                c.request matches Request::Create { path, mode: m } && path@ == c.path@ && m
                    == mode)
                &&& made matches Ok(c) && is_entry_path(c.path@, d, name@) && (
                c.request matches Request::Mkdir { path, mode: m } && path@ == c.path@ && m
                    == mode)
                &&& unlinked matches Ok(Request::Remove { path }) && is_entry_path(
                    path@,
                    d,
                    name@,
                )
                &&& removed matches Ok(Request::Rmdir { path }) && is_entry_path(
                    path@,
                    d,
                    name@,
                )
            },
            None => {
                &&& looked == Err::<PathCall, i32>(2)
                &&& created == Err::<PathCall, i32>(2)
                &&& made == Err::<PathCall, i32>(2)
                &&& unlinked == Err::<Request, i32>(2)
                &&& removed == Err::<Request, i32>(2)
            },
        },
{
    if fs@.path_of(parent) is Some {
        pushed_name_is_last_component(fs@.path_of(parent)->0, name@);
    }
}

/// An entry is moved from its old directory and name to the new ones. A directory that is not known
/// is refused.
pub proof fn renaming_names_both_places(
    fs: &TokimoFuse,
    parent: u64,
    name: &str,
    newparent: u64,
    newname: &str,
    r: Result<Request, i32>,
)
    requires
        plain(name@),
        plain(newname@),
        call_ensures(TokimoFuse::rename, (fs, parent, name, newparent, newname), r),
    ensures
        match (fs@.path_of(parent), fs@.path_of(newparent)) {
            (Some(d), Some(e)) => r matches Ok(Request::Rename { from, to }) && is_entry_path(
                from@,
                d,
                name@,
            ) && is_entry_path(to@, e, newname@),
            _ => r == Err::<Request, i32>(2),
        },
{
    if fs@.path_of(parent) is Some && fs@.path_of(newparent) is Some {
        pushed_name_is_last_component(fs@.path_of(parent)->0, name@);
        pushed_name_is_last_component(fs@.path_of(newparent)->0, newname@);
    }
}

/// What is asked about a number is asked about its path: its attributes, its entries, and the size
/// that it is to have, to the byte.
pub proof fn numbers_are_asked_about_by_path(
    fs: &TokimoFuse,
    ino: u64,
    size: Option<u64>,
    attr: Result<Request, i32>,
    list: Result<PathCall, i32>,
    set: Result<PathCall, i32>,
)
    requires
        call_ensures(TokimoFuse::getattr, (fs, ino), attr),
        call_ensures(TokimoFuse::readdir, (fs, ino), list),
        call_ensures(TokimoFuse::setattr, (fs, ino, size), set),
    ensures
        match fs@.path_of(ino) {
            Some(p) => {
                &&& attr matches Ok(Request::Stat { path }) && path@ == p
                &&& list matches Ok(c) && c.path@ == p && (c.request matches Request::List { path }
                    && path@ == p)
                &&& set matches Ok(c) && c.path@ == p && match size {
                    Some(s) => c.request matches Request::Truncate { path, size: n } && path@ == p
                        && n == s,
                    None => c.request matches Request::Stat { path } && path@ == p,
                }
            },
            None => {
                &&& attr == Err::<Request, i32>(2)
                &&& list == Err::<PathCall, i32>(2)
                &&& set == Err::<PathCall, i32>(2)
            },
        },
        ino == 1 ==> (attr matches Ok(Request::Stat { path }) && path@ == "/"@),
{
}

/// Once the size was set the attributes of the same path are asked for; an error of the host is
/// answered under its number.
pub proof fn resizing_goes_on_with_the_attributes(
    fs: &TokimoFuse,
    path: &str,
    reply: Reply,
    r: Result<Request, i32>,
)
    requires
        call_ensures(TokimoFuse::setattr_resized, (fs, path, reply), r),
    ensures
        match reply {
            Ok(Response::Truncate(Ok(_))) => r matches Ok(Request::Stat { path: p }) && p@ == path@,
            Ok(Response::Truncate(Err(e))) => r matches Err(n) && is_errno(n, e),
            _ => r == Err::<Request, i32>(5),
        },
{
}

/// Whether something was removed or moved is what the host says.
pub proof fn replies_to_changes_come_through(
    fs: &TokimoFuse,
    reply: Reply,
    unlinked: Result<(), i32>,
    removed: Result<(), i32>,
    renamed: Result<(), i32>,
)
    requires
        call_ensures(TokimoFuse::unlink_done, (fs, reply), unlinked),
        call_ensures(TokimoFuse::rmdir_done, (fs, reply), removed),
        call_ensures(TokimoFuse::rename_done, (fs, reply), renamed),
    ensures
        match reply {
            Ok(Response::Remove(Ok(_))) => unlinked is Ok,
            Ok(Response::Remove(Err(e))) => unlinked matches Err(n) && is_errno(n, e),
            _ => unlinked == Err::<(), i32>(5),
        },
        match reply {
            Ok(Response::Rmdir(Ok(_))) => removed is Ok,
            Ok(Response::Rmdir(Err(e))) => removed matches Err(n) && is_errno(n, e),
            _ => removed == Err::<(), i32>(5),
        },
        match reply {
            Ok(Response::Rename(Ok(_))) => renamed is Ok,
            Ok(Response::Rename(Err(e))) => renamed matches Err(n) && is_errno(n, e),
            _ => renamed == Err::<(), i32>(5),
        },
{
}

// ---------------------------------------------------------------- entries

/// The attributes of a number are shown under that number.
pub proof fn attributes_are_shown_under_the_number(
    fs: &TokimoFuse,
    ino: u64,
    reply: Reply,
    r: Result<FuseAttr, i32>,
)
    requires
        call_ensures(TokimoFuse::getattr_done, (fs, ino, reply), r),
    ensures
        match reply {
            Ok(Response::Stat(Ok(a))) => r matches Ok(x) && shows(x, ino, a),
            Ok(Response::Stat(Err(e))) => r matches Err(n) && is_errno(n, e),
            _ => r == Err::<FuseAttr, i32>(5),
        },
{
}

/// An entry that was looked up has a number from then on: the number leads to its path, no number
/// that was known before leads elsewhere, and no handle changes. Its attributes are shown under that
/// number. Where the host has no such entry nothing changes.
pub proof fn looking_up_gives_a_number(
    fs: &mut TokimoFuse,
    path: String,
    reply: Reply,
    r: Result<FuseAttr, i32>,
    other: u64,
)
    requires
        old(fs)@.wf(),
        old(fs)@.has_room(),
        call_ensures(TokimoFuse::lookup_done, (fs, path, reply), r),
    ensures
        match reply {
            Ok(Response::Stat(Ok(a))) => r matches Ok(x) && shows(x, x.ino, a)
                && (final(fs)@.path_of(x.ino) matches Some(q)
                && components(q) == components(path@)),
            Ok(Response::Stat(Err(e))) => (r matches Err(n) && is_errno(n, e))
                && final(fs)@ == old(fs)@,
            _ => r == Err::<FuseAttr, i32>(5) && final(fs)@ == old(fs)@,
        },
        old(fs)@.path_of(other) is Some ==> final(fs)@.path_of(other) == old(fs)@.path_of(other),
        final(fs)@.handle_path(other) == old(fs)@.handle_path(other),
{
    number_leads_back(old(fs)@, path@);
    if old(fs)@.path_of(other) is Some {
        numbers_are_stable(old(fs)@, path@, other);
    }
}

/// Looking up the same path again gives the same number, and another path another one.
pub proof fn looking_up_again_gives_the_same_number(
    fs: &mut TokimoFuse,
    path: String,
    reply: Reply,
    r: Result<FuseAttr, i32>,
    gs: &mut TokimoFuse,
    again: String,
    second: Reply,
    s: Result<FuseAttr, i32>,
)
    requires
        old(fs)@.wf(),
        old(fs)@.has_room(),
        call_ensures(TokimoFuse::lookup_done, (fs, path, reply), r),
        old(gs)@ == final(fs)@,
        old(gs)@.has_room(),
        call_ensures(TokimoFuse::lookup_done, (gs, again, second), s),
        r is Ok,
        s is Ok,
    ensures
        r->Ok_0.ino == s->Ok_0.ino <==> components(path@) == components(again@),
{
    numbers_tell_paths_apart(old(fs)@, path@, again@);
}

/// A file that was made has a number and is open: the number and the handle lead to its path.
pub proof fn creating_gives_a_number_and_a_handle(
    fs: &mut TokimoFuse,
    path: String,
    reply: Reply,
    r: Result<(FuseAttr, u64), i32>,
    other: u64,
)
    requires
        old(fs)@.wf(),
        old(fs)@.has_room(),
        call_ensures(TokimoFuse::create_done, (fs, path, reply), r),
    ensures
        match reply {
            Ok(Response::Create(Ok(a))) => r matches Ok((x, fh)) && shows(x, x.ino, a)
                && (final(fs)@.path_of(x.ino) matches Some(q)
                && components(q) == components(path@))
                && final(fs)@.handle_path(fh) == Some(path@) && old(fs)@.handle_path(fh) is None
                && (other != fh
                ==> final(fs)@.handle_path(other) == old(fs)@.handle_path(other)),
            Ok(Response::Create(Err(e))) => (r matches Err(n) && is_errno(n, e)) && final(fs)@
                == old(fs)@,
            _ => r == Err::<(FuseAttr, u64), i32>(5) && final(fs)@ == old(fs)@,
        },
        old(fs)@.path_of(other) is Some ==> final(fs)@.path_of(other) == old(fs)@.path_of(other),
{
    number_leads_back(old(fs)@, path@);
    if old(fs)@.path_of(other) is Some {
        numbers_are_stable(old(fs)@, path@, other);
    }
}

/// A directory that was made has a number that leads to its path.
pub proof fn making_a_directory_gives_a_number(
    fs: &mut TokimoFuse,
    path: String,
    reply: Reply,
    r: Result<FuseAttr, i32>,
    other: u64,
)
    requires
        old(fs)@.wf(),
        old(fs)@.has_room(),
        call_ensures(TokimoFuse::mkdir_done, (fs, path, reply), r),
    ensures
        match reply {
            Ok(Response::Mkdir(Ok(a))) => r matches Ok(x) && shows(x, x.ino, a)
                && (final(fs)@.path_of(x.ino) matches Some(q)
                && components(q) == components(path@)),
            Ok(Response::Mkdir(Err(e))) => (r matches Err(n) && is_errno(n, e)) && final(fs)@
                == old(fs)@,
            _ => r == Err::<FuseAttr, i32>(5) && final(fs)@ == old(fs)@,
        },
        old(fs)@.path_of(other) is Some ==> final(fs)@.path_of(other) == old(fs)@.path_of(other),
        final(fs)@.handle_path(other) == old(fs)@.handle_path(other),
{
    number_leads_back(old(fs)@, path@);
    if old(fs)@.path_of(other) is Some {
        numbers_are_stable(old(fs)@, path@, other);
    }
}

// ---------------------------------------------------------------- directories

/// A directory shows itself, its parent, and then every entry that the host lists, in that order,
/// each under its own name and with its own kind. The reading begins at the entry with the number
/// that was asked for, counted from zero, or at the end where there is none.
pub proof fn a_directory_shows_what_the_host_lists(
    fs: &TokimoFuse,
    ino: u64,
    path: String,
    offset: i64,
    listed: Vec<DirEntry>,
    reply: Reply,
    r: Result<Listing, i32>,
    i: int,
)
    requires
        reply == Ok::<Response, String>(Response::List(Ok(listed))),
        call_ensures(TokimoFuse::readdir_begin, (fs, ino, path, offset, reply), r),
        0 <= i < listed@.len(),
    ensures
        r matches Ok(l) && {
            &&& l@.ino == ino
            &&& l@.path == path@
            &&& l@.entries.len() == listed@.len() + 2
            &&& l@.entries[0].0 is Directory && l@.entries[0].1 == "."@
            &&& l@.entries[1].0 is Directory && l@.entries[1].1 == ".."@
            &&& same_kind(l@.entries[i + 2].0, listed@[i].kind)
            &&& l@.entries[i + 2].1 == listed@[i].name@
            &&& 0 <= offset < listed@.len() + 2 ==> l@.next == offset
            &&& offset < 0 || offset >= listed@.len() + 2 ==> l@.next == listed@.len() + 2
        },
{
}

/// An error of the host is answered under its number, and anything else with an input/output error.
pub proof fn a_directory_that_cannot_be_listed_is_an_error(
    fs: &TokimoFuse,
    ino: u64,
    path: String,
    offset: i64,
    reply: Reply,
    r: Result<Listing, i32>,
)
    requires
        call_ensures(TokimoFuse::readdir_begin, (fs, ino, path, offset, reply), r),
    ensures
        match reply {
            Ok(Response::List(Ok(listed))) => r is Ok,
            Ok(Response::List(Err(e))) => r matches Err(n) && is_errno(n, e),
            _ => r == Err::<Listing, i32>(5),
        },
{
}

/// The entries are handed out one after the other: each with its name and its kind, the directory
/// itself under its own number, its parent under that of the root, and anything else under a number
/// that leads to its path. The offset of an entry is the place of the one behind it, at which a
/// later reading goes on.
pub proof fn entries_are_handed_out_in_order(
    fs: &mut TokimoFuse,
    l: &mut Listing,
    r: Option<FuseDirEntry>,
    other: u64,
)
    requires
        old(fs)@.wf(),
        old(fs)@.has_room(),
        old(l).valid(),
        old(l)@.entries.len() <= i64::MAX,
        call_ensures(TokimoFuse::readdir_next, (fs, l), r),
    ensures
        final(l)@.entries == old(l)@.entries,
        final(l)@.path == old(l)@.path,
        final(l)@.ino == old(l)@.ino,
        r is Some <==> 0 <= old(l)@.next < old(l)@.entries.len(),
        r matches Some(e) ==> {
            let k = old(l)@.next;
            &&& e.name@ == old(l)@.entries[k].1
            &&& e.kind == old(l)@.entries[k].0
            &&& e.offset == k + 1
            &&& final(l)@.next == e.offset
            &&& e.name@ == "."@ ==> e.ino == old(l)@.ino
            &&& e.name@ == ".."@ ==> e.ino == 1
            &&& e.name@ != "."@ && e.name@ != ".."@ && plain(e.name@) ==> (final(fs)@.path_of(
                e.ino,
            ) matches Some(q) && components(q) == components(old(l)@.path).push(e.name@))
        },
        r is None ==> final(l)@.next == old(l)@.next && final(fs)@ == old(fs)@,
        old(fs)@.path_of(other) is Some ==> final(fs)@.path_of(other) == old(fs)@.path_of(other),
        final(fs)@.handle_path(other) == old(fs)@.handle_path(other),
{
    reveal_strlit(".");
    reveal_strlit("..");
    assert("."@.len() != ".."@.len());
    if old(l)@.has_next() && !old(l)@.next_is_dots() {
        number_leads_back(old(fs)@, old(l)@.next_path());
        if old(fs)@.path_of(other) is Some {
            numbers_are_stable(old(fs)@, old(l)@.next_path(), other);
        }
        if plain(old(l)@.next_name()) {
            pushed_name_is_last_component(old(l)@.path, old(l)@.next_name());
        }
    }
}

/// A reading that begins at the offset of an entry goes on behind it: no entry is left out and none
/// comes twice.
pub proof fn a_reading_goes_on_behind_the_entry(
    fs: &mut TokimoFuse,
    l: &mut Listing,
    e: FuseDirEntry,
    gs: &TokimoFuse,
    listed: Vec<DirEntry>,
    reply: Reply,
    ino: u64,
    path: String,
    r: Result<Listing, i32>,
)
    requires
        old(fs)@.wf(),
        old(fs)@.has_room(),
        old(l).valid(),
        old(l)@.entries.len() == listed@.len() + 2,
        old(l)@.entries.len() <= i64::MAX,
        call_ensures(TokimoFuse::readdir_next, (fs, l), Some(e)),
        reply == Ok::<Response, String>(Response::List(Ok(listed))),
        call_ensures(TokimoFuse::readdir_begin, (gs, ino, path, e.offset, reply), r),
    ensures
        r matches Ok(m) && m@.next == old(l)@.next + 1,
{
}

// ---------------------------------------------------------------- arguments

/// The agent takes exactly one way to the host: the one that was named.
pub proof fn the_agent_takes_the_named_way(a: &Args, r: Result<Channel, String>, name: String)
    requires
        call_ensures(Args::channel, (a,), r),
        call_ensures(Args::fs_name, (a,), name),
    ensures
        r is Ok <==> (a.stdio <==> a.port_name is None),
        r matches Ok(Channel::Port(p)) ==> a.port_name == Some(p) && !a.stdio,
        r matches Ok(Channel::Stdio) ==> a.stdio && a.port_name is None,
        name@.len() >= a.tag@.len(),
        name@.skip(name@.len() - a.tag@.len()) == a.tag@,
        name@.take(name@.len() - a.tag@.len()) == "tokimo-"@,
{
    assert(name@.skip(name@.len() - a.tag@.len()) =~= a.tag@);
    assert(name@.take(name@.len() - a.tag@.len()) =~= "tokimo-"@);
}

} // verus!
