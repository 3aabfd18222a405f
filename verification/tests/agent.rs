use tokimo_vm::agent::args::{Args, Channel};
use tokimo_vm::agent::errno::errno;
use tokimo_vm::agent::fuse::{to_fuse_attr, FileType, TokimoFuse};
use tokimo_vm::agent::tables::Tables;
use tokimo_vm::rpc::proto::{Request, Response};
use tokimo_vm::vfs::{DirEntry, FileAttr, FsKind, VfsError};

fn attr(kind: FsKind) -> FileAttr {
    FileAttr { size: 513, mode: 0o100644, kind, mtime_secs: 10, atime_secs: -4, ctime_secs: 30 }
}

fn stat_ok(kind: FsKind) -> Result<Response, String> {
    Ok(Response::Stat(Ok(attr(kind))))
}

/// Looks an entry up that exists, and gives its number.
fn known(fs: &mut TokimoFuse, parent: u64, name: &str, kind: FsKind) -> u64 {
    let call = fs.lookup(parent, name).unwrap();
    fs.lookup_done(call.path, stat_ok(kind)).unwrap().ino
}

#[test]
fn errors_have_the_numbers_of_the_system() {
    assert_eq!(errno(&VfsError::NotFound), libc::ENOENT);
    assert_eq!(errno(&VfsError::PermissionDenied), libc::EACCES);
    assert_eq!(errno(&VfsError::AlreadyExists), libc::EEXIST);
    assert_eq!(errno(&VfsError::NotADirectory), libc::ENOTDIR);
    assert_eq!(errno(&VfsError::IsADirectory), libc::EISDIR);
    assert_eq!(errno(&VfsError::Io("x".to_string())), libc::EIO);
    assert_eq!(errno(&VfsError::NotFound), 2);
    assert_eq!(errno(&VfsError::Io("x".to_string())), 5);
}

#[test]
fn numbers_are_stable_and_tell_paths_apart() {
    let mut t = Tables::new();
    assert_eq!(t.path_for(1), Some("/".to_string()));
    assert_eq!(t.path_for(2), None);
    assert_eq!(t.intern("/".to_string()), 1);
    assert_eq!(t.intern("//./".to_string()), 1);
    let a = t.intern("/a".to_string());
    let b = t.intern("/b".to_string());
    assert_eq!((a, b), (2, 3));
    assert_eq!(t.intern("/a".to_string()), a);
    assert_eq!(t.intern("/a/".to_string()), a);
    assert_eq!(t.intern("/./a".to_string()), a);
    assert_eq!(t.intern("a".to_string()), 4);
    assert_eq!(t.path_for(a), Some("/a".to_string()));
    assert_eq!(t.path_for(b), Some("/b".to_string()));
    assert!(t.has_room());
}

#[test]
fn handles_last_until_released() {
    let mut t = Tables::new();
    let x = t.alloc_fh("/x".to_string());
    let y = t.alloc_fh("/x".to_string());
    assert_eq!((x, y), (1, 2));
    assert_eq!(t.handle_path(x), Some("/x".to_string()));
    t.release_fh(y);
    assert_eq!(t.handle_path(y), None);
    assert_eq!(t.handle_path(x), Some("/x".to_string()));
    t.release_fh(x);
    assert_eq!(t.handle_path(x), None);
    assert_eq!(t.alloc_fh("/z".to_string()), 3);
}

#[test]
fn attributes_for_the_kernel() {
    let a = to_fuse_attr(7, &attr(FsKind::File));
    assert_eq!((a.ino, a.size, a.blocks, a.perm, a.nlink), (7, 513, 2, 0o644, 1));
    assert_eq!((a.atime, a.mtime, a.ctime, a.crtime), (0, 10, 30, 30));
    assert_eq!((a.uid, a.gid, a.rdev, a.blksize, a.flags), (0, 0, 0, 4096, 0));
    assert_eq!(a.kind, FileType::RegularFile);
    let d = to_fuse_attr(1, &attr(FsKind::Dir));
    assert_eq!((d.kind, d.nlink), (FileType::Directory, 2));
    assert_eq!(to_fuse_attr(1, &attr(FsKind::Symlink)).kind, FileType::Symlink);
    let mut sized = attr(FsKind::File);
    for (size, blocks) in [(0, 0), (1, 1), (512, 1), (1024, 2), (u64::MAX, 36028797018963968)] {
        sized.size = size;
        assert_eq!(to_fuse_attr(1, &sized).blocks, blocks);
    }
    sized.mode = 0o107777;
    assert_eq!(to_fuse_attr(1, &sized).perm, 0o7777);
}

#[test]
fn looking_up_gives_a_number() {
    let mut fs = TokimoFuse::new();
    assert_eq!(fs.lookup(42, "x"), Err(libc::ENOENT));
    let call = fs.lookup(1, "dir").unwrap();
    assert_eq!(call.path, "/dir");
    assert_eq!(call.request, Request::Stat { path: "/dir".to_string() });
    let a = fs.lookup_done(call.path, stat_ok(FsKind::Dir)).unwrap();
    assert_eq!(a.ino, 2);
    assert_eq!(fs.lookup(2, "f").unwrap().path, "/dir/f");
    // What does not exist gets no number.
    let call = fs.lookup(1, "gone").unwrap();
    let r = fs.lookup_done(call.path, Ok(Response::Stat(Err(VfsError::NotFound))));
    assert_eq!(r, Err(libc::ENOENT));
    assert_eq!(known(&mut fs, 2, "f", FsKind::File), 3);
}

#[test]
fn attributes_are_asked_for_by_number() {
    let fs = TokimoFuse::new();
    assert_eq!(fs.getattr(1), Ok(Request::Stat { path: "/".to_string() }));
    assert_eq!(fs.getattr(9), Err(libc::ENOENT));
    assert_eq!(fs.getattr_done(1, stat_ok(FsKind::Dir)).unwrap().ino, 1);
    assert_eq!(fs.getattr_done(1, Err("eof".to_string())), Err(libc::EIO));
    assert_eq!(
        fs.getattr_done(1, Ok(Response::Stat(Err(VfsError::PermissionDenied)))),
        Err(libc::EACCES)
    );
}

#[test]
fn only_the_size_can_be_set() {
    let fs = TokimoFuse::new();
    assert_eq!(fs.setattr(9, Some(1)), Err(libc::ENOENT));
    let plain = fs.setattr(1, None).unwrap();
    assert_eq!(plain.request, Request::Stat { path: "/".to_string() });
    let sized = fs.setattr(1, Some(7)).unwrap();
    assert_eq!(sized.request, Request::Truncate { path: "/".to_string(), size: 7 });
    assert_eq!(
        fs.setattr_resized(&sized.path, Ok(Response::Truncate(Ok(())))),
        Ok(Request::Stat { path: "/".to_string() })
    );
    assert_eq!(
        fs.setattr_resized("/", Ok(Response::Truncate(Err(VfsError::IsADirectory)))),
        Err(libc::EISDIR)
    );
}

#[test]
fn directories_are_read_entry_by_entry() {
    let mut fs = TokimoFuse::new();
    let dir = known(&mut fs, 1, "d", FsKind::Dir);
    assert_eq!(fs.readdir(99), Err(libc::ENOENT));
    let call = fs.readdir(dir).unwrap();
    assert_eq!(call.request, Request::List { path: "/d".to_string() });
    let reply = || {
        Ok(Response::List(Ok(vec![
            DirEntry { name: "a".to_string(), kind: FsKind::File },
            DirEntry { name: "l".to_string(), kind: FsKind::Symlink },
        ])))
    };
    let mut l = fs.readdir_begin(dir, call.path, 0, reply()).unwrap();
    let mut all = Vec::new();
    while let Some(e) = fs.readdir_next(&mut l) {
        all.push((e.ino, e.offset, e.kind, e.name));
    }
    assert_eq!(
        all,
        vec![
            (dir, 1, FileType::Directory, ".".to_string()),
            (1, 2, FileType::Directory, "..".to_string()),
            (3, 3, FileType::RegularFile, "a".to_string()),
            (4, 4, FileType::Symlink, "l".to_string()),
        ]
    );
    // The numbers are those that looking up gives.
    assert_eq!(known(&mut fs, dir, "a", FsKind::File), 3);
    // A later reading goes on behind the entry whose offset it is given.
    let mut l = fs.readdir_begin(dir, "/d".to_string(), 3, reply()).unwrap();
    assert_eq!(fs.readdir_next(&mut l).unwrap().name, "l");
    assert!(fs.readdir_next(&mut l).is_none());
    for offset in [4, 5, i64::MAX, -1, i64::MIN] {
        let mut l = fs.readdir_begin(dir, "/d".to_string(), offset, reply()).unwrap();
        assert!(fs.readdir_next(&mut l).is_none());
    }
    let r = fs.readdir_begin(dir, "/d".to_string(), 0, Ok(Response::List(Err(VfsError::NotADirectory))));
    assert_eq!(r.err(), Some(libc::ENOTDIR));
}

#[test]
fn entries_get_numbers_only_when_they_are_handed_out() {
    let mut fs = TokimoFuse::new();
    let list = vec![
        DirEntry { name: "a".to_string(), kind: FsKind::File },
        DirEntry { name: "b".to_string(), kind: FsKind::File },
    ];
    let mut l = fs.readdir_begin(1, "/".to_string(), 2, Ok(Response::List(Ok(list)))).unwrap();
    assert_eq!(fs.readdir_next(&mut l).unwrap().ino, 2);
    assert_eq!(known(&mut fs, 1, "other", FsKind::File), 3);
    assert_eq!(fs.readdir_next(&mut l).unwrap().ino, 4);
}

#[test]
fn open_files_are_read_and_written_under_their_path() {
    let mut fs = TokimoFuse::new();
    let f = known(&mut fs, 1, "f", FsKind::File);
    assert_eq!(fs.open(77), Err(libc::ENOENT));
    assert_eq!(fs.read(1, 0, 10), Err(libc::EBADF));
    assert_eq!(fs.write(1, 0, vec![1]), Err(libc::EBADF));
    let fh = fs.open(f).unwrap();
    assert_eq!(
        fs.read(fh, 5, 10),
        Ok(Request::Read { path: "/f".to_string(), offset: 5, len: 10 })
    );
    assert_eq!(
        fs.write(fh, -5, vec![1]),
        Ok(Request::Write { path: "/f".to_string(), offset: 0, data: vec![1] })
    );
    assert_eq!(fs.read_done(Ok(Response::Read(Ok(vec![4, 2])))), Ok(vec![4, 2]));
    assert_eq!(fs.read_done(Ok(Response::Read(Err(VfsError::IsADirectory)))), Err(libc::EISDIR));
    assert_eq!(fs.write_done(Ok(Response::Write(Ok(1)))), Ok(1));
    assert_eq!(fs.write_done(Ok(Response::Read(Ok(vec![])))), Err(libc::EIO));
    fs.release(fh);
    assert_eq!(fs.read(fh, 0, 1), Err(libc::EBADF));
    let dh = fs.opendir(1).unwrap();
    assert_eq!(fs.opendir(55), Err(libc::ENOENT));
    fs.releasedir(dh);
}

#[test]
fn new_files_are_open_and_new_directories_have_numbers() {
    let mut fs = TokimoFuse::new();
    assert_eq!(fs.create(9, "n", 0), Err(libc::ENOENT));
    assert_eq!(fs.mkdir(9, "n", 0), Err(libc::ENOENT));
    let call = fs.create(1, "n", 0o640).unwrap();
    assert_eq!(call.request, Request::Create { path: "/n".to_string(), mode: 0o640 });
    let (a, fh) = fs.create_done(call.path, Ok(Response::Create(Ok(attr(FsKind::File))))).unwrap();
    assert_eq!((a.ino, fh), (2, 1));
    assert_eq!(
        fs.read(fh, 0, 1),
        Ok(Request::Read { path: "/n".to_string(), offset: 0, len: 1 })
    );
    let call = fs.mkdir(1, "m", 0o750).unwrap();
    assert_eq!(call.request, Request::Mkdir { path: "/m".to_string(), mode: 0o750 });
    let a = fs.mkdir_done(call.path, Ok(Response::Mkdir(Ok(attr(FsKind::Dir))))).unwrap();
    assert_eq!(a.ino, 3);
    let r = fs.create_done("/n".to_string(), Ok(Response::Create(Err(VfsError::AlreadyExists))));
    assert_eq!(r, Err(libc::EEXIST));
    let r = fs.mkdir_done("/m".to_string(), Ok(Response::Create(Ok(attr(FsKind::Dir)))));
    assert_eq!(r, Err(libc::EIO));
}

#[test]
fn removing_and_moving() {
    let mut fs = TokimoFuse::new();
    let d = known(&mut fs, 1, "d", FsKind::Dir);
    assert_eq!(fs.unlink(1, "f"), Ok(Request::Remove { path: "/f".to_string() }));
    assert_eq!(fs.rmdir(d, "e"), Ok(Request::Rmdir { path: "/d/e".to_string() }));
    assert_eq!(
        fs.rename(1, "f", d, "g"),
        Ok(Request::Rename { from: "/f".to_string(), to: "/d/g".to_string() })
    );
    assert_eq!(fs.unlink(9, "f"), Err(libc::ENOENT));
    assert_eq!(fs.rmdir(9, "f"), Err(libc::ENOENT));
    assert_eq!(fs.rename(1, "f", 9, "g"), Err(libc::ENOENT));
    assert_eq!(fs.rename(9, "f", 1, "g"), Err(libc::ENOENT));
    assert_eq!(fs.unlink_done(Ok(Response::Remove(Ok(())))), Ok(()));
    assert_eq!(fs.rmdir_done(Ok(Response::Rmdir(Err(VfsError::NotFound)))), Err(libc::ENOENT));
    assert_eq!(fs.rename_done(Ok(Response::Rename(Ok(())))), Ok(()));
    assert_eq!(fs.rename_done(Ok(Response::Remove(Ok(())))), Err(libc::EIO));
}

#[test]
fn the_agent_needs_a_channel() {
    let mut args = Args {
        port_name: None,
        stdio: false,
        mount: "/mnt/mem".to_string(),
        tag: "mem".to_string(),
    };
    assert_eq!(args.fs_name(), "tokimo-mem");
    assert_eq!(
        args.channel(),
        Err("either --port-name or --stdio is required".to_string())
    );
    args.port_name = Some("tokimo.rpc.mem".to_string());
    assert_eq!(args.channel(), Ok(Channel::Port("tokimo.rpc.mem".to_string())));
    args.stdio = true;
    assert_eq!(
        args.channel(),
        Err("--port-name and --stdio are mutually exclusive".to_string())
    );
    args.port_name = None;
    assert_eq!(args.channel(), Ok(Channel::Stdio));
}
