use tokimo_vm::error::{IoErrorKind, IoFailure};
use tokimo_vm::host_fs::{Filling, HostFs, HostMeta, Location};
use tokimo_vm::vfs::{FsKind, VfsError, VfsOp};

fn io(kind: IoErrorKind) -> IoFailure {
    IoFailure { kind, message: "boom".to_string() }
}

fn at(joined: &str, probe: &str) -> Location {
    Location { joined: joined.to_string(), probe: probe.to_string() }
}

#[test]
fn read_only_refuses_changes_and_nothing_else() {
    let ro = HostFs::new("/srv".to_string(), true);
    let rw = HostFs::new("/srv".to_string(), false);
    for op in [VfsOp::Stat, VfsOp::List, VfsOp::Read] {
        assert!(ro.permit(op).is_ok());
        assert!(rw.permit(op).is_ok());
        assert!(ro.begin(op, "/x").is_ok());
    }
    for op in [
        VfsOp::Write,
        VfsOp::Create,
        VfsOp::Mkdir,
        VfsOp::Remove,
        VfsOp::Rmdir,
        VfsOp::Rename,
        VfsOp::Truncate,
    ] {
        assert_eq!(ro.permit(op), Err(VfsError::PermissionDenied));
        assert_eq!(ro.begin(op, "/x"), Err(VfsError::PermissionDenied));
        assert!(rw.permit(op).is_ok());
    }
    assert_eq!(ro.check_rw(), Err(VfsError::PermissionDenied));
    assert_eq!(rw.check_rw(), Ok(()));
}

#[test]
fn guest_paths_lie_under_the_root() {
    let fs = HostFs::new("/srv/data".to_string(), false);
    assert_eq!(fs.root(), "/srv/data");
    assert_eq!(fs.locate("/a/b.txt"), at("/srv/data/a/b.txt", "/srv/data/a"));
    assert_eq!(fs.locate("/a"), at("/srv/data/a", "/srv/data"));
    assert_eq!(fs.locate("a"), at("/srv/data/a", "/srv/data"));
    assert_eq!(fs.locate("/../x"), at("/srv/data/../x", "/srv/data/.."));
    // The root, and what ends by leading up, are looked at themselves.
    assert_eq!(fs.locate("/"), at("/srv/data/", "/srv/data/"));
    assert_eq!(fs.locate("/./"), at("/srv/data/", "/srv/data/"));
    assert_eq!(fs.locate("/.."), at("/srv/data/..", "/srv/data/.."));
    assert_eq!(fs.locate("/a/../.."), at("/srv/data/a/../..", "/srv/data/a/../.."));
    assert_eq!(fs.begin(VfsOp::Write, "/a"), Ok(at("/srv/data/a", "/srv/data")));
}

#[test]
fn the_real_place_decides() {
    let fs = HostFs::new("/srv/data".to_string(), false);
    let root = || Ok("/srv/data".to_string());
    assert_eq!(
        fs.resolve(fs.locate("/a/b"), root(), Some("/srv/data/a".to_string())),
        Ok("/srv/data/a/b".to_string())
    );
    // A link that leads out of the root.
    assert_eq!(
        fs.resolve(fs.locate("/link/b"), root(), Some("/etc".to_string())),
        Err(VfsError::PermissionDenied)
    );
    // A parent that climbs.
    assert_eq!(
        fs.resolve(fs.locate("/../x"), root(), Some("/srv".to_string())),
        Err(VfsError::PermissionDenied)
    );
    // A sibling whose name begins like the root.
    assert_eq!(
        fs.resolve(fs.locate("/x"), root(), Some("/srv/database".to_string())),
        Err(VfsError::PermissionDenied)
    );
    // A parent that does not exist is judged as it is spelled.
    assert_eq!(
        fs.resolve(fs.locate("/new/x"), root(), None),
        Ok("/srv/data/new/x".to_string())
    );
    // One that does not exist must not be spelled so as to lead out.
    assert_eq!(
        fs.resolve(fs.locate("/new/../x"), root(), None),
        Ok("/srv/data/new/../x".to_string())
    );
    assert_eq!(
        fs.resolve(fs.locate("/new/../../x"), root(), None),
        Err(VfsError::PermissionDenied)
    );
    // The root itself is granted.
    assert_eq!(
        fs.resolve(fs.locate("/"), root(), Some("/srv/data".to_string())),
        Ok("/srv/data/".to_string())
    );
    // What leads out of it is not.
    for p in ["/..", "/a/../.."] {
        assert_eq!(
            fs.resolve(fs.locate(p), root(), Some("/srv".to_string())),
            Err(VfsError::PermissionDenied)
        );
        assert_eq!(fs.resolve(fs.locate(p), root(), None), Err(VfsError::PermissionDenied));
    }
    // What leads up and stays inside is.
    assert_eq!(
        fs.resolve(fs.locate("/a/.."), root(), Some("/srv/data".to_string())),
        Ok("/srv/data/a/..".to_string())
    );
    // A root that cannot be found.
    assert_eq!(
        fs.resolve(fs.locate("/a"), Err(io(IoErrorKind::NotFound)), None),
        Err(VfsError::Io("boom".to_string()))
    );
}

#[test]
fn os_errors_keep_their_meaning() {
    assert_eq!(HostFs::map_io(io(IoErrorKind::NotFound)), VfsError::NotFound);
    assert_eq!(HostFs::map_io(io(IoErrorKind::PermissionDenied)), VfsError::PermissionDenied);
    assert_eq!(HostFs::map_io(io(IoErrorKind::AlreadyExists)), VfsError::AlreadyExists);
    assert_eq!(HostFs::map_io(io(IoErrorKind::Other)), VfsError::Io("boom".to_string()));
}

#[test]
fn attributes_come_from_the_host() {
    let m = HostMeta {
        is_dir: false,
        is_symlink: true,
        len: 1234,
        unix_mode: Some(0o120777),
        unix_ctime: Some(-5),
        modified: Some(100),
        accessed: None,
        created: Some(7),
    };
    let a = HostFs::attr_from_meta(&m);
    assert_eq!((a.size, a.mode, a.kind), (1234, 0o120777, FsKind::Symlink));
    assert_eq!((a.mtime_secs, a.atime_secs, a.ctime_secs), (100, 0, -5));
}

#[test]
fn hosts_without_modes_show_defaults() {
    let file = HostMeta {
        is_dir: false,
        is_symlink: false,
        len: 0,
        unix_mode: None,
        unix_ctime: None,
        modified: Some(u64::MAX),
        accessed: Some(3),
        created: Some(7),
    };
    let dir = HostMeta { is_dir: true, ..file };
    assert_eq!(HostFs::attr_from_meta(&file).mode, 0o100644);
    assert_eq!(HostFs::attr_from_meta(&file).ctime_secs, 7);
    assert_eq!(HostFs::attr_from_meta(&file).mtime_secs, -1);
    assert_eq!(HostFs::attr_from_meta(&dir).mode, 0o040755);
    assert_eq!(HostFs::attr_from_meta(&dir).kind, FsKind::Dir);
}

#[test]
fn entries_have_one_kind() {
    assert_eq!(HostFs::kind_of(true, true), FsKind::Dir);
    assert_eq!(HostFs::kind_of(false, true), FsKind::Symlink);
    let e = HostFs::dir_entry("x".to_string(), false, false);
    assert_eq!((e.name.as_str(), e.kind), ("x", FsKind::File));
}

#[test]
fn reading_goes_on_until_full_or_at_the_end() {
    let mut f = Filling::new(5);
    assert_eq!(f.missing(), 5);
    assert!(!f.take(&vec![1, 2]));
    assert_eq!(f.missing(), 3);
    assert!(f.take(&vec![3, 4, 5]));
    assert_eq!(f.into_data(), vec![1, 2, 3, 4, 5]);
    let mut f = Filling::new(5);
    assert!(!f.take(&vec![9]));
    assert!(f.take(&vec![]));
    assert_eq!(f.into_data(), vec![9]);
    let mut f = Filling::new(0);
    assert!(f.take(&vec![]));
    assert!(f.into_data().is_empty());
}
