use tokimo_vm::rpc::client::Client;
use tokimo_vm::rpc::frame::{decode_frame, encode_frame, PREFIX_LEN};
use tokimo_vm::rpc::port::{
    after_look, device_path, direct_path, needs_scan, resolve_virtio_port, PortStep, SysPort,
};
use tokimo_vm::rpc::proto::{Outcome, Request, Response, PROTOCOL_VERSION};
use tokimo_vm::rpc::server::{handle, respond, serve_step, ServeAction, ServeEvent};
use tokimo_vm::vfs::{DirEntry, FileAttr, FsKind, VfsError};

fn attr() -> FileAttr {
    FileAttr { size: 5, mode: 0o644, kind: FsKind::File, mtime_secs: 1, atime_secs: 2, ctime_secs: 3 }
}

/// Carries a request to a file system that gives back `o`, and the response back.
fn carry(req: Request, o: Outcome) -> Result<Response, String> {
    match serve_step(ServeEvent::Read(Some(req))) {
        ServeAction::Perform(_) => {}
        other => panic!("{other:?}"),
    }
    match serve_step(ServeEvent::Performed(o)) {
        ServeAction::Send(resp) => Ok(resp),
        other => panic!("{other:?}"),
    }
}

fn denied() -> VfsError {
    VfsError::PermissionDenied
}

#[test]
fn calls_are_transparent() {
    let r = carry(Client::stat("/a"), Outcome::Stat(Ok(attr())));
    assert_eq!(Client::stat_reply(r), Ok(attr()));
    let list = || vec![DirEntry { name: "x".to_string(), kind: FsKind::Dir }];
    let r = carry(Client::list("/"), Outcome::List(Ok(list())));
    assert_eq!(Client::list_reply(r), Ok(list()));
    let r = carry(Client::read("/a", 3, 4), Outcome::Read(Ok(vec![1, 2])));
    assert_eq!(Client::read_reply(r), Ok(vec![1, 2]));
    let r = carry(Client::write("/a", 3, vec![9]), Outcome::Write(Ok(1)));
    assert_eq!(Client::write_reply(r), Ok(1));
    let r = carry(Client::create("/a", 0o600), Outcome::Create(Ok(attr())));
    assert_eq!(Client::create_reply(r), Ok(attr()));
    let r = carry(Client::mkdir("/a", 0o700), Outcome::Mkdir(Err(VfsError::AlreadyExists)));
    assert_eq!(Client::mkdir_reply(r), Err(VfsError::AlreadyExists));
    let r = carry(Client::remove("/a"), Outcome::Remove(Err(VfsError::IsADirectory)));
    assert_eq!(Client::remove_reply(r), Err(VfsError::IsADirectory));
    let r = carry(Client::rmdir("/a"), Outcome::Rmdir(Err(VfsError::NotADirectory)));
    assert_eq!(Client::rmdir_reply(r), Err(VfsError::NotADirectory));
    let r = carry(Client::rename("/a", "/b"), Outcome::Rename(Ok(())));
    assert_eq!(Client::rename_reply(r), Ok(()));
    let r = carry(Client::truncate("/a", 7), Outcome::Truncate(Err(denied())));
    assert_eq!(Client::truncate_reply(r), Err(denied()));
}

#[test]
fn requests_carry_their_arguments() {
    assert_eq!(
        Client::write("/a", 3, vec![9]),
        Request::Write { path: "/a".to_string(), offset: 3, data: vec![9] }
    );
    assert_eq!(
        Client::read("/a", 3, 4),
        Request::Read { path: "/a".to_string(), offset: 3, len: 4 }
    );
    assert_eq!(
        Client::rename("/a", "/b"),
        Request::Rename { from: "/a".to_string(), to: "/b".to_string() }
    );
    assert_eq!(
        Client::truncate("/a", 7),
        Request::Truncate { path: "/a".to_string(), size: 7 }
    );
}

#[test]
fn a_response_to_another_operation_is_an_error() {
    let bad = VfsError::Io("bad resp".to_string());
    let r = || Ok(Response::Rename(Ok(())));
    assert_eq!(Client::stat_reply(r()), Err(bad.clone()));
    assert_eq!(Client::list_reply(r()), Err(bad.clone()));
    assert_eq!(Client::read_reply(r()), Err(bad.clone()));
    assert_eq!(Client::write_reply(r()), Err(bad.clone()));
    assert_eq!(Client::create_reply(r()), Err(bad.clone()));
    assert_eq!(Client::mkdir_reply(Ok(Response::Create(Ok(attr())))), Err(bad.clone()));
    assert_eq!(Client::remove_reply(r()), Err(bad.clone()));
    assert_eq!(Client::rmdir_reply(r()), Err(bad.clone()));
    assert_eq!(Client::rename_reply(Ok(Response::Remove(Ok(())))), Err(bad.clone()));
    assert_eq!(Client::truncate_reply(r()), Err(bad));
}

#[test]
fn a_failure_on_the_way_keeps_its_text() {
    assert_eq!(
        Client::stat_reply(Err("broken pipe".to_string())),
        Err(VfsError::Io("broken pipe".to_string()))
    );
}

#[test]
fn the_handshake_checks_the_version() {
    assert_eq!(Client::hello(), Request::Hello { protocol_version: PROTOCOL_VERSION });
    let hello = |v| Ok(Response::Hello { protocol_version: v });
    assert_eq!(Client::hello_reply(hello(1)), Ok(()));
    assert_eq!(Client::hello_reply(hello(27)), Err("protocol mismatch: server 27".to_string()));
    assert_eq!(
        Client::hello_reply(Ok(Response::Remove(Ok(())))),
        Err("unexpected response".to_string())
    );
    assert_eq!(Client::hello_reply(Err("eof".to_string())), Err("eof".to_string()));
}

#[test]
fn the_host_answers_any_handshake_with_its_version() {
    for v in [0, 1, 99] {
        assert_eq!(
            handle(Request::Hello { protocol_version: v }),
            ServeAction::Send(Response::Hello { protocol_version: 1 })
        );
    }
    assert_eq!(respond(Outcome::Write(Ok(3))), Response::Write(Ok(3)));
}

#[test]
fn a_connection_ends_when_it_cannot_be_read_or_written() {
    assert_eq!(serve_step(ServeEvent::Read(None)), ServeAction::Close);
    assert_eq!(serve_step(ServeEvent::Written(false)), ServeAction::Close);
    assert_eq!(serve_step(ServeEvent::Written(true)), ServeAction::ReadNext);
}

#[test]
fn frames_are_read_back() {
    for n in [0usize, 1, 255, 256, 70_000] {
        let payload: Vec<u8> = (0..n).map(|i| (i % 251) as u8).collect();
        let mut bytes = encode_frame(&payload).unwrap();
        assert_eq!(bytes.len(), PREFIX_LEN + n);
        bytes.extend_from_slice(&[7, 7, 7]);
        assert_eq!(decode_frame(&bytes), Some((payload, PREFIX_LEN + n)));
    }
}

#[test]
fn a_frame_begins_with_its_length() {
    assert_eq!(encode_frame(&vec![9; 258]).unwrap()[..4], [2, 1, 0, 0]);
    assert_eq!(encode_frame(&vec![1, 2]), Some(vec![2, 0, 0, 0, 1, 2]));
}

#[test]
fn a_cut_frame_is_not_read() {
    let bytes = encode_frame(&vec![1, 2, 3]).unwrap();
    for k in 0..bytes.len() {
        assert_eq!(decode_frame(&bytes[..k].to_vec()), None);
    }
    assert_eq!(decode_frame(&vec![255, 255, 255, 255, 0]), None);
}

fn listed(entry: &str, name: Option<&str>, device_exists: bool) -> SysPort {
    SysPort { entry: entry.to_string(), name: name.map(|n| n.to_string()), device_exists }
}

#[test]
fn ports_are_looked_for_by_link_first() {
    assert_eq!(direct_path("tokimo.rpc.mem"), "/dev/virtio-ports/tokimo.rpc.mem");
    assert_eq!(direct_path("/dev/vport0p1"), "/dev/vport0p1");
    assert_eq!(device_path("vport1p2"), "/dev/vport1p2");
    assert!(needs_scan("mem", false));
    assert!(!needs_scan("mem", true));
    assert!(!needs_scan("/dev/x", false));
    let all = vec![listed("vport0p1", Some("mem\n"), true)];
    assert_eq!(
        resolve_virtio_port("mem", true, &all),
        Some("/dev/virtio-ports/mem".to_string())
    );
    assert_eq!(resolve_virtio_port("/dev/x", true, &all), Some("/dev/x".to_string()));
    assert_eq!(resolve_virtio_port("/dev/x", false, &all), None);
}

#[test]
fn ports_without_a_link_are_found_by_their_name() {
    let all = vec![
        listed("vport0p0", None, true),
        listed("vport0p1", Some("other\n"), true),
        listed("vport0p2", Some(" mem \n"), false),
        listed("vport0p3", Some("mem\n"), true),
        listed("vport0p4", Some("mem"), true),
    ];
    assert_eq!(resolve_virtio_port("mem", false, &all), Some("/dev/vport0p3".to_string()));
    assert_eq!(resolve_virtio_port("none", false, &all), None);
    assert_eq!(resolve_virtio_port("mem", false, &vec![]), None);
}

#[test]
fn a_port_is_waited_for_half_a_minute() {
    let found = || Some("/dev/p".to_string());
    assert_eq!(after_look("mem", found(), 99_999), PortStep::Open("/dev/p".to_string()));
    assert_eq!(after_look("mem", None, 0), PortStep::Retry(200));
    assert_eq!(after_look("mem", None, 29_999), PortStep::Retry(200));
    assert_eq!(
        after_look("mem", None, 30_000),
        PortStep::GiveUp("virtio-serial port mem never appeared".to_string())
    );
}
