//! What the messages are for: laws over what is asked, sent, read and found.

use vstd::prelude::*;

use crate::rpc::client::{Client, Reply};
use crate::rpc::frame::{decode_frame, encode_frame};
use crate::rpc::port::{
    after_look, device_path, direct_path, needs_scan, resolve_virtio_port, PortStep, SysPort,
};
use crate::rpc::proto::{Outcome, Request, Response};
use crate::rpc::server::{handle, respond, serve_step, ServeAction, ServeEvent};
use crate::text::{decimal, decimal_is_read_back, number_in, trimmed};
use crate::vfs::{DirEntry, FileAttr, VfsError, VfsResult};

verus! {

// ---------------------------------------------------------------- requests

/// A request carries what it is about: the path, and the numbers and bytes as they were given.
pub proof fn requests_carry_their_arguments(
    path: &str,
    to: &str,
    offset: u64,
    len: u32,
    mode: u32,
    data: Vec<u8>,
    read: Request,
    write: Request,
    create: Request,
    mkdir: Request,
    rename: Request,
    truncate: Request,
)
    requires
        call_ensures(Client::read, (path, offset, len), read),
        call_ensures(Client::write, (path, offset, data), write),
        call_ensures(Client::create, (path, mode), create),
        call_ensures(Client::mkdir, (path, mode), mkdir),
        call_ensures(Client::rename, (path, to), rename),
        call_ensures(Client::truncate, (path, offset), truncate),
    ensures
        read matches Request::Read { path: p, offset: o, len: n } && p@ == path@ && o == offset && n
            == len,
        write matches Request::Write { path: p, offset: o, data: d } && p@ == path@ && o == offset
            && d@ == data@,
        create matches Request::Create { path: p, mode: m } && p@ == path@ && m == mode,
        mkdir matches Request::Mkdir { path: p, mode: m } && p@ == path@ && m == mode,
        rename matches Request::Rename { from: f, to: t } && f@ == path@ && t@ == to@,
        truncate matches Request::Truncate { path: p, size: s } && p@ == path@ && s == offset,
{
}

/// A request that needs a path only carries that path.
pub proof fn requests_carry_their_path(
    path: &str,
    stat: Request,
    list: Request,
    remove: Request,
    rmdir: Request,
    hello: Request,
)
    requires
        call_ensures(Client::stat, (path,), stat),
        call_ensures(Client::list, (path,), list),
        call_ensures(Client::remove, (path,), remove),
        call_ensures(Client::rmdir, (path,), rmdir),
        call_ensures(Client::hello, (), hello),
    ensures
        stat matches Request::Stat { path: p } && p@ == path@,
        list matches Request::List { path: p } && p@ == path@,
        remove matches Request::Remove { path: p } && p@ == path@,
        rmdir matches Request::Rmdir { path: p } && p@ == path@,
        hello matches Request::Hello { protocol_version } && protocol_version == 1,
{
}

// ---------------------------------------------------------------- replies

/// What is read where no response to the request came: an input/output error, which says what went
/// wrong on the way where something did.
pub open spec fn is_broken_call<T>(reply: Reply, r: VfsResult<T>) -> bool {
    match reply {
        Ok(_) => r matches Err(VfsError::Io(m)) && m@ == "bad resp"@,
        Err(e) => r == Err::<T, VfsError>(VfsError::Io(e)),
    }
}

/// The guest reads what the host answered to `stat`, be it a result or an error.
pub proof fn stat_is_answered(reply: Reply, r: VfsResult<FileAttr>)
    requires
        call_ensures(Client::stat_reply, (reply,), r),
    ensures
        match reply {
            Ok(Response::Stat(x)) => r == x,
            _ => is_broken_call(reply, r),
        },
{
}

/// The guest reads what the host answered to `list`, be it a result or an error.
pub proof fn list_is_answered(reply: Reply, r: VfsResult<Vec<DirEntry>>)
    requires
        call_ensures(Client::list_reply, (reply,), r),
    ensures
        match reply {
            Ok(Response::List(x)) => r == x,
            _ => is_broken_call(reply, r),
        },
{
}

/// The guest reads what the host answered to `read`, be it a result or an error.
pub proof fn read_is_answered(reply: Reply, r: VfsResult<Vec<u8>>)
    requires
        call_ensures(Client::read_reply, (reply,), r),
    ensures
        match reply {
            Ok(Response::Read(x)) => r == x,
            _ => is_broken_call(reply, r),
        },
{
}

/// The guest reads what the host answered to `write`, be it a result or an error.
pub proof fn write_is_answered(reply: Reply, r: VfsResult<u32>)
    requires
        call_ensures(Client::write_reply, (reply,), r),
    ensures
        match reply {
            Ok(Response::Write(x)) => r == x,
            _ => is_broken_call(reply, r),
        },
{
}

/// The guest reads what the host answered to `create`, be it a result or an error.
pub proof fn create_is_answered(reply: Reply, r: VfsResult<FileAttr>)
    requires
        call_ensures(Client::create_reply, (reply,), r),
    ensures
        match reply {
            Ok(Response::Create(x)) => r == x,
            _ => is_broken_call(reply, r),
        },
{
}

/// The guest reads what the host answered to `mkdir`, be it a result or an error.
pub proof fn mkdir_is_answered(reply: Reply, r: VfsResult<FileAttr>)
    requires
        call_ensures(Client::mkdir_reply, (reply,), r),
    ensures
        match reply {
            Ok(Response::Mkdir(x)) => r == x,
            _ => is_broken_call(reply, r),
        },
{
}

/// The guest reads what the host answered to `remove`, be it a result or an error.
pub proof fn remove_is_answered(reply: Reply, r: VfsResult<()>)
    requires
        call_ensures(Client::remove_reply, (reply,), r),
    ensures
        match reply {
            Ok(Response::Remove(x)) => r == x,
            _ => is_broken_call(reply, r),
        },
{
}

/// The guest reads what the host answered to `rmdir`, be it a result or an error.
pub proof fn rmdir_is_answered(reply: Reply, r: VfsResult<()>)
    requires
        call_ensures(Client::rmdir_reply, (reply,), r),
    ensures
        match reply {
            Ok(Response::Rmdir(x)) => r == x,
            _ => is_broken_call(reply, r),
        },
{
}

/// The guest reads what the host answered to `rename`, be it a result or an error.
pub proof fn rename_is_answered(reply: Reply, r: VfsResult<()>)
    requires
        call_ensures(Client::rename_reply, (reply,), r),
    ensures
        match reply {
            Ok(Response::Rename(x)) => r == x,
            _ => is_broken_call(reply, r),
        },
{
}

/// The guest reads what the host answered to `truncate`, be it a result or an error.
pub proof fn truncate_is_answered(reply: Reply, r: VfsResult<()>)
    requires
        call_ensures(Client::truncate_reply, (reply,), r),
    ensures
        match reply {
            Ok(Response::Truncate(x)) => r == x,
            _ => is_broken_call(reply, r),
        },
{
}

/// The handshake succeeds exactly with a host that names the same version; a host that names another
/// is told of by its version.
pub proof fn handshake_is_answered(reply: Reply, r: Result<(), String>)
    requires
        call_ensures(Client::hello_reply, (reply,), r),
    ensures
        r is Ok <==> (reply matches Ok(Response::Hello { protocol_version }) && protocol_version
            == 1),
        reply matches Err(e) ==> r == Err::<(), String>(e),
        reply matches Ok(Response::Hello { protocol_version }) ==> (protocol_version != 1 ==> (
        r matches Err(m) && exists|digits: Seq<char>|
            m@ == #[trigger] ("protocol mismatch: server "@ + digits) && number_in(digits)
                == protocol_version)),
{
    if let Ok(Response::Hello { protocol_version }) = reply {
        decimal_is_read_back(protocol_version as nat);
        if let Err(m) = r {
            assert(m@ == "protocol mismatch: server "@ + decimal(protocol_version as nat));
        }
    }
}

// ---------------------------------------------------------------- serving

/// The file system is asked for what the guest asked, and the guest is sent what the file system
/// gave back: the request and the outcome pass unchanged.
pub proof fn serving_passes_everything_on(
    req: Request,
    asked: ServeAction,
    handled: ServeAction,
    o: Outcome,
    sent: ServeAction,
    resp: Response,
)
    requires
        call_ensures(serve_step, (ServeEvent::Read(Some(req)),), asked),
        call_ensures(handle, (req,), handled),
        call_ensures(serve_step, (ServeEvent::Performed(o),), sent),
        call_ensures(respond, (o,), resp),
    ensures
        !(req is Hello) ==> asked == ServeAction::Perform(req),
        req is Hello ==> (asked matches ServeAction::Send(Response::Hello { protocol_version })
            && protocol_version == 1),
        handled == asked,
        sent == ServeAction::Send(resp),
        match o {
            Outcome::Stat(x) => resp == Response::Stat(x),
            Outcome::List(x) => resp == Response::List(x),
            Outcome::Read(x) => resp == Response::Read(x),
            Outcome::Write(x) => resp == Response::Write(x),
            Outcome::Create(x) => resp == Response::Create(x),
            Outcome::Mkdir(x) => resp == Response::Mkdir(x),
            Outcome::Remove(x) => resp == Response::Remove(x),
            Outcome::Rmdir(x) => resp == Response::Rmdir(x),
            Outcome::Rename(x) => resp == Response::Rename(x),
            Outcome::Truncate(x) => resp == Response::Truncate(x),
        },
{
}

/// A connection goes on as long as requests can be read and responses written, and ends with the
/// first that cannot.
pub proof fn serving_ends_with_the_connection(
    none: ServeAction,
    written: bool,
    next: ServeAction,
)
    requires
        call_ensures(serve_step, (ServeEvent::Read(None),), none),
        call_ensures(serve_step, (ServeEvent::Written(written),), next),
    ensures
        none is Close,
        next is ReadNext <==> written,
        next is Close <==> !written,
{
}

/// A call from the guest to the host and back: what is read of the reply is what the file system of
/// the host gave.
pub proof fn bytes_come_back_from_the_host(
    x: VfsResult<Vec<u8>>,
    sent: ServeAction,
    reply: Reply,
    r: VfsResult<Vec<u8>>,
)
    requires
        call_ensures(serve_step, (ServeEvent::Performed(Outcome::Read(x)),), sent),
        sent matches ServeAction::Send(resp) && reply == Ok::<Response, String>(resp),
        call_ensures(Client::read_reply, (reply,), r),
    ensures
        r == x,
{
}

// ---------------------------------------------------------------- frames

/// The frame of a message is four bytes that spell its length, the least significant first, and then
/// the message.
pub proof fn a_frame_is_the_length_and_the_message(payload: &Vec<u8>, f: Option<Vec<u8>>)
    requires
        call_ensures(encode_frame, (payload,), f),
    ensures
        f is Some <==> payload@.len() <= u32::MAX,
        f matches Some(b) ==> {
            &&& b@.len() == 4 + payload@.len()
            &&& b@[0] + 0x100 * b@[1] + 0x10000 * b@[2] + 0x1000000 * b@[3] == payload@.len()
            &&& b@.skip(4) == payload@
        },
{
    if f is Some {
        assert(f->0@.skip(4) =~= payload@);
    }
}

/// What is read from a stream that begins with a frame is the message of that frame, and the next
/// frame begins behind it, whatever follows.
pub proof fn a_frame_is_read_back(
    payload: &Vec<u8>,
    f: Option<Vec<u8>>,
    stream: &Vec<u8>,
    rest: Seq<u8>,
    r: Option<(Vec<u8>, usize)>,
)
    requires
        call_ensures(encode_frame, (payload,), f),
        f is Some,
        stream@ == f->0@ + rest,
        call_ensures(decode_frame, (stream,), r),
    ensures
        r matches Some((p, used)) && p@ == payload@ && used == f->0@.len() && stream@.skip(
            used as int,
        ) == rest,
{
    crate::rpc::frame::frame_round_trip(payload@, rest);
    assert(stream@ =~= crate::rpc::frame::frame(payload@) + rest);
    assert(stream@.skip(f->0@.len() as int) =~= rest);
}

/// Nothing is read from less than a frame.
pub proof fn a_cut_frame_is_waited_for(
    payload: &Vec<u8>,
    f: Option<Vec<u8>>,
    stream: &Vec<u8>,
    r: Option<(Vec<u8>, usize)>,
)
    requires
        call_ensures(encode_frame, (payload,), f),
        f is Some,
        stream@.len() < f->0@.len(),
        stream@ == f->0@.take(stream@.len() as int),
        call_ensures(decode_frame, (stream,), r),
    ensures
        r is None,
{
    crate::rpc::frame::cut_frame_is_not_whole(payload@, stream@.len() as int);
}

// ---------------------------------------------------------------- ports

/// The listed port has that name, give or take white space, and a device.
pub open spec fn answers_to(p: SysPort, name: Seq<char>) -> bool {
    p.device_exists && (p.name matches Some(n) && trimmed(n@) == name)
}

/// A port is opened where it is: at its path, under the link of its name, or else at the device of
/// the first listed port that has its name. Where there is none of these it is not found.
pub proof fn a_port_is_found_where_it_is(
    name: &str,
    direct: String,
    direct_exists: bool,
    scan: bool,
    listed: &Vec<SysPort>,
    r: Option<String>,
    i: int,
)
    requires
        call_ensures(direct_path, (name,), direct),
        call_ensures(needs_scan, (name, direct_exists), scan),
        call_ensures(resolve_virtio_port, (name, direct_exists, listed), r),
    ensures
        name@.len() > 0 && name@[0] == '/' ==> direct@ == name@,
        !(name@.len() > 0 && name@[0] == '/') ==> direct@ == "/dev/virtio-ports/"@ + name@,
        direct_exists ==> (r matches Some(p) && p@ == direct@),
        name@.len() > 0 && name@[0] == '/' && !direct_exists ==> r is None,
        scan <==> !direct_exists && !(name@.len() > 0 && name@[0] == '/'),
        scan && 0 <= i < listed@.len() && answers_to(listed@[i], name@) && (forall|j: int|
            0 <= j < i ==> !answers_to(#[trigger] listed@[j], name@)) ==> (r matches Some(p) && p@
            == "/dev/"@ + listed@[i].entry@),
        scan && (forall|j: int|
            0 <= j < listed@.len() ==> !answers_to(#[trigger] listed@[j], name@)) ==> r is None,
{
    if scan {
        lemma_first_answer(name@, listed@, i);
    }
}

/// The first port that answers is the one that is found.
proof fn lemma_first_answer(name: Seq<char>, ports: Seq<SysPort>, i: int)
    ensures
        0 <= i < ports.len() && answers_to(ports[i], name) && (forall|j: int|
            0 <= j < i ==> !answers_to(#[trigger] ports[j], name))
            ==> crate::rpc::port::first_port(name, ports) == Some("/dev/"@ + ports[i].entry@),
        (forall|j: int| 0 <= j < ports.len() ==> !answers_to(#[trigger] ports[j], name))
            ==> crate::rpc::port::first_port(name, ports) is None,
    decreases ports.len(),
{
    if ports.len() > 0 {
        let rest = ports.drop_first();
        lemma_first_answer(name, rest, i - 1);
        assert forall|j: int| 0 <= j < rest.len() implies rest[j] == #[trigger] ports[j + 1] by {}
        assert(answers_to(ports[0], name) == ports[0].is_port(name));
        if forall|j: int| 0 <= j < ports.len() ==> !answers_to(#[trigger] ports[j], name) {
            assert forall|j: int| 0 <= j < rest.len() implies !answers_to(
                #[trigger] rest[j],
                name,
            ) by {
                assert(!answers_to(ports[j + 1], name));
            }
        }
        if i > 0 && (forall|j: int| 0 <= j < i ==> !answers_to(#[trigger] ports[j], name)) {
            assert(!answers_to(ports[0], name));
            assert forall|j: int| 0 <= j < i - 1 && j < rest.len() implies !answers_to(
                #[trigger] rest[j],
                name,
            ) by {
                assert(!answers_to(ports[j + 1], name));
            }
        }
    }
}

/// The device of an entry is called after it.
pub proof fn a_device_is_called_after_its_entry(entry: &str, r: String)
    requires
        call_ensures(device_path, (entry,), r),
    ensures
        r@ == "/dev/"@ + entry@,
{
}

/// A port that was found is opened; one that was not is looked for again every fifth of a second, for
/// thirty seconds.
pub proof fn a_port_is_waited_for(
    name: &str,
    found: Option<String>,
    elapsed_ms: u64,
    r: PortStep,
)
    requires
        call_ensures(after_look, (name, found, elapsed_ms), r),
    ensures
        found matches Some(p) ==> r == PortStep::Open(p),
        found is None && elapsed_ms < 30_000 ==> r == PortStep::Retry(200),
        found is None && elapsed_ms >= 30_000 ==> (r matches PortStep::GiveUp(m) && m@
            == "virtio-serial port "@ + name@ + " never appeared"@),
{
}

} // verus!
