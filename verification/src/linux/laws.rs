//! What the Linux backend is for: laws over what is configured, asked and run.

use vstd::prelude::*;

use crate::cmdline::{build_cmdline, command_line_names_every_mount, kept};
use crate::config::{
    made_for_path, made_with_tag, mount_pairs, mount_pairs_of, ExecOutput, ExecSpec, ImageDir,
    ImagePaths, MountSpec, PortForward, SandboxConfig, Served,
};
use crate::error::Error;
use crate::ids::{is_random_uuid, MountId, SandboxId};
use crate::linux::qemu::{
    build_command, console_args, control_args, each_port_is_attached, forward_text, machine_args,
    netdev_text, network_args, port_args, ports_args, qemu_args, rootfs_args, runs_machine,
    serial_args, PortView, QemuCommand, QemuSpec, QemuSpecView, SerialPort, StderrSink,
};
use crate::linux::qmp::{json_parsed, json_string, ConnectStep, QmpClient, QmpStep, Reply};
use crate::linux::runtime::{
    default_runtime_root, lemma_sockets_differ_by_index, runtime_files_are_distinct, socket_path,
    Runtime,
};
use crate::linux::sandbox::{
    extra_params, goes_on_at, id_map, kernel_line, kernel_line_ends_with_script, machine_of,
    QemuSandbox, QemuView, StartAction, StartEvent, StartPhase, StopAction, VfsServer,
};
use crate::path::{components, pushed, pushed_name_is_last_component};
use crate::state::SandboxState;
use crate::text::{decimal, decimal_is_read_back, number_in, opt_text, texts};

verus! {

// ---------------------------------------------------------------- the command

/// The number of arguments before the ports.
pub open spec fn ports_begin(s: QemuSpecView) -> int {
    if s.rootfs is Some {
        31
    } else {
        27
    }
}

/// The command runs the machine that is asked for: so many processors, so much memory, that kernel
/// and ramdisk with that line, and everything at the places that are named.
pub open spec fn runs_as_asked(c: QemuCommand, s: QemuSpecView) -> bool {
    let a = c.args@;
    &&& c.program@ == s.qemu_bin
    &&& c.current_dir@ == s.runtime_dir
    &&& components(c.stderr_log@) == components(s.runtime_dir).push("qemu.stderr.log"@)
    &&& c.stdin_null && c.stdout_null && c.kill_on_drop && c.stderr_create && c.stderr_append
    &&& a.len() >= 27
    &&& a[5]@ == "-smp"@ && number_in(a[6]@) == s.vcpus
    &&& a[7]@ == "-m"@ && a[8]@.len() > 0 && a[8]@.last() == 'M' && number_in(a[8]@.drop_last())
        == s.memory_mib
    &&& a[9]@ == "-kernel"@ && a[10]@ == s.kernel
    &&& a[11]@ == "-initrd"@ && a[12]@ == s.initrd
    &&& a[13]@ == "-append"@ && a[14]@ == s.cmdline
    &&& a[19]@ == "-chardev"@
    &&& s.serial_socket matches Some(p) ==> a[20]@ == "socket,id=sercon,path="@ + p
        + ",server=on,wait=off"@
    &&& s.serial_socket is None ==> a[20]@ == "file,id=sercon,path="@ + s.serial_log
        + ",append=on"@
    &&& a[23]@ == "-qmp"@ && a[24]@ == "unix:"@ + s.qmp_socket + ",server=on,wait=off"@
    &&& a[25]@ == "-monitor"@ && a[26]@ == "unix:"@ + s.monitor_socket + ",server=on,wait=off"@
    &&& s.rootfs matches Some(p) ==> a.len() >= 31 && a[27]@ == "-drive"@ && a[28]@ == "file="@ + p
        + ",if=none,readonly=on,id=rootfs,format=raw"@
    &&& a.len() == ports_begin(s) + (if s.serial_ports.len() > 0 {
        2 + 4 * s.serial_ports.len()
    } else {
        0nat
    }) + (if s.network.user_mode {
        4int
    } else {
        0int
    })
}

/// The port with that index is attached: its socket on the host and its name in the guest, at a
/// place of their own among the arguments.
pub open spec fn attaches_port(c: QemuCommand, s: QemuSpecView, i: int) -> bool {
    let a = c.args@;
    let k = ports_begin(s) + 2 + 4 * i;
    let p = s.serial_ports[i];
    &&& k + 4 <= a.len()
    &&& a[k]@ == "-chardev"@
    &&& a[k + 1]@ == "socket,id="@ + p.chardev_id + ",path="@ + p.socket_path
        + ",server=off,reconnect=1"@
    &&& a[k + 2]@ == "-device"@
    &&& a[k + 3]@ == "virtserialport,chardev="@ + p.chardev_id + ",bus=vser0.0,name="@
        + p.port_name
}

/// The text names a forwarded port: its protocol, the port of the host, and that of the guest.
pub open spec fn names_forward(
    text: Seq<char>,
    protocol: Seq<char>,
    host_port: int,
    guest_port: int,
) -> bool {
    exists|a: Seq<char>, host: Seq<char>, guest: Seq<char>, b: Seq<char>|
        {
            &&& text == #[trigger] (a + (",hostfwd="@ + protocol + "::"@ + host + "-:"@ + guest)
                + b)
            &&& number_in(host) == host_port
            &&& number_in(guest) == guest_port
        }
}

/// The port of the host with that index leads to its port of the guest.
pub open spec fn forwards_port(c: QemuCommand, s: QemuSpecView, i: int) -> bool {
    let n = c.args@.len() as int;
    let f = s.network.port_forwards@[i];
    &&& n >= 4
    &&& c.args@[n - 4]@ == "-netdev"@
    &&& f.protocol is Tcp ==> names_forward(
        c.args@[n - 3]@,
        "tcp"@,
        f.host_port as int,
        f.guest_port as int,
    )
    &&& f.protocol is Udp ==> names_forward(
        c.args@[n - 3]@,
        "udp"@,
        f.host_port as int,
        f.guest_port as int,
    )
}

/// The arguments of a command, one by one.
proof fn lemma_args(c: QemuCommand, s: QemuSpecView, k: int)
    requires
        runs_machine(c, s),
        0 <= k < c.args@.len(),
    ensures
        c.args@[k]@ == qemu_args(s)[k],
{
    assert(texts(c.args@)[k] == c.args@[k]@);
}

/// How many arguments there are for the ports.
proof fn lemma_ports_len(ports: Seq<PortView>)
    ensures
        ports_args(ports).len() == 4 * ports.len(),
    decreases ports.len(),
{
    if ports.len() > 0 {
        lemma_ports_len(ports.drop_last());
    }
}

/// A command that runs the machine runs it as asked.
proof fn lemma_runs_as_asked(c: QemuCommand, s: QemuSpecView)
    requires
        runs_machine(c, s),
    ensures
        runs_as_asked(c, s),
{
    let q = qemu_args(s);
    assert(texts(c.args@).len() == c.args@.len());
    lemma_ports_len(s.serial_ports);
    decimal_is_read_back(s.vcpus as nat);
    decimal_is_read_back(s.memory_mib as nat);
    reveal_strlit("M");
    let m = machine_args(s);
    let n = machine_args(s) + console_args(s);
    let o = n + control_args(s);
    let p = o + rootfs_args(s);
    assert(forall|k: int| 0 <= k < 19 ==> #[trigger] q[k] == m[k]);
    assert(forall|k: int| 19 <= k < 23 ==> #[trigger] q[k] == console_args(s)[k - 19]);
    assert(forall|k: int| 23 <= k < 27 ==> #[trigger] q[k] == control_args(s)[k - 23]);
    assert forall|k: int| 0 <= k < c.args@.len() implies (#[trigger] c.args@[k])@ == q[k] by {
        lemma_args(c, s, k);
    }
    let mem = decimal(s.memory_mib as nat);
    assert((mem + "M"@).drop_last() =~= mem);
    assert((mem + "M"@).last() == 'M');
    if s.rootfs is Some {
        assert(q[27] == rootfs_args(s)[0]);
        assert(q[28] == rootfs_args(s)[1]);
    }
    reveal_strlit("qemu.stderr.log");
    assert(seq!['.'][0] == '.');
    pushed_name_is_last_component(s.runtime_dir, "qemu.stderr.log"@);
}

/// A command that runs the machine attaches each of its ports.
proof fn lemma_attaches_port(c: QemuCommand, s: QemuSpecView, i: int)
    requires
        runs_machine(c, s),
        0 <= i < s.serial_ports.len(),
    ensures
        attaches_port(c, s, i),
{
    let q = qemu_args(s);
    let ports = ports_args(s.serial_ports);
    lemma_runs_as_asked(c, s);
    each_port_is_attached(s.serial_ports, i);
    let k = ports_begin(s) + 2 + 4 * i;
    assert(serial_args(s) == seq!["-device"@, "virtio-serial-pci,id=vser0"@] + ports);
    assert(texts(c.args@).len() == c.args@.len());
    assert forall|d: int| 0 <= d < 4 implies (#[trigger] c.args@[k + d])@ == port_args(
        s.serial_ports[i],
    )[d] by {
        lemma_args(c, s, k + d);
        assert(q[k + d] == serial_args(s)[2 + 4 * i + d]);
        assert(serial_args(s)[2 + 4 * i + d] == ports[4 * i + d]);
        assert(ports.subrange(4 * i, 4 * i + 4)[d] == ports[4 * i + d]);
    }
    assert(c.args@[k + 0]@ == port_args(s.serial_ports[i])[0]);
    assert(c.args@[k + 1]@ == port_args(s.serial_ports[i])[1]);
    assert(c.args@[k + 2]@ == port_args(s.serial_ports[i])[2]);
    assert(c.args@[k + 3]@ == port_args(s.serial_ports[i])[3]);
}

/// Every forwarded port stands in the text of the network.
proof fn lemma_forward_stands_in(forwards: Seq<PortForward>, i: int)
    requires
        0 <= i < forwards.len(),
    ensures
        exists|a: Seq<char>, b: Seq<char>|
            netdev_text(forwards) == #[trigger] (a + forward_text(forwards[i]) + b),
    decreases forwards.len(),
{
    let front = forwards.drop_last();
    let last = forward_text(forwards.last());
    let f = netdev_text(front);
    if i == forwards.len() - 1 {
        assert(netdev_text(forwards) =~= f + forward_text(forwards[i]) + Seq::<char>::empty());
    } else {
        lemma_forward_stands_in(front, i);
        let (a, b) = choose|a: Seq<char>, b: Seq<char>|
            f == #[trigger] (a + forward_text(front[i]) + b);
        assert(front[i] == forwards[i]);
        assert(netdev_text(forwards) =~= a + forward_text(forwards[i]) + (b + last));
    }
}

/// A command that runs the machine forwards each of its ports.
proof fn lemma_forwards_port(c: QemuCommand, s: QemuSpecView, i: int)
    requires
        runs_machine(c, s),
        s.network.user_mode,
        0 <= i < s.network.port_forwards@.len(),
    ensures
        forwards_port(c, s, i),
{
    let q = qemu_args(s);
    let n = c.args@.len() as int;
    let forwards = s.network.port_forwards@;
    let f = forwards[i];
    lemma_runs_as_asked(c, s);
    lemma_args(c, s, n - 4);
    lemma_args(c, s, n - 3);
    assert(texts(c.args@).len() == n);
    let front = machine_args(s) + console_args(s) + control_args(s) + rootfs_args(s) + serial_args(
        s,
    );
    assert(q == front + network_args(s));
    assert(q[n - 4] == network_args(s)[0]);
    assert(q[n - 3] == network_args(s)[1]);
    lemma_forward_stands_in(forwards, i);
    let (a, b) = choose|a: Seq<char>, b: Seq<char>|
        netdev_text(forwards) == #[trigger] (a + forward_text(f) + b);
    let host = decimal(f.host_port as nat);
    let guest = decimal(f.guest_port as nat);
    decimal_is_read_back(f.host_port as nat);
    decimal_is_read_back(f.guest_port as nat);
    if f.protocol is Tcp {
        assert(c.args@[n - 3]@ == a + (",hostfwd="@ + "tcp"@ + "::"@ + host + "-:"@ + guest) + b);
    } else {
        assert(c.args@[n - 3]@ == a + (",hostfwd="@ + "udp"@ + "::"@ + host + "-:"@ + guest) + b);
    }
}

/// The command runs the machine that is asked for.
pub proof fn the_command_runs_what_is_asked(spec: &QemuSpec<'_>, c: QemuCommand)
    requires
        call_ensures(build_command, (spec,), c),
    ensures
        runs_as_asked(c, spec@),
        number_in(c.args@[6]@) == spec.vcpus,
        number_in(c.args@[8]@.drop_last()) == spec.memory_mib,
        c.args@[10]@ == spec.kernel@,
        c.args@[12]@ == spec.initrd@,
        c.args@[14]@ == spec.cmdline@,
        c.program@ == spec.qemu_bin@,
        c.current_dir@ == spec.runtime_dir@,
{
    lemma_runs_as_asked(c, spec@);
}

/// Machines that differ in processors, memory, kernel, ramdisk or command line are run by different
/// commands.
pub proof fn different_machines_have_different_commands(
    a: &QemuSpec<'_>,
    c: QemuCommand,
    b: &QemuSpec<'_>,
    d: QemuCommand,
)
    requires
        call_ensures(build_command, (a,), c),
        call_ensures(build_command, (b,), d),
        texts(c.args@) == texts(d.args@),
    ensures
        a.vcpus == b.vcpus,
        a.memory_mib == b.memory_mib,
        a.kernel@ == b.kernel@,
        a.initrd@ == b.initrd@,
        a.cmdline@ == b.cmdline@,
        (a.rootfs is Some && a.serial_ports@.len() == b.serial_ports@.len()
            && a.network.user_mode == b.network.user_mode) ==> b.rootfs is Some,
{
    lemma_runs_as_asked(c, a@);
    lemma_runs_as_asked(d, b@);
    assert(texts(c.args@).len() == c.args@.len());
    assert(texts(d.args@).len() == d.args@.len());
    assert forall|k: int| 0 <= k < c.args@.len() implies (#[trigger] c.args@[k])@
        == d.args@[k]@ by {
        assert(texts(c.args@)[k] == texts(d.args@)[k]);
    }
    assert(c.args@[6]@ == d.args@[6]@);
    assert(c.args@[8]@ == d.args@[8]@);
    assert(c.args@[10]@ == d.args@[10]@);
    assert(c.args@[12]@ == d.args@[12]@);
    assert(c.args@[14]@ == d.args@[14]@);
    assert(a@.serial_ports.len() == a.serial_ports@.len());
    assert(b@.serial_ports.len() == b.serial_ports@.len());
}

/// Every port is attached, each at its own socket and under its own name; every forwarded port is
/// forwarded, the one of the host to the one of the guest.
pub proof fn the_command_attaches_and_forwards_every_port(
    spec: &QemuSpec<'_>,
    c: QemuCommand,
    i: int,
)
    requires
        call_ensures(build_command, (spec,), c),
    ensures
        0 <= i < spec.serial_ports@.len() ==> attaches_port(c, spec@, i)
            && spec@.serial_ports[i].socket_path == spec.serial_ports@[i].socket_path@
            && spec@.serial_ports[i].port_name == spec.serial_ports@[i].port_name@
            && spec@.serial_ports[i].chardev_id == spec.serial_ports@[i].chardev_id@,
        spec.network.user_mode && 0 <= i < spec.network.port_forwards@.len() ==> forwards_port(
            c,
            spec@,
            i,
        ),
{
    assert(spec@.serial_ports.len() == spec.serial_ports@.len());
    if 0 <= i < spec.serial_ports@.len() {
        lemma_attaches_port(c, spec@, i);
    }
    if spec.network.user_mode && 0 <= i < spec.network.port_forwards@.len() {
        lemma_forwards_port(c, spec@, i);
    }
}

/// The errors of the command go to its log where that could be opened, and nowhere else.
pub proof fn errors_go_to_the_log(c: &QemuCommand, opened: bool, r: StderrSink)
    requires
        call_ensures(QemuCommand::stderr_sink, (c, opened), r),
    ensures
        r is Log <==> opened,
        r is Null <==> !opened,
{
}

// ---------------------------------------------------------------- files

/// The files of a sandbox lie in its directory, each under its own name.
pub proof fn files_lie_in_the_directory(root: String, rt: Runtime)
    requires
        call_ensures(Runtime::new, (root,), rt),
    ensures
        rt.root@ == root@,
        components(rt.serial_log@) == components(root@).push("serial.log"@),
        components(rt.serial_sock@) == components(root@).push("serial.sock"@),
        components(rt.qmp_sock@) == components(root@).push("qmp.sock"@),
        components(rt.monitor_sock@) == components(root@).push("monitor.sock"@),
{
    runtime_files_are_distinct(rt, root@);
}

/// The directory of a sandbox that was given none lies among the temporary files, and is called
/// after the sandbox and the process.
pub proof fn the_directory_is_called_after_the_sandbox(
    temp_dir: &str,
    name: &str,
    pid: u32,
    r: String,
)
    requires
        call_ensures(default_runtime_root, (temp_dir, name, pid), r),
    ensures
        exists|digits: Seq<char>|
            {
                &&& r@ == pushed(temp_dir@, #[trigger] ("tokimo-"@ + name@ + "-"@ + digits))
                &&& number_in(digits) == pid
            },
{
    decimal_is_read_back(pid as nat);
    let digits = decimal(pid as nat);
    assert(r@ == pushed(temp_dir@, "tokimo-"@ + name@ + "-"@ + digits));
}

/// The socket of a mount lies in the directory of the sandbox and is called after the index of the
/// mount, so that no two mounts share one.
pub proof fn a_socket_is_called_after_its_mount(
    root: &str,
    i: usize,
    r: String,
    j: usize,
    s: String,
)
    requires
        call_ensures(socket_path, (root, i), r),
        call_ensures(socket_path, (root, j), s),
    ensures
        exists|digits: Seq<char>|
            {
                &&& r@ == pushed(root@, #[trigger] ("rpc"@ + digits + ".sock"@))
                &&& number_in(digits) == i
            },
        r@ == s@ <==> i == j,
{
    decimal_is_read_back(i as nat);
    let digits = decimal(i as nat);
    assert(r@ == pushed(root@, "rpc"@ + digits + ".sock"@));
    lemma_sockets_differ_by_index(root@, i as int, j as int);
}

// ---------------------------------------------------------------- the control connection

/// A request names its command, and carries its arguments where it has some.
pub proof fn a_request_names_its_command(cmd: &str, args: Option<&str>, r: String)
    requires
        call_ensures(QmpClient::execute, (cmd, args), r),
    ensures
        args is None ==> r@ == "{\"execute\":"@ + json_string(cmd@) + "}\n"@,
        args matches Some(a) ==> r@ == "{\"arguments\":"@ + a@ + ",\"execute\":"@ + json_string(
            cmd@,
        ) + "}\n"@,
{
}

/// The guest is asked to shut down, and QEMU to end, by the commands of that name.
pub proof fn stopping_is_asked_for_by_name(down: String, end: String)
    requires
        call_ensures(QmpClient::powerdown, (), down),
        call_ensures(QmpClient::quit, (), end),
    ensures
        down@ == "{\"execute\":"@ + json_string("system_powerdown"@) + "}\n"@,
        end@ == "{\"execute\":"@ + json_string("quit"@) + "}\n"@,
{
}

/// A message with a result is the result, whatever else it holds; one with an error is that error;
/// any other is about something else. What cannot be parsed is a failure with the parser's words.
pub proof fn messages_are_told_apart(message: Result<Reply, String>, r: QmpStep)
    requires
        call_ensures(QmpClient::judge, (message,), r),
    ensures
        message matches Err(e) ==> (r matches QmpStep::Fail(m) && m@ == e@),
        message matches Ok(Reply { ret: Some(v), error }) ==> (r matches QmpStep::Return(w) && w@
            == v@),
        message matches Ok(Reply { ret: None, error: Some(e) }) ==> (r matches QmpStep::Fail(m)
            && m@ == "QMP error: "@ + e@),
        message matches Ok(Reply { ret: None, error: None }) ==> r is Skip,
{
}

/// A line is read for its members `return` and `error`, in this order; a connection that was closed
/// is a failure.
pub proof fn lines_are_read_for_their_members(line: Option<&str>, r: QmpStep)
    requires
        call_ensures(QmpClient::read_message, (line,), r),
    ensures
        line is None ==> r is Fail,
        line matches Some(l) ==> match json_parsed(l@) {
            Err(e) => r matches QmpStep::Fail(m) && m@ == e,
            Ok(o) => {
                &&& o.contains_key("return"@) ==> (r matches QmpStep::Return(v) && v@
                    == o["return"@])
                &&& !o.contains_key("return"@) && o.contains_key("error"@) ==> (
                r matches QmpStep::Fail(m) && m@ == "QMP error: "@ + o["error"@])
                &&& !o.contains_key("return"@) && !o.contains_key("error"@) ==> r is Skip
            },
        },
{
}

/// The connection is tried for ten seconds, and then given up with the last error.
pub proof fn the_connection_is_tried_for_a_while(
    attempt: Result<(), String>,
    elapsed_ms: u64,
    r: ConnectStep,
)
    requires
        call_ensures(QmpClient::connect, (attempt, elapsed_ms), r),
    ensures
        attempt is Ok ==> r is Proceed,
        attempt is Err && elapsed_ms < 10_000 ==> r == ConnectStep::Retry(80),
        attempt matches Err(e) ==> (elapsed_ms >= 10_000 ==> r == ConnectStep::Fail(e)),
{
}

/// A greeting that is a JSON text is answered by the end of the negotiation; anything else is not.
pub proof fn a_greeting_is_answered(
    line: Option<&str>,
    r: Result<String, String>,
    parsed: Result<(), String>,
    s: Result<String, String>,
)
    requires
        call_ensures(QmpClient::greeted, (line,), r),
        call_ensures(QmpClient::negotiate, (parsed,), s),
    ensures
        r is Ok <==> (line matches Some(l) && json_parsed(l@) is Ok),
        r matches Ok(m) ==> m@ == "{\"execute\":"@ + json_string("qmp_capabilities"@) + "}\n"@,
        s is Ok <==> parsed is Ok,
        s matches Ok(m) ==> m@ == "{\"execute\":"@ + json_string("qmp_capabilities"@) + "}\n"@,
        s matches Err(e) ==> parsed == Err::<(), String>(e),
{
}

// ---------------------------------------------------------------- a start

/// The directory of a sandbox: the one that its configuration names, or one among the temporary
/// files that is called after the sandbox and the process.
pub open spec fn is_root_for<V>(
    root: Seq<char>,
    config: SandboxConfig<V>,
    temp_dir: Seq<char>,
    pid: int,
) -> bool {
    match config.runtime_dir {
        Some(d) => root == d@,
        None => exists|digits: Seq<char>|
            {
                &&& root == pushed(temp_dir, #[trigger] ("tokimo-"@ + config.name@ + "-"@ + digits))
                &&& number_in(digits) == pid
            },
    }
}

/// A sandbox is started once. Its files come first, in its own directory.
pub proof fn a_start_makes_its_files<V>(
    sb: &mut QemuSandbox<V>,
    temp_dir: String,
    pid: u32,
    a: StartAction,
)
    requires
        old(sb)@.wf(),
        call_ensures(
            QemuSandbox::<V>::start,
            (sb, StartEvent::Begin { temp_dir, pid }),
            a,
        ),
    ensures
        !(old(sb)@.state is Created) ==> a == StartAction::Finish(Err(Error::AlreadyStarted))
            && final(sb)@ == old(sb)@,
        old(sb)@.state is Created ==> final(sb)@.state is Starting && (
        a matches StartAction::MakeRuntime(rt) && {
            &&& is_root_for(rt.root@, old(sb)@.config, temp_dir@, pid as int)
            &&& components(rt.serial_log@) == components(rt.root@).push("serial.log"@)
            &&& components(rt.serial_sock@) == components(rt.root@).push("serial.sock"@)
            &&& components(rt.qmp_sock@) == components(rt.root@).push("qmp.sock"@)
            &&& components(rt.monitor_sock@) == components(rt.root@).push("monitor.sock"@)
        }),
        final(sb)@.config == old(sb)@.config,
        final(sb)@.id == old(sb)@.id,
{
    if old(sb)@.state is Created {
        let rt = a->MakeRuntime_0;
        runtime_files_are_distinct(rt, rt.root@);
        decimal_is_read_back(pid as nat);
        if old(sb)@.config.runtime_dir is None {
            let digits = decimal(pid as nat);
            assert(rt.root@ == pushed(
                temp_dir@,
                "tokimo-"@ + old(sb)@.config.name@ + "-"@ + digits,
            ));
        }
    }
}

/// The mounts are served one after the other, from the first to the last. Each is served as it was
/// configured, at a socket in the directory of the sandbox that is called after its index.
pub proof fn every_mount_is_served_in_turn<V>(
    sb: &mut QemuSandbox<V>,
    ev: StartEvent,
    a: StartAction,
)
    requires
        old(sb)@.wf(),
        old(sb)@.awaits(ev),
        call_ensures(QemuSandbox::<V>::start, (sb, ev), a),
    ensures
        a matches StartAction::Bind(k, s) ==> {
            let v = final(sb)@;
            &&& k < v.config.mounts@.len()
            &&& made_with_tag(v.config.mounts@[k as int], s.tag@)
            &&& made_for_path(v.config.mounts@[k as int], s.guest_path@)
            &&& v.runtime matches Some(rt) && exists|digits: Seq<char>|
                {
                    &&& s.socket_path@ == pushed(
                        rt.root@,
                        #[trigger] ("rpc"@ + digits + ".sock"@),
                    )
                    &&& number_in(digits) == k
                }
            &&& ev is RuntimeMade || ev is ImageSearched || ev is Bound
            &&& !(ev is Bound) ==> k == 0
            &&& ev is Bound ==> (old(sb)@.phase matches StartPhase::Bind(_, j) && k == j + 1)
        },
        a is Spawn ==> {
            &&& ev is RuntimeMade || ev is ImageSearched || ev is Bound
            &&& !(ev is Bound) ==> old(sb)@.config.mounts@.len() == 0
            &&& ev is Bound ==> (old(sb)@.phase matches StartPhase::Bind(_, j)
                && j + 1 == old(sb)@.config.mounts@.len())
        },
        final(sb)@.config == old(sb)@.config,
{
    if a is Bind {
        let k = a->Bind_0;
        decimal_is_read_back(k as nat);
        let digits = decimal(k as nat);
        assert(a->Bind_1@.socket_path == pushed(
            final(sb)@.runtime->0.root@,
            "rpc"@ + digits + ".sock"@,
        ));
    }
}

/// The command runs the sandbox as it is configured: its processors and its memory, the image, the
/// log or the socket of its console, and for every mount a port that is called after its tag and
/// leads to its socket.
pub open spec fn runs_sandbox<V>(
    c: QemuCommand,
    config: SandboxConfig<V>,
    rt: Runtime,
    image: ImagePaths,
) -> bool {
    let a = c.args@;
    &&& a.len() >= 27
    &&& a[5]@ == "-smp"@ && number_in(a[6]@) == config.vcpus
    &&& a[7]@ == "-m"@ && a[8]@.len() > 0 && a[8]@.last() == 'M' && number_in(a[8]@.drop_last())
        == config.memory_mib
    &&& a[10]@ == image.kernel@
    &&& a[12]@ == image.initrd@
    &&& image.rootfs matches Some(p) ==> a.len() >= 31 && a[28]@ == "file="@ + p@
        + ",if=none,readonly=on,id=rootfs,format=raw"@
    &&& config.interactive_serial ==> a[20]@ == "socket,id=sercon,path="@ + rt.serial_sock@
        + ",server=on,wait=off"@
    &&& !config.interactive_serial ==> a[20]@ == "file,id=sercon,path="@ + rt.serial_log@
        + ",append=on"@
    &&& a[24]@ == "unix:"@ + rt.qmp_sock@ + ",server=on,wait=off"@
    &&& a[26]@ == "unix:"@ + rt.monitor_sock@ + ",server=on,wait=off"@
    &&& c.current_dir@ == rt.root@
}

/// The mount is in the command: the guest is told of it, and a port that is called after its tag
/// leads to its socket.
pub open spec fn runs_mount(
    c: QemuCommand,
    has_rootfs: bool,
    i: int,
    tag: Seq<char>,
    path: Seq<char>,
    socket: Seq<char>,
) -> bool {
    let k = (if has_rootfs {
        33int
    } else {
        29int
    }) + 4 * i;
    &&& k + 4 <= c.args@.len()
    &&& exists|a: Seq<char>, b: Seq<char>|
        c.args@[14]@ == #[trigger] (a + (tag + ":"@ + path) + b)
    &&& exists|a: Seq<char>, b: Seq<char>|
        c.args@[k + 1]@ == #[trigger] (a + (",path="@ + socket) + b)
    &&& exists|a: Seq<char>| c.args@[k + 3]@ == #[trigger] (a + (",name=tokimo.rpc."@ + tag))
}

/// What the sandbox with these files and this image is run by.
proof fn lemma_runs_sandbox<V>(c: QemuCommand, v: QemuView<V>, rt: Runtime, image: ImagePaths)
    requires
        runs_machine(c, machine_of(v, rt, image)),
    ensures
        runs_sandbox(c, v.config, rt, image),
        c.program@ == v.qemu_bin,
{
    lemma_runs_as_asked(c, machine_of(v, rt, image));
}

/// Each mount of the sandbox is in the command.
proof fn lemma_runs_mount<V>(
    c: QemuCommand,
    v: QemuView<V>,
    rt: Runtime,
    image: ImagePaths,
    i: int,
    tag: Seq<char>,
    path: Seq<char>,
)
    requires
        runs_machine(c, machine_of(v, rt, image)),
        0 <= i < v.config.mounts@.len(),
        made_with_tag(v.config.mounts@[i], tag),
        made_for_path(v.config.mounts@[i], path),
    ensures
        runs_mount(
            c,
            image.rootfs is Some,
            i,
            tag,
            path,
            pushed(rt.root@, "rpc"@ + decimal(i as nat) + ".sock"@),
        ),
{
    let s = machine_of(v, rt, image);
    lemma_runs_as_asked(c, s);
    lemma_attaches_port(c, s, i);
    let socket = pushed(rt.root@, "rpc"@ + decimal(i as nat) + ".sock"@);
    let k = ports_begin(s) + 2 + 4 * i;
    let p = s.serial_ports[i];
    assert(p.socket_path == socket);
    assert(p.port_name == "tokimo.rpc."@ + tag);
    lemma_port_texts(p.chardev_id, socket, tag);
    assert(c.args@[k + 1]@ == ("socket,id="@ + p.chardev_id) + (",path="@ + socket)
        + ",server=off,reconnect=1"@);
    assert(c.args@[k + 3]@ == ("virtserialport,chardev="@ + p.chardev_id + ",bus=vser0.0"@) + (
    ",name=tokimo.rpc."@ + tag));
    lemma_line_tells_of_mount(v.config, image, i, tag, path);
    assert(c.args@[14]@ == kernel_line(v.config, image));
}

/// The texts of a port hold its socket and its name.
proof fn lemma_port_texts(id: Seq<char>, socket: Seq<char>, tag: Seq<char>)
    ensures
        "socket,id="@ + id + ",path="@ + socket + ",server=off,reconnect=1"@ == ("socket,id="@ + id)
            + (",path="@ + socket) + ",server=off,reconnect=1"@,
        "virtserialport,chardev="@ + id + ",bus=vser0.0,name="@ + ("tokimo.rpc."@ + tag) == (
        "virtserialport,chardev="@ + id + ",bus=vser0.0"@) + (",name=tokimo.rpc."@ + tag),
{
    reveal_strlit(",bus=vser0.0,name=");
    reveal_strlit(",bus=vser0.0");
    reveal_strlit(",name=tokimo.rpc.");
    reveal_strlit("tokimo.rpc.");
    let d = "virtserialport,chardev="@ + id;
    let x = ",bus=vser0.0,name="@;
    let y = "tokimo.rpc."@;
    let z = ",bus=vser0.0"@;
    let w = ",name=tokimo.rpc."@;
    assert(x + y =~= z + w);
    assert(d + x + (y + tag) =~= d + (x + y) + tag);
    assert((d + z) + (w + tag) =~= d + (z + w) + tag);
    assert("socket,id="@ + id + ",path="@ + socket + ",server=off,reconnect=1"@ =~= ("socket,id="@
        + id) + (",path="@ + socket) + ",server=off,reconnect=1"@);
}

/// The line of a sandbox tells of each of its mounts.
proof fn lemma_line_tells_of_mount<V>(
    config: SandboxConfig<V>,
    image: ImagePaths,
    i: int,
    tag: Seq<char>,
    path: Seq<char>,
)
    requires
        0 <= i < config.mounts@.len(),
        made_with_tag(config.mounts@[i], tag),
        made_for_path(config.mounts@[i], path),
    ensures
        exists|a: Seq<char>, b: Seq<char>|
            kernel_line(config, image) == #[trigger] (a + (tag + ":"@ + path) + b),
{
    let pairs = mount_pairs_of(config.mounts@);
    command_line_names_every_mount(
        "ttyS0"@,
        extra_params(config),
        pairs,
        image.rootfs is Some,
        i,
    );
    assert(pairs[i] == (tag, path));
}

/// What a start runs is the sandbox as it is configured, with the image that is configured or was
/// found, and with every mount.
pub proof fn a_start_runs_the_configured_sandbox<V>(
    sb: &mut QemuSandbox<V>,
    ev: StartEvent,
    c: QemuCommand,
    image: ImagePaths,
    i: int,
    tag: Seq<char>,
    path: Seq<char>,
)
    requires
        old(sb)@.wf(),
        old(sb)@.awaits(ev),
        call_ensures(QemuSandbox::<V>::start, (sb, ev), StartAction::Spawn(c)),
        (ev is RuntimeMade && old(sb)@.config.image == Some(image)) || (
        old(sb)@.phase matches StartPhase::Bind(m, _) && m == image),
    ensures
        final(sb)@.runtime matches Some(rt) && {
            &&& runs_sandbox(c, old(sb)@.config, rt, image)
            &&& 0 <= i < old(sb)@.config.mounts@.len() && made_with_tag(
                old(sb)@.config.mounts@[i],
                tag,
            ) && made_for_path(old(sb)@.config.mounts@[i], path) ==> runs_mount(
                c,
                image.rootfs is Some,
                i,
                tag,
                path,
                pushed(rt.root@, "rpc"@ + decimal(i as nat) + ".sock"@),
            )
        },
        c.program@ == old(sb)@.qemu_bin,
{
    let v = final(sb)@;
    let rt = v.runtime->0;
    lemma_runs_sandbox(c, v, rt, image);
    if 0 <= i < v.config.mounts@.len() && made_with_tag(v.config.mounts@[i], tag) && made_for_path(
        v.config.mounts@[i],
        path,
    ) {
        lemma_runs_mount(c, v, rt, image, i, tag, path);
    }
}

/// Where no image is configured the first directory that holds one supplies it; where none does the
/// start fails.
pub proof fn a_start_runs_the_image_that_was_found<V>(
    sb: &mut QemuSandbox<V>,
    dirs: Vec<ImageDir>,
    a: StartAction,
    found: Option<ImagePaths>,
)
    requires
        old(sb)@.wf(),
        old(sb)@.phase is Image,
        call_ensures(QemuSandbox::<V>::start, (sb, StartEvent::ImageSearched(dirs)), a),
        call_ensures(ImagePaths::from_env_or_default, (&dirs,), found),
    ensures
        found is None ==> (a matches StartAction::Finish(Err(Error::Config(_)))),
        found is Some <==> a is Bind || a is Spawn,
        a matches StartAction::Spawn(c) ==> (found matches Some(image) && c.args@.len() > 12
            && c.args@[10]@ == image.kernel@ && c.args@[12]@ == image.initrd@),
        a is Bind ==> (final(sb)@.phase matches StartPhase::Bind(image, _) && (
        found matches Some(f) && image.kernel@ == f.kernel@ && image.initrd@ == f.initrd@
            && opt_text(image.rootfs) == opt_text(f.rootfs))),
{
    if exists|image: ImagePaths| #[trigger] ImagePaths::is_first_in(Some(image), dirs@) {
        assert forall|x: ImagePaths, y: ImagePaths|
            ImagePaths::is_first_in(Some(x), dirs@) && ImagePaths::is_first_in(
                Some(y),
                dirs@,
            ) implies x.kernel@ == y.kernel@ && x.initrd@ == y.initrd@ && opt_text(x.rootfs)
            == opt_text(y.rootfs) by {
            lemma_one_first_image(dirs@, x, y);
        }
    }
    if a is Spawn {
        let w = final(sb)@;
        let image = choose|image: ImagePaths|
            #[trigger] ImagePaths::is_first_in(Some(image), dirs@)
                && goes_on_at(w, image, 0, a);
        lemma_runs_sandbox(a->Spawn_0, w, w.runtime->0, image);
    }
    if found is None {
        assert forall|x: ImagePaths| !ImagePaths::is_first_in(Some(x), dirs@) by {
            lemma_no_first_image(dirs@, x);
        }
    }
    if found is Some {
        lemma_no_first_image(dirs@, found->0);
    }
}

/// There is one first image.
pub proof fn lemma_one_first_image(
    dirs: Seq<ImageDir>,
    x: ImagePaths,
    y: ImagePaths,
)
    requires
        ImagePaths::is_first_in(Some(x), dirs),
        ImagePaths::is_first_in(Some(y), dirs),
    ensures
        x.kernel@ == y.kernel@,
        x.initrd@ == y.initrd@,
        opt_text(x.rootfs) == opt_text(y.rootfs),
{
    let i = choose|i: int|
        {
            &&& 0 <= i < dirs.len()
            &&& (#[trigger] dirs[i]).usable()
            &&& x.is_image_of(dirs[i])
            &&& forall|j: int| 0 <= j < i ==> !(#[trigger] dirs[j]).usable()
        };
    let k = choose|k: int|
        {
            &&& 0 <= k < dirs.len()
            &&& (#[trigger] dirs[k]).usable()
            &&& y.is_image_of(dirs[k])
            &&& forall|j: int| 0 <= j < k ==> !(#[trigger] dirs[j]).usable()
        };
    assert(dirs[i].usable() && dirs[k].usable());
    assert(i == k);
}

/// Where there is no image there is no first one.
pub proof fn lemma_no_first_image(dirs: Seq<ImageDir>, x: ImagePaths)
    ensures
        !(ImagePaths::is_first_in(Some(x), dirs) && ImagePaths::is_first_in(None, dirs)),
{
}

/// Once QEMU runs the control connection is made to its socket; once that stands the sandbox runs,
/// and what its identifiers lead to are the tags of its mounts.
pub proof fn a_start_ends_with_a_running_sandbox<V>(
    sb: &mut QemuSandbox<V>,
    ev: StartEvent,
    a: StartAction,
    id: u128,
)
    requires
        old(sb)@.wf(),
        old(sb)@.awaits(ev),
        call_ensures(QemuSandbox::<V>::start, (sb, ev), a),
    ensures
        ev matches StartEvent::Spawned(Ok(_)) ==> (a matches StartAction::Connect(p)
            && old(sb)@.runtime matches Some(rt) && p@ == rt.qmp_sock@) && final(sb)@.child,
        a == StartAction::Finish(Ok(())) <==> (ev matches StartEvent::Connected(Ok(_))),
        a == StartAction::Finish(Ok(())) ==> final(sb)@.state is Running && final(sb)@.qmp && (
        final(sb)@.mount_ids.contains_key(id) ==> exists|i: int|
            0 <= i < old(sb)@.config.mounts@.len() && made_with_tag(
                #[trigger] old(sb)@.config.mounts@[i],
                final(sb)@.mount_ids[id],
            )),
        final(sb)@.state is Running ==> a
            == StartAction::Finish(Ok(())) || old(sb)@.state is Running,
{
    if ev matches StartEvent::Connected(Ok(_)) {
        let w = final(sb)@;
        let ids = choose|ids: Seq<MountId>|
            {
                &&& ids.len() == w.config.mounts@.len()
                &&& forall|i: int|
                    0 <= i < ids.len() ==> is_random_uuid((#[trigger] ids[i]).0)
                &&& w.mount_ids == #[trigger] id_map(ids, w.config.mounts@)
            };
        if w.mount_ids.contains_key(id) {
            lemma_id_leads_to_a_tag(ids, w.config.mounts@, id);
        }
    }
}

/// What an identifier leads to is the tag of a mount.
proof fn lemma_id_leads_to_a_tag<V>(
    ids: Seq<MountId>,
    mounts: Seq<MountSpec<V>>,
    id: u128,
)
    requires
        ids.len() <= mounts.len(),
        id_map(ids, mounts).contains_key(id),
    ensures
        exists|i: int|
            0 <= i < mounts.len() && made_with_tag(
                #[trigger] mounts[i],
                id_map(ids, mounts)[id],
            ),
    decreases ids.len(),
{
    if ids.len() > 0 {
        if ids.last().0 == id {
            assert(made_with_tag(
                mounts[ids.len() - 1],
                id_map(ids, mounts)[id],
            ));
        } else {
            lemma_id_leads_to_a_tag(ids.drop_last(), mounts, id);
        }
    }
}

/// A start that fails says why: the words of what failed come last.
pub proof fn a_failed_start_says_why<V>(sb: &mut QemuSandbox<V>, ev: StartEvent, a: StartAction)
    requires
        old(sb)@.wf(),
        old(sb)@.awaits(ev),
        call_ensures(QemuSandbox::<V>::start, (sb, ev), a),
    ensures
        ev matches StartEvent::RuntimeMade(Err(e)) ==> a == StartAction::Finish(Err(Error::Io(e))),
        ev matches StartEvent::Bound(Err(e)) ==> (old(sb)@.phase matches StartPhase::Bind(_, i) && (
        a matches StartAction::Finish(Err(Error::Hypervisor(m))) && m@ == "rpc bind "@ + pushed(
            old(sb)@.runtime->0.root@,
            "rpc"@ + decimal(i as nat) + ".sock"@,
        ) + ": "@ + e@)),
        ev matches StartEvent::Spawned(Err(e)) ==> (a matches StartAction::Finish(
            Err(Error::Hypervisor(m)),
        ) && m@ == "qemu spawn: "@ + e@),
        ev matches StartEvent::Connected(Err(e)) ==> (a matches StartAction::Finish(
            Err(Error::Hypervisor(m)),
        ) && m@ == "qmp connect: "@ + e@),
        a matches StartAction::Finish(Err(_)) ==> final(sb)@.state == old(sb)@.state
            && final(sb)@.servers == old(sb)@.servers,
{
}

// ---------------------------------------------------------------- a stop

/// A sandbox that runs, or is being started, is stopped: QEMU is asked to end where it can be asked,
/// and is waited for where it was run. Any other is left alone.
pub proof fn a_stop_ends_what_was_run<V>(sb: &mut QemuSandbox<V>, a: StopAction)
    requires
        old(sb)@.wf(),
        call_ensures(QemuSandbox::<V>::stop, (sb,), a),
    ensures
        old(sb)@.state is Running ==> a == (StopAction::EndQemu { ask: true, reap: true }),
        old(sb)@.state is Running || old(sb)@.state is Starting ==> final(sb)@.state is Stopping
            && (
        a matches StopAction::EndQemu { ask, reap } && ask == old(sb)@.qmp
            && reap == old(sb)@.child),
        !(old(sb)@.state is Running || old(sb)@.state is Starting) ==> a is Nothing && final(sb)@
            == old(sb)@,
        final(sb)@.servers == old(sb)@.servers,
        final(sb)@.config == old(sb)@.config,
{
}

/// Once QEMU has ended the sandbox is stopped, and every mount that was served is cleaned up.
pub proof fn a_stop_cleans_up_every_mount<V>(sb: &mut QemuSandbox<V>, a: StopAction, i: int)
    requires
        old(sb)@.wf(),
        old(sb)@.state is Stopping,
        call_ensures(QemuSandbox::<V>::qemu_ended, (sb,), a),
    ensures
        final(sb)@.state is Stopped,
        final(sb)@.servers.len() == 0,
        a matches StopAction::Cleanup(r) && r@.len() == old(sb)@.servers.len() && (0 <= i
            < r@.len() ==> r@[i].tag@ == old(sb)@.servers[i].tag
                && r@[i].guest_path@ == old(sb)@.servers[i].guest_path
                && r@[i].socket_path@ == old(sb)@.servers[i].socket_path),
{
    let r = a->Cleanup_0;
    let views = r@.map_values(|s: VfsServer| s@);
    assert(views.len() == r@.len());
    if 0 <= i < r@.len() {
        assert(views[i] == r@[i]@);
    }
}

/// A sandbox whose QEMU has ended by itself is stopped; one without is left as it is.
pub proof fn an_ended_sandbox_is_stopped<V>(sb: &mut QemuSandbox<V>, before: &QemuSandbox<V>, w: bool)
    requires
        old(sb)@.wf(),
        before@ == old(sb)@,
        call_ensures(QemuSandbox::<V>::wait, (before,), w),
        call_ensures(QemuSandbox::<V>::waited, (sb,), ()),
    ensures
        w <==> old(sb)@.child,
        w ==> final(sb)@.state is Stopped,
        !w ==> final(sb)@ == old(sb)@,
{
}

// ---------------------------------------------------------------- what a sandbox says of itself

/// A new sandbox is as configured, and has not been started.
pub proof fn a_new_sandbox_is_as_configured<V>(
    config: SandboxConfig<V>,
    sb: QemuSandbox<V>,
    p: String,
    other: QemuSandbox<V>,
)
    requires
        call_ensures(QemuSandbox::<V>::new, (config,), sb),
        call_ensures(QemuSandbox::<V>::qemu_bin, (sb, p), other),
    ensures
        sb@.state is Created,
        sb@.config == config,
        sb@.qemu_bin == "/usr/bin/qemu-system-x86_64"@,
        other@.qemu_bin == p@,
        other@.config == config,
        other@.id == sb@.id,
        other@.state is Created,
        sb@.wf() && other@.wf(),
{
}

/// A sandbox tells its identifier, its state and its configuration, and, once it has files, where
/// its console is written to and where it can be reached.
pub proof fn a_sandbox_tells_what_it_is<V>(
    sb: &QemuSandbox<V>,
    id: SandboxId,
    state: SandboxState,
    config: &SandboxConfig<V>,
    log: Option<String>,
    socket: Option<String>,
)
    requires
        sb@.wf(),
        call_ensures(QemuSandbox::<V>::id, (sb,), id),
        call_ensures(QemuSandbox::<V>::state, (sb,), state),
        call_ensures(QemuSandbox::<V>::config, (sb,), config),
        call_ensures(QemuSandbox::<V>::serial_log_path, (sb,), log),
        call_ensures(QemuSandbox::<V>::serial_socket_path, (sb,), socket),
    ensures
        id == sb@.id,
        state == sb@.state,
        *config == sb@.config,
        log is Some <==> sb@.runtime is Some,
        socket is Some <==> sb@.runtime is Some && config.interactive_serial,
        sb@.runtime matches Some(rt) ==> (log matches Some(p) && components(p@) == components(
            rt.root@,
        ).push("serial.log"@)),
        sb@.runtime matches Some(rt) ==> (socket matches Some(p) ==> components(p@) == components(
            rt.root@,
        ).push("serial.sock"@)),
{
    if sb@.runtime is Some {
        runtime_files_are_distinct(sb@.runtime->0, sb@.runtime->0.root@);
    }
}

/// The sockets that are left to remove are those of the mounts that are served, in their order.
pub proof fn sockets_are_those_of_the_mounts<V>(sb: &QemuSandbox<V>, r: Vec<String>, i: int)
    requires
        call_ensures(QemuSandbox::<V>::sockets, (sb,), r),
    ensures
        r@.len() == sb@.servers.len(),
        0 <= i < r@.len() ==> r@[i]@ == sb@.servers[i].socket_path,
{
    assert(texts(r@).len() == r@.len());
    if 0 <= i < r@.len() {
        assert(texts(r@)[i] == r@[i]@);
    }
}

/// A sandbox that runs serves every mount that is configured, each under its tag, for its place in
/// the guest, and at the socket that is called after its index.
pub proof fn a_running_sandbox_serves_its_mounts<V>(v: QemuView<V>, i: int)
    requires
        v.wf(),
        v.state is Running,
        0 <= i < v.config.mounts@.len(),
    ensures
        v.servers.len() == v.config.mounts@.len(),
        made_with_tag(v.config.mounts@[i], v.servers[i].tag),
        made_for_path(v.config.mounts@[i], v.servers[i].guest_path),
        v.runtime matches Some(rt) && v.servers[i].socket_path == pushed(
            rt.root@,
            "rpc"@ + decimal(i as nat) + ".sock"@,
        ),
{
}

/// The script of a sandbox stands last on its line, whatever its console.
pub proof fn the_script_stands_last<V>(config: SandboxConfig<V>, image: ImagePaths, text: Seq<char>)
    requires
        kept(texts(config.extra_cmdline@), true).len() > 0,
        kept(texts(config.extra_cmdline@), true).last() == "tokimo.script="@ + text,
    ensures
        exists|a: Seq<char>| kernel_line(config, image)
            == #[trigger] (a + ("tokimo.script="@ + text)),
{
    kernel_line_ends_with_script(config, image);
}

/// What is served from a mount is what it names.
pub proof fn mounts_are_served_from_what_they_name<V>(
    sb: &QemuSandbox<V>,
    i: usize,
    served: Served<'_, V>,
)
    requires
        i < sb@.config.mounts@.len(),
        call_ensures(QemuSandbox::<V>::mount_served, (sb, i), served),
    ensures
        match sb@.config.mounts@[i as int] {
            MountSpec::HostDir { host_path, read_only, .. } => served matches Served::Host(fs)
                && fs.spec_root() == host_path@ && fs.spec_read_only() == read_only,
            MountSpec::Vfs { vfs, .. } => served matches Served::Vfs(v) && *v == vfs,
        },
{
}

/// Mounts cannot be added to a sandbox or taken from it, and no command can be run in it: that is
/// refused and changes nothing.
pub proof fn mounts_stay_as_they_are<V>(
    sb: &mut QemuSandbox<V>,
    spec: MountSpec<V>,
    added: Result<MountId, Error>,
    other: &mut QemuSandbox<V>,
    id: MountId,
    removed: Result<(), Error>,
    third: &QemuSandbox<V>,
    command: ExecSpec,
    done: Result<ExecOutput, Error>,
)
    requires
        call_ensures(QemuSandbox::<V>::add_mount, (sb, spec), added),
        call_ensures(QemuSandbox::<V>::remove_mount, (other, id), removed),
        call_ensures(QemuSandbox::<V>::exec, (third, command), done),
    ensures
        added matches Err(Error::Unsupported(_)),
        removed matches Err(Error::Unsupported(_)),
        done matches Err(Error::Unsupported(_)),
        final(sb)@ == old(sb)@,
        final(other)@ == old(other)@,
{
}

/// A copy of the paths of a sandbox names the same files.
pub proof fn copied_paths_are_the_same(rt: &Runtime, r: Runtime)
    requires
        call_ensures(Runtime::copied, (rt,), r),
    ensures
        r == *rt,
{
}

/// The guest of a start gets the line that is built of what is configured: the serial console, what the
/// configuration adds and, where the console is interactive, a shell, every mount, and the root file
/// system where the image has one.
pub proof fn a_start_passes_the_built_line<V>(
    sb: &mut QemuSandbox<V>,
    ev: StartEvent,
    c: QemuCommand,
    image: ImagePaths,
    extra: &Vec<String>,
    pairs: Vec<(String, String)>,
    line: String,
)
    requires
        old(sb)@.wf(),
        old(sb)@.awaits(ev),
        call_ensures(QemuSandbox::<V>::start, (sb, ev), StartAction::Spawn(c)),
        (ev is RuntimeMade && old(sb)@.config.image == Some(image)) || (
        old(sb)@.phase matches StartPhase::Bind(m, _) && m == image),
        old(sb)@.config.interactive_serial ==> texts(extra@) == texts(
            old(sb)@.config.extra_cmdline@,
        ).push("tokimo.shell=1"@),
        !old(sb)@.config.interactive_serial ==> texts(extra@) == texts(
            old(sb)@.config.extra_cmdline@,
        ),
        call_ensures(mount_pairs::<V>, (&old(sb)@.config.mounts,), pairs),
        call_ensures(build_cmdline, ("ttyS0", extra, &pairs, image.rootfs is Some), line),
    ensures
        c.args@.len() > 14,
        c.args@[13]@ == "-append"@,
        c.args@[14]@ == line@,
{
    let v = final(sb)@;
    let m = machine_of(v, v.runtime->0, image);
    let t = texts(c.args@);
    assert(t == qemu_args(m));
    assert(t.len() == c.args@.len());
    assert(machine_args(m).len() == 19);
    assert(t[13] == machine_args(m)[13] && t[14] == machine_args(m)[14]);
    assert(t[13] == c.args@[13]@ && t[14] == c.args@[14]@);
}

/// The network forwards nothing by itself; a port that is forwarded besides is named behind the others,
/// with its protocol, the port of the host and then that of the guest.
pub proof fn the_network_grows_by_forwards(
    few: &QemuSpec<'_>,
    c: QemuCommand,
    many: &QemuSpec<'_>,
    d: QemuCommand,
    f: PortForward,
)
    requires
        call_ensures(build_command, (few,), c),
        call_ensures(build_command, (many,), d),
        few.network.user_mode,
        many.network.user_mode,
        many.network.port_forwards@ == few.network.port_forwards@.push(f),
    ensures
        c.args@.len() > 4 && d.args@.len() > 4,
        c.args@[c.args@.len() - 4]@ == "-netdev"@,
        few.network.port_forwards@.len() == 0 ==> c.args@[c.args@.len() - 3]@ == "user,id=net0"@,
        exists|host: Seq<char>, guest: Seq<char>|
            {
                &&& #[trigger] number_in(host) == f.host_port
                &&& #[trigger] number_in(guest) == f.guest_port
                &&& f.protocol is Tcp ==> d.args@[d.args@.len() - 3]@ == c.args@[c.args@.len()
                    - 3]@ + (",hostfwd="@ + "tcp"@ + "::"@ + host + "-:"@ + guest)
                &&& f.protocol is Udp ==> d.args@[d.args@.len() - 3]@ == c.args@[c.args@.len()
                    - 3]@ + (",hostfwd="@ + "udp"@ + "::"@ + host + "-:"@ + guest)
            },
{
    let n = c.args@.len() as int;
    let m = d.args@.len() as int;
    lemma_runs_as_asked(c, few@);
    lemma_runs_as_asked(d, many@);
    lemma_args(c, few@, n - 4);
    lemma_args(c, few@, n - 3);
    lemma_args(d, many@, m - 3);
    assert(texts(c.args@).len() == n && texts(d.args@).len() == m);
    lemma_network_stands_last(few@);
    lemma_network_stands_last(many@);
    assert(many.network.port_forwards@.drop_last() =~= few.network.port_forwards@);
    decimal_is_read_back(f.host_port as nat);
    decimal_is_read_back(f.guest_port as nat);
    assert(number_in(decimal(f.host_port as nat)) == f.host_port);
    assert(number_in(decimal(f.guest_port as nat)) == f.guest_port);
}

/// The network stands last among the arguments.
proof fn lemma_network_stands_last(s: QemuSpecView)
    requires
        s.network.user_mode,
    ensures
        qemu_args(s).len() > 4,
        qemu_args(s)[qemu_args(s).len() - 4] == "-netdev"@,
        qemu_args(s)[qemu_args(s).len() - 3] == netdev_text(s.network.port_forwards@),
{
    let q = qemu_args(s);
    assert(q[q.len() - 4] == network_args(s)[0]);
    assert(q[q.len() - 3] == network_args(s)[1]);
}

/// The specification asks for the sandbox as it is configured, with those files, that image and that
/// line: the processors, the memory, the network and its forwarded ports, and for each mount a port
/// that is called after its tag, with a device and a socket after its index.
pub open spec fn asks_for<V>(
    spec: QemuSpec<'_>,
    config: SandboxConfig<V>,
    rt: Runtime,
    image: ImagePaths,
    line: Seq<char>,
) -> bool {
    &&& spec.vcpus == config.vcpus
    &&& spec.memory_mib == config.memory_mib
    &&& spec.kernel@ == image.kernel@
    &&& spec.initrd@ == image.initrd@
    &&& spec.rootfs is Some <==> image.rootfs is Some
    &&& spec.rootfs matches Some(p) ==> p@ == image.rootfs->0@
    &&& spec.cmdline@ == line
    &&& *spec.network == config.network
    &&& spec.qmp_socket@ == rt.qmp_sock@
    &&& spec.serial_log@ == rt.serial_log@
    &&& spec.serial_socket is Some <==> config.interactive_serial
    &&& spec.serial_socket matches Some(p) ==> p@ == rt.serial_sock@
    &&& spec.monitor_socket@ == rt.monitor_sock@
    &&& spec.runtime_dir@ == rt.root@
    &&& spec.serial_ports@.len() == config.mounts@.len()
    &&& forall|i: int|
        0 <= i < spec.serial_ports@.len() ==> is_port_for(
            #[trigger] spec.serial_ports@[i],
            config.mounts@[i],
            rt.root@,
            i,
        )
}

/// The port is that of the mount with that index.
pub open spec fn is_port_for<V>(p: SerialPort, m: MountSpec<V>, root: Seq<char>, i: int) -> bool {
    &&& p.chardev_id@ == "rpc"@ + decimal(i as nat)
    &&& p.socket_path@ == pushed(root, "rpc"@ + decimal(i as nat) + ".sock"@)
    &&& match m {
        MountSpec::HostDir { tag, .. } => p.port_name@ == "tokimo.rpc."@ + tag@,
        MountSpec::Vfs { tag, .. } => p.port_name@ == "tokimo.rpc."@ + tag@,
    }
}

/// What a start runs is what is built for the sandbox as it is configured, argument by argument.
pub proof fn a_start_runs_the_built_command<V>(
    sb: &mut QemuSandbox<V>,
    ev: StartEvent,
    c: QemuCommand,
    rt: Runtime,
    image: ImagePaths,
    spec: &QemuSpec<'_>,
    d: QemuCommand,
)
    requires
        old(sb)@.wf(),
        old(sb)@.awaits(ev),
        call_ensures(QemuSandbox::<V>::start, (sb, ev), StartAction::Spawn(c)),
        (ev is RuntimeMade && old(sb)@.config.image == Some(image)) || (
        old(sb)@.phase matches StartPhase::Bind(m, _) && m == image),
        final(sb)@.runtime == Some(rt),
        spec.qemu_bin@ == old(sb)@.qemu_bin,
        asks_for(*spec, old(sb)@.config, rt, image, c.args@[14]@),
        call_ensures(build_command, (spec,), d),
    ensures
        texts(c.args@) == texts(d.args@),
        c.program@ == d.program@,
        c.current_dir@ == d.current_dir@,
        c.stderr_log@ == d.stderr_log@,
{
    let v = final(sb)@;
    let m = machine_of(v, rt, image);
    lemma_runs_as_asked(c, m);
    lemma_runs_as_asked(d, spec@);
    let ours = spec@.serial_ports;
    assert(ours.len() == m.serial_ports.len());
    assert forall|i: int| 0 <= i < ours.len() implies ours[i] == m.serial_ports[i] by {
        assert(ours[i] == spec.serial_ports@[i]@);
        assert(is_port_for(spec.serial_ports@[i], v.config.mounts@[i], rt.root@, i));
    }
    assert(ours =~= m.serial_ports);
    assert(spec@ == m);
}

} // verus!
