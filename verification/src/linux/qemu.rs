//! The QEMU command.

use vstd::prelude::*;

use crate::config::{NetworkSpec, PortForward, Protocol};
use crate::path::{join_path, pushed};
use crate::text::{concat2, concat3, decimal, decimal_text, lemma_texts_push, texts};

verus! {

/// The QEMU binary that is run unless another one is named.
pub const QEMU_DEFAULT: &'static str = "/usr/bin/qemu-system-x86_64";

/// A virtio-serial port: a Unix socket on the host, and a device of that name in the guest.
#[derive(Debug, Clone, PartialEq, Eq)]
pub struct SerialPort {
    pub chardev_id: String,
    pub port_name: String,
    pub socket_path: String,
}

/// What the virtual machine is to be.
pub struct QemuSpec<'a> {
    pub qemu_bin: &'a str,
    pub vcpus: u32,
    pub memory_mib: u32,
    pub kernel: &'a str,
    pub initrd: &'a str,
    pub rootfs: Option<&'a str>,
    pub cmdline: &'a str,
    pub serial_ports: &'a Vec<SerialPort>,
    pub network: &'a NetworkSpec,
    pub qmp_socket: &'a str,
    pub serial_log: &'a str,
    /// Where it is given, the serial console is a socket at this path instead of a log file.
    pub serial_socket: Option<&'a str>,
    pub monitor_socket: &'a str,
    pub runtime_dir: &'a str,
}

/// What a port is called and where its socket is.
pub struct PortView {
    pub chardev_id: Seq<char>,
    pub port_name: Seq<char>,
    pub socket_path: Seq<char>,
}

impl View for SerialPort {
    type V = PortView;

    open spec fn view(&self) -> PortView {
        PortView {
            chardev_id: self.chardev_id@,
            port_name: self.port_name@,
            socket_path: self.socket_path@,
        }
    }
}

/// What the virtual machine is to be, with texts in place of strings.
pub struct QemuSpecView {
    pub qemu_bin: Seq<char>,
    pub vcpus: u32,
    pub memory_mib: u32,
    pub kernel: Seq<char>,
    pub initrd: Seq<char>,
    pub rootfs: Option<Seq<char>>,
    pub cmdline: Seq<char>,
    pub serial_ports: Seq<PortView>,
    pub network: NetworkSpec,
    pub qmp_socket: Seq<char>,
    pub serial_log: Seq<char>,
    pub serial_socket: Option<Seq<char>>,
    pub monitor_socket: Seq<char>,
    pub runtime_dir: Seq<char>,
}

/// The text of an optional string.
pub open spec fn opt_str_text(s: Option<&str>) -> Option<Seq<char>> {
    match s {
        Some(t) => Some(t@),
        None => None,
    }
}

impl<'a> View for QemuSpec<'a> {
    type V = QemuSpecView;

    open spec fn view(&self) -> QemuSpecView {
        QemuSpecView {
            qemu_bin: self.qemu_bin@,
            vcpus: self.vcpus,
            memory_mib: self.memory_mib,
            kernel: self.kernel@,
            initrd: self.initrd@,
            rootfs: opt_str_text(self.rootfs),
            cmdline: self.cmdline@,
            serial_ports: self.serial_ports@.map_values(|p: SerialPort| p@),
            network: *self.network,
            qmp_socket: self.qmp_socket@,
            serial_log: self.serial_log@,
            serial_socket: opt_str_text(self.serial_socket),
            monitor_socket: self.monitor_socket@,
            runtime_dir: self.runtime_dir@,
        }
    }
}

/// A command to run.
#[derive(Debug, Clone, PartialEq, Eq)]
pub struct QemuCommand {
    pub program: String,
    pub args: Vec<String>,
    /// The directory it runs in.
    pub current_dir: String,
    /// It is given no input.
    pub stdin_null: bool,
    /// Its output is dropped.
    pub stdout_null: bool,
    /// The file for its errors.
    pub stderr_log: String,
    /// The file is made where it is not there.
    pub stderr_create: bool,
    /// What is in the file stays, and errors go behind it.
    pub stderr_append: bool,
    /// It is killed when what holds it is dropped.
    pub kill_on_drop: bool,
}

/// Where the errors of a command go.
#[derive(Debug, Clone, Copy, PartialEq, Eq, Structural)]
pub enum StderrSink {
    /// To the file for its errors.
    Log,
    /// Nowhere.
    Null,
}

impl QemuCommand {
    /// Where the errors go, given whether the file for them could be opened. A file that cannot be
    /// opened does not keep the command from being run.
    pub fn stderr_sink(&self, opened: bool) -> (r: StderrSink)
        ensures
            r == if opened {
                StderrSink::Log
            } else {
                StderrSink::Null
            },
    {
        if opened {
            StderrSink::Log
        } else {
            StderrSink::Null
        }
    }
}

/// The command runs the virtual machine: in the directory of the sandbox, with nothing to read, its
/// output dropped, its errors appended to a log there that is made where it is missing, and no
/// longer than what holds it.
pub open spec fn runs_machine(c: QemuCommand, s: QemuSpecView) -> bool {
    &&& c.program@ == s.qemu_bin
    &&& texts(c.args@) == qemu_args(s)
    &&& c.current_dir@ == s.runtime_dir
    &&& c.stdin_null && c.stdout_null
    &&& c.stderr_log@ == pushed(s.runtime_dir, "qemu.stderr.log"@)
    &&& c.stderr_create && c.stderr_append
    &&& c.kill_on_drop
}

/// The machine, its processors and memory, and what it boots.
pub open spec fn machine_args(s: QemuSpecView) -> Seq<Seq<char>> {
    seq![
        "-enable-kvm"@,
        "-machine"@,
        "q35,accel=kvm"@,
        "-cpu"@,
        "host"@,
        "-smp"@,
        decimal(s.vcpus as nat),
        "-m"@,
        decimal(s.memory_mib as nat) + "M"@,
        "-kernel"@,
        s.kernel,
        "-initrd"@,
        s.initrd,
        "-append"@,
        s.cmdline,
        "-display"@,
        "none"@,
        "-nodefaults"@,
        "-no-reboot"@,
    ]
}

/// The serial console: a socket where one is asked for, and else a log file.
pub open spec fn console_args(s: QemuSpecView) -> Seq<Seq<char>> {
    seq![
        "-chardev"@,
        match s.serial_socket {
            Some(p) => "socket,id=sercon,path="@ + p + ",server=on,wait=off"@,
            None => "file,id=sercon,path="@ + s.serial_log + ",append=on"@,
        },
        "-serial"@,
        "chardev:sercon"@,
    ]
}

/// The two control sockets.
pub open spec fn control_args(s: QemuSpecView) -> Seq<Seq<char>> {
    seq![
        "-qmp"@,
        "unix:"@ + s.qmp_socket + ",server=on,wait=off"@,
        "-monitor"@,
        "unix:"@ + s.monitor_socket + ",server=on,wait=off"@,
    ]
}

/// The root file system, as a disk that is only read.
pub open spec fn rootfs_args(s: QemuSpecView) -> Seq<Seq<char>> {
    match s.rootfs {
        Some(p) => seq![
            "-drive"@,
            "file="@ + p + ",if=none,readonly=on,id=rootfs,format=raw"@,
            "-device"@,
            "virtio-blk-pci,drive=rootfs,bootindex=1"@,
        ],
        None => Seq::empty(),
    }
}

/// One port: its socket and its device.
pub open spec fn port_args(p: PortView) -> Seq<Seq<char>> {
    seq![
        "-chardev"@,
        "socket,id="@ + p.chardev_id + ",path="@ + p.socket_path + ",server=off,reconnect=1"@,
        "-device"@,
        "virtserialport,chardev="@ + p.chardev_id + ",bus=vser0.0,name="@ + p.port_name,
    ]
}

/// The ports, one behind the other.
pub open spec fn ports_args(ports: Seq<PortView>) -> Seq<Seq<char>>
    decreases ports.len(),
{
    if ports.len() == 0 {
        Seq::empty()
    } else {
        ports_args(ports.drop_last()) + port_args(ports.last())
    }
}

/// The serial bus and its ports; nothing where there is no port.
pub open spec fn serial_args(s: QemuSpecView) -> Seq<Seq<char>> {
    if s.serial_ports.len() == 0 {
        Seq::empty()
    } else {
        seq!["-device"@, "virtio-serial-pci,id=vser0"@] + ports_args(s.serial_ports)
    }
}

/// A forwarded port.
pub open spec fn forward_text(f: PortForward) -> Seq<char> {
    ",hostfwd="@ + (match f.protocol {
        Protocol::Tcp => "tcp"@,
        Protocol::Udp => "udp"@,
    }) + "::"@ + decimal(f.host_port as nat) + "-:"@ + decimal(f.guest_port as nat)
}

/// The network with the forwarded ports, in their order.
pub open spec fn netdev_text(forwards: Seq<PortForward>) -> Seq<char>
    decreases forwards.len(),
{
    if forwards.len() == 0 {
        "user,id=net0"@
    } else {
        netdev_text(forwards.drop_last()) + forward_text(forwards.last())
    }
}

/// The network; nothing where the guest is to be isolated.
pub open spec fn network_args(s: QemuSpecView) -> Seq<Seq<char>> {
    if s.network.user_mode {
        seq![
            "-netdev"@,
            netdev_text(s.network.port_forwards@),
            "-device"@,
            "virtio-net-pci,netdev=net0"@,
        ]
    } else {
        Seq::empty()
    }
}

/// All arguments.
pub open spec fn qemu_args(s: QemuSpecView) -> Seq<Seq<char>> {
    machine_args(s) + console_args(s) + control_args(s) + rootfs_args(s) + serial_args(s)
        + network_args(s)
}

/// Appends an argument.
fn arg(args: &mut Vec<String>, a: &str)
    ensures
        texts(final(args)@) == texts(old(args)@).push(a@),
{
    let s = a.to_owned();
    proof {
        lemma_texts_push(args@, s);
    }
    args.push(s);
}

/// Appends the arguments for the machine.
fn add_machine(args: &mut Vec<String>, spec: &QemuSpec)
    ensures
        texts(final(args)@) == texts(old(args)@) + machine_args(spec@),
{
    let ghost before = texts(args@);
    arg(args, "-enable-kvm");
    arg(args, "-machine");
    arg(args, "q35,accel=kvm");
    arg(args, "-cpu");
    arg(args, "host");
    arg(args, "-smp");
    arg(args, decimal_text(spec.vcpus as u64).as_str());
    arg(args, "-m");
    arg(args, concat2(decimal_text(spec.memory_mib as u64).as_str(), "M").as_str());
    arg(args, "-kernel");
    arg(args, spec.kernel);
    arg(args, "-initrd");
    arg(args, spec.initrd);
    arg(args, "-append");
    arg(args, spec.cmdline);
    arg(args, "-display");
    arg(args, "none");
    arg(args, "-nodefaults");
    arg(args, "-no-reboot");
    assert(texts(args@) =~= before + machine_args(spec@));
}

/// Appends the arguments for the serial console and the control sockets.
fn add_console_and_control(args: &mut Vec<String>, spec: &QemuSpec)
    ensures
        texts(final(args)@) == texts(old(args)@) + console_args(spec@) + control_args(spec@),
{
    let ghost before = texts(args@);
    arg(args, "-chardev");
    match spec.serial_socket {
        Some(p) => {
            arg(args, concat3("socket,id=sercon,path=", p, ",server=on,wait=off").as_str());
        },
        None => {
            arg(args, concat3("file,id=sercon,path=", spec.serial_log, ",append=on").as_str());
        },
    }
    arg(args, "-serial");
    arg(args, "chardev:sercon");
    arg(args, "-qmp");
    arg(args, concat3("unix:", spec.qmp_socket, ",server=on,wait=off").as_str());
    arg(args, "-monitor");
    arg(args, concat3("unix:", spec.monitor_socket, ",server=on,wait=off").as_str());
    assert(texts(args@) =~= before + console_args(spec@) + control_args(spec@));
}

/// Appends the arguments for the root file system.
fn add_rootfs(args: &mut Vec<String>, spec: &QemuSpec)
    ensures
        texts(final(args)@) == texts(old(args)@) + rootfs_args(spec@),
{
    let ghost before = texts(args@);
    if let Some(p) = spec.rootfs {
        arg(args, "-drive");
        arg(args, concat3("file=", p, ",if=none,readonly=on,id=rootfs,format=raw").as_str());
        arg(args, "-device");
        arg(args, "virtio-blk-pci,drive=rootfs,bootindex=1");
    }
    assert(texts(args@) =~= before + rootfs_args(spec@));
}

/// Appends the arguments for one port.
fn add_port(args: &mut Vec<String>, p: &SerialPort)
    ensures
        texts(final(args)@) == texts(old(args)@) + port_args(p@),
{
    let ghost before = texts(args@);
    let mut chardev = concat3("socket,id=", p.chardev_id.as_str(), ",path=");
    chardev.append(p.socket_path.as_str());
    chardev.append(",server=off,reconnect=1");
    let mut device = concat3("virtserialport,chardev=", p.chardev_id.as_str(), ",bus=vser0.0,name=");
    device.append(p.port_name.as_str());
    arg(args, "-chardev");
    arg(args, chardev.as_str());
    arg(args, "-device");
    arg(args, device.as_str());
    assert(texts(args@) =~= before + port_args(p@));
}

/// Appends the arguments for the serial bus and its ports.
fn add_serial(args: &mut Vec<String>, spec: &QemuSpec)
    ensures
        texts(final(args)@) == texts(old(args)@) + serial_args(spec@),
{
    let ghost before = texts(args@);
    let ports = spec.serial_ports;
    if ports.len() == 0 {
        assert(texts(args@) =~= before + serial_args(spec@));
        return;
    }
    arg(args, "-device");
    arg(args, "virtio-serial-pci,id=vser0");
    let ghost bus = seq!["-device"@, "virtio-serial-pci,id=vser0"@];
    let ghost all = spec@.serial_ports;
    assert(all.take(0) =~= Seq::<PortView>::empty());
    assert(texts(args@) =~= before + (bus + ports_args(all.take(0))));
    let mut i: usize = 0;
    while i < ports.len()
        invariant
            i <= ports@.len(),
            all == ports@.map_values(|p: SerialPort| p@),
            texts(args@) == before + (bus + ports_args(all.take(i as int))),
        decreases ports@.len() - i,
    {
        add_port(args, &ports[i]);
        proof {
            assert(all.take(i + 1).drop_last() =~= all.take(i as int));
            assert(texts(args@) =~= before + (bus + ports_args(all.take(i + 1))));
        }
        i += 1;
    }
    assert(all.take(ports@.len() as int) =~= all);
}

/// The network device with its forwarded ports.
fn netdev(forwards: &Vec<PortForward>) -> (r: String)
    ensures
        r@ == netdev_text(forwards@),
{
    let mut r = "user,id=net0".to_owned();
    let mut i: usize = 0;
    assert(forwards@.take(0) =~= Seq::<PortForward>::empty());
    while i < forwards.len()
        invariant
            i <= forwards@.len(),
            r@ == netdev_text(forwards@.take(i as int)),
        decreases forwards@.len() - i,
    {
        let f = forwards[i];
        let proto = match f.protocol {
            Protocol::Tcp => "tcp",
            Protocol::Udp => "udp",
        };
        let mut text = concat3(",hostfwd=", proto, "::");
        text.append(decimal_text(f.host_port as u64).as_str());
        text.append("-:");
        text.append(decimal_text(f.guest_port as u64).as_str());
        assert(text@ =~= forward_text(f));
        r.append(text.as_str());
        proof {
            assert(forwards@.take(i + 1).drop_last() =~= forwards@.take(i as int));
            assert(forwards@.take(i + 1).last() == f);
        }
        i += 1;
    }
    assert(forwards@.take(forwards@.len() as int) =~= forwards@);
    r
}

/// Appends the arguments for the network.
fn add_network(args: &mut Vec<String>, spec: &QemuSpec)
    ensures
        texts(final(args)@) == texts(old(args)@) + network_args(spec@),
{
    let ghost before = texts(args@);
    if spec.network.user_mode {
        arg(args, "-netdev");
        arg(args, netdev(&spec.network.port_forwards).as_str());
        arg(args, "-device");
        arg(args, "virtio-net-pci,netdev=net0");
    }
    assert(texts(args@) =~= before + network_args(spec@));
}

/// Builds the command that runs the virtual machine.
pub fn build_command(spec: &QemuSpec) -> (r: QemuCommand)
    ensures
        runs_machine(r, spec@),
{
    let mut args: Vec<String> = Vec::new();
    assert(texts(args@) =~= Seq::<Seq<char>>::empty());
    add_machine(&mut args, spec);
    assert(texts(args@) =~= machine_args(spec@));
    add_console_and_control(&mut args, spec);
    add_rootfs(&mut args, spec);
    add_serial(&mut args, spec);
    add_network(&mut args, spec);
    QemuCommand {
        program: spec.qemu_bin.to_owned(),
        args,
        current_dir: spec.runtime_dir.to_owned(),
        stdin_null: true,
        stdout_null: true,
        stderr_log: join_path(spec.runtime_dir, "qemu.stderr.log"),
        stderr_create: true,
        stderr_append: true,
        kill_on_drop: true,
    }
}

/// With the default network the guest reaches out, and no port of the host leads to it.
pub proof fn default_network_forwards_nothing(s: QemuSpecView)
    requires
        s.network.is_default(),
    ensures
        network_args(s) == seq![
            "-netdev"@,
            "user,id=net0"@,
            "-device"@,
            "virtio-net-pci,netdev=net0"@,
        ],
{
}

/// Without user-mode network the guest has no network device at all, whatever ports are to be
/// forwarded.
pub proof fn isolated_guest_has_no_network(s: QemuSpecView)
    requires
        !s.network.user_mode,
    ensures
        network_args(s).len() == 0,
        qemu_args(s) == machine_args(s) + console_args(s) + control_args(s) + rootfs_args(s)
            + serial_args(s),
{
    assert(network_args(s) =~= Seq::<Seq<char>>::empty());
    assert(qemu_args(s) =~= machine_args(s) + console_args(s) + control_args(s) + rootfs_args(s)
        + serial_args(s));
}

/// Every port has its own four arguments, in the order of the ports.
pub proof fn each_port_is_attached(ports: Seq<PortView>, i: int)
    requires
        0 <= i < ports.len(),
    ensures
        ports_args(ports).len() == 4 * ports.len(),
        ports_args(ports).subrange(4 * i, 4 * i + 4) == port_args(ports[i]),
    decreases ports.len(),
{
    let front = ports.drop_last();
    lemma_ports_args_len(ports);
    lemma_ports_args_len(front);
    if i == ports.len() - 1 {
        assert(ports_args(ports).subrange(4 * i, 4 * i + 4) =~= port_args(ports[i]));
    } else {
        each_port_is_attached(front, i);
        assert(ports_args(ports).subrange(4 * i, 4 * i + 4) =~= ports_args(front).subrange(
            4 * i,
            4 * i + 4,
        ));
    }
}

/// How many arguments the ports take.
proof fn lemma_ports_args_len(ports: Seq<PortView>)
    ensures
        ports_args(ports).len() == 4 * ports.len(),
    decreases ports.len(),
{
    if ports.len() > 0 {
        lemma_ports_args_len(ports.drop_last());
    }
}

} // verus!
