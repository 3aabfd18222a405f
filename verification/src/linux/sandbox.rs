//! The life of a sandbox on Linux.
//!
//! Starting and stopping alternate between decisions, which are made here, and work that only the
//! caller can do: making files, binding sockets, running QEMU. Each function takes what that work
//! came to and says how the sandbox goes on.

use std::collections::HashMap;
use vstd::prelude::*;

use crate::cmdline::{
    all_params, base_params, build_cmdline, command_line, is_script, kept, line_ends_with_script,
    script_prefix,
};
use crate::config::{
    mount_pairs, mount_pairs_of, port_name, port_name_of, ExecOutput, ExecSpec, ImageDir,
    ImagePaths, MountSpec, SandboxConfig, Served,
};
use crate::error::{Error, IoFailure};
use crate::ids::{is_random_uuid, MountId, SandboxId};
use crate::linux::qemu::{
    build_command, console_args, each_port_is_attached, port_args, ports_args, runs_machine,
    PortView, QemuCommand, QemuSpec, QemuSpecView, SerialPort, QEMU_DEFAULT,
};
use crate::linux::runtime::{
    default_runtime_root, root_of, runtime_files_are_distinct, socket_name, socket_path, Runtime,
};
use crate::path::{components, pushed};
use crate::state::{may_follow, SandboxState};
use crate::text::{
    concat2, concat3, decimal, decimal_text, joined, lemma_texts_push, opt_text, texts,
};

verus! {

broadcast use vstd::std_specs::hash::group_hash_axioms;

/// How long QEMU is given to end by itself, in seconds: once to answer, once to exit.
pub const STOP_TIMEOUT_SECS: u64 = 3;

/// A mount that is being served.
#[derive(Debug, Clone, PartialEq, Eq)]
pub struct VfsServer {
    pub tag: String,
    pub guest_path: String,
    pub socket_path: String,
}

/// A mount that is being served, with texts in place of strings.
pub struct ServerView {
    pub tag: Seq<char>,
    pub guest_path: Seq<char>,
    pub socket_path: Seq<char>,
}

impl View for VfsServer {
    type V = ServerView;

    open spec fn view(&self) -> ServerView {
        ServerView {
            tag: self.tag@,
            guest_path: self.guest_path@,
            socket_path: self.socket_path@,
        }
    }
}

/// How far the start of a sandbox has come: what it waits for.
#[derive(Debug, Clone, PartialEq, Eq)]
pub enum StartPhase {
    /// It is not being started.
    Idle,
    /// For these files to be made.
    Runtime(Runtime),
    /// For the search for an image.
    Image,
    /// For the socket of the mount with that index, with the image to boot.
    Bind(ImagePaths, usize),
    /// For QEMU to be run.
    Spawn,
    /// For the control connection.
    Connect,
}

/// What happened during a start.
#[derive(Debug, PartialEq, Eq)]
pub enum StartEvent {
    /// The start was asked for, by the process with that number, on a host that keeps temporary
    /// files in that directory.
    Begin { temp_dir: String, pid: u32 },
    /// The files were made, or could not be.
    RuntimeMade(Result<(), IoFailure>),
    /// These directories may hold an image.
    ImageSearched(Vec<ImageDir>),
    /// The socket was bound, or could not be.
    Bound(Result<(), String>),
    /// QEMU was run, or could not be.
    Spawned(Result<(), String>),
    /// The control connection stands, or could not be made.
    Connected(Result<(), String>),
}

/// What a start needs next.
#[derive(Debug, PartialEq, Eq)]
pub enum StartAction {
    /// Make the directory and an empty serial log, and remove sockets that are left over.
    MakeRuntime(Runtime),
    /// Look which directories hold an image.
    SearchImage,
    /// Bind the socket of the mount with that index and serve the mount there.
    Bind(usize, VfsServer),
    /// Run QEMU.
    Spawn(QemuCommand),
    /// Connect to the control socket.
    Connect(String),
    /// Nothing: this is how the start went.
    Finish(Result<(), Error>),
}

/// What a stop needs next.
#[derive(Debug, Clone, PartialEq, Eq)]
pub enum StopAction {
    /// End QEMU: over the control connection where there is one, and then, where it was run, by
    /// force once it has had its time.
    EndQemu { ask: bool, reap: bool },
    /// Stop serving these mounts and remove their sockets.
    Cleanup(Vec<VfsServer>),
    /// Nothing.
    Nothing,
}

/// A sandbox that is run by QEMU.
pub struct QemuSandbox<V> {
    id: SandboxId,
    config: SandboxConfig<V>,
    state: SandboxState,
    phase: StartPhase,
    runtime: Option<Runtime>,
    qemu_child: bool,
    qmp: bool,
    vfs_servers: Vec<VfsServer>,
    mount_ids: HashMap<u128, String>,
    qemu_bin: String,
}

/// What a sandbox holds.
#[verifier::ext_equal]
pub struct QemuView<V> {
    pub id: SandboxId,
    pub config: SandboxConfig<V>,
    pub state: SandboxState,
    /// How far the start has come.
    pub phase: StartPhase,
    /// Where its files are, once they have been made.
    pub runtime: Option<Runtime>,
    /// QEMU has been run and not been ended by `stop`.
    pub child: bool,
    /// There is a control connection to QEMU.
    pub qmp: bool,
    /// The mounts that are being served.
    pub servers: Seq<ServerView>,
    /// The identifiers of the mounts, once it runs, with their tags.
    pub mount_ids: Map<u128, Seq<char>>,
    pub qemu_bin: Seq<char>,
}

impl<V> View for QemuSandbox<V> {
    type V = QemuView<V>;

    closed spec fn view(&self) -> QemuView<V> {
        QemuView {
            id: self.id,
            config: self.config,
            state: self.state,
            phase: self.phase,
            runtime: self.runtime,
            child: self.qemu_child,
            qmp: self.qmp,
            servers: self.vfs_servers@.map_values(|s: VfsServer| s@),
            mount_ids: self.mount_ids@.map_values(|s: String| s@),
            qemu_bin: self.qemu_bin@,
        }
    }
}

/// The mount with that index as it is served.
pub open spec fn server_of<V>(root: Seq<char>, mounts: Seq<MountSpec<V>>, i: int) -> ServerView {
    ServerView {
        tag: mounts[i].spec_tag(),
        guest_path: mounts[i].spec_guest_path(),
        socket_path: pushed(root, socket_name(i)),
    }
}

/// The port of the mount with that index.
pub open spec fn port_of<V>(root: Seq<char>, mounts: Seq<MountSpec<V>>, i: int) -> PortView {
    PortView {
        chardev_id: "rpc"@ + decimal(i as nat),
        port_name: port_name_of(mounts[i].spec_tag()),
        socket_path: pushed(root, socket_name(i)),
    }
}

/// One port for each mount, in their order.
pub open spec fn ports_of<V>(root: Seq<char>, mounts: Seq<MountSpec<V>>) -> Seq<PortView> {
    Seq::new(mounts.len(), |i: int| port_of(root, mounts, i))
}

/// What a sandbox adds to the kernel command line: what its configuration says, and, for an
/// interactive console, that the guest is to start a shell once it has run its script.
pub open spec fn extra_params<V>(config: SandboxConfig<V>) -> Seq<Seq<char>> {
    let extra = texts(config.extra_cmdline@);
    if config.interactive_serial {
        extra.push("tokimo.shell=1"@)
    } else {
        extra
    }
}

/// The kernel command line.
pub open spec fn kernel_line<V>(config: SandboxConfig<V>, image: ImagePaths) -> Seq<char> {
    command_line(
        "ttyS0"@,
        extra_params(config),
        mount_pairs_of(config.mounts@),
        image.rootfs is Some,
    )
}

/// The virtual machine that a sandbox with those files and that image is run as.
pub open spec fn machine_of<V>(v: QemuView<V>, rt: Runtime, image: ImagePaths) -> QemuSpecView {
    QemuSpecView {
        qemu_bin: v.qemu_bin,
        vcpus: v.config.vcpus,
        memory_mib: v.config.memory_mib,
        kernel: image.kernel@,
        initrd: image.initrd@,
        rootfs: opt_text(image.rootfs),
        cmdline: kernel_line(v.config, image),
        serial_ports: ports_of(rt.root@, v.config.mounts@),
        network: v.config.network,
        qmp_socket: rt.qmp_sock@,
        serial_log: rt.serial_log@,
        serial_socket: if v.config.interactive_serial {
            Some(rt.serial_sock@)
        } else {
            None
        },
        monitor_socket: rt.monitor_sock@,
        runtime_dir: rt.root@,
    }
}

/// The log of the serial console, once there are files.
pub open spec fn console_log<V>(v: QemuView<V>) -> Option<Seq<char>> {
    match v.runtime {
        Some(rt) => Some(rt.serial_log@),
        None => None,
    }
}

/// The socket of the serial console, where it is interactive, once there are files.
pub open spec fn console_socket<V>(v: QemuView<V>) -> Option<Seq<char>> {
    match v.runtime {
        Some(rt) => if v.config.interactive_serial {
            Some(rt.serial_sock@)
        } else {
            None
        },
        None => None,
    }
}

/// The tags of mounts under their identifiers; of two mounts with the same identifier the later
/// one counts.
pub open spec fn id_map<V>(ids: Seq<MountId>, mounts: Seq<MountSpec<V>>) -> Map<u128, Seq<char>>
    decreases ids.len(),
{
    if ids.len() == 0 {
        Map::empty()
    } else {
        id_map(ids.drop_last(), mounts).insert(
            ids.last().0,
            mounts[ids.len() - 1].spec_tag(),
        )
    }
}

/// The first so many mounts as they are served.
pub open spec fn first_servers<V>(root: Seq<char>, mounts: Seq<MountSpec<V>>, n: int) -> Seq<
    ServerView,
> {
    Seq::new(n as nat, |i: int| server_of(root, mounts, i))
}

/// The command runs the sandbox with that image.
pub open spec fn is_command<V>(c: QemuCommand, v: QemuView<V>, image: ImagePaths) -> bool {
    &&& v.runtime is Some
    &&& runs_machine(c, machine_of(v, v.runtime->0, image))
}

/// The start has failed.
pub open spec fn failed_start<V>(v: QemuView<V>, w: QemuView<V>) -> bool {
    w == QemuView { phase: StartPhase::Idle, ..v }
}

/// The start goes on with the mount of that index, or, where there is none, with QEMU.
pub open spec fn goes_on_at<V>(w: QemuView<V>, image: ImagePaths, i: int, a: StartAction) -> bool {
    if i < w.config.mounts@.len() {
        &&& w.phase == StartPhase::Bind(image, i as usize)
        &&& a matches StartAction::Bind(k, s) && k == i && s@ == server_of(
            w.runtime->0.root@,
            w.config.mounts@,
            i,
        )
    } else {
        &&& w.phase == StartPhase::Spawn
        &&& a matches StartAction::Spawn(c) && is_command(c, w, image)
    }
}

/// The identifiers of the mounts are random.
pub open spec fn has_random_ids<V>(v: QemuView<V>) -> bool {
    exists|ids: Seq<MountId>|
        {
            &&& ids.len() == v.config.mounts@.len()
            &&& forall|i: int| 0 <= i < ids.len() ==> is_random_uuid((#[trigger] ids[i]).0)
            &&& v.mount_ids == #[trigger] id_map(ids, v.config.mounts@)
        }
}

impl<V> QemuView<V> {
    /// How far the start has come agrees with what has been done. A sandbox that runs has its
    /// files, its QEMU with a control connection, and serves every mount. Its files lie in its
    /// directory.
    pub open spec fn wf(self) -> bool {
        let mounts = self.config.mounts@;
        &&& !(self.phase is Idle) ==> self.state is Starting
        &&& self.state is Created ==> self.runtime is None && !self.child && !self.qmp
            && self.servers.len() == 0
        &&& (self.phase is Runtime || self.phase is Image) ==> self.servers.len() == 0
        &&& (self.phase is Image || self.phase is Bind || self.phase is Spawn
            || self.phase is Connect || self.state is Running) ==> self.runtime is Some
        &&& self.phase matches StartPhase::Bind(_, i) ==> i < mounts.len() && self.servers
            == first_servers(self.runtime->0.root@, mounts, i as int)
        &&& (self.phase is Spawn || self.phase is Connect || self.state is Running)
            ==> self.servers == first_servers(self.runtime->0.root@, mounts, mounts.len() as int)
        &&& (self.phase is Connect || self.state is Running) ==> self.child
        &&& self.state is Running ==> self.qmp
        &&& self.runtime matches Some(rt) ==> rt.is_in(rt.root@)
        &&& self.phase matches StartPhase::Runtime(rt) ==> rt.is_in(rt.root@)
    }

    /// The event is what the start waits for.
    pub open spec fn awaits(self, ev: StartEvent) -> bool {
        match ev {
            StartEvent::Begin { .. } => true,
            StartEvent::RuntimeMade(_) => self.phase is Runtime,
            StartEvent::ImageSearched(_) => self.phase is Image,
            StartEvent::Bound(_) => self.phase is Bind,
            StartEvent::Spawned(_) => self.phase is Spawn,
            StartEvent::Connected(_) => self.phase is Connect,
        }
    }
}

/// How a start goes on after an event: `v` before it, `w` after it, and what is needed next.
pub open spec fn start_goes_on<V>(
    v: QemuView<V>,
    ev: StartEvent,
    w: QemuView<V>,
    a: StartAction,
) -> bool {
    match ev {
        // A sandbox is started once.
        StartEvent::Begin { temp_dir, pid } => if v.state is Created {
            &&& a matches StartAction::MakeRuntime(rt) && rt.is_in(
                root_of(v.config, temp_dir@, pid),
            ) && w == (QemuView {
                state: SandboxState::Starting,
                phase: StartPhase::Runtime(rt),
                ..v
            })
        } else {
            w == v && a == StartAction::Finish(Err(Error::AlreadyStarted))
        },
        // With the files made an image is needed: the one that the configuration names, or one
        // that has to be searched for.
        StartEvent::RuntimeMade(Ok(_)) => {
            &&& w == (QemuView {
                phase: w.phase,
                runtime: Some(v.phase->Runtime_0),
                ..v
            })
            &&& match v.config.image {
                Some(image) => goes_on_at(w, image, 0, a),
                None => w.phase is Image && a is SearchImage,
            }
        },
        StartEvent::RuntimeMade(Err(e)) => failed_start(v, w) && a == StartAction::Finish(
            Err(Error::Io(e)),
        ),
        StartEvent::ImageSearched(dirs) => {
            ||| exists|image: ImagePaths|
                {
                    &&& #[trigger] ImagePaths::is_first_in(Some(image), dirs@)
                    &&& w == (QemuView { phase: w.phase, ..v })
                    &&& goes_on_at(w, image, 0, a)
                }
            ||| {
                &&& ImagePaths::is_first_in(None, dirs@)
                &&& failed_start(v, w)
                &&& a matches StartAction::Finish(Err(Error::Config(m))) && m@
                    == "no image configured; run scripts/image/build.sh or set TOKIMO_IMG_DIR"@
            }
        },
        // The mounts are served one after the other, in their order.
        StartEvent::Bound(Ok(_)) => {
            &&& w == (QemuView {
                phase: w.phase,
                servers: v.servers.push(
                    server_of(v.runtime->0.root@, v.config.mounts@, v.phase->Bind_1 as int),
                ),
                ..v
            })
            &&& goes_on_at(w, v.phase->Bind_0, v.phase->Bind_1 + 1, a)
        },
        StartEvent::Bound(Err(e)) => {
            &&& failed_start(v, w)
            &&& a matches StartAction::Finish(Err(Error::Hypervisor(m))) && m@ == "rpc bind "@
                + server_of(
                v.runtime->0.root@,
                v.config.mounts@,
                v.phase->Bind_1 as int,
            ).socket_path + ": "@ + e@
        },
        StartEvent::Spawned(Ok(_)) => {
            &&& w == (QemuView { phase: StartPhase::Connect, child: true, ..v })
            &&& a matches StartAction::Connect(p) && p@ == v.runtime->0.qmp_sock@
        },
        StartEvent::Spawned(Err(e)) => {
            &&& failed_start(v, w)
            &&& a matches StartAction::Finish(Err(Error::Hypervisor(m))) && m@ == "qemu spawn: "@
                + e@
        },
        StartEvent::Connected(Ok(_)) => {
            &&& w == (QemuView {
                state: SandboxState::Running,
                phase: StartPhase::Idle,
                qmp: true,
                mount_ids: w.mount_ids,
                ..v
            })
            &&& has_random_ids(w)
            &&& a == StartAction::Finish(Ok(()))
        },
        StartEvent::Connected(Err(e)) => {
            &&& failed_start(v, w)
            &&& a matches StartAction::Finish(Err(Error::Hypervisor(m))) && m@ == "qmp connect: "@
                + e@
        },
    }
}

impl StartPhase {
    /// The files that are waited for.
    fn into_runtime(self) -> (r: Runtime)
        requires
            self is Runtime,
        ensures
            r == self->Runtime_0,
    {
        match self {
            StartPhase::Runtime(rt) => rt,
            _ => vstd::pervasive::unreached(),
        }
    }

    /// The image to boot and the index of the mount whose socket is waited for.
    fn into_bind(self) -> (r: (ImagePaths, usize))
        requires
            self is Bind,
        ensures
            r == (self->Bind_0, self->Bind_1),
    {
        match self {
            StartPhase::Bind(image, i) => (image, i),
            _ => vstd::pervasive::unreached(),
        }
    }
}

impl<V> QemuSandbox<V> {
    /// A sandbox that has not been started.
    pub fn new(config: SandboxConfig<V>) -> (r: Self)
        ensures
            is_random_uuid(r@.id.0),
            r@ == (QemuView {
                id: r@.id,
                config,
                state: SandboxState::Created,
                phase: StartPhase::Idle,
                runtime: None,
                child: false,
                qmp: false,
                servers: Seq::empty(),
                mount_ids: Map::empty(),
                qemu_bin: QEMU_DEFAULT@,
            }),
            r@.wf(),
    {
        let r = QemuSandbox {
            id: SandboxId::new(),
            config,
            state: SandboxState::Created,
            phase: StartPhase::Idle,
            runtime: None,
            qemu_child: false,
            qmp: false,
            vfs_servers: Vec::new(),
            mount_ids: HashMap::new(),
            qemu_bin: QEMU_DEFAULT.to_owned(),
        };
        assert(r@.servers =~= Seq::<ServerView>::empty());
        assert(r@.mount_ids =~= Map::<u128, Seq<char>>::empty());
        r
    }

    /// Names another QEMU binary.
    pub fn qemu_bin(self, p: String) -> (r: Self)
        ensures
            r@ == (QemuView { qemu_bin: p@, ..self@ }),
    {
        let r = QemuSandbox { qemu_bin: p, ..self };
        assert(r@ =~= (QemuView { qemu_bin: p@, ..self@ }));
        r
    }

    /// The identifier.
    pub fn id(&self) -> (r: SandboxId)
        ensures
            r == self@.id,
    {
        self.id
    }

    /// The state.
    pub fn state(&self) -> (r: SandboxState)
        ensures
            r == self@.state,
    {
        self.state
    }

    /// The configuration.
    pub fn config(&self) -> (r: &SandboxConfig<V>)
        ensures
            *r == self@.config,
    {
        &self.config
    }

    /// What the mount with that index is served from.
    pub fn mount_served(&self, i: usize) -> (r: Served<'_, V>)
        requires
            i < self@.config.mounts@.len(),
        ensures
            match self@.config.mounts@[i as int] {
                MountSpec::HostDir { host_path, read_only, .. } => r matches Served::Host(fs)
                    && fs.spec_root() == host_path@ && fs.spec_read_only() == read_only,
                MountSpec::Vfs { vfs, .. } => r matches Served::Vfs(v) && *v == vfs,
            },
    {
        self.config.mounts[i].served()
    }

    /// The directory for the files of the sandbox.
    fn runtime_root(&self, temp_dir: &str, pid: u32) -> (r: String)
        ensures
            r@ == root_of(self@.config, temp_dir@, pid),
    {
        match &self.config.runtime_dir {
            Some(d) => d.clone(),
            None => default_runtime_root(temp_dir, self.config.name.as_str(), pid),
        }
    }

    /// How the mount with that index is to be served.
    fn mount_server(&self, i: usize) -> (r: VfsServer)
        requires
            self@.runtime is Some,
            i < self@.config.mounts@.len(),
        ensures
            r@ == server_of(self@.runtime->0.root@, self@.config.mounts@, i as int),
    {
        let root = self.runtime.as_ref().unwrap().root.as_str();
        let m = &self.config.mounts[i];
        VfsServer {
            tag: m.tag().to_owned(),
            guest_path: m.guest_path().to_owned(),
            socket_path: socket_path(root, i),
        }
    }

    /// The port of each mount.
    fn serial_ports(&self, root: &str) -> (r: Vec<SerialPort>)
        ensures
            r@.map_values(|p: SerialPort| p@) == ports_of(root@, self@.config.mounts@),
    {
        let mut r: Vec<SerialPort> = Vec::new();
        let mounts = &self.config.mounts;
        let mut i: usize = 0;
        while i < mounts.len()
            invariant
                i <= mounts@.len(),
                r@.len() == i,
                forall|j: int| 0 <= j < i ==> (#[trigger] r@[j])@ == port_of(root@, mounts@, j),
            decreases mounts@.len() - i,
        {
            r.push(
                SerialPort {
                    chardev_id: concat2("rpc", decimal_text(i as u64).as_str()),
                    port_name: port_name(mounts[i].tag()),
                    socket_path: socket_path(root, i),
                },
            );
            i += 1;
        }
        assert(r@.map_values(|p: SerialPort| p@) =~= ports_of(root@, self@.config.mounts@));
        r
    }

    /// What the sandbox adds to the kernel command line.
    fn extra_cmdline(&self) -> (r: Vec<String>)
        ensures
            texts(r@) == extra_params(self@.config),
    {
        let given = &self.config.extra_cmdline;
        let mut r: Vec<String> = Vec::new();
        let mut i: usize = 0;
        assert(texts(r@) =~= texts(given@).take(0));
        while i < given.len()
            invariant
                i <= given@.len(),
                texts(r@) == texts(given@).take(i as int),
            decreases given@.len() - i,
        {
            let p = given[i].clone();
            proof {
                lemma_texts_push(r@, p);
                assert(texts(given@).take(i + 1) =~= texts(given@).take(i as int).push(p@));
            }
            r.push(p);
            i += 1;
        }
        assert(texts(given@).take(given@.len() as int) =~= texts(given@));
        if self.config.interactive_serial {
            let shell = "tokimo.shell=1".to_owned();
            proof {
                lemma_texts_push(r@, shell);
            }
            r.push(shell);
        }
        r
    }

    /// The kernel command line.
    fn kernel_cmdline(&self, image: &ImagePaths) -> (r: String)
        ensures
            r@ == kernel_line(self@.config, *image),
    {
        build_cmdline(
            "ttyS0",
            &self.extra_cmdline(),
            &mount_pairs(&self.config.mounts),
            image.rootfs.is_some(),
        )
    }

    /// The command that runs the sandbox.
    fn command(&self, image: &ImagePaths) -> (r: QemuCommand)
        requires
            self@.runtime is Some,
        ensures
            is_command(r, self@, *image),
    {
        let rt = self.runtime.as_ref().unwrap();
        let ports = self.serial_ports(rt.root.as_str());
        let cmdline = self.kernel_cmdline(image);
        let spec = QemuSpec {
            qemu_bin: self.qemu_bin.as_str(),
            vcpus: self.config.vcpus,
            memory_mib: self.config.memory_mib,
            kernel: image.kernel.as_str(),
            initrd: image.initrd.as_str(),
            rootfs: match &image.rootfs {
                Some(p) => Some(p.as_str()),
                None => None,
            },
            cmdline: cmdline.as_str(),
            serial_ports: &ports,
            network: &self.config.network,
            qmp_socket: rt.qmp_sock.as_str(),
            serial_log: rt.serial_log.as_str(),
            serial_socket: if self.config.interactive_serial {
                Some(rt.serial_sock.as_str())
            } else {
                None
            },
            monitor_socket: rt.monitor_sock.as_str(),
            runtime_dir: rt.root.as_str(),
        };
        assert(spec@ == machine_of(self@, *rt, *image));
        build_command(&spec)
    }

    /// Draws an identifier for each mount.
    fn draw_ids(&self) -> (r: Vec<MountId>)
        ensures
            r@.len() == self@.config.mounts@.len(),
            forall|i: int| 0 <= i < r@.len() ==> is_random_uuid((#[trigger] r@[i]).0),
    {
        let mut r: Vec<MountId> = Vec::new();
        while r.len() < self.config.mounts.len()
            invariant
                r@.len() <= self@.config.mounts@.len(),
                forall|i: int| 0 <= i < r@.len() ==> is_random_uuid((#[trigger] r@[i]).0),
            decreases self@.config.mounts@.len() - r@.len(),
        {
            r.push(MountId::new());
        }
        r
    }

    /// The mounts have these identifiers.
    fn assign_ids(&mut self, ids: &Vec<MountId>)
        requires
            ids@.len() == old(self)@.config.mounts@.len(),
        ensures
            final(self)@ == (QemuView {
                mount_ids: id_map(ids@, old(self)@.config.mounts@),
                ..old(self)@
            }),
    {
        let mut m: HashMap<u128, String> = HashMap::new();
        let mut i: usize = 0;
        let mounts = &self.config.mounts;
        assert(ids@.take(0) =~= Seq::<MountId>::empty());
        assert(m@.map_values(|s: String| s@) =~= id_map(ids@.take(0), mounts@));
        while i < ids.len()
            invariant
                i <= ids@.len() == mounts@.len(),
                m@.map_values(|s: String| s@) == id_map(ids@.take(i as int), mounts@),
            decreases ids@.len() - i,
        {
            let ghost before = m@;
            let tag = mounts[i].tag().to_owned();
            m.insert(ids[i].0, tag);
            proof {
                assert(ids@.take(i + 1).drop_last() =~= ids@.take(i as int));
                assert(m@.map_values(|s: String| s@) =~= before.map_values(
                    |s: String| s@,
                ).insert(ids@[i as int].0, tag@));
            }
            i += 1;
        }
        assert(ids@.take(ids@.len() as int) =~= ids@);
        self.mount_ids = m;
        assert(self@.mount_ids =~= id_map(ids@, old(self)@.config.mounts@));
    }

    /// Goes on with the mount of that index, or, where there is none, with QEMU.
    fn go_on_at(&mut self, image: ImagePaths, i: usize) -> (a: StartAction)
        requires
            old(self)@.runtime is Some,
            i <= old(self)@.config.mounts@.len(),
        ensures
            final(self)@ == (QemuView { phase: final(self)@.phase, ..old(self)@ }),
            goes_on_at(final(self)@, image, i as int, a),
    {
        if i < self.config.mounts.len() {
            self.phase = StartPhase::Bind(image, i);
            StartAction::Bind(i, self.mount_server(i))
        } else {
            self.phase = StartPhase::Spawn;
            StartAction::Spawn(self.command(&image))
        }
    }

    /// Ends a start that failed.
    fn fail_start(&mut self, e: Error) -> (a: StartAction)
        ensures
            failed_start(old(self)@, final(self)@),
            a == StartAction::Finish(Err(e)),
    {
        self.phase = StartPhase::Idle;
        StartAction::Finish(Err(e))
    }

    /// Begins a start.
    fn begin(&mut self, temp_dir: &str, pid: u32) -> (a: StartAction)
        ensures
            if old(self)@.state is Created {
                a matches StartAction::MakeRuntime(rt) && rt.is_in(
                    root_of(old(self)@.config, temp_dir@, pid),
                ) && final(self)@ == (QemuView {
                    state: SandboxState::Starting,
                    phase: StartPhase::Runtime(rt),
                    ..old(self)@
                })
            } else {
                final(self)@ == old(self)@ && a == StartAction::Finish(Err(Error::AlreadyStarted))
            },
    {
        if self.state != SandboxState::Created {
            return StartAction::Finish(Err(Error::AlreadyStarted));
        }
        self.state = SandboxState::Starting;
        let rt = Runtime::new(self.runtime_root(temp_dir, pid));
        self.phase = StartPhase::Runtime(rt.copied());
        StartAction::MakeRuntime(rt)
    }

    /// The files were made.
    fn runtime_made(&mut self, rt: Runtime) -> (a: StartAction)
        ensures
            final(self)@ == (QemuView {
                phase: final(self)@.phase,
                runtime: Some(rt),
                ..old(self)@
            }),
            match old(self)@.config.image {
                Some(image) => goes_on_at(final(self)@, image, 0, a),
                None => final(self)@.phase is Image && a is SearchImage,
            },
    {
        self.runtime = Some(rt);
        let image = match &self.config.image {
            Some(i) => Some(i.copied()),
            None => None,
        };
        match image {
            Some(i) => self.go_on_at(i, 0),
            None => {
                self.phase = StartPhase::Image;
                StartAction::SearchImage
            },
        }
    }

    /// Starts the sandbox, step by step: what happened decides what is needed next.
    pub fn start(&mut self, ev: StartEvent) -> (a: StartAction)
        requires
            old(self)@.wf(),
            old(self)@.awaits(ev),
        ensures
            final(self)@.wf(),
            start_goes_on(old(self)@, ev, final(self)@, a),
            may_follow(old(self)@.state, final(self)@.state),
    {
        let mut phase = StartPhase::Idle;
        match ev {
            StartEvent::Begin { temp_dir, pid } => self.begin(temp_dir.as_str(), pid),
            StartEvent::RuntimeMade(made) => match made {
                Ok(_) => {
                    std::mem::swap(&mut phase, &mut self.phase);
                    let rt = phase.into_runtime();
                    assert(self@.servers =~= first_servers(rt.root@, self@.config.mounts@, 0));
                    self.runtime_made(rt)
                },
                Err(e) => self.fail_start(Error::Io(e)),
            },
            StartEvent::ImageSearched(dirs) => match ImagePaths::from_env_or_default(&dirs) {
                Some(image) => {
                    assert(self@.servers =~= first_servers(
                        self@.runtime->0.root@,
                        self@.config.mounts@,
                        0,
                    ));
                    self.go_on_at(image, 0)
                },
                None => self.fail_start(
                    Error::Config(
                        "no image configured; run scripts/image/build.sh or set TOKIMO_IMG_DIR".to_owned(),
                    ),
                ),
            },
            StartEvent::Bound(bound) => {
                std::mem::swap(&mut phase, &mut self.phase);
                let (image, i) = phase.into_bind();
                let s = self.mount_server(i);
                match bound {
                    Ok(_) => {
                        self.vfs_servers.push(s);
                        proof {
                            assert(self@.servers =~= old(self)@.servers.push(s@));
                            assert(self@.servers =~= first_servers(
                                self@.runtime->0.root@,
                                self@.config.mounts@,
                                i + 1,
                            ));
                        }
                        let n: usize = self.config.mounts.len();
                        assert(i < n);
                        self.go_on_at(image, i + 1)
                    },
                    Err(e) => {
                        let head = concat3("rpc bind ", s.socket_path.as_str(), ": ");
                        self.fail_start(Error::Hypervisor(concat2(head.as_str(), e.as_str())))
                    },
                }
            },
            StartEvent::Spawned(spawned) => match spawned {
                Ok(_) => {
                    self.qemu_child = true;
                    self.phase = StartPhase::Connect;
                    let rt = self.runtime.as_ref().unwrap();
                    StartAction::Connect(rt.qmp_sock.clone())
                },
                Err(e) => self.fail_start(
                    Error::Hypervisor(concat2("qemu spawn: ", e.as_str())),
                ),
            },
            StartEvent::Connected(connected) => match connected {
                Ok(_) => {
                    let ids = self.draw_ids();
                    self.assign_ids(&ids);
                    self.qmp = true;
                    self.phase = StartPhase::Idle;
                    self.state = SandboxState::Running;
                    assert(self@.mount_ids == id_map(ids@, self@.config.mounts@));
                    StartAction::Finish(Ok(()))
                },
                Err(e) => self.fail_start(
                    Error::Hypervisor(concat2("qmp connect: ", e.as_str())),
                ),
            },
        }
    }

    /// Begins to stop the sandbox. Nothing is to be done where it neither runs nor is being
    /// started.
    pub fn stop(&mut self) -> (a: StopAction)
        requires
            old(self)@.wf(),
        ensures
            final(self)@.wf(),
            if old(self)@.state is Running || old(self)@.state is Starting {
                &&& final(self)@ == (QemuView {
                    state: SandboxState::Stopping,
                    phase: StartPhase::Idle,
                    child: false,
                    qmp: false,
                    ..old(self)@
                })
                &&& a == (StopAction::EndQemu { ask: old(self)@.qmp, reap: old(self)@.child })
            } else {
                final(self)@ == old(self)@ && a == StopAction::Nothing
            },
            may_follow(old(self)@.state, final(self)@.state),
    {
        if self.state != SandboxState::Running && self.state != SandboxState::Starting {
            return StopAction::Nothing;
        }
        let a = StopAction::EndQemu { ask: self.qmp, reap: self.qemu_child };
        self.state = SandboxState::Stopping;
        self.phase = StartPhase::Idle;
        self.qmp = false;
        self.qemu_child = false;
        a
    }

    /// QEMU has ended: the sandbox is stopped, and its mounts are no longer served.
    pub fn qemu_ended(&mut self) -> (a: StopAction)
        requires
            old(self)@.wf(),
            old(self)@.state is Stopping,
        ensures
            final(self)@.wf(),
            a matches StopAction::Cleanup(r) && r@.map_values(|s: VfsServer| s@) == old(
                self,
            )@.servers,
            final(self)@ == (QemuView {
                state: SandboxState::Stopped,
                servers: Seq::empty(),
                ..old(self)@
            }),
            may_follow(old(self)@.state, final(self)@.state),
    {
        let mut servers: Vec<VfsServer> = Vec::new();
        std::mem::swap(&mut servers, &mut self.vfs_servers);
        self.state = SandboxState::Stopped;
        assert(self@.servers =~= Seq::<ServerView>::empty());
        StopAction::Cleanup(servers)
    }

    /// The sockets of the mounts that are being served, for a sandbox that is dropped.
    pub fn sockets(&self) -> (r: Vec<String>)
        ensures
            texts(r@) == Seq::new(
                self@.servers.len(),
                |i: int| self@.servers[i].socket_path,
            ),
    {
        let mut r: Vec<String> = Vec::new();
        let mut i: usize = 0;
        while i < self.vfs_servers.len()
            invariant
                i <= self.vfs_servers@.len(),
                r@.len() == i,
                forall|j: int|
                    0 <= j < i ==> (#[trigger] r@[j])@ == self.vfs_servers@[j].socket_path@,
            decreases self.vfs_servers@.len() - i,
        {
            r.push(self.vfs_servers[i].socket_path.clone());
            i += 1;
        }
        assert(texts(r@) =~= Seq::new(
            self@.servers.len(),
            |i: int| self@.servers[i].socket_path,
        ));
        r
    }

    /// Whether there is a QEMU to wait for.
    pub fn wait(&self) -> (r: bool)
        ensures
            r == self@.child,
    {
        self.qemu_child
    }

    /// QEMU has ended by itself. Where there was none, nothing changes.
    pub fn waited(&mut self)
        requires
            old(self)@.wf(),
        ensures
            final(self)@.wf(),
            final(self)@ == if old(self)@.child {
                QemuView { state: SandboxState::Stopped, phase: StartPhase::Idle, ..old(self)@ }
            } else {
                old(self)@
            },
            may_follow(old(self)@.state, final(self)@.state),
    {
        if self.qemu_child {
            self.phase = StartPhase::Idle;
            self.state = SandboxState::Stopped;
        }
    }

    /// Mounts cannot be added to a sandbox that exists.
    pub fn add_mount(&mut self, _spec: MountSpec<V>) -> (r: Result<MountId, Error>)
        ensures
            r matches Err(Error::Unsupported(m)) && m@ == "hot add_mount not implemented"@,
            final(self)@ == old(self)@,
    {
        Err(Error::Unsupported("hot add_mount not implemented"))
    }

    /// Mounts cannot be taken from a sandbox that exists.
    pub fn remove_mount(&mut self, _id: MountId) -> (r: Result<(), Error>)
        ensures
            r matches Err(Error::Unsupported(m)) && m@ == "hot remove_mount not implemented"@,
            final(self)@ == old(self)@,
    {
        Err(Error::Unsupported("hot remove_mount not implemented"))
    }

    /// Commands cannot be run in the guest.
    pub fn exec(&self, _spec: ExecSpec) -> (r: Result<ExecOutput, Error>)
        ensures
            r matches Err(Error::Unsupported(m)) && m@ == "guest exec not wired in this build"@,
    {
        Err(Error::Unsupported("guest exec not wired in this build"))
    }

    /// The log of the serial console.
    pub fn serial_log_path(&self) -> (r: Option<String>)
        ensures
            opt_text(r) == console_log(self@),
    {
        match &self.runtime {
            Some(rt) => Some(rt.serial_log.clone()),
            None => None,
        }
    }

    /// The socket of the serial console, where it is interactive.
    pub fn serial_socket_path(&self) -> (r: Option<String>)
        ensures
            opt_text(r) == console_socket(self@),
    {
        if !self.config.interactive_serial {
            return None;
        }
        match &self.runtime {
            Some(rt) => Some(rt.serial_sock.clone()),
            None => None,
        }
    }
}

/// Every mount is attached to the guest by a port of its own, which leads to the socket that the
/// mount is served at and is called after its tag.
pub proof fn each_mount_has_its_port<V>(root: Seq<char>, mounts: Seq<MountSpec<V>>, i: int)
    requires
        0 <= i < mounts.len(),
    ensures
        ports_of(root, mounts).len() == mounts.len(),
        ports_of(root, mounts)[i].socket_path == server_of(root, mounts, i).socket_path,
        ports_of(root, mounts)[i].port_name == port_name_of(server_of(root, mounts, i).tag),
        ports_args(ports_of(root, mounts)).subrange(4 * i, 4 * i + 4) == port_args(
            port_of(root, mounts, i),
        ),
        mount_pairs_of(mounts)[i] == (
            server_of(root, mounts, i).tag,
            server_of(root, mounts, i).guest_path,
        ),
{
    each_port_is_attached(ports_of(root, mounts), i);
}

/// How many reports a start still waits for at most.
pub open spec fn steps_left<V>(v: QemuView<V>) -> int {
    let n = v.config.mounts@.len() as int;
    match v.phase {
        StartPhase::Idle => 0,
        StartPhase::Runtime(_) => n + 4,
        StartPhase::Image => n + 3,
        StartPhase::Bind(_, i) => n - i + 2,
        StartPhase::Spawn => 2,
        StartPhase::Connect => 1,
    }
}

/// A start comes to an end: each report brings it closer, and it is over when nothing is waited for
/// any more.
pub proof fn start_comes_to_an_end<V>(
    v: QemuView<V>,
    ev: StartEvent,
    w: QemuView<V>,
    a: StartAction,
)
    requires
        v.wf(),
        v.awaits(ev),
        !(ev is Begin),
        start_goes_on(v, ev, w, a),
    ensures
        0 <= steps_left(w) < steps_left(v),
        steps_left(w) == 0 <==> a is Finish,
{
}

/// A sandbox that runs serves every mount, each at the socket that its port in the guest leads to.
pub proof fn running_sandbox_serves_every_mount<V>(v: QemuView<V>, image: ImagePaths, i: int)
    requires
        v.wf(),
        v.state is Running,
        0 <= i < v.config.mounts@.len(),
    ensures
        v.runtime is Some,
        v.servers.len() == v.config.mounts@.len(),
        v.servers[i].tag == v.config.mounts@[i].spec_tag(),
        v.servers[i].guest_path == v.config.mounts@[i].spec_guest_path(),
        machine_of(v, v.runtime->0, image).serial_ports[i].socket_path
            == v.servers[i].socket_path,
{
}

/// The console is where the sandbox says that it is: at the socket where it is interactive, and
/// else in the log.
pub proof fn console_is_where_the_sandbox_says<V>(v: QemuView<V>, rt: Runtime, image: ImagePaths)
    requires
        v.runtime == Some(rt),
    ensures
        console_args(machine_of(v, rt, image))[1] == match console_socket(v) {
            Some(p) => "socket,id=sercon,path="@ + p + ",server=on,wait=off"@,
            None => "file,id=sercon,path="@ + console_log(v)->0 + ",append=on"@,
        },
        console_socket(v) is Some <==> v.config.interactive_serial,
{
}

/// In every state the log of the console, and its socket where it is interactive, lie in the
/// directory of the sandbox, side by side.
pub proof fn console_files_stand_together<V>(v: QemuView<V>)
    requires
        v.wf(),
    ensures
        console_log(v) is Some <==> v.runtime is Some,
        console_socket(v) is Some <==> v.runtime is Some && v.config.interactive_serial,
        console_log(v) matches Some(p) ==> components(p) == components(v.runtime->0.root@).push(
            "serial.log"@,
        ),
        console_socket(v) matches Some(p) ==> components(p) == components(
            v.runtime->0.root@,
        ).push("serial.sock"@) && p != console_log(v)->0,
{
    if v.runtime is Some {
        runtime_files_are_distinct(v.runtime->0, v.runtime->0.root@);
    }
}

/// The parameter that asks for a shell holds no script.
proof fn lemma_shell_is_no_script<V>(config: SandboxConfig<V>)
    ensures
        kept(extra_params(config), true) == kept(texts(config.extra_cmdline@), true),
        kept(extra_params(config), false) == kept(texts(config.extra_cmdline@), false) + (
        if config.interactive_serial {
            seq!["tokimo.shell=1"@]
        } else {
            Seq::empty()
        }),
{
    let extra = texts(config.extra_cmdline@);
    let shell = "tokimo.shell=1"@;
    reveal_strlit("tokimo.shell=1");
    reveal_strlit("tokimo.script=");
    if is_script(shell) {
        assert(shell[8] == script_prefix()[8]);
    }
    if config.interactive_serial {
        assert(extra.push(shell).drop_last() =~= extra);
        assert(extra.push(shell).last() == shell);
        assert(kept(extra, false).push(shell) =~= kept(extra, false) + seq![shell]);
    } else {
        assert(kept(extra, false) =~= kept(extra, false) + Seq::<Seq<char>>::empty());
    }
}

/// The kernel command line ends with the script of the sandbox, where it has one. What asks for a
/// shell on an interactive console stands before it.
pub proof fn kernel_line_ends_with_script<V>(config: SandboxConfig<V>, image: ImagePaths)
    requires
        kept(texts(config.extra_cmdline@), true).len() > 0,
    ensures
        kernel_line(config, image) == joined(
            base_params("ttyS0"@, mount_pairs_of(config.mounts@), image.rootfs is Some) + (kept(
                texts(config.extra_cmdline@),
                false,
            ) + (if config.interactive_serial {
                seq!["tokimo.shell=1"@]
            } else {
                Seq::empty()
            })) + kept(texts(config.extra_cmdline@), true).drop_last(),
            " "@,
        ) + " "@ + kept(texts(config.extra_cmdline@), true).last(),
{
    lemma_shell_is_no_script(config);
    line_ends_with_script(
        "ttyS0"@,
        extra_params(config),
        mount_pairs_of(config.mounts@),
        image.rootfs is Some,
    );
}

/// A guest with an interactive console, and no other, is told by the sandbox to start a shell: one
/// more parameter than the configuration names.
pub proof fn interactive_guest_is_told_of_the_shell<V>(config: SandboxConfig<V>, image: ImagePaths)
    ensures
        kernel_line(config, image) == joined(
            all_params(
                "ttyS0"@,
                extra_params(config),
                mount_pairs_of(config.mounts@),
                image.rootfs is Some,
            ),
            " "@,
        ),
        config.interactive_serial ==> all_params(
            "ttyS0"@,
            extra_params(config),
            mount_pairs_of(config.mounts@),
            image.rootfs is Some,
        ).contains("tokimo.shell=1"@),
        !config.interactive_serial ==> extra_params(config) == texts(config.extra_cmdline@),
{
    lemma_shell_is_no_script(config);
    if config.interactive_serial {
        let base = base_params("ttyS0"@, mount_pairs_of(config.mounts@), image.rootfs is Some);
        let rest = kept(extra_params(config), false);
        let p = all_params(
            "ttyS0"@,
            extra_params(config),
            mount_pairs_of(config.mounts@),
            image.rootfs is Some,
        );
        assert(rest.last() == "tokimo.shell=1"@);
        assert(p[base.len() + rest.len() - 1] == "tokimo.shell=1"@);
    }
}

/// Where the identifiers differ, each leads to the tag of its mount.
pub proof fn ids_lead_to_tags<V>(ids: Seq<MountId>, mounts: Seq<MountSpec<V>>, i: int)
    requires
        ids.no_duplicates(),
        0 <= i < ids.len(),
    ensures
        id_map(ids, mounts).contains_key(ids[i].0),
        id_map(ids, mounts)[ids[i].0] == mounts[i].spec_tag(),
    decreases ids.len(),
{
    if i < ids.len() - 1 {
        ids_lead_to_tags(ids.drop_last(), mounts, i);
        assert(ids.last() != ids[i]);
    }
}

} // verus!
