//! The life of a sandbox on macOS.

use vstd::prelude::*;

use crate::cmdline::{build_cmdline, command_line};
use crate::config::{
    mount_pairs, mount_pairs_of, port_name, port_name_of, ExecOutput, ExecSpec, ImageDir,
    ImagePaths, MountSpec, SandboxConfig, Served,
};
use crate::error::{Error, IoFailure};
use crate::ids::{is_random_uuid, MountId, SandboxId};
use crate::linux::runtime::root_of;
use crate::macos::runtime::{default_runtime_root, Runtime};
use crate::macos::vm::{devices_of, DeviceView, VmPlan};
use crate::path::{components, pushed, pushed_name_is_last_component};
use crate::state::{may_follow, SandboxState};
use crate::text::{concat2, opt_text, texts};

verus! {

/// How far the start of a sandbox has come: what it waits for.
#[derive(Debug, Clone, PartialEq, Eq)]
pub enum StartPhase {
    /// It is not being started.
    Idle,
    /// For the search for an image, with the files that are to be made.
    Image(Runtime),
    /// For these files to be made, with the image to boot.
    Runtime(Runtime, ImagePaths),
    /// For the port of the mount with that index, with the files and the image.
    Port(Runtime, ImagePaths, usize),
    /// For the machine, with the files.
    Launch(Runtime),
}

/// What happened during a start.
#[derive(Debug, PartialEq, Eq)]
pub enum StartEvent {
    /// The start was asked for, by the process with that number, on a host that keeps temporary
    /// files in that directory.
    Begin { temp_dir: String, pid: u32 },
    /// These directories may hold an image.
    ImageSearched(Vec<ImageDir>),
    /// The files were made, or could not be.
    RuntimeMade(Result<(), IoFailure>),
    /// The socket pair of a port was made and the mount is served, or could not be.
    PortOpened(Result<(), IoFailure>),
    /// The thread that owns the machine said how the start went, or ended without a word; or the
    /// thread could not be run.
    Launched(Result<Option<Result<(), Error>>, IoFailure>),
}

/// What a start needs next.
#[derive(Debug, PartialEq, Eq)]
pub enum StartAction {
    /// Look which directories hold an image.
    SearchImage,
    /// Make the directory and an empty serial log.
    MakeRuntime(Runtime),
    /// Make the socket pair of the port with that name and serve the mount with that index there.
    OpenPort(usize, String),
    /// Run a thread that makes and owns this machine.
    Launch(VmPlan),
    /// Nothing: this is how the start went.
    Finish(Result<(), Error>),
}

/// What a stop needs next.
#[derive(Debug, Clone, Copy, PartialEq, Eq, Structural)]
pub enum StopAction {
    /// Ask the thread that owns the machine to stop it, and then to end.
    AskThread,
    /// Nothing.
    Nothing,
}

/// A sandbox that is run by the Virtualization framework.
pub struct MacosSandbox<V> {
    id: SandboxId,
    config: SandboxConfig<V>,
    state: SandboxState,
    phase: StartPhase,
    inner: bool,
    serial_log: Option<String>,
}

/// What a sandbox holds.
#[verifier::ext_equal]
pub struct MacosView<V> {
    pub id: SandboxId,
    pub config: SandboxConfig<V>,
    pub state: SandboxState,
    /// How far the start has come.
    pub phase: StartPhase,
    /// There is a thread that owns a machine.
    pub inner: bool,
    pub serial_log: Option<Seq<char>>,
}

impl<V> View for MacosSandbox<V> {
    type V = MacosView<V>;

    closed spec fn view(&self) -> MacosView<V> {
        MacosView {
            id: self.id,
            config: self.config,
            state: self.state,
            phase: self.phase,
            inner: self.inner,
            serial_log: opt_text(self.serial_log),
        }
    }
}

/// The names of the console ports, one for each mount.
pub open spec fn port_names_of<V>(mounts: Seq<MountSpec<V>>) -> Seq<Seq<char>> {
    Seq::new(mounts.len(), |i: int| port_name_of(mounts[i].spec_tag()))
}

/// The plan is that of a sandbox with those files and that image.
pub open spec fn is_plan_of<V>(
    p: VmPlan,
    config: SandboxConfig<V>,
    rt: Runtime,
    image: ImagePaths,
) -> bool {
    &&& p.kernel@ == image.kernel@
    &&& p.initrd@ == image.initrd@
    &&& opt_text(p.rootfs) == opt_text(image.rootfs)
    &&& p.cmdline@ == command_line(
        "hvc0"@,
        texts(config.extra_cmdline@),
        mount_pairs_of(config.mounts@),
        image.rootfs is Some,
    )
    &&& p.vcpus == config.vcpus
    &&& p.memory_bytes == config.memory_mib * 1024 * 1024
    &&& p.serial_log@ == rt.serial_log@
    &&& p.use_nat == config.network.user_mode
    &&& texts(p.ports@) == port_names_of(config.mounts@)
    &&& p.thread_name@ == "tokimo-macos-vm-"@ + config.name@
}

/// The start has failed.
pub open spec fn failed_start<V>(v: MacosView<V>, w: MacosView<V>) -> bool {
    w == MacosView { state: SandboxState::Failed, phase: StartPhase::Idle, ..v }
}

/// The start goes on with the mount of that index, or, where there is none, with the machine.
pub open spec fn goes_on_at<V>(
    w: MacosView<V>,
    rt: Runtime,
    image: ImagePaths,
    i: int,
    a: StartAction,
) -> bool {
    if i < w.config.mounts@.len() {
        &&& w.phase == StartPhase::Port(rt, image, i as usize)
        &&& a matches StartAction::OpenPort(k, n) && k == i && n@ == port_name_of(
            w.config.mounts@[i].spec_tag(),
        )
    } else {
        &&& w.phase == StartPhase::Launch(rt)
        &&& a matches StartAction::Launch(p) && is_plan_of(p, w.config, rt, image)
    }
}

/// The path is that of a serial log in some directory.
pub open spec fn is_serial_log(p: Seq<char>) -> bool {
    exists|root: Seq<char>| p == #[trigger] pushed(root, "serial.log"@)
}

impl<V> MacosView<V> {
    /// How far the start has come agrees with what has been done. The files that a start waits for
    /// lie in their directory.
    pub open spec fn wf(self) -> bool {
        &&& !(self.phase is Idle) ==> self.state is Starting && !self.inner
        &&& self.state is Created ==> !self.inner && self.serial_log is None
        &&& self.phase matches StartPhase::Port(_, _, i) ==> i < self.config.mounts@.len()
        &&& self.state is Running ==> self.inner && self.serial_log is Some
        &&& self.serial_log matches Some(p) ==> is_serial_log(p)
        &&& match self.phase {
            StartPhase::Idle => true,
            StartPhase::Image(rt) => rt.is_in(rt.root@),
            StartPhase::Runtime(rt, _) => rt.is_in(rt.root@),
            StartPhase::Port(rt, _, _) => rt.is_in(rt.root@),
            StartPhase::Launch(rt) => rt.is_in(rt.root@),
        }
    }

    /// The event is what the start waits for.
    pub open spec fn awaits(self, ev: StartEvent) -> bool {
        match ev {
            StartEvent::Begin { .. } => true,
            StartEvent::ImageSearched(_) => self.phase is Image,
            StartEvent::RuntimeMade(_) => self.phase is Runtime,
            StartEvent::PortOpened(_) => self.phase is Port,
            StartEvent::Launched(_) => self.phase is Launch,
        }
    }
}

/// How a start goes on after an event: `v` before it, `w` after it, and what is needed next. A
/// start that fails leaves a sandbox that has failed.
pub open spec fn start_goes_on<V>(
    v: MacosView<V>,
    ev: StartEvent,
    w: MacosView<V>,
    a: StartAction,
) -> bool {
    match ev {
        // A sandbox is started once. It needs an image: the one that the configuration names, or
        // one that has to be searched for.
        StartEvent::Begin { temp_dir, pid } => if v.state is Created {
            let root = root_of(v.config, temp_dir@, pid);
            &&& w == (MacosView { state: SandboxState::Starting, phase: w.phase, ..v })
            &&& match v.config.image {
                Some(image) => a matches StartAction::MakeRuntime(rt) && rt.is_in(root) && w.phase
                    == StartPhase::Runtime(rt, image),
                None => a is SearchImage && (w.phase matches StartPhase::Image(rt) && rt.is_in(
                    root,
                )),
            }
        } else {
            w == v && a == StartAction::Finish(Err(Error::AlreadyStarted))
        },
        StartEvent::ImageSearched(dirs) => {
            let rt = v.phase->Image_0;
            ||| exists|image: ImagePaths|
                {
                    &&& #[trigger] ImagePaths::is_first_in(Some(image), dirs@)
                    &&& w == (MacosView { phase: StartPhase::Runtime(rt, image), ..v })
                    &&& a == StartAction::MakeRuntime(rt)
                }
            ||| {
                &&& ImagePaths::is_first_in(None, dirs@)
                &&& failed_start(v, w)
                &&& a matches StartAction::Finish(Err(Error::Config(m))) && m@
                    == "no image (set TOKIMO_IMG_DIR or build img/)"@
            }
        },
        StartEvent::RuntimeMade(Ok(_)) => {
            &&& w == (MacosView { phase: w.phase, ..v })
            &&& goes_on_at(w, v.phase->Runtime_0, v.phase->Runtime_1, 0, a)
        },
        // The ports are opened one after the other, in the order of the mounts.
        StartEvent::PortOpened(Ok(_)) => {
            &&& w == (MacosView { phase: w.phase, ..v })
            &&& goes_on_at(w, v.phase->Port_0, v.phase->Port_1, v.phase->Port_2 + 1, a)
        },
        StartEvent::RuntimeMade(Err(e)) | StartEvent::PortOpened(Err(e)) | StartEvent::Launched(
            Err(e),
        ) => failed_start(v, w) && a == StartAction::Finish(Err(Error::Io(e))),
        StartEvent::Launched(Ok(Some(Ok(_)))) => {
            &&& w == (MacosView {
                state: SandboxState::Running,
                phase: StartPhase::Idle,
                inner: true,
                serial_log: Some(v.phase->Launch_0.serial_log@),
                ..v
            })
            &&& a == StartAction::Finish(Ok(()))
        },
        StartEvent::Launched(Ok(Some(Err(e)))) => failed_start(v, w) && a == StartAction::Finish(
            Err(e),
        ),
        StartEvent::Launched(Ok(None)) => {
            &&& failed_start(v, w)
            &&& a matches StartAction::Finish(Err(Error::Hypervisor(m))) && m@
                == "VM thread exited before start result"@
        },
    }
}

impl StartPhase {
    /// The files that are to be made.
    fn into_image(self) -> (r: Runtime)
        requires
            self is Image,
        ensures
            r == self->Image_0,
    {
        match self {
            StartPhase::Image(rt) => rt,
            _ => vstd::pervasive::unreached(),
        }
    }

    /// The files that are waited for, and the image.
    fn into_runtime(self) -> (r: (Runtime, ImagePaths))
        requires
            self is Runtime,
        ensures
            r == (self->Runtime_0, self->Runtime_1),
    {
        match self {
            StartPhase::Runtime(rt, image) => (rt, image),
            _ => vstd::pervasive::unreached(),
        }
    }

    /// The files, the image, and the index of the mount whose port is waited for.
    fn into_port(self) -> (r: (Runtime, ImagePaths, usize))
        requires
            self is Port,
        ensures
            r == (self->Port_0, self->Port_1, self->Port_2),
    {
        match self {
            StartPhase::Port(rt, image, i) => (rt, image, i),
            _ => vstd::pervasive::unreached(),
        }
    }

    /// The files of the machine that is waited for.
    fn into_launch(self) -> (r: Runtime)
        requires
            self is Launch,
        ensures
            r == self->Launch_0,
    {
        match self {
            StartPhase::Launch(rt) => rt,
            _ => vstd::pervasive::unreached(),
        }
    }
}

impl<V> MacosSandbox<V> {
    /// A sandbox that has not been started.
    pub fn new(config: SandboxConfig<V>) -> (r: Self)
        ensures
            is_random_uuid(r@.id.0),
            r@ == (MacosView {
                id: r@.id,
                config,
                state: SandboxState::Created,
                phase: StartPhase::Idle,
                inner: false,
                serial_log: None,
            }),
            r@.wf(),
    {
        MacosSandbox {
            id: SandboxId::new(),
            config,
            state: SandboxState::Created,
            phase: StartPhase::Idle,
            inner: false,
            serial_log: None,
        }
    }

    /// The identifier.
    pub fn id(&self) -> (r: SandboxId)
        ensures
            r == self@.id,
    {
        self.id
    }

    /// The state.
    pub fn state(&self) -> (r: SandboxState)
        ensures
            r == self@.state,
    {
        self.state
    }

    /// The configuration.
    pub fn config(&self) -> (r: &SandboxConfig<V>)
        ensures
            *r == self@.config,
    {
        &self.config
    }

    /// The error for everything that is asked of this backend on another system.
    pub fn unsupported_host() -> (r: Error)
        ensures
            r matches Error::Unsupported(m) && m@ == "macOS backend only runs on macOS"@,
    {
        Error::Unsupported("macOS backend only runs on macOS")
    }

    /// What the mount with that index is served from.
    pub fn mount_served(&self, i: usize) -> (r: Served<'_, V>)
        requires
            i < self@.config.mounts@.len(),
        ensures
            match self@.config.mounts@[i as int] {
                MountSpec::HostDir { host_path, read_only, .. } => r matches Served::Host(fs)
                    && fs.spec_root() == host_path@ && fs.spec_read_only() == read_only,
                MountSpec::Vfs { vfs, .. } => r matches Served::Vfs(v) && *v == vfs,
            },
    {
        self.config.mounts[i].served()
    }

    /// Where the files of the sandbox are to be.
    fn runtime(&self, temp_dir: &str, pid: u32) -> (r: Runtime)
        ensures
            r.is_in(root_of(self@.config, temp_dir@, pid)),
    {
        let root = match &self.config.runtime_dir {
            Some(d) => d.clone(),
            None => default_runtime_root(temp_dir, self.config.name.as_str(), pid),
        };
        Runtime::new(root)
    }

    /// The names of the console ports.
    fn port_names(&self) -> (r: Vec<String>)
        ensures
            texts(r@) == port_names_of(self@.config.mounts@),
    {
        let mut r: Vec<String> = Vec::new();
        let mounts = &self.config.mounts;
        let mut i: usize = 0;
        while i < mounts.len()
            invariant
                i <= mounts@.len(),
                r@.len() == i,
                forall|j: int|
                    0 <= j < i ==> (#[trigger] r@[j])@ == port_name_of(mounts@[j].spec_tag()),
            decreases mounts@.len() - i,
        {
            r.push(port_name(mounts[i].tag()));
            i += 1;
        }
        assert(texts(r@) =~= port_names_of(self@.config.mounts@));
        r
    }

    /// The virtual machine that the sandbox is run as.
    fn plan(&self, rt: &Runtime, image: &ImagePaths) -> (r: VmPlan)
        ensures
            is_plan_of(r, self@.config, *rt, *image),
    {
        let cmdline = build_cmdline(
            "hvc0",
            &self.config.extra_cmdline,
            &mount_pairs(&self.config.mounts),
            image.rootfs.is_some(),
        );
        let i = image.copied();
        VmPlan {
            kernel: i.kernel,
            initrd: i.initrd,
            rootfs: i.rootfs,
            cmdline,
            vcpus: self.config.vcpus,
            memory_bytes: (self.config.memory_mib as u64) * 1024 * 1024,
            serial_log: rt.serial_log.clone(),
            use_nat: self.config.network.user_mode,
            ports: self.port_names(),
            thread_name: concat2("tokimo-macos-vm-", self.config.name.as_str()),
        }
    }

    /// Goes on with the mount of that index, or, where there is none, with the machine.
    fn go_on_at(&mut self, rt: Runtime, image: ImagePaths, i: usize) -> (a: StartAction)
        requires
            i <= old(self)@.config.mounts@.len(),
        ensures
            final(self)@ == (MacosView { phase: final(self)@.phase, ..old(self)@ }),
            goes_on_at(final(self)@, rt, image, i as int, a),
    {
        if i < self.config.mounts.len() {
            let name = port_name(self.config.mounts[i].tag());
            self.phase = StartPhase::Port(rt, image, i);
            StartAction::OpenPort(i, name)
        } else {
            let plan = self.plan(&rt, &image);
            self.phase = StartPhase::Launch(rt);
            StartAction::Launch(plan)
        }
    }

    /// Ends a start that failed.
    fn fail_start(&mut self, e: Error) -> (a: StartAction)
        ensures
            failed_start(old(self)@, final(self)@),
            a == StartAction::Finish(Err(e)),
    {
        self.phase = StartPhase::Idle;
        self.state = SandboxState::Failed;
        StartAction::Finish(Err(e))
    }

    /// Begins a start.
    fn begin(&mut self, temp_dir: String, pid: u32) -> (a: StartAction)
        ensures
            start_goes_on(old(self)@, StartEvent::Begin { temp_dir, pid }, final(self)@, a),
    {
        if self.state != SandboxState::Created {
            return StartAction::Finish(Err(Error::AlreadyStarted));
        }
        self.state = SandboxState::Starting;
        let rt = self.runtime(temp_dir.as_str(), pid);
        let image = match &self.config.image {
            Some(i) => Some(i.copied()),
            None => None,
        };
        match image {
            Some(i) => {
                self.phase = StartPhase::Runtime(rt.copied(), i);
                StartAction::MakeRuntime(rt)
            },
            None => {
                self.phase = StartPhase::Image(rt);
                StartAction::SearchImage
            },
        }
    }

    /// The thread said how the start of the machine went.
    fn launched(&mut self, log: String, report: Option<Result<(), Error>>) -> (a: StartAction)
        ensures
            match report {
                Some(Ok(_)) => {
                    &&& final(self)@ == (MacosView {
                        state: SandboxState::Running,
                        phase: StartPhase::Idle,
                        inner: true,
                        serial_log: Some(log@),
                        ..old(self)@
                    })
                    &&& a == StartAction::Finish(Ok(()))
                },
                Some(Err(e)) => failed_start(old(self)@, final(self)@) && a == StartAction::Finish(
                    Err(e),
                ),
                None => failed_start(old(self)@, final(self)@) && (a matches StartAction::Finish(
                    Err(Error::Hypervisor(m)),
                ) && m@ == "VM thread exited before start result"@),
            },
    {
        match report {
            Some(Ok(_)) => {
                self.inner = true;
                self.serial_log = Some(log);
                self.state = SandboxState::Running;
                self.phase = StartPhase::Idle;
                StartAction::Finish(Ok(()))
            },
            Some(Err(e)) => self.fail_start(e),
            None => self.fail_start(
                Error::Hypervisor("VM thread exited before start result".to_owned()),
            ),
        }
    }

    /// Starts the sandbox, step by step: what happened decides what is needed next.
    pub fn start(&mut self, ev: StartEvent) -> (a: StartAction)
        requires
            old(self)@.wf(),
            old(self)@.awaits(ev),
        ensures
            final(self)@.wf(),
            start_goes_on(old(self)@, ev, final(self)@, a),
            may_follow(old(self)@.state, final(self)@.state),
    {
        let mut phase = StartPhase::Idle;
        match ev {
            StartEvent::Begin { temp_dir, pid } => self.begin(temp_dir, pid),
            StartEvent::ImageSearched(dirs) => match ImagePaths::from_env_or_default(&dirs) {
                Some(image) => {
                    std::mem::swap(&mut phase, &mut self.phase);
                    let rt = phase.into_image();
                    self.phase = StartPhase::Runtime(rt.copied(), image);
                    StartAction::MakeRuntime(rt)
                },
                None => self.fail_start(
                    Error::Config("no image (set TOKIMO_IMG_DIR or build img/)".to_owned()),
                ),
            },
            StartEvent::RuntimeMade(made) => match made {
                Ok(_) => {
                    std::mem::swap(&mut phase, &mut self.phase);
                    let (rt, image) = phase.into_runtime();
                    self.go_on_at(rt, image, 0)
                },
                Err(e) => self.fail_start(Error::Io(e)),
            },
            StartEvent::PortOpened(opened) => match opened {
                Ok(_) => {
                    std::mem::swap(&mut phase, &mut self.phase);
                    let (rt, image, i) = phase.into_port();
                    let n: usize = self.config.mounts.len();
                    assert(i < n);
                    self.go_on_at(rt, image, i + 1)
                },
                Err(e) => self.fail_start(Error::Io(e)),
            },
            StartEvent::Launched(launched) => match launched {
                Ok(report) => {
                    std::mem::swap(&mut phase, &mut self.phase);
                    let rt = phase.into_launch();
                    self.launched(rt.serial_log, report)
                },
                Err(e) => self.fail_start(Error::Io(e)),
            },
        }
    }

    /// Begins to stop the sandbox. Nothing is to be done where it neither runs nor is being
    /// started; one without a machine is stopped at once.
    pub fn stop(&mut self) -> (a: StopAction)
        requires
            old(self)@.wf(),
        ensures
            final(self)@.wf(),
            if old(self)@.state is Running || old(self)@.state is Starting {
                &&& final(self)@ == (MacosView {
                    state: if old(self)@.inner {
                        SandboxState::Stopping
                    } else {
                        SandboxState::Stopped
                    },
                    phase: StartPhase::Idle,
                    inner: false,
                    ..old(self)@
                })
                &&& a == if old(self)@.inner {
                    StopAction::AskThread
                } else {
                    StopAction::Nothing
                }
            } else {
                final(self)@ == old(self)@ && a == StopAction::Nothing
            },
            may_follow(old(self)@.state, final(self)@.state),
    {
        if self.state != SandboxState::Running && self.state != SandboxState::Starting {
            return StopAction::Nothing;
        }
        self.phase = StartPhase::Idle;
        if self.inner {
            self.inner = false;
            self.state = SandboxState::Stopping;
            StopAction::AskThread
        } else {
            self.state = SandboxState::Stopped;
            StopAction::Nothing
        }
    }

    /// The thread that owned the machine answered, or ended without an answer; then there is no
    /// machine any more. A sandbox whose machine could not be stopped does not get stopped.
    pub fn thread_stopped(&mut self, reply: Option<Result<(), Error>>) -> (r: Result<(), Error>)
        requires
            old(self)@.wf(),
            old(self)@.state is Stopping,
        ensures
            final(self)@.wf(),
            match reply {
                Some(Err(e)) => r == Err::<(), Error>(e) && final(self)@ == old(self)@,
                _ => r is Ok && final(self)@ == (MacosView {
                    state: SandboxState::Stopped,
                    ..old(self)@
                }),
            },
            may_follow(old(self)@.state, final(self)@.state),
    {
        match reply {
            Some(Err(e)) => Err(e),
            _ => {
                self.state = SandboxState::Stopped;
                Ok(())
            },
        }
    }

    /// Whether there is a machine to wait for.
    pub fn wait(&self) -> (r: bool)
        ensures
            r == self@.inner,
    {
        self.inner
    }

    /// The thread that owns the machine said that it has stopped, or ended without a word, or said
    /// that it cannot be waited for.
    pub fn waited(&mut self, reply: Option<Result<(), Error>>) -> (r: Result<(), Error>)
        requires
            old(self)@.wf(),
            old(self)@.inner,
        ensures
            final(self)@.wf(),
            match reply {
                Some(Err(e)) => r == Err::<(), Error>(e) && final(self)@ == old(self)@,
                _ => r is Ok && final(self)@ == (MacosView {
                    state: SandboxState::Stopped,
                    ..old(self)@
                }),
            },
            may_follow(old(self)@.state, final(self)@.state),
    {
        match reply {
            Some(Err(e)) => Err(e),
            _ => {
                self.state = SandboxState::Stopped;
                Ok(())
            },
        }
    }

    /// Mounts cannot be added to a sandbox that exists.
    pub fn add_mount(&mut self, _spec: MountSpec<V>) -> (r: Result<MountId, Error>)
        ensures
            r matches Err(Error::Unsupported(m)) && m@
                == "hot mount add not yet implemented on macOS — declare mounts in SandboxConfig"@,
            final(self)@ == old(self)@,
    {
        Err(
            Error::Unsupported(
                "hot mount add not yet implemented on macOS — declare mounts in SandboxConfig",
            ),
        )
    }

    /// Mounts cannot be taken from a sandbox that exists.
    pub fn remove_mount(&mut self, _id: MountId) -> (r: Result<(), Error>)
        ensures
            r matches Err(Error::Unsupported(m)) && m@
                == "hot mount remove not yet implemented on macOS"@,
            final(self)@ == old(self)@,
    {
        Err(Error::Unsupported("hot mount remove not yet implemented on macOS"))
    }

    /// Commands cannot be run in the guest.
    pub fn exec(&self, _spec: ExecSpec) -> (r: Result<ExecOutput, Error>)
        ensures
            r matches Err(Error::Unsupported(m)) && m@
                == "guest exec requires a guest agent (not yet wired up in v0.1)"@,
    {
        Err(Error::Unsupported("guest exec requires a guest agent (not yet wired up in v0.1)"))
    }

    /// The log of the serial console.
    pub fn serial_log_path(&self) -> (r: Option<String>)
        ensures
            opt_text(r) == self@.serial_log,
    {
        match &self.serial_log {
            Some(p) => Some(p.clone()),
            None => None,
        }
    }
}

/// How many reports a start still waits for at most.
pub open spec fn steps_left<V>(v: MacosView<V>) -> int {
    let n = v.config.mounts@.len() as int;
    match v.phase {
        StartPhase::Idle => 0,
        StartPhase::Image(_) => n + 3,
        StartPhase::Runtime(_, _) => n + 2,
        StartPhase::Port(_, _, i) => n - i + 1,
        StartPhase::Launch(_) => 1,
    }
}

/// A start comes to an end: each report brings it closer, and it is over when nothing is waited for
/// any more.
pub proof fn start_comes_to_an_end<V>(
    v: MacosView<V>,
    ev: StartEvent,
    w: MacosView<V>,
    a: StartAction,
)
    requires
        v.wf(),
        v.awaits(ev),
        !(ev is Begin),
        start_goes_on(v, ev, w, a),
    ensures
        0 <= steps_left(w) < steps_left(v),
        steps_left(w) == 0 <==> a is Finish,
{
}

/// A sandbox that runs has a log of its console, and in every state the log is a file of that name.
pub proof fn running_sandbox_has_a_log<V>(v: MacosView<V>)
    requires
        v.wf(),
    ensures
        v.state is Running ==> v.serial_log is Some,
        v.serial_log matches Some(p) ==> components(p).len() > 0 && components(p).last()
            == "serial.log"@,
{
    if v.serial_log is Some {
        let p = v.serial_log->0;
        let root = choose|root: Seq<char>| p == #[trigger] pushed(root, "serial.log"@);
        reveal_strlit("serial.log");
        assert(seq!['.'][0] == '.');
        pushed_name_is_last_component(root, "serial.log"@);
    }
}

/// The machine has a console port for every mount, called after its tag, and no console device
/// where there is no mount.
pub proof fn machine_has_a_port_for_every_mount<V>(
    p: VmPlan,
    config: SandboxConfig<V>,
    rt: Runtime,
    image: ImagePaths,
)
    requires
        is_plan_of(p, config, rt, image),
    ensures
        p.ports@.len() == config.mounts@.len(),
        forall|i: int|
            0 <= i < p.ports@.len() ==> (#[trigger] p.ports@[i])@ == port_name_of(
                config.mounts@[i].spec_tag(),
            ),
        config.mounts@.len() > 0 ==> devices_of(p).contains(
            DeviceView::ConsolePorts(port_names_of(config.mounts@)),
        ),
{
    assert(texts(p.ports@).len() == p.ports@.len());
    assert forall|i: int| 0 <= i < p.ports@.len() implies (#[trigger] p.ports@[i])@
        == port_name_of(config.mounts@[i].spec_tag()) by {
        assert(texts(p.ports@)[i] == p.ports@[i]@);
    }
    if config.mounts@.len() > 0 {
        assert(devices_of(p)[1] == DeviceView::ConsolePorts(texts(p.ports@)));
    }
}

} // verus!
