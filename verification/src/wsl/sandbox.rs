//! The life of a sandbox on Windows.

use vstd::prelude::*;

use crate::config::{ExecOutput, ExecSpec, MountSpec, SandboxConfig, Served};
use crate::error::Error;
use crate::ids::{
    hex_digit, hyphenated_text, is_random_uuid, lemma_hex_digit, simple_text, text_identifies,
    ExecId, MountId, SandboxId,
};
use crate::linux::runtime::runtime_dir_name;
use crate::state::{may_follow, SandboxState};
use crate::text::{
    chars_of, concat2, concat3, decimal, decimal_text, lemma_texts_push, opt_text, texts,
};
use crate::wsl::listing::{decode_wsl_text, decoded, lists_name, names};
use crate::wsl::path::{
    host_pushed, is_verbatim, is_windows_name, join_host, name_stands_behind_a_backslash,
    parts_names, PathStyle,
};

verus! {

// ---------------------------------------------------------------- config

/// Knobs of this backend.
#[derive(Debug, Clone, PartialEq, Eq)]
pub struct WslConfig {
    /// Name of the distribution, which must be unique among running sandboxes. By default it is
    /// `tokimo-` and the identifier of the sandbox.
    pub distro_name: Option<String>,
    /// Where the virtual disk of the distribution is kept. By default a directory after the
    /// distribution, among the application data.
    pub install_dir: Option<String>,
    /// The root file system to import. By default `rootfs.tar` among the images.
    pub rootfs_tar: Option<String>,
    /// The `wsl.exe` binary.
    pub wsl_bin: String,
}

impl Default for WslConfig {
    fn default() -> (r: Self)
        ensures
            r.distro_name is None,
            r.install_dir is None,
            r.rootfs_tar is None,
            r.wsl_bin@ == "wsl.exe"@,
    {
        WslConfig {
            distro_name: None,
            install_dir: None,
            rootfs_tar: None,
            wsl_bin: "wsl.exe".to_owned(),
        }
    }
}

/// What the host says of its directories.
#[derive(Debug, Clone, PartialEq, Eq)]
pub struct HostDirs {
    /// The directory for application data, on hosts that have one.
    pub local_app_data: Option<String>,
    /// The directory for temporary files.
    pub temp_dir: String,
    /// The directory that the environment names for images.
    pub img_dir: Option<String>,
}

// ---------------------------------------------------------------- names

/// The character can stand in the name of a distribution.
pub open spec fn is_name_char(c: char) -> bool {
    ('a' <= c <= 'z') || ('A' <= c <= 'Z') || ('0' <= c <= '9') || c == '-'
}

/// The text with a hyphen in place of every character that cannot stand in the name of a
/// distribution.
pub open spec fn sanitized(s: Seq<char>) -> Seq<char> {
    Seq::new(
        s.len(),
        |i: int|
            if is_name_char(s[i]) {
                s[i]
            } else {
                '-'
            },
    )
}

/// Makes a name for a distribution out of any text: puts a hyphen in place of every character that
/// cannot stand in one.
pub fn sanitize(s: &str) -> (r: String)
    ensures
        r@ == sanitized(s@),
{
    let chars = chars_of(s);
    let mut r = String::new();
    let mut i: usize = 0;
    assert(r@ =~= sanitized(s@).take(0));
    while i < chars.len()
        invariant
            i <= chars@.len(),
            chars@ == s@,
            r@ == sanitized(s@).take(i as int),
        decreases chars@.len() - i,
    {
        let c = chars[i];
        if ('a' <= c && c <= 'z') || ('A' <= c && c <= 'Z') || ('0' <= c && c <= '9') || c == '-' {
            r.push(c);
        } else {
            r.push('-');
        }
        i += 1;
        assert(r@ =~= sanitized(s@).take(i as int));
    }
    assert(sanitized(s@).take(chars@.len() as int) =~= sanitized(s@));
    r
}

/// The name of the distribution of a sandbox that was given none.
pub open spec fn default_distro_name(id: SandboxId) -> Seq<char> {
    "tokimo-"@ + hyphenated_text(id.0)
}

/// What `path_debug` gives for a path.
pub uninterp spec fn path_debug_of(p: Seq<char>) -> Seq<char>;

/// How `std::path::Path` is formatted for debugging: in quotes, with some characters escaped. The
/// outcome depends on the path alone; which characters are escaped is not stated.
#[verifier::external_body]
fn path_debug(p: &str) -> (r: String)
    ensures
        r@ == path_debug_of(p@),
{
    format!("{:?}", std::path::Path::new(p))
}

// ---------------------------------------------------------------- sandbox

/// A distribution that has to be imported.
#[derive(Debug, Clone, PartialEq, Eq)]
pub struct ImportPlan {
    pub name: String,
    pub install_dir: String,
    pub tar: String,
}

/// How a command ended: whether it succeeded, and its status as text.
#[derive(Debug, Clone, PartialEq, Eq)]
pub struct ExitText {
    pub success: bool,
    pub status: String,
}

/// The agent of a mount: its arguments, whether its input and output are piped to the host, and the
/// file, made anew, to which it writes its errors.
#[derive(Debug, Clone, PartialEq, Eq)]
pub struct AgentPlan {
    pub log_path: String,
    pub args: Vec<String>,
    pub stdin_piped: bool,
    pub stdout_piped: bool,
}

/// A command to be run in the distribution: the arguments for `wsl.exe`, what its environment is to
/// hold besides, and the directory to run it in, where one is named.
#[derive(Debug, Clone, PartialEq, Eq)]
pub struct ExecPlan {
    pub args: Vec<String>,
    pub env: Vec<(String, String)>,
    pub cwd: Option<String>,
}

/// How running an agent can fail.
#[derive(Debug, Clone, PartialEq, Eq)]
pub enum AgentFailure {
    /// Its log could not be made.
    Log(String),
    /// It could not be run.
    Spawn(String),
    /// It has no standard input.
    Stdin,
    /// It has no standard output.
    Stdout,
}

/// What a command printed, and how it ended.
#[derive(Debug, Clone, PartialEq, Eq)]
pub struct RawOutput {
    pub exit_code: Option<i32>,
    pub stdout: Vec<u8>,
    pub stderr: Vec<u8>,
}

/// How far the start of a sandbox has come: what it waits for.
#[derive(Debug, Clone, PartialEq, Eq)]
pub enum StartPhase {
    /// It is not being started.
    Idle,
    /// For this directory to be made.
    Dir(String),
    /// For the list of distributions.
    List,
    /// For the directory for the disk of the distribution to be made.
    InstallDir(ImportPlan),
    /// For word whether the root file system is there.
    Tar(ImportPlan),
    /// For the distribution to be imported.
    Import(ImportPlan),
    /// For the agent of the mount with that index.
    Agent(usize),
}

/// What happened during a start.
#[derive(Debug, PartialEq, Eq)]
pub enum StartEvent {
    /// The start was asked for, by the process with that number, on a host that keeps temporary
    /// files in that directory and has paths of that kind.
    Begin { temp_dir: String, pid: u32, style: PathStyle },
    /// The directory was made, or could not be.
    DirMade(Result<(), String>),
    /// The command that lists the distributions printed this on a host with these directories, or
    /// could not be run.
    Listed(Result<Vec<u8>, String>, HostDirs),
    /// The directory for the disk was made, or could not be.
    InstallDirMade(Result<(), String>),
    /// Whether the root file system is there.
    TarChecked(bool),
    /// The command that imports the distribution ended, or could not be run.
    Imported(Result<ExitText, String>),
    /// The agent runs and its mount is served, or it does not.
    AgentRun(Result<(), AgentFailure>),
}

/// What a start needs next.
#[derive(Debug, PartialEq, Eq)]
pub enum StartAction {
    /// Make this directory.
    MakeDir(String),
    /// Run `wsl.exe` with these arguments and take what it prints.
    List(Vec<String>),
    /// Make this directory.
    MakeInstallDir(String),
    /// Look whether this file is there.
    CheckTar(String),
    /// Run `wsl.exe` with these arguments.
    Import(Vec<String>),
    /// Run the agent of the mount with that index and serve the mount to it.
    RunAgent(usize, AgentPlan),
    /// Nothing: this is how the start went.
    Finish(Result<(), Error>),
}

/// What a stop needs next.
#[derive(Debug, PartialEq, Eq)]
pub enum StopAction {
    /// End the agents and what serves them, and run `wsl.exe` with these arguments, where there
    /// are some.
    End(Option<Vec<String>>),
    /// Nothing.
    Nothing,
}

/// A sandbox that is a distribution under WSL.
pub struct WslSandbox<V> {
    id: SandboxId,
    state: SandboxState,
    phase: StartPhase,
    agents: usize,
    config: SandboxConfig<V>,
    wsl: WslConfig,
    style: PathStyle,
    resolved_distro: Option<String>,
    runtime_dir: Option<String>,
}

/// What a sandbox holds.
#[verifier::ext_equal]
pub struct WslView<V> {
    pub id: SandboxId,
    pub state: SandboxState,
    /// How far the start has come.
    pub phase: StartPhase,
    /// How many agents run.
    pub agents: int,
    pub config: SandboxConfig<V>,
    pub wsl: WslConfig,
    /// The kind of paths that the host has, once it is being started.
    pub style: PathStyle,
    /// The name of its distribution, once that is known to be there.
    pub distro: Option<Seq<char>>,
    /// Where its files are, once the directory has been made.
    pub runtime_dir: Option<Seq<char>>,
}

impl<V> View for WslSandbox<V> {
    type V = WslView<V>;

    closed spec fn view(&self) -> WslView<V> {
        WslView {
            id: self.id,
            state: self.state,
            phase: self.phase,
            agents: self.agents as int,
            config: self.config,
            wsl: self.wsl,
            style: self.style,
            distro: opt_text(self.resolved_distro),
            runtime_dir: opt_text(self.runtime_dir),
        }
    }
}

impl<V> WslView<V> {
    /// The name that its distribution has or gets.
    pub open spec fn distro_name(self) -> Seq<char> {
        match self.wsl.distro_name {
            Some(n) => n@,
            None => default_distro_name(self.id),
        }
    }

    /// Where the disk of its distribution is kept.
    pub open spec fn install_dir(self, dirs: HostDirs) -> Seq<char> {
        match self.wsl.install_dir {
            Some(d) => d@,
            None => default_install_dir_of(self.distro_name(), dirs, self.style),
        }
    }

    /// The root file system that its distribution is made of.
    pub open spec fn tar(self, dirs: HostDirs) -> Seq<char> {
        match (self.wsl.rootfs_tar, dirs.img_dir) {
            (Some(t), _) => t@,
            (None, Some(d)) => host_pushed(self.style, d@, "rootfs.tar"@),
            (None, None) => "img/rootfs.tar"@,
        }
    }

    /// The plan imports its distribution.
    pub open spec fn is_import(self, p: ImportPlan, dirs: HostDirs) -> bool {
        &&& p.name@ == self.distro_name()
        &&& p.install_dir@ == self.install_dir(dirs)
        &&& p.tar@ == self.tar(dirs)
    }

    /// How far the start has come agrees with what has been done. A sandbox that runs has its
    /// directory, its own distribution, and an agent for every mount.
    pub open spec fn wf(self) -> bool {
        &&& !(self.phase is Idle) ==> self.state is Starting
        &&& self.state is Created ==> self.agents == 0
        &&& !(self.phase is Idle || self.phase is Agent) ==> self.agents == 0
        &&& !(self.phase is Idle || self.phase is Dir) || self.state is Running
            ==> self.runtime_dir is Some
        &&& (self.phase is Agent || self.state is Running) ==> self.distro is Some
        &&& self.phase matches StartPhase::Agent(i) ==> i < self.config.mounts@.len()
            && self.agents == i
        &&& self.state is Running ==> self.agents == self.config.mounts@.len()
        &&& self.distro is Some ==> self.distro == Some(self.distro_name())
        &&& self.phase matches StartPhase::InstallDir(p) ==> p.name@ == self.distro_name()
        &&& self.phase matches StartPhase::Tar(p) ==> p.name@ == self.distro_name()
        &&& self.phase matches StartPhase::Import(p) ==> p.name@ == self.distro_name()
    }

    /// The event is what the start waits for.
    pub open spec fn awaits(self, ev: StartEvent) -> bool {
        match ev {
            StartEvent::Begin { .. } => true,
            StartEvent::DirMade(_) => self.phase is Dir,
            StartEvent::Listed(_, _) => self.phase is List,
            StartEvent::InstallDirMade(_) => self.phase is InstallDir,
            StartEvent::TarChecked(_) => self.phase is Tar,
            StartEvent::Imported(_) => self.phase is Import,
            StartEvent::AgentRun(_) => self.phase is Agent,
        }
    }
}

/// The agent of the mount with that index, of a sandbox with that distribution and directory.
pub open spec fn is_agent_of<V>(p: AgentPlan, v: WslView<V>, i: int) -> bool {
    let m = v.config.mounts@[i];
    &&& v.distro is Some
    &&& v.runtime_dir is Some
    &&& p.stdin_piped && p.stdout_piped
    &&& p.log_path@ == host_pushed(
        v.style,
        v.runtime_dir->0,
        "agent-"@ + m.spec_tag() + ".log"@,
    )
    &&& texts(p.args@) == seq![
        "-d"@,
        v.distro->0,
        "--exec"@,
        "/sbin/tokimo-agent"@,
        "--stdio"@,
        "--mount"@,
        m.spec_guest_path(),
        "--tag"@,
        m.spec_tag(),
    ]
}

/// The start goes on with the agent of the mount of that index; where there is none, the sandbox
/// runs.
pub open spec fn goes_on_at<V>(w: WslView<V>, i: int, a: StartAction) -> bool {
    if i < w.config.mounts@.len() {
        &&& w.state is Starting
        &&& w.phase == StartPhase::Agent(i as usize)
        &&& a matches StartAction::RunAgent(k, p) && k == i && is_agent_of(p, w, i)
    } else {
        &&& w.state is Running
        &&& w.phase is Idle
        &&& a == StartAction::Finish(Ok(()))
    }
}

/// The start has failed.
pub open spec fn failed_start<V>(v: WslView<V>, w: WslView<V>) -> bool {
    w == WslView { phase: StartPhase::Idle, ..v }
}

/// The start has failed with an error of the configuration.
pub open spec fn finished_with_config(a: StartAction, text: Seq<char>) -> bool {
    a matches StartAction::Finish(Err(Error::Config(m))) && m@ == text
}

/// The start has failed with an error of the hypervisor.
pub open spec fn finished_with_hypervisor(a: StartAction, text: Seq<char>) -> bool {
    a matches StartAction::Finish(Err(Error::Hypervisor(m))) && m@ == text
}

/// How a start goes on once it is known what distributions there are: one that is there is used,
/// and else it has to be imported.
pub open spec fn distro_goes_on<V>(
    v: WslView<V>,
    listing: Seq<char>,
    dirs: HostDirs,
    w: WslView<V>,
    a: StartAction,
) -> bool {
    if names(listing, v.distro_name()) {
        &&& w == (WslView {
            state: w.state,
            phase: w.phase,
            distro: Some(v.distro_name()),
            ..v
        })
        &&& goes_on_at(w, 0, a)
    } else {
        &&& w == (WslView { phase: w.phase, ..v })
        &&& w.phase matches StartPhase::InstallDir(p) && v.is_import(p, dirs) && a
            == StartAction::MakeInstallDir(p.install_dir)
    }
}

/// How a start goes on after an event: `v` before it, `w` after it, and what is needed next.
pub open spec fn start_goes_on<V>(
    v: WslView<V>,
    ev: StartEvent,
    w: WslView<V>,
    a: StartAction,
) -> bool {
    match ev {
        // A sandbox is started once.
        StartEvent::Begin { temp_dir, pid, style } => if v.state is Created {
            &&& w == (WslView { state: SandboxState::Starting, phase: w.phase, style, ..v })
            &&& w.phase matches StartPhase::Dir(d) && d@ == host_root_of(
                v.config,
                temp_dir@,
                pid,
                style,
            ) && a == StartAction::MakeDir(d)
        } else {
            w == v && a == StartAction::Finish(Err(Error::AlreadyStarted))
        },
        StartEvent::DirMade(Ok(_)) => {
            &&& w == (WslView {
                phase: StartPhase::List,
                runtime_dir: Some(v.phase->Dir_0@),
                ..v
            })
            &&& a matches StartAction::List(args) && texts(args@) == seq!["--list"@, "--quiet"@]
        },
        StartEvent::DirMade(Err(e)) => failed_start(v, w) && finished_with_config(
            a,
            "runtime_dir: "@ + e@,
        ),
        StartEvent::Listed(Ok(bytes), dirs) => distro_goes_on(v, decoded(bytes@), dirs, w, a),
        StartEvent::Listed(Err(e), _) => failed_start(v, w) && finished_with_hypervisor(
            a,
            "wsl --list: "@ + e@,
        ),
        StartEvent::InstallDirMade(Ok(_)) => {
            let p = v.phase->InstallDir_0;
            w == (WslView { phase: StartPhase::Tar(p), ..v }) && a == StartAction::CheckTar(p.tar)
        },
        StartEvent::InstallDirMade(Err(e)) => failed_start(v, w) && finished_with_config(
            a,
            "create "@ + path_debug_of(v.phase->InstallDir_0.install_dir@) + ": "@ + e@,
        ),
        StartEvent::TarChecked(true) => {
            let p = v.phase->Tar_0;
            &&& w == (WslView { phase: StartPhase::Import(p), ..v })
            &&& a matches StartAction::Import(args) && texts(args@) == seq![
                "--import"@,
                p.name@,
                p.install_dir@,
                p.tar@,
                "--version"@,
                "2"@,
            ]
        },
        StartEvent::TarChecked(false) => failed_start(v, w) && finished_with_config(
            a,
            "rootfs tarball not found at "@ + path_debug_of(v.phase->Tar_0.tar@)
                + " — run scripts/image/build.sh (WSL backend expects a .tar, not .squashfs)"@,
        ),
        StartEvent::Imported(Ok(x)) => if x.success {
            &&& w == (WslView {
                state: w.state,
                phase: w.phase,
                distro: Some(v.phase->Import_0.name@),
                ..v
            })
            &&& goes_on_at(w, 0, a)
        } else {
            failed_start(v, w) && finished_with_hypervisor(a, "wsl --import exited "@ + x.status@)
        },
        StartEvent::Imported(Err(e)) => failed_start(v, w) && finished_with_hypervisor(
            a,
            "wsl --import: "@ + e@,
        ),
        // The agents are run one after the other, in the order of the mounts.
        StartEvent::AgentRun(Ok(_)) => {
            &&& w == (WslView {
                state: w.state,
                phase: w.phase,
                agents: v.agents + 1,
                ..v
            })
            &&& goes_on_at(w, v.phase->Agent_0 + 1, a)
        },
        StartEvent::AgentRun(Err(f)) => {
            &&& failed_start(v, w)
            &&& a matches StartAction::Finish(Err(e)) && is_agent_error(
                e,
                v.phase->Agent_0 as nat,
                f,
            )
        },
    }
}

/// The error for an agent that could not be run.
pub open spec fn is_agent_error(r: Error, i: nat, f: AgentFailure) -> bool {
    match f {
        AgentFailure::Log(e) => r matches Error::Config(m) && m@ == "agent log: "@ + e@,
        AgentFailure::Spawn(e) => r matches Error::Hypervisor(m) && m@ == "spawn wsl agent #"@
            + decimal(i) + ": "@ + e@,
        AgentFailure::Stdin => r matches Error::Hypervisor(m) && m@ == "child stdin"@,
        AgentFailure::Stdout => r matches Error::Hypervisor(m) && m@ == "child stdout"@,
    }
}

/// The directory of a sandbox: the one that its configuration names, or one in the directory for
/// temporary files, after its name and the process.
pub open spec fn host_root_of<V>(
    config: SandboxConfig<V>,
    temp_dir: Seq<char>,
    pid: u32,
    style: PathStyle,
) -> Seq<char> {
    match config.runtime_dir {
        Some(d) => d@,
        None => host_pushed(style, temp_dir, runtime_dir_name(config.name@, pid)),
    }
}

/// Where the disk of a distribution is kept unless another place is named.
pub open spec fn default_install_dir_of(
    distro: Seq<char>,
    dirs: HostDirs,
    style: PathStyle,
) -> Seq<char> {
    let base = match dirs.local_app_data {
        Some(d) => d@,
        None => dirs.temp_dir@,
    };
    host_pushed(
        style,
        host_pushed(style, host_pushed(style, base, "tokimo"@), "sandboxes"@),
        distro,
    )
}

/// Where the disk of a distribution is kept unless another place is named.
pub fn default_install_dir(distro: &str, dirs: &HostDirs, style: PathStyle) -> (r: String)
    ensures
        r@ == default_install_dir_of(distro@, *dirs, style),
{
    let base = match &dirs.local_app_data {
        Some(d) => d.as_str(),
        None => dirs.temp_dir.as_str(),
    };
    let a = join_host(style, base, "tokimo");
    let b = join_host(style, a.as_str(), "sandboxes");
    join_host(style, b.as_str(), distro)
}

/// The arguments that list the distributions.
fn list_args() -> (r: Vec<String>)
    ensures
        texts(r@) == seq!["--list"@, "--quiet"@],
{
    let mut r: Vec<String> = Vec::new();
    r.push("--list".to_owned());
    r.push("--quiet".to_owned());
    assert(texts(r@) =~= seq!["--list"@, "--quiet"@]);
    r
}

impl ImportPlan {
    /// The arguments that import the distribution.
    fn args(&self) -> (r: Vec<String>)
        ensures
            texts(r@) == seq![
                "--import"@,
                self.name@,
                self.install_dir@,
                self.tar@,
                "--version"@,
                "2"@,
            ],
    {
        let mut r: Vec<String> = Vec::new();
        r.push("--import".to_owned());
        r.push(self.name.clone());
        r.push(self.install_dir.clone());
        r.push(self.tar.clone());
        r.push("--version".to_owned());
        r.push("2".to_owned());
        assert(texts(r@) =~= seq![
            "--import"@,
            self.name@,
            self.install_dir@,
            self.tar@,
            "--version"@,
            "2"@,
        ]);
        r
    }

    /// The directory for the disk was made, or could not be.
    fn dir_made(&self, made: Result<(), String>) -> (r: Result<(), Error>)
        ensures
            match made {
                Ok(_) => r is Ok,
                Err(e) => r matches Err(Error::Config(m)) && m@ == "create "@ + path_debug_of(
                    self.install_dir@,
                ) + ": "@ + e@,
            },
    {
        match made {
            Ok(_) => Ok(()),
            Err(e) => {
                let shown = path_debug(self.install_dir.as_str());
                Err(Error::Config(concat2(concat3("create ", shown.as_str(), ": ").as_str(), e.as_str())))
            },
        }
    }

    /// The root file system must be there.
    fn tar_checked(&self, found: bool) -> (r: Result<(), Error>)
        ensures
            if found {
                r is Ok
            } else {
                r matches Err(Error::Config(m)) && m@ == "rootfs tarball not found at "@
                    + path_debug_of(self.tar@)
                    + " — run scripts/image/build.sh (WSL backend expects a .tar, not .squashfs)"@
            },
    {
        if found {
            return Ok(());
        }
        let shown = path_debug(self.tar.as_str());
        Err(
            Error::Config(
                concat3(
                    "rootfs tarball not found at ",
                    shown.as_str(),
                    " — run scripts/image/build.sh (WSL backend expects a .tar, not .squashfs)",
                ),
            ),
        )
    }
}

/// The error for an agent that could not be run.
fn agent_error(i: usize, f: AgentFailure) -> (r: Error)
    ensures
        is_agent_error(r, i as nat, f),
{
    match f {
        AgentFailure::Log(e) => Error::Config(concat2("agent log: ", e.as_str())),
        AgentFailure::Spawn(e) => {
            let number = decimal_text(i as u64);
            let head = concat3("spawn wsl agent #", number.as_str(), ": ");
            Error::Hypervisor(concat2(head.as_str(), e.as_str()))
        },
        AgentFailure::Stdin => Error::Hypervisor("child stdin".to_owned()),
        AgentFailure::Stdout => Error::Hypervisor("child stdout".to_owned()),
    }
}

impl StartPhase {
    /// The directory that is waited for.
    fn into_dir(self) -> (r: String)
        requires
            self is Dir,
        ensures
            r == self->Dir_0,
    {
        match self {
            StartPhase::Dir(d) => d,
            _ => vstd::pervasive::unreached(),
        }
    }

    /// The distribution that is being imported.
    fn into_plan(self) -> (r: ImportPlan)
        requires
            self is InstallDir || self is Tar || self is Import,
        ensures
            self is InstallDir ==> r == self->InstallDir_0,
            self is Tar ==> r == self->Tar_0,
            self is Import ==> r == self->Import_0,
    {
        match self {
            StartPhase::InstallDir(p) => p,
            StartPhase::Tar(p) => p,
            StartPhase::Import(p) => p,
            _ => vstd::pervasive::unreached(),
        }
    }

    /// The index of the mount whose agent is waited for.
    fn agent_index(&self) -> (r: usize)
        requires
            self is Agent,
        ensures
            r == self->Agent_0,
    {
        match self {
            StartPhase::Agent(i) => *i,
            _ => vstd::pervasive::unreached(),
        }
    }
}

impl<V> WslSandbox<V> {
    /// A sandbox that has not been started.
    pub fn new(config: SandboxConfig<V>) -> (r: Self)
        ensures
            is_random_uuid(r@.id.0),
            r@.state is Created,
            r@.config == config,
            r@.wsl.distro_name is None,
            r@.wsl.install_dir is None,
            r@.wsl.rootfs_tar is None,
            r@.wsl.wsl_bin@ == "wsl.exe"@,
            r@.style is Unix,
            r@.distro is None,
            r@.runtime_dir is None,
            r@.phase is Idle,
            r@.agents == 0,
            r@.wf(),
    {
        WslSandbox::with_wsl_config(config, WslConfig::default())
    }

    /// A sandbox that has not been started, with these knobs.
    pub fn with_wsl_config(config: SandboxConfig<V>, wsl: WslConfig) -> (r: Self)
        ensures
            is_random_uuid(r@.id.0),
            r@ == (WslView {
                id: r@.id,
                state: SandboxState::Created,
                phase: StartPhase::Idle,
                agents: 0,
                config,
                wsl,
                style: PathStyle::Unix,
                distro: None,
                runtime_dir: None,
            }),
            r@.wf(),
    {
        WslSandbox {
            id: SandboxId::new(),
            state: SandboxState::Created,
            phase: StartPhase::Idle,
            agents: 0,
            config,
            wsl,
            style: PathStyle::Unix,
            resolved_distro: None,
            runtime_dir: None,
        }
    }

    /// The identifier.
    pub fn id(&self) -> (r: SandboxId)
        ensures
            r == self@.id,
    {
        self.id
    }

    /// The state.
    pub fn state(&self) -> (r: SandboxState)
        ensures
            r == self@.state,
    {
        self.state
    }

    /// The configuration.
    pub fn config(&self) -> (r: &SandboxConfig<V>)
        ensures
            *r == self@.config,
    {
        &self.config
    }

    /// The `wsl.exe` binary.
    pub fn wsl_bin(&self) -> (r: &str)
        ensures
            r@ == self@.wsl.wsl_bin@,
    {
        self.wsl.wsl_bin.as_str()
    }

    /// The name that the distribution has or gets.
    pub fn resolve_distro_name(&self) -> (r: String)
        ensures
            r@ == self@.distro_name(),
    {
        if let Some(n) = &self.wsl.distro_name {
            return n.clone();
        }
        concat2("tokimo-", self.id.text().as_str())
    }

    /// Where the files of the sandbox are to be.
    fn runtime_root(&self, temp_dir: &str, pid: u32) -> (r: String)
        ensures
            r@ == host_root_of(self@.config, temp_dir@, pid, self@.style),
    {
        match &self.config.runtime_dir {
            Some(d) => d.clone(),
            None => {
                let head = concat3("tokimo-", self.config.name.as_str(), "-");
                let name = concat2(head.as_str(), decimal_text(pid as u64).as_str());
                join_host(self.style, temp_dir, name.as_str())
            },
        }
    }

    /// The plan that imports the distribution.
    fn import_plan(&self, dirs: &HostDirs) -> (r: ImportPlan)
        ensures
            self@.is_import(r, *dirs),
    {
        let name = self.resolve_distro_name();
        let install_dir = match &self.wsl.install_dir {
            Some(d) => d.clone(),
            None => default_install_dir(name.as_str(), dirs, self.style),
        };
        let tar = match &self.wsl.rootfs_tar {
            Some(t) => t.clone(),
            None => match &dirs.img_dir {
                Some(d) => join_host(self.style, d.as_str(), "rootfs.tar"),
                None => "img/rootfs.tar".to_owned(),
            },
        };
        ImportPlan { name, install_dir, tar }
    }

    /// Ends a start that failed.
    fn fail_start(&mut self, e: Error) -> (a: StartAction)
        ensures
            failed_start(old(self)@, final(self)@),
            a == StartAction::Finish(Err(e)),
    {
        self.phase = StartPhase::Idle;
        StartAction::Finish(Err(e))
    }

    /// Goes on with the agent of the mount of that index; where there is none, the sandbox runs.
    fn go_on_at(&mut self, i: usize) -> (a: StartAction)
        requires
            old(self)@.state is Starting,
            old(self)@.distro is Some,
            old(self)@.runtime_dir is Some,
            i <= old(self)@.config.mounts@.len(),
        ensures
            final(self)@ == (WslView {
                state: final(self)@.state,
                phase: final(self)@.phase,
                ..old(self)@
            }),
            goes_on_at(final(self)@, i as int, a),
    {
        if i < self.config.mounts.len() {
            self.phase = StartPhase::Agent(i);
            StartAction::RunAgent(i, self.agent(i))
        } else {
            self.phase = StartPhase::Idle;
            self.state = SandboxState::Running;
            StartAction::Finish(Ok(()))
        }
    }

    /// Begins a start.
    fn begin(&mut self, temp_dir: String, pid: u32, style: PathStyle) -> (a: StartAction)
        ensures
            start_goes_on(old(self)@, StartEvent::Begin { temp_dir, pid, style }, final(self)@, a),
    {
        if self.state != SandboxState::Created {
            return StartAction::Finish(Err(Error::AlreadyStarted));
        }
        self.state = SandboxState::Starting;
        self.style = style;
        let dir = self.runtime_root(temp_dir.as_str(), pid);
        self.phase = StartPhase::Dir(dir.clone());
        StartAction::MakeDir(dir)
    }

    /// Decides what is to be done about the distribution, given what distributions there are: one
    /// that is there already is used, and else it has to be imported.
    pub fn ensure_distro(&mut self, listing: &str, dirs: &HostDirs) -> (a: StartAction)
        requires
            old(self)@.wf(),
            old(self)@.phase is List,
        ensures
            final(self)@.wf(),
            distro_goes_on(old(self)@, listing@, *dirs, final(self)@, a),
            may_follow(old(self)@.state, final(self)@.state),
    {
        let name = self.resolve_distro_name();
        if lists_name(listing, name.as_str()) {
            self.resolved_distro = Some(name);
            return self.go_on_at(0);
        }
        let plan = self.import_plan(dirs);
        let dir = plan.install_dir.clone();
        self.phase = StartPhase::InstallDir(plan);
        StartAction::MakeInstallDir(dir)
    }

    /// The import of the distribution ended.
    fn imported(&mut self, name: String, ended: ExitText) -> (a: StartAction)
        requires
            old(self)@.state is Starting,
            old(self)@.runtime_dir is Some,
        ensures
            if ended.success {
                &&& final(self)@ == (WslView {
                    state: final(self)@.state,
                    phase: final(self)@.phase,
                    distro: Some(name@),
                    ..old(self)@
                })
                &&& goes_on_at(final(self)@, 0, a)
            } else {
                failed_start(old(self)@, final(self)@) && finished_with_hypervisor(
                    a,
                    "wsl --import exited "@ + ended.status@,
                )
            },
    {
        if ended.success {
            self.resolved_distro = Some(name);
            self.go_on_at(0)
        } else {
            self.fail_start(
                Error::Hypervisor(concat2("wsl --import exited ", ended.status.as_str())),
            )
        }
    }

    /// Starts the sandbox, step by step: what happened decides what is needed next.
    pub fn start(&mut self, ev: StartEvent) -> (a: StartAction)
        requires
            old(self)@.wf(),
            old(self)@.awaits(ev),
        ensures
            final(self)@.wf(),
            start_goes_on(old(self)@, ev, final(self)@, a),
            may_follow(old(self)@.state, final(self)@.state),
    {
        let mut phase = StartPhase::Idle;
        match ev {
            StartEvent::Begin { temp_dir, pid, style } => self.begin(temp_dir, pid, style),
            StartEvent::DirMade(made) => match made {
                Ok(_) => {
                    std::mem::swap(&mut phase, &mut self.phase);
                    self.runtime_dir = Some(phase.into_dir());
                    self.phase = StartPhase::List;
                    StartAction::List(list_args())
                },
                Err(e) => self.fail_start(Error::Config(concat2("runtime_dir: ", e.as_str()))),
            },
            StartEvent::Listed(output, dirs) => match output {
                Ok(bytes) => {
                    let listing = decode_wsl_text(&bytes);
                    self.ensure_distro(listing.as_str(), &dirs)
                },
                Err(e) => self.fail_start(
                    Error::Hypervisor(concat2("wsl --list: ", e.as_str())),
                ),
            },
            StartEvent::InstallDirMade(made) => {
                std::mem::swap(&mut phase, &mut self.phase);
                let plan = phase.into_plan();
                match plan.dir_made(made) {
                    Ok(_) => {
                        let tar = plan.tar.clone();
                        self.phase = StartPhase::Tar(plan);
                        StartAction::CheckTar(tar)
                    },
                    Err(e) => self.fail_start(e),
                }
            },
            StartEvent::TarChecked(found) => {
                std::mem::swap(&mut phase, &mut self.phase);
                let plan = phase.into_plan();
                match plan.tar_checked(found) {
                    Ok(_) => {
                        let args = plan.args();
                        self.phase = StartPhase::Import(plan);
                        StartAction::Import(args)
                    },
                    Err(e) => self.fail_start(e),
                }
            },
            StartEvent::Imported(ended) => match ended {
                Ok(x) => {
                    std::mem::swap(&mut phase, &mut self.phase);
                    let plan = phase.into_plan();
                    self.imported(plan.name, x)
                },
                Err(e) => self.fail_start(
                    Error::Hypervisor(concat2("wsl --import: ", e.as_str())),
                ),
            },
            StartEvent::AgentRun(run) => {
                let i: usize = self.phase.agent_index();
                match run {
                    Ok(_) => {
                        let n: usize = self.config.mounts.len();
                        assert(i < n);
                        self.agents = self.agents + 1;
                        self.go_on_at(i + 1)
                    },
                    Err(f) => self.fail_start(agent_error(i, f)),
                }
            },
        }
    }

    /// The agent of the mount with that index.
    fn agent(&self, i: usize) -> (r: AgentPlan)
        requires
            self@.distro is Some,
            self@.runtime_dir is Some,
            i < self@.config.mounts@.len(),
        ensures
            is_agent_of(r, self@, i as int),
    {
        let distro = self.resolved_distro.as_ref().unwrap();
        let dir = self.runtime_dir.as_ref().unwrap();
        let m = &self.config.mounts[i];
        let mut args: Vec<String> = Vec::new();
        args.push("-d".to_owned());
        args.push(distro.clone());
        args.push("--exec".to_owned());
        args.push("/sbin/tokimo-agent".to_owned());
        args.push("--stdio".to_owned());
        args.push("--mount".to_owned());
        args.push(m.guest_path().to_owned());
        args.push("--tag".to_owned());
        args.push(m.tag().to_owned());
        assert(texts(args@) =~= seq![
            "-d"@,
            distro@,
            "--exec"@,
            "/sbin/tokimo-agent"@,
            "--stdio"@,
            "--mount"@,
            m.spec_guest_path(),
            "--tag"@,
            m.spec_tag(),
        ]);
        let name = concat3("agent-", m.tag(), ".log");
        AgentPlan {
            log_path: join_host(self.style, dir.as_str(), name.as_str()),
            args,
            stdin_piped: true,
            stdout_piped: true,
        }
    }

    /// What the mount with that index is served from.
    pub fn mount_served(&self, i: usize) -> (r: Served<'_, V>)
        requires
            i < self@.config.mounts@.len(),
        ensures
            match self@.config.mounts@[i as int] {
                MountSpec::HostDir { host_path, read_only, .. } => r matches Served::Host(fs)
                    && fs.spec_root() == host_path@ && fs.spec_read_only() == read_only,
                MountSpec::Vfs { vfs, .. } => r matches Served::Vfs(v) && *v == vfs,
            },
    {
        self.config.mounts[i].served()
    }

    /// The arguments that end the distribution, where it is known to be there.
    fn terminate_args(&self) -> (r: Option<Vec<String>>)
        ensures
            match self@.distro {
                Some(d) => r matches Some(a) && texts(a@) == seq!["--terminate"@, d],
                None => r is None,
            },
    {
        match &self.resolved_distro {
            Some(d) => {
                let mut a: Vec<String> = Vec::new();
                a.push("--terminate".to_owned());
                a.push(d.clone());
                assert(texts(a@) =~= seq!["--terminate"@, d@]);
                Some(a)
            },
            None => None,
        }
    }

    /// Begins to stop the sandbox. Nothing is to be done where it is stopped already.
    pub fn stop(&mut self) -> (a: StopAction)
        requires
            old(self)@.wf(),
        ensures
            final(self)@.wf(),
            if old(self)@.state is Stopped {
                final(self)@ == old(self)@ && a is Nothing
            } else {
                &&& final(self)@ == (WslView {
                    state: SandboxState::Stopping,
                    phase: StartPhase::Idle,
                    agents: 0,
                    ..old(self)@
                })
                &&& match old(self)@.distro {
                    Some(d) => a matches StopAction::End(Some(args)) && texts(args@) == seq![
                        "--terminate"@,
                        d,
                    ],
                    None => a == StopAction::End(None),
                }
            },
            may_follow(old(self)@.state, final(self)@.state),
    {
        if self.state == SandboxState::Stopped {
            return StopAction::Nothing;
        }
        self.state = SandboxState::Stopping;
        self.phase = StartPhase::Idle;
        self.agents = 0;
        StopAction::End(self.terminate_args())
    }

    /// The distribution has ended: the sandbox is stopped.
    pub fn stopped(&mut self)
        requires
            old(self)@.wf(),
            old(self)@.state is Stopping,
        ensures
            final(self)@.wf(),
            final(self)@ == (WslView { state: SandboxState::Stopped, ..old(self)@ }),
            may_follow(old(self)@.state, final(self)@.state),
    {
        self.state = SandboxState::Stopped;
    }

    /// Every agent has ended: the sandbox is stopped.
    pub fn waited(&mut self)
        requires
            old(self)@.wf(),
        ensures
            final(self)@.wf(),
            final(self)@ == (WslView {
                state: SandboxState::Stopped,
                phase: StartPhase::Idle,
                agents: 0,
                ..old(self)@
            }),
            may_follow(old(self)@.state, final(self)@.state),
    {
        self.agents = 0;
        self.phase = StartPhase::Idle;
        self.state = SandboxState::Stopped;
    }

    /// Mounts cannot be added to a sandbox that exists.
    pub fn add_mount(&mut self, _spec: MountSpec<V>) -> (r: Result<MountId, Error>)
        ensures
            r matches Err(Error::Unsupported(m)) && m@
                == "hot add_mount not implemented on WSL backend"@,
            final(self)@ == old(self)@,
    {
        Err(Error::Unsupported("hot add_mount not implemented on WSL backend"))
    }

    /// Mounts cannot be taken from a sandbox that exists.
    pub fn remove_mount(&mut self, _id: MountId) -> (r: Result<(), Error>)
        ensures
            r matches Err(Error::Unsupported(m)) && m@
                == "hot remove_mount not implemented on WSL backend"@,
            final(self)@ == old(self)@,
    {
        Err(Error::Unsupported("hot remove_mount not implemented on WSL backend"))
    }

    /// How a command is run in the distribution, which must be known to be there: with the
    /// arguments, the environment and the directory that are asked for.
    pub fn exec(&self, spec: ExecSpec) -> (r: Result<ExecPlan, Error>)
        ensures
            match self@.distro {
                Some(d) => r matches Ok(p) && texts(p.args@) == seq![
                    "-d"@,
                    d,
                    "--exec"@,
                    spec.program@,
                ] + texts(spec.args@) && p.env == spec.env && p.cwd == spec.cwd,
                None => r matches Err(Error::Hypervisor(m)) && m@ == "sandbox not started"@,
            },
    {
        let distro = match &self.resolved_distro {
            Some(d) => d,
            None => {
                return Err(Error::Hypervisor("sandbox not started".to_owned()));
            },
        };
        let mut a: Vec<String> = Vec::new();
        a.push("-d".to_owned());
        a.push(distro.clone());
        a.push("--exec".to_owned());
        a.push(spec.program.clone());
        let ghost head = seq!["-d"@, distro@, "--exec"@, spec.program@];
        let ghost all = texts(spec.args@);
        assert(texts(a@) =~= head + all.take(0));
        let mut i: usize = 0;
        while i < spec.args.len()
            invariant
                i <= spec.args@.len(),
                all == texts(spec.args@),
                texts(a@) == head + all.take(i as int),
            decreases spec.args@.len() - i,
        {
            let s = spec.args[i].clone();
            proof {
                lemma_texts_push(a@, s);
            }
            a.push(s);
            i += 1;
            assert(texts(a@) =~= head + all.take(i as int));
        }
        assert(all.take(spec.args@.len() as int) =~= all);
        Ok(ExecPlan { args: a, env: spec.env, cwd: spec.cwd })
    }

    /// What a command left behind, or why it could not be run.
    pub fn exec_done(output: Result<RawOutput, String>) -> (r: Result<ExecOutput, Error>)
        ensures
            match output {
                Ok(o) => r matches Ok(x) && is_random_uuid(x.id.0) && x.exit_code == o.exit_code
                    && x.stdout == o.stdout && x.stderr == o.stderr,
                Err(e) => r matches Err(Error::Hypervisor(m)) && m@ == "wsl exec: "@ + e@,
            },
    {
        match output {
            Ok(o) => Ok(
                ExecOutput {
                    id: ExecId::new(),
                    exit_code: o.exit_code,
                    stdout: o.stdout,
                    stderr: o.stderr,
                },
            ),
            Err(e) => Err(Error::Hypervisor(concat2("wsl exec: ", e.as_str()))),
        }
    }

    /// The log of the serial console.
    pub fn serial_log_path(&self) -> (r: Option<String>)
        ensures
            opt_text(r) == match self@.runtime_dir {
                Some(d) => Some(host_pushed(self@.style, d, "serial.log"@)),
                None => None,
            },
    {
        match &self.runtime_dir {
            Some(d) => Some(join_host(self.style, d.as_str(), "serial.log")),
            None => None,
        }
    }
}

/// How many reports a start still waits for at most.
pub open spec fn steps_left<V>(v: WslView<V>) -> int {
    let n = v.config.mounts@.len() as int;
    match v.phase {
        StartPhase::Idle => 0,
        StartPhase::Dir(_) => n + 5,
        StartPhase::List => n + 4,
        StartPhase::InstallDir(_) => n + 3,
        StartPhase::Tar(_) => n + 2,
        StartPhase::Import(_) => n + 1,
        StartPhase::Agent(i) => n - i,
    }
}

/// A start comes to an end: each report brings it closer, and it is over when nothing is waited for
/// any more.
pub proof fn start_comes_to_an_end<V>(
    v: WslView<V>,
    ev: StartEvent,
    w: WslView<V>,
    a: StartAction,
)
    requires
        v.wf(),
        v.awaits(ev),
        !(ev is Begin),
        start_goes_on(v, ev, w, a),
    ensures
        0 <= steps_left(w) < steps_left(v),
        steps_left(w) == 0 <==> a is Finish,
{
}

/// A sandbox that runs has an agent for every mount, in its own distribution.
pub proof fn running_sandbox_has_its_agents<V>(v: WslView<V>)
    requires
        v.wf(),
        v.state is Running,
    ensures
        v.agents == v.config.mounts@.len(),
        v.distro == Some(v.distro_name()),
        v.runtime_dir is Some,
{
}

/// A sanitized text is as long as the text and holds only what can stand in the name of a
/// distribution; sanitizing it again changes nothing.
pub proof fn sanitized_is_a_name(s: Seq<char>)
    ensures
        sanitized(s).len() == s.len(),
        forall|i: int| 0 <= i < s.len() ==> is_name_char(#[trigger] sanitized(s)[i]),
        sanitized(sanitized(s)) == sanitized(s),
{
    assert(sanitized(sanitized(s)) =~= sanitized(s));
}

/// On Windows the disk of a distribution is kept in `tokimo\sandboxes` among the application data, in
/// a directory of its name.
pub proof fn disks_are_kept_among_the_application_data(distro: Seq<char>, dirs: HostDirs)
    requires
        is_windows_name(distro),
        dirs.local_app_data matches Some(d) && d@.len() > 3 && !parts_names(d@.last(), false)
            && !is_verbatim(d@),
    ensures
        default_install_dir_of(distro, dirs, PathStyle::Windows) == dirs.local_app_data->0@
            + "\\"@ + "tokimo"@ + "\\"@ + "sandboxes"@ + "\\"@ + distro,
{
    reveal_strlit("\\");
    reveal_strlit("tokimo");
    reveal_strlit("sandboxes");
    let base = dirs.local_app_data->0@;
    let a = base + "\\"@ + "tokimo"@;
    let b = a + "\\"@ + "sandboxes"@;
    assert(is_windows_name("tokimo"@));
    assert(is_windows_name("sandboxes"@));
    name_stands_behind_a_backslash(base, "tokimo"@);
    assert(a.last() == 'o');
    assert(a[0] == base[0] && a[1] == base[1] && a[2] == base[2] && a[3] == base[3]);
    assert(!is_verbatim(a));
    name_stands_behind_a_backslash(a, "sandboxes"@);
    assert(b.last() == 's');
    assert(b[0] == base[0] && b[1] == base[1] && b[2] == base[2] && b[3] == base[3]);
    assert(!is_verbatim(b));
    name_stands_behind_a_backslash(b, distro);
}

/// Different sandboxes have different distributions, unless they are given the same one.
pub proof fn default_distro_names_are_distinct(a: SandboxId, b: SandboxId)
    requires
        default_distro_name(a) == default_distro_name(b),
    ensures
        a == b,
{
    let n = "tokimo-"@.len() as int;
    assert(hyphenated_text(a.0) =~= default_distro_name(a).skip(n));
    assert(hyphenated_text(b.0) =~= default_distro_name(b).skip(n));
    text_identifies(a.0, b.0);
}

/// The name that a distribution gets by default needs no sanitizing.
pub proof fn default_distro_name_is_a_name(id: SandboxId)
    ensures
        sanitized(default_distro_name(id)) == default_distro_name(id),
{
    reveal_strlit("tokimo-");
    let n = default_distro_name(id);
    let s = simple_text(id.0);
    let h = hyphenated_text(id.0);
    assert forall|i: int| 0 <= i < 32 implies is_name_char(#[trigger] s[i]) by {
        let d = (id.0 as int / vstd::arithmetic::power::pow(16, (31 - i) as nat)) % 16;
        assert(s[i] == hex_digit(d));
        lemma_hex_digit(d);
    }
    assert forall|k: int| 0 <= k < h.len() implies is_name_char(#[trigger] h[k]) by {
        if k < 8 {
            assert(h[k] == s[k]);
        } else if 8 < k < 13 {
            assert(h[k] == s[k - 1]);
        } else if 13 < k < 18 {
            assert(h[k] == s[k - 2]);
        } else if 18 < k < 23 {
            assert(h[k] == s[k - 3]);
        } else if 23 < k {
            assert(h[k] == s[k - 4]);
        }
    }
    assert forall|i: int| 0 <= i < n.len() implies is_name_char(#[trigger] n[i]) by {
        if i >= 7 {
            assert(n[i] == h[i - 7]);
        }
    }
    assert(sanitized(n) =~= n);
}

} // verus!
