//! What the Windows backend is for: laws over what is configured, asked and run.

use vstd::prelude::*;

use crate::config::{
    made_for_path, made_with_tag, ExecOutput, ExecSpec, MountSpec, SandboxConfig, Served,
};
use crate::error::Error;
use crate::ids::{hyphenated_text, MountId, SandboxId};
use crate::path::{components, plain, pushed_name_is_last_component};
use crate::state::SandboxState;
use crate::text::{decimal, decimal_is_read_back, number_in, opt_text, texts};
use crate::wsl::listing::{decode_wsl_text, lists_name};
use crate::wsl::path::{host_pushed, join_host, PathStyle};
use crate::wsl::sandbox::{
    default_install_dir, path_debug_of, sanitize, AgentFailure, AgentPlan, ExecPlan, HostDirs,
    RawOutput, StartAction, StartEvent, StartPhase, StopAction, WslConfig, WslSandbox, WslView,
};

verus! {

// ---------------------------------------------------------------- names

/// A text becomes the name of a distribution character by character: a letter, a digit and a hyphen
/// stay, and anything else becomes a hyphen.
pub proof fn names_keep_what_can_stand_in_them(s: &str, r: String, i: int)
    requires
        call_ensures(sanitize, (s,), r),
        0 <= i < s@.len(),
    ensures
        r@.len() == s@.len(),
        'a' <= s@[i] <= 'z' || 'A' <= s@[i] <= 'Z' || '0' <= s@[i] <= '9' ==> r@[i] == s@[i],
        !('a' <= s@[i] <= 'z' || 'A' <= s@[i] <= 'Z' || '0' <= s@[i] <= '9') ==> r@[i] == '-',
{
}

/// The name is the one of the distribution of a sandbox: the one that it was given, or else one after
/// its identifier.
pub open spec fn is_distro_of(name: Seq<char>, wsl: WslConfig, id: SandboxId) -> bool {
    match wsl.distro_name {
        Some(n) => name == n@,
        None => name == "tokimo-"@ + hyphenated_text(id.0),
    }
}

/// A distribution has the name that it was given, or one after the identifier of its sandbox.
pub proof fn a_distribution_has_its_name<V>(sb: &WslSandbox<V>, r: String)
    requires
        call_ensures(WslSandbox::<V>::resolve_distro_name, (sb,), r),
    ensures
        is_distro_of(r@, sb@.wsl, sb@.id),
{
}

/// The disk of a distribution is kept in a directory of its name, in that of the sandboxes, in that
/// of the program, among the application data where the host has such a place, and else among the
/// temporary files.
pub proof fn a_disk_is_kept_under_the_name(
    distro: &str,
    dirs: &HostDirs,
    style: PathStyle,
    base: &str,
    program: String,
    program_dir: &str,
    sandboxes: String,
    sandboxes_dir: &str,
    own: String,
    r: String,
)
    requires
        match dirs.local_app_data {
            Some(d) => base@ == d@,
            None => base@ == dirs.temp_dir@,
        },
        call_ensures(join_host, (style, base, "tokimo"), program),
        program_dir@ == program@,
        call_ensures(join_host, (style, program_dir, "sandboxes"), sandboxes),
        sandboxes_dir@ == sandboxes@,
        call_ensures(join_host, (style, sandboxes_dir, distro), own),
        call_ensures(default_install_dir, (distro, dirs, style), r),
    ensures
        r@ == own@,
        style is Unix && plain(distro@) ==> components(r@) == components(base@).push(
            "tokimo"@,
        ).push("sandboxes"@).push(distro@),
{
    if style is Unix && plain(distro@) {
        reveal_strlit("tokimo");
        reveal_strlit("sandboxes");
        assert("tokimo"@[0] == 't' && "sandboxes"@[0] == 's');
        assert(seq!['.'][0] == '.');
        pushed_name_is_last_component(base@, "tokimo"@);
        pushed_name_is_last_component(program@, "sandboxes"@);
        pushed_name_is_last_component(sandboxes@, distro@);
    }
}

// ---------------------------------------------------------------- the start of a sandbox

/// The directory of a sandbox: the one that its configuration names, or one among the temporary
/// files that is called after the sandbox and the process.
pub open spec fn is_host_root_for<V>(
    root: Seq<char>,
    config: SandboxConfig<V>,
    temp_dir: Seq<char>,
    pid: int,
    style: PathStyle,
) -> bool {
    match config.runtime_dir {
        Some(d) => root == d@,
        None => exists|digits: Seq<char>|
            {
                &&& root == host_pushed(
                    style,
                    temp_dir,
                    #[trigger] ("tokimo-"@ + config.name@ + "-"@ + digits),
                )
                &&& number_in(digits) == pid
            },
    }
}

/// A sandbox is started once. Its own directory comes first, with the paths that the host has.
pub proof fn a_start_makes_its_directory<V>(
    sb: &mut WslSandbox<V>,
    temp_dir: String,
    pid: u32,
    style: PathStyle,
    a: StartAction,
)
    requires
        old(sb)@.wf(),
        call_ensures(
            WslSandbox::<V>::start,
            (sb, StartEvent::Begin { temp_dir, pid, style }),
            a,
        ),
    ensures
        !(old(sb)@.state is Created) ==> a == StartAction::Finish(Err(Error::AlreadyStarted))
            && final(sb)@ == old(sb)@,
        old(sb)@.state is Created ==> final(sb)@.state is Starting && final(sb)@.style == style && (
        a matches StartAction::MakeDir(d) && is_host_root_for(
            d@,
            old(sb)@.config,
            temp_dir@,
            pid as int,
            style,
        ) && final(sb)@.phase == StartPhase::Dir(d)),
        final(sb)@.config == old(sb)@.config,
        final(sb)@.wsl == old(sb)@.wsl,
        final(sb)@.id == old(sb)@.id,
{
    if old(sb)@.state is Created && old(sb)@.config.runtime_dir is None {
        let digits = decimal(pid as nat);
        decimal_is_read_back(pid as nat);
        assert(a->MakeDir_0@ == host_pushed(
            style,
            temp_dir@,
            "tokimo-"@ + old(sb)@.config.name@ + "-"@ + digits,
        ));
    }
}

/// The directory that was made is the one of the sandbox; then it is asked what distributions there
/// are.
pub proof fn a_start_asks_for_the_distributions<V>(
    sb: &mut WslSandbox<V>,
    dir: String,
    a: StartAction,
)
    requires
        old(sb)@.wf(),
        old(sb)@.phase == StartPhase::Dir(dir),
        call_ensures(WslSandbox::<V>::start, (sb, StartEvent::DirMade(Ok(()))), a),
    ensures
        final(sb)@.runtime_dir == Some(dir@),
        final(sb)@.phase is List,
        a matches StartAction::List(args) && args@.len() == 2 && args@[0]@ == "--list"@ && args@[1]@
            == "--quiet"@,
        final(sb)@.config == old(sb)@.config,
        final(sb)@.style == old(sb)@.style,
{
    let args = a->List_0;
    assert(texts(args@).len() == args@.len());
    assert(texts(args@)[0] == args@[0]@);
    assert(texts(args@)[1] == args@[1]@);
}

/// A distribution of the name that is listed is used as it is, under that name; where none is, it is
/// made, in the directory and of the root file system that were named or are meant.
pub proof fn a_listed_distribution_is_used<V>(
    sb: &mut WslSandbox<V>,
    bytes: Vec<u8>,
    dirs: HostDirs,
    listing: String,
    text: &str,
    name: &str,
    found: bool,
    dir: String,
    img: &str,
    tar: String,
    a: StartAction,
)
    requires
        old(sb)@.wf(),
        old(sb)@.phase is List,
        call_ensures(decode_wsl_text, (&bytes,), listing),
        text@ == listing@,
        is_distro_of(name@, old(sb)@.wsl, old(sb)@.id),
        call_ensures(lists_name, (text, name), found),
        call_ensures(default_install_dir, (name, &dirs, old(sb)@.style), dir),
        dirs.img_dir matches Some(d) ==> img@ == d@,
        call_ensures(join_host, (old(sb)@.style, img, "rootfs.tar"), tar),
        call_ensures(WslSandbox::<V>::start, (sb, StartEvent::Listed(Ok(bytes), dirs)), a),
    ensures
        found ==> final(sb)@.distro == Some(name@)
            && (a is RunAgent <==> old(sb)@.config.mounts@.len() > 0)
            && (a is Finish <==> old(sb)@.config.mounts@.len() == 0),
        !found ==> final(sb)@.distro == old(sb)@.distro && (a matches StartAction::MakeInstallDir(d)
            && (final(sb)@.phase matches StartPhase::InstallDir(p) && {
            &&& d@ == p.install_dir@
            &&& p.name@ == name@
            &&& match old(sb)@.wsl.install_dir {
                Some(given) => d@ == given@,
                None => d@ == dir@,
            }
            &&& match old(sb)@.wsl.rootfs_tar {
                Some(given) => p.tar@ == given@,
                None => match dirs.img_dir {
                    Some(_) => p.tar@ == tar@,
                    None => p.tar@ == "img/rootfs.tar"@,
                },
            }
        })),
        final(sb)@.config == old(sb)@.config,
        final(sb)@.runtime_dir == old(sb)@.runtime_dir,
{
}

/// A distribution that has to be made is imported under its name, into its directory and from its
/// root file system, once the directory was made and the file is there.
pub proof fn a_distribution_is_imported_as_planned<V>(
    sb: &mut WslSandbox<V>,
    ev: StartEvent,
    a: StartAction,
)
    requires
        old(sb)@.wf(),
        old(sb)@.awaits(ev),
        call_ensures(WslSandbox::<V>::start, (sb, ev), a),
    ensures
        ev matches StartEvent::InstallDirMade(Ok(_))
            ==> (old(sb)@.phase matches StartPhase::InstallDir(p)
            && (a matches StartAction::CheckTar(t) && t@
            == p.tar@) && final(sb)@.phase == StartPhase::Tar(p)),
        ev == StartEvent::TarChecked(true) ==> (old(sb)@.phase matches StartPhase::Tar(p)
            && final(sb)@.phase == StartPhase::Import(p) && (a matches StartAction::Import(args)
            && {
            &&& args@.len() == 6
            &&& args@[0]@ == "--import"@
            &&& args@[1]@ == p.name@
            &&& args@[2]@ == p.install_dir@
            &&& args@[3]@ == p.tar@
            &&& args@[4]@ == "--version"@
            &&& args@[5]@ == "2"@
        })),
        a is Import ==> ev == StartEvent::TarChecked(true),
        ev matches StartEvent::Imported(Ok(x)) ==> (x.success
            ==> (old(sb)@.phase matches StartPhase::Import(p)
            && final(sb)@.distro == Some(p.name@) && (
        a is RunAgent <==> old(sb)@.config.mounts@.len() > 0))),
{
    if let StartAction::Import(args) = a {
        let t = texts(args@);
        assert(t.len() == args@.len());
        assert(t[0] == args@[0]@ && t[1] == args@[1]@ && t[2] == args@[2]@ && t[3] == args@[3]@
            && t[4] == args@[4]@ && t[5] == args@[5]@);
    }
}

/// The agent that a start asks for is that of the mount with that index: it runs in the distribution
/// of the sandbox, is told the place of that mount in the guest and its tag, talks over its standard
/// streams, and writes its errors to a file after the tag in the directory of the sandbox. The mounts
/// come one after the other, from the first on.
pub proof fn every_mount_gets_its_own_agent<V>(
    sb: &mut WslSandbox<V>,
    ev: StartEvent,
    k: usize,
    p: AgentPlan,
    tag: Seq<char>,
)
    requires
        old(sb)@.wf(),
        old(sb)@.awaits(ev),
        call_ensures(WslSandbox::<V>::start, (sb, ev), StartAction::RunAgent(k, p)),
    ensures
        k < old(sb)@.config.mounts@.len(),
        p.args@.len() == 9,
        p.args@[0]@ == "-d"@,
        is_distro_of(p.args@[1]@, old(sb)@.wsl, old(sb)@.id),
        p.args@[2]@ == "--exec"@,
        p.args@[3]@ == "/sbin/tokimo-agent"@,
        p.args@[4]@ == "--stdio"@,
        p.args@[5]@ == "--mount"@,
        made_for_path(old(sb)@.config.mounts@[k as int], p.args@[6]@),
        p.args@[7]@ == "--tag"@,
        made_with_tag(old(sb)@.config.mounts@[k as int], p.args@[8]@),
        p.stdin_piped,
        p.stdout_piped,
        old(sb)@.runtime_dir is Some,
        made_with_tag(old(sb)@.config.mounts@[k as int], tag) ==> p.log_path@ == host_pushed(
            old(sb)@.style,
            old(sb)@.runtime_dir->0,
            "agent-"@ + tag + ".log"@,
        ),
        ev is Listed || ev is Imported || ev is AgentRun,
        ev is Listed || ev is Imported ==> k == 0,
        ev is AgentRun ==> (old(sb)@.phase matches StartPhase::Agent(j) && k == j + 1),
        final(sb)@.phase == StartPhase::Agent(k),
        final(sb)@.agents == k,
{
    let t = texts(p.args@);
    assert(t.len() == p.args@.len());
    assert(t[0] == p.args@[0]@ && t[1] == p.args@[1]@ && t[2] == p.args@[2]@ && t[3]
        == p.args@[3]@ && t[4] == p.args@[4]@);
    assert(t[5] == p.args@[5]@ && t[6] == p.args@[6]@ && t[7] == p.args@[7]@ && t[8]
        == p.args@[8]@);
}

/// Mounts that go to different places in the guest get agents that are told different places, and
/// mounts with different tags get agents that are told different tags.
pub proof fn different_mounts_get_different_agents<V>(
    sb: &mut WslSandbox<V>,
    ev: StartEvent,
    k: usize,
    p: AgentPlan,
    other: &mut WslSandbox<V>,
    other_ev: StartEvent,
    j: usize,
    q: AgentPlan,
    path: Seq<char>,
    tag: Seq<char>,
)
    requires
        old(sb)@.wf(),
        old(sb)@.awaits(ev),
        call_ensures(WslSandbox::<V>::start, (sb, ev), StartAction::RunAgent(k, p)),
        old(other)@.wf(),
        old(other)@.awaits(other_ev),
        call_ensures(WslSandbox::<V>::start, (other, other_ev), StartAction::RunAgent(j, q)),
    ensures
        made_for_path(old(sb)@.config.mounts@[k as int], path) && !made_for_path(
            old(other)@.config.mounts@[j as int],
            path,
        ) ==> p.args@[6]@ != q.args@[6]@,
        made_with_tag(old(sb)@.config.mounts@[k as int], tag) && !made_with_tag(
            old(other)@.config.mounts@[j as int],
            tag,
        ) ==> p.args@[8]@ != q.args@[8]@,
{
    let t = texts(p.args@);
    let u = texts(q.args@);
    assert(t.len() == p.args@.len() && u.len() == q.args@.len());
    assert(t[6] == p.args@[6]@ && t[8] == p.args@[8]@);
    assert(u[6] == q.args@[6]@ && u[8] == q.args@[8]@);
}

/// The log of an agent lies in the directory of its sandbox, and its name ends with the tag of its
/// mount.
pub proof fn logs_lie_in_the_directory(
    style: PathStyle,
    dir: &str,
    name: &str,
    r: String,
    tag: Seq<char>,
)
    requires
        call_ensures(join_host, (style, dir, name), r),
        name@ == "agent-"@ + tag + ".log"@,
        !tag.contains('/'),
    ensures
        style is Unix ==> components(r@) == components(dir@).push("agent-"@ + tag + ".log"@),
        style is Windows && dir@.len() > 2 && dir@[0] != '\\' && dir@.last() != '\\' && dir@.last()
            != '/' ==> r@ == dir@ + "\\"@ + ("agent-"@ + tag + ".log"@),
{
    reveal_strlit("agent-");
    reveal_strlit(".log");
    assert(name@[0] == 'a' && name@[1] == 'g');
    assert(seq!['.'][0] == '.');
    assert(!name@.contains('/')) by {
        if name@.contains('/') {
            let i = choose|i: int| 0 <= i < name@.len() && name@[i] == '/';
            if 6 <= i < 6 + tag.len() {
                assert(tag[i - 6] == '/');
            }
        }
    }
    if style is Unix {
        pushed_name_is_last_component(dir@, name@);
    }
}

/// A start ends well when every mount has its agent, and only then; the sandbox then runs.
pub proof fn a_start_ends_with_every_agent<V>(sb: &mut WslSandbox<V>, ev: StartEvent, a: StartAction)
    requires
        old(sb)@.wf(),
        old(sb)@.awaits(ev),
        call_ensures(WslSandbox::<V>::start, (sb, ev), a),
    ensures
        (a matches StartAction::Finish(Ok(_))) ==> final(sb)@.state is Running
            && final(sb)@.phase is Idle && final(sb)@.agents == old(sb)@.config.mounts@.len(),
        final(sb)@.state is Running && !(ev is Begin) ==> (a matches StartAction::Finish(Ok(_))),
        ev matches StartEvent::AgentRun(Ok(_)) ==> (old(sb)@.phase matches StartPhase::Agent(j)
            && final(sb)@.agents == j + 1 && ((a matches StartAction::Finish(Ok(_))) <==> j + 1
            == old(sb)@.config.mounts@.len())
                && (a is RunAgent <==> j + 1 < old(sb)@.config.mounts@.len())),
        final(sb)@.config == old(sb)@.config,
        final(sb)@.wsl == old(sb)@.wsl,
        final(sb)@.id == old(sb)@.id,
{
}

/// The start ended with an error of the configuration with that text.
pub open spec fn ended_by_config(a: StartAction, text: Seq<char>) -> bool {
    a matches StartAction::Finish(Err(Error::Config(m))) && m@ == text
}

/// The start ended with an error of the hypervisor with that text.
pub open spec fn ended_by_hypervisor(a: StartAction, text: Seq<char>) -> bool {
    a matches StartAction::Finish(Err(Error::Hypervisor(m))) && m@ == text
}

/// A step that fails ends the start with an error that says which one it was and why, in the words of
/// the failure; the sandbox then waits for nothing and does not run.
pub proof fn a_failed_start_says_why<V>(sb: &mut WslSandbox<V>, ev: StartEvent, a: StartAction)
    requires
        old(sb)@.wf(),
        old(sb)@.awaits(ev),
        call_ensures(WslSandbox::<V>::start, (sb, ev), a),
    ensures
        ev matches StartEvent::DirMade(Err(e)) ==> ended_by_config(a, "runtime_dir: "@ + e@),
        ev matches StartEvent::Listed(Err(e), _) ==> ended_by_hypervisor(a, "wsl --list: "@ + e@),
        ev matches StartEvent::InstallDirMade(Err(e)) ==> (
        old(sb)@.phase matches StartPhase::InstallDir(p) && ended_by_config(
            a,
            "create "@ + path_debug_of(p.install_dir@) + ": "@ + e@,
        )),
        ev == StartEvent::TarChecked(false) ==> (old(sb)@.phase matches StartPhase::Tar(p)
            && ended_by_config(
            a,
            "rootfs tarball not found at "@ + path_debug_of(p.tar@)
                + " — run scripts/image/build.sh (WSL backend expects a .tar, not .squashfs)"@,
        )),
        ev matches StartEvent::Imported(Err(e)) ==> ended_by_hypervisor(a, "wsl --import: "@ + e@),
        ev matches StartEvent::Imported(Ok(x)) ==> (!x.success ==> ended_by_hypervisor(
            a,
            "wsl --import exited "@ + x.status@,
        )),
        ev matches StartEvent::AgentRun(Err(AgentFailure::Log(e))) ==> ended_by_config(
            a,
            "agent log: "@ + e@,
        ),
        ev matches StartEvent::AgentRun(Err(f)) ==> (f is Stdin ==> ended_by_hypervisor(
            a,
            "child stdin"@,
        )) && (f is Stdout ==> ended_by_hypervisor(a, "child stdout"@)),
        !(ev is Begin) && (a matches StartAction::Finish(Err(_))) ==> final(sb)@.phase is Idle
            && final(sb)@.state == old(sb)@.state,
{
}

/// The error for an agent that cannot be run names the mount by its index.
pub proof fn a_failed_agent_is_named<V>(
    sb: &mut WslSandbox<V>,
    j: usize,
    e: String,
    a: StartAction,
)
    requires
        old(sb)@.wf(),
        old(sb)@.phase == StartPhase::Agent(j),
        call_ensures(
            WslSandbox::<V>::start,
            (sb, StartEvent::AgentRun(Err(AgentFailure::Spawn(e)))),
            a,
        ),
    ensures
        a matches StartAction::Finish(Err(Error::Hypervisor(m))) && exists|digits: Seq<char>|
            m@ == #[trigger] ("spawn wsl agent #"@ + digits + ": "@ + e@) && number_in(digits) == j,
{
    decimal_is_read_back(j as nat);
    let digits = decimal(j as nat);
    let m = a->Finish_0->Err_0->Hypervisor_0;
    assert(m@ == "spawn wsl agent #"@ + digits + ": "@ + e@);
}

// ---------------------------------------------------------------- commands

/// A command is run in the distribution: the program first and then its arguments, all of them and in
/// their order, with the environment and the directory that were asked for. Without a distribution
/// nothing can be run.
pub proof fn a_command_is_run_as_asked<V>(
    sb: &WslSandbox<V>,
    spec: ExecSpec,
    r: Result<ExecPlan, Error>,
    i: int,
)
    requires
        sb@.wf(),
        call_ensures(WslSandbox::<V>::exec, (sb, spec), r),
    ensures
        r is Ok <==> sb@.distro is Some,
        r matches Err(e) ==> e is Hypervisor,
        r matches Ok(p) ==> {
            &&& p.args@.len() == 4 + spec.args@.len()
            &&& p.args@[0]@ == "-d"@
            &&& is_distro_of(p.args@[1]@, sb@.wsl, sb@.id)
            &&& p.args@[2]@ == "--exec"@
            &&& p.args@[3]@ == spec.program@
            &&& 0 <= i < spec.args@.len() ==> p.args@[4 + i]@ == spec.args@[i]@
            &&& p.env == spec.env
            &&& p.cwd == spec.cwd
        },
{
    if let Ok(p) = r {
        let t = texts(p.args@);
        assert(t.len() == p.args@.len());
        assert(texts(spec.args@).len() == spec.args@.len());
        assert(t[0] == p.args@[0]@ && t[1] == p.args@[1]@ && t[2] == p.args@[2]@ && t[3]
            == p.args@[3]@);
        if 0 <= i < spec.args@.len() {
            assert(t[4 + i] == p.args@[4 + i]@);
            assert(texts(spec.args@)[i] == spec.args@[i]@);
        }
    }
}

/// What a command printed and how it ended comes through; where it could not be run, the error ends
/// with the reason.
pub proof fn what_a_command_left_comes_through<V>(
    output: Result<RawOutput, String>,
    r: Result<ExecOutput, Error>,
)
    requires
        call_ensures(WslSandbox::<V>::exec_done, (output,), r),
    ensures
        output matches Ok(o) ==> (r matches Ok(x) && x.exit_code == o.exit_code && x.stdout
            == o.stdout && x.stderr == o.stderr),
        output matches Err(why) ==> (r matches Err(Error::Hypervisor(m)) && m@ == "wsl exec: "@
            + why@),
{
}

// ---------------------------------------------------------------- a stop

/// A stop ends the distribution of the sandbox, where there is one, and every agent; a sandbox that is
/// stopped is left alone.
pub proof fn a_stop_ends_the_distribution<V>(sb: &mut WslSandbox<V>, a: StopAction)
    requires
        old(sb)@.wf(),
        call_ensures(WslSandbox::<V>::stop, (sb,), a),
    ensures
        old(sb)@.state is Stopped ==> a is Nothing && final(sb)@ == old(sb)@,
        !(old(sb)@.state is Stopped) ==> final(sb)@.state is Stopping && final(sb)@.agents == 0 && (
        a matches StopAction::End(args) && (args is Some <==> old(sb)@.distro is Some) && (
        args matches Some(t) ==> t@.len() == 2 && t@[0]@ == "--terminate"@ && is_distro_of(
            t@[1]@,
            old(sb)@.wsl,
            old(sb)@.id,
        ))),
        final(sb)@.config == old(sb)@.config,
{
    if let StopAction::End(Some(t)) = a {
        assert(texts(t@).len() == t@.len());
        assert(texts(t@)[0] == t@[0]@ && texts(t@)[1] == t@[1]@);
    }
}

/// Once its distribution has ended, a sandbox is stopped and otherwise as it was.
pub proof fn an_ended_sandbox_is_stopped<V>(sb: &mut WslSandbox<V>)
    requires
        old(sb)@.wf(),
        old(sb)@.state is Stopping,
        call_ensures(WslSandbox::<V>::stopped, (sb,), ()),
    ensures
        final(sb)@ == (WslView { state: SandboxState::Stopped, ..old(sb)@ }),
{
}

/// A sandbox that was waited for is stopped and has no agents.
pub proof fn a_waited_sandbox_is_stopped<V>(sb: &mut WslSandbox<V>)
    requires
        old(sb)@.wf(),
        call_ensures(WslSandbox::<V>::waited, (sb,), ()),
    ensures
        final(sb)@.state is Stopped,
        final(sb)@.agents == 0,
        final(sb)@.config == old(sb)@.config,
        final(sb)@.distro == old(sb)@.distro,
        final(sb)@.runtime_dir == old(sb)@.runtime_dir,
{
}

// ---------------------------------------------------------------- what a sandbox says of itself

/// A new sandbox is as configured and has not been started.
pub proof fn a_new_sandbox_is_as_configured<V>(
    config: SandboxConfig<V>,
    wsl: WslConfig,
    plain_one: WslSandbox<V>,
    r: WslSandbox<V>,
)
    requires
        call_ensures(WslSandbox::<V>::new, (config,), plain_one),
        call_ensures(WslSandbox::<V>::with_wsl_config, (config, wsl), r),
    ensures
        r@.config == config,
        r@.wsl == wsl,
        r@.state is Created,
        r@.distro is None,
        r@.runtime_dir is None,
        r@.wf(),
        plain_one@.config == config,
        plain_one@.state is Created,
        plain_one@.wf(),
{
}

/// A sandbox tells what it is.
pub proof fn a_sandbox_tells_what_it_is<V>(
    sb: &WslSandbox<V>,
    id: SandboxId,
    state: SandboxState,
    config: &SandboxConfig<V>,
    bin: &str,
)
    requires
        call_ensures(WslSandbox::<V>::id, (sb,), id),
        call_ensures(WslSandbox::<V>::state, (sb,), state),
        call_ensures(WslSandbox::<V>::config, (sb,), config),
        call_ensures(WslSandbox::<V>::wsl_bin, (sb,), bin),
    ensures
        id == sb@.id,
        state == sb@.state,
        *config == sb@.config,
        bin@ == sb@.wsl.wsl_bin@,
{
}

/// The log of the serial console lies in the directory of the sandbox, once there is one.
pub proof fn the_log_lies_in_the_directory<V>(
    sb: &WslSandbox<V>,
    dir: &str,
    at: String,
    r: Option<String>,
)
    requires
        sb@.runtime_dir is Some ==> dir@ == sb@.runtime_dir->0,
        call_ensures(join_host, (sb@.style, dir, "serial.log"), at),
        call_ensures(WslSandbox::<V>::serial_log_path, (sb,), r),
    ensures
        sb@.runtime_dir is Some ==> opt_text(r) == Some(at@),
        sb@.runtime_dir is None ==> r is None,
{
}

/// What is served from a mount is what it names.
pub proof fn mounts_are_served_from_what_they_name<V>(
    sb: &WslSandbox<V>,
    i: usize,
    served: Served<'_, V>,
)
    requires
        i < sb@.config.mounts@.len(),
        call_ensures(WslSandbox::<V>::mount_served, (sb, i), served),
    ensures
        match sb@.config.mounts@[i as int] {
            MountSpec::HostDir { host_path, read_only, .. } => served matches Served::Host(fs)
                && fs.spec_root() == host_path@ && fs.spec_read_only() == read_only,
            MountSpec::Vfs { vfs, .. } => served matches Served::Vfs(v) && *v == vfs,
        },
{
}

/// It is looked up in a list of distributions whether the one of the sandbox is there: where it is,
/// it is used; where it is not, its disk gets a directory first, the one that was named or one after
/// its name.
pub proof fn a_distribution_is_used_or_made<V>(
    sb: &mut WslSandbox<V>,
    listing: &str,
    dirs: &HostDirs,
    name: &str,
    found: bool,
    dir: String,
    a: StartAction,
)
    requires
        old(sb)@.wf(),
        old(sb)@.phase is List,
        is_distro_of(name@, old(sb)@.wsl, old(sb)@.id),
        call_ensures(lists_name, (listing, name), found),
        call_ensures(default_install_dir, (name, dirs, old(sb)@.style), dir),
        call_ensures(WslSandbox::<V>::ensure_distro, (sb, listing, dirs), a),
    ensures
        found ==> final(sb)@.distro == Some(name@) && !(a is MakeInstallDir),
        !found ==> final(sb)@.distro == old(sb)@.distro && (a matches StartAction::MakeInstallDir(d)
            && match old(sb)@.wsl.install_dir {
            Some(given) => d@ == given@,
            None => d@ == dir@,
        }),
{
}

/// Mounts cannot be added to a sandbox or taken from it: that is refused and changes nothing.
pub proof fn mounts_stay_as_they_are<V>(
    sb: &mut WslSandbox<V>,
    spec: MountSpec<V>,
    added: Result<MountId, Error>,
    other: &mut WslSandbox<V>,
    id: MountId,
    removed: Result<(), Error>,
)
    requires
        call_ensures(WslSandbox::<V>::add_mount, (sb, spec), added),
        call_ensures(WslSandbox::<V>::remove_mount, (other, id), removed),
    ensures
        added matches Err(Error::Unsupported(_)),
        removed matches Err(Error::Unsupported(_)),
        final(sb)@ == old(sb)@,
        final(other)@ == old(other)@,
{
}

} // verus!
