//! What the macOS backend is for: laws over what is configured, asked and run.

use vstd::prelude::*;

use crate::cmdline::{build_cmdline, command_line_names_every_mount};
use crate::config::{
    made_for_path, made_with_tag, mount_pairs, mount_pairs_of, ExecOutput, ExecSpec, ImageDir,
    ImagePaths, MountSpec, SandboxConfig, Served,
};
use crate::error::Error;
use crate::ids::{MountId, SandboxId};
use crate::linux::laws::{is_root_for, lemma_no_first_image, lemma_one_first_image};
use crate::macos::runtime::Runtime;
use crate::macos::sandbox::{MacosSandbox, StartAction, StartEvent, StartPhase, StopAction};
use crate::macos::vm::{
    start_outcome, stop_outcome, vm_error, Asker, Device, VmCmd, VmLoop, VmPlan, VmStage, VmStep,
};
use crate::path::{components, pushed, pushed_name_is_last_component};
use crate::state::SandboxState;
use crate::text::{decimal, decimal_is_read_back, opt_text, texts};

verus! {

// ---------------------------------------------------------------- the machine

/// The device with that index.
pub open spec fn device_at(r: Vec<Device>, k: int) -> Device {
    r@[k]
}

/// The machine has the devices that are wanted, and no other: a console that is written to the log;
/// a port for each name, where there are names; randomness; the root file system, which cannot be
/// written, where there is one; and a network card where it is wanted.
pub proof fn the_machine_has_the_wanted_devices(p: &VmPlan, r: Vec<Device>)
    requires
        call_ensures(VmPlan::devices, (p,), r),
    ensures
        r@.len() == 2 + (if p.ports@.len() > 0 {
            1int
        } else {
            0int
        }) + (if p.rootfs is Some {
            1int
        } else {
            0int
        }) + (if p.use_nat {
            1int
        } else {
            0int
        }),
        r@[0] matches Device::SerialLog(log) && log@ == p.serial_log@,
        p.ports@.len() > 0 ==> (r@[1] matches Device::ConsolePorts(names) && texts(names@) == texts(
            p.ports@,
        )),
        p.rootfs matches Some(f) ==> (device_at(
            r,
            if p.ports@.len() > 0 {
                3
            } else {
                2
            },
        ) matches Device::Disk { path, read_only } && path@ == f@ && read_only),
        p.use_nat ==> r@[r@.len() - 1] is Nat,
        exists|k: int| 0 <= k < r@.len() && #[trigger] r@[k] is Entropy,
{
    let views = r@.map_values(|d: Device| d@);
    assert(views.len() == r@.len());
    assert forall|k: int| 0 <= k < r@.len() implies views[k] == (#[trigger] r@[k])@ by {}
    assert(views[0] == r@[0]@);
    assert(views[1] == r@[1]@);
    if p.ports@.len() > 0 {
        assert(views[2] == r@[2]@);
        assert(r@[2] is Entropy);
        if p.rootfs is Some {
            assert(views[3] == r@[3]@);
        }
    } else {
        assert(r@[1] is Entropy);
        if p.rootfs is Some {
            assert(views[2] == r@[2]@);
        }
    }
    assert(views[r@.len() - 1] == r@[r@.len() - 1]@);
}

/// A failure is reported with its own words last; one of the files or of the configuration as an
/// error of the configuration, and any other as one of the hypervisor.
pub proof fn failures_are_reported_in_their_words(stage: VmStage, detail: &str, e: Error)
    requires
        call_ensures(vm_error, (stage, detail), e),
    ensures
        e is Config <==> stage is KernelPath || stage is InitrdPath || stage is RootfsPath
            || stage is Validate,
        e is Hypervisor <==> stage is RootfsAttach || stage is Start || stage is Stop,
        e matches Error::Config(m) ==> {
            &&& stage is KernelPath ==> m@ == "kernel path: "@ + detail@
            &&& stage is InitrdPath ==> m@ == "initrd path: "@ + detail@
            &&& stage is RootfsPath ==> m@ == "rootfs: "@ + detail@
            &&& stage is Validate ==> m@ == "VZ config invalid: "@ + detail@
        },
        e matches Error::Hypervisor(m) ==> {
            &&& stage is RootfsAttach ==> m@ == "rootfs attach: "@ + detail@
            &&& stage is Start ==> m@ == "VM start: "@ + detail@
            &&& stage is Stop ==> m@ == "VM stop: "@ + detail@
        },
{
}

/// What the framework reports of a start or a stop is what comes out: success, its error, or, where
/// nothing is reported, an error.
pub proof fn reports_come_through(
    report: Option<Result<(), String>>,
    started: Result<(), Error>,
    stopped: Result<(), Error>,
)
    requires
        call_ensures(start_outcome, (report,), started),
        call_ensures(stop_outcome, (report,), stopped),
    ensures
        started is Ok <==> (report matches Some(Ok(_))),
        stopped is Ok <==> (report matches Some(Ok(_))),
        report matches Some(Err(e)) ==> (started matches Err(Error::Hypervisor(m)) && m@
            == "VM start: "@ + e@),
        report matches Some(Err(e)) ==> (stopped matches Err(Error::Hypervisor(m)) && m@
            == "VM stop: "@ + e@),
{
}

// ---------------------------------------------------------------- the thread

/// A command is answered at once where the machine has stopped; else whoever waits is remembered, in
/// their order, and whoever wants it stopped has it asked to stop.
pub proof fn commands_are_taken<W>(l: &mut VmLoop<W>, cmd: VmCmd<W>, r: VmStep<W>)
    requires
        old(l)@.wf(),
        call_ensures(VmLoop::<W>::handle, (l, cmd), r),
    ensures
        final(l)@.stopped == old(l)@.stopped,
        old(l)@.stopped ==> (cmd matches VmCmd::Stop(w) ==> (r matches VmStep::Answer(n)
            && n@.len() == 1 && n@[0].to == w && n@[0].result is Ok)),
        old(l)@.stopped ==> (cmd matches VmCmd::Wait(w) ==> (r matches VmStep::Answer(n)
            && n@.len() == 1 && n@[0].to == w && n@[0].result is Ok)),
        old(l)@.stopped && cmd is Shutdown ==> (r matches VmStep::End(n) && n@.len() == 0),
        !old(l)@.stopped ==> (cmd matches VmCmd::Stop(w) ==> r == VmStep::RequestStop(
            Asker::Stop(w),
        ) && final(l)@.waiters == old(l)@.waiters),
        !old(l)@.stopped ==> (cmd matches VmCmd::Wait(w) ==> (r matches VmStep::Answer(n)
            && n@.len() == 0) && final(l)@.waiters == old(l)@.waiters.push(w)),
        !old(l)@.stopped && cmd is Shutdown ==> r == VmStep::<W>::RequestStop(Asker::Shutdown)
            && final(l)@.waiters == old(l)@.waiters,
{
}

/// Where the machine stopped, everybody who waited is told so, each once and in their order, and then
/// whoever wanted it; where it did not, only they are told, and everybody else waits on. A thread
/// that is to end tells everybody and leaves nobody waiting.
pub proof fn everybody_is_told_once<W>(
    l: &mut VmLoop<W>,
    asker: Asker<W>,
    outcome: Result<(), Error>,
    r: VmStep<W>,
    i: int,
)
    requires
        old(l)@.wf(),
        !old(l)@.stopped,
        call_ensures(VmLoop::<W>::stop_asked, (l, asker, outcome), r),
    ensures
        asker matches Asker::Stop(w) ==> (r matches VmStep::Answer(n) && {
            let k = old(l)@.waiters.len() as int;
            &&& outcome is Ok ==> n@.len() == k + 1 && n@[k].to == w && n@[k].result is Ok && (0
                <= i < k ==> n@[i].to == old(l)@.waiters[i] && n@[i].result is Ok)
                && final(l)@.stopped && final(l)@.waiters.len() == 0
            &&& outcome is Err ==> n@.len() == 1 && n@[0].to == w && n@[0].result == outcome
                && final(l)@ == old(l)@
        }),
        asker is Shutdown ==> (r matches VmStep::End(n) && n@.len() == old(l)@.waiters.len() && (0
            <= i < n@.len() ==> n@[i].to == old(l)@.waiters[i] && n@[i].result is Ok)
            && final(l)@.waiters.len() == 0),
{
}

/// A thread begins with a machine that runs and nobody who waits.
pub proof fn a_thread_begins_alone<W>(l: VmLoop<W>)
    requires
        call_ensures(VmLoop::<W>::new, (), l),
    ensures
        !l@.stopped,
        l@.waiters.len() == 0,
        l@.wf(),
{
}

// ---------------------------------------------------------------- a start

/// A sandbox is started once, in its own directory, with the image that is configured; where none
/// is, one is searched for.
pub proof fn a_start_begins_with_files_and_image<V>(
    sb: &mut MacosSandbox<V>,
    temp_dir: String,
    pid: u32,
    a: StartAction,
)
    requires
        old(sb)@.wf(),
        call_ensures(
            MacosSandbox::<V>::start,
            (sb, StartEvent::Begin { temp_dir, pid }),
            a,
        ),
    ensures
        !(old(sb)@.state is Created) ==> a == StartAction::Finish(Err(Error::AlreadyStarted))
            && final(sb)@ == old(sb)@,
        old(sb)@.state is Created ==> final(sb)@.state is Starting && (a is SearchImage
            <==> old(sb)@.config.image is None)
                && (a is MakeRuntime <==> old(sb)@.config.image is Some),
        a matches StartAction::MakeRuntime(rt) ==> is_root_for(
            rt.root@,
            old(sb)@.config,
            temp_dir@,
            pid as int,
        ) && components(rt.serial_log@) == components(rt.root@).push("serial.log"@) && (
        final(sb)@.phase matches StartPhase::Runtime(r, image) && r == rt && old(sb)@.config.image
            == Some(image)),
        a is SearchImage ==> (final(sb)@.phase matches StartPhase::Image(rt) && is_root_for(
            rt.root@,
            old(sb)@.config,
            temp_dir@,
            pid as int,
        ) && components(rt.serial_log@) == components(rt.root@).push("serial.log"@)),
        final(sb)@.config == old(sb)@.config,
{
    reveal_strlit("serial.log");
    assert(seq!['.'][0] == '.');
    decimal_is_read_back(pid as nat);
    if old(sb)@.state is Created {
        let rt = if let StartAction::MakeRuntime(rt) = a {
            rt
        } else {
            final(sb)@.phase->Image_0
        };
        pushed_name_is_last_component(rt.root@, "serial.log"@);
        if old(sb)@.config.runtime_dir is None {
            let digits = decimal(pid as nat);
            assert(rt.root@ == pushed(
                temp_dir@,
                "tokimo-"@ + old(sb)@.config.name@ + "-"@ + digits,
            ));
        }
    }
}

/// The ports of the mounts are opened one after the other, from the first to the last, each under
/// the name of its mount; then the machine is launched.
pub proof fn every_port_is_opened_in_turn<V>(
    sb: &mut MacosSandbox<V>,
    ev: StartEvent,
    a: StartAction,
    tag: Seq<char>,
)
    requires
        old(sb)@.wf(),
        old(sb)@.awaits(ev),
        call_ensures(MacosSandbox::<V>::start, (sb, ev), a),
    ensures
        a matches StartAction::OpenPort(k, n) ==> {
            &&& k < old(sb)@.config.mounts@.len()
            &&& made_with_tag(old(sb)@.config.mounts@[k as int], tag) ==> n@ == "tokimo.rpc."@ + tag
            &&& ev is RuntimeMade || ev is PortOpened
            &&& ev is RuntimeMade ==> k == 0
            &&& ev is PortOpened ==> (old(sb)@.phase matches StartPhase::Port(_, _, j) && k == j
                + 1)
        },
        a is Launch ==> {
            &&& ev is RuntimeMade || ev is PortOpened
            &&& ev is RuntimeMade ==> old(sb)@.config.mounts@.len() == 0
            &&& ev is PortOpened ==> (old(sb)@.phase matches StartPhase::Port(_, _, j) && j + 1
                == old(sb)@.config.mounts@.len())
        },
        final(sb)@.config == old(sb)@.config,
{
}

/// What a start launches is the sandbox as it is configured: its processors, its memory to the byte,
/// the image, the log, the network where it is wanted, and for every mount a port that is called
/// after its tag and of which the guest is told.
pub proof fn a_start_launches_the_configured_sandbox<V>(
    sb: &mut MacosSandbox<V>,
    ev: StartEvent,
    p: VmPlan,
    image: ImagePaths,
    i: int,
    tag: Seq<char>,
    path: Seq<char>,
)
    requires
        old(sb)@.wf(),
        old(sb)@.awaits(ev),
        call_ensures(MacosSandbox::<V>::start, (sb, ev), StartAction::Launch(p)),
        (old(sb)@.phase matches StartPhase::Runtime(_, m) && m == image) || (
        old(sb)@.phase matches StartPhase::Port(_, m, _) && m == image),
    ensures
        p.vcpus == old(sb)@.config.vcpus,
        p.memory_bytes == old(sb)@.config.memory_mib * 1_048_576,
        p.kernel@ == image.kernel@,
        p.initrd@ == image.initrd@,
        p.rootfs is Some <==> image.rootfs is Some,
        p.rootfs matches Some(f) ==> f@ == image.rootfs->0@,
        p.use_nat == old(sb)@.config.network.user_mode,
        p.ports@.len() == old(sb)@.config.mounts@.len(),
        final(sb)@.phase matches StartPhase::Launch(rt) && p.serial_log@ == rt.serial_log@,
        0 <= i < old(sb)@.config.mounts@.len() && made_with_tag(old(sb)@.config.mounts@[i], tag)
            ==> p.ports@[i]@ == "tokimo.rpc."@ + tag,
        0 <= i < old(sb)@.config.mounts@.len() && made_with_tag(old(sb)@.config.mounts@[i], tag)
            && made_for_path(old(sb)@.config.mounts@[i], path)
                ==> exists|a: Seq<char>, b: Seq<char>|
            p.cmdline@ == #[trigger] (a + (tag + ":"@ + path) + b),
{
    let config = old(sb)@.config;
    assert(texts(p.ports@).len() == p.ports@.len());
    if 0 <= i < config.mounts@.len() {
        assert(texts(p.ports@)[i] == p.ports@[i]@);
        let pairs = mount_pairs_of(config.mounts@);
        command_line_names_every_mount(
            "hvc0"@,
            texts(config.extra_cmdline@),
            pairs,
            image.rootfs is Some,
            i,
        );
        assert(pairs[i] == (config.mounts@[i].spec_tag(), config.mounts@[i].spec_guest_path()));
    }
}

/// The sandbox runs where its machine was started, and only then; a start that fails leaves a sandbox
/// that has failed, with the error as it came.
pub proof fn a_start_runs_or_fails<V>(sb: &mut MacosSandbox<V>, ev: StartEvent, a: StartAction)
    requires
        old(sb)@.wf(),
        old(sb)@.awaits(ev),
        call_ensures(MacosSandbox::<V>::start, (sb, ev), a),
    ensures
        (a matches StartAction::Finish(Ok(_))) <==> (ev matches StartEvent::Launched(
            Ok(Some(Ok(_))),
        )),
        (a matches StartAction::Finish(Ok(_))) ==> final(sb)@.state is Running && final(sb)@.inner
            && (
        old(sb)@.phase matches StartPhase::Launch(rt) && final(sb)@.serial_log == Some(
            rt.serial_log@,
        )),
        !(ev is Begin) && (a matches StartAction::Finish(Err(_))) ==> final(sb)@.state is Failed,
        ev matches StartEvent::RuntimeMade(Err(e)) ==> a == StartAction::Finish(Err(Error::Io(e))),
        ev matches StartEvent::PortOpened(Err(e)) ==> a == StartAction::Finish(Err(Error::Io(e))),
        ev matches StartEvent::Launched(Err(e)) ==> a == StartAction::Finish(Err(Error::Io(e))),
        ev matches StartEvent::Launched(Ok(Some(Err(e)))) ==> a == StartAction::Finish(Err(e)),
        ev == StartEvent::Launched(Ok(None)) ==> (a matches StartAction::Finish(Err(_))),
{
}

// ---------------------------------------------------------------- a stop

/// A sandbox with a machine is stopped by its thread; one without is stopped at once; one that
/// neither runs nor is being started is left alone.
pub proof fn a_stop_asks_the_thread<V>(sb: &mut MacosSandbox<V>, a: StopAction)
    requires
        old(sb)@.wf(),
        call_ensures(MacosSandbox::<V>::stop, (sb,), a),
    ensures
        old(sb)@.state is Running ==> a is AskThread && final(sb)@.state is Stopping,
        old(sb)@.state is Starting ==> a is Nothing && final(sb)@.state is Stopped || a is AskThread
            && final(sb)@.state is Stopping && old(sb)@.inner,
        !(old(sb)@.state is Running || old(sb)@.state is Starting) ==> a is Nothing && final(sb)@
            == old(sb)@,
        final(sb)@.config == old(sb)@.config,
{
}

/// A sandbox is stopped once its thread says so, or has ended; where its machine could not be
/// stopped it is not, and the error comes through.
pub proof fn a_stop_is_what_the_thread_says<V>(
    sb: &mut MacosSandbox<V>,
    reply: Option<Result<(), Error>>,
    r: Result<(), Error>,
)
    requires
        old(sb)@.wf(),
        old(sb)@.state is Stopping,
        call_ensures(MacosSandbox::<V>::thread_stopped, (sb, reply), r),
    ensures
        reply matches Some(Err(e)) ==> r == Err::<(), Error>(e) && final(sb)@ == old(sb)@,
        !(reply matches Some(Err(_))) ==> r is Ok && final(sb)@.state is Stopped,
        final(sb)@.config == old(sb)@.config,
        final(sb)@.id == old(sb)@.id,
        final(sb)@.serial_log == old(sb)@.serial_log,
{
}

/// There is something to wait for exactly where a thread owns a machine.
pub proof fn a_machine_is_waited_for<V>(sb: &MacosSandbox<V>, w: bool)
    requires
        call_ensures(MacosSandbox::<V>::wait, (sb,), w),
    ensures
        w <==> sb@.inner,
{
}

/// A machine that is waited for leaves a sandbox that is stopped, unless it cannot be waited for.
pub proof fn a_waited_sandbox_is_stopped<V>(
    sb: &mut MacosSandbox<V>,
    before: &MacosSandbox<V>,
    w: bool,
    reply: Option<Result<(), Error>>,
    r: Result<(), Error>,
)
    requires
        old(sb)@.wf(),
        old(sb)@.inner,
        before@ == old(sb)@,
        call_ensures(MacosSandbox::<V>::wait, (before,), w),
        call_ensures(MacosSandbox::<V>::waited, (sb, reply), r),
    ensures
        w,
        reply matches Some(Err(e)) ==> r == Err::<(), Error>(e) && final(sb)@ == old(sb)@,
        !(reply matches Some(Err(_))) ==> r is Ok && final(sb)@.state is Stopped,
        final(sb)@.config == old(sb)@.config,
        final(sb)@.id == old(sb)@.id,
        final(sb)@.serial_log == old(sb)@.serial_log,
{
}

// ---------------------------------------------------------------- what a sandbox says of itself

/// A sandbox tells what it is; a new one is as configured and has not been started.
pub proof fn a_sandbox_tells_what_it_is<V>(
    config: SandboxConfig<V>,
    fresh: MacosSandbox<V>,
    sb: &MacosSandbox<V>,
    id: SandboxId,
    state: SandboxState,
    c: &SandboxConfig<V>,
    log: Option<String>,
)
    requires
        call_ensures(MacosSandbox::<V>::new, (config,), fresh),
        call_ensures(MacosSandbox::<V>::id, (sb,), id),
        call_ensures(MacosSandbox::<V>::state, (sb,), state),
        call_ensures(MacosSandbox::<V>::config, (sb,), c),
        call_ensures(MacosSandbox::<V>::serial_log_path, (sb,), log),
    ensures
        fresh@.state is Created,
        fresh@.config == config,
        fresh@.serial_log is None,
        fresh@.wf(),
        id == sb@.id,
        state == sb@.state,
        *c == sb@.config,
        opt_text(log) == sb@.serial_log,
{
}

/// What is served from a mount is what it names.
pub proof fn mounts_are_served_from_what_they_name<V>(
    sb: &MacosSandbox<V>,
    i: usize,
    served: Served<'_, V>,
)
    requires
        i < sb@.config.mounts@.len(),
        call_ensures(MacosSandbox::<V>::mount_served, (sb, i), served),
    ensures
        match sb@.config.mounts@[i as int] {
            MountSpec::HostDir { host_path, read_only, .. } => served matches Served::Host(fs)
                && fs.spec_root() == host_path@ && fs.spec_read_only() == read_only,
            MountSpec::Vfs { vfs, .. } => served matches Served::Vfs(v) && *v == vfs,
        },
{
}

/// Mounts cannot be added to a sandbox or taken from it, and no command can be run in it: that is
/// refused and changes nothing.
pub proof fn mounts_stay_as_they_are<V>(
    sb: &mut MacosSandbox<V>,
    spec: MountSpec<V>,
    added: Result<MountId, Error>,
    other: &mut MacosSandbox<V>,
    id: MountId,
    removed: Result<(), Error>,
    third: &MacosSandbox<V>,
    command: ExecSpec,
    done: Result<ExecOutput, Error>,
)
    requires
        call_ensures(MacosSandbox::<V>::add_mount, (sb, spec), added),
        call_ensures(MacosSandbox::<V>::remove_mount, (other, id), removed),
        call_ensures(MacosSandbox::<V>::exec, (third, command), done),
    ensures
        added matches Err(Error::Unsupported(_)),
        removed matches Err(Error::Unsupported(_)),
        done matches Err(Error::Unsupported(_)),
        final(sb)@ == old(sb)@,
        final(other)@ == old(other)@,
{
}

/// A copy of the paths of a sandbox names the same files.
pub proof fn copied_paths_are_the_same(rt: &Runtime, r: Runtime)
    requires
        call_ensures(Runtime::copied, (rt,), r),
    ensures
        r == *rt,
{
}

/// The guest of a start gets the line that is built of what is configured: the console, what the
/// configuration adds, every mount, and the root file system where the image has one. The thread of
/// the machine is called after the sandbox.
pub proof fn a_start_passes_the_built_line<V>(
    sb: &mut MacosSandbox<V>,
    ev: StartEvent,
    p: VmPlan,
    image: ImagePaths,
    pairs: Vec<(String, String)>,
    line: String,
)
    requires
        old(sb)@.wf(),
        old(sb)@.awaits(ev),
        call_ensures(MacosSandbox::<V>::start, (sb, ev), StartAction::Launch(p)),
        (old(sb)@.phase matches StartPhase::Runtime(_, m) && m == image) || (
        old(sb)@.phase matches StartPhase::Port(_, m, _) && m == image),
        call_ensures(mount_pairs::<V>, (&old(sb)@.config.mounts,), pairs),
        call_ensures(
            build_cmdline,
            ("hvc0", &old(sb)@.config.extra_cmdline, &pairs, image.rootfs is Some),
            line,
        ),
    ensures
        p.cmdline@ == line@,
        p.thread_name@ == "tokimo-macos-vm-"@ + old(sb)@.config.name@,
{
}

/// Where no image is configured the first directory that holds one supplies it; where none does the
/// start fails.
pub proof fn a_start_takes_the_image_that_was_found<V>(
    sb: &mut MacosSandbox<V>,
    rt: Runtime,
    dirs: Vec<ImageDir>,
    a: StartAction,
    found: Option<ImagePaths>,
)
    requires
        old(sb)@.wf(),
        old(sb)@.phase == StartPhase::Image(rt),
        call_ensures(MacosSandbox::<V>::start, (sb, StartEvent::ImageSearched(dirs)), a),
        call_ensures(ImagePaths::from_env_or_default, (&dirs,), found),
    ensures
        found is None ==> (a matches StartAction::Finish(Err(Error::Config(_))))
            && final(sb)@.state is Failed,
        found matches Some(f) ==> a == StartAction::MakeRuntime(rt) && (
        final(sb)@.phase matches StartPhase::Runtime(r, image) && r == rt && image.kernel@
            == f.kernel@ && image.initrd@ == f.initrd@ && opt_text(image.rootfs) == opt_text(
            f.rootfs,
        )),
{
    if found is Some {
        if exists|image: ImagePaths| #[trigger] ImagePaths::is_first_in(Some(image), dirs@) && a
            == StartAction::MakeRuntime(rt) && final(sb)@.phase == StartPhase::Runtime(rt, image) {
            let image = choose|image: ImagePaths| #[trigger]
                ImagePaths::is_first_in(Some(image), dirs@) && a == StartAction::MakeRuntime(rt)
                    && final(sb)@.phase == StartPhase::Runtime(rt, image);
            lemma_one_first_image(dirs@, image, found->0);
        } else {
            lemma_no_first_image(dirs@, found->0);
        }
    } else {
        assert forall|x: ImagePaths| !ImagePaths::is_first_in(Some(x), dirs@) by {
            lemma_no_first_image(dirs@, x);
        }
    }
}

} // verus!
