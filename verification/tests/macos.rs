use tokimo_vm::config::{
    ExecSpec, ImageDir, ImagePaths, MountSpec, NetworkSpec, SandboxConfig, Served,
};
use tokimo_vm::error::{Error, IoErrorKind, IoFailure};
use tokimo_vm::ids::MountId;
use tokimo_vm::macos::runtime::{default_runtime_root, Runtime};
use tokimo_vm::macos::sandbox::{MacosSandbox, StartAction, StartEvent, StopAction};
use tokimo_vm::macos::vm::{
    start_outcome, stop_outcome, vm_error, Asker, Device, Notice, VmCmd, VmLoop, VmPlan, VmStage,
    VmStep,
};
use tokimo_vm::state::SandboxState;

fn s(t: &str) -> String {
    t.to_string()
}

fn config() -> SandboxConfig<u8> {
    SandboxConfig::new(s("demo")).memory_mib(512).mount(MountSpec::Vfs {
        guest_path: s("/mnt/mem"),
        vfs: 7,
        read_only: false,
        tag: s("mem"),
    })
}

fn image(rootfs: Option<&str>) -> ImagePaths {
    ImagePaths { kernel: s("/k"), initrd: s("/i"), rootfs: rootfs.map(s) }
}

fn told(n: Vec<Notice<u32>>) -> Vec<(u32, Result<(), Error>)> {
    n.into_iter().map(|x| (x.to, x.result)).collect()
}

fn answers(step: VmStep<u32>) -> Vec<(u32, Result<(), Error>)> {
    match step {
        VmStep::Answer(n) => told(n),
        _ => panic!("no answer"),
    }
}

fn asker(step: VmStep<u32>) -> Asker<u32> {
    match step {
        VmStep::RequestStop(a) => a,
        _ => panic!("no request"),
    }
}

#[test]
fn macos_runtime_files() {
    let rt = Runtime::new(s("/r"));
    assert_eq!((rt.root.as_str(), rt.serial_log.as_str()), ("/r", "/r/serial.log"));
    assert_eq!(default_runtime_root("/tmp", "x", 3), "/tmp/tokimo-x-3");
}

fn begin(b: &mut MacosSandbox<u8>) -> StartAction {
    b.start(StartEvent::Begin { temp_dir: s("/tmp"), pid: 5 })
}

/// Starts a sandbox up to its machine.
fn planned(c: SandboxConfig<u8>, i: ImagePaths) -> (MacosSandbox<u8>, VmPlan) {
    let mut b = MacosSandbox::new(c.image(i));
    begin(&mut b);
    let mut a = b.start(StartEvent::RuntimeMade(Ok(())));
    while let StartAction::OpenPort(_, _) = a {
        a = b.start(StartEvent::PortOpened(Ok(())));
    }
    match a {
        StartAction::Launch(p) => (b, p),
        other => panic!("{other:?}"),
    }
}

fn running(c: SandboxConfig<u8>) -> MacosSandbox<u8> {
    let (mut b, _) = planned(c, image(None));
    let a = b.start(StartEvent::Launched(Ok(Some(Ok(())))));
    assert_eq!(a, StartAction::Finish(Ok(())));
    b
}

#[test]
fn the_plan_of_a_machine() {
    let (_, p) = planned(config(), image(Some("/r")));
    assert_eq!((p.kernel.as_str(), p.initrd.as_str()), ("/k", "/i"));
    assert_eq!((p.vcpus, p.memory_bytes, p.use_nat), (1, 536870912, true));
    assert_eq!(p.ports, vec![s("tokimo.rpc.mem")]);
    assert_eq!(p.thread_name, "tokimo-macos-vm-demo");
    assert_eq!(
        p.cmdline,
        "console=hvc0 panic=-1 quiet loglevel=3 root=/dev/vda rootfstype=squashfs ro \
         tokimo.mounts=mem:/mnt/mem"
    );
    assert_eq!(
        p.devices(),
        vec![
            Device::SerialLog(s("/tmp/tokimo-demo-5/serial.log")),
            Device::ConsolePorts(vec![s("tokimo.rpc.mem")]),
            Device::Entropy,
            Device::Disk { path: s("/r"), read_only: true },
            Device::Nat,
        ]
    );
}

#[test]
fn a_bare_machine_has_two_devices() {
    let quiet = NetworkSpec { user_mode: false, port_forwards: vec![], dns: None };
    let c: SandboxConfig<u8> = SandboxConfig::new(s("bare")).network(quiet).runtime_dir(s("/r"));
    let (_, p) = planned(c, image(None));
    assert_eq!(p.devices(), vec![Device::SerialLog(s("/r/serial.log")), Device::Entropy]);
}

#[test]
fn failures_of_the_machine_are_reported() {
    let config = |m: &str| Error::Config(s(m));
    let hyper = |m: &str| Error::Hypervisor(s(m));
    assert_eq!(vm_error(VmStage::KernelPath, "/k"), config("kernel path: /k"));
    assert_eq!(vm_error(VmStage::InitrdPath, "/i"), config("initrd path: /i"));
    assert_eq!(vm_error(VmStage::RootfsPath, "/r"), config("rootfs: /r"));
    assert_eq!(vm_error(VmStage::RootfsAttach, "e"), hyper("rootfs attach: e"));
    assert_eq!(vm_error(VmStage::Validate, "e"), config("VZ config invalid: e"));
    assert_eq!(start_outcome(Some(Ok(()))), Ok(()));
    assert_eq!(start_outcome(Some(Err(s("e")))), Err(hyper("VM start: e")));
    assert_eq!(start_outcome(None), Err(hyper("VM start completion dropped")));
    assert_eq!(stop_outcome(Some(Ok(()))), Ok(()));
    assert_eq!(stop_outcome(Some(Err(s("e")))), Err(hyper("VM stop: e")));
    assert_eq!(stop_outcome(None), Err(hyper("VM stop timed out")));
}

#[test]
fn everybody_who_waits_is_told_once() {
    let mut l = VmLoop::new();
    assert!(answers(l.handle(VmCmd::Wait(1))).is_empty());
    assert!(answers(l.handle(VmCmd::Wait(2))).is_empty());
    // The first attempt fails: nobody but the asker is told.
    let a = asker(l.handle(VmCmd::Stop(3)));
    let failure = || Err(Error::Hypervisor(s("VM stop timed out")));
    assert_eq!(answers(l.stop_asked(a, failure())), vec![(3, failure())]);
    // The second one succeeds: those who wait come first.
    let a = asker(l.handle(VmCmd::Stop(4)));
    assert_eq!(answers(l.stop_asked(a, Ok(()))), vec![(1, Ok(())), (2, Ok(())), (4, Ok(()))]);
    // From now on everybody is answered at once.
    assert_eq!(answers(l.handle(VmCmd::Wait(5))), vec![(5, Ok(()))]);
    assert_eq!(answers(l.handle(VmCmd::Stop(6))), vec![(6, Ok(()))]);
    match l.handle(VmCmd::Shutdown) {
        VmStep::End(n) => assert!(n.is_empty()),
        _ => panic!("not the end"),
    }
}

#[test]
fn a_shutdown_leaves_nobody_waiting() {
    let mut l = VmLoop::new();
    assert!(answers(l.handle(VmCmd::Wait(1))).is_empty());
    let a = asker(l.handle(VmCmd::Shutdown));
    match l.stop_asked(a, Err(Error::Hypervisor(s("x")))) {
        VmStep::End(n) => assert_eq!(told(n), vec![(1, Ok(()))]),
        _ => panic!("not the end"),
    }
}

#[test]
fn a_macos_sandbox_is_started_step_by_step() {
    let mut b = MacosSandbox::new(config());
    assert_eq!(b.config().vcpus, 1);
    assert_ne!(b.id(), MacosSandbox::new(config()).id());
    assert_eq!(b.stop(), StopAction::Nothing);
    assert_eq!(begin(&mut b), StartAction::SearchImage);
    assert_eq!(begin(&mut b), StartAction::Finish(Err(Error::AlreadyStarted)));
    let found = ImageDir {
        dir: s("/img"),
        kernel: true,
        initrd: false,
        initramfs: true,
        rootfs: false,
    };
    assert_eq!(
        b.start(StartEvent::ImageSearched(vec![found])),
        StartAction::MakeRuntime(Runtime::new(s("/tmp/tokimo-demo-5")))
    );
    assert_eq!(
        b.start(StartEvent::RuntimeMade(Ok(()))),
        StartAction::OpenPort(0, s("tokimo.rpc.mem"))
    );
    assert!(matches!(b.mount_served(0), Served::Vfs(&7)));
    match b.start(StartEvent::PortOpened(Ok(()))) {
        StartAction::Launch(p) => assert_eq!(p.initrd, "/img/initramfs.img"),
        other => panic!("{other:?}"),
    }
    let a = b.start(StartEvent::Launched(Ok(Some(Ok(())))));
    assert_eq!(a, StartAction::Finish(Ok(())));
    assert_eq!((b.state(), b.wait()), (SandboxState::Running, true));
    assert_eq!(b.serial_log_path(), Some(s("/tmp/tokimo-demo-5/serial.log")));
}

#[test]
fn a_macos_sandbox_is_stopped_step_by_step() {
    let mut b = running(config());
    assert_eq!(b.stop(), StopAction::AskThread);
    assert_eq!((b.state(), b.wait()), (SandboxState::Stopping, false));
    let e = || Err(Error::Hypervisor(s("VM stop timed out")));
    assert_eq!(b.thread_stopped(Some(e())), e());
    assert_eq!(b.state(), SandboxState::Stopping);
    assert_eq!(b.stop(), StopAction::Nothing);
    for reply in [None, Some(Ok(()))] {
        let mut b = running(config());
        b.stop();
        assert_eq!(b.thread_stopped(reply), Ok(()));
        assert_eq!(b.state(), SandboxState::Stopped);
    }
    let mut early = MacosSandbox::new(config());
    begin(&mut early);
    assert_eq!(early.stop(), StopAction::Nothing);
    assert_eq!(early.state(), SandboxState::Stopped);
}

#[test]
fn a_macos_sandbox_that_cannot_start_has_failed() {
    let mut b = MacosSandbox::new(config());
    begin(&mut b);
    assert_eq!(
        b.start(StartEvent::ImageSearched(vec![])),
        StartAction::Finish(Err(Error::Config(s("no image (set TOKIMO_IMG_DIR or build img/)"))))
    );
    assert_eq!(b.state(), SandboxState::Failed);
    assert_eq!(b.stop(), StopAction::Nothing);
    assert_eq!(begin(&mut b), StartAction::Finish(Err(Error::AlreadyStarted)));

    let io = || IoFailure { kind: IoErrorKind::Other, message: s("full") };
    let failed = || StartAction::Finish(Err(Error::Io(io())));
    let mut b = MacosSandbox::new(config().image(image(None)));
    begin(&mut b);
    assert_eq!(b.start(StartEvent::RuntimeMade(Err(io()))), failed());
    let mut b = MacosSandbox::new(config().image(image(None)));
    begin(&mut b);
    b.start(StartEvent::RuntimeMade(Ok(())));
    assert_eq!(b.start(StartEvent::PortOpened(Err(io()))), failed());
    let (mut b, _) = planned(config(), image(None));
    assert_eq!(b.start(StartEvent::Launched(Err(io()))), failed());
    let (mut b, _) = planned(config(), image(None));
    let e = Error::Hypervisor(s("VM thread exited before start result"));
    assert_eq!(b.start(StartEvent::Launched(Ok(None))), StartAction::Finish(Err(e)));
    let (mut b, _) = planned(config(), image(None));
    let e = || Err(Error::Config(s("VZ config invalid: x")));
    assert_eq!(b.start(StartEvent::Launched(Ok(Some(e())))), StartAction::Finish(e()));
    assert_eq!(b.state(), SandboxState::Failed);
}

#[test]
fn waiting_for_a_macos_sandbox() {
    assert!(!MacosSandbox::new(config()).wait());
    let e = || Err(Error::Other(s("x")));
    let mut b = running(config());
    assert_eq!(b.waited(Some(e())), e());
    assert_eq!(b.state(), SandboxState::Running);
    assert_eq!(b.waited(None), Ok(()));
    assert_eq!(b.state(), SandboxState::Stopped);
}

#[test]
fn what_macos_does_not_support() {
    let mut b = MacosSandbox::new(config());
    let m = MountSpec::Vfs { guest_path: s("/x"), vfs: 1, read_only: false, tag: s("x") };
    assert_eq!(
        b.add_mount(m),
        Err(Error::Unsupported(
            "hot mount add not yet implemented on macOS — declare mounts in SandboxConfig"
        ))
    );
    assert_eq!(
        b.remove_mount(MountId(1)),
        Err(Error::Unsupported("hot mount remove not yet implemented on macOS"))
    );
    assert_eq!(
        b.exec(ExecSpec::new(s("ls"))),
        Err(Error::Unsupported("guest exec requires a guest agent (not yet wired up in v0.1)"))
    );
    assert_eq!(
        MacosSandbox::<u8>::unsupported_host(),
        Error::Unsupported("macOS backend only runs on macOS")
    );
}
