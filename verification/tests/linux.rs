use tokimo_vm::config::{
    ImageDir, ImagePaths, MountSpec, NetworkSpec, PortForward, Protocol, SandboxConfig, Served,
};
use tokimo_vm::error::{Error, IoErrorKind, IoFailure};
use tokimo_vm::ids::MountId;
use tokimo_vm::linux::qemu::{build_command, QemuCommand, QemuSpec, SerialPort, StderrSink};
use tokimo_vm::linux::qmp::{ConnectStep, QmpClient, QmpStep, Reply};
use tokimo_vm::linux::runtime::{default_runtime_root, socket_path, Runtime};
use tokimo_vm::linux::sandbox::{QemuSandbox, StartAction, StartEvent, StopAction, VfsServer};
use tokimo_vm::state::SandboxState;

fn s(t: &str) -> String {
    t.to_string()
}

fn image() -> ImagePaths {
    ImagePaths { kernel: s("/img/vmlinuz"), initrd: s("/img/initrd.img"), rootfs: Some(s("/img/r")) }
}

fn config() -> SandboxConfig<u8> {
    SandboxConfig::new(s("demo"))
        .mount(MountSpec::Vfs { guest_path: s("/mnt/mem"), vfs: 7, read_only: false, tag: s("mem") })
        .mount(MountSpec::HostDir {
            guest_path: s("/work"),
            host_path: s("/srv"),
            read_only: true,
            tag: s("work"),
        })
}

#[test]
fn runtime_files() {
    assert_eq!(default_runtime_root("/tmp", "repl", 42), "/tmp/tokimo-repl-42");
    let rt = Runtime::new(s("/run/x"));
    assert_eq!(rt.root, "/run/x");
    assert_eq!(rt.serial_log, "/run/x/serial.log");
    assert_eq!(rt.serial_sock, "/run/x/serial.sock");
    assert_eq!(rt.qmp_sock, "/run/x/qmp.sock");
    assert_eq!(rt.monitor_sock, "/run/x/monitor.sock");
    assert_eq!(socket_path("/run/x", 0), "/run/x/rpc0.sock");
    assert_eq!(socket_path("/run/x", 12), "/run/x/rpc12.sock");
}

#[test]
fn the_whole_command() {
    let ports = vec![SerialPort {
        chardev_id: s("rpc0"),
        port_name: s("tokimo.rpc.mem"),
        socket_path: s("/run/rpc0.sock"),
    }];
    let network = NetworkSpec {
        user_mode: true,
        port_forwards: vec![
            PortForward { host_port: 18080, guest_port: 80, protocol: Protocol::Tcp },
            PortForward { host_port: 53, guest_port: 5353, protocol: Protocol::Udp },
        ],
        dns: None,
    };
    let spec = QemuSpec {
        qemu_bin: "/usr/bin/qemu",
        vcpus: 2,
        memory_mib: 512,
        kernel: "/k",
        initrd: "/i",
        rootfs: Some("/r"),
        cmdline: "console=ttyS0 quiet",
        serial_ports: &ports,
        network: &network,
        qmp_socket: "/run/qmp.sock",
        serial_log: "/run/serial.log",
        serial_socket: None,
        monitor_socket: "/run/monitor.sock",
        runtime_dir: "/run",
    };
    let c = build_command(&spec);
    assert_eq!(c.program, "/usr/bin/qemu");
    assert_eq!(c.current_dir, "/run");
    assert_eq!(c.stderr_log, "/run/qemu.stderr.log");
    assert!(c.stdin_null && c.stdout_null && c.kill_on_drop);
    assert!(c.stderr_create && c.stderr_append);
    assert_eq!(c.stderr_sink(true), StderrSink::Log);
    assert_eq!(c.stderr_sink(false), StderrSink::Null);
    let expected = [
        "-enable-kvm",
        "-machine",
        "q35,accel=kvm",
        "-cpu",
        "host",
        "-smp",
        "2",
        "-m",
        "512M",
        "-kernel",
        "/k",
        "-initrd",
        "/i",
        "-append",
        "console=ttyS0 quiet",
        "-display",
        "none",
        "-nodefaults",
        "-no-reboot",
        "-chardev",
        "file,id=sercon,path=/run/serial.log,append=on",
        "-serial",
        "chardev:sercon",
        "-qmp",
        "unix:/run/qmp.sock,server=on,wait=off",
        "-monitor",
        "unix:/run/monitor.sock,server=on,wait=off",
        "-drive",
        "file=/r,if=none,readonly=on,id=rootfs,format=raw",
        "-device",
        "virtio-blk-pci,drive=rootfs,bootindex=1",
        "-device",
        "virtio-serial-pci,id=vser0",
        "-chardev",
        "socket,id=rpc0,path=/run/rpc0.sock,server=off,reconnect=1",
        "-device",
        "virtserialport,chardev=rpc0,bus=vser0.0,name=tokimo.rpc.mem",
        "-netdev",
        "user,id=net0,hostfwd=tcp::18080-:80,hostfwd=udp::53-:5353",
        "-device",
        "virtio-net-pci,netdev=net0",
    ];
    assert_eq!(c.args, expected);
}

#[test]
fn an_isolated_guest_without_mounts_has_no_devices() {
    let network = NetworkSpec {
        user_mode: false,
        port_forwards: vec![PortForward { host_port: 1, guest_port: 2, protocol: Protocol::Tcp }],
        dns: None,
    };
    let spec = QemuSpec {
        qemu_bin: "q",
        vcpus: 1,
        memory_mib: 256,
        kernel: "/k",
        initrd: "/i",
        rootfs: None,
        cmdline: "",
        serial_ports: &vec![],
        network: &network,
        qmp_socket: "/qmp",
        serial_log: "/log",
        serial_socket: Some("/ser"),
        monitor_socket: "/mon",
        runtime_dir: "/",
    };
    let c = build_command(&spec);
    assert_eq!(c.args.len(), 27);
    assert_eq!(c.args[20], "socket,id=sercon,path=/ser,server=on,wait=off");
    assert!(!c.args.contains(&s("-netdev")) && !c.args.contains(&s("-device")));
}

#[test]
fn control_requests_are_single_lines() {
    assert_eq!(QmpClient::powerdown(), "{\"execute\":\"system_powerdown\"}\n");
    assert_eq!(QmpClient::quit(), "{\"execute\":\"quit\"}\n");
    assert_eq!(
        QmpClient::execute("device_del", Some("{\"id\":\"net0\"}")),
        "{\"arguments\":{\"id\":\"net0\"},\"execute\":\"device_del\"}\n"
    );
    let odd = QmpClient::execute("a\"b\\c\nd\u{1}\u{8}\u{c}\r\té\u{7f}", None);
    assert_eq!(
        odd,
        "{\"execute\":\"a\\\"b\\\\c\\nd\\u0001\\b\\f\\r\\té\u{7f}\"}\n"
    );
    assert_eq!(odd.matches('\n').count(), 1);
}

#[test]
fn control_requests_agree_with_the_json_library() {
    for c in (0..0x80u32).filter_map(char::from_u32).chain(['é', '\u{2028}', '\u{10ffff}']) {
        let cmd = format!("x{c}y");
        let mut m = serde_json::Map::new();
        m.insert(s("execute"), serde_json::Value::String(cmd.clone()));
        let expected = format!("{}\n", serde_json::Value::Object(m));
        assert_eq!(QmpClient::execute(&cmd, None), expected);
    }
}

#[test]
fn control_replies_are_told_apart() {
    let read = |l: &str| QmpClient::read_message(Some(l));
    assert_eq!(read("{\"return\": {}}\n"), QmpStep::Return(s("{}")));
    assert_eq!(read("{\"return\": 5, \"error\": 1}"), QmpStep::Return(s("5")));
    assert_eq!(
        read("{\"error\": {\"class\": \"GenericError\"}}"),
        QmpStep::Fail(s("QMP error: {\"class\":\"GenericError\"}"))
    );
    assert_eq!(read("{\"event\": \"SHUTDOWN\"}"), QmpStep::Skip);
    assert_eq!(read("[1]"), QmpStep::Skip);
    assert!(matches!(read("not json"), QmpStep::Fail(_)));
    assert_eq!(QmpClient::read_message(None), QmpStep::Fail(s("QMP closed")));
    let judge = |ret: Option<&str>, error: Option<&str>| {
        QmpClient::judge(Ok(Reply { ret: ret.map(s), error: error.map(s) }))
    };
    assert_eq!(QmpClient::judge(Err(s("e"))), QmpStep::Fail(s("e")));
    assert_eq!(judge(Some("1"), Some("2")), QmpStep::Return(s("1")));
    assert_eq!(judge(None, Some("\"x\"")), QmpStep::Fail(s("QMP error: \"x\"")));
    assert_eq!(judge(None, None), QmpStep::Skip);
}

#[test]
fn the_greeting_is_answered() {
    let line = s("{\"execute\":\"qmp_capabilities\"}\n");
    assert_eq!(QmpClient::greeted(Some("{\"QMP\": {}}")), Ok(line.clone()));
    assert_eq!(QmpClient::greeted(Some("{}")), Ok(line.clone()));
    assert!(QmpClient::greeted(Some("{")).is_err());
    assert_eq!(QmpClient::greeted(None), Err(s("QMP closed")));
    assert_eq!(QmpClient::negotiate(Ok(())), Ok(line));
    assert_eq!(QmpClient::negotiate(Err(s("e"))), Err(s("e")));
}

#[test]
fn the_control_socket_is_waited_for() {
    assert_eq!(QmpClient::connect(Ok(()), 99_999), ConnectStep::Proceed);
    assert_eq!(QmpClient::connect(Err(s("e")), 0), ConnectStep::Retry(80));
    assert_eq!(QmpClient::connect(Err(s("e")), 9_999), ConnectStep::Retry(80));
    assert_eq!(QmpClient::connect(Err(s("e")), 10_000), ConnectStep::Fail(s("e")));
}

fn begin(b: &mut QemuSandbox<u8>) -> Runtime {
    match b.start(StartEvent::Begin { temp_dir: s("/tmp"), pid: 9 }) {
        StartAction::MakeRuntime(rt) => rt,
        other => panic!("{other:?}"),
    }
}

/// Starts a sandbox up to the first socket, with an image that is named.
fn up_to_sockets(mut c: SandboxConfig<u8>) -> (QemuSandbox<u8>, StartAction) {
    c = c.image(image());
    let mut b = QemuSandbox::new(c);
    begin(&mut b);
    let a = b.start(StartEvent::RuntimeMade(Ok(())));
    (b, a)
}

fn spawn(a: StartAction) -> QemuCommand {
    match a {
        StartAction::Spawn(c) => c,
        other => panic!("{other:?}"),
    }
}

/// Starts a sandbox.
fn running(c: SandboxConfig<u8>) -> QemuSandbox<u8> {
    let (mut b, mut a) = up_to_sockets(c);
    while let StartAction::Bind(_, _) = a {
        a = b.start(StartEvent::Bound(Ok(())));
    }
    spawn(a);
    b.start(StartEvent::Spawned(Ok(())));
    assert_eq!(b.start(StartEvent::Connected(Ok(()))), StartAction::Finish(Ok(())));
    b
}

#[test]
fn a_sandbox_is_started_step_by_step() {
    let mut b = QemuSandbox::new(config());
    assert_eq!(b.state(), SandboxState::Created);
    assert_eq!(b.config().name, "demo");
    assert_ne!(b.id(), QemuSandbox::new(config()).id());
    assert_eq!(b.serial_log_path(), None);
    let rt = begin(&mut b);
    assert_eq!(rt, Runtime::new(s("/tmp/tokimo-demo-9")));
    assert_eq!(b.state(), SandboxState::Starting);
    assert_eq!(b.start(StartEvent::RuntimeMade(Ok(()))), StartAction::SearchImage);
    assert_eq!(b.serial_log_path(), Some(s("/tmp/tokimo-demo-9/serial.log")));
    assert_eq!(b.serial_socket_path(), None);
    let found = ImageDir {
        dir: s("/img"),
        kernel: true,
        initrd: true,
        initramfs: false,
        rootfs: false,
    };
    let server = |i: usize, tag: &str, guest: &str| {
        let socket_path = format!("/tmp/tokimo-demo-9/rpc{i}.sock");
        StartAction::Bind(i, VfsServer { tag: s(tag), guest_path: s(guest), socket_path })
    };
    assert_eq!(b.start(StartEvent::ImageSearched(vec![found])), server(0, "mem", "/mnt/mem"));
    assert!(matches!(b.mount_served(0), Served::Vfs(&7)));
    assert!(matches!(b.mount_served(1), Served::Host(_)));
    assert_eq!(b.start(StartEvent::Bound(Ok(()))), server(1, "work", "/work"));
    let cmd = spawn(b.start(StartEvent::Bound(Ok(()))));
    assert_eq!(cmd.args[10], "/img/vmlinuz");
    assert_eq!(b.sockets(), vec![s("/tmp/tokimo-demo-9/rpc0.sock"), s("/tmp/tokimo-demo-9/rpc1.sock")]);
    assert!(!b.wait());
    assert_eq!(
        b.start(StartEvent::Spawned(Ok(()))),
        StartAction::Connect(s("/tmp/tokimo-demo-9/qmp.sock"))
    );
    assert!(b.wait());
    assert_eq!(b.state(), SandboxState::Starting);
    assert_eq!(b.start(StartEvent::Connected(Ok(()))), StartAction::Finish(Ok(())));
    assert_eq!(b.state(), SandboxState::Running);
    assert_eq!(
        b.start(StartEvent::Begin { temp_dir: s("/tmp"), pid: 9 }),
        StartAction::Finish(Err(Error::AlreadyStarted))
    );
    assert_eq!(b.state(), SandboxState::Running);
}

#[test]
fn a_sandbox_is_stopped_step_by_step() {
    let mut fresh = QemuSandbox::new(config());
    assert_eq!(fresh.stop(), StopAction::Nothing);
    assert_eq!(fresh.state(), SandboxState::Created);
    let mut b = running(config());
    assert_eq!(b.stop(), StopAction::EndQemu { ask: true, reap: true });
    assert_eq!(b.state(), SandboxState::Stopping);
    match b.qemu_ended() {
        StopAction::Cleanup(servers) => {
            let tags: Vec<String> = servers.into_iter().map(|x| x.tag).collect();
            assert_eq!(tags, vec![s("mem"), s("work")]);
        }
        other => panic!("{other:?}"),
    }
    assert_eq!(b.state(), SandboxState::Stopped);
    assert!(b.sockets().is_empty() && !b.wait());
    assert_eq!(b.stop(), StopAction::Nothing);
}

#[test]
fn a_sandbox_that_ends_by_itself_is_stopped() {
    let mut b = QemuSandbox::new(config());
    b.waited();
    assert_eq!(b.state(), SandboxState::Created);
    let mut b = running(config());
    b.waited();
    assert_eq!(b.state(), SandboxState::Stopped);
    assert_eq!(b.stop(), StopAction::Nothing);
}

fn hypervisor(m: &str) -> StartAction {
    StartAction::Finish(Err(Error::Hypervisor(s(m))))
}

#[test]
fn failures_of_the_start_are_reported() {
    let mut b = QemuSandbox::new(config().runtime_dir(s("/r")));
    assert_eq!(begin(&mut b).root, "/r");
    let io = IoFailure { kind: IoErrorKind::PermissionDenied, message: s("denied") };
    assert_eq!(
        b.start(StartEvent::RuntimeMade(Err(io.clone()))),
        StartAction::Finish(Err(Error::Io(io)))
    );
    assert_eq!(b.state(), SandboxState::Starting);
    assert_eq!(b.stop(), StopAction::EndQemu { ask: false, reap: false });

    let mut b = QemuSandbox::new(config());
    begin(&mut b);
    b.start(StartEvent::RuntimeMade(Ok(())));
    assert_eq!(
        b.start(StartEvent::ImageSearched(vec![])),
        StartAction::Finish(Err(Error::Config(s(
            "no image configured; run scripts/image/build.sh or set TOKIMO_IMG_DIR"
        ))))
    );

    let (mut b, _) = up_to_sockets(config().runtime_dir(s("/r")));
    b.start(StartEvent::Bound(Ok(())));
    assert_eq!(
        b.start(StartEvent::Bound(Err(s("in use")))),
        hypervisor("rpc bind /r/rpc1.sock: in use")
    );
    assert_eq!(b.sockets(), vec![s("/r/rpc0.sock")]);

    let (mut b, a) = up_to_sockets(SandboxConfig::new(s("bare")));
    spawn(a);
    assert_eq!(b.start(StartEvent::Spawned(Err(s("gone")))), hypervisor("qemu spawn: gone"));

    let (mut b, _) = up_to_sockets(SandboxConfig::new(s("bare")));
    b.start(StartEvent::Spawned(Ok(())));
    assert_eq!(b.start(StartEvent::Connected(Err(s("late")))), hypervisor("qmp connect: late"));
    assert_eq!(b.stop(), StopAction::EndQemu { ask: false, reap: true });
}

#[test]
fn the_command_of_a_sandbox() {
    let mut c = config().interactive_serial(true).runtime_dir(s("/run"));
    c.extra_cmdline.push(s("tokimo.script=ls"));
    let (mut b, _) = up_to_sockets(c);
    b.start(StartEvent::Bound(Ok(())));
    let cmd = spawn(b.start(StartEvent::Bound(Ok(()))));
    assert_eq!(cmd.program, "/usr/bin/qemu-system-x86_64");
    assert_eq!((cmd.args[10].as_str(), cmd.args[12].as_str()), ("/img/vmlinuz", "/img/initrd.img"));
    assert_eq!(
        cmd.args[14],
        "console=ttyS0 panic=-1 quiet loglevel=3 root=/dev/vda rootfstype=squashfs ro \
         tokimo.mounts=mem:/mnt/mem,work:/work tokimo.shell=1 tokimo.script=ls"
    );
    assert_eq!(cmd.args[20], "socket,id=sercon,path=/run/serial.sock,server=on,wait=off");
    assert!(cmd.args.contains(&s("virtserialport,chardev=rpc1,bus=vser0.0,name=tokimo.rpc.work")));
    assert!(cmd.args.contains(&s("socket,id=rpc1,path=/run/rpc1.sock,server=off,reconnect=1")));
    assert_eq!(cmd.args[cmd.args.len() - 3], "user,id=net0");
    assert_eq!(b.serial_socket_path(), Some(s("/run/serial.sock")));
}

#[test]
fn a_shell_is_asked_for_where_the_console_is_interactive() {
    let line = |interactive: bool, extra: &[&str]| {
        let mut c = SandboxConfig::<u8>::new(s("bare")).image(image());
        c = c.interactive_serial(interactive);
        for p in extra {
            c.extra_cmdline.push(s(p));
        }
        let (_, a) = up_to_sockets(c);
        spawn(a).args[14].clone()
    };
    let base = "console=ttyS0 panic=-1 quiet loglevel=3 root=/dev/vda rootfstype=squashfs ro";
    assert_eq!(line(false, &[]), base);
    assert_eq!(line(true, &[]), format!("{base} tokimo.shell=1"));
    assert_eq!(
        line(true, &["tokimo.script=a b", "debug"]),
        format!("{base} debug tokimo.shell=1 tokimo.script=a b")
    );
    assert_eq!(line(false, &["tokimo.script=ls", "debug"]), format!("{base} debug tokimo.script=ls"));
}

#[test]
fn another_qemu_can_be_named() {
    let c = SandboxConfig::<u8>::new(s("bare")).image(image());
    let mut b = QemuSandbox::new(c).qemu_bin(s("/opt/qemu"));
    begin(&mut b);
    assert_eq!(spawn(b.start(StartEvent::RuntimeMade(Ok(())))).program, "/opt/qemu");
}

#[test]
fn mounts_cannot_change_later() {
    let mut b = QemuSandbox::new(config());
    let m = MountSpec::Vfs { guest_path: s("/x"), vfs: 1, read_only: false, tag: s("x") };
    assert_eq!(b.add_mount(m), Err(Error::Unsupported("hot add_mount not implemented")));
    assert_eq!(
        b.remove_mount(MountId(1)),
        Err(Error::Unsupported("hot remove_mount not implemented"))
    );
    let e = tokimo_vm::config::ExecSpec::new(s("ls"));
    assert_eq!(b.exec(e), Err(Error::Unsupported("guest exec not wired in this build")));
}
