use tokimo_vm::config::{ExecSpec, MountSpec, SandboxConfig, Served};
use tokimo_vm::error::Error;
use tokimo_vm::ids::MountId;
use tokimo_vm::state::SandboxState;
use tokimo_vm::wsl::listing::{decode_wsl_text, lists_name};
use tokimo_vm::wsl::path::{join_host, PathStyle};
use tokimo_vm::wsl::sandbox::{
    default_install_dir, sanitize, AgentFailure, AgentPlan, ExecPlan, ExitText, HostDirs, RawOutput,
    StartAction, StartEvent, StopAction, WslConfig, WslSandbox,
};

fn s(t: &str) -> String {
    t.to_string()
}

fn config() -> SandboxConfig<u8> {
    SandboxConfig::new(s("my box")).mount(MountSpec::Vfs {
        guest_path: s("/mnt/mem"),
        vfs: 7,
        read_only: false,
        tag: s("mem"),
    })
}

fn dirs() -> HostDirs {
    HostDirs { local_app_data: None, temp_dir: s("/tmp"), img_dir: None }
}

fn named(name: &str) -> WslSandbox<u8> {
    let wsl = WslConfig { distro_name: Some(s(name)), ..WslConfig::default() };
    WslSandbox::with_wsl_config(config(), wsl)
}

fn utf16(t: &str) -> Vec<u8> {
    t.encode_utf16().flat_map(|u| u.to_le_bytes()).collect()
}

#[test]
fn printed_text_is_utf16() {
    for t in ["a", "tokimo-x\r\nDebian\r\n", "é\u{10000}\u{10ffff}x", "\u{feff}名"] {
        assert_eq!(decode_wsl_text(&utf16(t)), t);
    }
    // Unpaired halves are replaced one by one.
    let units = [0xD834u16, 0xDD1E, 0x6d, 0xDD1E, 0x69, 0xD834, 0xD834];
    let bytes: Vec<u8> = units.iter().flat_map(|u| u.to_le_bytes()).collect();
    assert_eq!(decode_wsl_text(&bytes), "\u{1d11e}m\u{fffd}i\u{fffd}\u{fffd}");
}

#[test]
fn an_odd_number_of_bytes_is_utf8() {
    assert_eq!(decode_wsl_text(&b"abc".to_vec()), "abc");
    assert_eq!(decode_wsl_text(&"é!".as_bytes().to_vec()), "é!");
    assert_eq!(decode_wsl_text(&vec![0xff, b'a', b'b']), "\u{fffd}ab");
    assert_eq!(decode_wsl_text(&vec![]), "");
}

#[test]
fn names_stand_on_lines_of_their_own() {
    let l = "Debian\r\n  tokimo-x-1 \r\nUbuntu\n";
    assert!(lists_name(l, "tokimo-x-1"));
    assert!(lists_name(l, "Ubuntu"));
    assert!(!lists_name(l, "tokimo-x"));
    assert!(!lists_name("", "tokimo-x"));
}

#[test]
fn names_of_distributions() {
    assert_eq!(sanitize("my box_1-é"), "my-box-1--");
    assert_eq!(sanitize(&sanitize("a b")), "a-b");
    assert_eq!(sanitize("AZaz09-"), "AZaz09-");
    let b = WslSandbox::new(config());
    let n = b.resolve_distro_name();
    assert_eq!(n, format!("tokimo-{}", uuid::Uuid::from_u128(b.id().0)));
    assert_eq!(sanitize(&n), n);
    assert_ne!(WslSandbox::new(config()).resolve_distro_name(), n);
    assert_eq!(named("mine").resolve_distro_name(), "mine");
}

#[test]
fn where_disks_are_kept() {
    assert_eq!(
        default_install_dir("d", &dirs(), PathStyle::Unix),
        "/tmp/tokimo/sandboxes/d"
    );
    let windows = HostDirs { local_app_data: Some(s(r"C:\Users\u\AppData\Local")), ..dirs() };
    assert_eq!(
        default_install_dir("d", &windows, PathStyle::Windows),
        r"C:\Users\u\AppData\Local\tokimo\sandboxes\d"
    );
}

fn begin(b: &mut WslSandbox<u8>) -> StartAction {
    b.start(StartEvent::Begin { temp_dir: s("/tmp"), pid: 7, style: PathStyle::Unix })
}

/// Starts a sandbox up to the list of distributions.
fn up_to_list(mut b: WslSandbox<u8>) -> WslSandbox<u8> {
    begin(&mut b);
    let a = b.start(StartEvent::DirMade(Ok(())));
    assert_eq!(a, StartAction::List(vec![s("--list"), s("--quiet")]));
    b
}

/// Starts a sandbox up to the import of its distribution.
fn up_to_import(b: WslSandbox<u8>) -> WslSandbox<u8> {
    let mut b = up_to_list(b);
    b.start(StartEvent::Listed(Ok(utf16("Debian")), dirs()));
    b.start(StartEvent::InstallDirMade(Ok(())));
    b.start(StartEvent::TarChecked(true));
    b
}

fn running(b: WslSandbox<u8>) -> WslSandbox<u8> {
    let mut b = up_to_list(b);
    let name = b.resolve_distro_name();
    b.ensure_distro(&name, &dirs());
    assert_eq!(b.start(StartEvent::AgentRun(Ok(()))), StartAction::Finish(Ok(())));
    b
}

fn exited(success: bool) -> ExitText {
    ExitText { success, status: s(if success { "exit code: 0" } else { "exit code: 1" }) }
}

fn config_error(m: &str) -> StartAction {
    StartAction::Finish(Err(Error::Config(s(m))))
}

fn hypervisor_error(m: &str) -> StartAction {
    StartAction::Finish(Err(Error::Hypervisor(s(m))))
}

#[test]
fn a_listed_distribution_is_used() {
    let mut b = WslSandbox::with_wsl_config(
        config().runtime_dir(s("/run")),
        WslConfig { distro_name: Some(s("mine")), ..WslConfig::default() },
    );
    assert_eq!((b.state(), b.config().vcpus, b.wsl_bin()), (SandboxState::Created, 1, "wsl.exe"));
    assert_eq!(b.serial_log_path(), None);
    assert_eq!(begin(&mut b), StartAction::MakeDir(s("/run")));
    assert_eq!(begin(&mut b), StartAction::Finish(Err(Error::AlreadyStarted)));
    b.start(StartEvent::DirMade(Ok(())));
    assert_eq!(b.serial_log_path(), Some(s("/run/serial.log")));
    let a = b.start(StartEvent::Listed(Ok(utf16("Debian\r\nmine\r\n")), dirs()));
    let args = vec![
        s("-d"),
        s("mine"),
        s("--exec"),
        s("/sbin/tokimo-agent"),
        s("--stdio"),
        s("--mount"),
        s("/mnt/mem"),
        s("--tag"),
        s("mem"),
    ];
    let agent = AgentPlan {
        log_path: s("/run/agent-mem.log"),
        args,
        stdin_piped: true,
        stdout_piped: true,
    };
    assert_eq!(a, StartAction::RunAgent(0, agent));
    assert!(matches!(b.mount_served(0), Served::Vfs(&7)));
    assert_eq!(b.state(), SandboxState::Starting);
    assert_eq!(b.start(StartEvent::AgentRun(Ok(()))), StartAction::Finish(Ok(())));
    assert_eq!(b.state(), SandboxState::Running);
}

#[test]
fn a_missing_distribution_is_imported() {
    let mut b = up_to_list(named("mine"));
    assert_eq!(
        b.start(StartEvent::Listed(Ok(utf16("Debian\r\n")), dirs())),
        StartAction::MakeInstallDir(s("/tmp/tokimo/sandboxes/mine"))
    );
    assert_eq!(
        b.start(StartEvent::InstallDirMade(Ok(()))),
        StartAction::CheckTar(s("img/rootfs.tar"))
    );
    assert_eq!(
        b.start(StartEvent::TarChecked(true)),
        StartAction::Import(vec![
            s("--import"),
            s("mine"),
            s("/tmp/tokimo/sandboxes/mine"),
            s("img/rootfs.tar"),
            s("--version"),
            s("2"),
        ])
    );
    let a = b.start(StartEvent::Imported(Ok(exited(true))));
    assert!(matches!(a, StartAction::RunAgent(0, _)));
    let end = vec![s("--terminate"), s("mine")];
    assert_eq!(b.stop(), StopAction::End(Some(end)));
}

#[test]
fn windows_joins_with_backslashes() {
    let join = |base: &str, rel: &str| join_host(PathStyle::Windows, base, rel);
    assert_eq!(join(r"C:\Temp", "x"), r"C:\Temp\x");
    assert_eq!(join(r"C:\Temp\", "x"), r"C:\Temp\x");
    assert_eq!(join("C:/Temp/", "x"), "C:/Temp/x");
    assert_eq!(join("C:/Temp", "x/y"), r"C:/Temp\x/y");
    assert_eq!(join("img", "rootfs.tar"), r"img\rootfs.tar");
    assert_eq!(join("", "x"), "x");
    assert_eq!(join(r"C:\Temp", ""), r"C:\Temp\");
    // A mere drive is not parted from what follows.
    assert_eq!(join("C:", "x"), "C:x");
    assert_eq!(join("C:x", "y"), r"C:x\y");
    // A prefix replaces everything, a root everything but the prefix.
    assert_eq!(join(r"C:\Temp", r"D:\x"), r"D:\x");
    assert_eq!(join(r"C:\Temp", "d:x"), "d:x");
    assert_eq!(join(r"C:\Temp", r"\\srv\share\x"), r"\\srv\share\x");
    assert_eq!(join(r"C:\Temp", r"\x"), r"C:\x");
    assert_eq!(join(r"C:\Temp", "/x"), "C:/x");
    assert_eq!(join(r"\\srv\share\a", r"\x"), r"\\srv\share\x");
    assert_eq!(join(r"\\.\COM1\a", r"\x"), r"\\.\COM1\x");
    assert_eq!(join(r"Temp", r"\x"), r"\x");
    assert_eq!(join(r"\\srv", r"\x"), r"\x");
    // A verbatim path is tidied.
    assert_eq!(join(r"\\?\C:\Temp", "x"), r"\\?\C:\Temp\x");
    assert_eq!(join(r"\\?\C:\Temp\\a\", r"..\.\x/y"), r"\\?\C:\Temp\x\y");
    assert_eq!(join(r"\\?\C:", "x"), r"\\?\C:\x");
    assert_eq!(join(r"\\?\C:\", r"..\x"), r"\\?\C:\x");
    assert_eq!(join(r"\\?\C:\Temp", r"\x"), r"\\?\C:\x");
    assert_eq!(join(r"\\?\UNC\srv\share\a", r"\x"), r"\\?\UNC\srv\share\x");
    assert_eq!(join(r"\\?\vol", "x"), r"\\?\vol\x");
    assert_eq!(join_host(PathStyle::Unix, r"C:\Temp", "x"), r"C:\Temp/x");
}

#[test]
fn a_start_on_windows() {
    let local = HostDirs {
        local_app_data: Some(s(r"C:\Users\u\AppData\Local")),
        temp_dir: s(r"C:\Temp\"),
        img_dir: Some(s(r"C:\img")),
    };
    let mut b = named("mine");
    let a = b.start(StartEvent::Begin {
        temp_dir: s(r"C:\Temp\"),
        pid: 7,
        style: PathStyle::Windows,
    });
    assert_eq!(a, StartAction::MakeDir(s(r"C:\Temp\tokimo-my box-7")));
    b.start(StartEvent::DirMade(Ok(())));
    assert_eq!(b.serial_log_path(), Some(s(r"C:\Temp\tokimo-my box-7\serial.log")));
    assert_eq!(
        b.start(StartEvent::Listed(Ok(utf16("Debian\r\n")), local)),
        StartAction::MakeInstallDir(s(r"C:\Users\u\AppData\Local\tokimo\sandboxes\mine"))
    );
    assert_eq!(
        b.start(StartEvent::InstallDirMade(Ok(()))),
        StartAction::CheckTar(s(r"C:\img\rootfs.tar"))
    );
    assert_eq!(
        b.start(StartEvent::TarChecked(true)),
        StartAction::Import(vec![
            s("--import"),
            s("mine"),
            s(r"C:\Users\u\AppData\Local\tokimo\sandboxes\mine"),
            s(r"C:\img\rootfs.tar"),
            s("--version"),
            s("2"),
        ])
    );
    match b.start(StartEvent::Imported(Ok(exited(true)))) {
        StartAction::RunAgent(0, p) => {
            assert_eq!(p.log_path, r"C:\Temp\tokimo-my box-7\agent-mem.log")
        }
        other => panic!("{other:?}"),
    }
}

#[test]
fn what_is_imported_and_where() {
    let env = HostDirs { img_dir: Some(s("/img")), ..dirs() };
    let mut b = up_to_list(named("m"));
    b.ensure_distro("", &env);
    assert_eq!(
        b.start(StartEvent::InstallDirMade(Ok(()))),
        StartAction::CheckTar(s("/img/rootfs.tar"))
    );
    let wsl = WslConfig {
        distro_name: Some(s("m")),
        install_dir: Some(s("/disks")),
        rootfs_tar: Some(s("/my.tar")),
        ..WslConfig::default()
    };
    let mut b = up_to_list(WslSandbox::with_wsl_config(config(), wsl));
    assert_eq!(b.ensure_distro("", &env), StartAction::MakeInstallDir(s("/disks")));
    assert_eq!(
        b.start(StartEvent::InstallDirMade(Ok(()))),
        StartAction::CheckTar(s("/my.tar"))
    );
}

#[test]
fn failures_of_the_import_are_reported() {
    let mut b = named("m");
    assert_eq!(begin(&mut b), StartAction::MakeDir(s("/tmp/tokimo-my box-7")));
    assert_eq!(b.start(StartEvent::DirMade(Err(s("full")))), config_error("runtime_dir: full"));
    let mut b = up_to_list(named("m"));
    assert_eq!(
        b.start(StartEvent::Listed(Err(s("gone")), dirs())),
        hypervisor_error("wsl --list: gone")
    );
    let odd = "/a b/\"c'";
    let wsl = WslConfig { install_dir: Some(s(odd)), ..WslConfig::default() };
    let mut b = up_to_list(WslSandbox::with_wsl_config(config(), wsl));
    b.ensure_distro("", &dirs());
    let shown = format!("create {:?}: denied", std::path::Path::new(odd));
    assert_eq!(b.start(StartEvent::InstallDirMade(Err(s("denied")))), config_error(&shown));
    let mut b = up_to_list(named("m"));
    b.ensure_distro("", &dirs());
    b.start(StartEvent::InstallDirMade(Ok(())));
    assert_eq!(
        b.start(StartEvent::TarChecked(false)),
        config_error(
            "rootfs tarball not found at \"img/rootfs.tar\" — run scripts/image/build.sh (WSL backend expects a .tar, not .squashfs)"
        )
    );
    let mut b = up_to_import(named("m"));
    assert_eq!(
        b.start(StartEvent::Imported(Err(s("no wsl")))),
        hypervisor_error("wsl --import: no wsl")
    );
    let mut b = up_to_import(named("m"));
    assert_eq!(
        b.start(StartEvent::Imported(Ok(exited(false)))),
        hypervisor_error("wsl --import exited exit code: 1")
    );
    assert_eq!(b.state(), SandboxState::Starting);
    assert_eq!(b.stop(), StopAction::End(None));
}

#[test]
fn failures_of_agents_are_reported() {
    let fail = |f| {
        let mut b = up_to_list(named("m"));
        b.ensure_distro("m", &dirs());
        b.start(StartEvent::AgentRun(Err(f)))
    };
    assert_eq!(fail(AgentFailure::Log(s("e"))), config_error("agent log: e"));
    assert_eq!(fail(AgentFailure::Spawn(s("e"))), hypervisor_error("spawn wsl agent #0: e"));
    assert_eq!(fail(AgentFailure::Stdin), hypervisor_error("child stdin"));
    assert_eq!(fail(AgentFailure::Stdout), hypervisor_error("child stdout"));
}

#[test]
fn a_wsl_sandbox_is_stopped_once() {
    let mut b = running(named("mine"));
    let end = vec![s("--terminate"), s("mine")];
    assert_eq!(b.stop(), StopAction::End(Some(end)));
    assert_eq!(b.state(), SandboxState::Stopping);
    b.stopped();
    assert_eq!(b.state(), SandboxState::Stopped);
    assert_eq!(b.stop(), StopAction::Nothing);
    let mut w = running(named("mine"));
    w.waited();
    assert_eq!(w.state(), SandboxState::Stopped);
    assert_eq!(begin(&mut w), StartAction::Finish(Err(Error::AlreadyStarted)));
    let mut fresh = named("mine");
    assert_eq!(fresh.stop(), StopAction::End(None));
}

#[test]
fn commands_are_run_in_the_distribution() {
    let mut e = ExecSpec::new(s("ls")).arg(s("-l"));
    e.env.push((s("LANG"), s("C")));
    e.cwd = Some(s("/work"));
    assert_eq!(named("mine").exec(e.clone()), Err(Error::Hypervisor(s("sandbox not started"))));
    let b = running(named("mine"));
    assert_eq!(
        b.exec(e),
        Ok(ExecPlan {
            args: vec![s("-d"), s("mine"), s("--exec"), s("ls"), s("-l")],
            env: vec![(s("LANG"), s("C"))],
            cwd: Some(s("/work")),
        })
    );
    let raw = RawOutput { exit_code: Some(3), stdout: vec![1], stderr: vec![2] };
    let out = WslSandbox::<u8>::exec_done(Ok(raw)).unwrap();
    assert_eq!((out.exit_code, out.stdout, out.stderr), (Some(3), vec![1], vec![2]));
    assert_eq!(
        WslSandbox::<u8>::exec_done(Err(s("e"))),
        Err(Error::Hypervisor(s("wsl exec: e")))
    );
}

#[test]
fn wsl_mounts_cannot_change_later() {
    let mut b = named("mine");
    let m = MountSpec::Vfs { guest_path: s("/x"), vfs: 1, read_only: false, tag: s("x") };
    assert_eq!(
        b.add_mount(m),
        Err(Error::Unsupported("hot add_mount not implemented on WSL backend"))
    );
    assert_eq!(
        b.remove_mount(MountId(1)),
        Err(Error::Unsupported("hot remove_mount not implemented on WSL backend"))
    );
}
