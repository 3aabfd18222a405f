use tokimo_vm::cmdline::build_cmdline;
use tokimo_vm::config::{
    image_dirs, mount_pairs, port_name, ExecSpec, ImageDir, ImagePaths, MountSpec, NetworkSpec,
    SandboxConfig, Served,
};
use tokimo_vm::error::{Error, IoErrorKind, IoFailure};
use tokimo_vm::ids::{ExecId, MountId, SandboxId};
use tokimo_vm::vfs::VfsError;

fn s(t: &str) -> String {
    t.to_string()
}

#[test]
fn identifiers_are_random_uuids() {
    let a = SandboxId::new();
    let b = SandboxId::default();
    assert_ne!(a, b);
    assert_ne!(MountId::new(), MountId::default());
    assert_ne!(ExecId::new(), ExecId::default());
    let u = uuid::Uuid::from_u128(a.0);
    assert_eq!(u.get_version_num(), 4);
    assert_eq!(u.get_variant(), uuid::Variant::RFC4122);
    assert_eq!(a.text(), u.to_string());
}

#[test]
fn identifiers_have_their_text() {
    let v = 0x00112233_4455_4677_8899_aabbccddeeff;
    assert_eq!(SandboxId(v).text(), "00112233-4455-4677-8899-aabbccddeeff");
    assert_eq!(MountId(v).text(), "00112233-4455-4677-8899-aabbccddeeff");
    assert_eq!(ExecId(1).text(), "00000000-0000-0000-0000-000000000001");
}

#[test]
fn errors_describe_themselves() {
    let io = IoFailure { kind: IoErrorKind::Other, message: s("disk full") };
    assert_eq!(Error::NotStarted.message(), "sandbox not started");
    assert_eq!(Error::AlreadyStarted.message(), "sandbox already started");
    assert_eq!(Error::Unsupported("x").message(), "unsupported on this backend: x");
    assert_eq!(Error::Config(s("x")).message(), "invalid config: x");
    assert_eq!(Error::Io(io).message(), "i/o: disk full");
    assert_eq!(Error::Hypervisor(s("x")).message(), "hypervisor: x");
    assert_eq!(Error::Vfs(VfsError::NotFound).message(), "vfs: not found");
    assert_eq!(Error::Other(s("x")).message(), "other: x");
    assert_eq!(VfsError::PermissionDenied.message(), "permission denied");
    assert_eq!(VfsError::AlreadyExists.message(), "already exists");
    assert_eq!(VfsError::NotADirectory.message(), "not a directory");
    assert_eq!(VfsError::IsADirectory.message(), "is a directory");
    assert_eq!(VfsError::Io(s("x")).message(), "io: x");
}

#[test]
fn a_configuration_is_built_step_by_step() {
    let c: SandboxConfig<u8> = SandboxConfig::new(s("demo"));
    assert_eq!((c.name.as_str(), c.vcpus, c.memory_mib), ("demo", 1, 256));
    assert!(c.runtime_dir.is_none() && c.image.is_none() && !c.interactive_serial);
    assert!(c.extra_cmdline.is_empty() && c.mounts.is_empty());
    assert_eq!(c.network, NetworkSpec::default());
    let image = ImagePaths { kernel: s("/k"), initrd: s("/i"), rootfs: None };
    let quiet = NetworkSpec { user_mode: false, port_forwards: vec![], dns: None };
    let c = c
        .vcpus(2)
        .memory_mib(512)
        .mount(MountSpec::Vfs { guest_path: s("/mnt/a"), vfs: 7, read_only: true, tag: s("a") })
        .mount(MountSpec::HostDir {
            guest_path: s("/work"),
            host_path: s("./workspace"),
            read_only: false,
            tag: s("work"),
        })
        .image(image.copied())
        .runtime_dir(s("/run/x"))
        .network(quiet.clone())
        .interactive_serial(true);
    assert_eq!((c.vcpus, c.memory_mib, c.interactive_serial), (2, 512, true));
    assert_eq!(c.image, Some(image));
    assert_eq!(c.runtime_dir, Some(s("/run/x")));
    assert_eq!(c.network, quiet);
    assert_eq!((c.mounts[0].tag(), c.mounts[0].guest_path()), ("a", "/mnt/a"));
    assert!(c.mounts[0].read_only() && !c.mounts[1].read_only());
    assert_eq!(mount_pairs(&c.mounts), vec![(s("a"), s("/mnt/a")), (s("work"), s("/work"))]);
    match c.mounts[0].served() {
        Served::Vfs(v) => assert_eq!(*v, 7),
        Served::Host(_) => panic!("not a host directory"),
    }
    match c.mounts[1].served() {
        Served::Host(fs) => {
            assert_eq!(fs.root(), "./workspace");
            assert_eq!(fs.check_rw(), Ok(()));
        }
        Served::Vfs(_) => panic!("a host directory"),
    }
}

#[test]
fn host_directories_keep_their_read_only_flag() {
    let m: MountSpec<u8> = MountSpec::HostDir {
        guest_path: s("/w"),
        host_path: s("/srv"),
        read_only: true,
        tag: s("w"),
    };
    match m.served() {
        Served::Host(fs) => assert_eq!(fs.check_rw(), Err(VfsError::PermissionDenied)),
        Served::Vfs(_) => panic!("a host directory"),
    }
}

#[test]
fn the_default_network_forwards_nothing() {
    let n = NetworkSpec::default();
    assert!(n.user_mode && n.port_forwards.is_empty() && n.dns.is_none());
}

#[test]
fn ports_are_called_after_tags() {
    assert_eq!(port_name("mem"), "tokimo.rpc.mem");
    assert_ne!(port_name("a"), port_name("b"));
}

#[test]
fn commands_are_built_step_by_step() {
    let e = ExecSpec::new(s("ls")).arg(s("-l")).arg(s("/"));
    assert_eq!((e.program.as_str(), e.args), ("ls", vec![s("-l"), s("/")]));
    assert!(e.env.is_empty() && e.cwd.is_none());
}

fn dir(d: &str, kernel: bool, initrd: bool, initramfs: bool, rootfs: bool) -> ImageDir {
    ImageDir { dir: s(d), kernel, initrd, initramfs, rootfs }
}

#[test]
fn images_are_searched_in_order() {
    assert_eq!(
        image_dirs(Some(s("/env")), Some(s("/cwd"))),
        vec![s("/env"), s("/cwd/img"), s("/cwd/assets")]
    );
    assert_eq!(image_dirs(None, Some(s("/cwd"))), vec![s("/cwd/img"), s("/cwd/assets")]);
    assert_eq!(image_dirs(Some(s("/env")), None), vec![s("/env")]);
    assert!(image_dirs(None, None).is_empty());
}

#[test]
fn the_first_whole_image_is_taken() {
    let found = ImagePaths::from_env_or_default(&vec![
        dir("/a", true, false, false, true),
        dir("/b", false, true, true, true),
        dir("/c", true, true, true, true),
        dir("/d", true, true, false, false),
    ]);
    assert_eq!(
        found,
        Some(ImagePaths {
            kernel: s("/c/vmlinuz"),
            initrd: s("/c/initrd.img"),
            rootfs: Some(s("/c/rootfs.squashfs")),
        })
    );
    let found = ImagePaths::from_env_or_default(&vec![dir("/e", true, false, true, false)]);
    assert_eq!(
        found,
        Some(ImagePaths { kernel: s("/e/vmlinuz"), initrd: s("/e/initramfs.img"), rootfs: None })
    );
    assert_eq!(ImagePaths::from_env_or_default(&vec![dir("/f", false, true, true, true)]), None);
    assert_eq!(ImagePaths::from_env_or_default(&vec![]), None);
}

#[test]
fn the_command_line_names_the_mounts() {
    let mounts = vec![(s("a"), s("/mnt/a")), (s("b"), s("/mnt/b"))];
    assert_eq!(
        build_cmdline("ttyS0", &vec![], &mounts, true),
        "console=ttyS0 panic=-1 quiet loglevel=3 root=/dev/vda rootfstype=squashfs ro \
         tokimo.mounts=a:/mnt/a,b:/mnt/b"
    );
    assert_eq!(
        build_cmdline("hvc0", &vec![], &vec![], false),
        "console=hvc0 panic=-1 quiet loglevel=3"
    );
}

#[test]
fn scripts_stand_at_the_end_of_the_line() {
    let extra = vec![s("tokimo.script=echo hi"), s("debug"), s("tokimo.scripted=1"), s("x=y")];
    assert_eq!(
        build_cmdline("ttyS0", &extra, &vec![], false),
        "console=ttyS0 panic=-1 quiet loglevel=3 debug tokimo.scripted=1 x=y tokimo.script=echo hi"
    );
}

#[test]
fn errors_of_other_kinds_become_errors_of_a_sandbox() {
    let io = IoFailure { kind: IoErrorKind::NotFound, message: s("gone") };
    assert_eq!(Error::from(io.clone()), Error::Io(io));
    assert_eq!(Error::from(VfsError::NotFound), Error::Vfs(VfsError::NotFound));
}

#[test]
fn texts_tell_identifiers_apart() {
    let a = SandboxId(0x00112233_4455_4677_8899_aabbccddeeff);
    let b = SandboxId(0x00112233_4455_4677_8899_aabbccddeefe);
    assert_ne!(a.text(), b.text());
}
