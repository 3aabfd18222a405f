//! Configuration of a sandbox: resources, image, network, mounts, and commands to run in it.

use vstd::prelude::*;

use crate::cmdline::pair_texts;
use crate::host_fs::HostFs;
use crate::ids::ExecId;
use crate::path::{components, join_path, pushed, pushed_name_is_last_component};
use crate::text::{concat2, opt_text, texts};

verus! {

// ---------------------------------------------------------------- network

/// Transport protocol of a forwarded port.
#[derive(Debug, Clone, Copy, PartialEq, Eq, Structural)]
pub enum Protocol {
    Tcp,
    Udp,
}

/// A host port that leads to a guest port.
#[derive(Debug, Clone, Copy, PartialEq, Eq, Structural)]
pub struct PortForward {
    pub host_port: u16,
    pub guest_port: u16,
    pub protocol: Protocol,
}

/// An internet address, as its octets in network order.
#[derive(Debug, Clone, Copy, PartialEq, Eq)]
pub enum IpAddr {
    V4([u8; 4]),
    V6([u8; 16]),
}

/// How the guest reaches the network.
#[derive(Debug, Clone, PartialEq, Eq)]
pub struct NetworkSpec {
    pub user_mode: bool,
    pub port_forwards: Vec<PortForward>,
    pub dns: Option<Vec<IpAddr>>,
}

impl NetworkSpec {
    /// User-mode address translation and nothing else: no host port leads to the guest.
    pub open spec fn is_default(self) -> bool {
        self.user_mode && self.port_forwards@.len() == 0 && self.dns is None
    }
}

impl Default for NetworkSpec {
    fn default() -> (r: Self)
        ensures
            r.is_default(),
    {
        NetworkSpec { user_mode: true, port_forwards: Vec::new(), dns: None }
    }
}

// ---------------------------------------------------------------- image

/// Paths to the guest image artifacts.
#[derive(Debug, Clone, PartialEq, Eq)]
pub struct ImagePaths {
    pub kernel: String,
    pub initrd: String,
    /// Squashfs root file system. Without it the initrd is the full root.
    pub rootfs: Option<String>,
}

/// A directory that may hold an image, and which of the artifacts were found in it.
#[derive(Debug, Clone, PartialEq, Eq)]
pub struct ImageDir {
    pub dir: String,
    /// `vmlinuz` exists.
    pub kernel: bool,
    /// `initrd.img` exists.
    pub initrd: bool,
    /// `initramfs.img` exists.
    pub initramfs: bool,
    /// `rootfs.squashfs` exists.
    pub rootfs: bool,
}

impl ImageDir {
    /// The directory holds a kernel and an initial ramdisk.
    pub open spec fn usable(self) -> bool {
        self.kernel && (self.initrd || self.initramfs)
    }
}

impl ImagePaths {
    /// The paths are those of the artifacts in the directory; `initrd.img` goes before
    /// `initramfs.img`.
    pub open spec fn is_image_of(self, d: ImageDir) -> bool {
        &&& self.kernel@ == pushed(d.dir@, "vmlinuz"@)
        &&& self.initrd@ == pushed(
            d.dir@,
            if d.initrd {
                "initrd.img"@
            } else {
                "initramfs.img"@
            },
        )
        &&& opt_text(self.rootfs) == if d.rootfs {
            Some(pushed(d.dir@, "rootfs.squashfs"@))
        } else {
            None
        }
    }

    /// The image is that of the first directory that holds one; there is none where no directory
    /// does.
    pub open spec fn is_first_in(r: Option<ImagePaths>, candidates: Seq<ImageDir>) -> bool {
        match r {
            Some(p) => exists|i: int|
                {
                    &&& 0 <= i < candidates.len()
                    &&& (#[trigger] candidates[i]).usable()
                    &&& p.is_image_of(candidates[i])
                    &&& forall|j: int| 0 <= j < i ==> !(#[trigger] candidates[j]).usable()
                },
            None => forall|i: int|
                0 <= i < candidates.len() ==> !(#[trigger] candidates[i]).usable(),
        }
    }

    /// The same paths again.
    pub fn copied(&self) -> (r: ImagePaths)
        ensures
            r == *self,
    {
        ImagePaths {
            kernel: self.kernel.clone(),
            initrd: self.initrd.clone(),
            rootfs: match &self.rootfs {
                Some(p) => Some(p.clone()),
                None => None,
            },
        }
    }

    /// The image of the first directory that holds one.
    pub fn from_env_or_default(candidates: &Vec<ImageDir>) -> (r: Option<ImagePaths>)
        ensures
            ImagePaths::is_first_in(r, candidates@),
    {
        let mut i: usize = 0;
        while i < candidates.len()
            invariant
                i <= candidates@.len(),
                forall|j: int| 0 <= j < i ==> !(#[trigger] candidates@[j]).usable(),
            decreases candidates@.len() - i,
        {
            let d = &candidates[i];
            if d.kernel && (d.initrd || d.initramfs) {
                let initrd_name = if d.initrd {
                    "initrd.img"
                } else {
                    "initramfs.img"
                };
                let rootfs = if d.rootfs {
                    Some(join_path(d.dir.as_str(), "rootfs.squashfs"))
                } else {
                    None
                };
                let p = ImagePaths {
                    kernel: join_path(d.dir.as_str(), "vmlinuz"),
                    initrd: join_path(d.dir.as_str(), initrd_name),
                    rootfs,
                };
                assert(p.is_image_of(candidates@[i as int]));
                return Some(p);
            }
            i += 1;
        }
        None
    }
}

/// The directories that are searched for an image: the one that the environment names, then `img`
/// and `assets` in the working directory.
pub fn image_dirs(env_dir: Option<String>, cwd: Option<String>) -> (r: Vec<String>)
    ensures
        texts(r@) == (match env_dir {
            Some(d) => seq![d@],
            None => Seq::empty(),
        }) + (match cwd {
            Some(c) => seq![pushed(c@, "img"@), pushed(c@, "assets"@)],
            None => Seq::empty(),
        }),
{
    let mut r: Vec<String> = Vec::new();
    if let Some(d) = env_dir {
        r.push(d);
    }
    if let Some(c) = cwd {
        r.push(join_path(c.as_str(), "img"));
        r.push(join_path(c.as_str(), "assets"));
    }
    r
}

// ---------------------------------------------------------------- mounts

/// A file system of the host that the guest sees: a host directory, or one that the caller
/// supplies as a `V`.
#[derive(Debug, Clone)]
pub enum MountSpec<V> {
    HostDir { guest_path: String, host_path: String, read_only: bool, tag: String },
    Vfs { guest_path: String, vfs: V, read_only: bool, tag: String },
}

impl<V> MountSpec<V> {
    /// The tag.
    pub open spec fn spec_tag(self) -> Seq<char> {
        match self {
            MountSpec::HostDir { tag, .. } => tag@,
            MountSpec::Vfs { tag, .. } => tag@,
        }
    }

    /// Where the guest mounts it.
    pub open spec fn spec_guest_path(self) -> Seq<char> {
        match self {
            MountSpec::HostDir { guest_path, .. } => guest_path@,
            MountSpec::Vfs { guest_path, .. } => guest_path@,
        }
    }

    /// Whether it was asked for as read-only.
    pub open spec fn spec_read_only(self) -> bool {
        match self {
            MountSpec::HostDir { read_only, .. } => read_only,
            MountSpec::Vfs { read_only, .. } => read_only,
        }
    }

    /// The tag.
    pub fn tag(&self) -> (r: &str)
        ensures
            r@ == self.spec_tag(),
    {
        match self {
            MountSpec::HostDir { tag, .. } => tag.as_str(),
            MountSpec::Vfs { tag, .. } => tag.as_str(),
        }
    }

    /// Where the guest mounts it.
    pub fn guest_path(&self) -> (r: &str)
        ensures
            r@ == self.spec_guest_path(),
    {
        match self {
            MountSpec::HostDir { guest_path, .. } => guest_path.as_str(),
            MountSpec::Vfs { guest_path, .. } => guest_path.as_str(),
        }
    }

    /// Whether it was asked for as read-only.
    pub fn read_only(&self) -> (r: bool)
        ensures
            r == self.spec_read_only(),
    {
        match self {
            MountSpec::HostDir { read_only, .. } => *read_only,
            MountSpec::Vfs { read_only, .. } => *read_only,
        }
    }
}

/// What a mount is served from.
pub enum Served<'a, V> {
    Host(HostFs),
    Vfs(&'a V),
}

impl<V> MountSpec<V> {
    /// What the mount is served from: a host directory becomes a file system over that directory,
    /// which honours its read-only flag; one that the caller supplies is served as it is.
    pub fn served(&self) -> (r: Served<'_, V>)
        ensures
            match *self {
                MountSpec::HostDir { host_path, read_only, .. } => r matches Served::Host(fs)
                    && fs.spec_root() == host_path@ && fs.spec_read_only() == read_only,
                MountSpec::Vfs { vfs, .. } => r matches Served::Vfs(v) && *v == vfs,
            },
    {
        match self {
            MountSpec::HostDir { host_path, read_only, .. } => Served::Host(
                HostFs::new(host_path.clone(), *read_only),
            ),
            MountSpec::Vfs { vfs, .. } => Served::Vfs(vfs),
        }
    }
}

/// The tags of mounts and where they go.
pub open spec fn mount_pairs_of<V>(mounts: Seq<MountSpec<V>>) -> Seq<(Seq<char>, Seq<char>)> {
    Seq::new(mounts.len(), |i: int| (mounts[i].spec_tag(), mounts[i].spec_guest_path()))
}

/// The tags of mounts and where they go.
pub fn mount_pairs<V>(mounts: &Vec<MountSpec<V>>) -> (r: Vec<(String, String)>)
    ensures
        pair_texts(r@) == mount_pairs_of(mounts@),
{
    let mut r: Vec<(String, String)> = Vec::new();
    let mut i: usize = 0;
    while i < mounts.len()
        invariant
            i <= mounts@.len(),
            r@.len() == i,
            forall|j: int|
                0 <= j < i ==> (#[trigger] r@[j]).0@ == mounts@[j].spec_tag() && r@[j].1@
                    == mounts@[j].spec_guest_path(),
        decreases mounts@.len() - i,
    {
        r.push((mounts[i].tag().to_owned(), mounts[i].guest_path().to_owned()));
        i += 1;
    }
    assert(pair_texts(r@) =~= mount_pairs_of(mounts@));
    r
}

/// The name of the port over which the mount with that tag is served.
pub open spec fn port_name_of(tag: Seq<char>) -> Seq<char> {
    "tokimo.rpc."@ + tag
}

/// The name of the port over which the mount with that tag is served.
pub fn port_name(tag: &str) -> (r: String)
    ensures
        r@ == port_name_of(tag@),
{
    concat2("tokimo.rpc.", tag)
}

/// Mounts with different tags are served over ports with different names.
pub proof fn port_names_are_distinct(a: Seq<char>, b: Seq<char>)
    ensures
        port_name_of(a) == port_name_of(b) <==> a == b,
{
    if port_name_of(a) == port_name_of(b) {
        let n = "tokimo.rpc."@.len() as int;
        assert(a =~= port_name_of(a).skip(n));
        assert(b =~= port_name_of(b).skip(n));
    }
}

// ---------------------------------------------------------------- config

/// What a sandbox is to be.
#[derive(Debug, Clone)]
pub struct SandboxConfig<V> {
    pub name: String,
    pub vcpus: u32,
    pub memory_mib: u32,
    pub runtime_dir: Option<String>,
    pub image: Option<ImagePaths>,
    pub extra_cmdline: Vec<String>,
    pub mounts: Vec<MountSpec<V>>,
    pub network: NetworkSpec,
    /// The guest serial console is a bidirectional socket instead of a log file, and the guest
    /// starts a shell on it.
    pub interactive_serial: bool,
}

impl<V> SandboxConfig<V> {
    /// One processor, 256 MiB, outbound network, and nothing else.
    pub fn new(name: String) -> (r: Self)
        ensures
            r.name == name,
            r.vcpus == 1,
            r.memory_mib == 256,
            r.runtime_dir is None,
            r.image is None,
            r.extra_cmdline@.len() == 0,
            r.mounts@.len() == 0,
            r.network.is_default(),
            !r.interactive_serial,
    {
        SandboxConfig {
            name,
            vcpus: 1,
            memory_mib: 256,
            runtime_dir: None,
            image: None,
            extra_cmdline: Vec::new(),
            mounts: Vec::new(),
            network: NetworkSpec::default(),
            interactive_serial: false,
        }
    }

    /// Sets the number of processors.
    pub fn vcpus(self, n: u32) -> (r: Self)
        ensures
            r == (SandboxConfig { vcpus: n, ..self }),
    {
        SandboxConfig { vcpus: n, ..self }
    }

    /// Sets the memory size.
    pub fn memory_mib(self, m: u32) -> (r: Self)
        ensures
            r == (SandboxConfig { memory_mib: m, ..self }),
    {
        SandboxConfig { memory_mib: m, ..self }
    }

    /// Adds a mount behind those there are.
    pub fn mount(self, m: MountSpec<V>) -> (r: Self)
        ensures
            r.mounts@ == self.mounts@.push(m),
            r == (SandboxConfig { mounts: r.mounts, ..self }),
    {
        let mut mounts = self.mounts;
        mounts.push(m);
        SandboxConfig {
            name: self.name,
            vcpus: self.vcpus,
            memory_mib: self.memory_mib,
            runtime_dir: self.runtime_dir,
            image: self.image,
            extra_cmdline: self.extra_cmdline,
            mounts,
            network: self.network,
            interactive_serial: self.interactive_serial,
        }
    }

    /// Sets the image.
    pub fn image(self, i: ImagePaths) -> (r: Self)
        ensures
            r == (SandboxConfig { image: Some(i), ..self }),
    {
        SandboxConfig { image: Some(i), ..self }
    }

    /// Sets the directory for the files that a running sandbox needs.
    pub fn runtime_dir(self, p: String) -> (r: Self)
        ensures
            r == (SandboxConfig { runtime_dir: Some(p), ..self }),
    {
        SandboxConfig { runtime_dir: Some(p), ..self }
    }

    /// Sets the network.
    pub fn network(self, n: NetworkSpec) -> (r: Self)
        ensures
            r == (SandboxConfig { network: n, ..self }),
    {
        SandboxConfig { network: n, ..self }
    }

    /// Sets whether the serial console is interactive.
    pub fn interactive_serial(self, v: bool) -> (r: Self)
        ensures
            r == (SandboxConfig { interactive_serial: v, ..self }),
    {
        SandboxConfig { interactive_serial: v, ..self }
    }
}

// ---------------------------------------------------------------- exec

/// A command to run in the guest.
#[derive(Debug, Clone, PartialEq, Eq)]
pub struct ExecSpec {
    pub program: String,
    pub args: Vec<String>,
    pub env: Vec<(String, String)>,
    pub cwd: Option<String>,
}

impl ExecSpec {
    /// The program without arguments, in the default environment and directory.
    pub fn new(program: String) -> (r: Self)
        ensures
            r.program == program,
            r.args@.len() == 0,
            r.env@.len() == 0,
            r.cwd is None,
    {
        ExecSpec { program, args: Vec::new(), env: Vec::new(), cwd: None }
    }

    /// Adds an argument behind those there are.
    pub fn arg(self, a: String) -> (r: Self)
        ensures
            r.args@ == self.args@.push(a),
            r == (ExecSpec { args: r.args, ..self }),
    {
        let mut args = self.args;
        args.push(a);
        ExecSpec { program: self.program, args, env: self.env, cwd: self.cwd }
    }
}

/// What a command left behind.
#[derive(Debug, Clone, PartialEq, Eq)]
pub struct ExecOutput {
    pub id: ExecId,
    pub exit_code: Option<i32>,
    pub stdout: Vec<u8>,
    pub stderr: Vec<u8>,
}

// ---------------------------------------------------------------- laws

/// The image is that of the first directory with a kernel and an initial ramdisk: its kernel, its
/// `initrd.img` before its `initramfs.img`, and its root file system where it has one, each in that
/// directory under its name. Where no directory has both there is no image.
pub proof fn image_comes_from_the_first_directory(
    candidates: &Vec<ImageDir>,
    r: Option<ImagePaths>,
    i: int,
)
    requires
        call_ensures(ImagePaths::from_env_or_default, (candidates,), r),
    ensures
        r is None <==> (forall|j: int|
            0 <= j < candidates@.len() ==> !((#[trigger] candidates@[j]).kernel && (
            candidates@[j].initrd || candidates@[j].initramfs))),
        0 <= i < candidates@.len() && candidates@[i].kernel && (candidates@[i].initrd
            || candidates@[i].initramfs) && (forall|j: int|
            0 <= j < i ==> !((#[trigger] candidates@[j]).kernel && (candidates@[j].initrd
                || candidates@[j].initramfs))) ==> (r matches Some(p) && {
            let d = candidates@[i];
            let dir = components(d.dir@);
            &&& components(p.kernel@) == dir.push("vmlinuz"@)
            &&& d.initrd ==> components(p.initrd@) == dir.push("initrd.img"@)
            &&& !d.initrd ==> components(p.initrd@) == dir.push("initramfs.img"@)
            &&& p.rootfs is Some <==> d.rootfs
            &&& p.rootfs matches Some(q) ==> components(q@) == dir.push("rootfs.squashfs"@)
        }),
{
    reveal_strlit("vmlinuz");
    reveal_strlit("initrd.img");
    reveal_strlit("initramfs.img");
    reveal_strlit("rootfs.squashfs");
    assert(seq!['.'][0] == '.');
    if 0 <= i < candidates@.len() {
        let d = candidates@[i].dir@;
        pushed_name_is_last_component(d, "vmlinuz"@);
        pushed_name_is_last_component(d, "initrd.img"@);
        pushed_name_is_last_component(d, "initramfs.img"@);
        pushed_name_is_last_component(d, "rootfs.squashfs"@);
    }
    if r is Some {
        let k = choose|k: int|
            {
                &&& 0 <= k < candidates@.len()
                &&& (#[trigger] candidates@[k]).usable()
                &&& r->0.is_image_of(candidates@[k])
                &&& forall|j: int| 0 <= j < k ==> !(#[trigger] candidates@[j]).usable()
            };
        assert(candidates@[k].usable());
        if 0 <= i < candidates@.len() && candidates@[i].usable() && (forall|j: int|
            0 <= j < i ==> !((#[trigger] candidates@[j]).kernel && (candidates@[j].initrd
                || candidates@[j].initramfs))) {
            if i < k {
                assert(!candidates@[i].usable());
            }
            assert(k == i);
        }
    } else {
        assert forall|j: int| 0 <= j < candidates@.len() implies !((
        #[trigger] candidates@[j]).kernel && (candidates@[j].initrd || candidates@[j].initramfs)) by {
            assert(!candidates@[j].usable());
        }
    }
}

/// The directory that the environment names is searched first, then two of the working directory.
pub proof fn image_directories_come_in_order(
    env_dir: Option<String>,
    cwd: Option<String>,
    r: Vec<String>,
)
    requires
        call_ensures(image_dirs, (env_dir, cwd), r),
    ensures
        env_dir matches Some(d) ==> r@.len() > 0 && r@[0]@ == d@,
        cwd matches Some(c) ==> r@.len() >= 2 && components(r@[r@.len() - 2]@) == components(
            c@,
        ).push("img"@) && components(r@[r@.len() - 1]@) == components(c@).push("assets"@),
        r@.len() == (if env_dir is Some {
            1int
        } else {
            0int
        }) + (if cwd is Some {
            2int
        } else {
            0int
        }),
{
    reveal_strlit("img");
    reveal_strlit("assets");
    assert(texts(r@).len() == r@.len());
    assert forall|i: int| 0 <= i < r@.len() implies texts(r@)[i] == #[trigger] r@[i]@ by {}
    if cwd is Some {
        pushed_name_is_last_component(cwd->0@, "img"@);
        pushed_name_is_last_component(cwd->0@, "assets"@);
        assert(texts(r@)[r@.len() - 2] == r@[r@.len() - 2]@);
        assert(texts(r@)[r@.len() - 1] == r@[r@.len() - 1]@);
    }
    if env_dir is Some {
        assert(texts(r@)[0] == r@[0]@);
    }
}

/// A mount has the tag, the place and the flag that it was made with, whatever it is served from;
/// and it is served from what it names.
pub proof fn mounts_are_what_they_were_made<V>(
    m: &MountSpec<V>,
    tag: &str,
    place: &str,
    read_only: bool,
    served: Served<'_, V>,
)
    requires
        call_ensures(MountSpec::<V>::tag, (m,), tag),
        call_ensures(MountSpec::<V>::guest_path, (m,), place),
        call_ensures(MountSpec::<V>::read_only, (m,), read_only),
        call_ensures(MountSpec::<V>::served, (m,), served),
    ensures
        match *m {
            MountSpec::HostDir { guest_path: g, host_path: h, read_only: ro, tag: t } => tag@ == t@
                && place@ == g@ && read_only == ro && (served matches Served::Host(fs)
                && fs.spec_root() == h@ && fs.spec_read_only() == ro),
            MountSpec::Vfs { guest_path: g, vfs, read_only: ro, tag: t } => tag@ == t@ && place@
                == g@ && read_only == ro && (served matches Served::Vfs(v) && *v == vfs),
        },
{
}

/// The tag of a mount, as it was made.
pub open spec fn made_with_tag<V>(m: MountSpec<V>, t: Seq<char>) -> bool {
    match m {
        MountSpec::HostDir { tag, .. } => tag@ == t,
        MountSpec::Vfs { tag, .. } => tag@ == t,
    }
}

/// The place of a mount in the guest, as it was made.
pub open spec fn made_for_path<V>(m: MountSpec<V>, p: Seq<char>) -> bool {
    match m {
        MountSpec::HostDir { guest_path, .. } => guest_path@ == p,
        MountSpec::Vfs { guest_path, .. } => guest_path@ == p,
    }
}

/// The pairs are those of the mounts, one for each and in their order: its tag, and where it goes.
pub proof fn pairs_are_those_of_the_mounts<V>(
    mounts: &Vec<MountSpec<V>>,
    r: Vec<(String, String)>,
    i: int,
)
    requires
        call_ensures(mount_pairs::<V>, (mounts,), r),
    ensures
        r@.len() == mounts@.len(),
        0 <= i < r@.len() ==> made_with_tag(mounts@[i], r@[i].0@) && made_for_path(
            mounts@[i],
            r@[i].1@,
        ),
{
    assert(pair_texts(r@).len() == r@.len());
    if 0 <= i < r@.len() {
        assert(pair_texts(r@)[i] == mount_pairs_of(mounts@)[i]);
    }
}

/// The port of a mount is called after its tag.
pub proof fn a_port_is_called_after_its_tag(tag: &str, r: String)
    requires
        call_ensures(port_name, (tag,), r),
    ensures
        r@ == "tokimo.rpc."@ + tag@,
        r@.skip("tokimo.rpc."@.len() as int) == tag@,
{
    assert(r@.skip("tokimo.rpc."@.len() as int) =~= tag@);
}

/// The two configurations differ in nothing but, maybe, the resources.
pub open spec fn same_but_resources<V>(a: SandboxConfig<V>, b: SandboxConfig<V>) -> bool {
    &&& a.name == b.name
    &&& a.runtime_dir == b.runtime_dir
    &&& a.image == b.image
    &&& a.extra_cmdline == b.extra_cmdline
    &&& a.mounts == b.mounts
    &&& a.network == b.network
    &&& a.interactive_serial == b.interactive_serial
}

/// Setting the processors or the memory sets just that, to the number that is given.
pub proof fn resources_are_set_one_by_one<V>(
    c: SandboxConfig<V>,
    n: u32,
    a: SandboxConfig<V>,
    m: u32,
    b: SandboxConfig<V>,
)
    requires
        call_ensures(SandboxConfig::<V>::vcpus, (c, n), a),
        call_ensures(SandboxConfig::<V>::memory_mib, (c, m), b),
    ensures
        a.vcpus == n && a.memory_mib == c.memory_mib && same_but_resources(a, c),
        b.memory_mib == m && b.vcpus == c.vcpus && same_but_resources(b, c),
{
}

/// The two configurations have the same resources, name and extra parameters.
pub open spec fn same_resources<V>(a: SandboxConfig<V>, b: SandboxConfig<V>) -> bool {
    &&& a.name == b.name
    &&& a.vcpus == b.vcpus
    &&& a.memory_mib == b.memory_mib
    &&& a.extra_cmdline == b.extra_cmdline
}

/// Everything else, too, is set on its own; a mount is added behind those there are.
pub proof fn settings_are_set_one_by_one<V>(
    c: SandboxConfig<V>,
    m: MountSpec<V>,
    mounted: SandboxConfig<V>,
    i: ImagePaths,
    with_image: SandboxConfig<V>,
    d: String,
    with_dir: SandboxConfig<V>,
    n: NetworkSpec,
    with_network: SandboxConfig<V>,
    v: bool,
    with_console: SandboxConfig<V>,
)
    requires
        call_ensures(SandboxConfig::<V>::mount, (c, m), mounted),
        call_ensures(SandboxConfig::<V>::image, (c, i), with_image),
        call_ensures(SandboxConfig::<V>::runtime_dir, (c, d), with_dir),
        call_ensures(SandboxConfig::<V>::network, (c, n), with_network),
        call_ensures(SandboxConfig::<V>::interactive_serial, (c, v), with_console),
    ensures
        same_resources(mounted, c) && mounted.mounts@ == c.mounts@.push(m) && mounted.image
            == c.image && mounted.runtime_dir == c.runtime_dir && mounted.network == c.network
            && mounted.interactive_serial == c.interactive_serial,
        same_resources(with_image, c) && with_image.image == Some(i) && with_image.mounts
            == c.mounts && with_image.runtime_dir == c.runtime_dir && with_image.network
            == c.network && with_image.interactive_serial == c.interactive_serial,
        same_resources(with_dir, c) && with_dir.runtime_dir == Some(d) && with_dir.mounts
            == c.mounts && with_dir.image == c.image && with_dir.network == c.network
            && with_dir.interactive_serial == c.interactive_serial,
        same_resources(with_network, c) && with_network.network == n && with_network.mounts
            == c.mounts && with_network.image == c.image && with_network.runtime_dir
            == c.runtime_dir && with_network.interactive_serial == c.interactive_serial,
        same_resources(with_console, c) && with_console.interactive_serial == v
            && with_console.mounts == c.mounts && with_console.image == c.image
            && with_console.runtime_dir == c.runtime_dir && with_console.network == c.network,
{
}

/// A configuration begins with one processor, 256 MiB, the network, and nothing else; a command with
/// its program. Arguments are added one behind the other.
pub proof fn configurations_begin_small<V>(
    name: String,
    c: SandboxConfig<V>,
    program: String,
    e: ExecSpec,
    spec: ExecSpec,
    a: String,
    more: ExecSpec,
)
    requires
        call_ensures(SandboxConfig::<V>::new, (name,), c),
        call_ensures(ExecSpec::new, (program,), e),
        call_ensures(ExecSpec::arg, (spec, a), more),
    ensures
        c.name@ == name@,
        c.vcpus == 1,
        c.memory_mib == 256,
        c.mounts@.len() == 0,
        c.extra_cmdline@.len() == 0,
        c.network.user_mode,
        c.network.port_forwards@.len() == 0,
        c.image is None,
        c.runtime_dir is None,
        !c.interactive_serial,
        e.program@ == program@,
        e.args@.len() == 0,
        e.env@.len() == 0,
        e.cwd is None,
        more.args@ == spec.args@.push(a),
        more.program == spec.program,
        more.env == spec.env,
        more.cwd == spec.cwd,
{
}

/// A copy of the paths of an image names the same files.
pub proof fn copied_paths_are_the_same(image: &ImagePaths, r: ImagePaths)
    requires
        call_ensures(ImagePaths::copied, (image,), r),
    ensures
        r.kernel@ == image.kernel@,
        r.initrd@ == image.initrd@,
        r.rootfs is Some <==> image.rootfs is Some,
        r.rootfs matches Some(f) ==> f@ == image.rootfs->0@,
{
}

} // verus!
