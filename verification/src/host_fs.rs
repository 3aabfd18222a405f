//! A virtual file system backed by a directory of the host.
//!
//! What an operation may touch and what its outcome means is decided here. The operating-system
//! calls are made by the caller, who hands their results back.

use vstd::prelude::*;

use crate::error::{IoErrorKind, IoFailure};
use crate::path::{
    components, components_of, is_absolute, join_path, lemma_never_climbs_out,
    lemma_rootless_relative, lemma_segments_plain, never_climbs_out, parent,
    parent_drops_last_component, parent_of, path_stays_under_itself, plain, pushed,
    pushed_adds_segments, pushed_name_is_last_component, rootless,
    rootless_keeps_other_components, segments_from, starts_with, stays_in, stays_under, strip_root,
};
use crate::text::{same_text, texts};
use crate::vfs::{DirEntry, FileAttr, FsKind, VfsError, VfsOp, VfsResult};

verus! {

/// Where a guest path lies on the host.
#[derive(Debug, Clone, PartialEq, Eq)]
pub struct Location {
    /// The host path.
    pub joined: String,
    /// The path whose real place decides whether `joined` may be used: its parent, or `joined`
    /// itself where it is the root or ends in `..`.
    pub probe: String,
}

impl Location {
    /// The place that decides: the real one where that could be found, and else the probe as it
    /// is spelled.
    pub open spec fn place(self, real_probe: Option<String>) -> Seq<char> {
        match real_probe {
            Some(q) => q@,
            None => self.probe@,
        }
    }
}

/// What the host says of an entry. Times are whole seconds after the epoch, absent where the host
/// does not know them or they lie before it.
#[derive(Debug, Clone, Copy, PartialEq, Eq)]
pub struct HostMeta {
    pub is_dir: bool,
    pub is_symlink: bool,
    pub len: u64,
    /// The mode, on hosts that have one.
    pub unix_mode: Option<u32>,
    /// The time of the last status change, on hosts that have one.
    pub unix_ctime: Option<i64>,
    pub modified: Option<u64>,
    pub accessed: Option<u64>,
    pub created: Option<u64>,
}

/// The kind of an entry, a directory before anything else.
pub open spec fn kind_spec(is_dir: bool, is_symlink: bool) -> FsKind {
    if is_dir {
        FsKind::Dir
    } else if is_symlink {
        FsKind::Symlink
    } else {
        FsKind::File
    }
}

/// A time as the guest sees it: zero where it is not known.
pub open spec fn seconds_spec(t: Option<u64>) -> i64 {
    match t {
        Some(d) => d as i64,
        None => 0,
    }
}

/// A file system rooted at a host directory.
#[derive(Debug, Clone, PartialEq, Eq)]
pub struct HostFs {
    root: String,
    read_only: bool,
}

impl HostFs {
    /// The directory it is rooted at.
    pub closed spec fn spec_root(self) -> Seq<char> {
        self.root@
    }

    /// Whether it refuses changes.
    pub closed spec fn spec_read_only(self) -> bool {
        self.read_only
    }

    /// The host path of a guest path.
    pub open spec fn host_path(self, p: Seq<char>) -> Seq<char> {
        pushed(self.spec_root(), rootless(p))
    }

    /// The host path of the guest path is the root or ends in `..`, so that the place of its parent
    /// would not say where it lies.
    pub open spec fn is_own_probe(self, p: Seq<char>) -> bool {
        let cs = components(self.host_path(p));
        cs == components(self.spec_root()) || (cs.len() > 0 && cs.last() == ".."@)
    }

    /// The path that decides whether the host path may be used. It is the parent, since the path
    /// itself may name something that is yet to be made.
    pub open spec fn probe_path(self, p: Seq<char>) -> Seq<char> {
        match parent_of(self.host_path(p)) {
            Some(q) => if self.is_own_probe(p) {
                self.host_path(p)
            } else {
                q
            },
            None => self.host_path(p),
        }
    }

    /// Where the entry lies that the guest path names, given the place of the probe: in the
    /// directory at that place, under its own name. An entry that is a link is the link.
    pub open spec fn entry_place(self, p: Seq<char>, place: Seq<char>) -> Seq<char> {
        if self.is_own_probe(p) {
            place
        } else {
            pushed(place, components(self.host_path(p)).last())
        }
    }

    /// A file system rooted at `root`.
    pub fn new(root: String, read_only: bool) -> (r: Self)
        ensures
            r.spec_root() == root@,
            r.spec_read_only() == read_only,
    {
        HostFs { root, read_only }
    }

    /// The directory it is rooted at.
    pub fn root(&self) -> (r: &str)
        ensures
            r@ == self.spec_root(),
    {
        self.root.as_str()
    }

    /// Succeeds where changes are allowed.
    pub fn check_rw(&self) -> (r: VfsResult<()>)
        ensures
            r == if self.spec_read_only() {
                Err(VfsError::PermissionDenied)
            } else {
                Ok(())
            },
    {
        if self.read_only {
            Err(VfsError::PermissionDenied)
        } else {
            Ok(())
        }
    }

    /// Refuses, before anything is touched, an operation that a read-only file system does not
    /// have.
    pub fn permit(&self, op: VfsOp) -> (r: VfsResult<()>)
        ensures
            r == if op.mutates() && self.spec_read_only() {
                Err(VfsError::PermissionDenied)
            } else {
                Ok(())
            },
    {
        match op {
            VfsOp::Stat | VfsOp::List | VfsOp::Read => Ok(()),
            _ => self.check_rw(),
        }
    }

    /// Finds where a guest path lies on the host.
    pub fn locate(&self, p: &str) -> (r: Location)
        ensures
            r.joined@ == self.host_path(p@),
            r.probe@ == self.probe_path(p@),
    {
        let joined = join_path(self.root.as_str(), strip_root(p).as_str());
        let probe = if self.probes_itself(joined.as_str()) {
            joined.clone()
        } else {
            match parent(joined.as_str()) {
                Some(q) => q,
                None => joined.clone(),
            }
        };
        Location { joined, probe }
    }

    /// Whether a host path is the root or ends in `..`.
    fn probes_itself(&self, joined: &str) -> (r: bool)
        ensures
            r == (components(joined@) == components(self.spec_root()) || (components(joined@).len()
                > 0 && components(joined@).last() == ".."@)),
    {
        let root = self.root.as_str();
        let both = starts_with(joined, root) && starts_with(root, joined);
        proof {
            let a = components(joined@);
            let b = components(root@);
            assert(both <==> a == b) by {
                if both {
                    assert(a =~= b);
                } else if a == b {
                    path_stays_under_itself(joined@);
                }
            }
        }
        let cs = components_of(joined);
        let n: usize = cs.len();
        proof {
            if n > 0 {
                assert(components(joined@).last() == cs@[n - 1]@);
            }
        }
        both || (n > 0 && same_text(cs[n - 1].as_str(), ".."))
    }

    /// Begins an operation on a guest path: one that is allowed goes on at the place of the path.
    pub fn begin(&self, op: VfsOp, p: &str) -> (r: VfsResult<Location>)
        ensures
            if op.mutates() && self.spec_read_only() {
                r == Err::<Location, VfsError>(VfsError::PermissionDenied)
            } else {
                r matches Ok(at) && at.joined@ == self.host_path(p@) && at.probe@
                    == self.probe_path(p@)
            },
    {
        match self.permit(op) {
            Ok(_) => Ok(self.locate(p)),
            Err(e) => Err(e),
        }
    }

    /// Decides whether a located path may be used, given the real place of the root and, where it
    /// could be found, that of the probe. Unless the place of the probe, or else the probe as it
    /// is spelled, is the root or lies below it without leading out again, the path is refused.
    pub fn resolve(
        &self,
        at: Location,
        real_root: Result<String, IoFailure>,
        real_probe: Option<String>,
    ) -> (r: VfsResult<String>)
        ensures
            match real_root {
                Err(e) => r == Err::<String, _>(VfsError::Io(e.message)),
                Ok(root) => r == if stays_under(at.place(real_probe), root@) {
                    Ok(at.joined)
                } else {
                    Err(VfsError::PermissionDenied)
                },
            },
    {
        let root = match real_root {
            Ok(s) => s,
            Err(e) => {
                return Err(VfsError::Io(e.message));
            },
        };
        let place = match real_probe {
            Some(q) => q,
            None => at.probe,
        };
        if stays_in(place.as_str(), root.as_str()) {
            Ok(at.joined)
        } else {
            Err(VfsError::PermissionDenied)
        }
    }

    /// The kind of an entry.
    pub fn kind_of(is_dir: bool, is_symlink: bool) -> (r: FsKind)
        ensures
            r == kind_spec(is_dir, is_symlink),
    {
        if is_dir {
            FsKind::Dir
        } else if is_symlink {
            FsKind::Symlink
        } else {
            FsKind::File
        }
    }

    /// A time as the guest sees it.
    fn to_secs(t: Option<u64>) -> (r: i64)
        ensures
            r == seconds_spec(t),
    {
        match t {
            Some(d) => #[verifier::truncate]
            (d as i64),
            None => 0,
        }
    }

    /// The attributes of an entry. A host without modes shows directories as `040755` and
    /// everything else as `100644`; one without status-change times shows the creation time.
    pub fn attr_from_meta(m: &HostMeta) -> (r: FileAttr)
        ensures
            r.size == m.len,
            r.kind == kind_spec(m.is_dir, m.is_symlink),
            r.mode == match m.unix_mode {
                Some(mode) => mode,
                None => if m.is_dir {
                    0o040755u32
                } else {
                    0o100644u32
                },
            },
            r.mtime_secs == seconds_spec(m.modified),
            r.atime_secs == seconds_spec(m.accessed),
            r.ctime_secs == match m.unix_ctime {
                Some(c) => c,
                None => seconds_spec(m.created),
            },
    {
        FileAttr {
            size: m.len,
            mode: match m.unix_mode {
                Some(mode) => mode,
                None => if m.is_dir {
                    0o040755
                } else {
                    0o100644
                },
            },
            kind: HostFs::kind_of(m.is_dir, m.is_symlink),
            mtime_secs: HostFs::to_secs(m.modified),
            atime_secs: HostFs::to_secs(m.accessed),
            ctime_secs: match m.unix_ctime {
                Some(c) => c,
                None => HostFs::to_secs(m.created),
            },
        }
    }

    /// An entry of a listing.
    pub fn dir_entry(name: String, is_dir: bool, is_symlink: bool) -> (r: DirEntry)
        ensures
            r == (DirEntry { name, kind: kind_spec(is_dir, is_symlink) }),
    {
        DirEntry { name, kind: HostFs::kind_of(is_dir, is_symlink) }
    }

    /// The file-system error for a failed operating-system call.
    pub fn map_io(e: IoFailure) -> (r: VfsError)
        ensures
            r == match e.kind {
                IoErrorKind::NotFound => VfsError::NotFound,
                IoErrorKind::PermissionDenied => VfsError::PermissionDenied,
                IoErrorKind::AlreadyExists => VfsError::AlreadyExists,
                IoErrorKind::Other => VfsError::Io(e.message),
            },
    {
        match e.kind {
            IoErrorKind::NotFound => VfsError::NotFound,
            IoErrorKind::PermissionDenied => VfsError::PermissionDenied,
            IoErrorKind::AlreadyExists => VfsError::AlreadyExists,
            IoErrorKind::Other => VfsError::Io(e.message),
        }
    }
}

/// A read in progress: a file may give fewer bytes at a time than are asked for.
pub struct Filling {
    want: u32,
    data: Vec<u8>,
}

impl Filling {
    /// How many bytes are wanted in all.
    pub closed spec fn spec_want(self) -> int {
        self.want as int
    }

    /// The bytes that came so far.
    pub closed spec fn spec_data(self) -> Seq<u8> {
        self.data@
    }

    /// No more came than are wanted.
    pub open spec fn wf(self) -> bool {
        self.spec_data().len() <= self.spec_want()
    }

    /// A read of so many bytes.
    pub fn new(want: u32) -> (r: Self)
        ensures
            r.wf(),
            r.spec_want() == want,
            r.spec_data() == Seq::<u8>::empty(),
    {
        Filling { want, data: Vec::new() }
    }

    /// How many bytes are missing.
    pub fn missing(&self) -> (r: usize)
        requires
            self.wf(),
        ensures
            r == self.spec_want() - self.spec_data().len(),
    {
        self.want as usize - self.data.len()
    }

    /// Takes what the file gave. The read is over where that was nothing or nothing is missing any
    /// more.
    pub fn take(&mut self, chunk: &Vec<u8>) -> (over: bool)
        requires
            old(self).wf(),
            old(self).spec_data().len() + chunk@.len() <= old(self).spec_want(),
        ensures
            final(self).wf(),
            final(self).spec_want() == old(self).spec_want(),
            final(self).spec_data() == old(self).spec_data() + chunk@,
            over == (chunk@.len() == 0 || final(self).spec_data().len() == old(self).spec_want()),
    {
        let ghost before = self.data@;
        let mut i: usize = 0;
        assert(self.data@ =~= before + chunk@.take(0));
        while i < chunk.len()
            invariant
                i <= chunk@.len(),
                self.want == old(self).want,
                self.data@ == before + chunk@.take(i as int),
            decreases chunk@.len() - i,
        {
            self.data.push(chunk[i]);
            i += 1;
            assert(self.data@ =~= before + chunk@.take(i as int));
        }
        assert(chunk@.take(chunk@.len() as int) =~= chunk@);
        chunk.len() == 0 || self.data.len() == self.want as usize
    }

    /// The bytes that came.
    pub fn into_data(self) -> (r: Vec<u8>)
        ensures
            r@ == self.spec_data(),
    {
        self.data
    }
}

/// The components of a host path: those of the root, and behind them the segments of the guest
/// path, which are plain names.
proof fn lemma_host_path(fs: HostFs, p: Seq<char>)
    requires
        fs.spec_root().len() > 0,
    ensures
        components(fs.host_path(p)) == components(fs.spec_root()) + segments_from(rootless(p), 0),
        fs.is_own_probe(p) <==> segments_from(rootless(p), 0).len() == 0 || segments_from(
            rootless(p),
            0,
        ).last() == ".."@,
        !fs.is_own_probe(p) ==> plain(segments_from(rootless(p), 0).last())
            && components(fs.probe_path(p)) == components(fs.host_path(p)).drop_last(),
{
    if is_absolute(p) {
        lemma_rootless_relative(p);
    }
    let rel = rootless(p);
    let root = components(fs.spec_root());
    let segs = segments_from(rel, 0);
    pushed_adds_segments(fs.spec_root(), rel);
    lemma_segments_plain(rel, 0);
    let cs = components(fs.host_path(p));
    assert(cs == root + segs);
    if segs.len() == 0 {
        assert(cs =~= root);
    } else {
        assert(cs.len() > root.len());
        assert(cs.last() == segs.last());
        assert(plain(segs[segs.len() - 1]));
        parent_drops_last_component(fs.host_path(p));
        if cs.last() == seq!['/'] {
            assert(cs.last()[0] == '/');
            assert(cs.last().contains('/'));
        }
    }
}

/// The host path of an absolute guest path is the root followed by the components of the guest
/// path. What decides over it is the place one component above, unless it is the root or ends in
/// `..`: then it is its own place.
pub proof fn host_path_extends_root(fs: HostFs, p: Seq<char>)
    requires
        fs.spec_root().len() > 0,
        is_absolute(p),
    ensures
        components(fs.host_path(p)) == components(fs.spec_root()) + components(p).drop_first(),
        fs.is_own_probe(p) <==> components(p).len() == 1 || components(p).last() == ".."@,
        components(fs.probe_path(p)) == if fs.is_own_probe(p) {
            components(fs.host_path(p))
        } else {
            components(fs.host_path(p)).drop_last()
        },
{
    lemma_host_path(fs, p);
    rootless_keeps_other_components(p);
    lemma_rootless_relative(p);
    let rest = components(p).drop_first();
    assert(components(rootless(p)) =~= segments_from(rootless(p), 0));
    if rest.len() > 0 {
        assert(components(p).last() == rest.last());
    }
}

/// The guest's own root is the directory that backs the file system: its place is that of the
/// root, and the root is granted.
pub proof fn root_is_granted(fs: HostFs, p: Seq<char>, real_root: Seq<char>)
    requires
        fs.spec_root().len() > 0,
        is_absolute(p),
        components(p).len() == 1,
    ensures
        components(fs.host_path(p)) == components(fs.spec_root()),
        fs.probe_path(p) == fs.host_path(p),
        stays_under(real_root, real_root),
{
    host_path_extends_root(fs, p);
    assert(components(p).drop_first() =~= Seq::<Seq<char>>::empty());
    assert(components(fs.host_path(p)) =~= components(fs.spec_root()));
    path_stays_under_itself(real_root);
}

/// What is granted lies under the root: where the place that decides over a guest path stays under
/// the root, so does the entry that the path names.
pub proof fn granted_entry_lies_under_root(
    fs: HostFs,
    p: Seq<char>,
    at: Location,
    real_root: Seq<char>,
    real_probe: Option<String>,
)
    requires
        fs.spec_root().len() > 0,
        at.joined@ == fs.host_path(p),
        at.probe@ == fs.probe_path(p),
        stays_under(at.place(real_probe), real_root),
    ensures
        stays_under(fs.entry_place(p, at.place(real_probe)), real_root),
{
    lemma_host_path(fs, p);
    if !fs.is_own_probe(p) {
        let place = at.place(real_probe);
        let name = components(fs.host_path(p)).last();
        let n = components(real_root).len() as int;
        assert(name == segments_from(rootless(p), 0).last());
        pushed_name_is_last_component(place, name);
        let rest = components(place).skip(n);
        lemma_never_climbs_out(rest, name);
        let more = components(fs.entry_place(p, place));
        assert(more.skip(n) =~= rest.push(name));
        assert(components(real_root) =~= more.subrange(0, n));
    }
}

/// Where real places are the places as they are spelled, a guest path is granted exactly where it
/// never leads above the root.
pub proof fn spelled_path_is_granted_unless_it_climbs_out(fs: HostFs, p: Seq<char>)
    requires
        fs.spec_root().len() > 0,
        is_absolute(p),
    ensures
        stays_under(fs.probe_path(p), fs.spec_root()) <==> never_climbs_out(
            components(p).drop_first(),
        ),
{
    host_path_extends_root(fs, p);
    let root = components(fs.spec_root());
    let rest = components(p).drop_first();
    let q = components(fs.probe_path(p));
    let n = root.len() as int;
    if fs.is_own_probe(p) {
        assert(q.skip(n) =~= rest);
    } else {
        assert(rest.last() == components(p).last());
        assert(rest.drop_last().push(rest.last()) =~= rest);
        lemma_never_climbs_out(rest.drop_last(), rest.last());
        assert(q.skip(n) =~= rest.drop_last());
    }
    assert(root =~= q.subrange(0, n));
}

// ---------------------------------------------------------------- laws of the functions

/// A file system has the root and the flag that it was made with.
pub proof fn a_file_system_is_what_it_was_made(
    root: String,
    read_only: bool,
    fs: HostFs,
    s: &HostFs,
    shown: &str,
)
    requires
        call_ensures(HostFs::new, (root, read_only), fs),
        *s == fs,
        call_ensures(HostFs::root, (s,), shown),
    ensures
        shown@ == root@,
        fs.spec_root() == root@,
        fs.spec_read_only() == read_only,
{
}

/// A read-only file system refuses every operation that would change something, before anything is
/// touched, and no other; one that is not refuses none.
pub proof fn read_only_refuses_every_change(
    fs: &HostFs,
    op: VfsOp,
    p: &str,
    permitted: VfsResult<()>,
    writable: VfsResult<()>,
    begun: VfsResult<Location>,
)
    requires
        call_ensures(HostFs::permit, (fs, op), permitted),
        call_ensures(HostFs::check_rw, (fs,), writable),
        call_ensures(HostFs::begin, (fs, op, p), begun),
    ensures
        op is Stat || op is List || op is Read ==> permitted is Ok,
        op is Write || op is Create || op is Mkdir || op is Remove || op is Rmdir || op is Rename
            || op is Truncate ==> (permitted is Ok <==> !fs.spec_read_only()),
        permitted is Err ==> permitted == Err::<(), VfsError>(VfsError::PermissionDenied),
        writable is Ok <==> !fs.spec_read_only(),
        begun is Ok <==> permitted is Ok,
        begun is Err ==> begun == Err::<Location, VfsError>(VfsError::PermissionDenied),
{
}

/// A guest path lies on the host under the root, at the place that its own components name.
pub proof fn a_guest_path_lies_under_the_root(
    fs: &HostFs,
    op: VfsOp,
    p: &str,
    at: Location,
    begun: VfsResult<Location>,
)
    requires
        fs.spec_root().len() > 0,
        is_absolute(p@),
        call_ensures(HostFs::locate, (fs, p), at),
        call_ensures(HostFs::begin, (fs, op, p), begun),
    ensures
        components(at.joined@) == components(fs.spec_root()) + components(p@).drop_first(),
        components(p@).len() > 1 && components(p@).last() != ".."@ ==> components(at.probe@)
            == components(fs.spec_root()) + components(p@).drop_first().drop_last(),
        components(p@).len() == 1 || components(p@).last() == ".."@ ==> at.probe@ == at.joined@,
        begun matches Ok(b) ==> b.joined@ == at.joined@ && b.probe@ == at.probe@,
{
    host_path_extends_root(*fs, p@);
    let root = components(fs.spec_root());
    let rest = components(p@).drop_first();
    if components(p@).len() > 1 {
        assert((root + rest).drop_last() =~= root + rest.drop_last());
    }
}

/// A path is granted exactly where the place that decides over it lies under the real root and does
/// not lead out of it; what is granted is the path that was located. A root that cannot be found is
/// an input/output error with its text.
pub proof fn only_what_lies_under_the_root_is_granted(
    fs: &HostFs,
    at: Location,
    real_root: Result<String, IoFailure>,
    real_probe: Option<String>,
    r: VfsResult<String>,
)
    requires
        call_ensures(HostFs::resolve, (fs, at, real_root, real_probe), r),
    ensures
        real_root matches Err(e) ==> r == Err::<String, VfsError>(VfsError::Io(e.message)),
        real_root matches Ok(root) ==> {
            let place = components(
                match real_probe {
                    Some(q) => q@,
                    None => at.probe@,
                },
            );
            let top = components(root@);
            let under = top.len() <= place.len() && place.take(top.len() as int) == top
                && never_climbs_out(place.skip(top.len() as int));
            &&& under ==> r == Ok::<String, VfsError>(at.joined)
            &&& !under ==> r == Err::<String, VfsError>(VfsError::PermissionDenied)
        },
{
    if real_root is Ok {
        let place = components(at.place(real_probe));
        let top = components(real_root->Ok_0@);
        if top.len() <= place.len() {
            assert(place.take(top.len() as int) =~= place.subrange(0, top.len() as int));
        }
    }
}

/// The guest is shown what the host says of an entry: its size to the byte, its kind, its mode and
/// its times, where the host has them.
pub proof fn attributes_are_those_of_the_host(m: &HostMeta, r: FileAttr)
    requires
        call_ensures(HostFs::attr_from_meta, (m,), r),
    ensures
        r.size == m.len,
        r.kind is Dir <==> m.is_dir,
        r.kind is Symlink <==> m.is_symlink && !m.is_dir,
        m.unix_mode matches Some(mode) ==> r.mode == mode,
        m.unix_ctime matches Some(c) ==> r.ctime_secs == c,
        m.modified matches Some(d) ==> (d <= i64::MAX ==> r.mtime_secs == d),
        m.accessed matches Some(d) ==> (d <= i64::MAX ==> r.atime_secs == d),
        m.unix_ctime is None ==> (m.created matches Some(d) ==> (d <= i64::MAX ==> r.ctime_secs
            == d)),
        m.modified is None ==> r.mtime_secs == 0,
        m.accessed is None ==> r.atime_secs == 0,
        m.unix_ctime is None && m.created is None ==> r.ctime_secs == 0,
        m.unix_mode is None ==> r.mode == if m.is_dir {
            0o040755int
        } else {
            0o100644int
        },
{
}

/// An entry is listed under its name, with the kind that its attributes have.
pub proof fn entries_are_listed_as_they_are(
    name: String,
    m: &HostMeta,
    e: DirEntry,
    kind: FsKind,
    a: FileAttr,
)
    requires
        call_ensures(HostFs::dir_entry, (name, m.is_dir, m.is_symlink), e),
        call_ensures(HostFs::kind_of, (m.is_dir, m.is_symlink), kind),
        call_ensures(HostFs::attr_from_meta, (m,), a),
    ensures
        e.name@ == name@,
        e.kind == kind,
        e.kind == a.kind,
{
}

/// An error of the operating system keeps its kind, and its text where it has no kind of its own.
pub proof fn errors_of_the_host_keep_their_meaning(e: IoFailure, r: VfsError)
    requires
        call_ensures(HostFs::map_io, (e,), r),
    ensures
        r is NotFound <==> e.kind is NotFound,
        r is PermissionDenied <==> e.kind is PermissionDenied,
        r is AlreadyExists <==> e.kind is AlreadyExists,
        r is Io <==> e.kind is Other,
        r matches VfsError::Io(m) ==> m == e.message,
{
}

/// A read gathers what the file gives, one piece behind the other, until it has as much as it wants
/// or the file gives nothing more.
pub proof fn a_read_gathers_the_pieces(
    f: &mut Filling,
    chunk: &Vec<u8>,
    over: bool,
    before: &Filling,
    missing: usize,
    whole: Vec<u8>,
)
    requires
        old(f).wf(),
        old(f).spec_data().len() + chunk@.len() <= old(f).spec_want(),
        *before == *old(f),
        call_ensures(Filling::missing, (before,), missing),
        call_ensures(Filling::take, (f, chunk), over),
        call_ensures(Filling::into_data, (*final(f),), whole),
    ensures
        missing == old(f).spec_want() - old(f).spec_data().len(),
        whole@ == old(f).spec_data() + chunk@,
        over <==> chunk@.len() == 0 || chunk@.len() == missing,
        final(f).spec_want() == old(f).spec_want(),
{
}

/// A read begins with nothing and wants as much as was asked for.
pub proof fn a_read_begins_with_nothing(want: u32, f: Filling)
    requires
        call_ensures(Filling::new, (want,), f),
    ensures
        f.wf(),
        f.spec_want() == want,
        f.spec_data().len() == 0,
{
}

} // verus!
