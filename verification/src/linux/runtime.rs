//! The directory that holds the files of a running sandbox.

use vstd::prelude::*;

use crate::config::SandboxConfig;
use crate::path::{components, join_path, plain, pushed, pushed_name_is_last_component};
use crate::text::{
    concat2, concat3, decimal, decimal_is_injective, decimal_text, lemma_decimal_digits,
};

verus! {

/// Where the files of a running sandbox are.
#[derive(Debug, Clone, PartialEq, Eq)]
pub struct Runtime {
    pub root: String,
    pub serial_log: String,
    pub serial_sock: String,
    pub qmp_sock: String,
    pub monitor_sock: String,
}

impl Runtime {
    /// The files lie in the directory.
    pub open spec fn is_in(self, root: Seq<char>) -> bool {
        &&& self.root@ == root
        &&& self.serial_log@ == pushed(root, "serial.log"@)
        &&& self.serial_sock@ == pushed(root, "serial.sock"@)
        &&& self.qmp_sock@ == pushed(root, "qmp.sock"@)
        &&& self.monitor_sock@ == pushed(root, "monitor.sock"@)
    }

    /// The files of a sandbox whose directory is `root`.
    pub fn new(root: String) -> (r: Self)
        ensures
            r.is_in(root@),
    {
        let serial_log = join_path(root.as_str(), "serial.log");
        let serial_sock = join_path(root.as_str(), "serial.sock");
        let qmp_sock = join_path(root.as_str(), "qmp.sock");
        let monitor_sock = join_path(root.as_str(), "monitor.sock");
        Runtime { root, serial_log, serial_sock, qmp_sock, monitor_sock }
    }

    /// The same paths again.
    pub fn copied(&self) -> (r: Runtime)
        ensures
            r == *self,
    {
        Runtime {
            root: self.root.clone(),
            serial_log: self.serial_log.clone(),
            serial_sock: self.serial_sock.clone(),
            qmp_sock: self.qmp_sock.clone(),
            monitor_sock: self.monitor_sock.clone(),
        }
    }
}

/// The name of the directory of a sandbox that was given none.
pub open spec fn runtime_dir_name(name: Seq<char>, pid: u32) -> Seq<char> {
    "tokimo-"@ + name + "-"@ + decimal(pid as nat)
}

/// The directory of a sandbox that was given none: one in the directory for temporary files, after
/// the sandbox and the process that runs it.
pub fn default_runtime_root(temp_dir: &str, name: &str, pid: u32) -> (r: String)
    ensures
        r@ == pushed(temp_dir@, runtime_dir_name(name@, pid)),
{
    let head = concat3("tokimo-", name, "-");
    join_path(temp_dir, concat2(head.as_str(), decimal_text(pid as u64).as_str()).as_str())
}

/// The directory of a sandbox: the one that its configuration names, or one after its name and the
/// process.
pub open spec fn root_of<V>(config: SandboxConfig<V>, temp_dir: Seq<char>, pid: u32) -> Seq<char> {
    match config.runtime_dir {
        Some(d) => d@,
        None => pushed(temp_dir, runtime_dir_name(config.name@, pid)),
    }
}

/// The name of the socket of the mount with that index.
pub open spec fn socket_name(i: int) -> Seq<char> {
    "rpc"@ + decimal(i as nat) + ".sock"@
}

/// The path of the socket of the mount with that index.
pub fn socket_path(root: &str, i: usize) -> (r: String)
    ensures
        r@ == pushed(root@, socket_name(i as int)),
{
    let number = decimal_text(i as u64);
    let name = concat3("rpc", number.as_str(), ".sock");
    join_path(root, name.as_str())
}

/// Mounts with different indices have different names of sockets.
proof fn lemma_socket_names(i: int, j: int)
    requires
        0 <= i,
        0 <= j,
        socket_name(i) == socket_name(j),
    ensures
        i == j,
{
    reveal_strlit("rpc");
    reveal_strlit(".sock");
    let a = socket_name(i);
    let b = socket_name(j);
    let n = decimal(i as nat).len() as int;
    assert(a.len() == 3 + n + 5);
    assert(b.len() == 3 + decimal(j as nat).len() + 5);
    assert(decimal(i as nat) =~= a.subrange(3, 3 + n));
    assert(decimal(j as nat) =~= b.subrange(3, 3 + n));
    decimal_is_injective(i as nat, j as nat);
}

/// The name of a socket names one file.
proof fn lemma_socket_name_is_plain(i: int)
    requires
        0 <= i,
    ensures
        plain(socket_name(i)),
{
    reveal_strlit("rpc");
    reveal_strlit(".sock");
    let s = socket_name(i);
    let d = decimal(i as nat);
    lemma_decimal_digits(i as nat);
    assert forall|k: int| 0 <= k < s.len() implies s[k] != '/' by {
        if 3 <= k < 3 + d.len() {
            assert(s[k] == d[k - 3]);
        }
    }
    assert(s[0] == 'r');
    assert(seq!['.'][0] == '.');
}

/// Mounts with different indices have different sockets.
pub proof fn lemma_sockets_differ_by_index(root: Seq<char>, i: int, j: int)
    requires
        0 <= i,
        0 <= j,
    ensures
        pushed(root, socket_name(i)) == pushed(root, socket_name(j)) <==> i == j,
{
    if pushed(root, socket_name(i)) == pushed(root, socket_name(j)) {
        lemma_socket_name_is_plain(i);
        lemma_socket_name_is_plain(j);
        pushed_name_is_last_component(root, socket_name(i));
        pushed_name_is_last_component(root, socket_name(j));
        assert(components(root).push(socket_name(i)).last() == components(root).push(
            socket_name(j),
        ).last());
        lemma_socket_names(i, j);
    }
}

/// No two mounts share a socket, and no socket of a mount is one of the other files.
pub proof fn sockets_are_distinct(rt: Runtime, root: Seq<char>, i: int, j: int)
    requires
        rt.is_in(root),
        0 <= i,
        0 <= j,
    ensures
        i != j ==> pushed(root, socket_name(i)) != pushed(root, socket_name(j)),
        pushed(root, socket_name(i)) != rt.serial_log@,
        pushed(root, socket_name(i)) != rt.serial_sock@,
        pushed(root, socket_name(i)) != rt.qmp_sock@,
        pushed(root, socket_name(i)) != rt.monitor_sock@,
{
    lemma_socket_name_is_plain(i);
    lemma_socket_name_is_plain(j);
    pushed_name_is_last_component(root, socket_name(i));
    pushed_name_is_last_component(root, socket_name(j));
    if pushed(root, socket_name(i)) == pushed(root, socket_name(j)) {
        assert(components(root).push(socket_name(i)).last() == components(root).push(
            socket_name(j),
        ).last());
        lemma_socket_names(i, j);
    }
    runtime_files_are_distinct(rt, root);
    lemma_other_names();
    reveal_strlit("rpc");
    assert(socket_name(i)[0] == 'r');
    assert(components(root).push(socket_name(i)).last()[0] == 'r');
    assert(components(root).push("serial.log"@).last()[0] == 's');
    assert(components(root).push("serial.sock"@).last()[0] == 's');
    assert(components(root).push("qmp.sock"@).last()[0] == 'q');
    assert(components(root).push("monitor.sock"@).last()[0] == 'm');
}

/// What the names of the files look like.
proof fn lemma_other_names()
    ensures
        plain("serial.log"@),
        plain("serial.sock"@),
        plain("qmp.sock"@),
        plain("monitor.sock"@),
        "serial.log"@[0] == 's',
        "serial.log"@[7] == 'l',
        "serial.sock"@[0] == 's',
        "serial.sock"@[7] == 's',
        "qmp.sock"@[0] == 'q',
        "monitor.sock"@[0] == 'm',
{
    reveal_strlit("serial.log");
    reveal_strlit("serial.sock");
    reveal_strlit("qmp.sock");
    reveal_strlit("monitor.sock");
    assert(seq!['.'][0] == '.');
}

/// The files of a sandbox lie in its directory, under names of their own.
pub proof fn runtime_files_are_distinct(rt: Runtime, root: Seq<char>)
    requires
        rt.is_in(root),
    ensures
        components(rt.serial_log@) == components(root).push("serial.log"@),
        components(rt.serial_sock@) == components(root).push("serial.sock"@),
        components(rt.qmp_sock@) == components(root).push("qmp.sock"@),
        components(rt.monitor_sock@) == components(root).push("monitor.sock"@),
        rt.serial_log@ != rt.serial_sock@,
        rt.serial_log@ != rt.qmp_sock@,
        rt.serial_log@ != rt.monitor_sock@,
        rt.serial_sock@ != rt.qmp_sock@,
        rt.serial_sock@ != rt.monitor_sock@,
        rt.qmp_sock@ != rt.monitor_sock@,
{
    lemma_other_names();
    pushed_name_is_last_component(root, "serial.log"@);
    pushed_name_is_last_component(root, "serial.sock"@);
    pushed_name_is_last_component(root, "qmp.sock"@);
    pushed_name_is_last_component(root, "monitor.sock"@);
    assert(components(root).push("serial.log"@).last()[7] == 'l');
    assert(components(root).push("serial.log"@).last()[0] == 's');
    assert(components(root).push("serial.sock"@).last()[7] == 's');
    assert(components(root).push("serial.sock"@).last()[0] == 's');
    assert(components(root).push("qmp.sock"@).last()[0] == 'q');
    assert(components(root).push("monitor.sock"@).last()[0] == 'm');
}

} // verus!
