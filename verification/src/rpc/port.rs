//! Finding the character device of a virtio-serial port in the guest.

use vstd::prelude::*;

use crate::text::{concat2, concat3, has_prefix, opt_text, same_text, trim, trimmed};

verus! {

/// How long the guest waits for a port to appear.
pub const PORT_TIMEOUT_MS: u64 = 30_000;

/// How long it waits between two looks.
pub const PORT_POLL_MS: u64 = 200;

/// A port that the kernel lists.
#[derive(Debug, Clone, PartialEq, Eq)]
pub struct SysPort {
    /// Name of its entry, which is also that of its device.
    pub entry: String,
    /// What its `name` file holds; absent where the file cannot be read.
    pub name: Option<String>,
    /// Its device exists.
    pub device_exists: bool,
}

impl SysPort {
    /// It is the port of that name, and can be opened.
    pub open spec fn is_port(self, port_name: Seq<char>) -> bool {
        self.device_exists && match self.name {
            Some(n) => trimmed(n@) == port_name,
            None => false,
        }
    }
}

/// The name is the path of a device.
pub open spec fn is_device_path(port_name: Seq<char>) -> bool {
    port_name.len() > 0 && port_name[0] == '/'
}

/// Where a port is looked for first: at its path, or under the links that are named after ports.
pub open spec fn direct(port_name: Seq<char>) -> Seq<char> {
    if is_device_path(port_name) {
        port_name
    } else {
        "/dev/virtio-ports/"@ + port_name
    }
}

/// The device of an entry.
pub open spec fn device(entry: Seq<char>) -> Seq<char> {
    "/dev/"@ + entry
}

/// The first of the listed ports that has the name and can be opened.
pub open spec fn first_port(port_name: Seq<char>, ports: Seq<SysPort>) -> Option<Seq<char>>
    decreases ports.len(),
{
    if ports.len() == 0 {
        None
    } else if ports[0].is_port(port_name) {
        Some(device(ports[0].entry@))
    } else {
        first_port(port_name, ports.drop_first())
    }
}

/// Whether the name is the path of a device.
fn names_device(port_name: &str) -> (r: bool)
    ensures
        r == is_device_path(port_name@),
{
    let r = has_prefix(port_name, "/");
    proof {
        reveal_strlit("/");
        if is_device_path(port_name@) {
            assert("/"@ =~= port_name@.subrange(0, 1));
        } else if port_name@.len() > 0 {
            assert("/"@[0] == '/');
        }
    }
    r
}

/// The path at which a port is looked for first.
pub fn direct_path(port_name: &str) -> (r: String)
    ensures
        r@ == direct(port_name@),
{
    if names_device(port_name) {
        port_name.to_owned()
    } else {
        concat2("/dev/virtio-ports/", port_name)
    }
}

/// The path of the device of an entry that the kernel lists.
pub fn device_path(entry: &str) -> (r: String)
    ensures
        r@ == device(entry@),
{
    concat2("/dev/", entry)
}

/// Whether the ports that the kernel lists matter: only for a bare name that has no link.
pub fn needs_scan(port_name: &str, direct_exists: bool) -> (r: bool)
    ensures
        r == (!is_device_path(port_name@) && !direct_exists),
{
    !names_device(port_name) && !direct_exists
}

/// Finds the device of a port. A path stands for itself. A bare name is looked for among the links
/// that are named after ports and, where it has none, among the ports that the kernel lists; the
/// first of those with that name whose device exists is taken.
pub fn resolve_virtio_port(port_name: &str, direct_exists: bool, listed: &Vec<SysPort>) -> (r:
    Option<String>)
    ensures
        opt_text(r) == if direct_exists {
            Some(direct(port_name@))
        } else if is_device_path(port_name@) {
            None
        } else {
            first_port(port_name@, listed@)
        },
{
    if direct_exists {
        return Some(direct_path(port_name));
    }
    if names_device(port_name) {
        return None;
    }
    let mut i: usize = 0;
    assert(listed@.skip(0) =~= listed@);
    while i < listed.len()
        invariant
            i <= listed@.len(),
            !direct_exists,
            !is_device_path(port_name@),
            first_port(port_name@, listed@) == first_port(port_name@, listed@.skip(i as int)),
        decreases listed@.len() - i,
    {
        assert(listed@.skip(i as int).drop_first() =~= listed@.skip(i + 1));
        if let Some(name) = &listed[i].name {
            if same_text(trim(name.as_str()).as_str(), port_name) && listed[i].device_exists {
                return Some(device_path(listed[i].entry.as_str()));
            }
        }
        i += 1;
    }
    None
}

/// What to do after a look for a port.
#[derive(Debug, Clone, PartialEq, Eq)]
pub enum PortStep {
    /// Open the device.
    Open(String),
    /// Look again after so many milliseconds.
    Retry(u64),
    /// Give up, for this reason.
    GiveUp(String),
}

/// Decides what follows a look for a port, `elapsed_ms` after the first one: a port that was found
/// is opened; until the time is up it is looked for again.
pub fn after_look(port_name: &str, found: Option<String>, elapsed_ms: u64) -> (r: PortStep)
    ensures
        match found {
            Some(p) => r == PortStep::Open(p),
            None => if elapsed_ms >= PORT_TIMEOUT_MS {
                r matches PortStep::GiveUp(m) && m@ == "virtio-serial port "@ + port_name@
                    + " never appeared"@
            } else {
                r == PortStep::Retry(PORT_POLL_MS)
            },
        },
{
    match found {
        Some(p) => PortStep::Open(p),
        None => if elapsed_ms >= PORT_TIMEOUT_MS {
            PortStep::GiveUp(concat3("virtio-serial port ", port_name, " never appeared"))
        } else {
            PortStep::Retry(PORT_POLL_MS)
        },
    }
}

/// A port that the kernel lists under its name, with a device, is found.
pub proof fn listed_port_is_found(port_name: Seq<char>, ports: Seq<SysPort>, i: int)
    requires
        0 <= i < ports.len(),
        ports[i].is_port(port_name),
    ensures
        first_port(port_name, ports) is Some,
        exists|j: int|
            {
                &&& 0 <= j <= i
                &&& (#[trigger] ports[j]).is_port(port_name)
                &&& first_port(port_name, ports) == Some(device(ports[j].entry@))
            },
    decreases i,
{
    if !ports[0].is_port(port_name) {
        let rest = ports.drop_first();
        listed_port_is_found(port_name, rest, i - 1);
        let j = choose|j: int|
            {
                &&& 0 <= j <= i - 1
                &&& (#[trigger] rest[j]).is_port(port_name)
                &&& first_port(port_name, rest) == Some(device(rest[j].entry@))
            };
        assert(ports[j + 1] == rest[j]);
    }
}

} // verus!
