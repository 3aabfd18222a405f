//! The directory that holds the files of a running sandbox.

use vstd::prelude::*;

use crate::linux::runtime::runtime_dir_name;
use crate::path::{join_path, pushed};

verus! {

/// Where the files of a running sandbox are.
#[derive(Debug, Clone, PartialEq, Eq)]
pub struct Runtime {
    pub root: String,
    pub serial_log: String,
}

impl Runtime {
    /// The file lies in the directory.
    pub open spec fn is_in(self, root: Seq<char>) -> bool {
        self.root@ == root && self.serial_log@ == pushed(root, "serial.log"@)
    }

    /// The files of a sandbox whose directory is `root`.
    pub fn new(root: String) -> (r: Self)
        ensures
            r.is_in(root@),
    {
        let serial_log = join_path(root.as_str(), "serial.log");
        Runtime { root, serial_log }
    }

    /// The same paths again.
    pub fn copied(&self) -> (r: Runtime)
        ensures
            r == *self,
    {
        Runtime { root: self.root.clone(), serial_log: self.serial_log.clone() }
    }
}

/// The directory of a sandbox that was given none.
pub fn default_runtime_root(temp_dir: &str, name: &str, pid: u32) -> (r: String)
    ensures
        r@ == pushed(temp_dir@, runtime_dir_name(name@, pid)),
{
    crate::linux::runtime::default_runtime_root(temp_dir, name, pid)
}

} // verus!
