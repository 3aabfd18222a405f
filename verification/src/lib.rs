//! The verified core of a sandbox for running scripts in lightweight virtual machines.
//!
//! A sandbox is a guest that is run by QEMU on Linux, by the Virtualization framework on macOS and
//! by WSL on Windows. Every mount of a sandbox is a file system of the host: an agent in the guest
//! mounts it with FUSE and asks the host for each operation, over a port that each backend attaches
//! in its own way.
//!
//! What this library holds is every decision on that way: paths and names, the configuration and
//! the command lines, the messages and their frames, the tables of the agent, and the steps by
//! which a sandbox is started and stopped. Work that only the operating system can do is done by
//! the caller, who is told what to do and reports how it went.

pub mod agent;
pub mod cmdline;
pub mod config;
pub mod error;
pub mod host_fs;
pub mod ids;
pub mod linux;
pub mod macos;
pub mod path;
pub mod rpc;
pub mod state;
pub mod text;
pub mod vfs;
pub mod wsl;
