//! The Linux backend: QEMU with KVM.
//!
//! Every mount is served over a Unix socket of its own, attached to a port of one virtio-serial
//! bus. No port of the host is opened.

pub mod laws;
pub mod qemu;
pub mod qmp;
pub mod runtime;
pub mod sandbox;
