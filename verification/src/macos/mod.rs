//! The macOS backend: Apple's Virtualization framework.
//!
//! Every mount is served over one end of a socket pair whose other end is a console port of the
//! guest. The machine lives on a thread of its own, which takes commands one by one.

pub mod laws;
pub mod runtime;
pub mod sandbox;
pub mod vm;
