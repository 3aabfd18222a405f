//! The guest agent: a FUSE file system whose every operation is a call to the host.

pub mod args;
pub mod errno;
pub mod fuse;
pub mod laws;
pub mod tables;
