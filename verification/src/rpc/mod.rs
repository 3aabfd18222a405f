//! The protocol that carries a virtual file system from the host to the guest.
//!
//! The guest sends one request at a time and reads one response to it. Each message is one frame.

pub mod client;
pub mod frame;
pub mod laws;
pub mod port;
pub mod proto;
pub mod server;
