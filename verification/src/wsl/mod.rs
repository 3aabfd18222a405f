//! The Windows backend: a distribution of its own under WSL for each sandbox.
//!
//! Every mount is served over the standard input and output of an agent that `wsl.exe` runs in the
//! distribution.

pub mod laws;
pub mod listing;
pub mod path;
pub mod sandbox;
