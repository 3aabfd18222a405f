//! What the agent was told to do.

use vstd::prelude::*;

use crate::text::concat2;

verus! {

/// The command-line arguments of the agent.
#[derive(Debug, Clone, PartialEq, Eq)]
pub struct Args {
    /// Name or path of the virtio-serial port that leads to the host. It excludes `stdio`.
    pub port_name: Option<String>,
    /// Reach the host through standard input and output instead.
    pub stdio: bool,
    /// Where to mount.
    pub mount: String,
    /// Tag of the mount.
    pub tag: String,
}

/// How the agent reaches the host.
#[derive(Debug, Clone, PartialEq, Eq)]
pub enum Channel {
    Stdio,
    Port(String),
}

impl Args {
    /// Chooses the channel: standard input and output, or a port. Exactly one of them has to be
    /// named.
    pub fn channel(&self) -> (r: Result<Channel, String>)
        ensures
            match (self.stdio, self.port_name) {
                (true, None) => r == Ok::<Channel, String>(Channel::Stdio),
                (false, Some(p)) => r == Ok::<Channel, String>(Channel::Port(p)),
                (true, Some(_)) => r matches Err(m) && m@
                    == "--port-name and --stdio are mutually exclusive"@,
                (false, None) => r matches Err(m) && m@
                    == "either --port-name or --stdio is required"@,
            },
    {
        match &self.port_name {
            Some(p) => if self.stdio {
                Err("--port-name and --stdio are mutually exclusive".to_owned())
            } else {
                Ok(Channel::Port(p.clone()))
            },
            None => if self.stdio {
                Ok(Channel::Stdio)
            } else {
                Err("either --port-name or --stdio is required".to_owned())
            },
        }
    }

    /// The name under which the mount is shown.
    pub fn fs_name(&self) -> (r: String)
        ensures
            r@ == "tokimo-"@ + self.tag@,
    {
        concat2("tokimo-", self.tag.as_str())
    }
}

} // verus!
