//! Options for reaching a remote endpoint.
use vstd::prelude::*;

verus! {

/// SSH authentication mode.
#[derive(Debug, Clone, Copy, PartialEq, Eq, Structural)]
pub enum SshAuthMode {
    /// Fail fast when authentication is needed.
    NonInteractive,
    /// Prompt on the terminal first, then reuse the authentication.
    Interactive,
}

/// How to connect to a remote endpoint.
#[derive(Debug, Clone, Copy, PartialEq, Eq, Structural)]
pub struct SshConnectOptions {
    pub auth_mode: SshAuthMode,
    pub connect_timeout_secs: u32,
}

impl SshConnectOptions {
    /// The options for a requested timeout, which is at least one second.
    pub fn with_timeout(auth_mode: SshAuthMode, connect_timeout_secs: u32) -> (r: SshConnectOptions)
        ensures
            r.auth_mode == auth_mode,
            r.connect_timeout_secs == if connect_timeout_secs >= 1 {
                connect_timeout_secs
            } else {
                1
            },
    {
        SshConnectOptions {
            auth_mode,
            connect_timeout_secs: if connect_timeout_secs >= 1 {
                connect_timeout_secs
            } else {
                1
            },
        }
    }
}

} // verus!
