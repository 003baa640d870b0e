//! The command line of portcull, once parsed.

use vstd::prelude::*;

verus! {

/// What the user asked for.
pub struct Args {
    /// The ports to kill or query.
    pub ports: Vec<u16>,
    /// Display the processes on the ports without killing them.
    pub query: bool,
    /// Kill without asking for confirmation.
    pub quiet: bool,
    /// Send SIGTERM first instead of SIGKILL.
    pub graceful: bool,
    /// Seconds to wait for a graceful exit before SIGKILL (3 when not given).
    pub timeout: Option<u64>,
}

} // verus!
