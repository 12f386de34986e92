//! The commands of the command-line interface. Without a command the
//! graphical interface starts.
use vstd::prelude::*;

verus! {

/// The parsed command line.
pub struct Cli {
    /// The command to run; none starts the graphical interface.
    pub command: Option<Commands>,
}

/// The commands.
pub enum Commands {
    /// List all available USB devices
    List {
        /// Show detailed information about devices
        verbose: bool,
    },
    /// Write an ISO image to one or more USB devices
    Write {
        /// Path to the ISO file
        iso: String,
        /// Target device(s) (e.g., /dev/sdb)
        devices: Vec<String>,
        /// Skip confirmation prompts
        yes: bool,
        /// Verify after writing
        verify: bool,
        /// Resume an interrupted write
        resume: bool,
    },
    /// Verify ISO file checksum
    Verify {
        /// Path to the ISO file
        iso: String,
        /// Expected checksum
        checksum: Option<String>,
        /// Checksum algorithm to use (sha256 or md5)
        algorithm: String,
    },
}

} // verus!
