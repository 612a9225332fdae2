//! The command-line surface, as plain data: the program parses the
//! arguments and hands the library these values.

use vstd::prelude::*;
use crate::frames::SupportedResetTypes;

verus! {

/// The parsed command line.
pub struct Arguments {
    /// The node to interact with.
    pub node: Option<String>,
    /// The CAN device to use; `can0` when not given.
    pub device: String,
    /// The manifest of UDS nodes on the bus.
    pub node_manifest: String,
    /// The chosen subcommand.
    pub subcmd: ArgSubCommands,
}

/// The subcommands the client offers.
pub enum ArgSubCommands {
    Download(SubArgDownload),
    BootloaderDownload(SubArgBootloaderDownload),
    Batch(SubArgBatch),
    Reset(SubArgReset),
    NVMHardReset(SubArgNVMHardReset),
    ReadDID(SubArgReadDID),
}

/// Download an application to an ECU.
pub struct SubArgDownload {
    /// Do not skip the download on a CRC match.
    pub no_skip: bool,
    /// Path of the binary file to flash.
    pub binary: String,
}

/// Download a set of applications to their ECUs.
pub struct SubArgBatch {
    /// Repeatable node-to-binary pairs of the form `node:/path/to/bin`.
    pub targets: Vec<String>,
}

/// Download a bootloader to an ECU.
pub struct SubArgBootloaderDownload {
    /// Path of the binary file to flash.
    pub binary: String,
}

/// Reset an ECU.
pub struct SubArgReset {
    /// The reset kind, `soft` or `hard`.
    pub reset_type: SupportedResetTypes,
}

/// Read a diagnostic identifier from an ECU.
pub struct SubArgReadDID {
    /// The identifier, in hex.
    pub id: String,
}

/// Hard-reset the whole non-volatile memory, internal values included.
pub struct SubArgNVMHardReset {}

} // verus!
