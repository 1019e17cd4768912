//! The commands of the program.

use vstd::prelude::*;

verus! {

/// The command line: an optional command.
#[derive(Debug, Clone)]
pub struct Cli {
    pub command: Option<Command>,
}

/// A command.
#[derive(Debug, Clone)]
pub enum Command {
    /// Search and download one or more plugins.
    Get {
        /// Plugin search text.
        query: String,
    },
    /// Choose the plugin provider server.
    Server,
    /// Update installed plugins in the current directory.
    Update {
        /// Target Minecraft version, or ask.
        version: Option<String>,
        /// Target server software (loader), or ask.
        loader: Option<String>,
    },
}

} // verus!
