use vstd::prelude::*;

verus! {

/// The command line: options, then the command or alias to run with its
/// arguments.
#[derive(Debug)]
pub struct Args {
    /// Generate a new config file, from the named template when given.
    pub new: Option<Option<String>>,
    /// List the aliases of the selected profile.
    pub list: bool,
    /// List all known profiles.
    pub list_profiles: bool,
    /// The profile to select.
    pub profile: Option<String>,
    /// Extra env specs (`KEY`, `KEY=VAL` or `KEY=$(cmd)`).
    pub env: Vec<String>,
    /// Run every step interactively.
    pub interactive: bool,
    /// Remove and recreate the container.
    pub restart: bool,
    /// Rebuild the image.
    pub rebuild: bool,
    /// Stop and remove this project's container.
    pub stop: bool,
    /// Stop and remove all containers this tool manages.
    pub stop_all: bool,
    /// The command or alias, then its arguments.
    pub command: Vec<String>,
}

} // verus!
