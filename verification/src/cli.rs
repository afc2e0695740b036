//! The top-level command line: one subcommand per area.

use vstd::prelude::*;
use crate::issue::IssueCommandArgs;
use crate::pr::PrCommandArgs;
use crate::web::WebCommandArgs;

verus! {

/// The parsed command line.
pub struct Cli {
    pub subcommand: GitForgeCommand,
}

/// The tool's subcommands.
pub enum GitForgeCommand {
    /// List issues from the remote repository.
    Issue(IssueCommandArgs),
    /// Interact with pull requests.
    Pr(PrCommandArgs),
    /// Get the web URL for the remote repository.
    Web(WebCommandArgs),
}

} // verus!
