//! The `web` subcommand's argument types.

use vstd::prelude::*;
use crate::forge::ApiType;

verus! {

/// Target of the forge to generate a URL for.
#[derive(Clone, Copy, Debug, PartialEq)]
pub enum WebTarget {
    /// The main repository page.
    Repository,
    /// The issues list page.
    Issues,
    /// The pull requests list page.
    Prs,
    /// Alias for Prs.
    Mrs,
}

/// Command-line arguments for the `web` subcommand.
pub struct WebCommandArgs {
    /// Forge type override; detected from the host when absent.
    pub api: Option<ApiType>,
    /// Target page; the repository page when absent.
    pub target: Option<WebTarget>,
    /// Git remote to use.
    pub remote: String,
}

} // verus!
