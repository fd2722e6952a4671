//! The commands the helper offers.
use vstd::prelude::*;

verus! {

/// A parsed command line.
#[derive(Debug, Clone)]
pub struct Cli {
    pub command: Commands,
}

/// One command of the helper.
#[derive(Debug, Clone)]
pub enum Commands {
    /// Create a commit whose message comes from the template of `commit_type`.
    Commit { message: String, commit_type: String },
    /// Show the repository status in short.
    Status,
    /// Delete the local branches merged into the default branch.
    CleanBranches,
    /// List the local branches.
    ListBranches,
}

} // verus!
