//! The failures the helper reports.
use vstd::prelude::*;

verus! {

/// A failure, reported to the user as one line of text.
#[derive(Debug, Clone, PartialEq, Eq)]
pub enum HelperError {
    /// No repository was found from the current directory upward.
    NotARepository,
    /// Nothing is staged.
    NothingStaged,
    /// What is staged equals the tree of the last commit.
    NothingChanged,
    /// A configuration file was found but could not be parsed.
    Config(String),
    /// A file was found but could not be read.
    Io(String),
    /// A branch or reference that the operation needs is absent.
    MissingReference(String),
    /// The repository reported a failure.
    Git(String),
}

/// The text shown for a failure.
pub open spec fn message_of(e: HelperError) -> Seq<char> {
    match e {
        HelperError::NotARepository => "Not inside a git repository"@,
        HelperError::NothingStaged =>
            "Nothing to commit. No staged changes found.\nUse 'git add <file>' to stage changes first."@,
        HelperError::NothingChanged =>
            "Nothing to commit. The staged files have no changes compared to the last commit."@,
        HelperError::Config(m) => m@,
        HelperError::Io(m) => m@,
        HelperError::MissingReference(m) => m@,
        HelperError::Git(m) => m@,
    }
}

impl HelperError {
    /// The text shown for this failure.
    pub fn message(&self) -> (r: String)
        ensures
            r@ == message_of(*self),
    {
        match self {
            HelperError::NotARepository => String::from_str("Not inside a git repository"),
            HelperError::NothingStaged => String::from_str(
                "Nothing to commit. No staged changes found.\nUse 'git add <file>' to stage changes first.",
            ),
            HelperError::NothingChanged => String::from_str(
                "Nothing to commit. The staged files have no changes compared to the last commit.",
            ),
            HelperError::Config(m) => m.clone(),
            HelperError::Io(m) => m.clone(),
            HelperError::MissingReference(m) => m.clone(),
            HelperError::Git(m) => m.clone(),
        }
    }
}

} // verus!
