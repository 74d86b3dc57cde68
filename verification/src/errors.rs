//! User-facing failures of the lifecycle manager.

use vstd::prelude::*;

verus! {

/// Why a lifecycle operation was refused or failed.
///
/// `InvalidName`, `AlreadyExists`, `NotADirectory` and `DoesNotExist`
/// are user errors detected before any mutating action; `BackendFailure`
/// carries the backend's diagnostic text after retries were exhausted.
#[derive(Debug)]
pub enum WtError {
    /// The given worktree name is not a single ordinary path segment.
    InvalidName(String),
    /// The target worktree directory already exists.
    AlreadyExists(String),
    /// The target path exists but is not a directory.
    NotADirectory(String),
    /// The named worktree does not exist.
    DoesNotExist(String),
    /// The backend reported a non-transient failure; the payload is its
    /// diagnostic text.
    BackendFailure(String),
}

impl WtError {
    /// The message a user sees, phrased as the tool reports it.
    pub fn message(&self) -> (r: String)
        ensures
            r@ == self.spec_message(),
    {
        match self {
            WtError::InvalidName(name) => String::from_str("invalid worktree name '").concat(
                name.as_str(),
            ).concat("'"),
            WtError::AlreadyExists(name) => String::from_str("worktree '").concat(
                name.as_str(),
            ).concat("' already exists"),
            WtError::NotADirectory(path) => String::from_str(
                "worktree path exists and is not a directory: ",
            ).concat(path.as_str()),
            WtError::DoesNotExist(name) => String::from_str("worktree '").concat(
                name.as_str(),
            ).concat("' does not exist"),
            WtError::BackendFailure(text) => text.clone(),
        }
    }

    /// What `message` returns, for contracts.
    pub open spec fn spec_message(&self) -> Seq<char> {
        match self {
            WtError::InvalidName(name) => "invalid worktree name '"@ + name@ + "'"@,
            WtError::AlreadyExists(name) => "worktree '"@ + name@ + "' already exists"@,
            WtError::NotADirectory(path) => "worktree path exists and is not a directory: "@
                + path@,
            WtError::DoesNotExist(name) => "worktree '"@ + name@ + "' does not exist"@,
            WtError::BackendFailure(text) => text@,
        }
    }
}

} // verus!
