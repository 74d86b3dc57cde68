//! Verified core of a git-worktree lifecycle manager.
//!
//! The library holds the decision logic of the tool: name validation,
//! default-name generation, lexicographic listing, retry classification
//! for backend lock contention, worktree-list parsing, and the path
//! planning behind create, switch and clear. Process spawning, the file
//! lock and all other I/O live outside the library and hand it plain
//! values.

pub mod config;
pub mod dispatch;
pub mod errors;
pub mod gitout;
pub mod listing;
pub mod names;
pub mod paths;
pub mod repo;
pub mod retry;
pub mod strutil;
