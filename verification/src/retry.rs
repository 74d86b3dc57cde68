//! Classifying backend failures and pacing bounded retry.
//!
//! The backend's own index and lock files are briefly held during
//! unrelated concurrent operations; failures that look like such
//! contention are retried with doubling backoff under a deadline, all
//! other failures surface at once.

use vstd::prelude::*;

use crate::errors::WtError;
use crate::strutil::contains_seq;
use crate::strutil::contains_str;
use crate::strutil::lower_seq;
use crate::strutil::to_ascii_lower;
use crate::strutil::trim_str;
use crate::strutil::trimmed;

verus! {

/// The backoff delay the first retry waits, in milliseconds.
pub const INITIAL_DELAY_MS: u64 = 30;

/// The largest backoff delay, in milliseconds.
pub const MAX_DELAY_MS: u64 = 500;

/// How long retrying may go on after the first attempt, in milliseconds.
pub const RETRY_DEADLINE_MS: u64 = 3000;

/// The diagnostic signatures of transient lock contention inside the
/// backend, matched case-insensitively.
pub open spec fn spec_is_lock_error(stderr: Seq<char>) -> bool {
    let s = lower_seq(stderr);
    ||| contains_seq(s, "index.lock"@)
    ||| contains_seq(s, "another git process seems to be running"@)
    ||| contains_seq(s, "could not write new index file"@)
    ||| (contains_seq(s, "unable to create"@) && contains_seq(s, "lock"@) && contains_seq(
        s,
        ".git"@,
    ))
}

/// Whether captured diagnostic text looks like transient lock contention
/// internal to the backend.
pub fn is_git_lock_error(stderr: &str) -> (r: bool)
    ensures
        r == spec_is_lock_error(stderr@),
{
    let low = to_ascii_lower(stderr);
    let s = low.as_str();
    if contains_str(s, "index.lock") {
        return true;
    }
    if contains_str(s, "another git process seems to be running") {
        return true;
    }
    if contains_str(s, "could not write new index file") {
        return true;
    }
    contains_str(s, "unable to create") && contains_str(s, "lock") && contains_str(s, ".git")
}

/// The state the retry driver carries between attempts: the delay the
/// next retry would sleep.
pub struct RetryState {
    pub delay_ms: u64,
}

/// What to do after a failed backend attempt.
pub enum RetryDecision {
    /// Sleep this many milliseconds, then try again.
    Retry(u64),
    /// The failure is not transient, or the deadline has passed: stop.
    GiveUp,
}

impl RetryState {
    /// The driver's state before the first retry.
    pub fn new() -> (r: RetryState)
        ensures
            r.delay_ms == INITIAL_DELAY_MS,
    {
        RetryState { delay_ms: INITIAL_DELAY_MS }
    }

    /// The delay after one doubling, capped.
    pub open spec fn spec_next_delay(&self) -> u64 {
        if self.delay_ms <= 250 {
            (self.delay_ms * 2) as u64
        } else {
            MAX_DELAY_MS
        }
    }

    /// Decides whether a failed attempt is retried: exactly when the
    /// diagnostic text matches a contention signature and the elapsed
    /// time since the first attempt is still under the deadline. A retry
    /// sleeps the current delay and doubles it, up to the cap.
    pub fn decide(&mut self, stderr: &str, elapsed_ms: u64) -> (r: RetryDecision)
        ensures
            (r is Retry <==> spec_is_lock_error(stderr@) && elapsed_ms < RETRY_DEADLINE_MS),
            r matches RetryDecision::Retry(d) ==> d == old(self).delay_ms && final(self).delay_ms
                == old(self).spec_next_delay(),
            r is GiveUp ==> final(self).delay_ms == old(self).delay_ms,
    {
        if is_git_lock_error(stderr) && elapsed_ms < RETRY_DEADLINE_MS {
            let d = self.delay_ms;
            self.delay_ms = if self.delay_ms <= 250 {
                self.delay_ms * 2
            } else {
                MAX_DELAY_MS
            };
            RetryDecision::Retry(d)
        } else {
            RetryDecision::GiveUp
        }
    }
}

/// The error surfaced when adding a worktree fails for good: the
/// backend's diagnostic text, trimmed, appended when there is any.
pub fn add_failure_error(stderr: &str) -> (r: WtError)
    ensures
        r matches WtError::BackendFailure(m) && m@ == (if trimmed(stderr@).len() == 0 {
            "git worktree add failed"@
        } else {
            "git worktree add failed: "@ + trimmed(stderr@)
        }),
{
    let t = trim_str(stderr);
    if t.unicode_len() == 0 {
        WtError::BackendFailure(String::from_str("git worktree add failed"))
    } else {
        WtError::BackendFailure(String::from_str("git worktree add failed: ").concat(t))
    }
}

/// The error surfaced when removing a worktree fails for good.
pub fn remove_failure_error(path: &str, stderr: &str) -> (r: WtError)
    ensures
        r matches WtError::BackendFailure(m) && m@ == (if trimmed(stderr@).len() == 0 {
            "git worktree remove failed for "@ + path@
        } else {
            "git worktree remove failed for "@ + path@ + ": "@ + trimmed(stderr@)
        }),
{
    let t = trim_str(stderr);
    if t.unicode_len() == 0 {
        WtError::BackendFailure(String::from_str("git worktree remove failed for ").concat(path))
    } else {
        WtError::BackendFailure(
            String::from_str("git worktree remove failed for ").concat(path).concat(": ").concat(
                t,
            ),
        )
    }
}

} // verus!
