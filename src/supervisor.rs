//! What happens when a session ends: every end of a session is a failure,
//! and the supervisor either starts a fresh session after a delay or stops.
use vstd::prelude::*;

verus! {

/// The delay before a new session, in milliseconds.
pub const RECONNECT_DELAY_MS: u64 = 5000;

/// Why a session ended.
#[derive(PartialEq, Eq, Structural, Clone, Copy, Debug)]
pub enum SessionEnd {
    /// The node closed the connection.
    Closed,
    /// Connecting, sending or receiving failed.
    TransportError,
}

/// The supervisor's decision after a session ended.
#[derive(PartialEq, Eq, Structural, Clone, Copy, Debug)]
pub enum Decision {
    /// Start a fresh session, with nothing pending, after `after_ms`.
    Restart { after_ms: u64 },
    /// Stop retrying.
    GiveUp,
}

/// When and how often to restart a session.
#[derive(PartialEq, Eq, Structural, Clone, Copy, Debug)]
pub struct RetryPolicy {
    pub delay_ms: u64,
    /// How many sessions may fail in a row before the supervisor stops;
    /// `None` retries forever.
    pub max_failures: Option<u64>,
}

impl RetryPolicy {
    /// Retry forever, waiting the fixed reconnect delay each time.
    pub fn fixed() -> (r: RetryPolicy)
        ensures
            r.delay_ms == RECONNECT_DELAY_MS,
            r.max_failures is None,
    {
        RetryPolicy { delay_ms: RECONNECT_DELAY_MS, max_failures: None }
    }

    /// Decides what follows the end of a session, whatever its cause, after
    /// `failures` sessions (this one included) failed in a row.
    pub fn decide(&self, failures: u64) -> (r: Decision)
        ensures
            r == (match self.max_failures {
                Some(m) if failures >= m => Decision::GiveUp,
                _ => Decision::Restart { after_ms: self.delay_ms },
            }),
    {
        match self.max_failures {
            Some(m) => {
                if failures >= m {
                    Decision::GiveUp
                } else {
                    Decision::Restart { after_ms: self.delay_ms }
                }
            },
            None => Decision::Restart { after_ms: self.delay_ms },
        }
    }
}

} // verus!
