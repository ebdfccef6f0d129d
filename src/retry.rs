use vstd::prelude::*;
use crate::types::QueryError;

verus! {

/// Timeouts of one query and how many times a request is sent before the
/// query gives up.
#[derive(Debug, Clone, Copy, PartialEq, Eq, Structural)]
pub struct TimeoutSettings {
    /// How long to wait for an answer, in milliseconds.
    pub read_timeout_ms: u64,
    /// How long a send may take, in milliseconds.
    pub write_timeout_ms: u64,
    /// How many attempts a request gets in all.
    pub retries: u32,
}

/// How many attempts a request gets: the retry count, and at least one.
pub open spec fn attempts_allowed(retries: u32) -> nat {
    if retries == 0 {
        1
    } else {
        retries as nat
    }
}

/// What follows when the `attempts`-th attempt timed out: `None` to send
/// again, or the error the query ends with.
pub open spec fn timeout_outcome(attempts: nat, retries: u32) -> Option<QueryError> {
    if attempts < attempts_allowed(retries) {
        None
    } else {
        Some(QueryError::SocketTimeout)
    }
}

impl TimeoutSettings {
    pub fn new(read_timeout_ms: u64, write_timeout_ms: u64, retries: u32) -> (r: TimeoutSettings)
        ensures
            r == (TimeoutSettings { read_timeout_ms, write_timeout_ms, retries }),
    {
        TimeoutSettings { read_timeout_ms, write_timeout_ms, retries }
    }

    /// Decides what to do after the `attempts`-th attempt timed out: `Ok`
    /// to send again, `Err(SocketTimeout)` once every attempt is spent.
    pub fn after_timeout(&self, attempts: u32) -> (r: Result<(), QueryError>)
        ensures
            r is Ok <==> timeout_outcome(attempts as nat, self.retries) is None,
            r matches Err(e) ==> timeout_outcome(attempts as nat, self.retries) == Some(e),
    {
        let allowed: u32 = if self.retries == 0 {
            1
        } else {
            self.retries
        };
        if attempts < allowed {
            Ok(())
        } else {
            Err(QueryError::SocketTimeout)
        }
    }
}

impl Default for TimeoutSettings {
    /// Four seconds for reads and writes, and three attempts.
    fn default() -> (r: TimeoutSettings)
        ensures
            r == (TimeoutSettings { read_timeout_ms: 4000, write_timeout_ms: 4000, retries: 3 }),
    {
        TimeoutSettings { read_timeout_ms: 4000, write_timeout_ms: 4000, retries: 3 }
    }
}

/// When no answer ever comes, a request is sent exactly as many times as
/// the retry count says (once when it is zero): every earlier timeout leads
/// to another attempt, and the last one ends the query with `SocketTimeout`.
pub proof fn lemma_attempts_exact(retries: u32)
    ensures
        forall|k: nat| 1 <= k < attempts_allowed(retries) ==> #[trigger] timeout_outcome(k, retries) is None,
        timeout_outcome(attempts_allowed(retries), retries) == Some(QueryError::SocketTimeout),
        retries > 0 ==> attempts_allowed(retries) == retries as nat,
{
}

} // verus!
