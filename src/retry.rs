use vstd::prelude::*;

verus! {

/// Delay, in milliseconds, between two attempts of a retried filesystem call.
pub const RETRY_DELAY_MS: u64 = 200;

/// The number of attempts made of a retried filesystem call before its last
/// failure is reported.
pub const RETRY_ATTEMPTS: usize = 6;

/// Bookkeeping of one retried call: how many of its attempts have failed.
#[derive(Debug, Clone, Copy, PartialEq, Eq, Structural)]
pub struct Retry {
    pub failures: usize,
}

impl Retry {
    /// A call that has not been attempted yet.
    pub fn new() -> (r: Retry)
        ensures
            r.failures == 0,
    {
        Retry { failures: 0 }
    }

    /// Whether another attempt may still follow a failure.
    pub open spec fn exhausted(self) -> bool {
        self.failures >= RETRY_ATTEMPTS
    }

    /// Records that an attempt failed. Returns `true` when the call is to be
    /// attempted again after `RETRY_DELAY_MS`, and `false` when this failure is
    /// the last one and is to be reported as it is.
    pub fn on_failure(&mut self) -> (again: bool)
        requires
            !old(self).exhausted(),
        ensures
            final(self).failures == old(self).failures + 1,
            again == !final(self).exhausted(),
    {
        self.failures = self.failures + 1;
        self.failures < RETRY_ATTEMPTS
    }
}

} // verus!
