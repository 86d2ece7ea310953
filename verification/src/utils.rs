//! Trying again after a failure: how the attempts are counted, and when a
//! failure is final. The waiting between attempts is the caller's.

use vstd::prelude::*;

verus! {

/// How a failed attempt is to be treated.
#[derive(Debug, Clone, Copy, PartialEq, Eq, Structural)]
pub enum FailureKind {
    /// The operation is tried again.
    Transient,
    /// The operation is given up.
    Permanent,
}

/// The waiting times between attempts, in milliseconds: the first one, and
/// the one that the rising times do not pass.
#[derive(Debug, Clone, Copy, PartialEq, Eq, Structural)]
pub struct BackoffConfig {
    pub initial_interval_ms: u64,
    pub max_interval_ms: u64,
}

/// The waiting times that this library asks for: one second at first, five
/// seconds at most.
pub fn backoff_config() -> (config: BackoffConfig)
    ensures
        config == (BackoffConfig { initial_interval_ms: 1000, max_interval_ms: 5000 }),
{
    BackoffConfig { initial_interval_ms: 1000, max_interval_ms: 5000 }
}

/// The failure of attempt number `cur_times`, counted from 1, is final once
/// more attempts were made than `max_times`.
pub fn map_to_backoff_err(cur_times: usize, max_times: usize) -> (kind: FailureKind)
    ensures
        kind == if cur_times > max_times {
            FailureKind::Permanent
        } else {
            FailureKind::Transient
        },
{
    if cur_times > max_times {
        FailureKind::Permanent
    } else {
        FailureKind::Transient
    }
}

/// The attempts at one operation.
#[derive(Debug)]
pub struct RetryState {
    retry_times: usize,
    cur_times: usize,
}

impl RetryState {
    /// How often a failed attempt is followed by another one.
    pub closed spec fn retry_times(&self) -> nat {
        self.retry_times as nat
    }

    /// How many attempts were made.
    pub closed spec fn cur_times(&self) -> nat {
        self.cur_times as nat
    }

    /// No attempt was made yet.
    pub fn new(retry_times: usize) -> (r: Self)
        ensures
            r.retry_times() == retry_times,
            r.cur_times() == 0,
    {
        RetryState { retry_times, cur_times: 0 }
    }

    /// How many attempts were made.
    pub fn attempts(&self) -> (n: usize)
        ensures
            n == self.cur_times(),
    {
        self.cur_times
    }

    /// Counts an attempt, and returns its number, counted from 1.
    pub fn begin_attempt(&mut self) -> (times: usize)
        requires
            old(self).cur_times() < usize::MAX,
        ensures
            times == old(self).cur_times() + 1,
            final(self).cur_times() == times,
            final(self).retry_times() == old(self).retry_times(),
    {
        self.cur_times = self.cur_times + 1;
        self.cur_times
    }

    /// Whether the attempt just made is one that follows a failure.
    pub fn is_retry(&self) -> (b: bool)
        ensures
            b == (self.cur_times() > 1),
    {
        self.cur_times > 1
    }

    /// How the failure of the attempt just made is to be treated.
    pub fn on_failure(&self) -> (kind: FailureKind)
        ensures
            kind == if self.cur_times() > self.retry_times() {
                FailureKind::Permanent
            } else {
                FailureKind::Transient
            },
    {
        map_to_backoff_err(self.cur_times, self.retry_times)
    }
}

} // verus!
