//! The circuit breaker in front of the cloud engine.
use vstd::prelude::*;

use crate::orchestrator::config;

verus! {

/// How long the cloud engine is left alone after a failure.
pub const CLOUD_RETRY_BACKOFF_NS: u64 = 750_000_000;

/// Whether the cloud engine may be asked; once it failed, not before the next
/// retry time, in milliseconds since the session started.
#[derive(Debug, Clone, Copy, PartialEq, Eq, Structural)]
pub struct CloudCircuit {
    pub enabled: bool,
    pub next_retry_ms: u64,
}

/// Whether `c` lets an attempt through at `elapsed_ns`.
pub open spec fn lets_through(c: CloudCircuit, elapsed_ns: u64) -> bool {
    c.enabled || elapsed_ns / 1_000_000 >= c.next_retry_ms
}

/// `c` after a failure at `elapsed_ns`.
pub open spec fn tripped(c: CloudCircuit, elapsed_ns: u64, backoff_ns: u64) -> CloudCircuit {
    CloudCircuit {
        enabled: false,
        next_retry_ms: (elapsed_ns / 1_000_000 + backoff_ns / 1_000_000) as u64,
    }
}

impl CloudCircuit {
    pub fn new() -> (r: Self)
        ensures
            r == (CloudCircuit { enabled: true, next_retry_ms: 0 }),
    {
        CloudCircuit { enabled: true, next_retry_ms: 0 }
    }

    pub fn is_enabled(&self) -> (r: bool)
        ensures
            r == self.enabled,
    {
        self.enabled
    }

    /// Whether the cloud engine may be asked at `elapsed_ns`. The retry time
    /// closes the circuit again.
    pub fn allow_attempt(&mut self, elapsed_ns: u64) -> (r: bool)
        ensures
            r == lets_through(*old(self), elapsed_ns),
            *final(self) == (CloudCircuit { enabled: r, ..*old(self) }),
    {
        if self.enabled {
            return true;
        }
        if config::duration_to_ms(elapsed_ns) >= self.next_retry_ms {
            self.enabled = true;
            true
        } else {
            false
        }
    }

    pub fn mark_success(&mut self)
        ensures
            *final(self) == (CloudCircuit { enabled: true, next_retry_ms: 0 }),
    {
        self.next_retry_ms = 0;
        self.enabled = true;
    }

    /// Opens the circuit after a failure at `elapsed_ns`. Returns whether it
    /// was closed before.
    pub fn trip(&mut self, elapsed_ns: u64, backoff_ns: u64) -> (r: bool)
        ensures
            r == old(self).enabled,
            *final(self) == tripped(*old(self), elapsed_ns, backoff_ns),
    {
        let elapsed_ms = config::duration_to_ms(elapsed_ns);
        let backoff_ms = config::duration_to_ms(backoff_ns);
        self.next_retry_ms = elapsed_ms.saturating_add(backoff_ms);
        let was_enabled = self.enabled;
        self.enabled = false;
        was_enabled
    }
}

/// After a failure no attempt gets through before the backoff has passed, and
/// the first one after it does. Times count in whole milliseconds.
pub proof fn law_backoff_is_kept(c: CloudCircuit, failed_ns: u64, backoff_ns: u64, now_ns: u64)
    ensures
        lets_through(tripped(c, failed_ns, backoff_ns), now_ns) <==> now_ns / 1_000_000 >= failed_ns
            / 1_000_000 + backoff_ns / 1_000_000,
{
}

/// The cloud engine is asked freely until it fails. After a failure it is left
/// alone for three quarters of a second, whatever happened before, and one
/// success is enough to ask it freely again.
pub proof fn law_cloud_is_left_alone_after_a_failure(c: CloudCircuit, failed_ns: u64, now_ns: u64)
    ensures
        c.enabled ==> lets_through(c, now_ns),
        !tripped(c, failed_ns, CLOUD_RETRY_BACKOFF_NS).enabled,
        lets_through(tripped(c, failed_ns, CLOUD_RETRY_BACKOFF_NS), now_ns) <==> now_ns / 1_000_000
            >= failed_ns / 1_000_000 + 750,
{
}

} // verus!
