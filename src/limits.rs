//! Guards on nesting depth, running time and memory growth.

use crate::error::{decimal, decimal_text, decimal_text_u64, RfmtError};
use crate::policy::check_recursion_depth;
use std::time::{Duration, Instant};
use vstd::prelude::*;
use vstd::string::StringExecFns;

verus! {

#[verifier::external_type_specification]
#[verifier::external_body]
pub struct ExInstant(Instant);

/// Relies on `Instant::now`: a reading of the monotonic clock.
#[verifier::external_body]
pub(crate) fn instant_now() -> (r: Instant) {
    Instant::now()
}

/// Relies on `Instant::elapsed`: the time since `start`.
#[verifier::external_body]
pub(crate) fn elapsed_since(start: &Instant) -> (r: Duration) {
    start.elapsed()
}

/// Relies on `Duration::as_nanos`: the whole nanoseconds of `d`.
#[verifier::external_body]
fn nanos_of(d: &Duration) -> (r: u128) {
    d.as_nanos()
}

/// Relies on `Duration::new`: a span of `secs` seconds and `nanos`
/// nanoseconds (below one second, so it never panics).
#[verifier::external_body]
fn duration_of(secs: u64, nanos: u32) -> (r: Duration)
    requires
        nanos < 1_000_000_000,
{
    Duration::new(secs, nanos)
}

/// Nanoseconds in a second.
pub const NANOS_PER_SEC: u128 = 1_000_000_000;

/// Tracks the nesting depth of a walk against a limit.
pub struct RecursionTracker {
    depth: usize,
    max_depth: usize,
}

/// Proof of one level entered; hand it back to leave that level.
pub struct RecursionGuard {
    level: usize,
}

impl RecursionTracker {
    /// The current depth.
    pub closed spec fn spec_depth(&self) -> usize {
        self.depth
    }

    /// The deepest accepted level.
    pub closed spec fn spec_max_depth(&self) -> usize {
        self.max_depth
    }

    /// A tracker at depth zero.
    pub fn new(max_depth: usize) -> (r: RecursionTracker)
        ensures
            r.spec_depth() == 0,
            r.spec_max_depth() == max_depth,
    {
        RecursionTracker { depth: 0, max_depth }
    }

    /// Enters one level. The depth grows either way; the result is an error
    /// when the new depth is beyond the limit.
    pub fn enter(&mut self) -> (r: Result<RecursionGuard, RfmtError>)
        requires
            old(self).spec_depth() < usize::MAX,
        ensures
            final(self).spec_depth() == old(self).spec_depth() + 1,
            final(self).spec_max_depth() == old(self).spec_max_depth(),
            r is Ok <==> final(self).spec_depth() <= final(self).spec_max_depth(),
    {
        self.depth = self.depth + 1;
        match check_recursion_depth(self.depth, self.max_depth) {
            Ok(()) => Ok(RecursionGuard { level: self.depth }),
            Err(e) => Err(e),
        }
    }

    /// Leaves the level that `guard` entered.
    pub fn leave(&mut self, guard: RecursionGuard)
        ensures
            final(self).spec_depth() == if old(self).spec_depth() > 0 { old(self).spec_depth() - 1 } else { 0 },
            final(self).spec_max_depth() == old(self).spec_max_depth(),
    {
        let _ = guard.level;
        self.depth = if self.depth > 0 { self.depth - 1 } else { 0 };
    }

    /// The current depth.
    pub fn depth(&self) -> (r: usize)
        ensures
            r == self.spec_depth(),
    {
        self.depth
    }
}

/// A time limit for one operation.
pub struct TimeoutGuard {
    start: Instant,
    timeout_seconds: u64,
    operation: String,
}

impl TimeoutGuard {
    /// The limit, in seconds.
    pub closed spec fn spec_timeout(&self) -> u64 {
        self.timeout_seconds
    }

    /// The operation's name.
    pub closed spec fn spec_operation(&self) -> Seq<char> {
        self.operation@
    }

    /// Starts the clock for `operation` with a limit of `timeout_seconds`.
    pub fn new(timeout_seconds: u64, operation: &str) -> (r: TimeoutGuard)
        ensures
            r.spec_timeout() == timeout_seconds,
            r.spec_operation() == operation@,
    {
        TimeoutGuard { start: instant_now(), timeout_seconds, operation: String::from_str(operation) }
    }

    /// The verdict for an elapsed time of `elapsed_nanos`: an error once it
    /// is beyond the limit.
    pub fn check_at(&self, elapsed_nanos: u128) -> (r: Result<(), RfmtError>)
        ensures
            r is Ok <==> elapsed_nanos <= self.spec_timeout() as int * 1_000_000_000,
            r matches Err(e) ==> e matches RfmtError::InternalError { message, .. }
                && message@ == "Operation '"@ + self.spec_operation() + "' timed out. Maximum allowed time: "@
                    + decimal(self.spec_timeout() as nat) + " s"@,
    {
        let limit: u128 = self.timeout_seconds as u128 * NANOS_PER_SEC;
        if elapsed_nanos > limit {
            return Err(RfmtError::InternalError {
                message: String::from_str("Operation '").concat(self.operation.as_str())
                    .concat("' timed out. Maximum allowed time: ")
                    .concat(decimal_text_u64(self.timeout_seconds).as_str()).concat(" s"),
                backtrace: String::new(),
            });
        }
        Ok(())
    }

    /// Whether the limit has passed, by the clock now.
    pub fn check(&self) -> (r: Result<(), RfmtError>) {
        self.check_at(nanos_of(&elapsed_since(&self.start)))
    }

    /// Time since the guard started.
    pub fn elapsed(&self) -> Duration {
        elapsed_since(&self.start)
    }

    /// What is left of the limit after `elapsed_nanos`, as whole seconds
    /// and the nanoseconds beyond them.
    pub fn remaining_at(&self, elapsed_nanos: u128) -> (r: (u64, u32))
        ensures
            r.1 < 1_000_000_000,
            r.0 as int * 1_000_000_000 + r.1 == if elapsed_nanos >= self.spec_timeout() as int * 1_000_000_000 {
                0
            } else {
                self.spec_timeout() as int * 1_000_000_000 - elapsed_nanos
            },
    {
        let limit: u128 = self.timeout_seconds as u128 * NANOS_PER_SEC;
        let left: u128 = if elapsed_nanos >= limit { 0 } else { limit - elapsed_nanos };
        let secs = left / NANOS_PER_SEC;
        let nanos = left % NANOS_PER_SEC;
        assert(secs <= self.timeout_seconds) by (nonlinear_arith)
            requires
                left <= limit,
                limit == self.timeout_seconds as u128 * 1_000_000_000,
                secs == left / 1_000_000_000,
        {}
        assert(secs * 1_000_000_000 + nanos == left) by (nonlinear_arith)
            requires
                secs == left / 1_000_000_000,
                nanos == left % 1_000_000_000,
        {}
        (secs as u64, nanos as u32)
    }

    /// What is left of the limit, by the clock now.
    pub fn remaining(&self) -> Duration {
        let (secs, nanos) = self.remaining_at(nanos_of(&elapsed_since(&self.start)));
        duration_of(secs, nanos)
    }
}

/// Tracks memory growth since a starting reading against a limit. The
/// readings come from the caller (zero when the platform gives none).
pub struct MemoryTracker {
    initial_usage: usize,
    max_usage: usize,
}

impl MemoryTracker {
    /// The reading at the start.
    pub closed spec fn spec_initial(&self) -> usize {
        self.initial_usage
    }

    /// The accepted growth.
    pub closed spec fn spec_max(&self) -> usize {
        self.max_usage
    }

    /// A tracker that accepts `max_usage` bytes of growth over
    /// `initial_usage`.
    pub fn new(max_usage: usize, initial_usage: usize) -> (r: MemoryTracker)
        ensures
            r.spec_initial() == initial_usage,
            r.spec_max() == max_usage,
    {
        MemoryTracker { initial_usage, max_usage }
    }

    /// Growth from the starting reading to `current` (zero if it shrank).
    pub fn current_delta(&self, current: usize) -> (r: usize)
        ensures
            r == if current > self.spec_initial() { current - self.spec_initial() } else { 0 },
    {
        if current > self.initial_usage { current - self.initial_usage } else { 0 }
    }

    /// The verdict for reading `current`: a reading of zero means no
    /// tracking and passes; otherwise growth beyond the limit is an error.
    pub fn check(&self, current: usize) -> (r: Result<(), RfmtError>)
        ensures
            r is Ok <==> (current == 0 || self.current_delta_spec(current) <= self.spec_max()),
    {
        if current == 0 {
            return Ok(());
        }
        let used = self.current_delta(current);
        if used > self.max_usage {
            return Err(RfmtError::InternalError {
                message: String::from_str("Memory usage (").concat(decimal_text(used).as_str())
                    .concat(" bytes) exceeds maximum allowed (").concat(decimal_text(self.max_usage).as_str())
                    .concat(" bytes)"),
                backtrace: String::new(),
            });
        }
        Ok(())
    }

    /// Growth from the starting reading to `current`.
    pub open spec fn current_delta_spec(&self, current: usize) -> int {
        if current > self.spec_initial() { current - self.spec_initial() } else { 0 }
    }
}

} // verus!
