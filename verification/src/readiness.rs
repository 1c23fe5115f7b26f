//! The readiness bridge: the retry discipline that turns a non-blocking
//! resource (try the operation; it may report would-block) plus an OS
//! readiness signal into suspend/resume points for a cooperative scheduler.
//!
//! The driving shell waits for readiness, tries the operation, and feeds the
//! outcome to a step function here; the step says whether to return the
//! result or to clear the readiness state and retry. A would-block outcome is
//! never surfaced to the caller.
//!
//! Two caveats bind the shell. The synchronous transport under a session is
//! not safe for concurrent invocation: at most one derived object may be in
//! the middle of an attempt against it at any instant, so the shell must
//! serialize transport access. And abandoning a pending operation merely
//! stops the waiting — partial side effects already issued to the transport
//! may stand, so cancellation is a correctness risk, not a safe default.

use vstd::prelude::*;

verus! {

/// Outcome of one non-blocking attempt against the wrapped resource.
pub enum Attempt<T, E> {
    /// The operation completed with a value.
    Ready(T),
    /// The operation could not proceed; readiness was spurious.
    WouldBlock,
    /// The operation failed with a genuine error.
    Failed(E),
}

/// What the bridge does after one attempt.
pub enum BridgeStep<T, E> {
    /// Hand this result to the caller.
    Return(Result<T, E>),
    /// Clear the stored readiness state and wait for the next signal.
    ClearAndRetry,
}

/// What the accept variant of the bridge does after one attempt: the accept
/// primitive cannot be driven purely by readiness edges, so a would-block
/// outcome additionally schedules a bounded re-check.
pub enum AcceptStep<T, E> {
    /// Hand this result to the caller.
    Return(Result<T, E>),
    /// Sleep this many milliseconds, then wait for readiness and retry.
    SleepAndRetry(u64),
}

/// Fixed re-check interval of the accept polling fallback, in milliseconds.
pub const ACCEPT_POLL_MILLIS: u64 = 10;

/// One step of the readiness bridge: a completed operation or a genuine error
/// is returned unchanged; would-block clears readiness and retries.
pub fn bridge_step<T, E>(a: Attempt<T, E>) -> (r: BridgeStep<T, E>)
    ensures
        match a {
            Attempt::Ready(v) => r == BridgeStep::Return(Ok::<T, E>(v)),
            Attempt::WouldBlock => r == BridgeStep::<T, E>::ClearAndRetry,
            Attempt::Failed(e) => r == BridgeStep::Return(Err::<T, E>(e)),
        },
{
    match a {
        Attempt::Ready(v) => BridgeStep::Return(Ok(v)),
        Attempt::WouldBlock => BridgeStep::ClearAndRetry,
        Attempt::Failed(e) => BridgeStep::Return(Err(e)),
    }
}

/// One step of the listener-accept bridge: as `bridge_step`, but a
/// would-block outcome schedules the fixed bounded re-check before the next
/// readiness wait.
pub fn accept_step<T, E>(a: Attempt<T, E>) -> (r: AcceptStep<T, E>)
    ensures
        match a {
            Attempt::Ready(v) => r == AcceptStep::Return(Ok::<T, E>(v)),
            Attempt::WouldBlock => r == AcceptStep::<T, E>::SleepAndRetry(ACCEPT_POLL_MILLIS),
            Attempt::Failed(e) => r == AcceptStep::Return(Err::<T, E>(e)),
        },
{
    match a {
        Attempt::Ready(v) => AcceptStep::Return(Ok(v)),
        Attempt::WouldBlock => AcceptStep::SleepAndRetry(ACCEPT_POLL_MILLIS),
        Attempt::Failed(e) => AcceptStep::Return(Err(e)),
    }
}

/// The result the bridge hands back for a sequence of attempts: that of the
/// first decisive (non-would-block) attempt, unchanged; `None` while every
/// attempt so far would block.
pub open spec fn first_decisive<T, E>(attempts: Seq<Attempt<T, E>>) -> Option<Result<T, E>>
    decreases attempts.len(),
{
    if attempts.len() == 0 {
        None
    } else {
        match attempts[0] {
            Attempt::Ready(v) => Some(Ok(v)),
            Attempt::Failed(e) => Some(Err(e)),
            Attempt::WouldBlock => first_decisive(attempts.skip(1)),
        }
    }
}

/// Runs the bridge over a sequence of attempt outcomes: would-block attempts
/// are retried transparently and the first decisive result is returned
/// unchanged.
#[verifier::loop_isolation(false)]
pub fn bridge_run<T, E>(attempts: Vec<Attempt<T, E>>) -> (r: Option<Result<T, E>>)
    ensures
        r == first_decisive(attempts@),
{
    let ghost orig = attempts@;
    let mut rest = attempts;
    while rest.len() > 0
        invariant
            first_decisive(orig) == first_decisive(rest@),
        decreases rest@.len(),
    {
        let ghost prev = rest@;
        let a = rest.remove(0);
        proof {
            assert(rest@ =~= prev.skip(1));
        }
        match bridge_step(a) {
            BridgeStep::Return(res) => {
                return Some(res);
            },
            BridgeStep::ClearAndRetry => {},
        }
    }
    None
}

} // verus!
