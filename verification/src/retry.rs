//! The connection supervisor, modelled as an explicit state machine. The
//! caller performs the actual connection attempts and delays; the machine
//! decides what comes next: attempt counting starts at 1, a failed attempt
//! below the allowed maximum leads to a bounded exponential backoff, and the
//! last allowed failure surfaces the last observed error.

use vstd::prelude::*;

verus! {

/// Where acquisition stands.
#[derive(Clone, Copy, PartialEq, Eq, Structural, Debug)]
pub enum SupervisorState {
    /// No attempt has started yet.
    Idle,
    /// The numbered connection attempt, counted from 1, is in flight.
    Attempting { attempt: u32 },
    /// Waiting out the delay after the numbered attempt failed.
    Backoff { attempt: u32 },
    /// A session was acquired.
    Succeeded,
    /// Every allowed attempt failed; the last observed error is surfaced.
    Failed,
}

/// What the caller observed since the machine last decided.
#[derive(Clone, Copy, PartialEq, Eq, Structural, Debug)]
pub enum SupervisorEvent {
    /// Acquisition begins.
    Begin,
    /// The attempt in flight yielded a session.
    AttemptSucceeded,
    /// The attempt in flight failed.
    AttemptFailed,
    /// The backoff delay has elapsed.
    DelayElapsed,
}

/// A state the machine can actually reach under the given attempt bound: an
/// attempt number is counted from 1 and never exceeds the bound, and a
/// backoff only ever follows a failed attempt that was not the last allowed.
pub open spec fn wf_state(s: SupervisorState, max_attempts: u32) -> bool {
    match s {
        SupervisorState::Idle => true,
        SupervisorState::Attempting { attempt } => 1 <= attempt <= max_attempts,
        SupervisorState::Backoff { attempt } => 1 <= attempt < max_attempts,
        SupervisorState::Succeeded => true,
        SupervisorState::Failed => true,
    }
}

/// The transition relation: beginning moves to the first attempt (or straight
/// to failure when no attempt is allowed), a success ends acquisition, a
/// failure backs off unless the bound is exhausted, an elapsed delay starts
/// the next attempt, and any other event leaves the state unchanged.
pub open spec fn spec_transition(
    s: SupervisorState,
    e: SupervisorEvent,
    max_attempts: u32,
) -> SupervisorState {
    match (s, e) {
        (SupervisorState::Idle, SupervisorEvent::Begin) => if max_attempts == 0 {
            SupervisorState::Failed
        } else {
            SupervisorState::Attempting { attempt: 1 }
        },
        (
            SupervisorState::Attempting { attempt },
            SupervisorEvent::AttemptSucceeded,
        ) => SupervisorState::Succeeded,
        (SupervisorState::Attempting { attempt }, SupervisorEvent::AttemptFailed) => if attempt
            < max_attempts {
            SupervisorState::Backoff { attempt }
        } else {
            SupervisorState::Failed
        },
        (SupervisorState::Backoff { attempt }, SupervisorEvent::DelayElapsed) => {
            SupervisorState::Attempting { attempt: (attempt + 1) as u32 }
        },
        (other, _) => other,
    }
}

/// The state acquisition starts from.
pub fn initial_state() -> (s: SupervisorState)
    ensures
        s == SupervisorState::Idle,
{
    SupervisorState::Idle
}

/// Takes one step of the supervisor. A well-formed state stays well-formed,
/// so the attempt number never exceeds the allowed maximum.
pub fn transition(s: SupervisorState, e: SupervisorEvent, max_attempts: u32) -> (r:
    SupervisorState)
    requires
        wf_state(s, max_attempts),
    ensures
        r == spec_transition(s, e, max_attempts),
        wf_state(r, max_attempts),
{
    match (s, e) {
        (SupervisorState::Idle, SupervisorEvent::Begin) => {
            if max_attempts == 0 {
                SupervisorState::Failed
            } else {
                SupervisorState::Attempting { attempt: 1 }
            }
        },
        (SupervisorState::Attempting { attempt: _ }, SupervisorEvent::AttemptSucceeded) => {
            SupervisorState::Succeeded
        },
        (SupervisorState::Attempting { attempt }, SupervisorEvent::AttemptFailed) => {
            if attempt < max_attempts {
                SupervisorState::Backoff { attempt }
            } else {
                SupervisorState::Failed
            }
        },
        (SupervisorState::Backoff { attempt }, SupervisorEvent::DelayElapsed) => {
            SupervisorState::Attempting { attempt: attempt + 1 }
        },
        (other, _) => other,
    }
}

/// Two raised to the given power.
pub open spec fn pow2(n: nat) -> nat
    decreases n,
{
    if n == 0 {
        1
    } else {
        2 * pow2((n - 1) as nat)
    }
}

/// The backoff delay in seconds after the numbered failed attempt: two raised
/// to the attempt number, capped at sixteen.
pub open spec fn backoff_seconds(attempt: nat) -> nat {
    if attempt >= 4 {
        16
    } else {
        pow2(attempt)
    }
}

/// The cap is exactly where the uncapped power would pass it: the delay is
/// the minimum of two-to-the-attempt and sixteen.
pub proof fn lemma_backoff_is_capped_power(attempt: nat)
    ensures
        backoff_seconds(attempt) == if pow2(attempt) < 16 {
            pow2(attempt)
        } else {
            16nat
        },
{
    lemma_pow2_at_least(attempt);
    lemma_pow2_small();
}

proof fn lemma_pow2_small()
    ensures
        pow2(0) == 1,
        pow2(1) == 2,
        pow2(2) == 4,
        pow2(3) == 8,
{
    assert(pow2(0) == 1);
    assert(pow2(1) == 2);
    assert(pow2(2) == 4);
    assert(pow2(3) == 8);
}

proof fn lemma_pow2_at_least(n: nat)
    ensures
        n >= 4 ==> pow2(n) >= 16,
        pow2(n) >= 1,
    decreases n,
{
    if n > 0 {
        lemma_pow2_at_least((n - 1) as nat);
    }
    if n == 4 {
        lemma_pow2_small();
    }
}

/// The seconds to wait after the numbered failed attempt.
pub fn backoff_delay(attempt: u32) -> (r: u64)
    ensures
        r as nat == backoff_seconds(attempt as nat),
{
    proof {
        lemma_pow2_small();
    }
    if attempt >= 4 {
        16
    } else if attempt == 0 {
        1
    } else if attempt == 1 {
        2
    } else if attempt == 2 {
        4
    } else {
        8
    }
}

} // verus!
