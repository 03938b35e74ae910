use vstd::arithmetic::power2::{lemma_pow2_unfold, pow2};
use vstd::prelude::*;

verus! {

/// The largest delay that can be represented; doubling saturates here.
pub open spec fn max_delay() -> nat {
    u64::MAX as nat
}

/// A delay clamped at the largest representable delay.
pub open spec fn clamp_delay(d: nat) -> nat {
    if d <= max_delay() {
        d
    } else {
        max_delay()
    }
}

/// A delay doubled, clamped at the largest representable delay.
pub open spec fn saturating_double(d: nat) -> nat {
    if 2 * d <= max_delay() {
        2 * d
    } else {
        max_delay()
    }
}

/// How retries of one invite are paced: the number of retries after the
/// first attempt, and the delay before the first retry in milliseconds.
#[derive(Debug, Clone, Copy, PartialEq, Eq)]
pub struct RetryPolicy {
    pub max_retries: usize,
    pub base_delay_ms: u64,
}

/// Where one invite stands in its retry sequence: the number of the attempt
/// that just ran (from 0) and the delay to wait before the next one.
#[derive(Debug, Clone, Copy, PartialEq, Eq)]
pub struct RetryState {
    pub attempt: usize,
    pub delay_ms: u64,
}

/// What to do after a failed attempt.
#[derive(Debug, Clone, Copy, PartialEq, Eq)]
pub enum RetryStep {
    /// Wait `delay_ms` milliseconds, then make attempt `attempt`.
    Wait { attempt: usize, delay_ms: u64 },
    /// The retries are used up: the last failure is terminal.
    GiveUp,
}

/// The state after `k` failed attempts when every attempt fails, starting
/// from attempt 0 with the base delay.
pub open spec fn state_after(policy: RetryPolicy, k: nat) -> RetryState
    decreases k,
{
    if k == 0 {
        RetryState { attempt: 0, delay_ms: policy.base_delay_ms }
    } else {
        next_state(policy, state_after(policy, (k - 1) as nat))
    }
}

/// Whether a failure in `state` is terminal.
pub open spec fn gives_up(policy: RetryPolicy, state: RetryState) -> bool {
    state.attempt >= policy.max_retries
}

/// The state after a failure in `state` that is not terminal.
pub open spec fn next_state(policy: RetryPolicy, state: RetryState) -> RetryState {
    if gives_up(policy, state) {
        state
    } else {
        RetryState {
            attempt: (state.attempt + 1) as usize,
            delay_ms: saturating_double(state.delay_ms as nat) as u64,
        }
    }
}

impl RetryPolicy {
    /// The state before the first attempt of an invite.
    pub fn start(&self) -> (r: RetryState)
        ensures
            r == state_after(*self, 0),
            r.attempt == 0,
            r.delay_ms == self.base_delay_ms,
    {
        RetryState { attempt: 0, delay_ms: self.base_delay_ms }
    }

    /// Decides what follows a failed attempt, and advances `state` to the
    /// next attempt when one is made. The delay doubles after each retry and
    /// saturates at `u64::MAX` instead of overflowing.
    pub fn after_failure(&self, state: &mut RetryState) -> (r: RetryStep)
        ensures
            gives_up(*self, *old(state)) ==> r == RetryStep::GiveUp && *final(state) == *old(
                state,
            ),
            !gives_up(*self, *old(state)) ==> r == (RetryStep::Wait {
                attempt: (old(state).attempt + 1) as usize,
                delay_ms: old(state).delay_ms,
            }),
            *final(state) == next_state(*self, *old(state)),
    {
        if state.attempt >= self.max_retries {
            RetryStep::GiveUp
        } else {
            let wait = state.delay_ms;
            state.attempt = state.attempt + 1;
            state.delay_ms = if state.delay_ms <= u64::MAX / 2 {
                state.delay_ms * 2
            } else {
                u64::MAX
            };
            RetryStep::Wait { attempt: state.attempt, delay_ms: wait }
        }
    }
}

/// When every attempt fails, attempts 0 through `max_retries` are made in
/// order and the failure of the last one, and only that one, is terminal:
/// exactly `max_retries + 1` attempts in all.
pub proof fn lemma_retry_bound(policy: RetryPolicy)
    ensures
        forall|k: nat|
            k <= policy.max_retries ==> (#[trigger] state_after(policy, k)).attempt == k,
        forall|k: nat| k < policy.max_retries ==> !gives_up(policy, #[trigger] state_after(policy, k)),
        gives_up(policy, state_after(policy, policy.max_retries as nat)),
{
    assert forall|k: nat| k <= policy.max_retries implies (#[trigger] state_after(
        policy,
        k,
    )).attempt == k by {
        lemma_attempt_number(policy, k);
    }
}

proof fn lemma_attempt_number(policy: RetryPolicy, k: nat)
    requires
        k <= policy.max_retries,
    ensures
        state_after(policy, k).attempt == k,
    decreases k,
{
    if k > 0 {
        lemma_attempt_number(policy, (k - 1) as nat);
    }
}

/// When every attempt fails, the delay before retry `k + 1` is the base
/// delay times `2^k`, clamped at `u64::MAX`: `d, 2d, 4d, ...` with no
/// overflow however many retries are allowed.
pub proof fn lemma_backoff_growth(policy: RetryPolicy, k: nat)
    requires
        k <= policy.max_retries,
    ensures
        state_after(policy, k).delay_ms as nat == clamp_delay(
            policy.base_delay_ms as nat * pow2(k),
        ),
    decreases k,
{
    let d = policy.base_delay_ms as nat;
    if k == 0 {
        assert(pow2(0) == 1) by {
            vstd::arithmetic::power::lemma_pow0(2);
        }
        assert(d * 1 == d);
    } else {
        let j = (k - 1) as nat;
        lemma_backoff_growth(policy, j);
        lemma_attempt_number(policy, j);
        lemma_pow2_unfold(k);
        let p = pow2(j);
        assert(d * pow2(k) == 2 * (d * p)) by (nonlinear_arith)
            requires
                pow2(k) == 2 * p,
        ;
    }
}

} // verus!
