use vstd::prelude::*;
use crate::error::{FailureCause, NetError};

verus! {

/// The kernel's "device or resource busy" netlink error code.
pub const EBUSY: i32 = -16;

/// The first delay after a busy answer, in milliseconds.
pub const INITIAL_DELAY_MS: u64 = 100;

/// The ceiling of a single delay, in milliseconds.
pub const MAX_DELAY_MS: u64 = 5000;

/// The ceiling of the total time spent waiting on one operation, in milliseconds.
pub const MAX_TOTAL_WAIT_MS: u64 = 5000;

/// What one attempt of a netlink request came back with.
#[derive(Clone, Copy, Debug, PartialEq, Eq, Structural)]
pub enum NetlinkOutcome {
    Success,
    /// The kernel refused the request with this error code.
    KernelError { code: i32 },
    /// The request failed before the kernel answered.
    TransportError,
}

/// What the driver does next.
#[derive(Clone, Copy, Debug, PartialEq, Eq, Structural)]
pub enum RetryAction {
    /// The request succeeded.
    Done,
    /// Release the handle, suspend for `ms` milliseconds, then try again.
    Sleep { ms: u64 },
    /// Give up with this error.
    Fail { error: NetError },
}

/// Retry-on-busy state of one netlink operation.
#[derive(Clone, Copy, Debug, PartialEq, Eq, Structural)]
pub struct Backoff {
    /// The delay that the next busy answer costs.
    pub next_delay_ms: u64,
    /// The time already spent waiting.
    pub waited_ms: u64,
}

/// The delay after the `k`-th busy answer (from 0): 100 ms doubled `k` times, at most 5 s.
pub open spec fn delay_after(k: nat) -> int
    decreases k,
{
    if k == 0 {
        INITIAL_DELAY_MS as int
    } else {
        let d = 2 * delay_after((k - 1) as nat);
        if d > MAX_DELAY_MS { MAX_DELAY_MS as int } else { d }
    }
}

/// The time spent waiting after `k` busy answers that were all granted a retry.
pub open spec fn waited_after(k: nat) -> int
    decreases k,
{
    if k == 0 { 0 } else { waited_after((k - 1) as nat) + delay_after((k - 1) as nat) }
}

/// The action that follows `outcome` in state `b`.
pub open spec fn next_action(b: Backoff, outcome: NetlinkOutcome) -> RetryAction {
    match outcome {
        NetlinkOutcome::Success => RetryAction::Done,
        NetlinkOutcome::TransportError => RetryAction::Fail {
            error: NetError::NetworkingError(FailureCause::Transport),
        },
        NetlinkOutcome::KernelError { code } => if code != EBUSY {
            RetryAction::Fail { error: NetError::NetworkingError(FailureCause::Netlink { code }) }
        } else if b.waited_ms + b.next_delay_ms > MAX_TOTAL_WAIT_MS {
            RetryAction::Fail { error: NetError::NetworkingError(FailureCause::Timeout) }
        } else {
            RetryAction::Sleep { ms: b.next_delay_ms }
        },
    }
}

impl Backoff {
    /// The delays stay between the first delay and the ceiling, and the total
    /// wait within its budget.
    pub open spec fn wf(self) -> bool {
        &&& INITIAL_DELAY_MS <= self.next_delay_ms <= MAX_DELAY_MS
        &&& self.waited_ms <= MAX_TOTAL_WAIT_MS
    }

    /// The state after `k` busy answers, each granted a retry.
    pub open spec fn after_busy(k: nat) -> Backoff {
        Backoff { next_delay_ms: delay_after(k) as u64, waited_ms: waited_after(k) as u64 }
    }

    /// The state before the first attempt.
    pub fn new() -> (b: Backoff)
        ensures
            b.wf(),
            b == Backoff::after_busy(0),
    {
        Backoff { next_delay_ms: INITIAL_DELAY_MS, waited_ms: 0 }
    }

    /// Decides what follows one attempt. A busy answer is retried after the
    /// current delay, which then doubles up to the ceiling, as long as the
    /// total wait stays within its budget; past it the operation times out.
    /// Any other failure is returned at once.
    pub fn on_outcome(&mut self, outcome: NetlinkOutcome) -> (action: RetryAction)
        requires
            old(self).wf(),
        ensures
            final(self).wf(),
            action == next_action(*old(self), outcome),
            match action {
                RetryAction::Sleep { ms } => {
                    &&& final(self).waited_ms == old(self).waited_ms + ms
                    &&& final(self).next_delay_ms == if 2 * ms > MAX_DELAY_MS {
                        MAX_DELAY_MS as int
                    } else {
                        2 * ms
                    }
                },
                _ => *final(self) == *old(self),
            },
    {
        match outcome {
            NetlinkOutcome::Success => RetryAction::Done,
            NetlinkOutcome::TransportError => RetryAction::Fail {
                error: NetError::NetworkingError(FailureCause::Transport),
            },
            NetlinkOutcome::KernelError { code } => {
                if code != EBUSY {
                    RetryAction::Fail {
                        error: NetError::NetworkingError(FailureCause::Netlink { code }),
                    }
                } else if self.waited_ms + self.next_delay_ms > MAX_TOTAL_WAIT_MS {
                    RetryAction::Fail { error: NetError::NetworkingError(FailureCause::Timeout) }
                } else {
                    let ms = self.next_delay_ms;
                    self.waited_ms = self.waited_ms + ms;
                    self.next_delay_ms = if ms > MAX_DELAY_MS / 2 { MAX_DELAY_MS } else { 2 * ms };
                    RetryAction::Sleep { ms }
                }
            },
        }
    }
}

/// A busy answer moves the state that follows `k` busy answers to the one that
/// follows `k + 1`, and sleeps for the `k`-th delay, as long as the budget allows.
pub proof fn lemma_busy_step(k: nat)
    requires
        waited_after(k) + delay_after(k) <= MAX_TOTAL_WAIT_MS,
    ensures
        Backoff::after_busy(k).wf(),
        next_action(Backoff::after_busy(k), NetlinkOutcome::KernelError { code: EBUSY })
            == (RetryAction::Sleep { ms: delay_after(k) as u64 }),
        Backoff::after_busy(k + 1).waited_ms == waited_after(k) + delay_after(k),
        Backoff::after_busy(k + 1).next_delay_ms == delay_after(k + 1),
{
    lemma_delay_bounds(k);
    lemma_delay_bounds(k + 1);
    lemma_waited_nonneg(k);
    assert(waited_after(k + 1) == waited_after(k) + delay_after(k));
}

/// Every delay lies between the first delay and the ceiling.
pub proof fn lemma_delay_bounds(k: nat)
    ensures
        INITIAL_DELAY_MS <= delay_after(k) <= MAX_DELAY_MS,
    decreases k,
{
    if k > 0 {
        lemma_delay_bounds((k - 1) as nat);
    }
}

proof fn lemma_waited_nonneg(k: nat)
    ensures
        waited_after(k) >= 0,
    decreases k,
{
    if k > 0 {
        lemma_waited_nonneg((k - 1) as nat);
        lemma_delay_bounds((k - 1) as nat);
    }
}

/// Busy answers are granted exactly five retries, after 100, 200, 400, 800 and
/// 1600 ms; the sixth busy answer times out.
pub proof fn lemma_busy_schedule()
    ensures
        delay_after(0) == 100 && delay_after(1) == 200 && delay_after(2) == 400,
        delay_after(3) == 800 && delay_after(4) == 1600 && delay_after(5) == 3200,
        waited_after(5) == 3100,
        forall|k: nat| k < 5 ==> waited_after(k) + delay_after(k) <= MAX_TOTAL_WAIT_MS,
        next_action(Backoff::after_busy(5), NetlinkOutcome::KernelError { code: EBUSY })
            == (RetryAction::Fail { error: NetError::NetworkingError(FailureCause::Timeout) }),
{
    reveal_with_fuel(delay_after, 6);
    reveal_with_fuel(waited_after, 6);
    assert(waited_after(1) == 100);
    assert(waited_after(2) == 300);
    assert(waited_after(3) == 700);
    assert(waited_after(4) == 1500);
    assert(waited_after(5) == 3100);
}

} // verus!
