use fos_net_linux::{Backoff, FailureCause, NetError, NetlinkOutcome, RetryAction, EBUSY};

fn busy() -> NetlinkOutcome {
    NetlinkOutcome::KernelError { code: EBUSY }
}

#[test]
fn busy_three_times_then_success() {
    let mut b = Backoff::new();
    let mut slept: u64 = 0;
    for expected in [100u64, 200, 400] {
        match b.on_outcome(busy()) {
            RetryAction::Sleep { ms } => {
                assert_eq!(ms, expected);
                slept += ms;
            }
            other => panic!("unexpected {:?}", other),
        }
    }
    assert_eq!(b.on_outcome(NetlinkOutcome::Success), RetryAction::Done);
    assert!(slept >= 100 + 200 + 400);
    assert!(slept <= 5000);
    assert_eq!(b.waited_ms, 700);
}

#[test]
fn busy_until_the_budget_runs_out() {
    let mut b = Backoff::new();
    let mut delays = Vec::new();
    loop {
        match b.on_outcome(busy()) {
            RetryAction::Sleep { ms } => delays.push(ms),
            RetryAction::Fail { error } => {
                assert_eq!(error, NetError::NetworkingError(FailureCause::Timeout));
                break;
            }
            RetryAction::Done => panic!("a busy answer cannot succeed"),
        }
    }
    assert_eq!(delays, vec![100, 200, 400, 800, 1600]);
    assert_eq!(b.waited_ms, 3100);
    assert!(b.waited_ms <= 5000);
}

#[test]
fn other_kernel_error_is_returned_at_once() {
    let mut b = Backoff::new();
    assert_eq!(
        b.on_outcome(NetlinkOutcome::KernelError { code: -17 }),
        RetryAction::Fail { error: NetError::NetworkingError(FailureCause::Netlink { code: -17 }) }
    );
    assert_eq!(b.waited_ms, 0);
    assert_eq!(b.next_delay_ms, 100);
}

#[test]
fn transport_error_is_returned_at_once() {
    let mut b = Backoff::new();
    assert_eq!(
        b.on_outcome(NetlinkOutcome::TransportError),
        RetryAction::Fail { error: NetError::NetworkingError(FailureCause::Transport) }
    );
}

#[test]
fn success_first_time_waits_nothing() {
    let mut b = Backoff::new();
    assert_eq!(b.on_outcome(NetlinkOutcome::Success), RetryAction::Done);
    assert_eq!(b.waited_ms, 0);
}

#[test]
fn delay_is_capped_at_five_seconds() {
    let mut b = Backoff { next_delay_ms: 4000, waited_ms: 0 };
    assert_eq!(b.on_outcome(busy()), RetryAction::Sleep { ms: 4000 });
    assert_eq!(b.next_delay_ms, 5000);
    assert_eq!(b.waited_ms, 4000);
    assert_eq!(
        b.on_outcome(busy()),
        RetryAction::Fail { error: NetError::NetworkingError(FailureCause::Timeout) }
    );
}
