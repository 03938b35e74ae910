use discodigg::retry::{RetryPolicy, RetryStep};

fn failing_run(policy: RetryPolicy) -> (usize, Vec<u64>) {
    let mut state = policy.start();
    let mut attempts = 1;
    let mut delays = Vec::new();
    loop {
        match policy.after_failure(&mut state) {
            RetryStep::Wait { attempt, delay_ms } => {
                assert_eq!(attempt, attempts);
                attempts += 1;
                delays.push(delay_ms);
            }
            RetryStep::GiveUp => return (attempts, delays),
        }
    }
}

#[test]
fn no_retries_means_one_attempt() {
    let (attempts, delays) = failing_run(RetryPolicy { max_retries: 0, base_delay_ms: 5000 });
    assert_eq!(attempts, 1);
    assert!(delays.is_empty());
}

#[test]
fn retry_bound_is_max_retries_plus_one() {
    for r in 0..10 {
        let (attempts, _) = failing_run(RetryPolicy { max_retries: r, base_delay_ms: 5000 });
        assert_eq!(attempts, r + 1);
    }
}

#[test]
fn backoff_doubles() {
    let (attempts, delays) = failing_run(RetryPolicy { max_retries: 3, base_delay_ms: 5000 });
    assert_eq!(attempts, 4);
    assert_eq!(delays, vec![5000, 10000, 20000]);
}

#[test]
fn backoff_saturates_without_overflow() {
    let d = u64::MAX / 8;
    let (attempts, delays) = failing_run(RetryPolicy { max_retries: 30, base_delay_ms: d });
    assert_eq!(attempts, 31);
    assert_eq!(delays[0], d);
    assert_eq!(delays[1], 2 * d);
    assert_eq!(delays[2], 4 * d);
    assert_eq!(delays[3], 8 * d);
    assert_eq!(delays[4], u64::MAX);
    assert_eq!(delays[29], u64::MAX);
}

#[test]
fn backoff_at_thirty_retries() {
    let (_, delays) = failing_run(RetryPolicy { max_retries: 30, base_delay_ms: 5 });
    for (k, d) in delays.iter().enumerate() {
        assert_eq!(*d, 5u64 << k);
    }
}
