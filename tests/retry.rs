use tube_rs::retry::{RetryAction, RetryPolicy};

/// Drives the policy over attempts that end as `outcomes` says; returns
/// the waits, the number of attempts and whether the last one succeeded.
fn drive(policy: &RetryPolicy, outcomes: &[bool]) -> (Vec<u64>, u32, bool) {
    let mut waits = Vec::new();
    let mut attempt: u32 = 0;
    loop {
        attempt += 1;
        let ok = outcomes[(attempt - 1) as usize];
        match policy.next_action(attempt, ok) {
            RetryAction::Done => return (waits, attempt, true),
            RetryAction::GiveUp => return (waits, attempt, false),
            RetryAction::Wait(ms) => waits.push(ms),
        }
    }
}

#[test]
fn fails_twice_then_succeeds() {
    let p = RetryPolicy::standard();
    let (waits, attempts, ok) = drive(&p, &[false, false, true]);
    assert_eq!(waits, vec![1000, 2000]);
    assert_eq!(attempts, 3);
    assert!(ok);
}

#[test]
fn always_failing_gives_up_after_three() {
    let p = RetryPolicy::standard();
    let (waits, attempts, ok) = drive(&p, &[false, false, false, false, false]);
    assert_eq!(waits, vec![1000, 2000]);
    assert_eq!(attempts, 3);
    assert!(!ok);
}

#[test]
fn first_success_needs_no_wait() {
    let p = RetryPolicy::standard();
    let (waits, attempts, ok) = drive(&p, &[true]);
    assert!(waits.is_empty());
    assert_eq!(attempts, 1);
    assert!(ok);
}

#[test]
fn backoff_doubles() {
    let p = RetryPolicy { max_attempts: 5, initial_backoff_ms: 250 };
    assert_eq!(p.next_action(4, false), RetryAction::Wait(2000));
    assert_eq!(p.next_action(5, false), RetryAction::GiveUp);
}
