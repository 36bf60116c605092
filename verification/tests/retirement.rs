use navop_core::retirement::{
    destroy_attempt_outcome, pass_outcome, NativeDestroyProgress, PollOutcome, Retired,
    RetirementController, RetirementPolicy, RetirementQueue, NANOS_PER_SECOND,
    RETIREMENT_MAX_AGE, RETIREMENT_RETRY_INTERVAL,
};

fn secs(seconds: u64) -> u64 {
    seconds * NANOS_PER_SECOND
}

fn policy() -> RetirementPolicy {
    RetirementPolicy {
        retry_interval: secs(1),
        max_age: secs(10),
    }
}

fn retired(payload: u32, now: u64) -> Retired<u32> {
    Retired::new(payload, u64::from(payload), "test", now)
}

fn start() -> u64 {
    secs(1_000)
}

#[test]
fn first_attempt_is_immediate_and_later_attempts_wait_for_the_interval() {
    let now = start();
    let entry = retired(1, now);
    assert!(entry.is_due(now), "retiring must schedule an immediate retry");
    assert!(!entry.is_expired(now, policy()));

    let mut queue = RetirementQueue::default();
    queue.push(entry);

    let due = queue.take_due(now, policy());
    assert_eq!(1, due.len());
    assert_eq!(1, due[0].attempts);
    assert!(queue.is_empty(), "a taken entry must leave the queue");

    queue.requeue(due.into_iter().next().unwrap());
    assert!(
        queue.take_due(now, policy()).is_empty(),
        "the retry interval must gate the next attempt"
    );
    let later = now + secs(1);
    assert_eq!(1, queue.take_due(later, policy()).len());
}

#[test]
fn expired_entries_are_never_retried_and_are_handed_back_separately() {
    let now = start();
    let mut queue = RetirementQueue::default();
    queue.push(retired(1, now));

    let expired_at = now + secs(10);
    assert!(
        queue.take_due(expired_at, policy()).is_empty(),
        "an expired adapter must not consume another retry"
    );
    let expired = queue.take_expired(expired_at, policy());
    assert_eq!(1, expired.len());
    assert_eq!(1, expired[0].payload);
    assert!(queue.is_empty());
}

#[test]
fn take_all_drains_every_entry_regardless_of_state() {
    let now = start();
    let mut queue = RetirementQueue::default();
    queue.push(retired(1, now));
    queue.push(retired(2, now + secs(5)));
    assert_eq!(2, queue.len());

    let all = queue.take_all();
    assert_eq!(2, all.len());
    assert!(queue.is_empty());
    assert_eq!(0, queue.len());
}

#[test]
fn requeued_entries_keep_their_attempt_count_and_retirement_time() {
    let now = start();
    let mut queue = RetirementQueue::default();
    queue.push(retired(1, now));

    let entry = queue.take_due(now, policy()).pop().unwrap();
    assert_eq!(1, entry.attempts);
    let retired_at = entry.retired_at;
    queue.requeue(entry);

    assert!(
        queue.take_due(now, policy()).is_empty(),
        "the retry interval must survive a requeue"
    );

    let later = now + secs(1);
    let entry = queue.take_due(later, policy()).pop().unwrap();
    assert_eq!(2, entry.attempts, "requeueing must not reset the attempt count");
    assert_eq!(
        retired_at, entry.retired_at,
        "requeueing must not reset the grace period clock"
    );
    assert!(!entry.is_expired(later, policy()));
}

#[test]
fn the_default_policy_retries_every_second_for_a_minute() {
    let policy = RetirementPolicy::default();
    assert_eq!(RETIREMENT_RETRY_INTERVAL, policy.retry_interval);
    assert_eq!(RETIREMENT_MAX_AGE, policy.max_age);
    assert_eq!(secs(1), policy.retry_interval);
    assert_eq!(secs(60), policy.max_age);
}

#[test]
fn a_pass_keeps_queue_order_and_only_takes_due_entries() {
    let now = start();
    let mut queue = RetirementQueue::default();
    queue.push(retired(1, now));
    queue.push(retired(2, now));
    let mut waiting = retired(3, now);
    waiting.note_attempt(now, policy());
    queue.push(waiting);
    queue.push(retired(4, now));

    let due = queue.take_due(now, policy());
    let payloads: Vec<u32> = due.iter().map(|entry| entry.payload).collect();
    assert_eq!(vec![1, 2, 4], payloads);
    assert!(due.iter().all(|entry| entry.next_attempt_at == now + secs(1)));
    assert_eq!(1, queue.len());
}

#[test]
fn the_grace_period_is_measured_from_retirement() {
    let now = start();
    let entry = retired(7, now);
    assert!(!entry.is_expired(now + secs(9), policy()));
    assert!(entry.is_expired(now + secs(10), policy()));
    assert!(!entry.is_expired(now - secs(1), policy()));
}

#[test]
fn the_controller_starts_one_driver_and_stops_it_when_idle() {
    let now = start();
    let mut controller = RetirementController::new();
    assert!(controller.retire(retired(1, now)));
    assert!(!controller.retire(retired(2, now)));
    assert_eq!(2, controller.pending_count());

    let (expired, due, remaining) = controller.begin_pass(now, policy());
    assert!(expired.is_empty());
    assert_eq!(2, due.len());
    assert_eq!(0, remaining);
    assert_eq!(PollOutcome::Pending, pass_outcome(remaining, 1));

    let mut due = due;
    let survivor = due.pop().unwrap();
    controller.requeue_survivors(vec![survivor]);
    assert_eq!(1, controller.pending_count());
    assert!(controller.stop_if_idle());

    let later = now + secs(20);
    let (expired, due, remaining) = controller.begin_pass(later, policy());
    assert_eq!(1, expired.len());
    assert!(due.is_empty());
    assert_eq!(0, remaining);
    assert_eq!(PollOutcome::Empty, pass_outcome(remaining, 0));
    assert!(!controller.stop_if_idle());
    assert!(controller.retire(retired(3, later)), "a stopped driver is started again");
}

#[test]
fn app_quit_hands_back_everything_still_queued() {
    let now = start();
    let mut controller = RetirementController::new();
    controller.retire(retired(1, now));
    controller.retire(retired(2, now));
    let pending = controller.finalize_for_app_quit();
    assert_eq!(2, pending.len());
    assert_eq!(0, controller.pending_count());
    assert!(controller.retire(retired(3, now)));
}

#[test]
fn a_destroy_attempt_succeeds_when_the_host_is_gone() {
    assert_eq!(Ok(()), destroy_attempt_outcome(Ok(NativeDestroyProgress::Destroyed), false));
    assert_eq!(
        Err("native callbacks are still in flight".to_string()),
        destroy_attempt_outcome(Ok(NativeDestroyProgress::PendingCallbacks), false)
    );
    assert_eq!(Ok(()), destroy_attempt_outcome(Err("boom".to_string()), true));
    assert_eq!(
        Err("boom".to_string()),
        destroy_attempt_outcome(Err("boom".to_string()), false)
    );
}

#[test]
fn a_pass_requeues_only_failed_destroys() {
    let now = start();
    let mut controller = RetirementController::new();
    controller.retire(retired(1, now));
    controller.retire(retired(2, now));
    controller.retire(retired(3, now));
    let (expired, due, _) = controller.begin_pass(now, policy());
    assert!(expired.is_empty());
    let results = vec![Ok(()), Err("pending".to_string()), Ok(())];
    let attempts: Vec<(Retired<u32>, Result<(), String>)> = due.into_iter().zip(results).collect();
    assert_eq!(PollOutcome::Pending, controller.finish_pass(attempts));
    assert_eq!(1, controller.pending_count());
    let remaining = controller.finalize_for_app_quit();
    assert_eq!((2, 1, now), (remaining[0].payload, remaining[0].attempts, remaining[0].retired_at));

    let mut idle = RetirementController::new();
    idle.retire(retired(4, now));
    let (_, due, _) = idle.begin_pass(now, policy());
    let attempts: Vec<(Retired<u32>, Result<(), String>)> = due.into_iter().map(|e| (e, Ok(()))).collect();
    assert_eq!(PollOutcome::Empty, idle.finish_pass(attempts));
}
