//! An owner-thread retirement queue for native remote-desktop adapters.
//!
//! When closing an adapter cannot confirm native destruction before its
//! deadline, the adapter is handed to this queue instead of being leaked at
//! once.  A driver re-attempts destruction once per retry interval; an
//! adapter that exhausts the grace period, or that is still queued when the
//! application quits, is given up on (kept alive and counted) as a last
//! resort.  The queue never drops a possibly callback-busy adapter itself.
//!
//! Time is read from a monotonic clock as nanoseconds since an arbitrary
//! origin; spans are nanoseconds too.
use vstd::prelude::*;

verus! {

/// Nanoseconds in a second.
pub const NANOS_PER_SECOND: u64 = 1_000_000_000;

/// How often destruction of a retired adapter is re-attempted: one second.
pub const RETIREMENT_RETRY_INTERVAL: u64 = 1_000_000_000;

/// The grace period before a retired adapter is considered unrecoverable:
/// a minute, long enough for a stalled callback to drain on its own.
pub const RETIREMENT_MAX_AGE: u64 = 60_000_000_000;

/// The bounded retry policy of the queue, in nanoseconds.
#[derive(Clone, Copy, Debug, PartialEq, Eq)]
pub struct RetirementPolicy {
    /// The least delay between two destroy attempts of one adapter.
    pub retry_interval: u64,
    /// How long an adapter may stay queued before it is given up on.
    pub max_age: u64,
}

impl Default for RetirementPolicy {
    fn default() -> (r: Self)
        ensures
            r.retry_interval == RETIREMENT_RETRY_INTERVAL,
            r.max_age == RETIREMENT_MAX_AGE,
    {
        RetirementPolicy { retry_interval: RETIREMENT_RETRY_INTERVAL, max_age: RETIREMENT_MAX_AGE }
    }
}

/// One adapter (or any other resource) held by the retirement queue.
#[derive(Debug)]
pub struct Retired<T> {
    /// The retired resource.
    pub payload: T,
    /// The native generation, for correlated logs.
    pub generation: u64,
    /// Why the resource entered the queue.
    pub reason: &'static str,
    /// When it was retired.
    pub retired_at: u64,
    /// How many destroy attempts already ran.
    pub attempts: u32,
    /// When the next destroy attempt is due.
    pub next_attempt_at: u64,
}

/// Whether a destroy attempt is due at `now`.
pub open spec fn due_at<T>(e: Retired<T>, now: u64) -> bool {
    now >= e.next_attempt_at
}

/// Whether a retired resource exhausted its grace period at `now`.
pub open spec fn expired_at<T>(e: Retired<T>, now: u64, policy: RetirementPolicy) -> bool {
    now.saturating_sub(e.retired_at) >= policy.max_age
}

/// A resource after one more destroy attempt at `now`: the attempt is
/// counted (saturating) and the next one waits for the retry interval.
pub open spec fn attempted<T>(e: Retired<T>, now: u64, policy: RetirementPolicy) -> Retired<T> {
    Retired {
        payload: e.payload,
        generation: e.generation,
        reason: e.reason,
        retired_at: e.retired_at,
        attempts: e.attempts.saturating_add(1),
        next_attempt_at: (now + policy.retry_interval) as u64,
    }
}

/// Whether a resource is retried by a pass at `now`: due and not expired.
pub open spec fn retried_at<T>(e: Retired<T>, now: u64, policy: RetirementPolicy) -> bool {
    !expired_at(e, now, policy) && due_at(e, now)
}

/// The resources a pass retries, in queue order, each with the attempt
/// recorded.
pub open spec fn taken_due<T>(entries: Seq<Retired<T>>, now: u64, policy: RetirementPolicy) -> Seq<
    Retired<T>,
>
    decreases entries.len(),
{
    if entries.len() == 0 {
        Seq::empty()
    } else {
        let rest = taken_due(entries.drop_first(), now, policy);
        if retried_at(entries[0], now, policy) {
            seq![attempted(entries[0], now, policy)] + rest
        } else {
            rest
        }
    }
}

/// The resources a pass leaves queued, in queue order.
pub open spec fn left_after_due<T>(entries: Seq<Retired<T>>, now: u64, policy: RetirementPolicy) -> Seq<
    Retired<T>,
>
    decreases entries.len(),
{
    if entries.len() == 0 {
        Seq::empty()
    } else {
        let rest = left_after_due(entries.drop_first(), now, policy);
        if retried_at(entries[0], now, policy) {
            rest
        } else {
            seq![entries[0]] + rest
        }
    }
}

/// The resources that exhausted their grace period, in queue order.
pub open spec fn taken_expired<T>(entries: Seq<Retired<T>>, now: u64, policy: RetirementPolicy) -> Seq<
    Retired<T>,
>
    decreases entries.len(),
{
    if entries.len() == 0 {
        Seq::empty()
    } else {
        let rest = taken_expired(entries.drop_first(), now, policy);
        if expired_at(entries[0], now, policy) {
            seq![entries[0]] + rest
        } else {
            rest
        }
    }
}

/// The resources still within their grace period, in queue order.
pub open spec fn left_after_expired<T>(
    entries: Seq<Retired<T>>,
    now: u64,
    policy: RetirementPolicy,
) -> Seq<Retired<T>>
    decreases entries.len(),
{
    if entries.len() == 0 {
        Seq::empty()
    } else {
        let rest = left_after_expired(entries.drop_first(), now, policy);
        if expired_at(entries[0], now, policy) {
            rest
        } else {
            seq![entries[0]] + rest
        }
    }
}

/// Scheduling the next attempt of every retried resource stays within the
/// clock's range.
pub open spec fn retries_fit<T>(entries: Seq<Retired<T>>, now: u64, policy: RetirementPolicy) -> bool {
    forall|i: int|
        0 <= i < entries.len() && #[trigger] retried_at(entries[i], now, policy) ==> now
            + policy.retry_interval <= u64::MAX
}

/// A pass loses no resource: what it takes and what it leaves add up to
/// the queue, for the retry pass and for the expiry pass.
pub proof fn law_a_pass_loses_nothing<T>(entries: Seq<Retired<T>>, now: u64, policy: RetirementPolicy)
    ensures
        taken_due(entries, now, policy).len() + left_after_due(entries, now, policy).len()
            == entries.len(),
        taken_expired(entries, now, policy).len() + left_after_expired(entries, now, policy).len()
            == entries.len(),
    decreases entries.len(),
{
    if entries.len() > 0 {
        law_a_pass_loses_nothing(entries.drop_first(), now, policy);
    }
}

/// The `i`-th resource a retry pass takes is the attempted form of a
/// resource of the queue that was due and not expired.
pub open spec fn taken_from_queue<T>(
    entries: Seq<Retired<T>>,
    now: u64,
    policy: RetirementPolicy,
    i: int,
) -> bool {
    exists|j: int|
        #![trigger entries[j]]
        0 <= j < entries.len() && retried_at(entries[j], now, policy) && taken_due(entries, now, policy)[i]
            == attempted(entries[j], now, policy)
}

/// The `i`-th resource a retry pass leaves is a resource of the queue that
/// was not retried.
pub open spec fn left_from_queue<T>(
    entries: Seq<Retired<T>>,
    now: u64,
    policy: RetirementPolicy,
    i: int,
) -> bool {
    exists|j: int|
        #![trigger entries[j]]
        0 <= j < entries.len() && !retried_at(entries[j], now, policy) && entries[j] == left_after_due(
            entries,
            now,
            policy,
        )[i]
}

proof fn lemma_taken_due_entry<T>(entries: Seq<Retired<T>>, now: u64, policy: RetirementPolicy, i: int)
    requires
        0 <= i < taken_due(entries, now, policy).len(),
    ensures
        taken_from_queue(entries, now, policy, i),
    decreases entries.len(),
{
    let rest = entries.drop_first();
    if retried_at(entries[0], now, policy) && i == 0 {
        assert(taken_due(entries, now, policy)[0] == attempted(entries[0], now, policy));
    } else {
        let k = if retried_at(entries[0], now, policy) {
            i - 1
        } else {
            i
        };
        assert(taken_due(entries, now, policy)[i] == taken_due(rest, now, policy)[k]);
        lemma_taken_due_entry(rest, now, policy, k);
        let j = choose|j: int|
            #![trigger rest[j]]
            0 <= j < rest.len() && retried_at(rest[j], now, policy) && taken_due(rest, now, policy)[k]
                == attempted(rest[j], now, policy);
        assert(entries[j + 1] == rest[j]);
    }
}

proof fn lemma_left_after_due_entry<T>(
    entries: Seq<Retired<T>>,
    now: u64,
    policy: RetirementPolicy,
    i: int,
)
    requires
        0 <= i < left_after_due(entries, now, policy).len(),
    ensures
        left_from_queue(entries, now, policy, i),
    decreases entries.len(),
{
    let rest = entries.drop_first();
    if !retried_at(entries[0], now, policy) && i == 0 {
        assert(left_after_due(entries, now, policy)[0] == entries[0]);
    } else {
        let k = if !retried_at(entries[0], now, policy) {
            i - 1
        } else {
            i
        };
        assert(left_after_due(entries, now, policy)[i] == left_after_due(rest, now, policy)[k]);
        lemma_left_after_due_entry(rest, now, policy, k);
        let j = choose|j: int|
            #![trigger rest[j]]
            0 <= j < rest.len() && !retried_at(rest[j], now, policy) && rest[j] == left_after_due(
                rest,
                now,
                policy,
            )[k];
        assert(entries[j + 1] == rest[j]);
    }
}

/// The retry pass takes exactly the due resources that are not expired,
/// each with one more attempt recorded; so no resource is both retried and
/// given up on in one pass.  What it leaves is the queue's other resources,
/// unchanged.
pub proof fn law_retry_pass_takes_due_unexpired<T>(
    entries: Seq<Retired<T>>,
    now: u64,
    policy: RetirementPolicy,
)
    ensures
        forall|i: int|
            0 <= i < taken_due(entries, now, policy).len() ==> #[trigger] taken_from_queue(
                entries,
                now,
                policy,
                i,
            ),
        forall|i: int|
            0 <= i < left_after_due(entries, now, policy).len() ==> #[trigger] left_from_queue(
                entries,
                now,
                policy,
                i,
            ),
{
    assert forall|i: int| 0 <= i < taken_due(entries, now, policy).len() implies #[trigger] taken_from_queue(
        entries,
        now,
        policy,
        i,
    ) by {
        lemma_taken_due_entry(entries, now, policy, i);
    }
    assert forall|i: int| 0 <= i < left_after_due(entries, now, policy).len() implies #[trigger] left_from_queue(
        entries,
        now,
        policy,
        i,
    ) by {
        lemma_left_after_due_entry(entries, now, policy, i);
    }
}

/// A retried resource waits for the retry interval: its next attempt is due
/// exactly one interval after the pass, it keeps its retirement time, and
/// it is not expired at the pass.
pub proof fn law_retry_waits_for_the_interval<T>(e: Retired<T>, now: u64, policy: RetirementPolicy)
    requires
        retried_at(e, now, policy),
        now + policy.retry_interval <= u64::MAX,
    ensures
        attempted(e, now, policy).next_attempt_at == now + policy.retry_interval,
        attempted(e, now, policy).retired_at == e.retired_at,
        attempted(e, now, policy).attempts == e.attempts.saturating_add(1),
        !expired_at(attempted(e, now, policy), now, policy),
        policy.retry_interval > 0 ==> !due_at(attempted(e, now, policy), now),
{
}

/// The expiry pass takes exactly the expired resources: afterwards nothing
/// queued has exhausted its grace period.
pub proof fn law_expiry_pass_takes_exactly_the_expired<T>(
    entries: Seq<Retired<T>>,
    now: u64,
    policy: RetirementPolicy,
)
    ensures
        forall|i: int|
            0 <= i < taken_expired(entries, now, policy).len() ==> expired_at(
                #[trigger] taken_expired(entries, now, policy)[i],
                now,
                policy,
            ),
        forall|i: int|
            0 <= i < left_after_expired(entries, now, policy).len() ==> !expired_at(
                #[trigger] left_after_expired(entries, now, policy)[i],
                now,
                policy,
            ),
    decreases entries.len(),
{
    if entries.len() > 0 {
        let rest = entries.drop_first();
        law_expiry_pass_takes_exactly_the_expired(rest, now, policy);
        let t = taken_expired(entries, now, policy);
        let l = left_after_expired(entries, now, policy);
        let tr = taken_expired(rest, now, policy);
        let lr = left_after_expired(rest, now, policy);
        assert forall|i: int| 0 <= i < t.len() implies expired_at(#[trigger] t[i], now, policy) by {
            if expired_at(entries[0], now, policy) {
                if i > 0 {
                    assert(t[i] == tr[i - 1]);
                }
            } else {
                assert(t[i] == tr[i]);
            }
        }
        assert forall|i: int| 0 <= i < l.len() implies !expired_at(#[trigger] l[i], now, policy) by {
            if !expired_at(entries[0], now, policy) {
                if i > 0 {
                    assert(l[i] == lr[i - 1]);
                }
            } else {
                assert(l[i] == lr[i]);
            }
        }
    }
}

impl<T> Retired<T> {
    /// A resource retired at `now`; its first destroy attempt is due at
    /// once, since what blocked the close often clears within milliseconds.
    pub fn new(payload: T, generation: u64, reason: &'static str, now: u64) -> (r: Self)
        ensures
            r.payload == payload,
            r.generation == generation,
            r.reason == reason,
            r.retired_at == now,
            r.attempts == 0,
            r.next_attempt_at == now,
    {
        Retired { payload, generation, reason, retired_at: now, attempts: 0, next_attempt_at: now }
    }

    /// Whether a destroy attempt is due now.
    pub fn is_due(&self, now: u64) -> (r: bool)
        ensures
            r == due_at(*self, now),
    {
        now >= self.next_attempt_at
    }

    /// Whether the bounded grace period is exhausted.
    pub fn is_expired(&self, now: u64, policy: RetirementPolicy) -> (r: bool)
        ensures
            r == expired_at(*self, now, policy),
    {
        now.saturating_sub(self.retired_at) >= policy.max_age
    }

    /// Records one attempt and schedules the next.
    pub fn note_attempt(&mut self, now: u64, policy: RetirementPolicy)
        requires
            now + policy.retry_interval <= u64::MAX,
        ensures
            *final(self) == attempted(*old(self), now, policy),
    {
        self.attempts = self.attempts.saturating_add(1);
        self.next_attempt_at = now + policy.retry_interval;
    }
}

/// Resources awaiting owner-thread destruction, in retirement order.
#[derive(Debug)]
pub struct RetirementQueue<T> {
    entries: Vec<Retired<T>>,
}

impl<T> View for RetirementQueue<T> {
    type V = Seq<Retired<T>>;

    closed spec fn view(&self) -> Seq<Retired<T>> {
        self.entries@
    }
}

impl<T> Default for RetirementQueue<T> {
    fn default() -> (r: Self)
        ensures
            r@ == Seq::<Retired<T>>::empty(),
    {
        RetirementQueue { entries: Vec::new() }
    }
}

impl<T> RetirementQueue<T> {
    /// An empty queue.
    pub fn new() -> (r: Self)
        ensures
            r@ == Seq::<Retired<T>>::empty(),
    {
        RetirementQueue { entries: Vec::new() }
    }

    /// Queues a retired resource.
    pub fn push(&mut self, retired: Retired<T>)
        ensures
            final(self)@ == old(self)@.push(retired),
    {
        self.entries.push(retired);
    }

    /// How many resources are queued.
    pub fn len(&self) -> (r: usize)
        ensures
            r == self@.len(),
    {
        self.entries.len()
    }

    /// Whether nothing is queued.
    pub fn is_empty(&self) -> (r: bool)
        ensures
            r == (self@.len() == 0),
    {
        self.entries.len() == 0
    }

    /// Removes and returns every resource whose retry interval elapsed,
    /// recording the attempt.  Expired resources stay queued: they are for
    /// [`Self::take_expired`], so no resource is both retried and given up on
    /// in one pass.
    pub fn take_due(&mut self, now: u64, policy: RetirementPolicy) -> (r: Vec<Retired<T>>)
        requires
            retries_fit(old(self)@, now, policy),
        ensures
            r@ == taken_due(old(self)@, now, policy),
            final(self)@ == left_after_due(old(self)@, now, policy),
    {
        let mut rest: Vec<Retired<T>> = Vec::new();
        std::mem::swap(&mut rest, &mut self.entries);
        let ghost all = rest@;
        let mut due: Vec<Retired<T>> = Vec::new();
        let mut kept: Vec<Retired<T>> = Vec::new();
        while rest.len() > 0
            invariant
                retries_fit(all, now, policy),
                all.len() >= rest@.len(),
                rest@ == all.subrange(all.len() - rest@.len(), all.len() as int),
                due@ + taken_due(rest@, now, policy) == taken_due(all, now, policy),
                kept@ + left_after_due(rest@, now, policy) == left_after_due(all, now, policy),
            decreases rest@.len(),
        {
            let ghost before = rest@;
            let mut entry = rest.remove(0);
            assert(rest@ =~= before.drop_first());
            assert(rest@ =~= all.subrange(all.len() - rest@.len(), all.len() as int));
            assert(entry == all[all.len() - before.len()]);
            if entry.is_expired(now, policy) {
                kept.push(entry);
                assert(kept@ + left_after_due(rest@, now, policy) =~= left_after_due(all, now, policy));
                assert(due@ + taken_due(rest@, now, policy) =~= taken_due(all, now, policy));
            } else if entry.is_due(now) {
                assert(retried_at(all[all.len() - before.len()], now, policy));
                entry.note_attempt(now, policy);
                due.push(entry);
                assert(due@ + taken_due(rest@, now, policy) =~= taken_due(all, now, policy));
                assert(kept@ + left_after_due(rest@, now, policy) =~= left_after_due(all, now, policy));
            } else {
                kept.push(entry);
                assert(kept@ + left_after_due(rest@, now, policy) =~= left_after_due(all, now, policy));
                assert(due@ + taken_due(rest@, now, policy) =~= taken_due(all, now, policy));
            }
        }
        assert(due@ =~= taken_due(all, now, policy));
        assert(kept@ =~= left_after_due(all, now, policy));
        self.entries = kept;
        due
    }

    /// Puts a resource that survived its destroy attempt back in the queue,
    /// with its attempt count and retirement time.
    pub fn requeue(&mut self, retired: Retired<T>)
        ensures
            final(self)@ == old(self)@.push(retired),
    {
        self.entries.push(retired);
    }

    /// Removes and returns every resource that exhausted its grace period.
    pub fn take_expired(&mut self, now: u64, policy: RetirementPolicy) -> (r: Vec<Retired<T>>)
        ensures
            r@ == taken_expired(old(self)@, now, policy),
            final(self)@ == left_after_expired(old(self)@, now, policy),
    {
        let mut rest: Vec<Retired<T>> = Vec::new();
        std::mem::swap(&mut rest, &mut self.entries);
        let ghost all = rest@;
        let mut expired: Vec<Retired<T>> = Vec::new();
        let mut kept: Vec<Retired<T>> = Vec::new();
        while rest.len() > 0
            invariant
                all.len() >= rest@.len(),
                rest@ == all.subrange(all.len() - rest@.len(), all.len() as int),
                expired@ + taken_expired(rest@, now, policy) == taken_expired(all, now, policy),
                kept@ + left_after_expired(rest@, now, policy) == left_after_expired(all, now, policy),
            decreases rest@.len(),
        {
            let ghost before = rest@;
            let entry = rest.remove(0);
            assert(rest@ =~= before.drop_first());
            assert(rest@ =~= all.subrange(all.len() - rest@.len(), all.len() as int));
            if entry.is_expired(now, policy) {
                expired.push(entry);
            } else {
                kept.push(entry);
            }
            assert(expired@ + taken_expired(rest@, now, policy) =~= taken_expired(all, now, policy));
            assert(kept@ + left_after_expired(rest@, now, policy) =~= left_after_expired(
                all,
                now,
                policy,
            ));
        }
        assert(expired@ =~= taken_expired(all, now, policy));
        assert(kept@ =~= left_after_expired(all, now, policy));
        self.entries = kept;
        expired
    }

    /// Removes and returns every resource, whatever its state.
    pub fn take_all(&mut self) -> (r: Vec<Retired<T>>)
        ensures
            r@ == old(self)@,
            final(self)@ == Seq::<Retired<T>>::empty(),
    {
        let mut all: Vec<Retired<T>> = Vec::new();
        std::mem::swap(&mut all, &mut self.entries);
        all
    }
}

/// The resources of a pass whose destroy attempt failed, in order.
pub open spec fn survivors_of<T>(attempts: Seq<(Retired<T>, Result<(), String>)>) -> Seq<Retired<T>>
    decreases attempts.len(),
{
    if attempts.len() == 0 {
        Seq::empty()
    } else if attempts.last().1 is Err {
        survivors_of(attempts.drop_last()).push(attempts.last().0)
    } else {
        survivors_of(attempts.drop_last())
    }
}

/// How many resources of a pass were destroyed.
pub open spec fn destroyed_count<T>(attempts: Seq<(Retired<T>, Result<(), String>)>) -> nat
    decreases attempts.len(),
{
    if attempts.len() == 0 {
        0
    } else if attempts.last().1 is Ok {
        destroyed_count(attempts.drop_last()) + 1
    } else {
        destroyed_count(attempts.drop_last())
    }
}

/// Each attempt of a pass either destroyed its resource or left it to
/// survive.
proof fn lemma_attempts_split<T>(attempts: Seq<(Retired<T>, Result<(), String>)>)
    ensures
        destroyed_count(attempts) + survivors_of(attempts).len() == attempts.len(),
    decreases attempts.len(),
{
    if attempts.len() > 0 {
        lemma_attempts_split(attempts.drop_last());
    }
}

/// A whole retirement pass loses nothing: of the queued resources, the
/// expired ones are handed back to be given up on, each due one has one
/// destroy attempt and is either destroyed or queued again, and the rest
/// stay queued; the queue afterwards is the ones left, then the survivors.
pub proof fn law_a_whole_pass_accounts_for_every_resource<T>(
    entries: Seq<Retired<T>>,
    now: u64,
    policy: RetirementPolicy,
    attempts: Seq<(Retired<T>, Result<(), String>)>,
)
    requires
        attempts.len() == taken_due(left_after_expired(entries, now, policy), now, policy).len(),
    ensures
        taken_expired(entries, now, policy).len() + destroyed_count(attempts) + (left_after_due(
            left_after_expired(entries, now, policy),
            now,
            policy,
        ) + survivors_of(attempts)).len() == entries.len(),
{
    law_a_pass_loses_nothing(entries, now, policy);
    law_a_pass_loses_nothing(left_after_expired(entries, now, policy), now, policy);
    lemma_attempts_split(attempts);
}

/// What a retirement pass tells its driver.
#[derive(Clone, Copy, Debug, PartialEq, Eq, Structural)]
pub enum PollOutcome {
    /// Resources remain queued: wait for the next retry interval.
    Pending,
    /// The queue is empty: the driver should stop.
    Empty,
    /// The controller disappeared: there is nowhere to requeue to.
    ControllerGone,
}

/// The outcome of a pass whose destroy attempts left `survivors` resources
/// to requeue, with `remaining` still queued: pending while anything is
/// left, empty otherwise.
pub fn pass_outcome(remaining: usize, survivors: usize) -> (r: PollOutcome)
    ensures
        r == (if survivors == 0 && remaining == 0 {
            PollOutcome::Empty
        } else {
            PollOutcome::Pending
        }),
{
    if survivors == 0 && remaining == 0 {
        PollOutcome::Empty
    } else {
        PollOutcome::Pending
    }
}

/// How far a native destroy attempt got.
#[derive(Clone, Copy, Debug, PartialEq, Eq, Structural)]
pub enum NativeDestroyProgress {
    Destroyed,
    /// Native callbacks are still in flight; try again later.
    PendingCallbacks,
}

/// Whether one destroy attempt released the resource: it did when the
/// native close reports it destroyed, or when the close failed but the host
/// already reports itself destroyed; callbacks still in flight and other
/// failures leave it for another attempt.
pub fn destroy_attempt_outcome(progress: Result<NativeDestroyProgress, String>, host_destroyed: bool) -> (r:
    Result<(), String>)
    ensures
        r is Ok <==> (progress matches Ok(NativeDestroyProgress::Destroyed) || (progress is Err
            && host_destroyed)),
        !host_destroyed ==> (progress matches Err(e) ==> (r matches Err(x) && x@ == e@)),
{
    match progress {
        Ok(NativeDestroyProgress::Destroyed) => Ok(()),
        Ok(NativeDestroyProgress::PendingCallbacks) => Err(crate::text::owned("native callbacks are still in flight")),
        Err(error) => {
            if host_destroyed {
                Ok(())
            } else {
                Err(error)
            }
        },
    }
}

/// The mathematical value of a retirement controller.
pub struct ControllerView<T> {
    pub entries: Seq<Retired<T>>,
    /// Whether a driver task is polling the queue.
    pub driver_running: bool,
}

/// The application's retirement queue and whether a driver polls it.  The
/// flag is set by the same step that queues a resource and cleared by the
/// same step that finds the queue empty, so a resource retired while the
/// driver winds down is never left without one.
pub struct RetirementController<T> {
    queue: RetirementQueue<T>,
    driver_running: bool,
}

impl<T> View for RetirementController<T> {
    type V = ControllerView<T>;

    closed spec fn view(&self) -> ControllerView<T> {
        ControllerView { entries: self.queue@, driver_running: self.driver_running }
    }
}

impl<T> Default for RetirementController<T> {
    fn default() -> (r: Self)
        ensures
            r@.entries == Seq::<Retired<T>>::empty(),
            !r@.driver_running,
    {
        RetirementController::new()
    }
}

impl<T> RetirementController<T> {
    /// An empty controller with no driver.
    pub fn new() -> (r: Self)
        ensures
            r@.entries == Seq::<Retired<T>>::empty(),
            !r@.driver_running,
    {
        RetirementController { queue: RetirementQueue::new(), driver_running: false }
    }

    /// Queues a resource that could not be closed in time.  Returns whether
    /// a driver must be started: exactly when none was running.  Afterwards a
    /// driver is running.
    pub fn retire(&mut self, retired: Retired<T>) -> (start_driver: bool)
        ensures
            final(self)@.entries == old(self)@.entries.push(retired),
            final(self)@.driver_running,
            start_driver == !old(self)@.driver_running,
    {
        self.queue.push(retired);
        if self.driver_running {
            false
        } else {
            self.driver_running = true;
            true
        }
    }

    /// How many resources await destruction.
    pub fn pending_count(&self) -> (r: usize)
        ensures
            r == self@.entries.len(),
    {
        self.queue.len()
    }

    /// The first phase of a pass: takes out the expired resources, then the
    /// due ones among the rest, and counts what stays queued.  The destroy
    /// attempts run afterwards, outside any borrow of the controller.
    pub fn begin_pass(&mut self, now: u64, policy: RetirementPolicy) -> (r: (
        Vec<Retired<T>>,
        Vec<Retired<T>>,
        usize,
    ))
        requires
            retries_fit(left_after_expired(old(self)@.entries, now, policy), now, policy),
        ensures
            r.0@ == taken_expired(old(self)@.entries, now, policy),
            r.1@ == taken_due(left_after_expired(old(self)@.entries, now, policy), now, policy),
            final(self)@.entries == left_after_due(
                left_after_expired(old(self)@.entries, now, policy),
                now,
                policy,
            ),
            r.2 == final(self)@.entries.len(),
            final(self)@.driver_running == old(self)@.driver_running,
    {
        let expired = self.queue.take_expired(now, policy);
        let due = self.queue.take_due(now, policy);
        let remaining = self.queue.len();
        (expired, due, remaining)
    }

    /// The last phase of a pass: puts the resources that survived their
    /// destroy attempt back, keeping their attempt counts and retirement
    /// times.
    pub fn requeue_survivors(&mut self, survivors: Vec<Retired<T>>)
        ensures
            final(self)@.entries == old(self)@.entries + survivors@,
            final(self)@.driver_running == old(self)@.driver_running,
    {
        let mut survivors = survivors;
        let ghost start = self.queue@;
        let ghost all = survivors@;
        let mut k: usize = 0;
        assert(all.len() == survivors.len());
        while survivors.len() > 0
            invariant
                all.len() <= usize::MAX,
                all.len() == k + survivors@.len(),
                survivors@ == all.subrange(k as int, all.len() as int),
                self.queue@ == start + all.subrange(0, k as int),
                self.driver_running == old(self).driver_running,
            decreases survivors@.len(),
        {
            let retired = survivors.remove(0);
            self.queue.requeue(retired);
            assert(all.subrange(0, k + 1) =~= all.subrange(0, k as int).push(all[k as int]));
            k = k + 1;
            assert(survivors@ =~= all.subrange(k as int, all.len() as int));
        }
        assert(all.subrange(0, k as int) =~= all);
    }

    /// The last phase of a pass, given each due resource with the result of
    /// its one destroy attempt: those that failed go back on the queue, in
    /// order, with their attempt counts and retirement times; those that
    /// were destroyed are gone.  The pass is pending while anything stays
    /// queued, and empty otherwise.
    pub fn finish_pass(&mut self, attempts: Vec<(Retired<T>, Result<(), String>)>) -> (r: PollOutcome)
        ensures
            final(self)@.entries == old(self)@.entries + survivors_of(attempts@),
            final(self)@.driver_running == old(self)@.driver_running,
            r == (if final(self)@.entries.len() == 0 {
                PollOutcome::Empty
            } else {
                PollOutcome::Pending
            }),
    {
        let ghost all = attempts@;
        let mut rest = attempts;
        let mut survivors: Vec<Retired<T>> = Vec::new();
        let ghost mut done: Seq<(Retired<T>, Result<(), String>)> = Seq::empty();
        while rest.len() > 0
            invariant
                all == done + rest@,
                survivors@ == survivors_of(done),
            decreases rest@.len(),
        {
            let ghost before = rest@;
            let (retired, result) = rest.remove(0);
            proof {
                assert(before[0] == (retired, result));
                assert(done.push(before[0]).drop_last() =~= done);
                assert(all =~= done.push(before[0]) + rest@);
            }
            let failed = result.is_err();
            if failed {
                survivors.push(retired);
            }
            proof {
                done = done.push(before[0]);
            }
        }
        assert(done =~= all);
        let count = survivors.len();
        let remaining = self.queue.len();
        self.requeue_survivors(survivors);
        pass_outcome(remaining, count)
    }

    /// Whether the driver should keep running once a pass found the queue
    /// empty: it stops, and clears the flag, only when nothing was queued in
    /// the meantime.
    pub fn stop_if_idle(&mut self) -> (keep_running: bool)
        ensures
            keep_running == (old(self)@.entries.len() > 0),
            final(self)@.entries == old(self)@.entries,
            final(self)@.driver_running == (keep_running && old(self)@.driver_running),
    {
        if self.queue.is_empty() {
            self.driver_running = false;
            false
        } else {
            true
        }
    }

    /// At application quit: stops the driver and hands back every queued
    /// resource, to be given up on without any native cleanup.
    pub fn finalize_for_app_quit(&mut self) -> (r: Vec<Retired<T>>)
        ensures
            r@ == old(self)@.entries,
            final(self)@.entries == Seq::<Retired<T>>::empty(),
            !final(self)@.driver_running,
    {
        self.driver_running = false;
        self.queue.take_all()
    }
}

} // verus!
