//! The worker of the ingestion queue: how long it holds an observation, what it does with the
//! outcome of storing it, and when it tries again.
use crate::durable::{ObservationQueueItem, QueueDisposition};
use crate::number;
use crate::observation::ObservationError;
use vstd::prelude::*;

verus! {

/// The delay before the first retry.
pub const FIRST_DELAY_MS: i64 = 250;

/// The longest delay before a retry.
pub const MAX_DELAY_MS: i64 = 60_000;

/// A time as far as it can be written, in milliseconds since the epoch.
pub fn epoch_ms(elapsed_ms: u128) -> (r: i64)
    ensures
        r == if elapsed_ms <= i64::MAX {
            elapsed_ms as int
        } else {
            i64::MAX as int
        },
{
    if elapsed_ms > 0x7fff_ffff_ffff_ffff {
        i64::MAX
    } else {
        elapsed_ms as i64
    }
}

/// The delay before the retry that follows a number of attempts: it doubles from attempt to attempt
/// up to a limit.
pub open spec fn retry_delay(attempts: int) -> int {
    let doublings = if attempts <= 1 {
        0
    } else if attempts > 9 {
        8
    } else {
        attempts - 1
    };
    let delay = FIRST_DELAY_MS * vstd::arithmetic::power2::pow2(doublings as nat);
    if delay > MAX_DELAY_MS {
        MAX_DELAY_MS as int
    } else {
        delay
    }
}

/// The first powers of two.
proof fn lemma_powers()
    ensures
        vstd::arithmetic::power2::pow2(0) == 1,
        vstd::arithmetic::power2::pow2(1) == 2,
        vstd::arithmetic::power2::pow2(2) == 4,
        vstd::arithmetic::power2::pow2(3) == 8,
        vstd::arithmetic::power2::pow2(4) == 16,
        vstd::arithmetic::power2::pow2(5) == 32,
        vstd::arithmetic::power2::pow2(6) == 64,
        vstd::arithmetic::power2::pow2(7) == 128,
        vstd::arithmetic::power2::pow2(8) == 256,
{
    vstd::arithmetic::power2::lemma2_to64();
}

/// The delay before the retry that follows a number of attempts.
pub fn retry_delay_ms(attempts: u32) -> (r: i64)
    ensures
        r == retry_delay(attempts as int),
{
    proof {
        lemma_powers();
    }
    let mut left: u32 = if attempts <= 1 {
        0
    } else if attempts > 9 {
        8
    } else {
        attempts - 1
    };
    let ghost doublings = left as nat;
    let mut delay: i64 = FIRST_DELAY_MS;
    while left > 0
        invariant
            left <= doublings <= 8,
            delay == FIRST_DELAY_MS * vstd::arithmetic::power2::pow2((doublings - left) as nat),
            delay <= 64_000,
            vstd::arithmetic::power2::pow2(0) == 1,
            vstd::arithmetic::power2::pow2(1) == 2,
            vstd::arithmetic::power2::pow2(2) == 4,
            vstd::arithmetic::power2::pow2(3) == 8,
            vstd::arithmetic::power2::pow2(4) == 16,
            vstd::arithmetic::power2::pow2(5) == 32,
            vstd::arithmetic::power2::pow2(6) == 64,
            vstd::arithmetic::power2::pow2(7) == 128,
            vstd::arithmetic::power2::pow2(8) == 256,
        decreases left,
    {
        delay = delay * 2;
        left -= 1;
    }
    if delay > MAX_DELAY_MS {
        MAX_DELAY_MS
    } else {
        delay
    }
}

/// Delays stay between the first one and the longest one, do not get shorter, and reach the
/// longest.
pub proof fn retry_delays_are_bounded(attempts: int, more: int)
    requires
        attempts <= more,
    ensures
        FIRST_DELAY_MS <= retry_delay(attempts) <= retry_delay(more) <= MAX_DELAY_MS,
        more > 8 ==> retry_delay(more) == MAX_DELAY_MS,
        1 <= attempts < 8 ==> retry_delay(attempts + 1) == 2 * retry_delay(attempts),
{
    lemma_powers();
}

/// The sum of two times, as far as it can be written.
pub open spec fn capped_sum(a: int, b: int) -> int {
    if a + b > i64::MAX {
        i64::MAX as int
    } else if a + b < i64::MIN {
        i64::MIN as int
    } else {
        a + b
    }
}

/// The sum of two times, as far as it can be written.
pub fn later(a: i64, b: i64) -> (r: i64)
    ensures
        r == capped_sum(a as int, b as int),
{
    match a.checked_add(b) {
        Some(sum) => sum,
        None => if b > 0 {
            i64::MAX
        } else {
            i64::MIN
        },
    }
}

/// How the worker works.
#[derive(Debug, Clone, Copy, PartialEq, Eq, Structural)]
pub struct WorkerSettings {
    pub max_attempts: u32,
    pub poll_interval_ms: u64,
    pub lease_ms: i64,
}

/// The number that a setting says: the given one, or the default where the text is no number of
/// this range, but no less than the least.
pub open spec fn setting(
    given: Option<int>,
    from: int,
    to: int,
    default: int,
    least: int,
) -> int {
    let value = match given {
        Some(n) => if from <= n <= to {
            n
        } else {
            default
        },
        None => default,
    };
    if value < least {
        least
    } else {
        value
    }
}

/// The unsigned number of an optional text.
pub open spec fn given_unsigned(text: Option<&str>) -> Option<int> {
    match text {
        Some(s) => match number::unsigned_value(s@) {
            Some(n) => Some(n as int),
            None => None,
        },
        None => None,
    }
}

/// The signed number of an optional text.
pub open spec fn given_signed(text: Option<&str>) -> Option<int> {
    match text {
        Some(s) => number::signed_value(s@),
        None => None,
    }
}

/// A setting that is an unsigned number.
fn read_unsigned(text: Option<&str>, max: u64, default: u64, least: u64) -> (r: u64)
    requires
        default <= max,
        least <= max,
    ensures
        r == setting(given_unsigned(text), 0, max as int, default as int, least as int),
        r <= max,
{
    let given: Option<u64> = match text {
        Some(s) => number::parse_unsigned(s, max),
        None => None,
    };
    let value: u64 = match given {
        Some(n) => n,
        None => default,
    };
    if value < least {
        least
    } else {
        value
    }
}

/// The settings of the worker: five attempts, a look every 250 ms and leases of 30 seconds where
/// nothing else is configured, and never fewer than one attempt, 10 ms and one second.
pub fn worker_settings(max_attempts: Option<&str>, poll_ms: Option<&str>, lease_ms: Option<&str>) -> (r:
    WorkerSettings)
    ensures
        r.max_attempts == setting(given_unsigned(max_attempts), 0, u32::MAX as int, 5, 1),
        r.poll_interval_ms == setting(given_unsigned(poll_ms), 0, u64::MAX as int, 250, 10),
        r.lease_ms == setting(
            given_signed(lease_ms),
            i64::MIN as int,
            i64::MAX as int,
            30_000,
            1_000,
        ),
{
    let attempts: u64 = read_unsigned(max_attempts, u32::MAX as u64, 5, 1);
    let given: Option<i64> = match lease_ms {
        Some(s) => number::parse_signed(s),
        None => None,
    };
    let lease: i64 = match given {
        Some(n) => n,
        None => 30_000,
    };
    WorkerSettings {
        max_attempts: attempts as u32,
        poll_interval_ms: read_unsigned(poll_ms, u64::MAX, 250, 10),
        lease_ms: if lease < 1_000 {
            1_000
        } else {
            lease
        },
    }
}

/// What the worker does with a claimed observation once it tried to store it.
#[derive(Debug, Clone, PartialEq, Eq)]
pub enum QueueAction {
    /// The observation is stored: it leaves the queue.
    Complete { id: u128 },
    /// It could not be stored: it is tried again at a time, or ends as a dead letter.
    Fail { id: u128, error: String, retry_at_ms: i64, max_attempts: u32 },
}

impl WorkerSettings {
    /// Until when an observation that is claimed at a time is leased.
    pub fn lease_until(&self, claimed_at_ms: i64) -> (r: i64)
        ensures
            r == capped_sum(claimed_at_ms as int, self.lease_ms as int),
    {
        later(claimed_at_ms, self.lease_ms)
    }

    /// What to do with a claimed observation once storing it succeeded or failed.
    pub fn settle(
        &self,
        item: &ObservationQueueItem,
        stored: &Result<(), ObservationError>,
        now_ms: i64,
    ) -> (r: QueueAction)
        ensures
            match stored {
                Ok(_) => r == (QueueAction::Complete { id: item.id }),
                Err(error) => {
                    &&& r is Fail
                    &&& r->Fail_id == item.id
                    &&& r->Fail_error@ == error.says()
                    &&& r->Fail_retry_at_ms == capped_sum(
                        now_ms as int,
                        retry_delay(item.attempts as int),
                    )
                    &&& r->Fail_max_attempts == self.max_attempts
                },
            },
    {
        match stored {
            Ok(_) => QueueAction::Complete { id: item.id },
            Err(error) => QueueAction::Fail {
                id: item.id,
                error: error.message(),
                retry_at_ms: later(now_ms, retry_delay_ms(item.attempts)),
                max_attempts: self.max_attempts,
            },
        }
    }
}

/// What was counted since the start. Each count begins anew at zero behind the largest number.
#[derive(Debug, Clone, Copy, PartialEq, Eq, Structural)]
pub struct Counters {
    pub observations_ingested: u64,
    pub model_calls: u64,
    pub agent_executions: u64,
    pub queue_processed: u64,
    pub queue_retries: u64,
    pub queue_dead_letters: u64,
}

impl Default for Counters {
    fn default() -> (r: Self)
        ensures
            r == (Counters {
                observations_ingested: 0,
                model_calls: 0,
                agent_executions: 0,
                queue_processed: 0,
                queue_retries: 0,
                queue_dead_letters: 0,
            }),
    {
        Counters {
            observations_ingested: 0,
            model_calls: 0,
            agent_executions: 0,
            queue_processed: 0,
            queue_retries: 0,
            queue_dead_letters: 0,
        }
    }
}

impl Counters {
    /// The counts with `n` more observations accepted.
    pub open spec fn ingested(self, n: u64) -> Counters {
        Counters {
            observations_ingested: self.observations_ingested.wrapping_add(n),
            ..self
        }
    }

    /// The counts with one more observation moved out of the queue.
    pub open spec fn processed(self) -> Counters {
        Counters { queue_processed: self.queue_processed.wrapping_add(1), ..self }
    }

    /// The counts with one more failure that ended so.
    pub open spec fn failed(self, disposition: QueueDisposition) -> Counters {
        match disposition {
            QueueDisposition::Pending => Counters {
                queue_retries: self.queue_retries.wrapping_add(1),
                ..self
            },
            QueueDisposition::DeadLetter => Counters {
                queue_dead_letters: self.queue_dead_letters.wrapping_add(1),
                ..self
            },
        }
    }

    /// Counts observations that were accepted.
    pub fn count_ingested(&mut self, n: u64)
        ensures
            *final(self) == old(self).ingested(n),
    {
        self.observations_ingested = self.observations_ingested.wrapping_add(n);
    }

    /// Counts a model call.
    pub fn count_model_call(&mut self)
        ensures
            *final(self) == (Counters {
                model_calls: old(self).model_calls.wrapping_add(1),
                ..*old(self)
            }),
    {
        self.model_calls = self.model_calls.wrapping_add(1);
    }

    /// Counts a tool execution.
    pub fn count_agent_execution(&mut self)
        ensures
            *final(self) == (Counters {
                agent_executions: old(self).agent_executions.wrapping_add(1),
                ..*old(self)
            }),
    {
        self.agent_executions = self.agent_executions.wrapping_add(1);
    }

    /// Counts an observation that was moved out of the queue.
    pub fn count_processed(&mut self)
        ensures
            *final(self) == old(self).processed(),
    {
        self.queue_processed = self.queue_processed.wrapping_add(1);
    }

    /// Counts a failure by how it ended.
    pub fn count_failed(&mut self, disposition: QueueDisposition)
        ensures
            *final(self) == old(self).failed(disposition),
    {
        match disposition {
            QueueDisposition::Pending => {
                self.queue_retries = self.queue_retries.wrapping_add(1);
            },
            QueueDisposition::DeadLetter => {
                self.queue_dead_letters = self.queue_dead_letters.wrapping_add(1);
            },
        }
    }
}

/// The delay before a retry is a quarter of a second after the first attempt, twice as long after
/// each further one, and a minute from the ninth attempt on.
pub proof fn delays_double_up_to_a_minute(attempts: u32, r: i64, next: i64)
    requires
        call_ensures(retry_delay_ms, (attempts,), r),
        attempts < u32::MAX,
        call_ensures(retry_delay_ms, ((attempts + 1) as u32,), next),
    ensures
        attempts <= 1 ==> r == 250,
        1 <= attempts < 8 ==> next == 2 * r,
        attempts >= 9 ==> r == 60_000,
        250 <= r <= next <= 60_000,
{
    lemma_powers();
}

/// A sum of times is the sum wherever it can be written, and else the end of the range on its side.
pub proof fn times_are_added_within_the_range(a: i64, b: i64, r: i64)
    requires
        call_ensures(later, (a, b), r),
    ensures
        i64::MIN <= a + b <= i64::MAX ==> r == a + b,
        a + b > i64::MAX ==> r == i64::MAX,
        a + b < i64::MIN ==> r == i64::MIN,
{
}

/// A time is the number of milliseconds since the epoch wherever it can be written.
pub proof fn epoch_times_are_kept(elapsed_ms: u128, r: i64)
    requires
        call_ensures(epoch_ms, (elapsed_ms,), r),
    ensures
        elapsed_ms <= 0x7fff_ffff_ffff_ffff ==> r == elapsed_ms,
        elapsed_ms > 0x7fff_ffff_ffff_ffff ==> r == 0x7fff_ffff_ffff_ffff,
{
}

/// A setting that is not given, or is no number of its range, has its default: five attempts, a look
/// every 250 ms, leases of 30 seconds. Any other is as given, but never below one attempt, 10 ms and
/// one second.
pub proof fn settings_are_as_given_or_by_default(
    max_attempts: Option<&str>,
    poll_ms: Option<&str>,
    lease_ms: Option<&str>,
    r: WorkerSettings,
)
    requires
        call_ensures(worker_settings, (max_attempts, poll_ms, lease_ms), r),
    ensures
        max_attempts is None ==> r.max_attempts == 5,
        poll_ms is None ==> r.poll_interval_ms == 250,
        lease_ms is None ==> r.lease_ms == 30_000,
        max_attempts is Some ==> match number::unsigned_value(max_attempts->0@) {
            Some(n) => if n > 0xffff_ffff {
                r.max_attempts == 5
            } else if n == 0 {
                r.max_attempts == 1
            } else {
                r.max_attempts == n
            },
            None => r.max_attempts == 5,
        },
        poll_ms is Some ==> match number::unsigned_value(poll_ms->0@) {
            Some(n) => if n > 0xffff_ffff_ffff_ffff {
                r.poll_interval_ms == 250
            } else if n < 10 {
                r.poll_interval_ms == 10
            } else {
                r.poll_interval_ms == n
            },
            None => r.poll_interval_ms == 250,
        },
        lease_ms is Some ==> match number::signed_value(lease_ms->0@) {
            Some(n) => if n < i64::MIN || n > i64::MAX {
                r.lease_ms == 30_000
            } else if n < 1_000 {
                r.lease_ms == 1_000
            } else {
                r.lease_ms == n
            },
            None => r.lease_ms == 30_000,
        },
{
}

/// A lease ends the lease time behind the claim. What was stored is completed; what was not is put
/// back with the message of the error, to be tried again behind the delay for its attempts.
pub proof fn a_claim_is_completed_or_put_back(
    settings: &WorkerSettings,
    claimed_at_ms: i64,
    until: i64,
    item: &ObservationQueueItem,
    stored: &Result<(), ObservationError>,
    now_ms: i64,
    r: QueueAction,
    delay: i64,
)
    requires
        call_ensures(WorkerSettings::lease_until, (settings, claimed_at_ms), until),
        call_ensures(WorkerSettings::settle, (settings, item, stored, now_ms), r),
        call_ensures(retry_delay_ms, (item.attempts,), delay),
    ensures
        i64::MIN <= claimed_at_ms + settings.lease_ms <= i64::MAX ==> until == claimed_at_ms
            + settings.lease_ms,
        claimed_at_ms + settings.lease_ms > i64::MAX ==> until == i64::MAX,
        *stored is Ok ==> r == (QueueAction::Complete { id: item.id }),
        *stored is Err ==> {
            &&& r is Fail
            &&& r->Fail_id == item.id
            &&& r->Fail_error@ == stored->Err_0.says()
            &&& r->Fail_max_attempts == settings.max_attempts
            &&& now_ms + delay <= i64::MAX ==> r->Fail_retry_at_ms == now_ms + delay
            &&& now_ms + delay > i64::MAX ==> r->Fail_retry_at_ms == i64::MAX
        },
{
    lemma_powers();
}

/// Counting raises one count and leaves the others: accepted observations by how many there were,
/// everything else by one. Behind the largest number a count begins anew at zero.
pub proof fn counting_raises_one_count(
    ingested: &mut Counters,
    n: u64,
    called: &mut Counters,
    executed: &mut Counters,
    processed: &mut Counters,
    failed: &mut Counters,
    disposition: QueueDisposition,
)
    requires
        call_ensures(Counters::count_ingested, (ingested, n), ()),
        call_ensures(Counters::count_model_call, (called,), ()),
        call_ensures(Counters::count_agent_execution, (executed,), ()),
        call_ensures(Counters::count_processed, (processed,), ()),
        call_ensures(Counters::count_failed, (failed, disposition), ()),
    ensures
        old(ingested).observations_ingested + n <= u64::MAX ==> final(ingested).observations_ingested == old(ingested).observations_ingested + n,
        old(ingested).observations_ingested + n > u64::MAX ==> final(ingested).observations_ingested == old(ingested).observations_ingested + n
            - 0x1_0000_0000_0000_0000,
        *final(ingested) == (Counters {
            observations_ingested: final(ingested).observations_ingested,
            ..*old(ingested)
        }),
        old(called).model_calls < u64::MAX ==> final(called).model_calls == old(called).model_calls
            + 1,
        old(called).model_calls == u64::MAX ==> final(called).model_calls == 0,
        *final(called) == (Counters { model_calls: final(called).model_calls, ..*old(called) }),
        old(executed).agent_executions < u64::MAX ==> final(executed).agent_executions == old(executed).agent_executions + 1,
        old(executed).agent_executions == u64::MAX ==> final(executed).agent_executions == 0,
        *final(executed) == (Counters {
            agent_executions: final(executed).agent_executions,
            ..*old(executed)
        }),
        old(processed).queue_processed < u64::MAX ==> final(processed).queue_processed == old(processed).queue_processed + 1,
        old(processed).queue_processed == u64::MAX ==> final(processed).queue_processed == 0,
        *final(processed) == (Counters {
            queue_processed: final(processed).queue_processed,
            ..*old(processed)
        }),
        disposition == QueueDisposition::Pending && old(failed).queue_retries == u64::MAX
            ==> final(failed).queue_retries == 0,
        disposition == QueueDisposition::DeadLetter && old(failed).queue_dead_letters == u64::MAX
            ==> final(failed).queue_dead_letters == 0,
        disposition == QueueDisposition::Pending ==> *final(failed) == (Counters {
            queue_retries: final(failed).queue_retries,
            ..*old(failed)
        }) && (old(failed).queue_retries < u64::MAX ==> final(failed).queue_retries == old(failed).queue_retries + 1),
        disposition == QueueDisposition::DeadLetter ==> *final(failed) == (Counters {
            queue_dead_letters: final(failed).queue_dead_letters,
            ..*old(failed)
        }) && (old(failed).queue_dead_letters < u64::MAX ==> final(failed).queue_dead_letters
            == old(failed).queue_dead_letters + 1),
{
}

/// Every count begins at zero.
pub proof fn counts_begin_at_zero(r: Counters)
    requires
        call_ensures(Counters::default, (), r),
    ensures
        r.observations_ingested == 0,
        r.model_calls == 0,
        r.agent_executions == 0,
        r.queue_processed == 0,
        r.queue_retries == 0,
        r.queue_dead_letters == 0,
{
}

} // verus!
