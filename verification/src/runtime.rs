//! The steps of the service over the places where it keeps observations and usage, whatever those
//! are: which calls are made, and what their results are made into.
use crate::completion;
use crate::completion::CompletedCall;
use crate::durable::{ObservationQueueItem, QueueDisposition};
use crate::identity;
use crate::observation::{Observation, ObservationError};
use crate::provider;
use crate::provider::{ModelRequest, ModelResponse};
use crate::reply;
use crate::reply::ApiError;
use crate::repository::{ObservationQueueRepository, ObservationRepository, UsageRepository};
use crate::storage::{Acceptance, RecordedCall};
use crate::usage::{UsageEntry, UsageLedger};
use crate::worker;
use crate::worker::{Counters, QueueAction, WorkerSettings};
use vstd::prelude::*;

verus! {

/// Appending the observation may end so.
pub open spec fn appends<O: ObservationRepository>(
    observations: &O,
    item: &Observation,
    outcome: Result<(), ObservationError>,
) -> bool {
    call_ensures(O::append, (observations, item), outcome)
}

/// Queueing the observations may end so.
pub open spec fn enqueues<Q: ObservationQueueRepository>(
    queue: &Q,
    items: &[Observation],
    now_ms: i64,
    outcome: Result<usize, ObservationError>,
) -> bool {
    call_ensures(Q::enqueue_batch, (queue, items, now_ms), outcome)
}

/// The answer is the one to what came of queueing the observations, where there is a queue, or
/// else of appending one after the other up to the first that failed.
pub open spec fn accepts<O: ObservationRepository, Q: ObservationQueueRepository>(
    observations: &O,
    queue: Option<&Q>,
    items: &[Observation],
    now_ms: i64,
    answer: Result<Acceptance, ApiError>,
) -> bool {
    match (queue, answer) {
        (Some(queue), Ok(acceptance)) => exists|n: usize| #[trigger]
            enqueues(queue, items, now_ms, Ok(n)) && acceptance.status == reply::ACCEPTED
                && acceptance.count == n,
        (Some(queue), Err(error)) => exists|failure: ObservationError| #[trigger]
            enqueues(queue, items, now_ms, Err(failure)) && error.says(
                reply::INTERNAL_SERVER_ERROR,
                failure.says(),
            ),
        (None, Ok(acceptance)) => {
            &&& forall|i: int|
                0 <= i < items@.len() ==> appends(observations, #[trigger] &items@[i], Ok(()))
            &&& acceptance.status == reply::CREATED
            &&& acceptance.count == items@.len()
        },
        (None, Err(error)) => exists|i: int, failure: ObservationError|
            {
                &&& 0 <= i < items@.len()
                &&& forall|k: int|
                    0 <= k < i ==> appends(observations, #[trigger] &items@[k], Ok(()))
                &&& #[trigger] appends(observations, &items@[i], Err(failure))
                &&& error.says(reply::INTERNAL_SERVER_ERROR, failure.says())
            },
    }
}

/// Queues the observations where there is a queue; else appends one after the other.
pub fn accept_observations<O: ObservationRepository, Q: ObservationQueueRepository>(
    observations: &O,
    queue: Option<&Q>,
    items: &[Observation],
    now_ms: i64,
) -> (r: Result<Acceptance, ApiError>)
    ensures
        accepts(observations, queue, items, now_ms, r),
{
    match queue {
        Some(waiting) => {
            let outcome: Result<usize, ObservationError> = waiting.enqueue_batch(items, now_ms);
            assert(enqueues(waiting, items, now_ms, outcome));
            match outcome {
                Ok(inserted) => Ok(Acceptance::queued(inserted)),
                Err(failure) => Err(ApiError::of_storage(&failure)),
            }
        },
        None => {
            let mut i: usize = 0;
            while i < items.len()
                invariant
                    i <= items@.len(),
                    queue is None,
                    forall|k: int|
                        0 <= k < i ==> appends(observations, #[trigger] &items@[k], Ok(())),
                decreases items@.len() - i,
            {
                let outcome: Result<(), ObservationError> = observations.append(&items[i]);
                assert(appends(observations, &items@[i as int], outcome));
                match outcome {
                    Ok(done) => {
                        assert(done == ());
                    },
                    Err(failure) => {
                        return Err(ApiError::of_storage(&failure));
                    },
                }
                i += 1;
            }
            Ok(Acceptance::stored(items.len()))
        },
    }
}

/// Claiming the next observation may end so.
pub open spec fn claims<Q: ObservationQueueRepository>(
    queue: &Q,
    now_ms: i64,
    until_ms: i64,
    outcome: Result<Option<ObservationQueueItem>, ObservationError>,
) -> bool {
    call_ensures(Q::claim_next, (queue, now_ms, until_ms), outcome)
}

/// A claimed observation, and what came of appending it.
#[derive(Debug, PartialEq, Eq)]
pub struct ClaimedItem {
    pub item: ObservationQueueItem,
    pub stored: Result<(), ObservationError>,
}

/// Claims the next due observation for the time of a lease, and appends it where there is one.
pub fn claim_and_store<O: ObservationRepository, Q: ObservationQueueRepository>(
    observations: &O,
    queue: &Q,
    settings: &WorkerSettings,
    claimed_at_ms: i64,
) -> (r: Result<Option<ClaimedItem>, ObservationError>)
    ensures
        ({
            let until = worker::capped_sum(claimed_at_ms as int, settings.lease_ms as int) as i64;
            match r {
                Ok(Some(claimed)) => {
                    &&& claims(queue, claimed_at_ms, until, Ok(Some(claimed.item)))
                    &&& appends(observations, &claimed.item.observation, claimed.stored)
                },
                Ok(None) => claims(queue, claimed_at_ms, until, Ok(None)),
                Err(failure) => claims(queue, claimed_at_ms, until, Err(failure)),
            }
        }),
{
    let until_ms: i64 = settings.lease_until(claimed_at_ms);
    match queue.claim_next(claimed_at_ms, until_ms) {
        Ok(Some(item)) => {
            let stored: Result<(), ObservationError> = observations.append(&item.observation);
            Ok(Some(ClaimedItem { item, stored }))
        },
        Ok(None) => Ok(None),
        Err(failure) => Err(failure),
    }
}

/// Completing the id may end so.
pub open spec fn completes<Q: ObservationQueueRepository>(
    queue: &Q,
    id: u128,
    outcome: Result<(), ObservationError>,
) -> bool {
    call_ensures(Q::complete, (queue, id), outcome)
}

/// Failing the id may end so.
pub open spec fn fails<Q: ObservationQueueRepository>(
    queue: &Q,
    id: u128,
    error: Seq<char>,
    retry_at_ms: i64,
    max_attempts: u32,
    outcome: Result<QueueDisposition, ObservationError>,
) -> bool {
    exists|text: &str|
        text@ == error && #[trigger] call_ensures(
            Q::fail,
            (queue, id, text, retry_at_ms, max_attempts),
            outcome,
        )
}

/// Removes a claimed observation from the queue that was appended, or puts it back for a retry or as
/// a dead letter where appending it failed; and counts which of these it was.
pub fn settle_claimed<Q: ObservationQueueRepository>(
    queue: &Q,
    settings: &WorkerSettings,
    claimed: &ClaimedItem,
    now_ms: i64,
    counters: &mut Counters,
) -> (r: Result<(), ObservationError>)
    ensures
        match claimed.stored {
            Ok(_) => match r {
                Ok(_) => completes(queue, claimed.item.id, Ok(())) && *final(counters) == old(
                    counters,
                ).processed(),
                Err(failure) => completes(queue, claimed.item.id, Err(failure)) && *final(counters)
                    == *old(counters),
            },
            Err(refusal) => {
                let retry_at = worker::capped_sum(
                    now_ms as int,
                    worker::retry_delay(claimed.item.attempts as int),
                ) as i64;
                match r {
                    Ok(_) => exists|disposition: QueueDisposition| #[trigger]
                        fails(
                            queue,
                            claimed.item.id,
                            refusal.says(),
                            retry_at,
                            settings.max_attempts,
                            Ok(disposition),
                        ) && *final(counters) == old(counters).failed(disposition),
                    Err(failure) => fails(
                        queue,
                        claimed.item.id,
                        refusal.says(),
                        retry_at,
                        settings.max_attempts,
                        Err(failure),
                    ) && *final(counters) == *old(counters),
                }
            },
        },
{
    match settings.settle(&claimed.item, &claimed.stored, now_ms) {
        QueueAction::Complete { id } => {
            let outcome: Result<(), ObservationError> = queue.complete(id);
            assert(completes(queue, claimed.item.id, outcome));
            match outcome {
                Ok(done) => {
                    assert(done == ());
                    counters.count_processed();
                    Ok(())
                },
                Err(failure) => Err(failure),
            }
        },
        QueueAction::Fail { id, error, retry_at_ms, max_attempts } => {
            let text: &str = error.as_str();
            let outcome: Result<QueueDisposition, ObservationError> = queue.fail(
                id,
                text,
                retry_at_ms,
                max_attempts,
            );
            assert(call_ensures(Q::fail, (queue, id, text, retry_at_ms, max_attempts), outcome));
            let ghost retry_at = worker::capped_sum(
                now_ms as int,
                worker::retry_delay(claimed.item.attempts as int),
            ) as i64;
            assert(retry_at == retry_at_ms);
            match outcome {
                Ok(disposition) => {
                    assert(fails(
                        queue,
                        claimed.item.id,
                        claimed.stored->Err_0.says(),
                        retry_at,
                        settings.max_attempts,
                        Ok(disposition),
                    ));
                    counters.count_failed(disposition);
                    Ok(())
                },
                Err(failure) => Err(failure),
            }
        },
    }
}

/// Keeping the entry may end so.
pub open spec fn keeps<U: UsageRepository>(
    usage: &U,
    entry: &UsageEntry,
    outcome: Result<(), ObservationError>,
) -> bool {
    call_ensures(U::append, (usage, entry), outcome)
}

/// Keeps an entry, and then adds it to the ledger.
pub fn record_usage<U: UsageRepository>(usage: &U, ledger: &mut UsageLedger, entry: UsageEntry) -> (r:
    Result<(), ApiError>)
    requires
        entry@.fits(old(ledger)@),
    ensures
        match r {
            Ok(_) => keeps(usage, &entry, Ok(())) && final(ledger)@ == entry@.recorded(old(ledger)@),
            Err(error) => {
                &&& final(ledger)@ == old(ledger)@
                &&& exists|failure: ObservationError| #[trigger]
                    keeps(usage, &entry, Err(failure)) && error.says(
                        reply::INTERNAL_SERVER_ERROR,
                        failure.says(),
                    )
            },
        },
{
    let outcome: Result<(), ObservationError> = usage.append(&entry);
    assert(keeps(usage, &entry, outcome));
    match outcome {
        Ok(done) => {
            assert(done == ());
            ledger.record(entry);
            Ok(())
        },
        Err(failure) => Err(ApiError::of_storage(&failure)),
    }
}

/// The observation is the one of the completed call.
pub open spec fn observes(
    observation: Observation,
    request: ModelRequest,
    response: ModelResponse,
) -> bool {
    &&& observation@ == provider::call_observation(
        request,
        response@,
        request.model@,
        0,
        0,
        observation.id,
        observation.span_id@,
    )
    &&& identity::is_random(observation.id)
    &&& identity::is_random_text(observation.span_id@)
}

/// The observation of the completed call is accepted so.
pub open spec fn accepts_call<O: ObservationRepository, Q: ObservationQueueRepository>(
    observations: &O,
    queue: Option<&Q>,
    observation: Observation,
    now_ms: i64,
    answer: Result<Acceptance, ApiError>,
) -> bool {
    exists|items: &[Observation]|
        items@ == seq![observation] && #[trigger] accepts(observations, queue, items, now_ms, answer)
}

/// The usage of the completed call is kept so.
pub open spec fn keeps_call<U: UsageRepository>(
    usage: &U,
    request: ModelRequest,
    response: ModelResponse,
    outcome: Result<(), ObservationError>,
) -> bool {
    exists|entry: UsageEntry|
        entry@ == completion::call_usage(request, response) && #[trigger] keeps(
            usage,
            &entry,
            outcome,
        )
}

/// Records a completed call: its observation is accepted, then its usage is kept and added to the
/// ledger. Where there is no answer the request is refused, and nothing is recorded.
pub fn record_call<O: ObservationRepository, Q: ObservationQueueRepository, U: UsageRepository>(
    observations: &O,
    queue: Option<&Q>,
    usage: &U,
    ledger: &mut UsageLedger,
    request: &ModelRequest,
    answer: Result<ModelResponse, ApiError>,
    now_ms: i64,
) -> (r: Result<RecordedCall, ApiError>)
    requires
        completion::tokens_fit(answer),
        answer matches Ok(response) ==> completion::call_usage(*request, response).fits(
            old(ledger)@,
        ),
    ensures
        match answer {
            Err(error) => r == Err::<RecordedCall, ApiError>(error) && final(ledger)@ == old(
                ledger,
            )@,
            Ok(response) => match r {
                Ok(call) => {
                    &&& call.response == response
                    &&& observes(call.observation, *request, response)
                    &&& accepts_call(
                        observations,
                        queue,
                        call.observation,
                        now_ms,
                        Ok(call.acceptance),
                    )
                    &&& keeps_call(usage, *request, response, Ok(()))
                    &&& final(ledger)@ == completion::call_usage(*request, response).recorded(
                        old(ledger)@,
                    )
                },
                Err(error) => {
                    &&& final(ledger)@ == old(ledger)@
                    &&& exists|observation: Observation| #[trigger]
                        observes(observation, *request, response) && {
                            ||| accepts_call(observations, queue, observation, now_ms, Err(error))
                            ||| {
                                &&& exists|acceptance: Acceptance| #[trigger]
                                    accepts_call(
                                        observations,
                                        queue,
                                        observation,
                                        now_ms,
                                        Ok(acceptance),
                                    )
                                &&& exists|failure: ObservationError| #[trigger]
                                    keeps_call(usage, *request, response, Err(failure))
                                        && error.says(
                                        reply::INTERNAL_SERVER_ERROR,
                                        failure.says(),
                                    )
                            }
                        }
                },
            },
        },
{
    let call: CompletedCall = match completion::complete_call(request, answer) {
        Ok(call) => call,
        Err(error) => {
            return Err(error);
        },
    };
    let response: ModelResponse = call.response;
    let entry: UsageEntry = call.usage;
    let ghost observation = call.observation;
    assert(observes(observation, *request, response));
    let mut items: Vec<Observation> = Vec::new();
    items.push(call.observation);
    let slice: &[Observation] = items.as_slice();
    assert(slice@ =~= seq![observation]);
    let accepted: Result<Acceptance, ApiError> = accept_observations(
        observations,
        queue,
        slice,
        now_ms,
    );
    assert(accepts_call(observations, queue, observation, now_ms, accepted));
    let acceptance: Acceptance = match accepted {
        Ok(acceptance) => acceptance,
        Err(error) => {
            return Err(error);
        },
    };
    match record_usage(usage, ledger, entry) {
        Ok(_) => {
            assert(keeps_call(usage, *request, response, Ok(())));
        },
        Err(error) => {
            proof {
                let failure = choose|failure: ObservationError| #[trigger]
                    keeps(usage, &entry, Err(failure)) && error.says(
                        reply::INTERNAL_SERVER_ERROR,
                        failure.says(),
                    );
                assert(keeps_call(usage, *request, response, Err(failure)));
            }
            return Err(error);
        },
    }
    let observation: Observation = items.remove(0);
    Ok(RecordedCall { response, observation, acceptance })
}

/// Observations are accepted as the place that takes them answers. With a queue the answer is 202
/// and the number that the queue took, or 500 and its error; without one it is 201 and how many there
/// were, each of them appended, or 500 and the error of the first that was not, up to which all were.
pub proof fn observations_are_accepted_as_they_are_kept<
    O: ObservationRepository,
    Q: ObservationQueueRepository,
>(
    observations: &O,
    queue: Option<&Q>,
    items: &[Observation],
    now_ms: i64,
    r: Result<Acceptance, ApiError>,
)
    requires
        call_ensures(accept_observations::<O, Q>, (observations, queue, items, now_ms), r),
    ensures
        queue is Some && r is Ok ==> r->Ok_0.status == 202 && exists|n: usize|
            n == r->Ok_0.count && #[trigger] call_ensures(
                Q::enqueue_batch,
                (queue->0, items, now_ms),
                Ok(n),
            ),
        queue is Some && r is Err ==> r->Err_0.status == 500 && exists|failure: ObservationError|
            r->Err_0.message@ == failure.says() && #[trigger] call_ensures(
                Q::enqueue_batch,
                (queue->0, items, now_ms),
                Err(failure),
            ),
        queue is None && r is Ok ==> r->Ok_0.status == 201 && r->Ok_0.count == items@.len()
            && forall|i: int|
            0 <= i < items@.len() ==> call_ensures(
                O::append,
                (observations, #[trigger] &items@[i]),
                Ok(()),
            ),
        queue is None && r is Err ==> r->Err_0.status == 500 && items@.len() > 0,
{
    if queue is Some && r is Ok {
        let n = choose|n: usize| #[trigger]
            enqueues(queue->0, items, now_ms, Ok(n)) && r->Ok_0.status == reply::ACCEPTED
                && r->Ok_0.count == n;
        assert(call_ensures(Q::enqueue_batch, (queue->0, items, now_ms), Ok(n)));
    }
    if queue is Some && r is Err {
        let failure = choose|failure: ObservationError| #[trigger]
            enqueues(queue->0, items, now_ms, Err(failure)) && r->Err_0.says(
                reply::INTERNAL_SERVER_ERROR,
                failure.says(),
            );
        assert(call_ensures(Q::enqueue_batch, (queue->0, items, now_ms), Err(failure)));
    }
    if queue is None && r is Ok {
        assert forall|i: int| 0 <= i < items@.len() implies call_ensures(
            O::append,
            (observations, #[trigger] &items@[i]),
            Ok(()),
        ) by {
            assert(appends(observations, &items@[i], Ok(())));
        }
    }
}

/// Where nothing can be appended at the first failure, that failure is the answer, and everything
/// before it was appended.
pub proof fn the_first_failure_ends_a_request<
    O: ObservationRepository,
    Q: ObservationQueueRepository,
>(
    observations: &O,
    items: &[Observation],
    now_ms: i64,
    r: Result<Acceptance, ApiError>,
)
    requires
        call_ensures(
            accept_observations::<O, Q>,
            (observations, None::<&Q>, items, now_ms),
            r,
        ),
        r is Err,
    ensures
        exists|i: int, failure: ObservationError|
            {
                &&& 0 <= i < items@.len()
                &&& #[trigger] call_ensures(O::append, (observations, &items@[i]), Err(failure))
                &&& r->Err_0.message@ == failure.says()
                &&& forall|k: int|
                    0 <= k < i ==> call_ensures(
                        O::append,
                        (observations, #[trigger] &items@[k]),
                        Ok(()),
                    )
            },
{
    let (i, failure) = choose|i: int, failure: ObservationError|
        {
            &&& 0 <= i < items@.len()
            &&& forall|k: int|
                0 <= k < i ==> appends(observations, #[trigger] &items@[k], Ok(()))
            &&& #[trigger] appends(observations, &items@[i], Err(failure))
            &&& r->Err_0.says(reply::INTERNAL_SERVER_ERROR, failure.says())
        };
    assert(call_ensures(O::append, (observations, &items@[i]), Err(failure)));
    assert forall|k: int| 0 <= k < i implies call_ensures(
        O::append,
        (observations, #[trigger] &items@[k]),
        Ok(()),
    ) by {
        assert(appends(observations, &items@[k], Ok(())));
    }
}

/// A claim is made for the time of a lease; what it gives out is appended, and the outcome of that is
/// kept with it. Where it gives out nothing, or fails, that is the outcome.
pub proof fn what_is_claimed_is_appended<
    O: ObservationRepository,
    Q: ObservationQueueRepository,
>(
    observations: &O,
    queue: &Q,
    settings: &WorkerSettings,
    claimed_at_ms: i64,
    r: Result<Option<ClaimedItem>, ObservationError>,
    until: i64,
)
    requires
        call_ensures(
            claim_and_store::<O, Q>,
            (observations, queue, settings, claimed_at_ms),
            r,
        ),
        call_ensures(WorkerSettings::lease_until, (settings, claimed_at_ms), until),
    ensures
        r is Err ==> call_ensures(
            Q::claim_next,
            (queue, claimed_at_ms, until),
            Err::<Option<ObservationQueueItem>, ObservationError>(r->Err_0),
        ),
        r is Ok && r->Ok_0 is None ==> call_ensures(
            Q::claim_next,
            (queue, claimed_at_ms, until),
            Ok::<Option<ObservationQueueItem>, ObservationError>(None),
        ),
        r is Ok && r->Ok_0 is Some ==> call_ensures(
            Q::claim_next,
            (queue, claimed_at_ms, until),
            Ok::<Option<ObservationQueueItem>, ObservationError>(Some((r->Ok_0->0).item)),
        ) && call_ensures(
            O::append,
            (observations, &(r->Ok_0->0).item.observation),
            (r->Ok_0->0).stored,
        ),
{
}

/// A claimed observation that was appended is completed, and counted as processed once that was
/// done. One that was not is failed with the error of appending it, the time behind the delay for its
/// attempts and the allowed attempts, and counted by what became of it.
pub proof fn a_claimed_observation_is_settled<Q: ObservationQueueRepository>(
    queue: &Q,
    settings: &WorkerSettings,
    claimed: &ClaimedItem,
    now_ms: i64,
    counters: &mut Counters,
    r: Result<(), ObservationError>,
    action: QueueAction,
)
    requires
        call_ensures(
            settle_claimed::<Q>,
            (queue, settings, claimed, now_ms, counters),
            r,
        ),
        call_ensures(
            WorkerSettings::settle,
            (settings, &claimed.item, &claimed.stored, now_ms),
            action,
        ),
    ensures
        r is Err ==> *final(counters) == *old(counters),
        claimed.stored is Ok ==> call_ensures(Q::complete, (queue, claimed.item.id), r),
        claimed.stored is Ok && r is Ok ==> *final(counters) == (Counters {
            queue_processed: old(counters).queue_processed.wrapping_add(1),
            ..*old(counters)
        }),
        claimed.stored is Err && r is Ok ==> exists|text: &str, disposition: QueueDisposition|
            {
                &&& text@ == claimed.stored->Err_0.says()
                &&& #[trigger] call_ensures(
                    Q::fail,
                    (
                        queue,
                        claimed.item.id,
                        text,
                        action->Fail_retry_at_ms,
                        settings.max_attempts,
                    ),
                    Ok(disposition),
                )
                &&& disposition == QueueDisposition::Pending ==> *final(counters) == (Counters {
                    queue_retries: old(counters).queue_retries.wrapping_add(1),
                    ..*old(counters)
                })
                &&& disposition == QueueDisposition::DeadLetter ==> *final(counters) == (Counters {
                    queue_dead_letters: old(counters).queue_dead_letters.wrapping_add(1),
                    ..*old(counters)
                })
            },
{
    if claimed.stored is Ok && r is Ok {
        assert(r->Ok_0 == ());
    }
    if claimed.stored is Err && r is Ok {
        let retry_at = worker::capped_sum(
            now_ms as int,
            worker::retry_delay(claimed.item.attempts as int),
        ) as i64;
        let disposition = choose|disposition: QueueDisposition| #[trigger]
            fails(
                queue,
                claimed.item.id,
                claimed.stored->Err_0.says(),
                retry_at,
                settings.max_attempts,
                Ok(disposition),
            ) && *final(counters) == old(counters).failed(disposition);
        let text = choose|text: &str|
            text@ == claimed.stored->Err_0.says() && #[trigger] call_ensures(
                Q::fail,
                (queue, claimed.item.id, text, retry_at, settings.max_attempts),
                Ok(disposition),
            );
        assert(retry_at == action->Fail_retry_at_ms);
        assert(call_ensures(
            Q::fail,
            (queue, claimed.item.id, text, action->Fail_retry_at_ms, settings.max_attempts),
            Ok(disposition),
        ));
    }
}

/// Usage is kept first, and then added to the total of its tenant, period and kind. Where it could
/// not be kept the answer is 500 and the error, and nothing is added.
pub proof fn usage_is_kept_before_it_is_added<U: UsageRepository>(
    usage: &U,
    ledger: &mut UsageLedger,
    entry: UsageEntry,
    r: Result<(), ApiError>,
    tenant_id: &crate::observation::TenantId,
    period: &str,
    kind: &crate::usage::UsageKind,
    before: u64,
    after: u64,
)
    requires
        call_ensures(record_usage::<U>, (usage, ledger, entry), r),
        call_ensures(UsageLedger::total, (&*old(ledger), tenant_id, period, kind), before),
        call_ensures(UsageLedger::total, (&*final(ledger), tenant_id, period, kind), after),
        before + entry.quantity <= u64::MAX,
    ensures
        r is Ok ==> call_ensures(U::append, (usage, &entry), Ok(())),
        r is Ok && *tenant_id == entry.tenant_id && period@ == entry.period@ && *kind == entry.kind
            ==> after == before + entry.quantity,
        r is Err || *tenant_id != entry.tenant_id || period@ != entry.period@ || *kind
            != entry.kind ==> after == before,
        r is Err ==> r->Err_0.status == 500 && exists|failure: ObservationError|
            r->Err_0.message@ == failure.says() && #[trigger] call_ensures(
                U::append,
                (usage, &entry),
                Err(failure),
            ),
{
    assert(entry@.tenant_id == entry.tenant_id && entry@.period == entry.period@ && entry@.kind
        == entry.kind && entry@.quantity == entry.quantity);
    if r is Ok {
        assert(keeps(usage, &entry, Ok(())));
    } else {
        let failure = choose|failure: ObservationError| #[trigger]
            keeps(usage, &entry, Err(failure)) && r->Err_0.says(
                reply::INTERNAL_SERVER_ERROR,
                failure.says(),
            );
        assert(call_ensures(U::append, (usage, &entry), Err(failure)));
    }
}

/// A call that was refused leaves the ledger as it is and hands the refusal on. One that was recorded
/// hands its answer on, with the observation of the tenant, and adds its tokens to what the tenant
/// used in the current period; where anything could not be kept, nothing is added.
pub proof fn a_call_is_recorded_or_adds_nothing<
    O: ObservationRepository,
    Q: ObservationQueueRepository,
    U: UsageRepository,
>(
    observations: &O,
    queue: Option<&Q>,
    usage: &U,
    ledger: &mut UsageLedger,
    request: &ModelRequest,
    answer: Result<ModelResponse, ApiError>,
    now_ms: i64,
    r: Result<RecordedCall, ApiError>,
    tenant_id: &crate::observation::TenantId,
    period: &str,
    kind: &crate::usage::UsageKind,
    before: u64,
    after: u64,
)
    requires
        call_ensures(
            record_call::<O, Q, U>,
            (observations, queue, usage, ledger, request, answer, now_ms),
            r,
        ),
        call_ensures(UsageLedger::total, (&*old(ledger), tenant_id, period, kind), before),
        call_ensures(UsageLedger::total, (&*final(ledger), tenant_id, period, kind), after),
        answer is Ok ==> before + answer->Ok_0.input_tokens + answer->Ok_0.output_tokens
            <= u64::MAX,
    ensures
        answer is Err ==> r is Err && r->Err_0 == answer->Err_0,
        r is Err ==> after == before,
        r is Ok ==> {
            &&& answer is Ok
            &&& r->Ok_0.response == answer->Ok_0
            &&& r->Ok_0.observation.tenant_id == request.tenant_id
            &&& r->Ok_0.observation.name@ == "model.complete"@
            &&& r->Ok_0.observation.trace_id@ == request.model@
            &&& r->Ok_0.acceptance.status == if queue is Some {
                202u16
            } else {
                201u16
            }
            &&& *tenant_id == request.tenant_id && period@ == "current"@ && *kind
                == crate::usage::UsageKind::ModelToken ==> after == before
                + answer->Ok_0.input_tokens + answer->Ok_0.output_tokens
            &&& *tenant_id != request.tenant_id || period@ != "current"@ || *kind
                != crate::usage::UsageKind::ModelToken ==> after == before
        },
        answer is Ok && r is Err ==> r->Err_0.status == 500,
{
    if r is Ok {
        let observation = r->Ok_0.observation;
        let view = observation@;
        assert(view.tenant_id == observation.tenant_id && view.name == observation.name@
            && view.trace_id == observation.trace_id@);
        assert(accepts_call(observations, queue, observation, now_ms, Ok(r->Ok_0.acceptance)));
    }
}

} // verus!
