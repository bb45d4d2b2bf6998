//! The stored observations together with the queue before them: accepting observations, and moving
//! them from the queue into the table.
use crate::completion;
use crate::completion::CompletedCall;
use crate::durable;
use crate::durable::{ItemView, ObservationQueue, ObservationQueueItem, RowView};
use crate::identity;
use crate::observation;
use crate::observation::{Observation, ObservationError, ObservationView, TenantId};
use crate::provider;
use crate::provider::{ModelRequest, ModelResponse};
use crate::reply;
use crate::reply::ApiError;
use crate::table;
use crate::table::ObservationTable;
use crate::usage::{UsageEntry, UsageKind, UsageLedger};
use crate::worker;
use crate::worker::{Counters, QueueAction, WorkerSettings};
use vstd::prelude::*;

verus! {

/// The table of observations, and the queue before it where observations are queued first.
#[derive(Debug, PartialEq, Eq)]
pub struct Storage {
    pub observations: ObservationTable,
    pub queue: Option<ObservationQueue>,
}

/// The value of a storage.
#[verifier::ext_equal]
pub struct StorageView {
    pub observations: Seq<ObservationView>,
    pub queue: Option<Seq<RowView>>,
}

impl View for Storage {
    type V = StorageView;

    open spec fn view(&self) -> StorageView {
        StorageView {
            observations: self.observations@,
            queue: match self.queue {
                Some(queue) => Some(queue@),
                None => None,
            },
        }
    }
}

/// The rows with observations stored, one after the other.
pub open spec fn stored_all(
    rows: Seq<ObservationView>,
    observations: Seq<ObservationView>,
) -> Seq<ObservationView>
    decreases observations.len(),
{
    if observations.len() == 0 {
        rows
    } else {
        table::stored(stored_all(rows, observations.drop_last()), observations.last())
    }
}

/// The observations before the first one that is not valid.
pub open spec fn before_flaw(observations: Seq<ObservationView>) -> Seq<ObservationView>
    decreases observations.len(),
{
    if observations.len() == 0 {
        observations
    } else {
        let front = observations.drop_last();
        if durable::first_flaw(front) is None && observations.last().flaw() is None {
            observations
        } else {
            before_flaw(front)
        }
    }
}

/// Where the first observation that is not valid stands.
proof fn lemma_before_flaw(observations: Seq<ObservationView>, i: int)
    requires
        0 <= i < observations.len(),
        durable::first_flaw(observations.take(i)) is None,
        observations[i].flaw() is Some,
    ensures
        before_flaw(observations) == observations.take(i),
        durable::first_flaw(observations) == observations[i].flaw(),
    decreases observations.len(),
{
    let front = observations.drop_last();
    if i == observations.len() - 1 {
        assert(front =~= observations.take(i));
        lemma_no_flaw(front);
    } else {
        assert(front.take(i) =~= observations.take(i));
        lemma_before_flaw(front, i);
    }
}

/// Without a flaw everything stands before the first one.
proof fn lemma_no_flaw(observations: Seq<ObservationView>)
    requires
        durable::first_flaw(observations) is None,
    ensures
        before_flaw(observations) == observations,
{
}

/// How an accepted request is answered, and how many observations it counts for.
#[derive(Debug, Clone, Copy, PartialEq, Eq, Structural)]
pub struct Acceptance {
    pub status: u16,
    pub count: u64,
}

impl Acceptance {
    /// The answer to a request of which so many observations were queued.
    pub fn queued(inserted: usize) -> (r: Self)
        ensures
            r.status == reply::ACCEPTED,
            r.count == inserted,
    {
        Acceptance { status: reply::ACCEPTED, count: inserted as u64 }
    }

    /// The answer to a request whose observations, so many, were stored.
    pub fn stored(given: usize) -> (r: Self)
        ensures
            r.status == reply::CREATED,
            r.count == given,
    {
        Acceptance { status: reply::CREATED, count: given as u64 }
    }
}

impl Storage {
    /// Queues the observations where there is a queue, which is answered with `ACCEPTED` and counts
    /// the new ones; else stores them one after the other, which is answered with `CREATED` and
    /// counts all of them. Where one is not valid the request fails: with a queue nothing is
    /// queued, without one those before it are stored.
    pub fn accept_observations(&mut self, observations: &[Observation], now_ms: i64) -> (r: Result<
        Acceptance,
        ApiError,
    >)
        ensures
            ({
                let views = observation::observation_views(observations@);
                match old(self)@.queue {
                    Some(rows) => {
                        &&& final(self)@.observations == old(self)@.observations
                        &&& match r {
                            Ok(acceptance) => {
                                &&& durable::first_flaw(views) is None
                                &&& final(self)@.queue == Some(
                                    durable::enqueued(rows, views, now_ms),
                                )
                                &&& acceptance.status == reply::ACCEPTED
                                &&& acceptance.count == durable::enqueued(rows, views, now_ms).len()
                                    - rows.len()
                            },
                            Err(error) => {
                                &&& durable::first_flaw(views) is Some
                                &&& final(self)@.queue == Some(rows)
                                &&& error.says(
                                    reply::INTERNAL_SERVER_ERROR,
                                    (durable::first_flaw(views)->0).says(),
                                )
                            },
                        }
                    },
                    None => {
                        &&& final(self)@.queue is None
                        &&& match r {
                            Ok(acceptance) => {
                                &&& durable::first_flaw(views) is None
                                &&& final(self)@.observations == stored_all(
                                    old(self)@.observations,
                                    views,
                                )
                                &&& acceptance.status == reply::CREATED
                                &&& acceptance.count == views.len()
                            },
                            Err(error) => {
                                &&& durable::first_flaw(views) is Some
                                &&& final(self)@.observations == stored_all(
                                    old(self)@.observations,
                                    before_flaw(views),
                                )
                                &&& error.says(
                                    reply::INTERNAL_SERVER_ERROR,
                                    (durable::first_flaw(views)->0).says(),
                                )
                            },
                        }
                    },
                }
            }),
    {
        match &mut self.queue {
            Some(queue) => match queue.enqueue_batch(observations, now_ms) {
                Ok(inserted) => Ok(Acceptance::queued(inserted)),
                Err(error) => Err(ApiError::of_storage(&error)),
            },
            None => self.store_all(observations),
        }
    }

    /// Stores the observations one after the other, up to the first that is not valid.
    fn store_all(&mut self, observations: &[Observation]) -> (r: Result<Acceptance, ApiError>)
        ensures
            final(self).queue == old(self).queue,
            ({
                let views = observation::observation_views(observations@);
                match r {
                    Ok(acceptance) => {
                        &&& durable::first_flaw(views) is None
                        &&& final(self)@.observations == stored_all(old(self)@.observations, views)
                        &&& acceptance.status == reply::CREATED
                        &&& acceptance.count == views.len()
                    },
                    Err(error) => {
                        &&& durable::first_flaw(views) is Some
                        &&& final(self)@.observations == stored_all(
                            old(self)@.observations,
                            before_flaw(views),
                        )
                        &&& error.says(
                            reply::INTERNAL_SERVER_ERROR,
                            (durable::first_flaw(views)->0).says(),
                        )
                    },
                }
            }),
    {
        let ghost views = observation::observation_views(observations@);
        let mut i: usize = 0;
        assert(views.take(0) =~= Seq::empty());
        while i < observations.len()
            invariant
                i <= observations.len(),
                views == observation::observation_views(observations@),
                self.queue == old(self).queue,
                durable::first_flaw(views.take(i as int)) is None,
                self@.observations == stored_all(old(self)@.observations, views.take(i as int)),
            decreases observations.len() - i,
        {
            assert(views.take(i + 1).drop_last() =~= views.take(i as int));
            assert(views.take(i + 1).last() == observations@[i as int]@);
            match self.observations.append(&observations[i]) {
                Ok(_) => {},
                Err(error) => {
                    proof {
                        lemma_before_flaw(views, i as int);
                    }
                    return Err(ApiError::of_storage(&error));
                },
            }
            i += 1;
        }
        assert(views.take(views.len() as int) =~= views);
        Ok(Acceptance::stored(observations.len()))
    }
}

/// What one step of the worker makes of the storage and the counts. The next due observation is
/// leased and stored, and leaves the queue; where it cannot be stored it is tried again later, or
/// ends as a dead letter.
pub open spec fn worked(
    storage: StorageView,
    counters: Counters,
    settings: WorkerSettings,
    claimed_at_ms: i64,
    settled_at_ms: i64,
) -> (StorageView, Counters, bool) {
    match storage.queue {
        Some(rows) => {
            let until = worker::capped_sum(claimed_at_ms as int, settings.lease_ms as int) as i64;
            let after = durable::after_claim(rows, claimed_at_ms, until);
            match durable::claimed(rows, claimed_at_ms, until) {
                Some(item) => match item.observation.flaw() {
                    None => (
                        StorageView {
                            observations: table::stored(storage.observations, item.observation),
                            queue: Some(durable::completed(after, item.id)),
                        },
                        counters.processed(),
                        true,
                    ),
                    Some(error) => {
                        let at = durable::row_at(after, item.id);
                        (
                            StorageView {
                                queue: Some(
                                    after.update(
                                        at,
                                        after[at].failed(
                                            error.says(),
                                            retry_time(item, settled_at_ms),
                                            settings.max_attempts,
                                        ),
                                    ),
                                ),
                                ..storage
                            },
                            counters.failed(after[at].disposition(settings.max_attempts)),
                            true,
                        )
                    },
                },
                None => (StorageView { queue: Some(after), ..storage }, counters, false),
            }
        },
        None => (storage, counters, false),
    }
}

/// When an item that failed at a time is tried again.
pub open spec fn retry_time(item: ItemView, settled_at_ms: i64) -> i64 {
    worker::capped_sum(settled_at_ms as int, worker::retry_delay(item.attempts as int)) as i64
}

impl Storage {
    /// The attempts of the observation that the worker would get can be counted.
    pub open spec fn workable(&self, claimed_at_ms: i64) -> bool {
        self@.queue matches Some(rows) ==> durable::claimable(rows, claimed_at_ms)
    }

    /// Whether the attempts of the observation that the worker would get can be counted.
    pub fn is_workable(&self, claimed_at_ms: i64) -> (r: bool)
        ensures
            r == self.workable(claimed_at_ms),
    {
        match &self.queue {
            Some(queue) => queue.can_claim(claimed_at_ms),
            None => true,
        }
    }

    /// One step of the worker, and whether there was something to do.
    pub fn process_queue_once(
        &mut self,
        settings: &WorkerSettings,
        claimed_at_ms: i64,
        settled_at_ms: i64,
        counters: &mut Counters,
    ) -> (r: Result<bool, ObservationError>)
        requires
            old(self).workable(claimed_at_ms),
        ensures
            ({
                let now = worked(
                    old(self)@,
                    *old(counters),
                    *settings,
                    claimed_at_ms,
                    settled_at_ms,
                );
                &&& final(self)@ == now.0
                &&& *final(counters) == now.1
                &&& r == Ok::<bool, ObservationError>(now.2)
            }),
    {
        match &mut self.queue {
            Some(queue) => {
                let ghost rows = queue@;
                let until: i64 = settings.lease_until(claimed_at_ms);
                let item: ObservationQueueItem = match queue.claim_next(claimed_at_ms, until) {
                    Some(item) => item,
                    None => {
                        return Ok(false);
                    },
                };
                proof {
                    durable::a_claimed_id_is_with_a_worker(rows, claimed_at_ms, until);
                }
                let stored: Result<(), ObservationError> = self.observations.append(
                    &item.observation,
                );
                match settings.settle(&item, &stored, settled_at_ms) {
                    QueueAction::Complete { id } => {
                        queue.complete(id);
                        counters.count_processed();
                    },
                    QueueAction::Fail { id, error, retry_at_ms, max_attempts } => {
                        match queue.fail(id, error.as_str(), retry_at_ms, max_attempts) {
                            Ok(disposition) => {
                                counters.count_failed(disposition);
                            },
                            Err(error) => {
                                return Err(error);
                            },
                        }
                    },
                }
                Ok(true)
            },
            None => Ok(false),
        }
    }
}

/// The step of the worker does not lose an observation: each one that was queued is still queued
/// or is in the table.
pub proof fn the_worker_loses_nothing(
    storage: StorageView,
    counters: Counters,
    settings: WorkerSettings,
    claimed_at_ms: i64,
    settled_at_ms: i64,
    i: int,
)
    requires
        storage.queue is Some,
        durable::ids_differ(storage.queue->0),
        0 <= i < (storage.queue->0).len(),
    ensures
        ({
            let now = worked(storage, counters, settings, claimed_at_ms, settled_at_ms).0;
            let observation = (storage.queue->0)[i].observation;
            &&& now.queue is Some
            &&& {
                ||| now.observations.contains(observation)
                ||| exists|j: int|
                    0 <= j < (now.queue->0).len() && (#[trigger] (now.queue->0)[j]).observation
                        == observation
            }
        }),
{
    let rows = storage.queue->0;
    let now = worked(storage, counters, settings, claimed_at_ms, settled_at_ms).0;
    let observation = rows[i].observation;
    let until = worker::capped_sum(claimed_at_ms as int, settings.lease_ms as int) as i64;
    let after = durable::after_claim(rows, claimed_at_ms, until);
    let ready = durable::recovered(rows, claimed_at_ms);
    durable::a_claimed_id_is_with_a_worker(rows, claimed_at_ms, until);
    durable::next_due_is_the_earliest(ready, claimed_at_ms);
    assert(ready[i].observation == observation);
    assert(after[i].observation == observation);
    match durable::claimed(rows, claimed_at_ms, until) {
        Some(item) => {
            durable::lemma_row_at(after, item.id);
            let at = durable::row_at(after, item.id);
            let k = durable::next_due(ready, claimed_at_ms)->0;
            assert(after[k].id() == item.id);
            assert(after[at].id() == item.id);
            assert(k == at) by {
                if k < at {
                    assert(after[k].id() != after[at].id());
                } else if at < k {
                    assert(after[at].id() != after[k].id());
                }
            }
            if item.observation.flaw() is None {
                let table = table::stored(storage.observations, item.observation);
                if i == at {
                    assert(table[table.len() - 1] == observation);
                } else {
                    durable::a_completed_claim_is_gone(rows, claimed_at_ms, until);
                    assert(after[i].id() != item.id) by {
                        if i < at {
                            assert(after[i].id() != after[at].id());
                        } else {
                            assert(after[at].id() != after[i].id());
                        }
                    }
                    assert((now.queue->0).contains(after[i]));
                    let j = choose|j: int|
                        0 <= j < (now.queue->0).len() && (now.queue->0)[j] == after[i];
                    assert((now.queue->0)[j].observation == observation);
                }
            } else {
                assert((now.queue->0)[i].observation == observation);
            }
        },
        None => {
            assert((now.queue->0)[i].observation == observation);
        },
    }
}

/// Accepting the same observations again changes nothing: neither the queue nor the list of stored
/// observations gets longer.
pub proof fn accepting_again_changes_nothing(
    rows: Seq<RowView>,
    table: Seq<ObservationView>,
    observation: ObservationView,
    now_ms: i64,
    later_ms: i64,
)
    requires
        durable::ids_differ(rows),
    ensures
        durable::enqueued(
            durable::enqueued(rows, seq![observation], now_ms),
            seq![observation],
            later_ms,
        ) == durable::enqueued(rows, seq![observation], now_ms),
        stored_all(stored_all(table, seq![observation]), seq![observation]) == stored_all(
            table,
            seq![observation],
        ),
{
    durable::queueing_again_changes_nothing(rows, seq![observation], now_ms, later_ms);
    reveal_with_fuel(stored_all, 2);
    assert(seq![observation].drop_last() =~= Seq::empty());
    table::storing_again_changes_nothing(table, observation);
}

/// A completed call that is recorded: what was answered, its observation, and how that was accepted.
#[derive(Debug, PartialEq, Eq)]
pub struct RecordedCall {
    pub response: ModelResponse,
    pub observation: Observation,
    pub acceptance: Acceptance,
}

impl Storage {
    /// Records a completed call: its observation is queued, or stored where there is no queue, and
    /// its usage is added to the ledger. Where there is no answer the request is refused, and
    /// nothing is recorded.
    pub fn record_call(
        &mut self,
        ledger: &mut UsageLedger,
        request: &ModelRequest,
        answer: Result<ModelResponse, ApiError>,
        now_ms: i64,
    ) -> (r: Result<RecordedCall, ApiError>)
        requires
            completion::tokens_fit(answer),
            answer matches Ok(response) ==> completion::call_usage(*request, response).fits(
                old(ledger)@,
            ),
        ensures
            match answer {
                Err(error) => {
                    &&& r == Err::<RecordedCall, ApiError>(error)
                    &&& final(self)@ == old(self)@
                    &&& final(ledger)@ == old(ledger)@
                },
                Ok(response) => {
                    &&& r is Ok
                    &&& r->Ok_0.response == response
                    &&& r->Ok_0.observation@ == provider::call_observation(
                        *request,
                        response@,
                        request.model@,
                        0,
                        0,
                        r->Ok_0.observation.id,
                        r->Ok_0.observation.span_id@,
                    )
                    &&& identity::is_random(r->Ok_0.observation.id)
                    &&& identity::is_random_text(r->Ok_0.observation.span_id@)
                    &&& final(ledger)@ == completion::call_usage(*request, response).recorded(
                        old(ledger)@,
                    )
                    &&& match old(self)@.queue {
                        Some(rows) => {
                            &&& final(self)@.observations == old(self)@.observations
                            &&& final(self)@.queue == Some(
                                durable::enqueued(rows, seq![r->Ok_0.observation@], now_ms),
                            )
                            &&& r->Ok_0.acceptance.status == reply::ACCEPTED
                            &&& r->Ok_0.acceptance.count == (final(self)@.queue->0).len()
                                - rows.len()
                        },
                        None => {
                            &&& final(self)@.queue is None
                            &&& final(self)@.observations == table::stored(
                                old(self)@.observations,
                                r->Ok_0.observation@,
                            )
                            &&& r->Ok_0.acceptance.status == reply::CREATED
                            &&& r->Ok_0.acceptance.count == 1
                        },
                    }
                },
            },
    {
        let call: CompletedCall = match completion::complete_call(request, answer) {
            Ok(call) => call,
            Err(error) => {
                return Err(error);
            },
        };
        let response: ModelResponse = call.response;
        let entry: UsageEntry = call.usage;
        let ghost view = call.observation@;
        let mut items: Vec<Observation> = Vec::new();
        items.push(call.observation);
        proof {
            let views = observation::observation_views(items@);
            reveal_with_fuel(durable::first_flaw, 2);
            reveal_with_fuel(stored_all, 2);
            assert(views =~= seq![view]);
            assert(views.drop_last() =~= Seq::empty());
            assert(views.last() == view);
        }
        let acceptance: Acceptance = match self.accept_observations(items.as_slice(), now_ms) {
            Ok(acceptance) => acceptance,
            Err(error) => {
                return Err(error);
            },
        };
        ledger.record(entry);
        let observation: Observation = items.remove(0);
        Ok(RecordedCall { response, observation, acceptance })
    }
}

/// With a queue a request is accepted as the queue takes it: 202 and how many were new, or 500 with
/// what is wrong, and the stored observations do not change.
pub proof fn a_queue_takes_what_is_accepted(
    storage: &mut Storage,
    observations: &[Observation],
    now_ms: i64,
    r: Result<Acceptance, ApiError>,
    queue: &mut ObservationQueue,
    queued: Result<usize, ObservationError>,
)
    requires
        call_ensures(Storage::accept_observations, (storage, observations, now_ms), r),
        old(storage).queue is Some,
        old(queue)@ == old(storage).queue->0@,
        call_ensures(ObservationQueue::enqueue_batch, (queue, observations, now_ms), queued),
    ensures
        final(storage)@.observations == old(storage)@.observations,
        final(storage)@.queue == Some(final(queue)@),
        queued is Ok ==> r is Ok && r->Ok_0.status == 202 && r->Ok_0.count == queued->Ok_0,
        queued is Err ==> r is Err && r->Err_0.status == 500 && r->Err_0.message@
            == queued->Err_0.says(),
{
}

/// Without a queue a request of one observation is accepted as the table takes it: 201 and one, or
/// 500 with what is wrong.
pub proof fn a_table_takes_what_is_accepted(
    storage: &mut Storage,
    observations: &[Observation],
    now_ms: i64,
    r: Result<Acceptance, ApiError>,
    table: &mut ObservationTable,
    stored: Result<(), ObservationError>,
)
    requires
        call_ensures(Storage::accept_observations, (storage, observations, now_ms), r),
        old(storage).queue is None,
        observations@.len() == 1,
        old(table)@ == old(storage).observations@,
        call_ensures(ObservationTable::append, (table, &observations@[0]), stored),
    ensures
        final(storage)@.queue is None,
        final(storage)@.observations == final(table)@,
        stored is Ok ==> r is Ok && r->Ok_0.status == 201 && r->Ok_0.count == 1,
        stored is Err ==> r is Err && r->Err_0.status == 500 && r->Err_0.message@
            == stored->Err_0.says(),
{
    let views = observation::observation_views(observations@);
    reveal_with_fuel(durable::first_flaw, 2);
    reveal_with_fuel(stored_all, 2);
    reveal_with_fuel(before_flaw, 2);
    assert(views.drop_last() =~= Seq::empty());
    assert(views.last() == observations@[0]@);
}

/// Observations are stored one after the other: those of a front, and then the rest. Where one is
/// not valid, just those before the first such one are.
pub proof fn observations_are_stored_in_order(
    rows: Seq<ObservationView>,
    front: Seq<ObservationView>,
    rest: Seq<ObservationView>,
    observation: ObservationView,
    i: int,
)
    ensures
        stored_all(rows, Seq::empty()) == rows,
        stored_all(rows, front + rest) == stored_all(stored_all(rows, front), rest),
        stored_all(rows, seq![observation]) == rows.filter(
            |row: ObservationView| row.id != observation.id,
        ).push(observation),
        0 <= i < front.len() && front[i].flaw() is Some && (forall|k: int|
            0 <= k < i ==> (#[trigger] front[k]).flaw() is None) ==> before_flaw(front)
            == front.take(i),
        (forall|k: int| 0 <= k < front.len() ==> (#[trigger] front[k]).flaw() is None)
            ==> before_flaw(front) == front,
    decreases rest.len(),
{
    reveal_with_fuel(stored_all, 2);
    assert(seq![observation].drop_last() =~= Seq::empty());
    if rest.len() > 0 {
        observations_are_stored_in_order(rows, front, rest.drop_last(), observation, i);
        assert((front + rest).drop_last() =~= front + rest.drop_last());
        assert((front + rest).last() == rest.last());
    } else {
        assert(front + rest =~= front);
    }
    if 0 <= i < front.len() && front[i].flaw() is Some && (forall|k: int|
        0 <= k < i ==> (#[trigger] front[k]).flaw() is None) {
        let first = front.take(i);
        assert forall|k: int| 0 <= k < i implies (#[trigger] first[k]).flaw() is None by {
            assert(first[k] == front[k]);
        }
        durable::the_first_flaw_decides(first, i);
        lemma_before_flaw(front, i);
    }
    if forall|k: int| 0 <= k < front.len() ==> (#[trigger] front[k]).flaw() is None {
        durable::the_first_flaw_decides(front, front.len() as int);
        lemma_no_flaw(front);
    }
}

/// A step of the worker without a queue, or with nothing due, does nothing but take back leases that
/// have run out, and says so.
pub proof fn an_idle_step_stores_nothing(
    storage: &mut Storage,
    settings: &WorkerSettings,
    claimed_at_ms: i64,
    settled_at_ms: i64,
    counters: &mut Counters,
    r: Result<bool, ObservationError>,
    until: i64,
    queue: &mut ObservationQueue,
    item: Option<ObservationQueueItem>,
)
    requires
        call_ensures(
            Storage::process_queue_once,
            (storage, settings, claimed_at_ms, settled_at_ms, counters),
            r,
        ),
        call_ensures(WorkerSettings::lease_until, (settings, claimed_at_ms), until),
        old(storage).queue is Some ==> old(queue)@ == old(storage).queue->0@,
        call_ensures(ObservationQueue::claim_next, (queue, claimed_at_ms, until), item),
        item is None || old(storage).queue is None,
    ensures
        r == Ok::<bool, ObservationError>(false),
        *final(counters) == *old(counters),
        final(storage)@.observations == old(storage)@.observations,
        old(storage).queue is None ==> final(storage)@.queue is None,
        old(storage).queue is Some ==> final(storage)@.queue == Some(final(queue)@),
{
}

/// A step of the worker claims the next due observation for the time of a lease and stores it. Where
/// that succeeds the observation leaves the queue and is counted as processed; where it does not,
/// the queue is told so with the error and the time of the retry, and the retry or the dead letter
/// is counted.
pub proof fn a_step_stores_what_it_claims(
    storage: &mut Storage,
    settings: &WorkerSettings,
    claimed_at_ms: i64,
    settled_at_ms: i64,
    counters: &mut Counters,
    r: Result<bool, ObservationError>,
    until: i64,
    queue: &mut ObservationQueue,
    item: Option<ObservationQueueItem>,
    table: &mut ObservationTable,
    stored: Result<(), ObservationError>,
    action: QueueAction,
    done: &mut ObservationQueue,
    failed: &mut ObservationQueue,
    text: &str,
    disposition: Result<durable::QueueDisposition, ObservationError>,
)
    requires
        call_ensures(
            Storage::process_queue_once,
            (storage, settings, claimed_at_ms, settled_at_ms, counters),
            r,
        ),
        call_ensures(WorkerSettings::lease_until, (settings, claimed_at_ms), until),
        old(storage).queue is Some,
        old(queue)@ == old(storage).queue->0@,
        call_ensures(ObservationQueue::claim_next, (queue, claimed_at_ms, until), item),
        item is Some,
        old(table)@ == old(storage).observations@,
        call_ensures(ObservationTable::append, (table, &item->0.observation), stored),
        call_ensures(WorkerSettings::settle, (settings, &item->0, &stored, settled_at_ms), action),
        old(done)@ == final(queue)@,
        call_ensures(ObservationQueue::complete, (done, item->0.id), ()),
        old(failed)@ == final(queue)@,
        action is Fail ==> text@ == action->Fail_error@ && call_ensures(
            ObservationQueue::fail,
            (failed, item->0.id, text, action->Fail_retry_at_ms, action->Fail_max_attempts),
            disposition,
        ),
    ensures
        r == Ok::<bool, ObservationError>(true),
        final(storage)@.observations == final(table)@,
        stored is Ok ==> final(storage)@.queue == Some(final(done)@) && *final(counters) == (
        Counters {
            queue_processed: old(counters).queue_processed.wrapping_add(1),
            ..*old(counters)
        }),
        stored is Err ==> {
            &&& final(storage)@.queue == Some(final(failed)@)
            &&& disposition is Ok
            &&& disposition->Ok_0 == durable::QueueDisposition::Pending ==> final(counters).queue_retries == old(counters).queue_retries.wrapping_add(1) && final(counters).queue_dead_letters == old(counters).queue_dead_letters
            &&& disposition->Ok_0 == durable::QueueDisposition::DeadLetter ==> final(counters).queue_dead_letters == old(counters).queue_dead_letters.wrapping_add(1) && final(counters).queue_retries == old(counters).queue_retries
            &&& final(counters).queue_processed == old(counters).queue_processed
        },
{
    let rows = old(queue)@;
    durable::a_claimed_id_is_with_a_worker(rows, claimed_at_ms, until);
    assert(item->0@.observation == item->0.observation@);
    assert(item->0@.id == item->0.id && item->0@.attempts == item->0.attempts);
}

/// A recorded call is answered with its own answer. Its observation is in the queue, or in the table
/// where there is no queue, and its tokens are added to what the tenant used in the current period.
/// A refused one leaves nothing behind.
pub proof fn a_recorded_call_is_kept(
    storage: &mut Storage,
    ledger: &mut UsageLedger,
    request: &ModelRequest,
    answer: Result<ModelResponse, ApiError>,
    now_ms: i64,
    r: Result<RecordedCall, ApiError>,
    tenant_id: &TenantId,
    period: &str,
    kind: &UsageKind,
    before: u64,
    after: u64,
)
    requires
        call_ensures(Storage::record_call, (storage, ledger, request, answer, now_ms), r),
        call_ensures(UsageLedger::total, (&*old(ledger), tenant_id, period, kind), before),
        call_ensures(UsageLedger::total, (&*final(ledger), tenant_id, period, kind), after),
        answer is Ok ==> before + answer->Ok_0.input_tokens + answer->Ok_0.output_tokens
            <= u64::MAX,
    ensures
        answer is Err ==> r is Err && r->Err_0 == answer->Err_0 && final(storage)@ == old(storage)@
            && after == before,
        answer is Ok ==> {
            &&& r is Ok
            &&& r->Ok_0.response == answer->Ok_0
            &&& r->Ok_0.observation.tenant_id == request.tenant_id
            &&& r->Ok_0.observation.name@ == "model.complete"@
            &&& r->Ok_0.observation.trace_id@ == request.model@
            &&& *tenant_id == request.tenant_id && period@ == "current"@ && *kind
                == UsageKind::ModelToken ==> after == before + answer->Ok_0.input_tokens
                + answer->Ok_0.output_tokens
            &&& *tenant_id != request.tenant_id || period@ != "current"@ || *kind
                != UsageKind::ModelToken ==> after == before
            &&& old(storage).queue is Some ==> r->Ok_0.acceptance.status == 202 && final(storage)@.observations == old(storage)@.observations && exists|i: int|
                0 <= i < (final(storage)@.queue->0).len() && (#[trigger] (final(storage)@.queue->0)[i]).observation.id == r->Ok_0.observation.id
            &&& old(storage).queue is None ==> r->Ok_0.acceptance.status == 201
                && r->Ok_0.acceptance.count == 1 && final(storage)@.observations.contains(
                r->Ok_0.observation@,
            )
        },
{
    if answer is Ok {
        let observation = r->Ok_0.observation;
        let view = observation@;
        assert(view.tenant_id == observation.tenant_id && view.name == observation.name@
            && view.trace_id == observation.trace_id@ && view.id == observation.id);
        if old(storage).queue is Some {
            let rows = old(storage).queue->0@;
            durable::one_observation_is_queued_once(rows, view, now_ms);
            let now = final(storage)@.queue->0;
            if exists|i: int| 0 <= i < rows.len() && (#[trigger] rows[i]).observation.id == view.id {
                let i = choose|i: int|
                    0 <= i < rows.len() && (#[trigger] rows[i]).observation.id == view.id;
                assert(now[i].observation.id == view.id);
            } else {
                assert(now[now.len() - 1].observation.id == view.id);
            }
        } else {
            let now = final(storage)@.observations;
            assert(now[now.len() - 1] == view);
        }
    }
}

/// Without a queue a request is stored observation by observation. All of them are stored and
/// counted, with 201; or, where one is not valid, those before the first such one are, and the
/// answer is 500 with what is wrong with it.
pub proof fn a_request_is_stored_up_to_its_first_flaw(
    storage: &mut Storage,
    observations: &[Observation],
    now_ms: i64,
    r: Result<Acceptance, ApiError>,
    i: int,
)
    requires
        call_ensures(Storage::accept_observations, (storage, observations, now_ms), r),
        old(storage).queue is None,
        0 <= i <= observations@.len(),
        forall|k: int| 0 <= k < i ==> (#[trigger] observations@[k])@.flaw() is None,
        i < observations@.len() ==> observations@[i]@.flaw() is Some,
    ensures
        final(storage)@.observations == stored_all(
            old(storage)@.observations,
            observation::observation_views(observations@).take(i),
        ),
        i == observations@.len() ==> r is Ok && r->Ok_0.status == 201 && r->Ok_0.count
            == observations@.len(),
        i < observations@.len() ==> r is Err && r->Err_0.status == 500 && r->Err_0.message@
            == observations@[i]@.flaw()->0.says(),
{
    let views = observation::observation_views(observations@);
    assert forall|k: int| 0 <= k < i implies (#[trigger] views[k]).flaw() is None by {
        assert(views[k] == observations@[k]@);
    }
    durable::the_first_flaw_decides(views, i);
    if i < observations@.len() {
        assert(views[i] == observations@[i]@);
        observations_are_stored_in_order(
            Seq::empty(),
            views,
            Seq::empty(),
            views[i],
            i,
        );
    } else {
        assert(views.take(i) =~= views);
    }
}

/// What is queued is answered with 202 and what is stored with 201, each with its number; and a step
/// of the worker can be counted wherever the claim can.
pub proof fn acceptances_have_their_status(
    inserted: usize,
    queued: Acceptance,
    given: usize,
    stored: Acceptance,
    storage: &Storage,
    now_ms: i64,
    r: bool,
    can: bool,
)
    requires
        call_ensures(Acceptance::queued, (inserted,), queued),
        call_ensures(Acceptance::stored, (given,), stored),
        call_ensures(Storage::is_workable, (storage, now_ms), r),
        storage.queue is Some ==> call_ensures(
            ObservationQueue::can_claim,
            (&storage.queue->0, now_ms),
            can,
        ),
    ensures
        queued.status == 202 && queued.count == inserted,
        stored.status == 201 && stored.count == given,
        storage.queue is None ==> r,
        storage.queue is Some ==> r == can,
{
}

} // verus!
