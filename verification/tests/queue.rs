use observability::durable::{
    ObservationQueue, ObservationQueueStats, QueueDisposition, QueueRow, QueueState,
};
use observability::observation::{
    Observation, ObservationError, ObservationKind, ObservationStatus, TenantId,
};
use observability::ordered::OrderedMap;
use observability::reply;
use observability::storage::Storage;
use observability::table::ObservationTable;
use observability::usage::{read_rows, UsageEntry, UsageKind, UsageLedger, UsageRow};
use observability::worker::{
    epoch_ms, retry_delay_ms, worker_settings, Counters, QueueAction, WorkerSettings,
};
use uuid::Uuid;

fn fresh() -> u128 {
    Uuid::new_v4().as_u128()
}

fn observation(tenant: TenantId, started_at_ms: i64) -> Observation {
    Observation {
        id: fresh(),
        tenant_id: tenant,
        trace_id: "trace".into(),
        span_id: "span".into(),
        kind: ObservationKind::Agent,
        name: "agent.run".into(),
        status: ObservationStatus::Okay,
        started_at_ms,
        duration_ms: 2,
        attributes: OrderedMap::new(),
    }
}

#[test]
fn sqlite_round_trips_observation_and_usage() {
    let mut table = ObservationTable::new();
    let tenant = TenantId(fresh());
    let given = observation(tenant, 1);
    table.append(&given).unwrap();
    assert_eq!(table.list(), vec![given]);
    let entry = UsageEntry {
        tenant_id: tenant,
        period: "2026-08".into(),
        kind: UsageKind::Observation,
        quantity: 4,
    };
    let rows = vec![UsageRow::of_entry(&entry)];
    let ledger = UsageLedger::restore(read_rows(rows).unwrap()).unwrap();
    assert_eq!(ledger.total(&tenant, "2026-08", &UsageKind::Observation), 4);
}

#[test]
fn stored_observations_replace_and_are_sorted() {
    let tenant = TenantId(1);
    let mut table = ObservationTable::new();
    let late = observation(tenant, 9);
    let early = observation(tenant, 3);
    let mut again = observation(tenant, 3);
    table.append(&late).unwrap();
    table.append(&early).unwrap();
    table.append(&again).unwrap();
    assert_eq!(table.list(), vec![early.clone(), again.clone(), late.clone()]);
    table.append(&early).unwrap();
    assert_eq!(table.list(), vec![again.clone(), early.clone(), late.clone()]);
    again.name = " ".into();
    assert_eq!(table.append(&again), Err(ObservationError::EmptyName));
    assert_eq!(table.list().len(), 3);
}

#[test]
fn durable_queue_retries_dead_letters_and_replays() {
    let mut store = ObservationQueue::new();
    let tenant = TenantId(fresh());
    let given = observation(tenant, 1);

    assert_eq!(store.enqueue_batch(&[given.clone()], 100).unwrap(), 1);
    assert_eq!(store.enqueue_batch(&[given.clone()], 100).unwrap(), 0);
    assert_eq!(store.stats(&tenant).pending, 1);

    let first = store.claim_next(100, 200).unwrap();
    assert_eq!(first.attempts, 1);
    assert_eq!(store.fail(first.id, "temporary", 150, 2).unwrap(), QueueDisposition::Pending);
    assert!(store.claim_next(149, 249).is_none());

    let second = store.claim_next(150, 250).unwrap();
    assert_eq!(second.attempts, 2);
    assert_eq!(store.fail(second.id, "permanent", 300, 2).unwrap(), QueueDisposition::DeadLetter);
    assert_eq!(store.stats(&tenant).dead_letter, 1);
    let dead_letters = store.dead_letters(&tenant, 10);
    assert_eq!(dead_letters[0].last_error.as_deref(), Some("permanent"));

    assert!(store.requeue_dead_letter(&tenant, given.id, 400));
    let replay = store.claim_next(400, 500).unwrap();
    assert_eq!(replay.attempts, 1);
    store.complete(replay.id);
    assert_eq!(store.stats(&tenant), ObservationQueueStats::default());
}

#[test]
fn expired_queue_lease_is_recovered() {
    let mut store = ObservationQueue::new();
    let mut given = observation(TenantId(fresh()), 1);
    given.kind = ObservationKind::Http;
    given.name = "http.request".into();
    store.enqueue_batch(&[given], 100).unwrap();
    assert_eq!(store.claim_next(100, 200).unwrap().attempts, 1);
    assert!(store.claim_next(199, 300).is_none());
    assert_eq!(store.claim_next(200, 300).unwrap().attempts, 2);
}

#[test]
fn batches_are_queued_whole_or_not_at_all() {
    let tenant = TenantId(1);
    let mut store = ObservationQueue::new();
    let good = observation(tenant, 1);
    let mut bad = observation(tenant, 2);
    bad.duration_ms = 86_400_001;
    assert_eq!(
        store.enqueue_batch(&[good.clone(), bad], 5),
        Err(ObservationError::DurationTooLarge)
    );
    assert_eq!(store.stats(&tenant), ObservationQueueStats::default());
    assert_eq!(store.enqueue_batch(&[good.clone(), good.clone()], 5), Ok(1));
    assert_eq!(store.rows().len(), 1);
    assert_eq!(store.rows()[0].enqueued_at_ms, 5);
}

#[test]
fn the_earliest_is_claimed_first() {
    let tenant = TenantId(1);
    let mut store = ObservationQueue::new();
    let a = observation(tenant, 1);
    let b = observation(tenant, 2);
    let c = observation(tenant, 3);
    store.enqueue_batch(&[a.clone()], 10).unwrap();
    store.enqueue_batch(&[b.clone(), c.clone()], 5).unwrap();
    assert!(store.claim_next(4, 50).is_none());
    assert_eq!(store.claim_next(10, 50).unwrap().id, b.id);
    assert_eq!(store.claim_next(10, 50).unwrap().id, c.id);
    assert_eq!(store.claim_next(10, 50).unwrap().id, a.id);
    assert!(store.claim_next(10, 50).is_none());
    assert_eq!(store.stats(&tenant).processing, 3);
    store.complete(b.id);
    store.complete(b.id);
    assert_eq!(store.stats(&tenant).processing, 2);
}

#[test]
fn only_what_a_worker_has_can_fail_or_complete() {
    let tenant = TenantId(1);
    let mut store = ObservationQueue::new();
    let a = observation(tenant, 1);
    store.enqueue_batch(&[a.clone()], 10).unwrap();
    let refusal = Err(ObservationError::Storage("queue item is not processing".into()));
    assert_eq!(store.fail(a.id, "x", 20, 3), refusal);
    assert_eq!(store.fail(77, "x", 20, 3), refusal);
    store.complete(a.id);
    assert_eq!(store.stats(&tenant).pending, 1);
    assert!(store.can_claim(10));
    store.claim_next(10, 50).unwrap();
    assert_eq!(store.fail(a.id, "x", 20, 0), Ok(QueueDisposition::DeadLetter));
    assert!(store.claim_next(1_000, 2_000).is_none());
}

#[test]
fn dead_letters_belong_to_tenants() {
    let one = TenantId(1);
    let other = TenantId(2);
    let mut store = ObservationQueue::new();
    let a = observation(one, 1);
    let b = observation(one, 2);
    let c = observation(other, 3);
    store.enqueue_batch(&[a.clone()], 8).unwrap();
    store.enqueue_batch(&[b.clone(), c.clone()], 7).unwrap();
    for _ in 0..3 {
        let item = store.claim_next(100, 200).unwrap();
        store.fail(item.id, "gone", 150, 1).unwrap();
    }
    let listed: Vec<u128> = store.dead_letters(&one, 10).iter().map(|item| item.id).collect();
    assert_eq!(listed, vec![b.id, a.id]);
    assert_eq!(store.dead_letters(&one, 0).len(), 1);
    assert_eq!(store.dead_letters(&one, 1)[0].id, b.id);
    assert_eq!(store.dead_letters(&other, 5_000).len(), 1);
    assert!(!store.requeue_dead_letter(&one, c.id, 9));
    assert!(!store.requeue_dead_letter(&one, 99, 9));
    assert!(store.requeue_dead_letter(&other, c.id, 9));
    assert!(!store.requeue_dead_letter(&other, c.id, 9));
    assert_eq!(store.stats(&other).pending, 1);
    assert_eq!(store.stats(&one).dead_letter, 2);
}

#[test]
fn a_queue_can_be_kept_as_rows() {
    let row = QueueRow {
        observation: observation(TenantId(1), 1),
        state: QueueState::Processing,
        attempts: u32::MAX,
        enqueued_at_ms: 1,
        available_at_ms: 1,
        lease_until_ms: Some(5),
        last_error: None,
    };
    let queue = ObservationQueue::from_rows(vec![row.clone()]).unwrap();
    assert_eq!(queue.rows(), &vec![row.clone()]);
    assert!(queue.can_claim(4));
    assert!(!queue.can_claim(5));
    assert!(ObservationQueue::from_rows(vec![row.clone(), row]).is_none());
}

#[test]
fn retry_backoff_is_bounded() {
    assert_eq!(retry_delay_ms(1), 250);
    assert_eq!(retry_delay_ms(2), 500);
    assert_eq!(retry_delay_ms(20), 60_000);
}

#[test]
fn retry_backoff_doubles() {
    assert_eq!(retry_delay_ms(0), 250);
    assert_eq!(retry_delay_ms(8), 32_000);
    assert_eq!(retry_delay_ms(9), 60_000);
    assert_eq!(retry_delay_ms(u32::MAX), 60_000);
}

#[test]
fn times_are_capped() {
    assert_eq!(epoch_ms(5), 5);
    assert_eq!(epoch_ms(u128::MAX), i64::MAX);
    let settings = WorkerSettings { max_attempts: 1, poll_interval_ms: 10, lease_ms: 1_000 };
    assert_eq!(settings.lease_until(i64::MAX - 1), i64::MAX);
    assert_eq!(settings.lease_until(5), 1_005);
}

#[test]
fn settings_have_defaults_and_limits() {
    let usual = worker_settings(None, None, None);
    assert_eq!(
        usual,
        WorkerSettings { max_attempts: 5, poll_interval_ms: 250, lease_ms: 30_000 }
    );
    let least = worker_settings(Some("0"), Some("1"), Some("-5"));
    assert_eq!(
        least,
        WorkerSettings { max_attempts: 1, poll_interval_ms: 10, lease_ms: 1_000 }
    );
    let odd = worker_settings(Some("4294967296"), Some(" 7"), Some("9223372036854775808"));
    assert_eq!(odd, usual);
    let given = worker_settings(Some("+7"), Some("600"), Some("45000"));
    assert_eq!(
        given,
        WorkerSettings { max_attempts: 7, poll_interval_ms: 600, lease_ms: 45_000 }
    );
}

#[test]
fn queue_worker_persists_and_acknowledges_observation() {
    let tenant = TenantId(fresh());
    let given = observation(tenant, 1);
    let mut queue = ObservationQueue::new();
    queue.enqueue_batch(std::slice::from_ref(&given), 100).unwrap();
    let mut storage = Storage { observations: ObservationTable::new(), queue: Some(queue) };
    let settings = WorkerSettings { max_attempts: 3, poll_interval_ms: 10, lease_ms: 1_000 };
    let mut counters = Counters::default();

    assert!(storage.process_queue_once(&settings, 150, 150, &mut counters).unwrap());
    assert_eq!(storage.observations.list(), vec![given]);
    assert_eq!(
        storage.queue.as_ref().unwrap().stats(&tenant),
        ObservationQueueStats::default()
    );
    assert_eq!(counters.queue_processed, 1);
    assert!(!storage.process_queue_once(&settings, 150, 150, &mut counters).unwrap());
}

#[test]
fn the_worker_retries_and_gives_up() {
    let mut spoiled = observation(TenantId(1), 1);
    spoiled.name = String::new();
    let row = QueueRow {
        observation: spoiled,
        state: QueueState::Pending,
        attempts: 0,
        enqueued_at_ms: 1,
        available_at_ms: 1,
        lease_until_ms: None,
        last_error: None,
    };
    let mut storage = Storage {
        observations: ObservationTable::new(),
        queue: ObservationQueue::from_rows(vec![row]),
    };
    let settings = WorkerSettings { max_attempts: 2, poll_interval_ms: 10, lease_ms: 1_000 };
    let mut counters = Counters::default();
    assert!(storage.is_workable(5));
    assert_eq!(storage.process_queue_once(&settings, 5, 6, &mut counters), Ok(true));
    assert_eq!(counters.queue_retries, 1);
    let rows = storage.queue.as_ref().unwrap().rows();
    assert_eq!(rows[0].available_at_ms, 256);
    assert_eq!(rows[0].last_error.as_deref(), Some("observation name must not be empty"));
    assert_eq!(storage.process_queue_once(&settings, 255, 255, &mut counters), Ok(false));
    assert_eq!(storage.process_queue_once(&settings, 256, 256, &mut counters), Ok(true));
    assert_eq!(counters.queue_dead_letters, 1);
    assert!(storage.observations.list().is_empty());
    let mut direct = Storage { observations: ObservationTable::new(), queue: None };
    assert_eq!(direct.process_queue_once(&settings, 5, 6, &mut counters), Ok(false));
}

#[test]
fn accepted_observations_are_queued_or_stored() {
    let tenant = TenantId(1);
    let a = observation(tenant, 1);
    let b = observation(tenant, 2);
    let mut spoiled = observation(tenant, 3);
    spoiled.name = " ".into();

    let mut direct = Storage { observations: ObservationTable::new(), queue: None };
    let accepted = direct.accept_observations(&[a.clone(), b.clone(), a.clone()], 5).unwrap();
    assert_eq!(accepted.status, reply::CREATED);
    assert_eq!(accepted.count, 3);
    assert_eq!(direct.observations.list(), vec![a.clone(), b.clone()]);
    direct.accept_observations(&[a.clone(), b.clone()], 6).unwrap();
    assert_eq!(direct.observations.list(), vec![a.clone(), b.clone()]);
    let c = observation(tenant, 4);
    let refused = direct.accept_observations(&[c.clone(), spoiled.clone(), b.clone()], 5);
    let error = refused.unwrap_err();
    assert_eq!(error.status, 500);
    assert_eq!(error.message, "observation name must not be empty");
    assert_eq!(direct.observations.list(), vec![a.clone(), b.clone(), c]);

    let mut durable = Storage {
        observations: ObservationTable::new(),
        queue: Some(ObservationQueue::new()),
    };
    let accepted = durable.accept_observations(&[a.clone(), b.clone(), a], 5).unwrap();
    assert_eq!(accepted.status, reply::ACCEPTED);
    assert_eq!(accepted.count, 2);
    assert!(durable.observations.list().is_empty());
    assert_eq!(durable.accept_observations(&[spoiled, b], 6).unwrap_err().status, 500);
    assert_eq!(durable.queue.as_ref().unwrap().rows().len(), 2);
}

#[test]
fn outcomes_decide_the_next_step() {
    let mut queue = ObservationQueue::new();
    let given = observation(TenantId(1), 1);
    queue.enqueue_batch(&[given.clone()], 1).unwrap();
    let item = queue.claim_next(1, 100).unwrap();
    let settings = WorkerSettings { max_attempts: 4, poll_interval_ms: 10, lease_ms: 1_000 };
    assert_eq!(settings.settle(&item, &Ok(()), 7), QueueAction::Complete { id: given.id });
    let failed = Err(ObservationError::Storage("disk full".into()));
    assert_eq!(
        settings.settle(&item, &failed, 7),
        QueueAction::Fail {
            id: given.id,
            error: "observation storage error: disk full".into(),
            retry_at_ms: 257,
            max_attempts: 4,
        }
    );
    let mut counters = Counters::default();
    counters.count_failed(QueueDisposition::Pending);
    counters.count_failed(QueueDisposition::DeadLetter);
    counters.count_model_call();
    counters.count_agent_execution();
    counters.count_ingested(u64::MAX);
    counters.count_ingested(2);
    assert_eq!(counters.queue_retries, 1);
    assert_eq!(counters.queue_dead_letters, 1);
    assert_eq!(counters.model_calls, 1);
    assert_eq!(counters.agent_executions, 1);
    assert_eq!(counters.observations_ingested, 1);
}
