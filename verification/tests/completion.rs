use observability::completion::{
    begin_call, call_record, complete_call, local_answer, remote_answer, FirstStep,
};
use observability::durable::{
    ObservationQueue, ObservationQueueItem, ObservationQueueStats, QueueDisposition,
};
use observability::observation::{
    Observation, ObservationError, ObservationKind, ObservationStatus, TenantId,
};
use observability::ordered::OrderedMap;
use observability::provider::{completion_request, ModelRequest, ModelResponse};
use observability::reply::ApiError;
use observability::repository::{
    ObservationQueueRepository, ObservationRepository, UsageRepository,
};
use observability::runtime::{
    accept_observations, claim_and_store, record_call, record_usage, settle_claimed,
};
use observability::storage::Storage;
use observability::table::ObservationTable;
use observability::usage::{UsageEntry, UsageKind, UsageLedger};
use observability::worker::{Counters, WorkerSettings};
use serde_json::Value;
use std::sync::Mutex;
use uuid::Uuid;

fn request(prompt: &str) -> ModelRequest {
    ModelRequest {
        tenant_id: TenantId(7),
        model: "m".into(),
        prompt: prompt.into(),
        evidence_ids: vec![1, 2],
    }
}

fn response() -> ModelResponse {
    ModelResponse { model: "m".into(), text: "t".into(), input_tokens: 10, output_tokens: 5 }
}

fn object(entries: Vec<(&str, Value)>) -> Value {
    let mut map = serde_json::Map::new();
    for (key, value) in entries {
        map.insert(key.into(), value);
    }
    Value::Object(map)
}

/// A store in memory that fails where it is told to.
struct Memory {
    observations: Mutex<ObservationTable>,
    queue: Mutex<ObservationQueue>,
    entries: Mutex<Vec<UsageEntry>>,
    broken: bool,
}

impl Memory {
    fn new(broken: bool) -> Self {
        Self {
            observations: Mutex::new(ObservationTable::new()),
            queue: Mutex::new(ObservationQueue::new()),
            entries: Mutex::new(Vec::new()),
            broken,
        }
    }

    fn check(&self) -> Result<(), ObservationError> {
        if self.broken {
            Err(ObservationError::Storage("disk full".into()))
        } else {
            Ok(())
        }
    }
}

impl ObservationRepository for Memory {
    fn append(&self, observation: &Observation) -> Result<(), ObservationError> {
        self.check()?;
        self.observations.lock().unwrap().append(observation)
    }

    fn list(&self) -> Result<Vec<Observation>, ObservationError> {
        self.check()?;
        Ok(self.observations.lock().unwrap().list())
    }
}

impl UsageRepository for Memory {
    fn append(&self, entry: &UsageEntry) -> Result<(), ObservationError> {
        self.check()?;
        self.entries.lock().unwrap().push(entry.clone());
        Ok(())
    }

    fn load(&self) -> Result<UsageLedger, ObservationError> {
        self.check()?;
        Ok(UsageLedger::restore(self.entries.lock().unwrap().clone()).unwrap())
    }
}

impl ObservationQueueRepository for Memory {
    fn enqueue_batch(
        &self,
        observations: &[Observation],
        now_ms: i64,
    ) -> Result<usize, ObservationError> {
        self.check()?;
        self.queue.lock().unwrap().enqueue_batch(observations, now_ms)
    }

    fn claim_next(
        &self,
        now_ms: i64,
        lease_until_ms: i64,
    ) -> Result<Option<ObservationQueueItem>, ObservationError> {
        self.check()?;
        Ok(self.queue.lock().unwrap().claim_next(now_ms, lease_until_ms))
    }

    fn complete(&self, id: u128) -> Result<(), ObservationError> {
        self.check()?;
        self.queue.lock().unwrap().complete(id);
        Ok(())
    }

    fn fail(
        &self,
        id: u128,
        error: &str,
        retry_at_ms: i64,
        max_attempts: u32,
    ) -> Result<QueueDisposition, ObservationError> {
        self.check()?;
        self.queue.lock().unwrap().fail(id, error, retry_at_ms, max_attempts)
    }

    fn stats(&self, tenant_id: &TenantId) -> Result<ObservationQueueStats, ObservationError> {
        self.check()?;
        Ok(self.queue.lock().unwrap().stats(tenant_id))
    }

    fn dead_letters(
        &self,
        tenant_id: &TenantId,
        limit: usize,
    ) -> Result<Vec<ObservationQueueItem>, ObservationError> {
        self.check()?;
        Ok(self.queue.lock().unwrap().dead_letters(tenant_id, limit))
    }

    fn requeue_dead_letter(
        &self,
        tenant_id: &TenantId,
        id: u128,
        now_ms: i64,
    ) -> Result<bool, ObservationError> {
        self.check()?;
        Ok(self.queue.lock().unwrap().requeue_dead_letter(tenant_id, id, now_ms))
    }
}

fn observation(id: u128) -> Observation {
    Observation {
        id,
        tenant_id: TenantId(7),
        trace_id: "t".into(),
        span_id: "s".into(),
        kind: ObservationKind::Agent,
        name: "agent.run".into(),
        status: ObservationStatus::Okay,
        started_at_ms: 0,
        duration_ms: 1,
        attributes: OrderedMap::new(),
    }
}

#[test]
fn answers_without_a_model() {
    let answer = local_answer(&request("why")).unwrap();
    assert_eq!(answer.text, "基于 2 条证据生成确定性摘要：why");
    assert_eq!(
        local_answer(&request(" ")),
        Err(ApiError::new(400, "prompt must not be empty"))
    );
}

#[test]
fn replies_of_a_provider() {
    let message = object(vec![("content", "found".into())]);
    let body = object(vec![
        ("choices", Value::Array(vec![object(vec![("message", message)])])),
        ("usage", object(vec![("prompt_tokens", 12.into()), ("completion_tokens", 7.into())])),
    ]);
    let answer = remote_answer(&request("why"), Ok(body)).unwrap();
    assert_eq!(
        answer,
        ModelResponse {
            model: "m".into(),
            text: "found".into(),
            input_tokens: 12,
            output_tokens: 7,
        }
    );
    assert_eq!(
        remote_answer(&request("why"), Ok(Value::Null)),
        Err(ApiError::new(502, "provider response missing choices[0].message.content"))
    );
    assert_eq!(
        remote_answer(&request("why"), Err("connection refused".into())),
        Err(ApiError::new(502, "connection refused"))
    );
}

#[test]
fn a_completed_call_leaves_one_observation_and_one_entry() {
    let (seen, entry) = call_record(&request("why"), &response());
    assert_eq!(seen.tenant_id, TenantId(7));
    assert_eq!(seen.kind, ObservationKind::Model);
    assert_eq!(seen.trace_id, "m");
    assert_eq!(seen.started_at_ms, 0);
    assert_eq!(seen.duration_ms, 0);
    assert_eq!(seen.validate(), Ok(()));
    let expected = UsageEntry {
        tenant_id: TenantId(7),
        period: "current".into(),
        kind: UsageKind::ModelToken,
        quantity: 15,
    };
    assert_eq!(entry, expected);
    let call = complete_call(&request("why"), Ok(response())).unwrap();
    assert_eq!(call.response, response());
    assert_eq!(call.usage, expected);
    let refused = ApiError::new(502, "x");
    assert_eq!(complete_call(&request("why"), Err(refused.clone())), Err(refused));
}

#[test]
fn recorded_calls_have_random_ids() {
    let (seen, _) = call_record(&request("why"), &response());
    let mut ledger = UsageLedger::default();
    let mut direct = Storage { observations: ObservationTable::new(), queue: None };
    let call = direct.record_call(&mut ledger, &request("why"), Ok(response()), 5).unwrap();
    for observation in [seen, call.observation] {
        assert_eq!(Uuid::from_u128(observation.id).get_version_num(), 4);
        let span = Uuid::parse_str(&observation.span_id).unwrap();
        assert_eq!(span.get_version_num(), 4);
        assert_eq!(span.to_string(), observation.span_id);
    }
}

#[test]
fn calls_are_recorded_or_leave_nothing() {
    let mut ledger = UsageLedger::default();
    let mut durable = Storage {
        observations: ObservationTable::new(),
        queue: Some(ObservationQueue::new()),
    };
    let refused = ApiError::new(400, "prompt must not be empty");
    assert_eq!(
        durable.record_call(&mut ledger, &request(" "), local_answer(&request(" ")), 5),
        Err(refused)
    );
    assert_eq!(ledger, UsageLedger::default());
    assert!(durable.queue.as_ref().unwrap().rows().is_empty());
    let call = durable.record_call(&mut ledger, &request("why"), Ok(response()), 5).unwrap();
    assert_eq!(call.acceptance.status, 202);
    assert_eq!(call.acceptance.count, 1);
    assert_eq!(durable.queue.as_ref().unwrap().rows()[0].observation, call.observation);
    assert_eq!(ledger.total(&TenantId(7), "current", &UsageKind::ModelToken), 15);

    let mut direct = Storage { observations: ObservationTable::new(), queue: None };
    let call = direct.record_call(&mut ledger, &request("why"), Ok(response()), 5).unwrap();
    assert_eq!(call.acceptance.status, 201);
    assert_eq!(direct.observations.list(), vec![call.observation]);
    assert_eq!(ledger.total(&TenantId(7), "current", &UsageKind::ModelToken), 30);
}

#[test]
fn calls_are_recorded_in_any_store() {
    let store = Memory::new(false);
    let mut ledger = UsageLedger::default();
    let none: Option<&Memory> = None;
    let refused = ApiError::new(502, "x");
    assert_eq!(
        record_call(&store, none, &store, &mut ledger, &request("p"), Err(refused.clone()), 1),
        Err(refused)
    );
    assert!(ObservationRepository::list(&store).unwrap().is_empty());
    let call =
        record_call(&store, none, &store, &mut ledger, &request("p"), Ok(response()), 1).unwrap();
    assert_eq!(call.acceptance.status, 201);
    assert_eq!(ObservationRepository::list(&store).unwrap(), vec![call.observation]);
    assert_eq!(store.load().unwrap(), ledger);
    let queued =
        record_call(&store, Some(&store), &store, &mut ledger, &request("p"), Ok(response()), 1)
            .unwrap();
    assert_eq!(queued.acceptance.status, 202);
    assert_eq!(store.stats(&TenantId(7)).unwrap().pending, 1);

    let broken = Memory::new(true);
    let before = ledger.clone();
    let failed =
        record_call(&store, none, &broken, &mut ledger, &request("p"), Ok(response()), 1);
    let expected = ApiError::new(500, "observation storage error: disk full");
    assert_eq!(failed, Err(expected.clone()));
    let failed =
        record_call(&broken, none, &store, &mut ledger, &request("p"), Ok(response()), 1);
    assert_eq!(failed, Err(expected.clone()));
    assert_eq!(ledger, before);
    let entry = UsageEntry {
        tenant_id: TenantId(7),
        period: "p".into(),
        kind: UsageKind::ToolCall,
        quantity: 2,
    };
    assert_eq!(record_usage(&broken, &mut ledger, entry.clone()), Err(expected));
    assert_eq!(record_usage(&store, &mut ledger, entry), Ok(()));
    assert_eq!(ledger.total(&TenantId(7), "p", &UsageKind::ToolCall), 2);
}

#[test]
fn observations_are_accepted_by_any_store() {
    let store = Memory::new(false);
    let none: Option<&Memory> = None;
    let accepted =
        accept_observations(&store, none, &[observation(1), observation(2)], 5).unwrap();
    assert_eq!((accepted.status, accepted.count), (201, 2));
    let queued =
        accept_observations(&store, Some(&store), &[observation(1), observation(1)], 5).unwrap();
    assert_eq!((queued.status, queued.count), (202, 1));
    let broken = Memory::new(true);
    let expected = ApiError::new(500, "observation storage error: disk full");
    assert_eq!(
        accept_observations(&broken, none, &[observation(1)], 5),
        Err(expected.clone())
    );
    assert_eq!(
        accept_observations(&store, Some(&broken), &[observation(1)], 5),
        Err(expected)
    );
    let mut spoiled = observation(4);
    spoiled.name = String::new();
    let refused = accept_observations(&store, none, &[observation(3), spoiled], 5);
    assert_eq!(refused, Err(ApiError::new(500, "observation name must not be empty")));
    assert_eq!(ObservationRepository::list(&store).unwrap().len(), 3);
}

#[test]
fn the_worker_serves_any_store() {
    let settings = WorkerSettings { max_attempts: 2, poll_interval_ms: 10, lease_ms: 1_000 };
    let store = Memory::new(false);
    let broken = Memory::new(true);
    let mut counters = Counters::default();
    assert_eq!(claim_and_store(&store, &store, &settings, 5), Ok(None));
    assert!(claim_and_store(&store, &broken, &settings, 5).is_err());
    store.enqueue_batch(&[observation(1), observation(2)], 5).unwrap();
    let claimed = claim_and_store(&store, &store, &settings, 5).unwrap().unwrap();
    assert_eq!(claimed.item.id, 1);
    assert_eq!(claimed.stored, Ok(()));
    assert!(settle_claimed(&broken, &settings, &claimed, 6, &mut counters).is_err());
    assert_eq!(counters, Counters::default());
    assert_eq!(settle_claimed(&store, &settings, &claimed, 6, &mut counters), Ok(()));
    assert_eq!(counters.queue_processed, 1);
    let failed = claim_and_store(&broken, &store, &settings, 5).unwrap().unwrap();
    assert_eq!(failed.item.id, 2);
    assert!(failed.stored.is_err());
    assert_eq!(settle_claimed(&store, &settings, &failed, 6, &mut counters), Ok(()));
    assert_eq!(counters.queue_retries, 1);
    assert_eq!(store.queue.lock().unwrap().rows()[0].available_at_ms, 256);
    let failed = claim_and_store(&broken, &store, &settings, 256).unwrap().unwrap();
    assert_eq!(settle_claimed(&store, &settings, &failed, 300, &mut counters), Ok(()));
    assert_eq!(counters.queue_dead_letters, 1);
    assert_eq!(store.stats(&TenantId(7)).unwrap().dead_letter, 1);
}

#[test]
fn calls_begin_as_configured() {
    let given = request("why");
    assert_eq!(
        begin_call(&given, Some("https://p"), Some("k")),
        FirstStep::Send {
            endpoint: "https://p".into(),
            key: "k".into(),
            body: completion_request(&given),
        }
    );
    assert_eq!(
        begin_call(&given, Some("https://p"), None),
        FirstStep::Refuse(ApiError::new(
            500,
            "MODEL_API_KEY is required when MODEL_PROVIDER_URL is configured"
        ))
    );
    assert_eq!(
        begin_call(&given, None, None),
        FirstStep::Answer(local_answer(&given).unwrap())
    );
    assert_eq!(
        begin_call(&request("\t"), None, Some("k")),
        FirstStep::Refuse(ApiError::new(400, "prompt must not be empty"))
    );
}
