use observability::billing::{quote_monthly_usage, SubscriptionPlan};
use observability::bounded::BoundedObservationQueue;
use observability::investigation::{
    diagnose, execute_safe_tool, plan_agent_request, AgentRequest, FindingSeverity,
    ToolExecutionRequest,
};
use observability::jsonl::{all_or_error, JsonlObservationStore, JsonlUsageStore};
use observability::observation::{
    Observation, ObservationError, ObservationKind, ObservationStatus, TenantId,
};
use observability::ordered::OrderedMap;
use observability::usage::{read_rows, UsageEntry, UsageKind, UsageLedger, UsageRow};
use uuid::Uuid;

fn fresh() -> u128 {
    Uuid::new_v4().as_u128()
}

fn sample() -> Observation {
    Observation {
        id: fresh(),
        tenant_id: TenantId(fresh()),
        trace_id: "t".into(),
        span_id: "s".into(),
        kind: ObservationKind::Agent,
        name: "agent.run".into(),
        status: ObservationStatus::Okay,
        started_at_ms: 0,
        duration_ms: 10,
        attributes: OrderedMap::new(),
    }
}

fn entry(tenant: TenantId, period: &str, kind: UsageKind, quantity: u64) -> UsageEntry {
    UsageEntry { tenant_id: tenant, period: period.into(), kind, quantity }
}

#[test]
fn valid_observation_passes() {
    assert!(sample().validate().is_ok());
}

#[test]
fn empty_name_is_rejected() {
    let mut o = sample();
    o.name = " ".into();
    assert_eq!(o.validate(), Err(ObservationError::EmptyName));
}

#[test]
fn durations_are_limited_to_a_day() {
    let mut o = sample();
    o.duration_ms = 86_400_000;
    assert_eq!(o.validate(), Ok(()));
    o.duration_ms = 86_400_001;
    assert_eq!(o.validate(), Err(ObservationError::DurationTooLarge));
    o.name = "\u{3000}\t".into();
    assert_eq!(o.validate(), Err(ObservationError::EmptyName));
}

#[test]
fn errors_have_messages() {
    assert_eq!(ObservationError::EmptyName.message(), "observation name must not be empty");
    assert_eq!(
        ObservationError::DurationTooLarge.message(),
        "duration must be within the ingestion limit"
    );
    assert_eq!(
        ObservationError::Storage("disk full".into()).message(),
        "observation storage error: disk full"
    );
}

#[test]
fn diagnosis_is_tenant_scoped() {
    let o = sample();
    let other = TenantId(fresh());
    assert!(diagnose(&other, &[o]).is_empty());
}

#[test]
fn diagnosis_names_the_failures() {
    let mut failed = sample();
    failed.status = ObservationStatus::Error;
    let mut fine = sample();
    fine.tenant_id = failed.tenant_id;
    let mut foreign = sample();
    foreign.status = ObservationStatus::Error;
    let tenant = failed.tenant_id;
    let id = failed.id;
    let findings = diagnose(&tenant, &[fine, failed, foreign]);
    assert_eq!(findings.len(), 1);
    assert_eq!(findings[0].tenant_id, tenant);
    assert_eq!(findings[0].severity, FindingSeverity::Warning);
    assert_eq!(findings[0].title, "发现 1 个失败观测");
    assert_eq!(findings[0].evidence_ids, vec![id]);
}

#[test]
fn usage_ledger_accumulates_by_tenant_period_and_kind() {
    let tenant = TenantId(fresh());
    let mut ledger = UsageLedger::default();
    ledger.record(entry(tenant, "2026-08", UsageKind::Observation, 2));
    ledger.record(entry(tenant, "2026-08", UsageKind::Observation, 3));
    assert_eq!(ledger.total(&tenant, "2026-08", &UsageKind::Observation), 5);
    assert_eq!(ledger.snapshot(&tenant, "2026-09").len(), 0);
}

#[test]
fn snapshots_list_the_kinds_in_order() {
    let tenant = TenantId(7);
    let other = TenantId(8);
    let mut ledger = UsageLedger::default();
    ledger.record(entry(tenant, "2026-08", UsageKind::ModelToken, 4));
    ledger.record(entry(tenant, "2026-08", UsageKind::Observation, 1));
    ledger.record(entry(tenant, "2026-08", UsageKind::ToolCall, 0));
    ledger.record(entry(other, "2026-08", UsageKind::AgentRun, 9));
    ledger.record(entry(tenant, "2026-07", UsageKind::AgentRun, 9));
    assert_eq!(
        ledger.snapshot(&tenant, "2026-08"),
        vec![
            entry(tenant, "2026-08", UsageKind::Observation, 1),
            entry(tenant, "2026-08", UsageKind::ToolCall, 0),
            entry(tenant, "2026-08", UsageKind::ModelToken, 4),
        ]
    );
    assert_eq!(ledger.clone(), ledger);
}

#[test]
fn sums_that_run_over_are_noticed() {
    let tenant = TenantId(7);
    let mut ledger = UsageLedger::default();
    ledger.record(entry(tenant, "p", UsageKind::ToolCall, u64::MAX));
    assert!(!ledger.can_record(&entry(tenant, "p", UsageKind::ToolCall, 1)));
    assert!(ledger.can_record(&entry(tenant, "p", UsageKind::ToolCall, 0)));
    assert!(ledger.can_record(&entry(tenant, "q", UsageKind::ToolCall, 1)));
    let stored = vec![
        entry(tenant, "p", UsageKind::ToolCall, u64::MAX),
        entry(tenant, "p", UsageKind::ToolCall, 1),
    ];
    assert!(UsageLedger::restore(stored).is_none());
}

#[test]
fn recording_in_any_order_gives_one_ledger() {
    let tenant = TenantId(7);
    let a = entry(tenant, "p", UsageKind::ToolCall, 3);
    let b = entry(tenant, "q", UsageKind::AgentRun, 4);
    let mut one = UsageLedger::default();
    one.record(a.clone());
    one.record(b.clone());
    let mut other = UsageLedger::default();
    other.record(b.clone());
    other.record(a.clone());
    assert_eq!(one, other);
    assert_eq!(UsageLedger::restore(vec![a, b]), Some(one));
}

#[test]
fn usage_rows_round_trip_and_explain_errors() {
    let tenant = TenantId(0x72a1b31d_1ea6_43b5_98ec_111cd8c25642);
    let given = entry(tenant, "2026-08", UsageKind::AgentRun, 4);
    let row = UsageRow::of_entry(&given);
    assert_eq!(row.tenant_id, "72a1b31d-1ea6-43b5-98ec-111cd8c25642");
    assert_eq!(row.kind, "AgentRun");
    assert_eq!(read_rows(vec![row.clone(), row.clone()]), Ok(vec![given.clone(), given]));
    let mut nameless = row.clone();
    nameless.tenant_id = "x".into();
    let message = Uuid::parse_str("x").unwrap_err().to_string();
    assert_eq!(nameless.into_entry(), Err(ObservationError::Storage(message)));
    let mut kindless = row;
    kindless.kind = "Storage".into();
    match kindless.into_entry() {
        Err(ObservationError::Storage(message)) => {
            assert_eq!(
                message,
                "unknown variant `Storage`, expected one of `Observation`, `AgentRun`, `ToolCall`, `ModelToken`"
            );
        }
        other => panic!("{other:?}"),
    }
}

fn to_record(item: &Observation) -> String {
    let mut attributes = serde_json::Map::new();
    for i in 0..item.attributes.len() {
        let (key, value) = item.attributes.entry(i);
        attributes.insert(key.clone(), value.clone().into());
    }
    let mut record = serde_json::Map::new();
    record.insert("id".into(), Uuid::from_u128(item.id).to_string().into());
    record.insert("tenant_id".into(), Uuid::from_u128(item.tenant_id.0).to_string().into());
    record.insert("trace_id".into(), item.trace_id.clone().into());
    record.insert("span_id".into(), item.span_id.clone().into());
    record.insert("kind".into(), format!("{:?}", item.kind).into());
    record.insert("name".into(), item.name.clone().into());
    record.insert("status".into(), format!("{:?}", item.status).into());
    record.insert("started_at_ms".into(), item.started_at_ms.into());
    record.insert("duration_ms".into(), item.duration_ms.into());
    record.insert("attributes".into(), serde_json::Value::Object(attributes));
    serde_json::Value::Object(record).to_string()
}

fn from_record(line: &str) -> Result<Observation, String> {
    let record: serde_json::Value =
        serde_json::from_str(line).map_err(|error| error.to_string())?;
    let text = |key: &str| record[key].as_str().map(str::to_owned).ok_or(key.to_owned());
    let mut attributes = OrderedMap::new();
    for (key, value) in record["attributes"].as_object().ok_or("attributes")? {
        attributes.insert(key.clone(), value.as_str().ok_or("attribute")?.to_owned());
    }
    Ok(Observation {
        id: Uuid::parse_str(&text("id")?).map_err(|error| error.to_string())?.as_u128(),
        tenant_id: TenantId(
            Uuid::parse_str(&text("tenant_id")?).map_err(|error| error.to_string())?.as_u128(),
        ),
        trace_id: text("trace_id")?,
        span_id: text("span_id")?,
        kind: ObservationKind::Agent,
        name: text("name")?,
        status: if text("status")? == "Okay" {
            ObservationStatus::Okay
        } else {
            ObservationStatus::Error
        },
        started_at_ms: record["started_at_ms"].as_i64().ok_or("started_at_ms")?,
        duration_ms: record["duration_ms"].as_u64().ok_or("duration_ms")?,
        attributes,
    })
}

fn read_file(
    store: &JsonlObservationStore,
    content: Option<&str>,
) -> Result<Vec<Observation>, ObservationError> {
    all_or_error(store.list(content).iter().map(|line| from_record(line)).collect())
}

#[test]
fn jsonl_store_round_trips_observations() {
    let path = format!("observability-{}.jsonl", Uuid::new_v4());
    let store = JsonlObservationStore::new(&path);
    assert_eq!(store.path(), path);
    let observation = sample();
    let line = store.append(&observation, &to_record(&observation)).unwrap();
    assert_eq!(read_file(&store, Some(&line)).unwrap(), vec![observation]);
}

#[test]
fn files_hold_the_valid_observations_in_order() {
    let store = JsonlObservationStore::new("x");
    let mut first = sample();
    first.attributes.insert("note".into(), "two\nlines\r".into());
    let mut second = sample();
    second.status = ObservationStatus::Error;
    let mut nameless = sample();
    nameless.name = String::new();
    let mut file = String::new();
    for item in [&first, &nameless, &second, &first] {
        match store.append(item, &to_record(item)) {
            Ok(line) => file.push_str(&line),
            Err(error) => assert_eq!(error, ObservationError::EmptyName),
        }
    }
    assert_eq!(read_file(&store, Some(&file)), Ok(vec![first.clone(), second, first]));
    assert_eq!(read_file(&store, None), Ok(Vec::new()));
    file.push_str("{\n");
    assert!(matches!(read_file(&store, Some(&file)), Err(ObservationError::Storage(_))));
}

#[test]
fn lines_end_at_line_breaks() {
    let store = JsonlObservationStore::new("x");
    assert!(store.list(Some("")).is_empty());
    assert_eq!(store.list(Some("a\r\nb\n\nc")), vec!["a", "b", "", "c"]);
    assert_eq!(store.list(Some("a\n")), vec!["a"]);
    assert_eq!(store.list(Some("a\r")), vec!["a\r"]);
    assert_eq!(store.list(Some("\n")), vec![""]);
}

#[test]
fn agent_plan_only_uses_requested_tenant_evidence() {
    let observation = sample();
    let request = AgentRequest {
        tenant_id: observation.tenant_id,
        objective: "解释执行失败".into(),
        observation_ids: vec![observation.id],
    };
    let decision = plan_agent_request(&request, &[observation.clone()]);
    assert_eq!(decision.evidence_ids, vec![observation.id]);
    assert_eq!(decision.actions[0].tool_name, "summarize_trace");
}

#[test]
fn plans_leave_out_foreign_and_unnamed_observations() {
    let mut failed = sample();
    failed.status = ObservationStatus::Error;
    let mut unnamed = sample();
    unnamed.tenant_id = failed.tenant_id;
    unnamed.status = ObservationStatus::Error;
    let foreign = sample();
    let request = AgentRequest {
        tenant_id: failed.tenant_id,
        objective: "why".into(),
        observation_ids: vec![foreign.id, failed.id],
    };
    let decision = plan_agent_request(&request, &[foreign, unnamed, failed.clone()]);
    assert_eq!(decision.tenant_id, failed.tenant_id);
    assert_eq!(decision.evidence_ids, vec![failed.id]);
    assert_eq!(decision.summary, "已根据目标“why”分析 1 条观测");
    assert_eq!(decision.actions.len(), 1);
    assert_eq!(decision.actions[0].tool_name, "inspect_failure_context");
    assert_eq!(decision.actions[0].reason, "基于 1 个失败观测检查上下文");
    assert!(!decision.actions[0].requires_approval);
}

#[test]
fn unsafe_or_unapproved_tool_is_not_executed() {
    let tenant = TenantId(fresh());
    let request = ToolExecutionRequest {
        tenant_id: tenant,
        tool_name: "shell.exec".into(),
        evidence_ids: Vec::new(),
        approved: true,
    };
    assert_eq!(execute_safe_tool(&request, &[]).status, "rejected");
}

#[test]
fn tools_wait_for_approval() {
    let observation = sample();
    let mut request = ToolExecutionRequest {
        tenant_id: observation.tenant_id,
        tool_name: "summarize_trace".into(),
        evidence_ids: vec![observation.id, 5],
        approved: false,
    };
    let waiting = execute_safe_tool(&request, &[observation.clone()]);
    assert_eq!(waiting.status, "approval_required");
    assert_eq!(waiting.output, "execution requires explicit approval");
    assert!(waiting.evidence_ids.is_empty());
    request.approved = true;
    let done = execute_safe_tool(&request, &[observation.clone(), sample()]);
    assert_eq!(done.status, "completed");
    assert_eq!(done.output, "summarize_trace 已基于 1 条租户范围证据完成");
    assert_eq!(done.evidence_ids, vec![observation.id, 5]);
}

#[test]
fn monthly_quote_uses_integer_cents_and_overage() {
    let tenant = TenantId(fresh());
    let mut ledger = UsageLedger::default();
    ledger.record(entry(tenant, "2026-08", UsageKind::Observation, 101_001));
    let quote = quote_monthly_usage(&ledger, &tenant, "2026-08", SubscriptionPlan::Starter);
    assert_eq!(quote.base_price_cents, 1_900);
    assert_eq!(quote.overage_cents, 6);
    assert_eq!(quote.total_cents, 1_906);
}

#[test]
fn quotes_of_the_larger_plans() {
    let tenant = TenantId(7);
    let mut ledger = UsageLedger::default();
    ledger.record(entry(tenant, "2026-08", UsageKind::Observation, 10_000_001));
    let growth = quote_monthly_usage(&ledger, &tenant, "2026-08", SubscriptionPlan::Growth);
    assert_eq!(growth.included_observations, 1_000_000);
    assert_eq!(growth.used_observations, 10_000_001);
    assert_eq!(growth.overage_cents, 18_002);
    assert_eq!(growth.total_cents, 27_902);
    let scale = quote_monthly_usage(&ledger, &tenant, "2026-08", SubscriptionPlan::Scale);
    assert_eq!(scale.total_cents, 49_901);
    let unused = quote_monthly_usage(&ledger, &tenant, "2026-09", SubscriptionPlan::Scale);
    assert_eq!(unused.total_cents, 49_900);
    assert_eq!(unused.period, "2026-09");
}

fn to_usage_record(item: &UsageEntry) -> String {
    let mut record = serde_json::Map::new();
    record.insert("tenant_id".into(), Uuid::from_u128(item.tenant_id.0).to_string().into());
    record.insert("period".into(), item.period.clone().into());
    record.insert("kind".into(), item.kind.name().into());
    record.insert("quantity".into(), item.quantity.into());
    serde_json::Value::Object(record).to_string()
}

fn from_usage_record(line: &str) -> Result<UsageEntry, String> {
    let record: serde_json::Value =
        serde_json::from_str(line).map_err(|error| error.to_string())?;
    let text = |key: &str| record[key].as_str().ok_or(key.to_owned());
    let tenant = Uuid::parse_str(text("tenant_id")?).map_err(|error| error.to_string())?;
    Ok(UsageEntry {
        tenant_id: TenantId(tenant.as_u128()),
        period: text("period")?.to_owned(),
        kind: UsageKind::from_name(text("kind")?).ok_or("kind")?,
        quantity: record["quantity"].as_u64().ok_or("quantity")?,
    })
}

#[test]
fn jsonl_usage_store_restores_accumulated_ledger() {
    let path = format!("usage-{}.jsonl", Uuid::new_v4());
    let store = JsonlUsageStore::new(&path);
    assert_eq!(store.path(), path);
    let tenant = TenantId(fresh());
    let given = entry(tenant, "2026-08", UsageKind::AgentRun, 4);
    let mut file = store.append(&to_usage_record(&given));
    file.push_str(&store.append(&to_usage_record(&given)));
    let lines = store.load(Some(&file));
    let entries = all_or_error(lines.iter().map(|line| from_usage_record(line)).collect());
    let ledger = UsageLedger::restore(entries.unwrap()).unwrap();
    assert_eq!(ledger.total(&tenant, "2026-08", &UsageKind::AgentRun), 8);
    assert!(store.load(None).is_empty());
}

#[test]
fn bounded_queue_rejects_when_full_and_preserves_order() {
    let mut queue = BoundedObservationQueue::new(1);
    let first = sample();
    let second = sample();
    queue.try_push(first.clone()).unwrap();
    assert!(queue.try_push(second).is_err());
    assert_eq!(queue.len(), 1);
    assert_eq!(queue.pop(), Some(first));
    assert!(queue.is_empty());
}

#[test]
fn bounded_queue_is_first_in_first_out() {
    let mut queue = BoundedObservationQueue::new(2);
    assert_eq!(queue.capacity(), 2);
    let first = sample();
    let second = sample();
    queue.try_push(first.clone()).unwrap();
    queue.try_push(second.clone()).unwrap();
    let third = sample();
    assert_eq!(queue.try_push(third.clone()), Err(third));
    let mut copy = queue.clone();
    assert_eq!(copy.pop(), Some(first));
    assert_eq!(copy.pop(), Some(second));
    assert_eq!(copy.pop(), None);
    assert_eq!(queue.len(), 2);
}

#[test]
fn usage_kinds_have_names() {
    let kinds = [
        UsageKind::Observation,
        UsageKind::AgentRun,
        UsageKind::ToolCall,
        UsageKind::ModelToken,
    ];
    for kind in kinds {
        assert_eq!(UsageKind::from_name(kind.name()), Some(kind));
    }
    assert_eq!(UsageKind::from_name("observation"), None);
}
