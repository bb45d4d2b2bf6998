use observability::access::{
    api_key_guard, cors_origins, cors_policy, enforce_tenant, enforce_tenant_for,
    read_key_entries, AuthorizedTenant, CorsPolicy, KeyEntry, TenantRule,
};
use observability::cli::{read_arguments, value_after};
use observability::identity::{read_id, write_id};
use observability::metrics::metrics;
use observability::observation::{
    Observation, ObservationKind, ObservationStatus, TenantId,
};
use observability::ordered::OrderedMap;
use observability::otlp::OtlpEncoding;
use observability::provider::{
    completion_request, model_observation, model_observation_with, parse_model_response,
    token_usage, DeterministicModelProvider, ModelProvider, ModelRequest, ModelResponse,
};
use observability::query::{filter_observations, TenantQuery};
use observability::reply;
use observability::service::{
    admit_batch, admit_observation, admit_queue_request, admit_trace, check_objective, check_provider_status,
    choose_provider, map_traces, queue_is_disabled, receive_traces, replay_reply, rpc_code, storage_plan,
    trace_tenant, ProviderChoice, StoragePlan, BATCH_SLOTS, MAX_BATCH_SIZE,
};
use observability::trace::{ResourceTrace, ScopeTrace, TraceRequest, TraceSpan};
use observability::usage::UsageKind;
use observability::worker::Counters;
use serde_json::Value;
use uuid::Uuid;

fn fresh() -> u128 {
    Uuid::new_v4().as_u128()
}

fn observation(tenant_id: u128, started_at_ms: i64, status: ObservationStatus) -> Observation {
    Observation {
        id: fresh(),
        tenant_id: TenantId(tenant_id),
        trace_id: "trace".into(),
        span_id: started_at_ms.to_string(),
        kind: ObservationKind::Agent,
        name: "agent.run".into(),
        status,
        started_at_ms,
        duration_ms: 1,
        attributes: OrderedMap::new(),
    }
}

fn object(entries: Vec<(&str, Value)>) -> Value {
    let mut map = serde_json::Map::new();
    for (key, value) in entries {
        map.insert(key.into(), value);
    }
    Value::Object(map)
}

#[test]
fn filtering_is_tenant_scoped_and_paginated() {
    let tenant = fresh();
    let query = TenantQuery {
        tenant_id: tenant,
        name: Some("agent.run".into()),
        status: Some("error".into()),
        page: Some(1),
        page_size: Some(1),
    };
    let items = vec![
        observation(tenant, 2, ObservationStatus::Error),
        observation(tenant, 1, ObservationStatus::Error),
        observation(fresh(), 0, ObservationStatus::Error),
        observation(tenant, 3, ObservationStatus::Okay),
    ];
    let result = filter_observations(items, &query);
    assert_eq!(result.len(), 1);
    assert_eq!(result[0].started_at_ms, 1);
}

#[test]
fn pages_follow_each_other() {
    let tenant = 5;
    let items: Vec<Observation> =
        (0..5).map(|i| observation(tenant, 10 - i, ObservationStatus::Okay)).collect();
    let ask = |page: Option<usize>, page_size: Option<usize>| {
        let query = TenantQuery { tenant_id: tenant, name: None, status: None, page, page_size };
        let found = filter_observations(items.clone(), &query);
        found.iter().map(|item| item.started_at_ms).collect::<Vec<i64>>()
    };
    assert_eq!(ask(None, None), vec![6, 7, 8, 9, 10]);
    assert_eq!(ask(Some(1), Some(2)), vec![6, 7]);
    assert_eq!(ask(Some(2), Some(2)), vec![8, 9]);
    assert_eq!(ask(Some(3), Some(2)), vec![10]);
    assert!(ask(Some(4), Some(2)).is_empty());
    assert_eq!(ask(Some(0), Some(0)), vec![6]);
    assert!(ask(Some(usize::MAX), Some(5_000)).is_empty());
}

#[test]
fn queries_fit_by_name_and_status() {
    let tenant = 5;
    let mut other = observation(tenant, 1, ObservationStatus::Okay);
    other.name = "tool.run".into();
    let items = vec![other, observation(tenant, 2, ObservationStatus::Error)];
    let count = |name: Option<&str>, status: Option<&str>| {
        let query = TenantQuery {
            tenant_id: tenant,
            name: name.map(str::to_owned),
            status: status.map(str::to_owned),
            page: None,
            page_size: None,
        };
        filter_observations(items.clone(), &query).len()
    };
    assert_eq!(count(None, None), 2);
    assert_eq!(count(Some("tool.run"), None), 1);
    assert_eq!(count(Some("tool"), None), 0);
    assert_eq!(count(None, Some("ok")), 1);
    assert_eq!(count(None, Some("error")), 1);
    assert_eq!(count(None, Some("OK")), 0);
    assert_eq!(count(Some("tool.run"), Some("error")), 0);
}

#[test]
fn sorting_keeps_the_order_of_equal_times() {
    let tenant = 5;
    let a = observation(tenant, 1, ObservationStatus::Okay);
    let b = observation(tenant, 1, ObservationStatus::Okay);
    let c = observation(tenant, 0, ObservationStatus::Okay);
    let query =
        TenantQuery { tenant_id: tenant, name: None, status: None, page: None, page_size: None };
    assert_eq!(
        filter_observations(vec![a.clone(), b.clone(), c.clone()], &query),
        vec![c, a, b]
    );
}

#[test]
fn batch_limit_is_explicit() {
    assert_eq!(MAX_BATCH_SIZE, 1_000);
}

#[test]
fn parses_openai_compatible_model_response_and_usage() {
    let message = object(vec![("content", "root cause found".into())]);
    let body = object(vec![
        ("choices", Value::Array(vec![object(vec![("message", message)])])),
        (
            "usage",
            object(vec![("prompt_tokens", 12.into()), ("completion_tokens", 7.into())]),
        ),
    ]);
    let response = parse_model_response(body, "example-model").unwrap();
    assert_eq!(response.model, "example-model");
    assert_eq!(response.text, "root cause found");
    assert_eq!(response.input_tokens, 12);
    assert_eq!(response.output_tokens, 7);
}

#[test]
fn rejects_model_response_without_message_content() {
    let body = object(vec![("choices", Value::Array(vec![]))]);
    let error = parse_model_response(body, "example-model").unwrap_err();
    assert!(error.contains("message.content"));
}

#[test]
fn odd_counts_are_zero_and_odd_contents_refused() {
    let answer = |content: Value, usage: Value| {
        let message = object(vec![("content", content)]);
        let body = object(vec![
            ("choices", Value::Array(vec![object(vec![("message", message)]), Value::Null])),
            ("usage", usage),
        ]);
        parse_model_response(body, "m")
    };
    let odd = answer(
        "hi".into(),
        object(vec![("prompt_tokens", (-1).into()), ("completion_tokens", "3".into())]),
    )
    .unwrap();
    assert_eq!(odd.input_tokens, 0);
    assert_eq!(odd.output_tokens, 0);
    let large = answer("hi".into(), object(vec![("prompt_tokens", u64::MAX.into())])).unwrap();
    assert_eq!(large.input_tokens, u64::MAX);
    assert_eq!(answer("hi".into(), Value::Null).unwrap().output_tokens, 0);
    assert_eq!(
        answer(5.into(), Value::Null),
        Err("provider response missing choices[0].message.content".into())
    );
    assert!(parse_model_response(Value::Null, "m").is_err());
}

#[test]
fn tenant_scoped_key_cannot_use_another_tenant() {
    let authorized = fresh();
    let other = fresh();
    let scope = AuthorizedTenant(Some(authorized));
    assert!(enforce_tenant_for(None, &scope, authorized).is_ok());
    assert_eq!(
        enforce_tenant_for(None, &scope, other).unwrap_err().status,
        reply::FORBIDDEN
    );
}

#[test]
fn the_configured_tenant_is_enforced() {
    let tenant = fresh();
    let named = Uuid::from_u128(tenant).to_string();
    assert_eq!(enforce_tenant(None, tenant), Ok(()));
    assert_eq!(enforce_tenant(Some(&named), tenant), Ok(()));
    let refused = enforce_tenant(Some(&named), tenant ^ 1).unwrap_err();
    assert_eq!(refused.status, 403);
    assert_eq!(refused.message, "tenant is not authorized");
    let broken = enforce_tenant(Some("not an id"), tenant).unwrap_err();
    assert_eq!(broken.status, 500);
    assert_eq!(broken.message, "OBSERVABILITY_TENANT_ID must be a UUID");
    let open = AuthorizedTenant::default();
    assert_eq!(enforce_tenant_for(Some(&named), &open, tenant), Ok(()));
    assert_eq!(enforce_tenant_for(Some(&named), &open, tenant ^ 1).unwrap_err().status, 403);
}

#[test]
fn ids_are_written_and_read() {
    let id = 0x72a1b31d_1ea6_43b5_98ec_111cd8c25642;
    assert_eq!(write_id(id), "72a1b31d-1ea6-43b5-98ec-111cd8c25642");
    assert_eq!(read_id("72A1B31D1EA643B598EC111CD8C25642"), Some(id));
    assert_eq!(read_id(&write_id(7)), Some(7));
    assert_eq!(read_id("72a1b31d"), None);
}

#[test]
fn keys_are_asked_for_as_configured() {
    let tenant = 0x72a1b31d_1ea6_43b5_98ec_111cd8c25642;
    let named = "72a1b31d-1ea6-43b5-98ec-111cd8c25642";
    let mapping = format!("broken, nobody=x ,{named} = s3=cret , {named}=other");
    assert_eq!(
        read_key_entries(&mapping),
        vec![
            KeyEntry { tenant_id: tenant, secret: "s3=cret".into() },
            KeyEntry { tenant_id: tenant, secret: "other".into() },
        ]
    );
    let ask = |path: &str, key: Option<&str>, tenant: Option<&str>| {
        api_key_guard(None, Some(&mapping), Some("global"), path, key, tenant)
    };
    let granted = Ok(AuthorizedTenant(Some(tenant)));
    assert_eq!(ask("/v1/usage", Some("s3=cret"), Some(named)), granted);
    assert_eq!(ask("/v1/usage", Some("other"), Some(named)), granted);
    assert_eq!(ask("/v1/usage", Some("global"), Some(named)), Err(401));
    assert_eq!(ask("/v1/usage", Some("other"), None), Err(401));
    assert_eq!(ask("/v1/usage", Some("other"), Some("x")), Err(401));
    assert_eq!(ask("/v1/usage", None, Some(named)), Err(401));
    assert_eq!(ask("/health", None, None), Ok(AuthorizedTenant(None)));
}

#[test]
fn global_keys_and_production() {
    let open = Ok(AuthorizedTenant(None));
    let ask = |environment: Option<&str>, mapping: Option<&str>, global: Option<&str>, key| {
        api_key_guard(environment, mapping, global, "/metrics", key, None)
    };
    assert_eq!(ask(None, None, None, None), open);
    assert_eq!(ask(None, Some(" "), Some(""), None), open);
    assert_eq!(ask(Some("production"), Some(" "), Some(""), None), Err(500));
    assert_eq!(ask(Some("Production"), None, None, None), open);
    assert_eq!(ask(Some("production"), None, Some("k"), Some("k")), open);
    assert_eq!(ask(Some("production"), None, Some("k"), Some("K")), Err(401));
    assert_eq!(ask(None, None, Some("k"), None), Err(401));
    assert_eq!(
        api_key_guard(Some("production"), None, None, "/health", None, None),
        open
    );
}

#[test]
fn origins_are_header_values() {
    assert_eq!(
        cors_origins(" https://a.example ,https://b.example,bad\u{7}one,bad\u{7f},é"),
        vec!["https://a.example", "https://b.example", "é"]
    );
    assert_eq!(cors_origins(""), vec![""]);
}

#[test]
fn model_provider_is_replaceable_and_returns_usage() {
    let provider = DeterministicModelProvider;
    let request = ModelRequest {
        tenant_id: TenantId(fresh()),
        model: "local-deterministic".into(),
        prompt: "总结失败原因".into(),
        evidence_ids: vec![fresh()],
    };
    let response = provider.complete(&request).unwrap();
    assert_eq!(response.model, "local-deterministic");
    assert!(response.output_tokens > 0);
    let observation = model_observation(&request, &response, "trace", 1, 2);
    assert_eq!(observation.kind, ObservationKind::Model);
    assert_eq!(observation.attributes.get(&"evidence_count".into()), Some(&"1".into()));
}

#[test]
fn deterministic_answers_are_exact() {
    let mut request = ModelRequest {
        tenant_id: TenantId(1),
        model: "m".into(),
        prompt: "为何".into(),
        evidence_ids: vec![1, 2, 3],
    };
    assert!(request.is_countable());
    let response = DeterministicModelProvider::default().complete(&request).unwrap();
    assert_eq!(response.text, "基于 3 条证据生成确定性摘要：为何");
    assert_eq!(response.input_tokens, 6);
    assert_eq!(response.output_tokens, 11);
    let usage = token_usage(&request, &response);
    assert_eq!(usage.tenant_id, TenantId(1));
    assert_eq!(usage.period, "current");
    assert_eq!(usage.kind, UsageKind::ModelToken);
    assert_eq!(usage.quantity, 17);
    request.prompt = " \n".into();
    assert_eq!(
        DeterministicModelProvider.complete(&request),
        Err("prompt must not be empty".into())
    );
}

#[test]
fn model_calls_are_observed() {
    let request = ModelRequest {
        tenant_id: TenantId(1),
        model: "m".into(),
        prompt: "p".into(),
        evidence_ids: vec![1, 2],
    };
    let response = ModelResponse {
        model: "served".into(),
        text: "t".into(),
        input_tokens: 10,
        output_tokens: 20,
    };
    let seen =
        model_observation_with(&request, &response, "trace", 5, 6, 77, "span".to_owned());
    assert_eq!(seen.id, 77);
    assert_eq!(seen.tenant_id, TenantId(1));
    assert_eq!(seen.trace_id, "trace");
    assert_eq!(seen.span_id, "span");
    assert_eq!(seen.name, "model.complete");
    assert_eq!(seen.status, ObservationStatus::Okay);
    assert_eq!(seen.started_at_ms, 5);
    assert_eq!(seen.duration_ms, 6);
    assert_eq!(seen.attributes.len(), 4);
    let get = |key: &str| seen.attributes.get(&key.to_owned()).cloned();
    assert_eq!(get("model"), Some("served".into()));
    assert_eq!(get("input_tokens"), Some("10".into()));
    assert_eq!(get("output_tokens"), Some("20".into()));
    assert_eq!(get("evidence_count"), Some("2".into()));
    let one = model_observation(&request, &response, "trace", 5, 6);
    let two = model_observation(&request, &response, "trace", 5, 6);
    assert_ne!(one.id, two.id);
    assert_ne!(one.span_id, two.span_id);
    assert_eq!(Uuid::from_u128(one.id).get_version_num(), 4);
    assert_eq!(Uuid::parse_str(&one.span_id).unwrap().get_version_num(), 4);
    assert_eq!(one.validate(), Ok(()));
}

#[test]
fn completion_requests_hold_prompt_and_evidence() {
    let request = ModelRequest {
        tenant_id: TenantId(1),
        model: "m".into(),
        prompt: "say \"hi\"".into(),
        evidence_ids: vec![0x72a1b31d_1ea6_43b5_98ec_111cd8c25642],
    };
    let body = completion_request(&request);
    assert_eq!(
        body.to_string(),
        "{\"messages\":[{\"content\":\"say \\\"hi\\\"\",\"role\":\"user\"}],\"metadata\":{\"evidence_ids\":[\"72a1b31d-1ea6-43b5-98ec-111cd8c25642\"]},\"model\":\"m\"}"
    );
}

#[test]
fn providers_are_chosen_and_checked() {
    assert_eq!(choose_provider(None, Some("k")), Ok(ProviderChoice::Deterministic));
    assert_eq!(
        choose_provider(Some("https://p"), Some("k")),
        Ok(ProviderChoice::Remote { endpoint: "https://p".into(), key: "k".into() })
    );
    let missing = choose_provider(Some("https://p"), None).unwrap_err();
    assert_eq!(missing.status, 500);
    assert_eq!(
        missing.message,
        "MODEL_API_KEY is required when MODEL_PROVIDER_URL is configured"
    );
    assert_eq!(check_provider_status(200, "200 OK"), Ok(()));
    assert_eq!(check_provider_status(299, "299"), Ok(()));
    let refused = check_provider_status(503, "503 Service Unavailable").unwrap_err();
    assert_eq!(refused.status, 502);
    assert_eq!(refused.message, "model provider returned 503 Service Unavailable");
    assert!(check_provider_status(199, "199").is_err());
    assert!(check_provider_status(300, "300").is_err());
}

#[test]
fn batches_are_admitted_in_steps() {
    let tenant = 5;
    let open = AuthorizedTenant(None);
    let good = observation(tenant, 1, ObservationStatus::Okay);
    let mut spoiled = good.clone();
    spoiled.name = " ".into();
    let status = |rule: TenantRule, items: &[Observation], free: bool| {
        admit_batch(rule, &open, items, free).map_err(|error| (error.status, error.message))
    };
    assert_eq!(status(TenantRule::Any, &[good.clone()], true), Ok(()));
    assert_eq!(
        status(TenantRule::Only(6), &[good.clone()], false),
        Err((403, "tenant is not authorized".into()))
    );
    assert_eq!(
        status(TenantRule::Malformed, &[good.clone()], true),
        Err((500, "OBSERVABILITY_TENANT_ID must be a UUID".into()))
    );
    assert_eq!(
        status(TenantRule::Malformed, &[], false),
        Err((429, "batch ingestion is busy; retry later".into()))
    );
    assert_eq!(
        status(TenantRule::Any, &[], true),
        Err((400, "observations must not be empty".into()))
    );
    let many = vec![spoiled.clone(); 1_001];
    assert_eq!(
        status(TenantRule::Any, &many, true),
        Err((413, "batch cannot contain more than 1000 observations".into()))
    );
    assert_eq!(
        status(TenantRule::Any, &[good.clone(), spoiled.clone()], true),
        Err((400, "observation name must not be empty".into()))
    );
    assert_eq!(status(TenantRule::Any, &vec![good.clone(); 1_000], true), Ok(()));
    let held = AuthorizedTenant(Some(6));
    assert_eq!(
        admit_batch(TenantRule::Any, &held, &[good.clone()], true).unwrap_err().status,
        403
    );
    assert_eq!(BATCH_SLOTS, 8);

    assert_eq!(admit_observation(TenantRule::Any, &open, &good), Ok(()));
    let refused = admit_observation(TenantRule::Any, &open, &spoiled).unwrap_err();
    assert_eq!(refused.status, 400);
    assert_eq!(refused.message, "observation name must not be empty");
    assert_eq!(
        admit_observation(TenantRule::Only(6), &open, &spoiled).unwrap_err().status,
        403
    );
}

#[test]
fn small_decisions_are_answered() {
    assert_eq!(check_objective("why"), Ok(()));
    let blank = check_objective("  ").unwrap_err();
    assert_eq!(blank.status, 400);
    assert_eq!(blank.message, "objective must not be empty");
    let disabled = queue_is_disabled();
    assert_eq!(disabled.status, 409);
    assert_eq!(disabled.message, "durable ingestion queue is not enabled");
    assert_eq!(replay_reply(true), Ok(202));
    let missing = replay_reply(false).unwrap_err();
    assert_eq!(missing.status, 404);
    assert_eq!(missing.message, "dead letter was not found");
}

#[test]
fn storage_is_planned() {
    assert_eq!(storage_plan("jsonl", "direct"), Ok(StoragePlan::Jsonl));
    assert_eq!(storage_plan("other", "direct"), Ok(StoragePlan::Jsonl));
    assert_eq!(storage_plan("sqlite", "direct"), Ok(StoragePlan::Sqlite));
    assert_eq!(storage_plan("sqlite", "durable"), Ok(StoragePlan::DurableSqlite));
    assert_eq!(
        storage_plan("jsonl", "durable"),
        Err("durable ingestion requires OBSERVABILITY_STORAGE=sqlite".into())
    );
    assert_eq!(
        storage_plan("sqlite", "Durable"),
        Err("OBSERVABILITY_INGEST_MODE must be direct or durable".into())
    );
}

fn trace_request(count: usize) -> TraceRequest {
    let span = |i: usize| TraceSpan {
        trace_id: vec![1; 16],
        span_id: vec![1, (i % 250) as u8, (i / 250) as u8, 0, 0, 0, 0, 0],
        trace_state: String::new(),
        parent_span_id: Vec::new(),
        name: "s".into(),
        kind: 0,
        start_time_unix_nano: 0,
        end_time_unix_nano: 0,
        attributes: Vec::new(),
        status: None,
    };
    TraceRequest {
        resource_spans: vec![ResourceTrace {
            resource: None,
            scope_spans: vec![ScopeTrace { scope: None, spans: (0..count).map(span).collect() }],
        }],
    }
}

#[test]
fn trace_requests_are_limited() {
    assert_eq!(map_traces(trace_request(1_000), TenantId(1)).unwrap().observations.len(), 1_000);
    let refused = map_traces(trace_request(1_001), TenantId(1)).unwrap_err();
    assert_eq!(refused.status, 413);
    assert_eq!(
        admit_trace(Some("application/json"), None, 4_194_304),
        Ok(OtlpEncoding::Json)
    );
    assert_eq!(
        admit_trace(Some("application/x-protobuf"), Some(" Identity"), 1),
        Ok(OtlpEncoding::Protobuf)
    );
    let status = |kind: Option<&str>, coding: Option<&str>, size: usize| {
        admit_trace(kind, coding, size).unwrap_err().status
    };
    assert_eq!(status(Some("application/json"), None, 4_194_305), 413);
    assert_eq!(status(Some("application/json"), Some("br"), 1), 415);
    assert_eq!(status(Some("text/plain"), None, 1), 415);
    let broken = receive_traces(OtlpEncoding::Json, b"[", TenantId(1)).unwrap_err();
    assert_eq!(broken.status, 400);
    assert!(broken.message.starts_with("invalid OTLP trace payload: "));
    let empty = receive_traces(OtlpEncoding::Protobuf, b"", TenantId(1)).unwrap();
    assert!(empty.observations.is_empty());
}

#[test]
fn counts_are_told_to_collectors() {
    let mut counters = Counters::default();
    counters.count_ingested(12);
    counters.count_processed();
    let body = metrics("sqlite", "durable", &counters);
    assert!(body.starts_with("# HELP observability_api_info Runtime configuration of the API.\n# TYPE observability_api_info gauge\nobservability_api_info{storage=\"sqlite\",ingestion=\"durable\"} 1\n# HELP observability_api_up Whether the API process is serving requests.\n# TYPE observability_api_up gauge\nobservability_api_up 1\n# HELP observability_observations_ingested_total Observations accepted by the API.\n# TYPE observability_observations_ingested_total counter\nobservability_observations_ingested_total 12\n# HELP observability_model_calls_total Model completion requests accepted by the API.\n# TYPE observability_model_calls_total counter\nobservability_model_calls_total 0\n"));
    assert!(body.ends_with("# HELP observability_agent_executions_total Agent tool executions accepted by the API.\n# TYPE observability_agent_executions_total counter\nobservability_agent_executions_total 0\n# HELP observability_queue_processed_total Durable queue items persisted to observation storage.\n# TYPE observability_queue_processed_total counter\nobservability_queue_processed_total 1\n# HELP observability_queue_retries_total Durable queue items scheduled for retry.\n# TYPE observability_queue_retries_total counter\nobservability_queue_retries_total 0\n# HELP observability_queue_dead_letters_total Durable queue items moved to dead letter.\n# TYPE observability_queue_dead_letters_total counter\nobservability_queue_dead_letters_total 0\n"));
}

#[test]
fn flags_are_followed_by_values() {
    let args = |list: &[&str]| list.iter().map(|s| (*s).to_owned()).collect::<Vec<String>>();
    assert_eq!(value_after("--a", &args(&["x", "--a", "1", "--a", "2"])), Some("1".into()));
    assert_eq!(value_after("--a", &args(&["x", "--a"])), None);
    assert_eq!(value_after("--a", &args(&["--a", "--a"])), Some("--a".into()));
    assert_eq!(value_after("--a", &[]), None);
    let given = read_arguments(&args(&["agent", "--prompt", "why", "--evidence", "f.json"]));
    let given = given.unwrap();
    assert_eq!(given.prompt, "why");
    assert_eq!(given.model, "local-deterministic");
    assert_eq!(given.evidence_path.as_deref(), Some("f.json"));
    assert_eq!(given.endpoint, None);
    assert_eq!(given.key_variable, "MODEL_API_KEY");
    let full = read_arguments(&args(&[
        "agent", "--prompt", "p", "--model", "m", "--endpoint", "e", "--api-key-env", "K",
    ]))
    .unwrap();
    assert_eq!(full.model, "m");
    assert_eq!(full.endpoint.as_deref(), Some("e"));
    assert_eq!(full.key_variable, "K");
    assert!(read_arguments(&args(&["agent", "--model", "m"])).is_none());
}

#[test]
fn trace_requests_name_their_tenant() {
    let named = "72a1b31d-1ea6-43b5-98ec-111cd8c25642";
    assert_eq!(
        trace_tenant(Some(named)),
        Ok(TenantId(0x72a1b31d_1ea6_43b5_98ec_111cd8c25642))
    );
    for missing in [None, Some("x")] {
        let refused = trace_tenant(missing).unwrap_err();
        assert_eq!(refused.status, 400);
        assert_eq!(refused.message, "x-tenant-id must be a UUID");
    }
    let codes: Vec<i32> =
        [400, 415, 403, 413, 429, 401, 500].into_iter().map(rpc_code).collect();
    assert_eq!(codes, vec![3, 3, 7, 8, 8, 16, 13]);
}

#[test]
fn browsers_are_allowed_what_is_listed() {
    assert_eq!(cors_policy(None), CorsPolicy::Permissive);
    let names = |list: &[&str]| list.iter().map(|s| (*s).to_owned()).collect::<Vec<String>>();
    assert_eq!(
        cors_policy(Some("https://console.example.com, https://b.example")),
        CorsPolicy::Listed {
            origins: names(&["https://console.example.com", "https://b.example"]),
            methods: names(&["GET", "POST"]),
            headers: names(&["content-type", "x-api-key", "x-tenant-id", "idempotency-key"]),
        }
    );
}

#[test]
fn tenants_are_checked_before_the_queue() {
    let open = AuthorizedTenant(None);
    let held = AuthorizedTenant(Some(6));
    let ask = |rule: TenantRule, authorized: &AuthorizedTenant, has_queue: bool| {
        admit_queue_request(rule, authorized, 5, has_queue).map_err(|error| error.status)
    };
    assert_eq!(ask(TenantRule::Any, &open, true), Ok(()));
    assert_eq!(ask(TenantRule::Any, &open, false), Err(409));
    assert_eq!(ask(TenantRule::Any, &held, false), Err(403));
    assert_eq!(ask(TenantRule::Only(6), &open, false), Err(403));
    assert_eq!(ask(TenantRule::Malformed, &open, false), Err(500));
}
