use observability::attribute::{
    any_value_to_json, any_value_to_string, Attribute, AttributeValue, Double,
};
use observability::durable::ObservationQueue;
use observability::observation::{ObservationKind, ObservationStatus, TenantId};
use observability::otlp::{
    classify_observation, map_request, span_kind_name, OtlpEncoding, OtlpError, SpanRejection,
};
use observability::ordered::OrderedMap;
use observability::trace::{
    count_spans, span_count, InstrumentationScope, Resource, ResourceTrace, ScopeTrace, SpanStatus,
    TraceRequest, TraceSpan,
};
use observability::wire::{decode_request, encode_error, encode_response};
use opentelemetry_proto::tonic::collector::trace::v1::{
    ExportTraceServiceRequest, ExportTraceServiceResponse,
};
use opentelemetry_proto::tonic::common::v1 as common;
use opentelemetry_proto::tonic::resource::v1 as resource;
use opentelemetry_proto::tonic::trace::v1 as spans;
use prost::Message;
use uuid::Uuid;

fn string_attribute(key: &str, value: &str) -> Attribute {
    Attribute { key: key.into(), value: Some(AttributeValue::StringValue(value.into())) }
}

fn span(trace_byte: u8, span_byte: u8) -> TraceSpan {
    TraceSpan {
        trace_id: vec![trace_byte; 16],
        span_id: vec![span_byte; 8],
        trace_state: String::new(),
        parent_span_id: Vec::new(),
        name: "agent.invoke".into(),
        kind: 0,
        start_time_unix_nano: 1_000_000_000,
        end_time_unix_nano: 1_125_000_000,
        attributes: vec![string_attribute("gen_ai.agent.name", "support-agent")],
        status: Some(SpanStatus { message: "provider timeout".into(), code: 2 }),
    }
}

fn request(spans: Vec<TraceSpan>) -> TraceRequest {
    TraceRequest {
        resource_spans: vec![ResourceTrace {
            resource: Some(Resource {
                attributes: vec![string_attribute("service.name", "checkout")],
            }),
            scope_spans: vec![ScopeTrace {
                scope: Some(InstrumentationScope {
                    name: "example-instrumentation".into(),
                    version: "1.0.0".into(),
                    attributes: Vec::new(),
                }),
                spans,
            }],
        }],
    }
}

fn text_value(value: &str) -> common::AnyValue {
    common::AnyValue { value: Some(common::any_value::Value::StringValue(value.into())) }
}

fn sent_attribute(key: &str, value: common::AnyValue) -> common::KeyValue {
    common::KeyValue { key: key.into(), value: Some(value), ..common::KeyValue::default() }
}

fn sent_span() -> spans::Span {
    spans::Span {
        trace_id: vec![1; 16],
        span_id: vec![2; 8],
        name: "agent.invoke".into(),
        start_time_unix_nano: 1_000_000_000,
        end_time_unix_nano: 1_125_000_000,
        attributes: vec![sent_attribute("gen_ai.agent.name", text_value("support-agent"))],
        status: Some(spans::Status { message: "provider timeout".into(), code: 2 }),
        ..spans::Span::default()
    }
}

fn sent_request(span: spans::Span) -> ExportTraceServiceRequest {
    ExportTraceServiceRequest {
        resource_spans: vec![spans::ResourceSpans {
            resource: Some(resource::Resource {
                attributes: vec![sent_attribute("service.name", text_value("checkout"))],
                ..resource::Resource::default()
            }),
            scope_spans: vec![spans::ScopeSpans {
                scope: Some(common::InstrumentationScope {
                    name: "example-instrumentation".into(),
                    version: "1.0.0".into(),
                    ..common::InstrumentationScope::default()
                }),
                spans: vec![span],
                ..spans::ScopeSpans::default()
            }],
            ..spans::ResourceSpans::default()
        }],
    }
}

fn fresh() -> TenantId {
    TenantId(Uuid::new_v4().as_u128())
}

#[test]
fn decodes_binary_and_json_requests() {
    let expected = request(vec![span(1, 2)]);
    let sent = sent_request(sent_span());
    let binary = sent.encode_to_vec();
    assert_eq!(decode_request(OtlpEncoding::Protobuf, &binary).unwrap(), expected);

    let json = serde_json::to_vec(&sent).unwrap();
    assert_eq!(decode_request(OtlpEncoding::Json, &json).unwrap(), expected);
}

#[test]
fn broken_bodies_are_refused_with_the_reason() {
    let binary = ExportTraceServiceRequest::decode([0xff_u8].as_slice()).unwrap_err().to_string();
    assert_eq!(
        decode_request(OtlpEncoding::Protobuf, &[0xff]),
        Err(OtlpError::InvalidPayload(binary.clone()))
    );
    assert_eq!(
        decode_request(OtlpEncoding::Protobuf, &[0xff]).unwrap_err().message(),
        format!("invalid OTLP trace payload: {binary}")
    );
    let json = serde_json::from_slice::<ExportTraceServiceRequest>(b"{").unwrap_err().to_string();
    assert_eq!(
        decode_request(OtlpEncoding::Json, b"{"),
        Err(OtlpError::InvalidPayload(json))
    );
    assert_eq!(
        OtlpError::ResponseEncoding("x".into()).message(),
        "cannot encode OTLP response: x"
    );
}

#[test]
fn decodes_every_field_and_kind_of_value() {
    let mut sent = sent_span();
    sent.trace_state = "vendor=1".into();
    sent.parent_span_id = vec![3; 8];
    sent.kind = 3;
    let value = |value| common::AnyValue { value: Some(value) };
    sent.attributes = vec![
        sent_attribute("b", value(common::any_value::Value::BoolValue(true))),
        sent_attribute("i", value(common::any_value::Value::IntValue(-7))),
        sent_attribute("d", value(common::any_value::Value::DoubleValue(1.5))),
        sent_attribute("n", value(common::any_value::Value::DoubleValue(f64::NAN))),
        sent_attribute("y", value(common::any_value::Value::BytesValue(vec![0, 255]))),
        sent_attribute(
            "a",
            value(common::any_value::Value::ArrayValue(common::ArrayValue {
                values: vec![text_value("x"), common::AnyValue { value: None }],
            })),
        ),
        sent_attribute(
            "k",
            value(common::any_value::Value::KvlistValue(common::KeyValueList {
                values: vec![
                    sent_attribute("inner", value(common::any_value::Value::IntValue(1))),
                    common::KeyValue { key: "none".into(), ..common::KeyValue::default() },
                ],
            })),
        ),
    ];
    let binary = sent_request(sent).encode_to_vec();
    let decoded = decode_request(OtlpEncoding::Protobuf, &binary).unwrap();
    let span = &decoded.resource_spans[0].scope_spans[0].spans[0];
    assert_eq!(span.trace_state, "vendor=1");
    assert_eq!(span.parent_span_id, vec![3; 8]);
    assert_eq!(span.kind, 3);
    let mapped = map_request(decoded, TenantId(1));
    let attributes = &mapped.observations[0].attributes;
    let get = |key: &str| attributes.get(&key.to_owned()).cloned();
    assert_eq!(get("b"), Some("true".into()));
    assert_eq!(get("i"), Some("-7".into()));
    assert_eq!(get("d"), Some("1.5".into()));
    assert_eq!(get("n"), Some("NaN".into()));
    assert_eq!(get("y"), Some("00ff".into()));
    assert_eq!(get("a"), Some("[\"x\",null]".into()));
    assert_eq!(get("k"), Some("{\"inner\":1}".into()));
    assert_eq!(get("otel.trace_state"), Some("vendor=1".into()));
    assert_eq!(get("otel.parent_span_id"), Some("0303030303030303".into()));
    assert_eq!(get("otel.span.kind"), Some("client".into()));
    assert_eq!(get("otel.status_message"), Some("provider timeout".into()));
    assert_eq!(get("otel.scope.version"), Some("1.0.0".into()));
}

#[test]
fn values_have_a_json_form() {
    let double = |x: f64| {
        AttributeValue::DoubleValue(Double {
            text: x.to_string(),
            number: serde_json::Number::from_f64(x),
        })
    };
    assert_eq!(any_value_to_json(&double(2.5)), serde_json::Value::from(2.5));
    assert_eq!(any_value_to_json(&double(f64::INFINITY)), serde_json::Value::from("inf"));
    assert_eq!(any_value_to_json(&AttributeValue::Unset), serde_json::Value::Null);
    assert_eq!(any_value_to_json(&AttributeValue::StringValueStrindex(4)), serde_json::Value::Null);
    assert_eq!(
        any_value_to_json(&AttributeValue::BytesValue(vec![171])),
        serde_json::Value::from("ab")
    );
    assert_eq!(any_value_to_json(&AttributeValue::IntValue(-3)), serde_json::Value::from(-3));
    assert_eq!(any_value_to_string(&AttributeValue::Unset), "");
    assert_eq!(any_value_to_string(&AttributeValue::StringValueStrindex(4)), "");
    let nested = AttributeValue::KvlistValue(vec![
        string_attribute("b", "1"),
        string_attribute("a", "2"),
        string_attribute("b", "3"),
        Attribute { key: "c".into(), value: None },
    ]);
    assert_eq!(any_value_to_string(&nested), "{\"a\":\"2\",\"b\":\"3\"}");
    let list = AttributeValue::ArrayValue(vec![double(1.0), AttributeValue::BoolValue(false)]);
    assert_eq!(any_value_to_string(&list), "[1.0,false]");
    assert_eq!(any_value_to_string(&double(1.0)), "1");
}

#[test]
fn maps_agent_span_and_preserves_evidence_fields() {
    let tenant = fresh();
    let mapped = map_request(request(vec![span(1, 2)]), tenant);
    assert_eq!(mapped.rejected_spans, 0);
    assert_eq!(mapped.observations.len(), 1);
    let observation = &mapped.observations[0];
    assert_eq!(observation.tenant_id, tenant);
    assert_eq!(observation.trace_id, "01010101010101010101010101010101");
    assert_eq!(observation.span_id, "0202020202020202");
    assert_eq!(observation.kind, ObservationKind::Agent);
    assert_eq!(observation.status, ObservationStatus::Error);
    assert_eq!(observation.started_at_ms, 1_000);
    assert_eq!(observation.duration_ms, 125);
    assert_eq!(
        observation.attributes.get(&"resource.service.name".into()),
        Some(&"checkout".into())
    );
    assert_eq!(
        observation.attributes.get(&"otel.scope.name".into()),
        Some(&"example-instrumentation".into())
    );
}

#[test]
fn rejects_bad_span_and_reports_partial_success() {
    let tenant = fresh();
    let mut invalid = span(0, 2);
    invalid.trace_id = vec![0; 16];
    let mapped = map_request(request(vec![span(1, 2), invalid]), tenant);
    assert_eq!(mapped.observations.len(), 1);
    assert_eq!(mapped.rejected_spans, 1);
    assert!(mapped.error_message.contains("invalid trace_id: 1"));

    let body =
        encode_response(OtlpEncoding::Protobuf, mapped.rejected_spans, mapped.error_message)
            .unwrap();
    let response = ExportTraceServiceResponse::decode(body.as_slice()).unwrap();
    assert_eq!(response.partial_success.unwrap().rejected_spans, 1);

    let json = encode_response(OtlpEncoding::Json, 1, "rejected invalid spans".into()).unwrap();
    let body: serde_json::Value = serde_json::from_slice(&json).unwrap();
    let mut inner = serde_json::Map::new();
    inner.insert("rejectedSpans".into(), "1".into());
    inner.insert("errorMessage".into(), "rejected invalid spans".into());
    let mut outer = serde_json::Map::new();
    outer.insert("partialSuccess".into(), serde_json::Value::Object(inner));
    assert_eq!(body, serde_json::Value::Object(outer));
    assert_eq!(encode_response(OtlpEncoding::Json, 0, String::new()).unwrap(), b"{}");
}

#[test]
fn deterministic_ids_make_export_retries_idempotent() {
    let tenant = fresh();
    let first = map_request(request(vec![span(1, 2)]), tenant);
    let second = map_request(request(vec![span(1, 2)]), tenant);
    assert_eq!(first.observations[0].id, second.observations[0].id);
}

#[test]
fn exporting_again_queues_nothing() {
    let mapped = map_request(request(vec![span(1, 2), span(1, 3)]), TenantId(9));
    let mut queue = ObservationQueue::new();
    assert_eq!(queue.enqueue_batch(&mapped.observations, 5), Ok(2));
    let again = map_request(request(vec![span(1, 2), span(1, 3)]), TenantId(9));
    assert_eq!(queue.enqueue_batch(&again.observations, 6), Ok(0));
}

#[test]
fn ids_are_the_name_based_uuids_of_tenant_trace_and_span() {
    let tenant = fresh();
    let mapped = map_request(request(vec![span(1, 2)]), tenant);
    let namespace = Uuid::from_u128(0x72a1b31d_1ea6_43b5_98ec_111cd8c25642);
    let mut name = Uuid::from_u128(tenant.0).as_bytes().to_vec();
    name.extend_from_slice(&[1; 16]);
    name.extend_from_slice(&[2; 8]);
    assert_eq!(mapped.observations[0].id, Uuid::new_v5(&namespace, &name).as_u128());
}

#[test]
fn every_reason_is_counted_in_order() {
    let mut short = span(1, 2);
    short.span_id = vec![2; 7];
    let mut nameless = span(1, 2);
    nameless.name = " ".into();
    let mut backwards = span(1, 2);
    backwards.end_time_unix_nano = 999_999_999;
    let mut endless = span(1, 2);
    endless.end_time_unix_nano = 1_000_000_000 + 86_400_001 * 1_000_000;
    let mut longest = span(1, 2);
    longest.end_time_unix_nano = 1_000_000_000 + 86_400_000 * 1_000_000;
    let spans = vec![short, span(0, 2), nameless, span(0, 2), backwards, endless, longest];
    let given = request(spans);
    assert_eq!(span_count(&given), 7);
    assert_eq!(count_spans(&given), Some(7));
    let mapped = map_request(given, TenantId(1));
    assert_eq!(mapped.observations.len(), 1);
    assert_eq!(mapped.observations[0].validate(), Ok(()));
    assert_eq!(mapped.observations[0].tenant_id, TenantId(1));
    assert_eq!(mapped.rejected_spans, 6);
    assert_eq!(
        mapped.error_message,
        "rejected invalid spans (duration exceeds ingestion limit: 1, empty span name: 1, end time precedes start time: 1, invalid span_id: 1, invalid trace_id: 2)"
    );
    assert_eq!(SpanRejection::EmptyName.reason(), "empty span name");
    let none = map_request(TraceRequest { resource_spans: Vec::new() }, TenantId(1));
    assert_eq!(none.rejected_spans, 0);
    assert_eq!(none.error_message, "");
}

#[test]
fn protobuf_answers_are_those_of_the_message_types() {
    let partial = |rejected: i64, message: &str| {
        let encoded =
            encode_response(OtlpEncoding::Protobuf, rejected, message.to_owned()).unwrap();
        ExportTraceServiceResponse::decode(encoded.as_slice()).unwrap().partial_success
    };
    assert_eq!(partial(0, ""), None);
    assert_eq!(encode_response(OtlpEncoding::Protobuf, 0, String::new()).unwrap(), b"");
    let some = partial(300, "many spans were refused").unwrap();
    assert_eq!(some.rejected_spans, 300);
    assert_eq!(some.error_message, "many spans were refused");
    let negative = partial(-1, "odd").unwrap();
    assert_eq!(negative.rejected_spans, -1);
    let long = "x".repeat(300);
    assert_eq!(partial(1, &long).unwrap().error_message, long);
    assert_eq!(
        encode_response(OtlpEncoding::Protobuf, 1, "no".into()).unwrap(),
        vec![10, 6, 8, 1, 18, 2, b'n', b'o']
    );
}

#[test]
fn error_bodies_are_encoded() {
    assert_eq!(
        encode_error(OtlpEncoding::Protobuf, 3, "no").unwrap(),
        vec![8, 3, 18, 2, b'n', b'o']
    );
    assert_eq!(encode_error(OtlpEncoding::Protobuf, 0, "").unwrap(), b"");
    assert_eq!(
        encode_error(OtlpEncoding::Protobuf, -1, "").unwrap(),
        vec![8, 255, 255, 255, 255, 255, 255, 255, 255, 255, 1]
    );
    assert_eq!(
        encode_error(OtlpEncoding::Json, 3, "a \"b\"").unwrap(),
        b"{\"code\":3,\"message\":\"a \\\"b\\\"\"}"
    );
}

#[test]
fn content_types_are_media_types() {
    assert_eq!(
        OtlpEncoding::from_content_type(Some("Application/JSON; charset=utf-8")),
        Ok(OtlpEncoding::Json)
    );
    assert_eq!(
        OtlpEncoding::from_content_type(Some(" application/x-protobuf ")),
        Ok(OtlpEncoding::Protobuf)
    );
    for refused in [None, Some(""), Some("text/plain"), Some("application/json2")] {
        assert_eq!(
            OtlpEncoding::from_content_type(refused),
            Err(OtlpError::UnsupportedContentType)
        );
    }
    assert_eq!(
        OtlpError::UnsupportedContentType.message(),
        "content-type must be application/x-protobuf or application/json"
    );
    for encoding in [OtlpEncoding::Json, OtlpEncoding::Protobuf] {
        assert_eq!(
            OtlpEncoding::from_content_type(Some(encoding.content_type())),
            Ok(encoding)
        );
    }
}

#[test]
fn kinds_have_names() {
    let names = ["unspecified", "internal", "server", "client", "producer", "consumer"];
    for (kind, name) in names.iter().enumerate() {
        assert_eq!(span_kind_name(kind as i32), *name);
    }
    assert_eq!(span_kind_name(6), "unspecified");
    assert_eq!(span_kind_name(-1), "unspecified");
}

#[test]
fn attributes_decide_the_kind() {
    let kind = |pairs: &[(&str, &str)]| {
        let mut attributes = OrderedMap::new();
        for (key, value) in pairs {
            attributes.insert((*key).to_owned(), (*value).to_owned());
        }
        classify_observation(&attributes)
    };
    assert_eq!(kind(&[]), ObservationKind::Workflow);
    assert_eq!(kind(&[("observability.kind", "TOOL")]), ObservationKind::Tool);
    assert_eq!(kind(&[("observability.kind", "agent")]), ObservationKind::Agent);
    assert_eq!(kind(&[("observability.kind", "model")]), ObservationKind::Model);
    assert_eq!(kind(&[("observability.kind", "http")]), ObservationKind::Http);
    assert_eq!(
        kind(&[("observability.kind", "workflow"), ("gen_ai.agent.name", "x")]),
        ObservationKind::Workflow
    );
    assert_eq!(
        kind(&[("observability.kind", "other"), ("gen_ai.tool.name", "x")]),
        ObservationKind::Tool
    );
    assert_eq!(kind(&[("openinference.span.kind", "AGENT")]), ObservationKind::Agent);
    assert_eq!(kind(&[("gen_ai.operation.name", "invoke_agent")]), ObservationKind::Agent);
    assert_eq!(kind(&[("openinference.span.kind", "Tool")]), ObservationKind::Tool);
    assert_eq!(kind(&[("gen_ai.operation.name", "execute_tool")]), ObservationKind::Tool);
    assert_eq!(kind(&[("gen_ai.request.model", "m")]), ObservationKind::Model);
    assert_eq!(kind(&[("gen_ai.response.model", "m")]), ObservationKind::Model);
    assert_eq!(kind(&[("gen_ai.system", "m")]), ObservationKind::Model);
    assert_eq!(kind(&[("openinference.span.kind", "llm")]), ObservationKind::Model);
    assert_eq!(kind(&[("http.method", "GET")]), ObservationKind::Http);
    assert_eq!(kind(&[("url.path", "/")]), ObservationKind::Http);
    assert_eq!(kind(&[("server.address", "h")]), ObservationKind::Http);
    assert_eq!(kind(&[("server.address2", "h")]), ObservationKind::Workflow);
    assert_eq!(
        kind(&[("http.method", "GET"), ("gen_ai.agent.name", "x")]),
        ObservationKind::Agent
    );
}

#[test]
fn different_outcomes_are_answered_differently() {
    let outcomes = [(0, ""), (1, ""), (-1, ""), (0, "a"), (1, "a"), (128, "a"), (0, "ab")];
    for one in outcomes {
        for other in outcomes {
            let body = |(rejected, message): (i64, &str)| {
                encode_response(OtlpEncoding::Protobuf, rejected, message.to_owned()).unwrap()
            };
            let silent = |(rejected, message): (i64, &str)| rejected <= 0 && message.is_empty();
            assert_eq!(
                body(one) == body(other),
                one == other || (silent(one) && silent(other)),
                "{one:?} {other:?}"
            );
        }
    }
}
