//! OTLP bodies: decoding trace requests, and encoding what is answered.
use crate::attribute;
use crate::attribute::{AnyModel, Attribute, AttributeValue, Double, KeyModel};
use crate::json;
use crate::json::Json;
use crate::number;
use crate::otlp::{OtlpEncoding, OtlpError};
use crate::text;
use crate::trace;
use crate::trace::{
    InstrumentationScope, Resource, ResourceSpansModel, ResourceTrace, ScopeModel,
    ScopeSpansModel, ScopeTrace, SpanModel, SpanStatus, TraceModel, TraceRequest, TraceSpan,
};
use opentelemetry_proto::tonic::collector::trace::v1 as collector;
use opentelemetry_proto::tonic::common::v1 as common;
use opentelemetry_proto::tonic::common::v1::any_value::Value as WireValue;
use opentelemetry_proto::tonic::trace::v1 as spans;
use prost::Message;
use vstd::prelude::*;

verus! {

/// A trace request as it is decoded.
#[verifier::external_type_specification]
#[verifier::external_body]
pub struct ExRequest(collector::ExportTraceServiceRequest);

/// The spans of a resource as they are decoded.
#[verifier::external_type_specification]
#[verifier::external_body]
pub struct ExResourceSpans(spans::ResourceSpans);

/// The spans of a scope as they are decoded.
#[verifier::external_type_specification]
#[verifier::external_body]
pub struct ExScopeSpans(spans::ScopeSpans);

/// A span as it is decoded.
#[verifier::external_type_specification]
#[verifier::external_body]
pub struct ExSpan(spans::Span);

/// A named attribute as it is decoded.
#[verifier::external_type_specification]
#[verifier::external_body]
pub struct ExKeyValue(common::KeyValue);

/// An attribute value as it is decoded.
#[verifier::external_type_specification]
#[verifier::external_body]
pub struct ExAnyValue(common::AnyValue);

/// What a decoded attribute value holds.
pub uninterp spec fn wire_any(value: common::AnyValue) -> AnyModel;

/// What a decoded attribute holds.
pub uninterp spec fn wire_key(item: common::KeyValue) -> KeyModel;

/// What a decoded span holds.
pub uninterp spec fn wire_span(span: spans::Span) -> SpanModel;

/// What the decoded spans of a scope hold.
pub uninterp spec fn wire_scope(group: spans::ScopeSpans) -> ScopeSpansModel;

/// What the decoded spans of a resource hold.
pub uninterp spec fn wire_resource(entry: spans::ResourceSpans) -> ResourceSpansModel;

/// What a decoded request holds.
pub uninterp spec fn wire_request(request: collector::ExportTraceServiceRequest) -> TraceModel;

/// What decoded attribute values hold.
pub open spec fn wire_anys(values: Seq<common::AnyValue>) -> Seq<AnyModel> {
    Seq::new(values.len(), |i: int| wire_any(values[i]))
}

/// What decoded attributes hold.
pub open spec fn wire_keys(items: Seq<common::KeyValue>) -> Seq<KeyModel> {
    Seq::new(items.len(), |i: int| wire_key(items[i]))
}

/// What decoded spans hold.
pub open spec fn wire_spans(list: Seq<spans::Span>) -> Seq<SpanModel> {
    Seq::new(list.len(), |i: int| wire_span(list[i]))
}

/// What the decoded scopes hold.
pub open spec fn wire_scopes(groups: Seq<spans::ScopeSpans>) -> Seq<ScopeSpansModel> {
    Seq::new(groups.len(), |i: int| wire_scope(groups[i]))
}

/// What the decoded resources hold.
pub open spec fn wire_resources(entries: Seq<spans::ResourceSpans>) -> Seq<ResourceSpansModel> {
    Seq::new(entries.len(), |i: int| wire_resource(entries[i]))
}

/// A decoded attribute value, one level opened.
enum OpenAny {
    Text(String),
    Bool(bool),
    Int(i64),
    Double(Double),
    Array(Vec<common::AnyValue>),
    KeyValues(Vec<common::KeyValue>),
    Bytes(Vec<u8>),
    Index(i32),
    Unset,
}

impl OpenAny {
    /// What the value holds.
    spec fn model(self) -> AnyModel {
        match self {
            OpenAny::Text(s) => AnyModel::Text(s@),
            OpenAny::Bool(b) => AnyModel::Bool(b),
            OpenAny::Int(n) => AnyModel::Int(n),
            OpenAny::Double(d) => AnyModel::Double(d.text@, d.number),
            OpenAny::Array(values) => AnyModel::Array(wire_anys(values@)),
            OpenAny::KeyValues(items) => AnyModel::KeyValues(wire_keys(items@)),
            OpenAny::Bytes(bytes) => AnyModel::Bytes(bytes@),
            OpenAny::Index(n) => AnyModel::Index(n),
            OpenAny::Unset => AnyModel::Unset,
        }
    }
}

/// Tells the variants of `any_value::Value` of `opentelemetry_proto` apart. A double is taken as
/// the text of its `Display` and as the number that `serde_json::Number::from_f64` makes of it.
#[verifier::external_body]
fn open_any(value: common::AnyValue) -> (r: OpenAny)
    ensures
        wire_any(value) == r.model(),
{
    match value.value {
        Some(WireValue::StringValue(s)) => OpenAny::Text(s),
        Some(WireValue::BoolValue(b)) => OpenAny::Bool(b),
        Some(WireValue::IntValue(n)) => OpenAny::Int(n),
        Some(WireValue::DoubleValue(d)) => OpenAny::Double(
            Double { text: d.to_string(), number: serde_json::Number::from_f64(d) },
        ),
        Some(WireValue::ArrayValue(list)) => OpenAny::Array(list.values),
        Some(WireValue::KvlistValue(list)) => OpenAny::KeyValues(list.values),
        Some(WireValue::BytesValue(bytes)) => OpenAny::Bytes(bytes),
        Some(WireValue::StringValueStrindex(n)) => OpenAny::Index(n),
        None => OpenAny::Unset,
    }
}

/// The fields `key` and `value` of `common::v1::KeyValue` of `opentelemetry_proto`.
#[verifier::external_body]
fn open_key(item: common::KeyValue) -> (r: (String, Option<common::AnyValue>))
    ensures
        wire_key(item) == (KeyModel {
            key: r.0@,
            value: match r.1 {
                Some(value) => Some(wire_any(value)),
                None => None,
            },
        }),
{
    (item.key, item.value)
}

/// The fields of `trace::v1::Span` of `opentelemetry_proto` that are read, the attributes apart.
#[verifier::external_body]
fn open_span(span: spans::Span) -> (r: (TraceSpan, Vec<common::KeyValue>))
    ensures
        wire_span(span) == (SpanModel { attributes: wire_keys(r.1@), ..r.0@ }),
{
    let status = span.status.map(|status| SpanStatus { message: status.message, code: status.code });
    let (trace_id, span_id, parent_span_id) = (span.trace_id, span.span_id, span.parent_span_id);
    let (trace_state, name, kind) = (span.trace_state, span.name, span.kind);
    let start_time_unix_nano = span.start_time_unix_nano;
    let end_time_unix_nano = span.end_time_unix_nano;
    let attributes = Vec::new();
    (
        TraceSpan {
            trace_id, span_id, trace_state, parent_span_id, name, kind, start_time_unix_nano,
            end_time_unix_nano, attributes, status,
        },
        span.attributes,
    )
}

/// The fields of `trace::v1::ScopeSpans` of `opentelemetry_proto` that are read: of the scope its
/// name, its version and its attributes, and the spans.
#[verifier::external_body]
fn open_scope(group: spans::ScopeSpans) -> (r: (
    Option<(String, String, Vec<common::KeyValue>)>,
    Vec<spans::Span>,
))
    ensures
        wire_scope(group) == (ScopeSpansModel {
            scope: match r.0 {
                Some(scope) => Some(
                    ScopeModel {
                        name: scope.0@,
                        version: scope.1@,
                        attributes: wire_keys(scope.2@),
                    },
                ),
                None => None,
            },
            spans: wire_spans(r.1@),
        }),
{
    (group.scope.map(|scope| (scope.name, scope.version, scope.attributes)), group.spans)
}

/// The fields of `trace::v1::ResourceSpans` of `opentelemetry_proto` that are read: the attributes
/// of the resource, and the scopes.
#[verifier::external_body]
fn open_resource(entry: spans::ResourceSpans) -> (r: (
    Option<Vec<common::KeyValue>>,
    Vec<spans::ScopeSpans>,
))
    ensures
        wire_resource(entry) == (ResourceSpansModel {
            resource: match r.0 {
                Some(attributes) => Some(wire_keys(attributes@)),
                None => None,
            },
            scope_spans: wire_scopes(r.1@),
        }),
{
    (entry.resource.map(|resource| resource.attributes), entry.scope_spans)
}

/// The field of `ExportTraceServiceRequest` of `opentelemetry_proto`.
#[verifier::external_body]
fn open_request(request: collector::ExportTraceServiceRequest) -> (r: Vec<spans::ResourceSpans>)
    ensures
        wire_request(request) == (TraceModel { resource_spans: wire_resources(r@) }),
{
    request.resource_spans
}

/// The attribute values.
fn read_anys(values: Vec<common::AnyValue>) -> (r: Vec<AttributeValue>)
    ensures
        attribute::any_models(r@) == wire_anys(values@),
    decreases wire_anys(values@),
{
    let mut r: Vec<AttributeValue> = Vec::new();
    let ghost models = wire_anys(values@);
    for value in it: values
        invariant
            models == wire_anys(it.seq()),
            models == wire_anys(values@),
            attribute::any_models(r@) == models.take(it.index()),
    {
        proof {
            assert(models[it.index()] == wire_any(value));
            assert(decreases_to!(models => models[it.index()]));
        }
        let ghost before = r@;
        r.push(read_any(value));
        assert(attribute::any_models(r@) =~= attribute::any_models(before).push(
            models[it.index()],
        ));
        assert(models.take(it.index() + 1) =~= models.take(it.index()).push(models[it.index()]));
    }
    assert(models.take(models.len() as int) =~= models);
    r
}

/// The attribute value.
fn read_any(value: common::AnyValue) -> (r: AttributeValue)
    ensures
        r@ == wire_any(value),
    decreases wire_any(value),
{
    match open_any(value) {
        OpenAny::Text(s) => AttributeValue::StringValue(s),
        OpenAny::Bool(b) => AttributeValue::BoolValue(b),
        OpenAny::Int(n) => AttributeValue::IntValue(n),
        OpenAny::Double(d) => AttributeValue::DoubleValue(d),
        OpenAny::Array(values) => {
            assert(decreases_to!(wire_any(value) => wire_any(value)->Array_0));
            let list: Vec<AttributeValue> = read_anys(values);
            let r: AttributeValue = AttributeValue::ArrayValue(list);
            assert(r@->Array_0 =~= attribute::any_models(list@));
            r
        },
        OpenAny::KeyValues(items) => {
            assert(decreases_to!(wire_any(value) => wire_any(value)->KeyValues_0));
            let list: Vec<Attribute> = read_keys(items);
            let r: AttributeValue = AttributeValue::KvlistValue(list);
            assert(r@->KeyValues_0 =~= attribute::key_models(list@));
            r
        },
        OpenAny::Bytes(bytes) => AttributeValue::BytesValue(bytes),
        OpenAny::Index(n) => AttributeValue::StringValueStrindex(n),
        OpenAny::Unset => AttributeValue::Unset,
    }
}

/// The attributes.
fn read_keys(items: Vec<common::KeyValue>) -> (r: Vec<Attribute>)
    ensures
        attribute::key_models(r@) == wire_keys(items@),
    decreases wire_keys(items@),
{
    let mut r: Vec<Attribute> = Vec::new();
    let ghost models = wire_keys(items@);
    for item in it: items
        invariant
            models == wire_keys(it.seq()),
            models == wire_keys(items@),
            attribute::key_models(r@) == models.take(it.index()),
    {
        let ghost model = models[it.index()];
        assert(model == wire_key(item));
        let (key, value) = open_key(item);
        let value: Option<AttributeValue> = match value {
            Some(value) => {
                proof {
                    assert(decreases_to!(models => models[it.index()]));
                    assert(decreases_to!(model => model.value));
                    assert(decreases_to!(model.value => model.value->0));
                }
                Some(read_any(value))
            },
            None => None,
        };
        let ghost before = r@;
        r.push(Attribute { key, value });
        assert(attribute::key_models(r@) =~= attribute::key_models(before).push(model));
        assert(models.take(it.index() + 1) =~= models.take(it.index()).push(model));
    }
    assert(models.take(models.len() as int) =~= models);
    r
}

/// The spans.
fn read_spans(list: Vec<spans::Span>) -> (r: Vec<TraceSpan>)
    ensures
        trace::span_models(r@) == wire_spans(list@),
{
    let mut r: Vec<TraceSpan> = Vec::new();
    let ghost models = wire_spans(list@);
    for span in it: list
        invariant
            models == wire_spans(it.seq()),
            trace::span_models(r@) == models.take(it.index()),
    {
        let ghost model = models[it.index()];
        assert(model == wire_span(span));
        let (bare, items) = open_span(span);
        let attributes: Vec<Attribute> = read_keys(items);
        let read: TraceSpan = TraceSpan {
            trace_id: bare.trace_id,
            span_id: bare.span_id,
            trace_state: bare.trace_state,
            parent_span_id: bare.parent_span_id,
            name: bare.name,
            kind: bare.kind,
            start_time_unix_nano: bare.start_time_unix_nano,
            end_time_unix_nano: bare.end_time_unix_nano,
            attributes,
            status: bare.status,
        };
        assert(read@ == model);
        let ghost before = r@;
        r.push(read);
        assert(trace::span_models(r@) =~= trace::span_models(before).push(model));
        assert(models.take(it.index() + 1) =~= models.take(it.index()).push(model));
    }
    assert(models.take(models.len() as int) =~= models);
    r
}

/// The scopes with their spans.
fn read_scopes(groups: Vec<spans::ScopeSpans>) -> (r: Vec<ScopeTrace>)
    ensures
        trace::scope_span_models(r@) == wire_scopes(groups@),
{
    let mut r: Vec<ScopeTrace> = Vec::new();
    let ghost models = wire_scopes(groups@);
    for group in it: groups
        invariant
            models == wire_scopes(it.seq()),
            trace::scope_span_models(r@) == models.take(it.index()),
    {
        let ghost model = models[it.index()];
        assert(model == wire_scope(group));
        let (scope, list) = open_scope(group);
        let scope: Option<InstrumentationScope> = match scope {
            Some((name, version, items)) => Some(
                InstrumentationScope { name, version, attributes: read_keys(items) },
            ),
            None => None,
        };
        let read: ScopeTrace = ScopeTrace { scope, spans: read_spans(list) };
        assert(read@ == model);
        let ghost before = r@;
        r.push(read);
        assert(trace::scope_span_models(r@) =~= trace::scope_span_models(before).push(model));
        assert(models.take(it.index() + 1) =~= models.take(it.index()).push(model));
    }
    assert(models.take(models.len() as int) =~= models);
    r
}

/// The request.
fn read_request(request: collector::ExportTraceServiceRequest) -> (r: TraceRequest)
    ensures
        r@ == wire_request(request),
{
    let entries: Vec<spans::ResourceSpans> = open_request(request);
    let mut resource_spans: Vec<ResourceTrace> = Vec::new();
    let ghost models = wire_resources(entries@);
    for entry in it: entries
        invariant
            models == wire_resources(it.seq()),
            trace::resource_span_models(resource_spans@) == models.take(it.index()),
    {
        let ghost model = models[it.index()];
        assert(model == wire_resource(entry));
        let (items, groups) = open_resource(entry);
        let resource: Option<Resource> = match items {
            Some(items) => Some(Resource { attributes: read_keys(items) }),
            None => None,
        };
        let read: ResourceTrace = ResourceTrace { resource, scope_spans: read_scopes(groups) };
        assert(read@ == model);
        let ghost before = resource_spans@;
        resource_spans.push(read);
        assert(trace::resource_span_models(resource_spans@) =~= trace::resource_span_models(
            before,
        ).push(model));
        assert(models.take(it.index() + 1) =~= models.take(it.index()).push(model));
    }
    assert(models.take(models.len() as int) =~= models);
    TraceRequest { resource_spans }
}

/// What `ExportTraceServiceRequest::decode` of `prost` makes of a protobuf body: what the request
/// holds, or the error's message.
pub uninterp spec fn protobuf_request(body: Seq<u8>) -> Result<TraceModel, Seq<char>>;

/// What `serde_json::from_slice` makes of a JSON body as an `ExportTraceServiceRequest`: what the
/// request holds, or the error's message.
pub uninterp spec fn json_request(body: Seq<u8>) -> Result<TraceModel, Seq<char>>;

/// Calls `prost::Message::decode` for `ExportTraceServiceRequest`, and renders its error with
/// `Display`. The result is named by [`protobuf_request`].
#[verifier::external_body]
fn decode_protobuf(body: &[u8]) -> (r: Result<collector::ExportTraceServiceRequest, String>)
    ensures
        match r {
            Ok(request) => protobuf_request(body@) matches Ok(m) && m == wire_request(request),
            Err(message) => protobuf_request(body@) matches Err(m) && m == message@,
        },
{
    collector::ExportTraceServiceRequest::decode(body).map_err(|error| error.to_string())
}

/// Calls `serde_json::from_slice` for `ExportTraceServiceRequest`, and renders its error with
/// `Display`. The result is named by [`json_request`].
#[verifier::external_body]
fn decode_json(body: &[u8]) -> (r: Result<collector::ExportTraceServiceRequest, String>)
    ensures
        match r {
            Ok(request) => json_request(body@) matches Ok(m) && m == wire_request(request),
            Err(message) => json_request(body@) matches Err(m) && m == message@,
        },
{
    serde_json::from_slice(body).map_err(|error| error.to_string())
}

/// What a body holds, or what is wrong with it.
pub open spec fn decoded(encoding: OtlpEncoding, body: Seq<u8>) -> Result<TraceModel, Seq<char>> {
    match encoding {
        OtlpEncoding::Protobuf => protobuf_request(body),
        OtlpEncoding::Json => json_request(body),
    }
}

/// The trace request that a body holds.
pub fn decode_request(encoding: OtlpEncoding, body: &[u8]) -> (r: Result<TraceRequest, OtlpError>)
    ensures
        match r {
            Ok(request) => decoded(encoding, body@) matches Ok(m) && m == request@,
            Err(error) => error matches OtlpError::InvalidPayload(message) && (decoded(
                encoding,
                body@,
            ) matches Err(m) && m == message@),
        },
{
    let outcome: Result<collector::ExportTraceServiceRequest, String> = match encoding {
        OtlpEncoding::Protobuf => decode_protobuf(body),
        OtlpEncoding::Json => decode_json(body),
    };
    match outcome {
        Ok(request) => Ok(read_request(request)),
        Err(message) => Err(OtlpError::InvalidPayload(message)),
    }
}

/// A number in base 128, least significant digit first, with the high bit set on all digits but
/// the last.
pub open spec fn varint(n: nat) -> Seq<u8>
    decreases n,
{
    if n < 128 {
        seq![n as u8]
    } else {
        seq![(n % 128 + 128) as u8] + varint(n / 128)
    }
}

/// A signed number as the unsigned 64-bit number with the same bits.
pub open spec fn unsigned_bits(n: int) -> nat {
    if n < 0 {
        (n + 0x1_0000_0000_0000_0000) as nat
    } else {
        n as nat
    }
}

/// A protobuf field with a number.
pub open spec fn number_field(tag: nat, n: int) -> Seq<u8> {
    varint(tag * 8) + varint(unsigned_bits(n))
}

/// A protobuf field with bytes.
pub open spec fn bytes_field(tag: nat, bytes: Seq<u8>) -> Seq<u8> {
    varint(tag * 8 + 2) + varint(bytes.len()) + bytes
}

/// A protobuf message with a number in the first field and a text in the second; zero and the
/// empty text are left out.
pub open spec fn number_and_text(n: int, s: Seq<char>) -> Seq<u8> {
    (if n == 0 {
        Seq::empty()
    } else {
        number_field(1, n)
    }) + (if s.len() == 0 {
        Seq::empty()
    } else {
        bytes_field(2, vstd::utf8::encode_utf8(s))
    })
}

/// Calls `prost::encoding::int32::encode`: appends the field's key and the number as a varint.
#[verifier::external_body]
fn put_int32(tag: u32, n: i32, buffer: &mut Vec<u8>)
    requires
        1 <= tag < 0x2000_0000,
    ensures
        final(buffer)@ == old(buffer)@ + number_field(tag as nat, n as int),
{
    prost::encoding::int32::encode(tag, &n, buffer)
}

/// Calls `prost::encoding::string::encode`: appends the field's key, the length and the UTF-8
/// bytes of the text.
#[verifier::external_body]
fn put_string(tag: u32, s: &String, buffer: &mut Vec<u8>)
    requires
        1 <= tag < 0x2000_0000,
    ensures
        final(buffer)@ == old(buffer)@ + bytes_field(tag as nat, vstd::utf8::encode_utf8(s@)),
{
    prost::encoding::string::encode(tag, s, buffer)
}

/// The protobuf message `ExportTraceServiceResponse` with the given partial success.
pub open spec fn protobuf_response(partial: Option<(int, Seq<char>)>) -> Seq<u8> {
    match partial {
        Some((rejected, message)) => bytes_field(1, number_and_text(rejected, message)),
        None => Seq::empty(),
    }
}

/// A partial success: how many spans were refused, and what is said of them.
struct Partial {
    rejected_spans: i64,
    error_message: String,
}

/// What a partial success holds.
spec fn partial_model(partial: Option<Partial>) -> Option<(int, Seq<char>)> {
    match partial {
        Some(partial) => Some((partial.rejected_spans as int, partial.error_message@)),
        None => None,
    }
}

/// Calls `prost::Message::encode_to_vec` for `ExportTraceServiceResponse`: the message in field
/// one where there is a partial success, with its fields one and two unless they are zero or empty.
#[verifier::external_body]
fn encode_protobuf_response(partial: Option<Partial>) -> (r: Vec<u8>)
    ensures
        r@ == protobuf_response(partial_model(partial)),
{
    let partial_success = partial.map(
        |partial| collector::ExportTracePartialSuccess {
            rejected_spans: partial.rejected_spans,
            error_message: partial.error_message,
        },
    );
    collector::ExportTraceServiceResponse { partial_success }.encode_to_vec()
}

/// There is something to say: refused spans, or a message.
pub open spec fn is_partial(rejected_spans: int, error_message: Seq<char>) -> bool {
    rejected_spans > 0 || error_message.len() > 0
}

/// The JSON of a response with a partial success.
pub open spec fn partial_json(rejected_spans: int, error_message: Seq<char>) -> Json {
    Json::Object(
        json::no_members().insert(
            "partialSuccess"@,
            Json::Object(
                json::no_members().insert(
                    "rejectedSpans"@,
                    Json::Str(number::integer(rejected_spans)),
                ).insert("errorMessage"@, Json::Str(error_message)),
            ),
        ),
    )
}

/// The bytes of a response.
pub open spec fn response_bytes(
    encoding: OtlpEncoding,
    rejected_spans: int,
    error_message: Seq<char>,
) -> Seq<u8> {
    match encoding {
        OtlpEncoding::Protobuf => protobuf_response(
            if is_partial(rejected_spans, error_message) {
                Some((rejected_spans, error_message))
            } else {
                None
            },
        ),
        OtlpEncoding::Json => if is_partial(rejected_spans, error_message) {
            vstd::utf8::encode_utf8(json::json_text(partial_json(rejected_spans, error_message)))
        } else {
            seq![0x7b, 0x7d]
        },
    }
}

/// The body of a response: a partial success where spans were refused or there is a message, else
/// an empty message.
pub fn encode_response(
    encoding: OtlpEncoding,
    rejected_spans: i64,
    error_message: String,
) -> (r: Result<Vec<u8>, OtlpError>)
    ensures
        r matches Ok(body) && body@ == response_bytes(
            encoding,
            rejected_spans as int,
            error_message@,
        ),
{
    let partial: bool = rejected_spans > 0 || !error_message.as_str().is_empty();
    match encoding {
        OtlpEncoding::Protobuf => Ok(
            encode_protobuf_response(
                if partial {
                    Some(Partial { rejected_spans, error_message })
                } else {
                    None
                },
            ),
        ),
        OtlpEncoding::Json => if partial {
            let mut inner: serde_json::Map<String, serde_json::Value> = json::no_entries();
            json::insert_entry(
                &mut inner,
                "rejectedSpans".to_owned(),
                json::json_string(number::integer_text(rejected_spans)),
            );
            json::insert_entry(
                &mut inner,
                "errorMessage".to_owned(),
                json::json_string(error_message),
            );
            let mut outer: serde_json::Map<String, serde_json::Value> = json::no_entries();
            json::insert_entry(
                &mut outer,
                "partialSuccess".to_owned(),
                json::json_object(inner),
            );
            match json::encode_json(&json::json_object(outer)) {
                Ok(body) => Ok(body),
                Err(message) => Err(OtlpError::ResponseEncoding(message)),
            }
        } else {
            Ok(vec![0x7b, 0x7d])
        },
    }
}

/// The JSON of an error status.
pub open spec fn error_json(code: int, message: Seq<char>) -> Json {
    Json::Object(
        json::no_members().insert("code"@, Json::Int(code)).insert("message"@, Json::Str(message)),
    )
}

/// The bytes of an error status.
pub open spec fn error_bytes(encoding: OtlpEncoding, code: int, message: Seq<char>) -> Seq<u8> {
    match encoding {
        OtlpEncoding::Protobuf => number_and_text(code, message),
        OtlpEncoding::Json => vstd::utf8::encode_utf8(json::json_text(error_json(code, message))),
    }
}

/// The body of an error status: a protobuf `google.rpc.Status`, or its JSON.
pub fn encode_error(encoding: OtlpEncoding, code: i32, message: &str) -> (r: Result<
    Vec<u8>,
    OtlpError,
>)
    ensures
        r matches Ok(body) && body@ == error_bytes(encoding, code as int, message@),
{
    match encoding {
        OtlpEncoding::Protobuf => {
            let mut body: Vec<u8> = Vec::new();
            if code != 0 {
                put_int32(1, code, &mut body);
            }
            if !message.is_empty() {
                put_string(2, &message.to_owned(), &mut body);
            }
            assert(body@ =~= number_and_text(code as int, message@));
            Ok(body)
        },
        OtlpEncoding::Json => {
            let mut entries: serde_json::Map<String, serde_json::Value> = json::no_entries();
            json::insert_entry(&mut entries, "code".to_owned(), json::json_int(code as i64));
            json::insert_entry(
                &mut entries,
                "message".to_owned(),
                json::json_string(message.to_owned()),
            );
            match json::encode_json(&json::json_object(entries)) {
                Ok(body) => Ok(body),
                Err(message) => Err(OtlpError::ResponseEncoding(message)),
            }
        },
    }
}

/// A number can be told from what follows it.
proof fn lemma_varint_prefix(a: nat, b: nat, x: Seq<u8>, y: Seq<u8>)
    requires
        varint(a) + x == varint(b) + y,
    ensures
        a == b,
        x == y,
    decreases a,
{
    let p = varint(a) + x;
    let q = varint(b) + y;
    assert(p[0] == varint(a)[0]);
    assert(q[0] == varint(b)[0]);
    if a < 128 {
        assert(b < 128);
        assert(x =~= p.skip(1));
        assert(y =~= q.skip(1));
    } else {
        assert(b >= 128);
        assert(a % 128 == b % 128);
        assert(varint(a / 128) + x =~= p.skip(1));
        assert(varint(b / 128) + y =~= q.skip(1));
        lemma_varint_prefix(a / 128, b / 128, x, y);
    }
}

/// The bytes of a field can be told from what stands around them.
proof fn lemma_bytes_field(tag: nat, x: Seq<u8>, y: Seq<u8>)
    requires
        bytes_field(tag, x) == bytes_field(tag, y),
    ensures
        x == y,
{
    let key = tag * 8 + 2;
    assert(bytes_field(tag, x) =~= varint(key) + (varint(x.len()) + x));
    assert(bytes_field(tag, y) =~= varint(key) + (varint(y.len()) + y));
    lemma_varint_prefix(key, key, varint(x.len()) + x, varint(y.len()) + y);
    lemma_varint_prefix(x.len(), y.len(), x, y);
}

/// A message with a number and a text holds both: different ones are written differently.
pub proof fn messages_keep_number_and_text(n: int, s: Seq<char>, m: int, t: Seq<char>)
    requires
        i64::MIN <= n <= i64::MAX,
        i64::MIN <= m <= i64::MAX,
        number_and_text(n, s) == number_and_text(m, t),
    ensures
        n == m,
        s == t,
{
    let p = number_and_text(n, s);
    let q = number_and_text(m, t);
    let a = if s.len() == 0 {
        Seq::<u8>::empty()
    } else {
        bytes_field(2, vstd::utf8::encode_utf8(s))
    };
    let b = if t.len() == 0 {
        Seq::<u8>::empty()
    } else {
        bytes_field(2, vstd::utf8::encode_utf8(t))
    };
    assert(varint(8) =~= seq![8u8]);
    assert(varint(18) =~= seq![18u8]);
    assert(s.len() > 0 ==> a.len() > 0 && a[0] == 18);
    assert(t.len() > 0 ==> b.len() > 0 && b[0] == 18);
    assert(n != 0 ==> p.len() > 0 && p[0] == 8);
    assert(m != 0 ==> q.len() > 0 && q[0] == 8);
    assert(n == 0 ==> p =~= a);
    assert(m == 0 ==> q =~= b);
    if n != 0 && m != 0 {
        assert(p =~= varint(8) + (varint(unsigned_bits(n)) + a));
        assert(q =~= varint(8) + (varint(unsigned_bits(m)) + b));
        lemma_varint_prefix(8, 8, varint(unsigned_bits(n)) + a, varint(unsigned_bits(m)) + b);
        lemma_varint_prefix(unsigned_bits(n), unsigned_bits(m), a, b);
    }
    assert(n == m);
    assert(a == b);
    if s.len() > 0 && t.len() > 0 {
        lemma_bytes_field(2, vstd::utf8::encode_utf8(s), vstd::utf8::encode_utf8(t));
        text::lemma_same_bytes(s, t);
    } else {
        assert(s =~= t);
    }
}

/// A protobuf response holds what it says of the refused spans: whether it says anything, how many
/// were refused and with what message. Different responses are written differently.
pub proof fn protobuf_responses_can_be_read_back(
    one: Option<(int, Seq<char>)>,
    other: Option<(int, Seq<char>)>,
)
    requires
        one matches Some(partial) ==> i64::MIN <= partial.0 <= i64::MAX,
        other matches Some(partial) ==> i64::MIN <= partial.0 <= i64::MAX,
        protobuf_response(one) == protobuf_response(other),
    ensures
        one == other,
{
    assert(varint(10) =~= seq![10u8]);
    assert(one is Some ==> protobuf_response(one).len() > 0);
    assert(other is Some ==> protobuf_response(other).len() > 0);
    if let (Some(a), Some(b)) = (one, other) {
        lemma_bytes_field(1, number_and_text(a.0, a.1), number_and_text(b.0, b.1));
        messages_keep_number_and_text(a.0, a.1, b.0, b.1);
    }
}

/// The number of refused spans and the message can be read back from the body of a protobuf answer
/// wherever it says anything, and it says nothing exactly where it is empty.
pub proof fn protobuf_answers_keep_the_outcome(
    rejected: i64,
    message: Seq<char>,
    other_rejected: i64,
    other_message: Seq<char>,
)
    ensures
        ({
            let body = response_bytes(OtlpEncoding::Protobuf, rejected as int, message);
            let other = response_bytes(
                OtlpEncoding::Protobuf,
                other_rejected as int,
                other_message,
            );
            &&& body.len() == 0 <==> !is_partial(rejected as int, message)
            &&& body == other && body.len() > 0 ==> rejected == other_rejected && message
                == other_message
        }),
{
    let body = response_bytes(OtlpEncoding::Protobuf, rejected as int, message);
    let other = response_bytes(OtlpEncoding::Protobuf, other_rejected as int, other_message);
    assert(varint(10) =~= seq![10u8]);
    if body == other && body.len() > 0 {
        protobuf_responses_can_be_read_back(
            Some((rejected as int, message)),
            Some((other_rejected as int, other_message)),
        );
    }
}

/// A response says nothing where no span was refused and there is no message: it is empty, or an
/// empty object. Else it says both the number of refused spans and the message.
pub proof fn a_response_says_what_was_refused(
    encoding: OtlpEncoding,
    rejected_spans: i64,
    error_message: String,
    r: Result<Vec<u8>, OtlpError>,
)
    requires
        call_ensures(encode_response, (encoding, rejected_spans, error_message), r),
    ensures
        r is Ok,
        rejected_spans <= 0 && error_message@.len() == 0 && encoding == OtlpEncoding::Protobuf
            ==> r->Ok_0@ == Seq::<u8>::empty(),
        rejected_spans <= 0 && error_message@.len() == 0 && encoding == OtlpEncoding::Json
            ==> r->Ok_0@ == seq![0x7bu8, 0x7du8],
        (rejected_spans > 0 || error_message@.len() > 0) && encoding == OtlpEncoding::Protobuf
            ==> r->Ok_0@ == protobuf_response(Some((rejected_spans as int, error_message@))),
        (rejected_spans > 0 || error_message@.len() > 0) && encoding == OtlpEncoding::Json ==> {
            let inner = Map::<Seq<char>, Json>::empty().insert(
                "rejectedSpans"@,
                Json::Str(number::integer(rejected_spans as int)),
            ).insert("errorMessage"@, Json::Str(error_message@));
            r->Ok_0@ == vstd::utf8::encode_utf8(
                json::json_text(
                    Json::Object(
                        Map::<Seq<char>, Json>::empty().insert(
                            "partialSuccess"@,
                            Json::Object(inner),
                        ),
                    ),
                ),
            )
        },
{
}

/// An error body has the code and the message: as a protobuf message with the code in its first and
/// the message in its second field, or as a JSON object.
pub proof fn an_error_body_has_code_and_message(
    encoding: OtlpEncoding,
    code: i32,
    message: &str,
    r: Result<Vec<u8>, OtlpError>,
)
    requires
        call_ensures(encode_error, (encoding, code, message), r),
    ensures
        r is Ok,
        encoding == OtlpEncoding::Json ==> r->Ok_0@ == vstd::utf8::encode_utf8(
            json::json_text(
                Json::Object(
                    Map::<Seq<char>, Json>::empty().insert("code"@, Json::Int(code as int)).insert(
                        "message"@,
                        Json::Str(message@),
                    ),
                ),
            ),
        ),
        encoding == OtlpEncoding::Protobuf ==> r->Ok_0@ == (if code == 0 {
            Seq::empty()
        } else {
            number_field(1, code as int)
        }) + (if message@.len() == 0 {
            Seq::empty()
        } else {
            bytes_field(2, vstd::utf8::encode_utf8(message@))
        }),
{
}

/// A body is read in its own encoding, and what cannot be read is an invalid payload.
pub proof fn a_body_is_read_in_its_encoding(
    encoding: OtlpEncoding,
    body: &[u8],
    r: Result<TraceRequest, OtlpError>,
)
    requires
        call_ensures(decode_request, (encoding, body), r),
    ensures
        encoding == OtlpEncoding::Protobuf && protobuf_request(body@) is Ok ==> r is Ok && r->Ok_0@
            == protobuf_request(body@)->Ok_0,
        encoding == OtlpEncoding::Json && json_request(body@) is Ok ==> r is Ok && r->Ok_0@
            == json_request(body@)->Ok_0,
        encoding == OtlpEncoding::Protobuf && protobuf_request(body@) is Err ==> r is Err
            && r->Err_0 is InvalidPayload && r->Err_0->InvalidPayload_0@ == protobuf_request(
            body@,
        )->Err_0,
        encoding == OtlpEncoding::Json && json_request(body@) is Err ==> r is Err
            && r->Err_0 is InvalidPayload && r->Err_0->InvalidPayload_0@ == json_request(
            body@,
        )->Err_0,
{
}

/// A protobuf field begins with its number and the kind of its content, and a number is written in
/// groups of seven bits, the lowest first, with the high bit set on all but the last.
pub proof fn protobuf_fields_are_framed(tag: nat, n: int, bytes: Seq<u8>, low: nat, high: nat)
    requires
        low < 128,
    ensures
        varint(low) == seq![low as u8],
        high > 0 ==> varint(128 * high + low) == seq![(low + 128) as u8] + varint(high),
        bytes_field(tag, bytes) == varint(8 * tag + 2) + varint(bytes.len()) + bytes,
        0 <= n ==> number_field(tag, n) == varint(8 * tag) + varint(n as nat),
        -0x8000_0000_0000_0000 <= n < 0 ==> number_field(tag, n) == varint(8 * tag) + varint(
            (n + 0x1_0000_0000_0000_0000) as nat,
        ),
        protobuf_response(None) == Seq::<u8>::empty(),
{
    assert((128 * high + low) % 128 == low);
    assert((128 * high + low) / 128 == high);
}

} // verus!
