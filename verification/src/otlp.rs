//! OTLP traces: from spans to observations.
use crate::attribute;
use crate::attribute::{Attribute, KeyModel};
use crate::durable;
use crate::durable::RowView;
use crate::identity;
use crate::number;
use crate::observation::{
    Attributes, Observation, ObservationKind, ObservationStatus, ObservationView, TenantId,
    MAX_DURATION_MS,
};
use crate::ordered;
use crate::ordered::OrderedMap;
use crate::text;
use crate::trace;
use crate::trace::{
    InstrumentationScope, PlacedSpan, ResourceSpansModel, ResourceTrace, ScopeModel, ScopeSpansModel,
    ScopeTrace, SpanModel, TraceRequest, TraceSpan,
};
use vstd::prelude::*;
use vstd::string::StringExecFns;

verus! {

/// The namespace of the ids of observations that come from spans.
pub const OBSERVATION_NAMESPACE: u128 = 0x72a1b31d_1ea6_43b5_98ec_111cd8c25642;

/// The code of a span status that stands for an error.
pub const STATUS_CODE_ERROR: i32 = 2;

/// How an OTLP body is encoded.
#[derive(Debug, Clone, Copy, PartialEq, Eq, Structural)]
pub enum OtlpEncoding {
    Protobuf,
    Json,
}

/// Why an OTLP exchange failed.
#[derive(Debug, PartialEq, Eq)]
pub enum OtlpError {
    UnsupportedContentType,
    InvalidPayload(String),
    ResponseEncoding(String),
}

impl OtlpError {
    /// What the error says.
    pub open spec fn says(&self) -> Seq<char> {
        match self {
            OtlpError::UnsupportedContentType =>
                "content-type must be application/x-protobuf or application/json"@,
            OtlpError::InvalidPayload(detail) => "invalid OTLP trace payload: "@ + detail@,
            OtlpError::ResponseEncoding(detail) => "cannot encode OTLP response: "@ + detail@,
        }
    }

    /// The error as a message.
    pub fn message(&self) -> (r: String)
        ensures
            r@ == self.says(),
    {
        match self {
            OtlpError::UnsupportedContentType =>
                "content-type must be application/x-protobuf or application/json".to_owned(),
            OtlpError::InvalidPayload(detail) => {
                let mut r: String = "invalid OTLP trace payload: ".to_owned();
                r.append(detail.as_str());
                r
            },
            OtlpError::ResponseEncoding(detail) => {
                let mut r: String = "cannot encode OTLP response: ".to_owned();
                r.append(detail.as_str());
                r
            },
        }
    }
}

/// The media type of a content type: what stands before the first semicolon, without white space
/// around it, in lower case.
pub open spec fn media_type(content_type: Seq<char>) -> Seq<char> {
    text::lowered(text::trimmed(content_type.take(text::mark_at(content_type, ';'))))
}

impl OtlpEncoding {
    /// The encoding of a media type.
    pub open spec fn of_media_type(media: Seq<char>) -> Option<OtlpEncoding> {
        if media == "application/x-protobuf"@ {
            Some(OtlpEncoding::Protobuf)
        } else if media == "application/json"@ {
            Some(OtlpEncoding::Json)
        } else {
            None
        }
    }

    /// The encoding that a content-type header names.
    pub fn from_content_type(content_type: Option<&str>) -> (r: Result<Self, OtlpError>)
        ensures
            match r {
                Ok(encoding) => content_type matches Some(s) && Self::of_media_type(media_type(s@))
                    == Some(encoding),
                Err(error) => error == OtlpError::UnsupportedContentType && match content_type {
                    Some(s) => Self::of_media_type(media_type(s@)) is None,
                    None => true,
                },
            },
    {
        match content_type {
            Some(s) => {
                let front: String = match text::split_once(s, ';') {
                    Some((front, _)) => front,
                    None => s.to_owned(),
                };
                proof {
                    text::lemma_mark_at(s@, ';');
                    assert(s@.take(s@.len() as int) =~= s@);
                }
                assert(front@ == s@.take(text::mark_at(s@, ';')));
                let media: String = text::lowercase(text::trim(front.as_str()));
                if text::same(media.as_str(), "application/x-protobuf") {
                    Ok(OtlpEncoding::Protobuf)
                } else if text::same(media.as_str(), "application/json") {
                    Ok(OtlpEncoding::Json)
                } else {
                    Err(OtlpError::UnsupportedContentType)
                }
            },
            None => Err(OtlpError::UnsupportedContentType),
        }
    }

    /// The name of the encoding in a content-type header.
    pub open spec fn media(self) -> Seq<char> {
        match self {
            OtlpEncoding::Protobuf => "application/x-protobuf"@,
            OtlpEncoding::Json => "application/json"@,
        }
    }

    /// The name of the encoding in a content-type header.
    pub fn content_type(self) -> (r: &'static str)
        ensures
            r@ == self.media(),
    {
        match self {
            OtlpEncoding::Protobuf => "application/x-protobuf",
            OtlpEncoding::Json => "application/json",
        }
    }
}

/// A text of lower-case letters, hyphens and slashes is its own media type.
proof fn lemma_plain_media_type(s: Seq<char>)
    requires
        s.len() > 0,
        forall|i: int|
            0 <= i < s.len() ==> {
                let c = #[trigger] s[i];
                'a' <= c <= 'z' || c == '-' || c == '/'
            },
    ensures
        media_type(s) == s,
{
    text::lemma_mark_at(s, ';');
    assert(text::mark_at(s, ';') == s.len()) by {
        if text::mark_at(s, ';') < s.len() {
            assert(s[text::mark_at(s, ';')] == ';');
        }
    }
    assert(s.take(s.len() as int) =~= s);
    assert(!text::white(s[0]) && !text::white(s.last()));
    assert(text::trimmed(s) == s);
    assert(text::lowered(s) =~= s);
}

/// Reading the content type that names an encoding gives that encoding back.
pub proof fn content_type_round_trips(encoding: OtlpEncoding)
    ensures
        OtlpEncoding::of_media_type(media_type(encoding.media())) == Some(encoding),
{
    reveal_strlit("application/x-protobuf");
    reveal_strlit("application/json");
    lemma_plain_media_type(encoding.media());
    assert("application/x-protobuf"@.len() == 22 && "application/json"@.len() == 16);
}

/// An identifier of the right length that is not all zeros.
pub open spec fn identifies(value: Seq<u8>, length: nat) -> bool {
    value.len() == length && exists|i: int| 0 <= i < value.len() && value[i] != 0
}

/// Whether `value` is an identifier of the right length that is not all zeros.
pub fn valid_identifier(value: &[u8], expected_length: usize) -> (r: bool)
    ensures
        r == identifies(value@, expected_length as nat),
{
    if value.len() != expected_length {
        return false;
    }
    let mut i: usize = 0;
    while i < value.len()
        invariant
            i <= value.len() == expected_length,
            forall|j: int| 0 <= j < i ==> value@[j] == 0,
        decreases value.len() - i,
    {
        if value[i] != 0 {
            return true;
        }
        i += 1;
    }
    false
}

/// The name of a span kind; numbers without a meaning are unspecified.
pub open spec fn kind_name(kind: i32) -> Seq<char> {
    if kind == 1 {
        "internal"@
    } else if kind == 2 {
        "server"@
    } else if kind == 3 {
        "client"@
    } else if kind == 4 {
        "producer"@
    } else if kind == 5 {
        "consumer"@
    } else {
        "unspecified"@
    }
}

/// The name of a span kind.
pub fn span_kind_name(kind: i32) -> (r: &'static str)
    ensures
        r@ == kind_name(kind),
{
    if kind == 1 {
        "internal"
    } else if kind == 2 {
        "server"
    } else if kind == 3 {
        "client"
    } else if kind == 4 {
        "producer"
    } else if kind == 5 {
        "consumer"
    } else {
        "unspecified"
    }
}

/// The attribute has the value, whatever the case of its ASCII letters.
pub open spec fn says_that(
    attributes: Map<Seq<char>, Seq<char>>,
    key: Seq<char>,
    word: Seq<char>,
) -> bool {
    attributes.contains_key(key) && text::lowered(attributes[key]) == word
}

/// An attribute that only HTTP work has.
pub open spec fn http_key(key: Seq<char>) -> bool {
    "http."@.is_prefix_of(key) || "url."@.is_prefix_of(key) || key == "server.address"@
}

/// The kind of work that attributes tell of. An explicit kind wins; else an agent comes before a
/// tool, a tool before a model, a model before HTTP, and anything else is a workflow.
pub open spec fn classified(attributes: Map<Seq<char>, Seq<char>>) -> ObservationKind {
    let explicit = "observability.kind"@;
    let inference = "openinference.span.kind"@;
    let operation = "gen_ai.operation.name"@;
    if says_that(attributes, explicit, "agent"@) {
        ObservationKind::Agent
    } else if says_that(attributes, explicit, "tool"@) {
        ObservationKind::Tool
    } else if says_that(attributes, explicit, "model"@) {
        ObservationKind::Model
    } else if says_that(attributes, explicit, "http"@) {
        ObservationKind::Http
    } else if says_that(attributes, explicit, "workflow"@) {
        ObservationKind::Workflow
    } else if attributes.contains_key("gen_ai.agent.name"@) || says_that(
        attributes,
        inference,
        "agent"@,
    ) || says_that(attributes, operation, "invoke_agent"@) {
        ObservationKind::Agent
    } else if attributes.contains_key("gen_ai.tool.name"@) || says_that(
        attributes,
        inference,
        "tool"@,
    ) || says_that(attributes, operation, "execute_tool"@) {
        ObservationKind::Tool
    } else if attributes.contains_key("gen_ai.request.model"@) || attributes.contains_key(
        "gen_ai.response.model"@,
    ) || attributes.contains_key("gen_ai.system"@) || says_that(attributes, inference, "llm"@) {
        ObservationKind::Model
    } else if exists|key: Seq<char>| #[trigger] attributes.contains_key(key) && http_key(key) {
        ObservationKind::Http
    } else {
        ObservationKind::Workflow
    }
}

/// Whether there is an attribute of that name.
fn has(attributes: &Attributes, key: &str) -> (r: bool)
    ensures
        r == attributes@.contains_key(key@),
{
    attributes.contains_key(&key.to_owned())
}

/// Whether the attribute has the value, whatever the case of its ASCII letters.
fn tells(attributes: &Attributes, key: &str, word: &str) -> (r: bool)
    ensures
        r == says_that(attributes@, key@, word@),
{
    match attributes.get(&key.to_owned()) {
        Some(value) => text::same(text::lowercase(value.as_str()).as_str(), word),
        None => false,
    }
}

/// Whether there is an attribute that only HTTP work has.
fn has_http_key(attributes: &Attributes) -> (r: bool)
    ensures
        r == exists|key: Seq<char>| #[trigger] attributes@.contains_key(key) && http_key(key),
{
    let n: usize = attributes.len();
    let mut i: usize = 0;
    while i < n
        invariant
            i <= n == attributes.keys().len(),
            attributes@.dom() == attributes.keys().to_set(),
            forall|j: int| 0 <= j < i ==> !http_key(#[trigger] attributes.keys()[j]),
        decreases n - i,
    {
        let (key, _) = attributes.entry(i);
        let k: &str = key.as_str();
        if text::starts_with(k, "http.") || text::starts_with(k, "url.") || text::same(
            k,
            "server.address",
        ) {
            assert(attributes@.contains_key(k@) && http_key(k@));
            return true;
        }
        i += 1;
    }
    assert forall|key: Seq<char>| #[trigger] attributes@.contains_key(key) implies !http_key(
        key,
    ) by {
        assert(attributes.keys().to_set().contains(key));
        let j = choose|j: int| 0 <= j < attributes.keys().len() && attributes.keys()[j] == key;
        assert(!http_key(attributes.keys()[j]));
    }
    false
}

/// The kind of work that attributes tell of.
pub fn classify_observation(attributes: &Attributes) -> (r: ObservationKind)
    ensures
        r == classified(attributes@),
{
    let explicit: &str = "observability.kind";
    let inference: &str = "openinference.span.kind";
    let operation: &str = "gen_ai.operation.name";
    if tells(attributes, explicit, "agent") {
        ObservationKind::Agent
    } else if tells(attributes, explicit, "tool") {
        ObservationKind::Tool
    } else if tells(attributes, explicit, "model") {
        ObservationKind::Model
    } else if tells(attributes, explicit, "http") {
        ObservationKind::Http
    } else if tells(attributes, explicit, "workflow") {
        ObservationKind::Workflow
    } else if has(attributes, "gen_ai.agent.name") || tells(attributes, inference, "agent")
        || tells(attributes, operation, "invoke_agent") {
        ObservationKind::Agent
    } else if has(attributes, "gen_ai.tool.name") || tells(attributes, inference, "tool") || tells(
        attributes,
        operation,
        "execute_tool",
    ) {
        ObservationKind::Tool
    } else if has(attributes, "gen_ai.request.model") || has(attributes, "gen_ai.response.model")
        || has(attributes, "gen_ai.system") || tells(attributes, inference, "llm") {
        ObservationKind::Model
    } else if has_http_key(attributes) {
        ObservationKind::Http
    } else {
        ObservationKind::Workflow
    }
}

/// Why a span was refused. The variants stand in the order of their reasons.
#[derive(Debug, Clone, Copy, PartialEq, Eq, Structural)]
pub enum SpanRejection {
    DurationTooLong,
    EmptyName,
    EndBeforeStart,
    InvalidSpanId,
    InvalidTraceId,
}

/// The number of reasons.
pub const REJECTIONS: usize = 5;

impl SpanRejection {
    /// The reason in words.
    pub open spec fn says(self) -> Seq<char> {
        match self {
            SpanRejection::DurationTooLong => "duration exceeds ingestion limit"@,
            SpanRejection::EmptyName => "empty span name"@,
            SpanRejection::EndBeforeStart => "end time precedes start time"@,
            SpanRejection::InvalidSpanId => "invalid span_id"@,
            SpanRejection::InvalidTraceId => "invalid trace_id"@,
        }
    }

    /// The reason in words.
    pub fn reason(self) -> (r: &'static str)
        ensures
            r@ == self.says(),
    {
        match self {
            SpanRejection::DurationTooLong => "duration exceeds ingestion limit",
            SpanRejection::EmptyName => "empty span name",
            SpanRejection::EndBeforeStart => "end time precedes start time",
            SpanRejection::InvalidSpanId => "invalid span_id",
            SpanRejection::InvalidTraceId => "invalid trace_id",
        }
    }

    /// The reason at a position of the order.
    pub open spec fn nth(i: int) -> SpanRejection {
        if i == 0 {
            SpanRejection::DurationTooLong
        } else if i == 1 {
            SpanRejection::EmptyName
        } else if i == 2 {
            SpanRejection::EndBeforeStart
        } else if i == 3 {
            SpanRejection::InvalidSpanId
        } else {
            SpanRejection::InvalidTraceId
        }
    }

    /// The reason at a position of the order.
    fn at(i: usize) -> (r: SpanRejection)
        requires
            i < REJECTIONS,
        ensures
            r == Self::nth(i as int),
    {
        if i == 0 {
            SpanRejection::DurationTooLong
        } else if i == 1 {
            SpanRejection::EmptyName
        } else if i == 2 {
            SpanRejection::EndBeforeStart
        } else if i == 3 {
            SpanRejection::InvalidSpanId
        } else {
            SpanRejection::InvalidTraceId
        }
    }

    /// The position of the reason in the order.
    fn rank(self) -> (r: usize)
        ensures
            r < REJECTIONS,
            self == Self::nth(r as int),
    {
        match self {
            SpanRejection::DurationTooLong => 0,
            SpanRejection::EmptyName => 1,
            SpanRejection::EndBeforeStart => 2,
            SpanRejection::InvalidSpanId => 3,
            SpanRejection::InvalidTraceId => 4,
        }
    }
}

/// The reasons are listed in the lexicographic order of their words.
pub proof fn rejections_are_in_text_order(i: int, j: int)
    requires
        0 <= i < j < REJECTIONS,
    ensures
        ordered::text_before(SpanRejection::nth(i).says(), SpanRejection::nth(j).says()),
{
    reveal_strlit("duration exceeds ingestion limit");
    reveal_strlit("empty span name");
    reveal_strlit("end time precedes start time");
    reveal_strlit("invalid span_id");
    reveal_strlit("invalid trace_id");
    reveal_with_fuel(ordered::text_before, 10);
}

impl SpanModel {
    /// The duration of the span in whole milliseconds.
    pub open spec fn duration_ms(self) -> int {
        (self.end_time_unix_nano - self.start_time_unix_nano) / 1_000_000
    }

    /// Why the span is refused, if it is: the first of the reasons that apply.
    pub open spec fn rejection(self) -> Option<SpanRejection> {
        if !identifies(self.trace_id, 16) {
            Some(SpanRejection::InvalidTraceId)
        } else if !identifies(self.span_id, 8) {
            Some(SpanRejection::InvalidSpanId)
        } else if text::blank(self.name) {
            Some(SpanRejection::EmptyName)
        } else if self.end_time_unix_nano < self.start_time_unix_nano {
            Some(SpanRejection::EndBeforeStart)
        } else if self.duration_ms() > MAX_DURATION_MS {
            Some(SpanRejection::DurationTooLong)
        } else {
            None
        }
    }

    /// Whether the status of the span is an error.
    pub open spec fn outcome(self) -> ObservationStatus {
        match self.status {
            Some(status) if status.code == STATUS_CODE_ERROR => ObservationStatus::Error,
            _ => ObservationStatus::Okay,
        }
    }

    /// The id of the observation of a span: the same for the same tenant, trace and span.
    pub open spec fn observation_id(self, tenant_id: TenantId) -> u128 {
        identity::name_based_id(
            OBSERVATION_NAMESPACE,
            identity::id_bytes(tenant_id.0) + self.trace_id + self.span_id,
        )
    }
}

/// The attributes with those of `items` added under `prefix`, in order; items without a name or
/// without a value are left out.
pub open spec fn with_items(
    attributes: Map<Seq<char>, Seq<char>>,
    items: Seq<KeyModel>,
    prefix: Seq<char>,
) -> Map<Seq<char>, Seq<char>>
    decreases items.len(),
{
    if items.len() == 0 {
        attributes
    } else {
        let before = with_items(attributes, items.drop_last(), prefix);
        match items.last().value {
            Some(value) if items.last().key.len() > 0 => before.insert(
                prefix + items.last().key,
                attribute::any_text(value),
            ),
            _ => before,
        }
    }
}

/// The attributes with one more, unless its value is empty.
pub open spec fn with_text(
    attributes: Map<Seq<char>, Seq<char>>,
    key: Seq<char>,
    value: Seq<char>,
) -> Map<Seq<char>, Seq<char>> {
    if value.len() > 0 {
        attributes.insert(key, value)
    } else {
        attributes
    }
}

/// The attributes with those of the scope.
pub open spec fn with_scope(
    attributes: Map<Seq<char>, Seq<char>>,
    scope: Option<ScopeModel>,
) -> Map<Seq<char>, Seq<char>> {
    match scope {
        Some(scope) => with_items(
            with_text(
                with_text(attributes, "otel.scope.name"@, scope.name),
                "otel.scope.version"@,
                scope.version,
            ),
            scope.attributes,
            "scope."@,
        ),
        None => attributes,
    }
}

impl PlacedSpan {
    /// The attributes of the observation of a span: those of the resource, of the scope and of the
    /// span, and what the span says of its parent, its trace, its kind and its status.
    pub open spec fn attributes(self) -> Map<Seq<char>, Seq<char>> {
        let span = self.span;
        let outer = with_scope(with_items(Map::empty(), self.resource, "resource."@), self.scope);
        let own = with_items(outer, span.attributes, ""@);
        let parent = with_text(own, "otel.parent_span_id"@, number::hex_of(span.parent_span_id));
        let state = with_text(parent, "otel.trace_state"@, span.trace_state);
        let kind = state.insert("otel.span.kind"@, kind_name(span.kind));
        match span.status {
            Some(status) => with_text(kind, "otel.status_message"@, status.message),
            None => kind,
        }
    }

    /// The observation of an accepted span.
    pub open spec fn observation(self, tenant_id: TenantId) -> ObservationView {
        ObservationView {
            id: self.span.observation_id(tenant_id),
            tenant_id,
            trace_id: number::hex_of(self.span.trace_id),
            span_id: number::hex_of(self.span.span_id),
            kind: classified(self.attributes()),
            name: self.span.name,
            status: self.span.outcome(),
            started_at_ms: (self.span.start_time_unix_nano as int / 1_000_000) as i64,
            duration_ms: self.span.duration_ms() as u64,
            attributes: self.attributes(),
        }
    }
}

/// Adds the attributes of `values` under `prefix`.
fn insert_attributes(target: &mut Attributes, values: &Vec<Attribute>, prefix: &str)
    ensures
        final(target)@ == with_items(old(target)@, attribute::key_models(values@), prefix@),
{
    let ghost items = attribute::key_models(values@);
    let mut i: usize = 0;
    while i < values.len()
        invariant
            i <= values.len(),
            items == attribute::key_models(values@),
            target@ == with_items(old(target)@, items.take(i as int), prefix@),
        decreases values.len() - i,
    {
        let item: &Attribute = &values[i];
        assert(items.take(i + 1).drop_last() =~= items.take(i as int));
        assert(items.take(i + 1).last() == item@);
        if !item.key.as_str().is_empty() {
            if let Some(value) = &item.value {
                let mut key: String = prefix.to_owned();
                key.append(item.key.as_str());
                target.insert(key, attribute::any_value_to_string(value));
            }
        }
        i += 1;
    }
    assert(items.take(items.len() as int) =~= items);
}

/// Adds an attribute, unless its value is empty.
fn insert_text(target: &mut Attributes, key: &str, value: &str)
    ensures
        final(target)@ == with_text(old(target)@, key@, value@),
{
    if !value.is_empty() {
        target.insert(key.to_owned(), value.to_owned());
    }
}

/// Appends bytes.
fn append_bytes(target: &mut Vec<u8>, bytes: &[u8])
    ensures
        final(target)@ == old(target)@ + bytes@,
{
    let mut i: usize = 0;
    while i < bytes.len()
        invariant
            i <= bytes.len(),
            target@ == old(target)@ + bytes@.take(i as int),
        decreases bytes.len() - i,
    {
        target.push(bytes[i]);
        assert(target@ =~= old(target)@ + bytes@.take(i + 1));
        i += 1;
    }
    assert(bytes@.take(bytes@.len() as int) =~= bytes@);
}

/// The attributes of the observation of a span.
fn map_attributes(
    span: &TraceSpan,
    resource: &Vec<Attribute>,
    scope: &Option<InstrumentationScope>,
) -> (r: Attributes)
    ensures
        r@ == (PlacedSpan {
            span: span@,
            resource: attribute::key_models(resource@),
            scope: trace::scope_model(*scope),
        }).attributes(),
{
    let mut attributes: Attributes = OrderedMap::new();
    insert_attributes(&mut attributes, resource, "resource.");
    if let Some(scope) = scope {
        insert_text(&mut attributes, "otel.scope.name", scope.name.as_str());
        insert_text(&mut attributes, "otel.scope.version", scope.version.as_str());
        insert_attributes(&mut attributes, &scope.attributes, "scope.");
    }
    insert_attributes(&mut attributes, &span.attributes, "");
    let parent: String = number::hex(span.parent_span_id.as_slice());
    insert_text(&mut attributes, "otel.parent_span_id", parent.as_str());
    insert_text(&mut attributes, "otel.trace_state", span.trace_state.as_str());
    attributes.insert("otel.span.kind".to_owned(), span_kind_name(span.kind).to_owned());
    if let Some(status) = &span.status {
        insert_text(&mut attributes, "otel.status_message", status.message.as_str());
    }
    attributes
}

/// The observation of a span, or why the span is refused.
pub fn map_span(
    span: &TraceSpan,
    tenant_id: &TenantId,
    resource_attributes: &Vec<Attribute>,
    scope: &Option<InstrumentationScope>,
) -> (r: Result<Observation, SpanRejection>)
    ensures
        match r {
            Ok(observation) => span@.rejection() is None && observation@ == (PlacedSpan {
                span: span@,
                resource: attribute::key_models(resource_attributes@),
                scope: trace::scope_model(*scope),
            }).observation(*tenant_id),
            Err(reason) => span@.rejection() == Some(reason),
        },
{
    if !valid_identifier(span.trace_id.as_slice(), 16) {
        return Err(SpanRejection::InvalidTraceId);
    }
    if !valid_identifier(span.span_id.as_slice(), 8) {
        return Err(SpanRejection::InvalidSpanId);
    }
    if text::is_blank(span.name.as_str()) {
        return Err(SpanRejection::EmptyName);
    }
    if span.end_time_unix_nano < span.start_time_unix_nano {
        return Err(SpanRejection::EndBeforeStart);
    }
    let started_at_ms: i64 = (span.start_time_unix_nano / 1_000_000) as i64;
    let duration_ms: u64 = (span.end_time_unix_nano - span.start_time_unix_nano) / 1_000_000;
    if duration_ms > MAX_DURATION_MS {
        return Err(SpanRejection::DurationTooLong);
    }
    let mut name: Vec<u8> = identity::bytes_of(tenant_id.0);
    append_bytes(&mut name, span.trace_id.as_slice());
    append_bytes(&mut name, span.span_id.as_slice());
    let attributes: Attributes = map_attributes(span, resource_attributes, scope);
    let kind: ObservationKind = classify_observation(&attributes);
    let status: ObservationStatus = match &span.status {
        Some(status) => if status.code == STATUS_CODE_ERROR {
            ObservationStatus::Error
        } else {
            ObservationStatus::Okay
        },
        None => ObservationStatus::Okay,
    };
    Ok(
        Observation {
            id: identity::derive_id(OBSERVATION_NAMESPACE, name.as_slice()),
            tenant_id: *tenant_id,
            trace_id: number::hex(span.trace_id.as_slice()),
            span_id: number::hex(span.span_id.as_slice()),
            kind,
            name: span.name.clone(),
            status,
            started_at_ms,
            duration_ms,
            attributes,
        },
    )
}

/// The observations of the accepted spans, in order.
pub open spec fn accepted(spans: Seq<PlacedSpan>, tenant_id: TenantId) -> Seq<ObservationView>
    decreases spans.len(),
{
    if spans.len() == 0 {
        Seq::empty()
    } else {
        let before = accepted(spans.drop_last(), tenant_id);
        if spans.last().span.rejection() is None {
            before.push(spans.last().observation(tenant_id))
        } else {
            before
        }
    }
}

/// The number of refused spans.
pub open spec fn refused(spans: Seq<PlacedSpan>) -> nat
    decreases spans.len(),
{
    if spans.len() == 0 {
        0
    } else {
        refused(spans.drop_last()) + if spans.last().span.rejection() is Some {
            1nat
        } else {
            0
        }
    }
}

/// The number of spans refused for a reason.
pub open spec fn refused_for(spans: Seq<PlacedSpan>, reason: SpanRejection) -> nat
    decreases spans.len(),
{
    if spans.len() == 0 {
        0
    } else {
        refused_for(spans.drop_last(), reason) + if spans.last().span.rejection() == Some(reason) {
            1nat
        } else {
            0
        }
    }
}

/// The first `n` reasons that occurred, each with how often.
pub open spec fn refusal_parts(spans: Seq<PlacedSpan>, n: nat) -> Seq<Seq<char>>
    decreases n,
{
    if n == 0 {
        Seq::empty()
    } else {
        let before = refusal_parts(spans, (n - 1) as nat);
        let reason = SpanRejection::nth(n - 1);
        if refused_for(spans, reason) > 0 {
            before.push(reason.says() + ": "@ + number::decimal(refused_for(spans, reason)))
        } else {
            before
        }
    }
}

/// What is said of the refused spans: every reason that occurred with how often, in the order of
/// the reasons; nothing where no span was refused.
pub open spec fn refusal_message(spans: Seq<PlacedSpan>) -> Seq<char> {
    if refused(spans) == 0 {
        Seq::empty()
    } else {
        "rejected invalid spans ("@ + text::joined(refusal_parts(spans, REJECTIONS as nat), ", "@)
            + ")"@
    }
}

/// What became of the spans of a request.
#[derive(Debug, PartialEq, Eq)]
pub struct MappedTraceBatch {
    pub observations: Vec<Observation>,
    pub rejected_spans: i64,
    pub error_message: String,
}

/// No span is counted for a reason more often than there are refused spans, nor more spans are
/// refused than there are.
proof fn lemma_refused_bounds(spans: Seq<PlacedSpan>)
    ensures
        refused(spans) <= spans.len(),
        forall|reason: SpanRejection| #[trigger] refused_for(spans, reason) <= refused(spans),
    decreases spans.len(),
{
    if spans.len() > 0 {
        lemma_refused_bounds(spans.drop_last());
        assert forall|reason: SpanRejection| #[trigger]
            refused_for(spans, reason) <= refused(spans) by {
            assert(refused_for(spans.drop_last(), reason) <= refused(spans.drop_last()));
        }
    }
}

/// The refused spans of two lists are those of the one and those of the other.
proof fn lemma_refused_concat(a: Seq<PlacedSpan>, b: Seq<PlacedSpan>)
    ensures
        refused(a + b) == refused(a) + refused(b),
    decreases b.len(),
{
    if b.len() == 0 {
        assert(a + b =~= a);
    } else {
        lemma_refused_concat(a, b.drop_last());
        assert((a + b).drop_last() =~= a + b.drop_last());
    }
}

/// More scopes never hold fewer refused spans.
proof fn lemma_refused_in_scopes(
    resource: Seq<KeyModel>,
    scopes: Seq<ScopeSpansModel>,
    j: int,
)
    requires
        0 <= j <= scopes.len(),
    ensures
        refused(trace::placed_in_scopes(resource, scopes.take(j))) <= refused(
            trace::placed_in_scopes(resource, scopes),
        ),
    decreases scopes.len() - j,
{
    if j == scopes.len() {
        assert(scopes.take(j) =~= scopes);
    } else {
        lemma_refused_in_scopes(resource, scopes, j + 1);
        assert(scopes.take(j + 1).drop_last() =~= scopes.take(j));
        lemma_refused_concat(
            trace::placed_in_scopes(resource, scopes.take(j)),
            scopes[j].placed(resource),
        );
    }
}

/// More resources never hold fewer refused spans.
proof fn lemma_refused_in_resources(resources: Seq<ResourceSpansModel>, i: int)
    requires
        0 <= i <= resources.len(),
    ensures
        refused(trace::placed_in_resources(resources.take(i))) <= refused(
            trace::placed_in_resources(resources),
        ),
    decreases resources.len() - i,
{
    if i == resources.len() {
        assert(resources.take(i) =~= resources);
    } else {
        lemma_refused_in_resources(resources, i + 1);
        assert(resources.take(i + 1).drop_last() =~= resources.take(i));
        lemma_refused_concat(
            trace::placed_in_resources(resources.take(i)),
            resources[i].placed(),
        );
    }
}

/// Spans that are mapped one after another.
struct Mapping {
    observations: Vec<Observation>,
    rejected: i64,
    counts: Vec<i64>,
}

impl Mapping {
    /// The mapping has dealt with the spans.
    spec fn covers(&self, spans: Seq<PlacedSpan>, tenant_id: TenantId) -> bool {
        &&& crate::observation::observation_views(self.observations@) == accepted(spans, tenant_id)
        &&& self.rejected == refused(spans)
        &&& self.counts@.len() == REJECTIONS
        &&& forall|i: int|
            0 <= i < REJECTIONS ==> #[trigger] self.counts@[i] == refused_for(
                spans,
                SpanRejection::nth(i),
            )
    }

    /// Deals with one more span.
    fn step(
        &mut self,
        span: &TraceSpan,
        tenant_id: &TenantId,
        resource: &Vec<Attribute>,
        scope: &Option<InstrumentationScope>,
        Ghost(spans): Ghost<Seq<PlacedSpan>>,
    )
        requires
            old(self).covers(spans, *tenant_id),
            refused(
                spans.push(
                    PlacedSpan {
                        span: span@,
                        resource: attribute::key_models(resource@),
                        scope: trace::scope_model(*scope),
                    },
                ),
            ) <= i64::MAX,
        ensures
            final(self).covers(
                spans.push(
                    PlacedSpan {
                        span: span@,
                        resource: attribute::key_models(resource@),
                        scope: trace::scope_model(*scope),
                    },
                ),
                *tenant_id,
            ),
    {
        let ghost placed = PlacedSpan {
            span: span@,
            resource: attribute::key_models(resource@),
            scope: trace::scope_model(*scope),
        };
        let ghost next = spans.push(placed);
        proof {
            lemma_refused_bounds(spans);
        }
        assert(next.drop_last() =~= spans);
        assert(next.last() == placed);
        match map_span(span, tenant_id, resource, scope) {
            Ok(observation) => {
                self.observations.push(observation);
                assert(crate::observation::observation_views(self.observations@) =~= accepted(
                    next,
                    *tenant_id,
                ));
            },
            Err(reason) => {
                let rank: usize = reason.rank();
                let count: i64 = self.counts[rank];
                assert(count == refused_for(spans, reason));
                self.counts.set(rank, count + 1);
                self.rejected = self.rejected + 1;
            },
        }
    }
}

impl Mapping {
    /// Deals with the spans of one more scope.
    fn add_scope(
        &mut self,
        group: &ScopeTrace,
        tenant_id: &TenantId,
        resource: &Vec<Attribute>,
        Ghost(spans): Ghost<Seq<PlacedSpan>>,
    )
        requires
            old(self).covers(spans, *tenant_id),
            refused(spans + group@.placed(attribute::key_models(resource@))) <= i64::MAX,
        ensures
            final(self).covers(
                spans + group@.placed(attribute::key_models(resource@)),
                *tenant_id,
            ),
    {
        let ghost placed = group@.placed(attribute::key_models(resource@));
        assert(spans + placed.take(0) =~= spans);
        let mut k: usize = 0;
        while k < group.spans.len()
            invariant
                k <= group.spans.len(),
                placed == group@.placed(attribute::key_models(resource@)),
                refused(spans + placed) <= i64::MAX,
                self.covers(spans + placed.take(k as int), *tenant_id),
            decreases group.spans.len() - k,
        {
            proof {
                let now = spans + placed.take(k + 1);
                assert((spans + placed.take(k as int)).push(placed[k as int]) =~= now);
                assert(now + placed.skip(k + 1) =~= spans + placed);
                lemma_refused_concat(now, placed.skip(k + 1));
            }
            self.step(
                &group.spans[k],
                tenant_id,
                resource,
                &group.scope,
                Ghost(spans + placed.take(k as int)),
            );
            assert((spans + placed.take(k as int)).push(placed[k as int]) =~= spans + placed.take(
                k + 1,
            ));
            k += 1;
        }
        assert(placed.take(placed.len() as int) =~= placed);
    }

    /// Deals with the spans of one more resource.
    fn add_resource(
        &mut self,
        entry: &ResourceTrace,
        tenant_id: &TenantId,
        Ghost(spans): Ghost<Seq<PlacedSpan>>,
    )
        requires
            old(self).covers(spans, *tenant_id),
            refused(spans + entry@.placed()) <= i64::MAX,
        ensures
            final(self).covers(spans + entry@.placed(), *tenant_id),
    {
        let no_attributes: Vec<Attribute> = Vec::new();
        let attributes: &Vec<Attribute> = match &entry.resource {
            Some(resource) => &resource.attributes,
            None => &no_attributes,
        };
        let ghost resource = attribute::key_models(attributes@);
        let ghost scopes = entry@.scope_spans;
        assert(resource =~= entry@.attributes());
        assert(spans + trace::placed_in_scopes(resource, scopes.take(0)) =~= spans);
        let mut j: usize = 0;
        while j < entry.scope_spans.len()
            invariant
                j <= entry.scope_spans.len(),
                scopes == entry@.scope_spans,
                resource == attribute::key_models(attributes@),
                refused(spans + trace::placed_in_scopes(resource, scopes)) <= i64::MAX,
                self.covers(
                    spans + trace::placed_in_scopes(resource, scopes.take(j as int)),
                    *tenant_id,
                ),
            decreases entry.scope_spans.len() - j,
        {
            let group: &ScopeTrace = &entry.scope_spans[j];
            let ghost before = trace::placed_in_scopes(resource, scopes.take(j as int));
            assert(scopes[j as int] == group@);
            assert(scopes.take(j + 1).drop_last() =~= scopes.take(j as int));
            proof {
                lemma_refused_in_scopes(resource, scopes, j + 1);
                lemma_refused_concat(spans, trace::placed_in_scopes(resource, scopes));
                lemma_refused_concat(spans, before + group@.placed(resource));
                assert(spans + before + group@.placed(resource) =~= spans + (before
                    + group@.placed(resource)));
            }
            self.add_scope(group, tenant_id, attributes, Ghost(spans + before));
            assert(spans + trace::placed_in_scopes(resource, scopes.take(j + 1)) =~= spans + before
                + group@.placed(resource));
            j += 1;
        }
        assert(scopes.take(scopes.len() as int) =~= scopes);
    }
}

/// What is said of the refused spans, from how often each reason occurred.
fn refusal_text(counts: &Vec<i64>, Ghost(spans): Ghost<Seq<PlacedSpan>>) -> (r: String)
    requires
        counts@.len() == REJECTIONS,
        forall|i: int|
            0 <= i < REJECTIONS ==> #[trigger] counts@[i] == refused_for(
                spans,
                SpanRejection::nth(i),
            ),
    ensures
        r@ == "rejected invalid spans ("@ + text::joined(
            refusal_parts(spans, REJECTIONS as nat),
            ", "@,
        ) + ")"@,
{
    let mut parts: Vec<String> = Vec::new();
    let mut i: usize = 0;
    assert(text::views(parts@) =~= refusal_parts(spans, 0));
    while i < REJECTIONS
        invariant
            i <= REJECTIONS,
            counts@.len() == REJECTIONS,
            forall|k: int|
                0 <= k < REJECTIONS ==> #[trigger] counts@[k] == refused_for(
                    spans,
                    SpanRejection::nth(k),
                ),
            text::views(parts@) == refusal_parts(spans, i as nat),
        decreases REJECTIONS - i,
    {
        if counts[i] > 0 {
            let mut part: String = SpanRejection::at(i).reason().to_owned();
            part.append(": ");
            part.append(number::decimal_text(counts[i] as u64).as_str());
            let ghost before = parts@;
            parts.push(part);
            assert(text::views(parts@) =~= text::views(before).push(part@));
        }
        i += 1;
    }
    let mut r: String = "rejected invalid spans (".to_owned();
    r.append(text::join(&parts, ", ").as_str());
    r.append(")");
    r
}

/// Maps every span of a request to an observation of the tenant, or counts why it is refused.
pub fn map_request(request: TraceRequest, tenant_id: TenantId) -> (r: MappedTraceBatch)
    requires
        refused(request@.placed()) <= i64::MAX,
    ensures
        crate::observation::observation_views(r.observations@) == accepted(
            request@.placed(),
            tenant_id,
        ),
        r.rejected_spans == refused(request@.placed()),
        r.error_message@ == refusal_message(request@.placed()),
{
    let mut counts: Vec<i64> = Vec::new();
    let mut k: usize = 0;
    while k < REJECTIONS
        invariant
            k <= REJECTIONS,
            counts@.len() == k,
            forall|i: int| 0 <= i < k ==> counts@[i] == 0,
        decreases REJECTIONS - k,
    {
        counts.push(0);
        k += 1;
    }
    let mut mapping: Mapping = Mapping { observations: Vec::new(), rejected: 0, counts };
    let ghost resources = request@.resource_spans;
    assert(crate::observation::observation_views(mapping.observations@) =~= Seq::empty());
    let mut i: usize = 0;
    while i < request.resource_spans.len()
        invariant
            i <= request.resource_spans.len(),
            resources == request@.resource_spans,
            refused(trace::placed_in_resources(resources)) <= i64::MAX,
            mapping.covers(trace::placed_in_resources(resources.take(i as int)), tenant_id),
        decreases request.resource_spans.len() - i,
    {
        let entry: &ResourceTrace = &request.resource_spans[i];
        assert(resources[i as int] == entry@);
        assert(resources.take(i + 1).drop_last() =~= resources.take(i as int));
        proof {
            lemma_refused_in_resources(resources, i + 1);
        }
        mapping.add_resource(
            entry,
            &tenant_id,
            Ghost(trace::placed_in_resources(resources.take(i as int))),
        );
        i += 1;
    }
    assert(resources.take(resources.len() as int) =~= resources);
    let ghost spans = request@.placed();
    let error_message: String = if mapping.rejected == 0 {
        String::new()
    } else {
        refusal_text(&mapping.counts, Ghost(spans))
    };
    MappedTraceBatch {
        observations: mapping.observations,
        rejected_spans: mapping.rejected,
        error_message,
    }
}

/// Every span is accepted or refused, and every refused one is counted for exactly one reason.
pub proof fn every_span_is_accounted_for(spans: Seq<PlacedSpan>, tenant_id: TenantId)
    ensures
        accepted(spans, tenant_id).len() + refused(spans) == spans.len(),
        refused_for(spans, SpanRejection::DurationTooLong) + refused_for(
            spans,
            SpanRejection::EmptyName,
        ) + refused_for(spans, SpanRejection::EndBeforeStart) + refused_for(
            spans,
            SpanRejection::InvalidSpanId,
        ) + refused_for(spans, SpanRejection::InvalidTraceId) == refused(spans),
    decreases spans.len(),
{
    if spans.len() > 0 {
        every_span_is_accounted_for(spans.drop_last(), tenant_id);
    }
}

/// The observations of accepted spans are valid and belong to the tenant, whatever the spans say.
pub proof fn accepted_observations_are_valid(
    spans: Seq<PlacedSpan>,
    tenant_id: TenantId,
    i: int,
)
    requires
        0 <= i < accepted(spans, tenant_id).len(),
    ensures
        accepted(spans, tenant_id)[i].tenant_id == tenant_id,
        accepted(spans, tenant_id)[i].flaw() is None,
    decreases spans.len(),
{
    let front = spans.drop_last();
    if i < accepted(front, tenant_id).len() {
        accepted_observations_are_valid(front, tenant_id, i);
    }
}

/// Two spans of one trace with one span id give observations of one id, for the same tenant.
pub proof fn a_span_keeps_its_id(one: PlacedSpan, other: PlacedSpan, tenant_id: TenantId)
    requires
        one.span.trace_id == other.span.trace_id,
        one.span.span_id == other.span.span_id,
    ensures
        one.observation(tenant_id).id == other.observation(tenant_id).id,
        one.observation(tenant_id).trace_id == other.observation(tenant_id).trace_id,
        one.observation(tenant_id).span_id == other.observation(tenant_id).span_id,
{
}

/// The trace and the span of an accepted span can be told from its observation: different ones are
/// written differently.
pub proof fn trace_and_span_are_kept(one: PlacedSpan, other: PlacedSpan, tenant_id: TenantId)
    requires
        one.observation(tenant_id).trace_id == other.observation(tenant_id).trace_id,
        one.observation(tenant_id).span_id == other.observation(tenant_id).span_id,
    ensures
        one.span.trace_id == other.span.trace_id,
        one.span.span_id == other.span.span_id,
{
    number::hex_is_injective(one.span.trace_id, other.span.trace_id);
    number::hex_is_injective(one.span.span_id, other.span.span_id);
}

/// A request that an exporter sends again adds nothing to the queue.
pub proof fn exporting_again_queues_nothing(
    rows: Seq<RowView>,
    spans: Seq<PlacedSpan>,
    tenant_id: TenantId,
    now_ms: i64,
    later_ms: i64,
)
    requires
        durable::ids_differ(rows),
    ensures
        durable::enqueued(
            durable::enqueued(rows, accepted(spans, tenant_id), now_ms),
            accepted(spans, tenant_id),
            later_ms,
        ) == durable::enqueued(rows, accepted(spans, tenant_id), now_ms),
{
    durable::queueing_again_changes_nothing(rows, accepted(spans, tenant_id), now_ms, later_ms);
}

/// The message is empty exactly where no span was refused.
pub proof fn refusals_are_explained(spans: Seq<PlacedSpan>)
    ensures
        refusal_message(spans).len() == 0 <==> refused(spans) == 0,
{
    reveal_strlit("rejected invalid spans (");
    assert("rejected invalid spans ("@.len() == 24);
}

/// The observation of an accepted span has failed exactly where the span has a status whose code is
/// two. Without a status, or with a code of zero (unset) or one (ok), it has not.
pub proof fn only_a_status_of_two_is_a_failure(
    span: &TraceSpan,
    tenant_id: &TenantId,
    resource: &Vec<Attribute>,
    scope: &Option<InstrumentationScope>,
    r: Result<Observation, SpanRejection>,
)
    requires
        call_ensures(map_span, (span, tenant_id, resource, scope), r),
        r is Ok,
    ensures
        r->Ok_0.status == ObservationStatus::Error <==> span.status is Some && span.status->0.code
            == 2,
        span.status is None ==> r->Ok_0.status == ObservationStatus::Okay,
{
}

/// Which observations of a request have failed: those of spans with a status whose code is two.
pub proof fn failed_observations_are_of_failed_spans(
    spans: Seq<PlacedSpan>,
    tenant_id: TenantId,
    i: int,
)
    requires
        0 <= i < accepted(spans, tenant_id).len(),
    ensures
        exists|k: int|
            {
                &&& 0 <= k < spans.len()
                &&& accepted(spans, tenant_id)[i].name == (#[trigger] spans[k]).span.name
                &&& accepted(spans, tenant_id)[i].trace_id == number::hex_of(spans[k].span.trace_id)
                &&& accepted(spans, tenant_id)[i].span_id == number::hex_of(spans[k].span.span_id)
                &&& accepted(spans, tenant_id)[i].status == ObservationStatus::Error
                    <==> spans[k].span.status is Some && spans[k].span.status->0.code == 2
            },
    decreases spans.len(),
{
    let front = spans.drop_last();
    let before = accepted(front, tenant_id);
    if i < before.len() {
        failed_observations_are_of_failed_spans(front, tenant_id, i);
        let k = choose|k: int|
            {
                &&& 0 <= k < front.len()
                &&& before[i].name == (#[trigger] front[k]).span.name
                &&& before[i].trace_id == number::hex_of(front[k].span.trace_id)
                &&& before[i].span_id == number::hex_of(front[k].span.span_id)
                &&& before[i].status == ObservationStatus::Error <==> front[k].span.status is Some
                    && front[k].span.status->0.code == 2
            };
        assert(spans[k] == front[k]);
        assert(accepted(spans, tenant_id)[i] == before[i]);
    } else {
        assert(spans[spans.len() - 1] == spans.last());
    }
}

/// A span is accepted where its trace has sixteen bytes and its span eight, neither all zeros, its
/// name holds something but white space, it does not end before it starts, and it took no longer
/// than a day, in whole milliseconds. Else the first of these that fails is the reason.
pub proof fn a_span_is_refused_for_its_first_fault(
    span: &TraceSpan,
    tenant_id: &TenantId,
    resource: &Vec<Attribute>,
    scope: &Option<InstrumentationScope>,
    r: Result<Observation, SpanRejection>,
)
    requires
        call_ensures(map_span, (span, tenant_id, resource, scope), r),
    ensures
        ({
            let traced = span.trace_id@.len() == 16 && exists|i: int|
                0 <= i < 16 && #[trigger] span.trace_id@[i] != 0;
            let known = span.span_id@.len() == 8 && exists|i: int|
                0 <= i < 8 && #[trigger] span.span_id@[i] != 0;
            let named = exists|i: int|
                0 <= i < span.name@.len() && !text::white(#[trigger] span.name@[i]);
            let forward = span.start_time_unix_nano <= span.end_time_unix_nano;
            let short = span.end_time_unix_nano - span.start_time_unix_nano
                < 86_400_001_000_000;
            &&& traced && known && named && forward && short ==> r is Ok
            &&& !traced ==> r == Err::<Observation, SpanRejection>(SpanRejection::InvalidTraceId)
            &&& traced && !known ==> r == Err::<Observation, SpanRejection>(
                SpanRejection::InvalidSpanId,
            )
            &&& traced && known && !named ==> r == Err::<Observation, SpanRejection>(
                SpanRejection::EmptyName,
            )
            &&& traced && known && named && !forward ==> r == Err::<Observation, SpanRejection>(
                SpanRejection::EndBeforeStart,
            )
            &&& traced && known && named && forward && !short ==> r == Err::<
                Observation,
                SpanRejection,
            >(SpanRejection::DurationTooLong)
        }),
{
    assert(span@.trace_id == span.trace_id@ && span@.span_id == span.span_id@ && span@.name
        == span.name@);
    assert(identifies(span.trace_id@, 16) <==> span.trace_id@.len() == 16 && exists|i: int|
        0 <= i < 16 && #[trigger] span.trace_id@[i] != 0);
    assert(identifies(span.span_id@, 8) <==> span.span_id@.len() == 8 && exists|i: int|
        0 <= i < 8 && #[trigger] span.span_id@[i] != 0);
    assert(text::blank(span.name@) <==> !exists|i: int|
        0 <= i < span.name@.len() && !text::white(#[trigger] span.name@[i]));
    assert(span.start_time_unix_nano <= span.end_time_unix_nano ==> (span@.duration_ms()
        > 86_400_000 <==> span.end_time_unix_nano - span.start_time_unix_nano
        >= 86_400_001_000_000));
}

/// The observation of a span belongs to the tenant and keeps the name of the span. It started, and it
/// took, as many whole milliseconds as the span says in nanoseconds.
pub proof fn an_observation_keeps_the_times_of_its_span(
    span: &TraceSpan,
    tenant_id: &TenantId,
    resource: &Vec<Attribute>,
    scope: &Option<InstrumentationScope>,
    r: Result<Observation, SpanRejection>,
)
    requires
        call_ensures(map_span, (span, tenant_id, resource, scope), r),
        r is Ok,
    ensures
        r->Ok_0.tenant_id == *tenant_id,
        r->Ok_0.name@ == span.name@,
        r->Ok_0.trace_id@ == number::hex_of(span.trace_id@),
        r->Ok_0.span_id@ == number::hex_of(span.span_id@),
        r->Ok_0.started_at_ms * 1_000_000 <= span.start_time_unix_nano < (r->Ok_0.started_at_ms
            + 1) * 1_000_000,
        r->Ok_0.duration_ms * 1_000_000 <= span.end_time_unix_nano - span.start_time_unix_nano < (
        r->Ok_0.duration_ms + 1) * 1_000_000,
{
    let observation = r->Ok_0;
    let view = observation@;
    assert(view.name == observation.name@ && view.trace_id == observation.trace_id@ && view.span_id
        == observation.span_id@);
    assert(span.start_time_unix_nano as int / 1_000_000 <= i64::MAX);
    assert(observation.started_at_ms == span.start_time_unix_nano as int / 1_000_000);
    assert(observation.duration_ms == (span.end_time_unix_nano - span.start_time_unix_nano)
        / 1_000_000);
}

/// The id of an observation is the name-based id, in one fixed namespace, of the sixteen bytes of
/// the tenant followed by those of the trace and of the span: nothing else of the span counts.
pub proof fn an_observation_is_named_by_tenant_trace_and_span(
    span: &TraceSpan,
    tenant_id: &TenantId,
    resource: &Vec<Attribute>,
    scope: &Option<InstrumentationScope>,
    r: Result<Observation, SpanRejection>,
)
    requires
        call_ensures(map_span, (span, tenant_id, resource, scope), r),
        r is Ok,
    ensures
        r->Ok_0.id == identity::name_based_id(
            0x72a1b31d_1ea6_43b5_98ec_111cd8c25642,
            identity::id_bytes(tenant_id.0) + span.trace_id@ + span.span_id@,
        ),
{
    assert(r->Ok_0@.id == r->Ok_0.id);
}

/// Of the items with one name and a value the last one decides what the attribute under the prefix
/// and that name says; and an attribute that no such item names is left as it was. Items without a
/// name name nothing.
pub proof fn the_last_item_of_a_name_counts(
    attributes: Map<Seq<char>, Seq<char>>,
    items: Seq<KeyModel>,
    prefix: Seq<char>,
    i: int,
    other: Seq<char>,
)
    ensures
        0 <= i < items.len() && items[i].key.len() > 0 && items[i].value is Some && (forall|j: int|
            i < j < items.len() && (#[trigger] items[j]).key == items[i].key
                ==> items[j].value is None) ==> with_items(attributes, items, prefix).contains_key(
            prefix + items[i].key,
        ) && with_items(attributes, items, prefix)[prefix + items[i].key] == attribute::any_text(
            items[i].value->0,
        ),
        (forall|j: int|
            0 <= j < items.len() && (#[trigger] items[j]).key.len() > 0 && items[j].value is Some
                ==> prefix + items[j].key != other) ==> with_items(
            attributes,
            items,
            prefix,
        ).contains_key(other) == attributes.contains_key(other) && (attributes.contains_key(other)
            ==> with_items(attributes, items, prefix)[other] == attributes[other]),
    decreases items.len(),
{
    if items.len() > 0 {
        let front = items.drop_last();
        let last = items.last();
        the_last_item_of_a_name_counts(attributes, front, prefix, i, other);
        assert forall|j: int| 0 <= j < front.len() implies front[j] == #[trigger] items[j] by {}
        assert(items[items.len() - 1] == last);
        if 0 <= i < front.len() {
            if prefix + last.key == prefix + items[i].key {
                assert((prefix + last.key).skip(prefix.len() as int) =~= last.key);
                assert((prefix + items[i].key).skip(prefix.len() as int) =~= items[i].key);
            }
        }
    }
}

/// Every attribute of an observation is said by its span or by what stands around it: the resource
/// says it under `resource.`, the scope under `scope.`, the span under its own name, and six names
/// are said by the rest of the span and of the scope. Of these the kind is always said, and the
/// others only where they are not empty.
pub proof fn attributes_come_from_the_span(placed: PlacedSpan, key: Seq<char>)
    requires
        forall|j: int|
            0 <= j < placed.resource.len() && (#[trigger] placed.resource[j]).key.len() > 0
                && placed.resource[j].value is Some ==> "resource."@ + placed.resource[j].key
                != key,
        placed.scope is Some ==> forall|j: int|
            0 <= j < placed.scope->0.attributes.len() && (
            #[trigger] placed.scope->0.attributes[j]).key.len() > 0
                && placed.scope->0.attributes[j].value is Some ==> "scope."@
                + placed.scope->0.attributes[j].key != key,
        forall|j: int|
            0 <= j < placed.span.attributes.len() && (#[trigger] placed.span.attributes[j]).key.len()
                > 0 && placed.span.attributes[j].value is Some ==> placed.span.attributes[j].key
                != key,
        key == "otel.scope.name"@ ==> placed.scope is None || placed.scope->0.name.len() == 0,
        key == "otel.scope.version"@ ==> placed.scope is None || placed.scope->0.version.len() == 0,
        key == "otel.parent_span_id"@ ==> placed.span.parent_span_id.len() == 0,
        key == "otel.trace_state"@ ==> placed.span.trace_state.len() == 0,
        key != "otel.span.kind"@,
        key == "otel.status_message"@ ==> placed.span.status is None
            || placed.span.status->0.message.len() == 0,
    ensures
        !placed.attributes().contains_key(key),
{
    lemma_fixed_names_differ();
    assert(number::hex_of(placed.span.parent_span_id).len() == 2
        * placed.span.parent_span_id.len());
    let span = placed.span;
    let base = with_items(Map::empty(), placed.resource, "resource."@);
    let outer = with_scope(base, placed.scope);
    the_last_item_of_a_name_counts(Map::empty(), placed.resource, "resource."@, 0, key);
    if let Some(scope) = placed.scope {
        let named = with_text(
            with_text(base, "otel.scope.name"@, scope.name),
            "otel.scope.version"@,
            scope.version,
        );
        the_last_item_of_a_name_counts(named, scope.attributes, "scope."@, 0, key);
    }
    reveal_strlit("");
    assert forall|j: int|
        0 <= j < span.attributes.len() && (#[trigger] span.attributes[j]).key.len() > 0
            && span.attributes[j].value is Some implies ""@ + span.attributes[j].key != key by {
        assert(""@ + span.attributes[j].key =~= span.attributes[j].key);
    }
    the_last_item_of_a_name_counts(outer, span.attributes, ""@, 0, key);
}

/// What a span says of itself beside its attributes is told under fixed names: its kind always, by
/// its name, and its parent, its state and the message of its status where they are not empty.
pub proof fn a_span_tells_its_kind_and_parent(
    span: &TraceSpan,
    tenant_id: &TenantId,
    resource: &Vec<Attribute>,
    scope: &Option<InstrumentationScope>,
    r: Result<Observation, SpanRejection>,
)
    requires
        call_ensures(map_span, (span, tenant_id, resource, scope), r),
        r is Ok,
    ensures
        ({
            let told = r->Ok_0.attributes@;
            &&& told.contains_key("otel.span.kind"@)
            &&& span.kind == 1 ==> told["otel.span.kind"@] == "internal"@
            &&& span.kind == 2 ==> told["otel.span.kind"@] == "server"@
            &&& span.kind == 3 ==> told["otel.span.kind"@] == "client"@
            &&& span.kind == 4 ==> told["otel.span.kind"@] == "producer"@
            &&& span.kind == 5 ==> told["otel.span.kind"@] == "consumer"@
            &&& span.kind < 1 || span.kind > 5 ==> told["otel.span.kind"@] == "unspecified"@
            &&& span.parent_span_id@.len() > 0 ==> told.contains_key("otel.parent_span_id"@)
                && told["otel.parent_span_id"@] == number::hex_of(span.parent_span_id@)
            &&& span.trace_state@.len() > 0 ==> told.contains_key("otel.trace_state"@)
                && told["otel.trace_state"@] == span.trace_state@
            &&& span.status is Some && span.status->0.message@.len() > 0 ==> told.contains_key(
                "otel.status_message"@,
            ) && told["otel.status_message"@] == span.status->0.message@
        }),
{
    lemma_fixed_names_differ();
    assert(r->Ok_0@.attributes == r->Ok_0.attributes@);
    assert(span@.parent_span_id == span.parent_span_id@);
    assert(number::hex_of(span.parent_span_id@).len() == 2 * span.parent_span_id@.len());
}

/// The fixed names are different.
proof fn lemma_fixed_names_differ()
    ensures
        "otel.parent_span_id"@ != "otel.trace_state"@,
        "otel.parent_span_id"@ != "otel.span.kind"@,
        "otel.parent_span_id"@ != "otel.status_message"@,
        "otel.trace_state"@ != "otel.span.kind"@,
        "otel.trace_state"@ != "otel.status_message"@,
        "otel.span.kind"@ != "otel.status_message"@,
        "otel.scope.name"@ != "otel.scope.version"@,
{
    reveal_strlit("otel.parent_span_id");
    reveal_strlit("otel.trace_state");
    reveal_strlit("otel.span.kind");
    reveal_strlit("otel.status_message");
    reveal_strlit("otel.scope.name");
    reveal_strlit("otel.scope.version");
    assert("otel.parent_span_id"@[5] == 'p');
    assert("otel.trace_state"@[5] == 't');
    assert("otel.span.kind"@[5] == 's' && "otel.span.kind"@[6] == 'p');
    assert("otel.status_message"@[5] == 's' && "otel.status_message"@[6] == 't');
    assert("otel.scope.name"@.len() != "otel.scope.version"@.len());
}

/// A span says its attributes under their own names: of those with one name and a value the last
/// one counts, unless the rest of the span is told under that name.
pub proof fn a_span_says_its_attributes(
    span: &TraceSpan,
    tenant_id: &TenantId,
    resource: &Vec<Attribute>,
    scope: &Option<InstrumentationScope>,
    r: Result<Observation, SpanRejection>,
    i: int,
)
    requires
        call_ensures(map_span, (span, tenant_id, resource, scope), r),
        r is Ok,
        0 <= i < span.attributes@.len(),
        span.attributes@[i].key@.len() > 0,
        span.attributes@[i].value is Some,
        forall|j: int|
            i < j < span.attributes@.len() && (#[trigger] span.attributes@[j]).key@
                == span.attributes@[i].key@ ==> span.attributes@[j].value is None,
        span.attributes@[i].key@ == "otel.parent_span_id"@ ==> span.parent_span_id@.len() == 0,
        span.attributes@[i].key@ == "otel.trace_state"@ ==> span.trace_state@.len() == 0,
        span.attributes@[i].key@ != "otel.span.kind"@,
        span.attributes@[i].key@ == "otel.status_message"@ ==> span.status is None
            || span.status->0.message@.len() == 0,
    ensures
        r->Ok_0.attributes@.contains_key(span.attributes@[i].key@),
        r->Ok_0.attributes@[span.attributes@[i].key@] == attribute::any_text(
            span.attributes@[i].value->0@,
        ),
{
    let placed = PlacedSpan {
        span: span@,
        resource: attribute::key_models(resource@),
        scope: trace::scope_model(*scope),
    };
    let items = attribute::key_models(span.attributes@);
    let outer = with_scope(with_items(Map::empty(), placed.resource, "resource."@), placed.scope);
    assert(r->Ok_0@.attributes == r->Ok_0.attributes@);
    assert(items[i] == span.attributes@[i]@);
    lemma_fixed_names_differ();
    assert(number::hex_of(span.parent_span_id@).len() == 2 * span.parent_span_id@.len());
    assert(span@.trace_state == span.trace_state@);
    assert forall|j: int| i < j < items.len() && (#[trigger] items[j]).key
        == items[i].key implies items[j].value is None by {
        assert(items[j] == span.attributes@[j]@);
    }
    the_last_item_of_a_name_counts(outer, items, ""@, i, Seq::empty());
    reveal_strlit("");
    assert(""@ + items[i].key =~= items[i].key);
}

/// A resource says its attributes under `resource.` and their names, and a scope its own under
/// `scope.` and its name and version under fixed names where they are not empty, unless the span
/// has an attribute of just that name.
pub proof fn a_resource_and_a_scope_say_their_attributes(placed: PlacedSpan, i: int)
    ensures
        ({
            let told = placed.attributes();
            let items = placed.resource;
            0 <= i < items.len() && items[i].key.len() > 0 && items[i].value is Some && (forall|
                j: int,
            |
                i < j < items.len() && (#[trigger] items[j]).key == items[i].key
                    ==> items[j].value is None) && (forall|j: int|
                0 <= j < placed.span.attributes.len() ==> (
                #[trigger] placed.span.attributes[j]).key != "resource."@ + items[i].key)
                ==> told.contains_key("resource."@ + items[i].key) && told["resource."@
                + items[i].key] == attribute::any_text(items[i].value->0)
        }),
        placed.scope is Some ==> {
            let told = placed.attributes();
            let items = placed.scope->0.attributes;
            0 <= i < items.len() && items[i].key.len() > 0 && items[i].value is Some && (forall|
                j: int,
            |
                i < j < items.len() && (#[trigger] items[j]).key == items[i].key
                    ==> items[j].value is None) && (forall|j: int|
                0 <= j < placed.span.attributes.len() ==> (
                #[trigger] placed.span.attributes[j]).key != "scope."@ + items[i].key)
                ==> told.contains_key("scope."@ + items[i].key) && told["scope."@ + items[i].key]
                == attribute::any_text(items[i].value->0)
        },
{
    let span = placed.span;
    let base = with_items(Map::empty(), placed.resource, "resource."@);
    let outer = with_scope(base, placed.scope);
    lemma_prefixes_differ();
    if 0 <= i < placed.resource.len() {
        let key = "resource."@ + placed.resource[i].key;
        assert(key[0] == 'r');
        the_last_item_of_a_name_counts(Map::empty(), placed.resource, "resource."@, i, key);
        if let Some(scope) = placed.scope {
            let named = with_text(
                with_text(base, "otel.scope.name"@, scope.name),
                "otel.scope.version"@,
                scope.version,
            );
            assert forall|j: int|
                0 <= j < scope.attributes.len() && (#[trigger] scope.attributes[j]).key.len() > 0
                    && scope.attributes[j].value is Some implies "scope."@ + scope.attributes[j].key
                != key by {
                assert(("scope."@ + scope.attributes[j].key)[0] == 's');
            }
            the_last_item_of_a_name_counts(named, scope.attributes, "scope."@, i, key);
        }
        lemma_span_keeps(placed, outer, key);
    }
    if let Some(scope) = placed.scope {
        if 0 <= i < scope.attributes.len() {
            let named = with_text(
                with_text(base, "otel.scope.name"@, scope.name),
                "otel.scope.version"@,
                scope.version,
            );
            let key = "scope."@ + scope.attributes[i].key;
            assert(key[0] == 's');
            the_last_item_of_a_name_counts(named, scope.attributes, "scope."@, i, key);
            lemma_span_keeps(placed, outer, key);
        }
    }
}

/// The name and the version of a scope are told where they are not empty, unless the span has an
/// attribute of just that name.
pub proof fn a_scope_tells_its_name_and_version(placed: PlacedSpan)
    requires
        placed.scope is Some,
        forall|j: int|
            0 <= j < placed.span.attributes.len() ==> (#[trigger] placed.span.attributes[j]).key
                != "otel.scope.name"@ && placed.span.attributes[j].key != "otel.scope.version"@,
    ensures
        placed.scope->0.name.len() > 0 ==> placed.attributes().contains_key("otel.scope.name"@)
            && placed.attributes()["otel.scope.name"@] == placed.scope->0.name,
        placed.scope->0.version.len() > 0 ==> placed.attributes().contains_key(
            "otel.scope.version"@,
        ) && placed.attributes()["otel.scope.version"@] == placed.scope->0.version,
{
    let scope = placed.scope->0;
    let base = with_items(Map::empty(), placed.resource, "resource."@);
    let outer = with_scope(base, placed.scope);
    let named = with_text(
        with_text(base, "otel.scope.name"@, scope.name),
        "otel.scope.version"@,
        scope.version,
    );
    lemma_prefixes_differ();
    lemma_fixed_names_differ();
    assert forall|j: int|
        0 <= j < scope.attributes.len() && (#[trigger] scope.attributes[j]).key.len() > 0
            && scope.attributes[j].value is Some implies "scope."@ + scope.attributes[j].key
        != "otel.scope.name"@ && "scope."@ + scope.attributes[j].key != "otel.scope.version"@ by {
        assert(("scope."@ + scope.attributes[j].key)[0] == 's');
    }
    the_last_item_of_a_name_counts(named, scope.attributes, "scope."@, 0, "otel.scope.name"@);
    the_last_item_of_a_name_counts(named, scope.attributes, "scope."@, 0, "otel.scope.version"@);
    lemma_span_keeps(placed, outer, "otel.scope.name"@);
    lemma_span_keeps(placed, outer, "otel.scope.version"@);
}

/// The prefixes and the fixed names begin differently.
proof fn lemma_prefixes_differ()
    ensures
        "resource."@.len() > 0 && "resource."@[0] == 'r',
        "scope."@.len() > 0 && "scope."@[0] == 's',
        "otel.scope.name"@.len() == 15 && "otel.scope.name"@[0] == 'o',
        "otel.scope.version"@.len() == 18 && "otel.scope.version"@[0] == 'o',
        "otel.parent_span_id"@.len() == 19 && "otel.parent_span_id"@[0] == 'o',
        "otel.trace_state"@.len() == 16 && "otel.trace_state"@[0] == 'o',
        "otel.span.kind"@.len() == 14 && "otel.span.kind"@[0] == 'o',
        "otel.status_message"@.len() == 19 && "otel.status_message"@[0] == 'o',
{
    reveal_strlit("resource.");
    reveal_strlit("scope.");
    reveal_strlit("otel.parent_span_id");
    reveal_strlit("otel.trace_state");
    reveal_strlit("otel.span.kind");
    reveal_strlit("otel.status_message");
    reveal_strlit("otel.scope.name");
    reveal_strlit("otel.scope.version");
}

/// What is said before the span is kept where the span says nothing under that name.
proof fn lemma_span_keeps(
    placed: PlacedSpan,
    outer: Map<Seq<char>, Seq<char>>,
    key: Seq<char>,
)
    requires
        outer == with_scope(
            with_items(Map::empty(), placed.resource, "resource."@),
            placed.scope,
        ),
        key != "otel.parent_span_id"@,
        key != "otel.trace_state"@,
        key != "otel.span.kind"@,
        key != "otel.status_message"@,
    ensures
        (forall|j: int|
            0 <= j < placed.span.attributes.len() ==> (#[trigger] placed.span.attributes[j]).key
                != key) && outer.contains_key(key) ==> placed.attributes().contains_key(key)
            && placed.attributes()[key] == outer[key],
{
    let items = placed.span.attributes;
    reveal_strlit("");
    if forall|j: int| 0 <= j < items.len() ==> (#[trigger] items[j]).key != key {
        assert forall|j: int|
            0 <= j < items.len() && (#[trigger] items[j]).key.len() > 0
                && items[j].value is Some implies ""@ + items[j].key != key by {
            assert(""@ + items[j].key =~= items[j].key);
        }
        the_last_item_of_a_name_counts(outer, items, ""@, 0, key);
    }
}

/// An explicit kind decides whatever else the attributes say, in capitals or not.
pub proof fn an_explicit_kind_decides(attributes: &Attributes, r: ObservationKind)
    requires
        call_ensures(classify_observation, (attributes,), r),
        attributes@.contains_key("observability.kind"@),
    ensures
        ({
            let word = text::lowered(attributes@["observability.kind"@]);
            &&& word == "agent"@ ==> r == ObservationKind::Agent
            &&& word == "tool"@ ==> r == ObservationKind::Tool
            &&& word == "model"@ ==> r == ObservationKind::Model
            &&& word == "http"@ ==> r == ObservationKind::Http
            &&& word == "workflow"@ ==> r == ObservationKind::Workflow
        }),
{
    reveal_strlit("agent");
    reveal_strlit("tool");
    reveal_strlit("model");
    reveal_strlit("http");
    reveal_strlit("workflow");
    assert("agent"@[0] == 'a');
    assert("tool"@[0] == 't');
    assert("model"@[0] == 'm');
    assert("http"@[0] == 'h');
    assert("workflow"@[0] == 'w');
}

/// Without an explicit kind the signs decide: those of an agent before those of a tool, these before
/// those of a model, and these before those of HTTP work; without any sign it is a workflow.
pub proof fn the_signs_of_a_kind_decide(attributes: &Attributes, r: ObservationKind)
    requires
        call_ensures(classify_observation, (attributes,), r),
        attributes@.contains_key("observability.kind"@) ==> {
            let word = text::lowered(attributes@["observability.kind"@]);
            word != "agent"@ && word != "tool"@ && word != "model"@ && word != "http"@ && word
                != "workflow"@
        },
    ensures
        ({
            let a = attributes@;
            let agent = {
                ||| a.contains_key("gen_ai.agent.name"@)
                ||| a.contains_key("openinference.span.kind"@) && text::lowered(
                    a["openinference.span.kind"@],
                ) == "agent"@
                ||| a.contains_key("gen_ai.operation.name"@) && text::lowered(
                    a["gen_ai.operation.name"@],
                ) == "invoke_agent"@
            };
            let tool = {
                ||| a.contains_key("gen_ai.tool.name"@)
                ||| a.contains_key("openinference.span.kind"@) && text::lowered(
                    a["openinference.span.kind"@],
                ) == "tool"@
                ||| a.contains_key("gen_ai.operation.name"@) && text::lowered(
                    a["gen_ai.operation.name"@],
                ) == "execute_tool"@
            };
            let model = {
                ||| a.contains_key("gen_ai.request.model"@)
                ||| a.contains_key("gen_ai.response.model"@)
                ||| a.contains_key("gen_ai.system"@)
                ||| a.contains_key("openinference.span.kind"@) && text::lowered(
                    a["openinference.span.kind"@],
                ) == "llm"@
            };
            let web = exists|key: Seq<char>| #[trigger]
                a.contains_key(key) && {
                    ||| key.len() >= 5 && key.take(5) == "http."@
                    ||| key.len() >= 4 && key.take(4) == "url."@
                    ||| key == "server.address"@
                };
            &&& agent ==> r == ObservationKind::Agent
            &&& !agent && tool ==> r == ObservationKind::Tool
            &&& !agent && !tool && model ==> r == ObservationKind::Model
            &&& !agent && !tool && !model && web ==> r == ObservationKind::Http
            &&& !agent && !tool && !model && !web ==> r == ObservationKind::Workflow
        }),
{
    reveal_strlit("http.");
    reveal_strlit("url.");
    assert("http."@.len() == 5 && "url."@.len() == 4);
    assert forall|key: Seq<char>| #[trigger] http_key(key) == ({
        ||| key.len() >= 5 && key.take(5) == "http."@
        ||| key.len() >= 4 && key.take(4) == "url."@
        ||| key == "server.address"@
    }) by {
        if key.len() >= 5 {
            assert(key.take(5) =~= key.subrange(0, 5));
        }
        if key.len() >= 4 {
            assert(key.take(4) =~= key.subrange(0, 4));
        }
    }
}

/// Spans are dealt with one after the other: what is accepted, what is refused and why of two lists
/// is that of the one and then that of the other.
pub proof fn spans_are_dealt_with_in_order(
    spans: Seq<PlacedSpan>,
    more: Seq<PlacedSpan>,
    tenant_id: TenantId,
    reason: SpanRejection,
)
    ensures
        accepted(spans + more, tenant_id) == accepted(spans, tenant_id) + accepted(more, tenant_id),
        refused(spans + more) == refused(spans) + refused(more),
        refused_for(spans + more, reason) == refused_for(spans, reason) + refused_for(more, reason),
    decreases more.len(),
{
    if more.len() == 0 {
        assert(spans + more =~= spans);
        assert(accepted(spans, tenant_id) + accepted(more, tenant_id) =~= accepted(
            spans,
            tenant_id,
        ));
    } else {
        let front = more.drop_last();
        spans_are_dealt_with_in_order(spans, front, tenant_id, reason);
        assert((spans + more).drop_last() =~= spans + front);
        assert((spans + more).last() == more.last());
        assert(accepted(spans + more, tenant_id) =~= accepted(spans, tenant_id) + accepted(
            more,
            tenant_id,
        ));
    }
}

/// The spans of a request with more resources behind those of another one give the observations of
/// that one and then the others, and as many refusals as both.
pub proof fn a_longer_request_adds_to_a_shorter_one(
    one: TraceRequest,
    other: TraceRequest,
    both: TraceRequest,
    tenant_id: TenantId,
    r_one: MappedTraceBatch,
    r_other: MappedTraceBatch,
    r_both: MappedTraceBatch,
)
    requires
        both@.resource_spans == one@.resource_spans + other@.resource_spans,
        refused(both@.placed()) <= i64::MAX,
        call_ensures(map_request, (one, tenant_id), r_one),
        call_ensures(map_request, (other, tenant_id), r_other),
        call_ensures(map_request, (both, tenant_id), r_both),
    ensures
        crate::observation::observation_views(r_both.observations@)
            == crate::observation::observation_views(r_one.observations@)
            + crate::observation::observation_views(r_other.observations@),
        r_both.rejected_spans == r_one.rejected_spans + r_other.rejected_spans,
{
    trace::spans_are_placed_in_order(
        one@.resource_spans,
        other@.resource_spans,
        Seq::empty(),
        Seq::empty(),
        Seq::empty(),
    );
    spans_are_dealt_with_in_order(
        one@.placed(),
        other@.placed(),
        tenant_id,
        SpanRejection::EmptyName,
    );
}

/// A request with one span gives the observation of the span, or counts and explains its refusal.
pub proof fn a_request_maps_its_span(
    request: TraceRequest,
    tenant_id: TenantId,
    r: MappedTraceBatch,
    span: &TraceSpan,
    resource: &Vec<Attribute>,
    scope: &Option<InstrumentationScope>,
    mapped: Result<Observation, SpanRejection>,
)
    requires
        call_ensures(map_request, (request, tenant_id), r),
        request.resource_spans@.len() == 1,
        request.resource_spans@[0].scope_spans@.len() == 1,
        request.resource_spans@[0].scope_spans@[0].spans@.len() == 1,
        *span == request.resource_spans@[0].scope_spans@[0].spans@[0],
        *scope == request.resource_spans@[0].scope_spans@[0].scope,
        request.resource_spans@[0].resource is Some ==> resource@
            == request.resource_spans@[0].resource->0.attributes@,
        request.resource_spans@[0].resource is None ==> resource@.len() == 0,
        call_ensures(map_span, (span, &tenant_id, resource, scope), mapped),
    ensures
        mapped is Ok ==> r.observations@.len() == 1 && r.observations@[0]@ == mapped->Ok_0@
            && r.rejected_spans == 0 && r.error_message@.len() == 0,
        mapped is Err ==> r.observations@.len() == 0 && r.rejected_spans == 1 && r.error_message@
            == "rejected invalid spans ("@ + ((mapped->Err_0).says() + ": "@ + number::decimal(1))
            + ")"@,
{
    let placed = request@.placed();
    trace::spans_keep_their_resource_and_scope(request, 0);
    assert(placed.len() == 1);
    assert(attribute::key_models(resource@) =~= placed[0].resource);
    let whole = PlacedSpan {
        span: span@,
        resource: attribute::key_models(resource@),
        scope: trace::scope_model(*scope),
    };
    assert(placed[0] == whole);
    assert(placed =~= seq![whole]);
    assert(placed.drop_last() =~= Seq::empty());
    reveal_with_fuel(accepted, 2);
    reveal_with_fuel(refused, 2);
    reveal_with_fuel(refused_for, 2);
    assert(refused(placed) <= 1);
    assert(crate::observation::observation_views(r.observations@).len() == r.observations@.len());
    if mapped is Ok {
        assert(crate::observation::observation_views(r.observations@)[0] == r.observations@[0]@);
    } else {
        refusals_are_listed(placed);
        let reason = mapped->Err_0;
        assert(refused_for(placed, reason) == 1);
        let part = reason.says() + ": "@ + number::decimal(1);
        let parts = refusal_parts(placed, 5);
        assert(parts =~= seq![part]);
        assert(text::joined(parts, ", "@) == part);
    }
}

/// The message lists each of the five reasons that occurred once, with how many spans were refused
/// for it, in the order of their words.
pub proof fn refusals_are_listed(spans: Seq<PlacedSpan>)
    ensures
        ({
            let parts: Seq<Seq<char>> = (if refused_for(spans, SpanRejection::DurationTooLong) > 0 {
                seq![
                    "duration exceeds ingestion limit"@ + ": "@ + number::decimal(
                        refused_for(spans, SpanRejection::DurationTooLong),
                    ),
                ]
            } else {
                Seq::empty()
            }) + (if refused_for(spans, SpanRejection::EmptyName) > 0 {
                seq![
                    "empty span name"@ + ": "@ + number::decimal(
                        refused_for(spans, SpanRejection::EmptyName),
                    ),
                ]
            } else {
                Seq::empty()
            }) + (if refused_for(spans, SpanRejection::EndBeforeStart) > 0 {
                seq![
                    "end time precedes start time"@ + ": "@ + number::decimal(
                        refused_for(spans, SpanRejection::EndBeforeStart),
                    ),
                ]
            } else {
                Seq::empty()
            }) + (if refused_for(spans, SpanRejection::InvalidSpanId) > 0 {
                seq![
                    "invalid span_id"@ + ": "@ + number::decimal(
                        refused_for(spans, SpanRejection::InvalidSpanId),
                    ),
                ]
            } else {
                Seq::empty()
            }) + (if refused_for(spans, SpanRejection::InvalidTraceId) > 0 {
                seq![
                    "invalid trace_id"@ + ": "@ + number::decimal(
                        refused_for(spans, SpanRejection::InvalidTraceId),
                    ),
                ]
            } else {
                Seq::empty()
            });
            &&& refusal_parts(spans, 5) == parts
            &&& refused(spans) > 0 ==> refusal_message(spans) == "rejected invalid spans ("@
                + text::joined(parts, ", "@) + ")"@
        }),
{
    reveal_with_fuel(refusal_parts, 6);
    let parts: Seq<Seq<char>> = (if refused_for(spans, SpanRejection::DurationTooLong) > 0 {
            seq![
                "duration exceeds ingestion limit"@ + ": "@ + number::decimal(
                    refused_for(spans, SpanRejection::DurationTooLong),
                ),
            ]
        } else {
            Seq::empty()
        }) + (if refused_for(spans, SpanRejection::EmptyName) > 0 {
            seq![
                "empty span name"@ + ": "@ + number::decimal(
                    refused_for(spans, SpanRejection::EmptyName),
                ),
            ]
        } else {
            Seq::empty()
        }) + (if refused_for(spans, SpanRejection::EndBeforeStart) > 0 {
            seq![
                "end time precedes start time"@ + ": "@ + number::decimal(
                    refused_for(spans, SpanRejection::EndBeforeStart),
                ),
            ]
        } else {
            Seq::empty()
        }) + (if refused_for(spans, SpanRejection::InvalidSpanId) > 0 {
            seq![
                "invalid span_id"@ + ": "@ + number::decimal(
                    refused_for(spans, SpanRejection::InvalidSpanId),
                ),
            ]
        } else {
            Seq::empty()
        }) + (if refused_for(spans, SpanRejection::InvalidTraceId) > 0 {
            seq![
                "invalid trace_id"@ + ": "@ + number::decimal(
                    refused_for(spans, SpanRejection::InvalidTraceId),
                ),
            ]
        } else {
            Seq::empty()
        });
    assert(refusal_parts(spans, 0) =~= Seq::empty());
    assert(SpanRejection::nth(0) == SpanRejection::DurationTooLong);
    assert(SpanRejection::nth(4) == SpanRejection::InvalidTraceId);
    assert(refusal_parts(spans, 5) =~= parts);
}

/// The content type names the encoding by what stands before the first semicolon, without the white
/// space around it, in capitals or not.
pub proof fn the_media_type_names_the_encoding(
    content_type: Option<&str>,
    r: Result<OtlpEncoding, OtlpError>,
    front: Seq<char>,
    inner: Seq<char>,
    before: Seq<char>,
    behind: Seq<char>,
)
    requires
        call_ensures(OtlpEncoding::from_content_type, (content_type,), r),
        content_type is Some ==> {
            &&& content_type->0@ == front || front.push(';').is_prefix_of(content_type->0@)
            &&& !front.contains(';')
            &&& front == before + inner + behind
            &&& text::blank(before)
            &&& text::blank(behind)
            &&& inner.len() > 0 ==> !text::white(inner[0]) && !text::white(inner.last())
        },
    ensures
        content_type is None ==> r == Err::<OtlpEncoding, OtlpError>(
            OtlpError::UnsupportedContentType,
        ),
        content_type is Some && text::lowered(inner) == "application/x-protobuf"@ ==> r == Ok::<
            OtlpEncoding,
            OtlpError,
        >(OtlpEncoding::Protobuf),
        content_type is Some && text::lowered(inner) == "application/json"@ ==> r == Ok::<
            OtlpEncoding,
            OtlpError,
        >(OtlpEncoding::Json),
        content_type is Some && text::lowered(inner) != "application/x-protobuf"@ && text::lowered(
            inner,
        ) != "application/json"@ ==> r == Err::<OtlpEncoding, OtlpError>(
            OtlpError::UnsupportedContentType,
        ),
{
    reveal_strlit("application/x-protobuf");
    reveal_strlit("application/json");
    assert("application/x-protobuf"@.len() == 22 && "application/json"@.len() == 16);
    if content_type is Some {
        let s = content_type->0@;
        assert forall|i: int| 0 <= i < front.len() implies front[i] != ';' by {
            assert(front.contains(front[i]));
        }
        if s != front {
            assert(s.subrange(0, front.len() as int + 1)[front.len() as int] == ';');
            assert forall|i: int| 0 <= i < front.len() implies s[i] != ';' by {
                assert(s.subrange(0, front.len() as int + 1)[i] == front[i]);
            }
            assert(s.take(front.len() as int) =~= front) by {
                assert forall|i: int| 0 <= i < front.len() implies s[i] == front[i] by {
                    assert(s.subrange(0, front.len() as int + 1)[i] == front[i]);
                }
            }
        } else {
            assert(s.take(front.len() as int) =~= front);
        }
        text::lemma_mark_at_is(s, ';', front.len() as int);
        text::trimming_leaves_the_inner_text(before, inner, behind);
    }
}

/// Each encoding, each error and each reason is named in fixed words.
pub proof fn names_and_messages_are_fixed(
    encoding: OtlpEncoding,
    name: &str,
    error: &OtlpError,
    message: String,
    reason: SpanRejection,
    words: &str,
)
    requires
        call_ensures(OtlpEncoding::content_type, (encoding,), name),
        call_ensures(OtlpError::message, (error,), message),
        call_ensures(SpanRejection::reason, (reason,), words),
    ensures
        encoding == OtlpEncoding::Protobuf ==> name@ == "application/x-protobuf"@,
        encoding == OtlpEncoding::Json ==> name@ == "application/json"@,
        *error is UnsupportedContentType ==> message@
            == "content-type must be application/x-protobuf or application/json"@,
        *error is InvalidPayload ==> message@ == "invalid OTLP trace payload: "@
            + error->InvalidPayload_0@,
        *error is ResponseEncoding ==> message@ == "cannot encode OTLP response: "@
            + error->ResponseEncoding_0@,
        reason == SpanRejection::DurationTooLong ==> words@ == "duration exceeds ingestion limit"@,
        reason == SpanRejection::EmptyName ==> words@ == "empty span name"@,
        reason == SpanRejection::EndBeforeStart ==> words@ == "end time precedes start time"@,
        reason == SpanRejection::InvalidSpanId ==> words@ == "invalid span_id"@,
        reason == SpanRejection::InvalidTraceId ==> words@ == "invalid trace_id"@,
{
}

/// A span kind is named by its number, one to five; any other number is unspecified. An identifier
/// is valid where it has the length asked for and not all of its bytes are zero.
pub proof fn kinds_and_identifiers_are_read(
    kind: i32,
    name: &str,
    value: &[u8],
    length: usize,
    valid: bool,
)
    requires
        call_ensures(span_kind_name, (kind,), name),
        call_ensures(valid_identifier, (value, length), valid),
    ensures
        kind == 1 ==> name@ == "internal"@,
        kind == 2 ==> name@ == "server"@,
        kind == 3 ==> name@ == "client"@,
        kind == 4 ==> name@ == "producer"@,
        kind == 5 ==> name@ == "consumer"@,
        kind < 1 || kind > 5 ==> name@ == "unspecified"@,
        valid <==> value@.len() == length && !(forall|i: int|
            0 <= i < value@.len() ==> value@[i] == 0),
{
}

/// The kind of an observation is the one that its attributes tell of.
pub proof fn the_kind_follows_from_the_attributes(
    span: &TraceSpan,
    tenant_id: &TenantId,
    resource: &Vec<Attribute>,
    scope: &Option<InstrumentationScope>,
    r: Result<Observation, SpanRejection>,
    kind: ObservationKind,
)
    requires
        call_ensures(map_span, (span, tenant_id, resource, scope), r),
        r is Ok,
        call_ensures(classify_observation, (&r->Ok_0.attributes,), kind),
    ensures
        r->Ok_0.kind == kind,
{
    let view = r->Ok_0@;
    assert(view.kind == r->Ok_0.kind && view.attributes == r->Ok_0.attributes@);
}

/// A request gives the observations of all its accepted spans, in order, and counts all refused
/// ones: together they are as many as there are spans.
pub proof fn a_request_deals_with_every_span(
    request: TraceRequest,
    tenant_id: TenantId,
    r: MappedTraceBatch,
    i: int,
)
    requires
        call_ensures(map_request, (request, tenant_id), r),
    ensures
        r.observations@.len() + r.rejected_spans == request@.placed().len(),
        r.rejected_spans >= 0,
        r.error_message@.len() == 0 <==> r.rejected_spans == 0,
        r.error_message@ == refusal_message(request@.placed()),
        r.observations@.len() == accepted(request@.placed(), tenant_id).len(),
        0 <= i < r.observations@.len() ==> r.observations@[i]@ == accepted(
            request@.placed(),
            tenant_id,
        )[i] && r.observations@[i].tenant_id == tenant_id,
{
    let placed = request@.placed();
    let views = crate::observation::observation_views(r.observations@);
    every_span_is_accounted_for(placed, tenant_id);
    refusals_are_explained(placed);
    assert(views.len() == r.observations@.len());
    if 0 <= i < r.observations@.len() {
        accepted_observations_are_valid(placed, tenant_id, i);
        assert(views[i] == r.observations@[i]@);
    }
}

} // verus!
