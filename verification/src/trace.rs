//! Trace export requests: resources, scopes and spans, and what they hold.
use crate::attribute;
use crate::attribute::{Attribute, KeyModel};
use vstd::prelude::*;

verus! {

/// How a span ended.
#[derive(Debug, PartialEq)]
pub struct SpanStatus {
    pub message: String,
    pub code: i32,
}

/// One unit of traced work. Times are nanoseconds since the Unix epoch.
#[derive(Debug, PartialEq)]
pub struct TraceSpan {
    pub trace_id: Vec<u8>,
    pub span_id: Vec<u8>,
    pub trace_state: String,
    pub parent_span_id: Vec<u8>,
    pub name: String,
    pub kind: i32,
    pub start_time_unix_nano: u64,
    pub end_time_unix_nano: u64,
    pub attributes: Vec<Attribute>,
    pub status: Option<SpanStatus>,
}

/// The library that made a span.
#[derive(Debug, PartialEq)]
pub struct InstrumentationScope {
    pub name: String,
    pub version: String,
    pub attributes: Vec<Attribute>,
}

/// The spans of one scope.
#[derive(Debug, PartialEq)]
pub struct ScopeTrace {
    pub scope: Option<InstrumentationScope>,
    pub spans: Vec<TraceSpan>,
}

/// The entity that made the spans.
#[derive(Debug, PartialEq)]
pub struct Resource {
    pub attributes: Vec<Attribute>,
}

/// The spans of one resource.
#[derive(Debug, PartialEq)]
pub struct ResourceTrace {
    pub resource: Option<Resource>,
    pub scope_spans: Vec<ScopeTrace>,
}

/// A request to take in traces.
#[derive(Debug, PartialEq)]
pub struct TraceRequest {
    pub resource_spans: Vec<ResourceTrace>,
}

/// What the status of a span holds.
pub struct StatusModel {
    pub message: Seq<char>,
    pub code: i32,
}

/// What a span holds.
#[verifier::ext_equal]
pub struct SpanModel {
    pub trace_id: Seq<u8>,
    pub span_id: Seq<u8>,
    pub trace_state: Seq<char>,
    pub parent_span_id: Seq<u8>,
    pub name: Seq<char>,
    pub kind: i32,
    pub start_time_unix_nano: u64,
    pub end_time_unix_nano: u64,
    pub attributes: Seq<KeyModel>,
    pub status: Option<StatusModel>,
}

/// What a scope holds.
#[verifier::ext_equal]
pub struct ScopeModel {
    pub name: Seq<char>,
    pub version: Seq<char>,
    pub attributes: Seq<KeyModel>,
}

/// What the spans of a scope hold.
#[verifier::ext_equal]
pub struct ScopeSpansModel {
    pub scope: Option<ScopeModel>,
    pub spans: Seq<SpanModel>,
}

/// What the spans of a resource hold.
#[verifier::ext_equal]
pub struct ResourceSpansModel {
    pub resource: Option<Seq<KeyModel>>,
    pub scope_spans: Seq<ScopeSpansModel>,
}

/// What a request holds.
#[verifier::ext_equal]
pub struct TraceModel {
    pub resource_spans: Seq<ResourceSpansModel>,
}

impl View for SpanStatus {
    type V = StatusModel;

    open spec fn view(&self) -> StatusModel {
        StatusModel { message: self.message@, code: self.code }
    }
}

impl View for TraceSpan {
    type V = SpanModel;

    open spec fn view(&self) -> SpanModel {
        SpanModel {
            trace_id: self.trace_id@,
            span_id: self.span_id@,
            trace_state: self.trace_state@,
            parent_span_id: self.parent_span_id@,
            name: self.name@,
            kind: self.kind,
            start_time_unix_nano: self.start_time_unix_nano,
            end_time_unix_nano: self.end_time_unix_nano,
            attributes: attribute::key_models(self.attributes@),
            status: match self.status {
                Some(status) => Some(status@),
                None => None,
            },
        }
    }
}

impl View for InstrumentationScope {
    type V = ScopeModel;

    open spec fn view(&self) -> ScopeModel {
        ScopeModel {
            name: self.name@,
            version: self.version@,
            attributes: attribute::key_models(self.attributes@),
        }
    }
}

/// What a scope holds, where there is one.
pub open spec fn scope_model(scope: Option<InstrumentationScope>) -> Option<ScopeModel> {
    match scope {
        Some(scope) => Some(scope@),
        None => None,
    }
}

/// What the spans of a sequence hold.
pub open spec fn span_models(spans: Seq<TraceSpan>) -> Seq<SpanModel> {
    Seq::new(spans.len(), |i: int| spans[i]@)
}

impl View for ScopeTrace {
    type V = ScopeSpansModel;

    open spec fn view(&self) -> ScopeSpansModel {
        ScopeSpansModel { scope: scope_model(self.scope), spans: span_models(self.spans@) }
    }
}

/// What the scopes of a sequence hold.
pub open spec fn scope_span_models(scopes: Seq<ScopeTrace>) -> Seq<ScopeSpansModel> {
    Seq::new(scopes.len(), |i: int| scopes[i]@)
}

impl View for ResourceTrace {
    type V = ResourceSpansModel;

    open spec fn view(&self) -> ResourceSpansModel {
        ResourceSpansModel {
            resource: match self.resource {
                Some(resource) => Some(attribute::key_models(resource.attributes@)),
                None => None,
            },
            scope_spans: scope_span_models(self.scope_spans@),
        }
    }
}

/// What the resources of a sequence hold.
pub open spec fn resource_span_models(resources: Seq<ResourceTrace>) -> Seq<ResourceSpansModel> {
    Seq::new(resources.len(), |i: int| resources[i]@)
}

impl View for TraceRequest {
    type V = TraceModel;

    open spec fn view(&self) -> TraceModel {
        TraceModel { resource_spans: resource_span_models(self.resource_spans@) }
    }
}

/// A span with what is said of it from outside: the attributes of its resource, and its scope.
pub struct PlacedSpan {
    pub span: SpanModel,
    pub resource: Seq<KeyModel>,
    pub scope: Option<ScopeModel>,
}

impl ScopeSpansModel {
    /// The spans of the scope, in order, each with what is said of it from outside.
    pub open spec fn placed(self, resource: Seq<KeyModel>) -> Seq<PlacedSpan> {
        Seq::new(
            self.spans.len(),
            |i: int| PlacedSpan { span: self.spans[i], resource, scope: self.scope },
        )
    }
}

/// The spans of the scopes, in order.
pub open spec fn placed_in_scopes(
    resource: Seq<KeyModel>,
    scopes: Seq<ScopeSpansModel>,
) -> Seq<PlacedSpan>
    decreases scopes.len(),
{
    if scopes.len() == 0 {
        Seq::empty()
    } else {
        placed_in_scopes(resource, scopes.drop_last()) + scopes.last().placed(resource)
    }
}

impl ResourceSpansModel {
    /// The attributes of the resource; none where there is no resource.
    pub open spec fn attributes(self) -> Seq<KeyModel> {
        match self.resource {
            Some(attributes) => attributes,
            None => Seq::empty(),
        }
    }

    /// The spans of the resource, in order.
    pub open spec fn placed(self) -> Seq<PlacedSpan> {
        placed_in_scopes(self.attributes(), self.scope_spans)
    }
}

/// The spans of the resources, in order.
pub open spec fn placed_in_resources(resources: Seq<ResourceSpansModel>) -> Seq<PlacedSpan>
    decreases resources.len(),
{
    if resources.len() == 0 {
        Seq::empty()
    } else {
        placed_in_resources(resources.drop_last()) + resources.last().placed()
    }
}

impl TraceModel {
    /// All spans of the request, in order.
    pub open spec fn placed(self) -> Seq<PlacedSpan> {
        placed_in_resources(self.resource_spans)
    }
}

/// The spans of the first resources, and of the first scopes of the next one, are among all spans
/// of the request.
proof fn lemma_placed_prefix(
    resources: Seq<ResourceSpansModel>,
    i: int,
    j: int,
)
    requires
        0 <= i < resources.len(),
        0 <= j <= resources[i].scope_spans.len(),
    ensures
        placed_in_resources(resources.take(i)).len() + placed_in_scopes(
            resources[i].attributes(),
            resources[i].scope_spans.take(j),
        ).len() <= placed_in_resources(resources).len(),
{
    lemma_resources_prefix(resources, i + 1);
    assert(resources.take(i + 1).drop_last() =~= resources.take(i));
    lemma_scopes_prefix(resources[i].attributes(), resources[i].scope_spans, j);
}

/// More resources never hold fewer spans.
proof fn lemma_resources_prefix(resources: Seq<ResourceSpansModel>, i: int)
    requires
        0 <= i <= resources.len(),
    ensures
        placed_in_resources(resources.take(i)).len() <= placed_in_resources(resources).len(),
    decreases resources.len() - i,
{
    if i == resources.len() {
        assert(resources.take(i) =~= resources);
    } else {
        lemma_resources_prefix(resources, i + 1);
        assert(resources.take(i + 1).drop_last() =~= resources.take(i));
    }
}

/// More scopes never hold fewer spans.
proof fn lemma_scopes_prefix(resource: Seq<KeyModel>, scopes: Seq<ScopeSpansModel>, j: int)
    requires
        0 <= j <= scopes.len(),
    ensures
        placed_in_scopes(resource, scopes.take(j)).len() <= placed_in_scopes(
            resource,
            scopes,
        ).len(),
    decreases scopes.len() - j,
{
    if j == scopes.len() {
        assert(scopes.take(j) =~= scopes);
    } else {
        lemma_scopes_prefix(resource, scopes, j + 1);
        assert(scopes.take(j + 1).drop_last() =~= scopes.take(j));
    }
}

/// The number of spans in a request, where it can be counted.
pub fn count_spans(request: &TraceRequest) -> (r: Option<usize>)
    ensures
        match r {
            Some(n) => n == request@.placed().len(),
            None => request@.placed().len() > usize::MAX,
        },
{
    let mut count: usize = 0;
    let ghost resources = request@.resource_spans;
    let mut i: usize = 0;
    while i < request.resource_spans.len()
        invariant
            i <= request.resource_spans.len(),
            resources == request@.resource_spans,
            count == placed_in_resources(resources.take(i as int)).len(),
        decreases request.resource_spans.len() - i,
    {
        let entry: &ResourceTrace = &request.resource_spans[i];
        let ghost scopes = entry@.scope_spans;
        let ghost resource = entry@.attributes();
        let ghost start = count as nat;
        assert(resources[i as int] == entry@);
        let mut j: usize = 0;
        while j < entry.scope_spans.len()
            invariant
                i < request.resource_spans.len(),
                j <= entry.scope_spans.len(),
                resources == request@.resource_spans,
                resources[i as int] == entry@,
                scopes == entry@.scope_spans,
                resource == entry@.attributes(),
                start == placed_in_resources(resources.take(i as int)).len(),
                count == start + placed_in_scopes(resource, scopes.take(j as int)).len(),
            decreases entry.scope_spans.len() - j,
        {
            assert(scopes.take(j + 1).drop_last() =~= scopes.take(j as int));
            assert(scopes[j as int] == entry.scope_spans@[j as int]@);
            proof {
                lemma_placed_prefix(resources, i as int, j + 1);
            }
            match count.checked_add(entry.scope_spans[j].spans.len()) {
                Some(sum) => {
                    count = sum;
                },
                None => {
                    return None;
                },
            }
            j += 1;
        }
        assert(scopes.take(scopes.len() as int) =~= scopes);
        assert(resources.take(i + 1).drop_last() =~= resources.take(i as int));
        i += 1;
    }
    assert(resources.take(resources.len() as int) =~= resources);
    Some(count)
}

/// The number of spans in a request.
pub fn span_count(request: &TraceRequest) -> (r: usize)
    requires
        request@.placed().len() <= usize::MAX,
    ensures
        r == request@.placed().len(),
{
    match count_spans(request) {
        Some(n) => n,
        None => 0,
    }
}

/// The spans of more resources stand behind those of the first ones, and the spans of more scopes
/// behind those of the first ones.
pub proof fn spans_are_placed_in_order(
    resources: Seq<ResourceSpansModel>,
    more: Seq<ResourceSpansModel>,
    resource: Seq<KeyModel>,
    scopes: Seq<ScopeSpansModel>,
    more_scopes: Seq<ScopeSpansModel>,
)
    ensures
        placed_in_resources(resources + more) == placed_in_resources(resources)
            + placed_in_resources(more),
        placed_in_scopes(resource, scopes + more_scopes) == placed_in_scopes(resource, scopes)
            + placed_in_scopes(resource, more_scopes),
    decreases more.len() + more_scopes.len(),
{
    if more.len() > 0 {
        let front = more.drop_last();
        spans_are_placed_in_order(resources, front, resource, scopes, Seq::empty());
        assert((resources + more).drop_last() =~= resources + front);
        assert(placed_in_resources(resources) + placed_in_resources(more) =~= placed_in_resources(
            resources,
        ) + placed_in_resources(front) + more.last().placed());
    } else {
        assert(resources + more =~= resources);
        assert(placed_in_resources(resources) + placed_in_resources(more) =~= placed_in_resources(
            resources,
        ));
    }
    if more_scopes.len() > 0 {
        let front = more_scopes.drop_last();
        spans_are_placed_in_order(resources, Seq::empty(), resource, scopes, front);
        assert((scopes + more_scopes).drop_last() =~= scopes + front);
        assert(placed_in_scopes(resource, scopes) + placed_in_scopes(resource, more_scopes)
            =~= placed_in_scopes(resource, scopes) + placed_in_scopes(resource, front)
            + more_scopes.last().placed(resource));
    } else {
        assert(scopes + more_scopes =~= scopes);
        assert(placed_in_scopes(resource, scopes) + placed_in_scopes(resource, more_scopes)
            =~= placed_in_scopes(resource, scopes));
    }
}

/// The spans of a request with one scope in one resource are the spans of the scope, in order, each
/// with the attributes of the resource, or none where there is no resource, and with the scope.
pub proof fn spans_keep_their_resource_and_scope(request: TraceRequest, k: int)
    requires
        request.resource_spans@.len() == 1,
        request.resource_spans@[0].scope_spans@.len() == 1,
        0 <= k < request.resource_spans@[0].scope_spans@[0].spans@.len(),
    ensures
        ({
            let entry = request.resource_spans@[0];
            let group = entry.scope_spans@[0];
            let placed = request@.placed();
            &&& placed.len() == group.spans@.len()
            &&& placed[k].span == group.spans@[k]@
            &&& entry.resource is None ==> placed[k].resource == Seq::<KeyModel>::empty()
            &&& entry.resource is Some ==> placed[k].resource == attribute::key_models(
                entry.resource->0.attributes@,
            )
            &&& group.scope is None ==> placed[k].scope is None
            &&& group.scope is Some ==> placed[k].scope == Some(group.scope->0@)
        }),
{
    reveal_with_fuel(placed_in_resources, 2);
    reveal_with_fuel(placed_in_scopes, 2);
    let resources = request@.resource_spans;
    let entry = request.resource_spans@[0];
    let scopes = entry@.scope_spans;
    assert(resources.drop_last() =~= Seq::empty());
    assert(resources.last() == entry@);
    assert(scopes.drop_last() =~= Seq::empty());
    assert(scopes.last() == entry.scope_spans@[0]@);
    assert(request@.placed() =~= entry.scope_spans@[0]@.placed(entry@.attributes()));
}

/// The number of spans of a request grows by those of every further scope and every further
/// resource, and each scope counts its spans.
pub proof fn spans_are_counted(
    resource: Seq<KeyModel>,
    scopes: Seq<ScopeSpansModel>,
    scope: ScopeSpansModel,
    resources: Seq<ResourceSpansModel>,
    entry: ResourceSpansModel,
)
    ensures
        placed_in_scopes(resource, Seq::empty()).len() == 0,
        placed_in_resources(Seq::empty()).len() == 0,
        placed_in_scopes(resource, scopes.push(scope)).len() == placed_in_scopes(
            resource,
            scopes,
        ).len() + scope.spans.len(),
        placed_in_resources(resources.push(entry)).len() == placed_in_resources(resources).len()
            + placed_in_scopes(resource, entry.scope_spans).len(),
{
    assert(scopes.push(scope).drop_last() =~= scopes);
    assert(resources.push(entry).drop_last() =~= resources);
    lemma_count_is_of_the_scopes(resource, entry.attributes(), entry.scope_spans);
}

/// How many spans there are does not depend on the resource.
proof fn lemma_count_is_of_the_scopes(
    one: Seq<KeyModel>,
    other: Seq<KeyModel>,
    scopes: Seq<ScopeSpansModel>,
)
    ensures
        placed_in_scopes(one, scopes).len() == placed_in_scopes(other, scopes).len(),
    decreases scopes.len(),
{
    if scopes.len() > 0 {
        lemma_count_is_of_the_scopes(one, other, scopes.drop_last());
    }
}

/// What is counted is the number of spans that a request holds.
pub proof fn the_count_is_of_all_spans(request: &TraceRequest, r: usize)
    requires
        call_ensures(span_count, (request,), r),
        request@.placed().len() <= usize::MAX,
    ensures
        r == request@.placed().len(),
{
}

} // verus!
