//! The decisions of the service on requests: what is let in, how much of it, and how it is answered
//! otherwise.
use crate::access;
use crate::access::{AuthorizedTenant, TenantRule};
use crate::durable;
use crate::observation;
use crate::observation::{Observation, ObservationView, TenantId};
use crate::otlp;
use crate::otlp::{MappedTraceBatch, OtlpEncoding};
use crate::reply;
use crate::reply::ApiError;
use crate::text;
use crate::trace;
use crate::trace::TraceRequest;
use crate::wire;
use vstd::prelude::*;
use vstd::string::StringExecFns;

verus! {

/// The largest number of observations in one request.
pub const MAX_BATCH_SIZE: usize = 1_000;

/// The number of batches that are dealt with at a time.
pub const BATCH_SLOTS: usize = 8;

/// The largest size of a trace request.
pub const MAX_TRACE_BYTES: usize = 4_194_304;

/// The largest number of spans in a trace request.
pub const MAX_TRACE_SPANS: usize = 1_000;

/// The number of dead letters that are listed where no number is asked for.
pub const DEFAULT_DEAD_LETTERS: usize = 100;

/// The tenant of an observation is served and covered by the key.
pub open spec fn served(
    rule: TenantRule,
    authorized: AuthorizedTenant,
    item: ObservationView,
) -> bool {
    rule.admits(item.tenant_id.0) && authorized.covers(item.tenant_id.0)
}

/// Lets an observation in whose tenant is served and covered by the key, and which is valid.
pub fn admit_observation(
    rule: TenantRule,
    authorized: &AuthorizedTenant,
    item: &Observation,
) -> (r: Result<(), ApiError>)
    ensures
        match r {
            Ok(_) => served(rule, *authorized, item@) && item@.flaw() is None,
            Err(error) => if served(rule, *authorized, item@) {
                item@.flaw() matches Some(flaw) && error.says(reply::BAD_REQUEST, flaw.says())
            } else {
                rule.refuses(error)
            },
        },
{
    match access::check_tenant_for(rule, authorized, item.tenant_id.0) {
        Ok(_) => {},
        Err(error) => {
            return Err(error);
        },
    }
    match item.validate() {
        Ok(_) => Ok(()),
        Err(flaw) => Err(ApiError { status: reply::BAD_REQUEST, message: flaw.message() }),
    }
}

/// Every observation is of a tenant that is served and covered by the key.
pub open spec fn all_served(
    rule: TenantRule,
    authorized: AuthorizedTenant,
    items: Seq<ObservationView>,
) -> bool {
    forall|i: int| 0 <= i < items.len() ==> served(rule, authorized, #[trigger] items[i])
}

/// Lets a batch in of which all tenants are served and covered by the key, where a slot is free,
/// which is neither empty nor too long, and whose observations are valid. The first of these that
/// does not hold decides the answer.
pub fn admit_batch(
    rule: TenantRule,
    authorized: &AuthorizedTenant,
    items: &[Observation],
    slot_is_free: bool,
) -> (r: Result<(), ApiError>)
    ensures
        ({
            let views = observation::observation_views(items@);
            let flaw = durable::first_flaw(views);
            match r {
                Ok(_) => {
                    &&& all_served(rule, *authorized, views)
                    &&& slot_is_free
                    &&& 0 < views.len() <= MAX_BATCH_SIZE
                    &&& flaw is None
                },
                Err(error) => if !all_served(rule, *authorized, views) {
                    rule.refuses(error)
                } else if !slot_is_free {
                    error.says(reply::TOO_MANY_REQUESTS, "batch ingestion is busy; retry later"@)
                } else if views.len() == 0 {
                    error.says(reply::BAD_REQUEST, "observations must not be empty"@)
                } else if views.len() > MAX_BATCH_SIZE {
                    error.says(
                        reply::PAYLOAD_TOO_LARGE,
                        "batch cannot contain more than 1000 observations"@,
                    )
                } else {
                    flaw is Some && error.says(reply::BAD_REQUEST, (flaw->0).says())
                },
            }
        }),
{
    let ghost views = observation::observation_views(items@);
    let mut i: usize = 0;
    while i < items.len()
        invariant
            i <= items.len(),
            views == observation::observation_views(items@),
            forall|k: int| 0 <= k < i ==> served(rule, *authorized, #[trigger] views[k]),
        decreases items.len() - i,
    {
        match access::check_tenant_for(rule, authorized, items[i].tenant_id.0) {
            Ok(_) => {},
            Err(error) => {
                assert(!served(rule, *authorized, views[i as int]));
                return Err(error);
            },
        }
        i += 1;
    }
    assert(all_served(rule, *authorized, views));
    if !slot_is_free {
        return Err(
            ApiError::new(reply::TOO_MANY_REQUESTS, "batch ingestion is busy; retry later"),
        );
    }
    if items.len() == 0 {
        return Err(ApiError::new(reply::BAD_REQUEST, "observations must not be empty"));
    }
    if items.len() > MAX_BATCH_SIZE {
        return Err(
            ApiError::new(
                reply::PAYLOAD_TOO_LARGE,
                "batch cannot contain more than 1000 observations",
            ),
        );
    }
    match durable::check_all(items) {
        Ok(_) => Ok(()),
        Err(flaw) => Err(ApiError { status: reply::BAD_REQUEST, message: flaw.message() }),
    }
}

/// Refuses an objective that is blank.
pub fn check_objective(objective: &str) -> (r: Result<(), ApiError>)
    ensures
        match r {
            Ok(_) => !text::blank(objective@),
            Err(error) => text::blank(objective@) && error.says(
                reply::BAD_REQUEST,
                "objective must not be empty"@,
            ),
        },
{
    if text::is_blank(objective) {
        Err(ApiError::new(reply::BAD_REQUEST, "objective must not be empty"))
    } else {
        Ok(())
    }
}

/// The answer to a request for the queue where there is none.
pub fn queue_is_disabled() -> (r: ApiError)
    ensures
        r.says(reply::CONFLICT, "durable ingestion queue is not enabled"@),
{
    ApiError::new(reply::CONFLICT, "durable ingestion queue is not enabled")
}

/// Lets a request for the queue of a tenant in: first the tenant has to be served and covered by the
/// key, and then there has to be a queue.
pub fn admit_queue_request(
    rule: TenantRule,
    authorized: &AuthorizedTenant,
    tenant_id: u128,
    has_queue: bool,
) -> (r: Result<(), ApiError>)
    ensures
        match r {
            Ok(_) => rule.admits(tenant_id) && authorized.covers(tenant_id) && has_queue,
            Err(error) => if rule.admits(tenant_id) && authorized.covers(tenant_id) {
                !has_queue && error.says(
                    reply::CONFLICT,
                    "durable ingestion queue is not enabled"@,
                )
            } else {
                rule.refuses(error)
            },
        },
{
    match access::check_tenant_for(rule, authorized, tenant_id) {
        Ok(_) => if has_queue {
            Ok(())
        } else {
            Err(queue_is_disabled())
        },
        Err(error) => Err(error),
    }
}

/// The answer to a request to queue a dead letter anew.
pub fn replay_reply(replayed: bool) -> (r: Result<u16, ApiError>)
    ensures
        match r {
            Ok(status) => replayed && status == reply::ACCEPTED,
            Err(error) => !replayed && error.says(reply::NOT_FOUND, "dead letter was not found"@),
        },
{
    if replayed {
        Ok(reply::ACCEPTED)
    } else {
        Err(ApiError::new(reply::NOT_FOUND, "dead letter was not found"))
    }
}

/// Where a model request goes.
#[derive(Debug, Clone, PartialEq, Eq)]
pub enum ProviderChoice {
    /// It is answered without a model.
    Deterministic,
    /// It goes to an endpoint with a key.
    Remote { endpoint: String, key: String },
}

/// Where model requests go as the configuration says: to the endpoint, which needs a key, where one
/// is configured.
pub fn choose_provider(endpoint: Option<&str>, key: Option<&str>) -> (r: Result<
    ProviderChoice,
    ApiError,
>)
    ensures
        match r {
            Ok(ProviderChoice::Deterministic) => endpoint is None,
            Ok(ProviderChoice::Remote { endpoint: e, key: k }) => {
                &&& endpoint matches Some(given) && e@ == given@
                &&& key matches Some(given) && k@ == given@
            },
            Err(error) => {
                &&& endpoint is Some
                &&& key is None
                &&& error.says(
                    reply::INTERNAL_SERVER_ERROR,
                    "MODEL_API_KEY is required when MODEL_PROVIDER_URL is configured"@,
                )
            },
        },
{
    match endpoint {
        Some(endpoint) => match key {
            Some(key) => Ok(
                ProviderChoice::Remote { endpoint: endpoint.to_owned(), key: key.to_owned() },
            ),
            None => Err(
                ApiError::new(
                    reply::INTERNAL_SERVER_ERROR,
                    "MODEL_API_KEY is required when MODEL_PROVIDER_URL is configured",
                ),
            ),
        },
        None => Ok(ProviderChoice::Deterministic),
    }
}

/// Refuses the reply of a provider whose status is not one of success; `shown` is how the status
/// is written out.
pub fn check_provider_status(code: u16, shown: &str) -> (r: Result<(), ApiError>)
    ensures
        match r {
            Ok(_) => 200 <= code < 300,
            Err(error) => !(200 <= code < 300) && error.says(
                reply::BAD_GATEWAY,
                "model provider returned "@ + shown@,
            ),
        },
{
    if 200 <= code && code < 300 {
        Ok(())
    } else {
        let mut message: String = "model provider returned ".to_owned();
        message.append(shown);
        Err(ApiError { status: reply::BAD_GATEWAY, message })
    }
}

/// Where observations are kept, and whether they are queued first.
#[derive(Debug, Clone, Copy, PartialEq, Eq, Structural)]
pub enum StoragePlan {
    /// In a file, directly.
    Jsonl,
    /// In a database, directly.
    Sqlite,
    /// In a database, through its queue.
    DurableSqlite,
}

/// Where observations are kept as the configuration says. Only a database has a queue.
pub fn storage_plan(storage: &str, ingest_mode: &str) -> (r: Result<StoragePlan, String>)
    ensures
        match r {
            Ok(plan) => {
                &&& plan == StoragePlan::DurableSqlite <==> ingest_mode@ == "durable"@
                &&& plan != StoragePlan::DurableSqlite ==> ingest_mode@ == "direct"@
                &&& plan == StoragePlan::Jsonl <==> storage@ != "sqlite"@
            },
            Err(message) => if ingest_mode@ != "direct"@ && ingest_mode@ != "durable"@ {
                message@ == "OBSERVABILITY_INGEST_MODE must be direct or durable"@
            } else {
                &&& ingest_mode@ == "durable"@
                &&& storage@ != "sqlite"@
                &&& message@ == "durable ingestion requires OBSERVABILITY_STORAGE=sqlite"@
            },
        },
{
    proof {
        reveal_strlit("direct");
        reveal_strlit("durable");
        assert("direct"@.len() != "durable"@.len());
    }
    let durable: bool = text::same(ingest_mode, "durable");
    if !durable && !text::same(ingest_mode, "direct") {
        return Err("OBSERVABILITY_INGEST_MODE must be direct or durable".to_owned());
    }
    let sqlite: bool = text::same(storage, "sqlite");
    if durable && !sqlite {
        return Err("durable ingestion requires OBSERVABILITY_STORAGE=sqlite".to_owned());
    }
    if durable {
        Ok(StoragePlan::DurableSqlite)
    } else if sqlite {
        Ok(StoragePlan::Sqlite)
    } else {
        Ok(StoragePlan::Jsonl)
    }
}

/// The body is sent as it is.
pub open spec fn is_plain(content_encoding: Option<Seq<char>>) -> bool {
    content_encoding matches Some(name) ==> text::lowered(text::trimmed(name)) == "identity"@
}

/// The code of a status in the error body of a trace request.
pub open spec fn rpc_code_of(status: u16) -> i32 {
    if status == reply::BAD_REQUEST || status == reply::UNSUPPORTED_MEDIA_TYPE {
        3
    } else if status == reply::FORBIDDEN {
        7
    } else if status == reply::PAYLOAD_TOO_LARGE || status == reply::TOO_MANY_REQUESTS {
        8
    } else if status == reply::UNAUTHORIZED {
        16
    } else {
        13
    }
}

/// The code of a status in the error body of a trace request: an invalid argument, a denied
/// permission, an exhausted resource, a missing authentication, or else an internal error.
pub fn rpc_code(status: u16) -> (r: i32)
    ensures
        r == rpc_code_of(status),
{
    if status == reply::BAD_REQUEST || status == reply::UNSUPPORTED_MEDIA_TYPE {
        3
    } else if status == reply::FORBIDDEN {
        7
    } else if status == reply::PAYLOAD_TOO_LARGE || status == reply::TOO_MANY_REQUESTS {
        8
    } else if status == reply::UNAUTHORIZED {
        16
    } else {
        13
    }
}

/// The observations of the spans of a trace request, which may not hold too many of them.
pub fn map_traces(request: TraceRequest, tenant_id: TenantId) -> (r: Result<
    MappedTraceBatch,
    ApiError,
>)
    ensures
        match r {
            Ok(batch) => {
                &&& request@.placed().len() <= MAX_TRACE_SPANS
                &&& observation::observation_views(batch.observations@) == otlp::accepted(
                    request@.placed(),
                    tenant_id,
                )
                &&& batch.rejected_spans == otlp::refused(request@.placed())
                &&& batch.error_message@ == otlp::refusal_message(request@.placed())
            },
            Err(error) => {
                &&& request@.placed().len() > MAX_TRACE_SPANS
                &&& error.says(
                    reply::PAYLOAD_TOO_LARGE,
                    "trace request cannot contain more than 1000 spans"@,
                )
            },
        },
{
    let few: bool = match trace::count_spans(&request) {
        Some(n) => n <= MAX_TRACE_SPANS,
        None => false,
    };
    if !few {
        return Err(
            ApiError::new(
                reply::PAYLOAD_TOO_LARGE,
                "trace request cannot contain more than 1000 spans",
            ),
        );
    }
    proof {
        otlp::every_span_is_accounted_for(request@.placed(), tenant_id);
    }
    Ok(otlp::map_request(request, tenant_id))
}

/// The tenant that a trace request is for, which its header has to name.
pub fn trace_tenant(header: Option<&str>) -> (r: Result<TenantId, ApiError>)
    ensures
        match r {
            Ok(tenant_id) => access::named_tenant(access::optional(header)) == Some(tenant_id.0),
            Err(error) => {
                &&& access::named_tenant(access::optional(header)) is None
                &&& error.says(reply::BAD_REQUEST, "x-tenant-id must be a UUID"@)
            },
        },
{
    match access::tenant_of(header) {
        Some(id) => Ok(TenantId(id)),
        None => Err(ApiError::new(reply::BAD_REQUEST, "x-tenant-id must be a UUID")),
    }
}

/// The encoding of a trace request whose body is within the limit, and sent as it is.
pub fn admit_trace(
    content_type: Option<&str>,
    content_encoding: Option<&str>,
    size: usize,
) -> (r: Result<OtlpEncoding, ApiError>)
    ensures
        match r {
            Ok(encoding) => {
                &&& content_type matches Some(s) && OtlpEncoding::of_media_type(
                    otlp::media_type(s@),
                ) == Some(encoding)
                &&& is_plain(access::optional(content_encoding))
                &&& size <= MAX_TRACE_BYTES
            },
            Err(error) => if !(content_type matches Some(s) && OtlpEncoding::of_media_type(
                otlp::media_type(s@),
            ) is Some) {
                error.says(
                    reply::UNSUPPORTED_MEDIA_TYPE,
                    "content-type must be application/x-protobuf or application/json"@,
                )
            } else if !is_plain(access::optional(content_encoding)) {
                error.says(reply::UNSUPPORTED_MEDIA_TYPE, "content-encoding is not supported"@)
            } else {
                size > MAX_TRACE_BYTES && error.says(
                    reply::PAYLOAD_TOO_LARGE,
                    "trace request cannot be larger than 4 MiB"@,
                )
            },
        },
{
    let encoding: OtlpEncoding = match OtlpEncoding::from_content_type(content_type) {
        Ok(encoding) => encoding,
        Err(error) => {
            return Err(
                ApiError { status: reply::UNSUPPORTED_MEDIA_TYPE, message: error.message() },
            );
        },
    };
    let plain: bool = match content_encoding {
        Some(name) => text::same(text::lowercase(text::trim(name)).as_str(), "identity"),
        None => true,
    };
    if !plain {
        return Err(
            ApiError::new(reply::UNSUPPORTED_MEDIA_TYPE, "content-encoding is not supported"),
        );
    }
    if size > MAX_TRACE_BYTES {
        return Err(
            ApiError::new(reply::PAYLOAD_TOO_LARGE, "trace request cannot be larger than 4 MiB"),
        );
    }
    Ok(encoding)
}

/// The observations of the spans in the body of a trace request.
pub fn receive_traces(encoding: OtlpEncoding, body: &[u8], tenant_id: TenantId) -> (r: Result<
    MappedTraceBatch,
    ApiError,
>)
    ensures
        match wire::decoded(encoding, body@) {
            Ok(request) => match r {
                Ok(batch) => {
                    &&& request.placed().len() <= MAX_TRACE_SPANS
                    &&& observation::observation_views(batch.observations@) == otlp::accepted(
                        request.placed(),
                        tenant_id,
                    )
                    &&& batch.rejected_spans == otlp::refused(request.placed())
                    &&& batch.error_message@ == otlp::refusal_message(request.placed())
                },
                Err(error) => {
                    &&& request.placed().len() > MAX_TRACE_SPANS
                    &&& error.says(
                        reply::PAYLOAD_TOO_LARGE,
                        "trace request cannot contain more than 1000 spans"@,
                    )
                },
            },
            Err(message) => r matches Err(error) && error.says(
                reply::BAD_REQUEST,
                "invalid OTLP trace payload: "@ + message,
            ),
        },
{
    match wire::decode_request(encoding, body) {
        Ok(request) => map_traces(request, tenant_id),
        Err(error) => Err(ApiError { status: reply::BAD_REQUEST, message: error.message() }),
    }
}

/// An observation is let in where its tenant is served, the key covers it, and it is valid; else it
/// is refused as the tenant is, or with 400 and what is wrong with it.
pub proof fn an_observation_is_let_in(
    rule: TenantRule,
    authorized: &AuthorizedTenant,
    item: &Observation,
    r: Result<(), ApiError>,
    tenant: Result<(), ApiError>,
    valid: Result<(), observation::ObservationError>,
)
    requires
        call_ensures(admit_observation, (rule, authorized, item), r),
        call_ensures(access::check_tenant_for, (rule, authorized, item.tenant_id.0), tenant),
        call_ensures(Observation::validate, (item,), valid),
    ensures
        r is Ok <==> tenant is Ok && valid is Ok,
        tenant is Err ==> r->Err_0.status == tenant->Err_0.status && r->Err_0.message@
            == tenant->Err_0.message@,
        tenant is Ok && valid is Err ==> r->Err_0.status == 400 && r->Err_0.message@
            == valid->Err_0.says(),
{
    assert(item@.tenant_id == item.tenant_id);
}

/// A batch is refused for the first of these: a tenant that is not served or covered, no free slot
/// (429), no observation (400), more than a thousand (413), an observation that is not valid (400,
/// with what is wrong with the first of them). Else it is let in.
pub proof fn a_batch_is_let_in(
    rule: TenantRule,
    authorized: &AuthorizedTenant,
    items: &[Observation],
    slot_is_free: bool,
    r: Result<(), ApiError>,
)
    requires
        call_ensures(admit_batch, (rule, authorized, items, slot_is_free), r),
    ensures
        ({
            let served = forall|i: int|
                0 <= i < items@.len() ==> rule.admits((#[trigger] items@[i]).tenant_id.0) && (
                authorized.0 is None || authorized.0 == Some(items@[i].tenant_id.0));
            let flaw = durable::first_flaw(observation::observation_views(items@));
            &&& r is Ok <==> served && slot_is_free && 1 <= items@.len() <= 1_000 && flaw is None
            &&& served && !slot_is_free ==> r->Err_0.status == 429 && r->Err_0.message@
                == "batch ingestion is busy; retry later"@
            &&& served && slot_is_free && items@.len() == 0 ==> r->Err_0.status == 400
                && r->Err_0.message@ == "observations must not be empty"@
            &&& served && slot_is_free && items@.len() > 1_000 ==> r->Err_0.status == 413
                && r->Err_0.message@ == "batch cannot contain more than 1000 observations"@
            &&& served && slot_is_free && 1 <= items@.len() <= 1_000 && flaw is Some
                ==> r->Err_0.status == 400 && r->Err_0.message@ == flaw->0.says()
            &&& !served ==> r->Err_0.status == if rule == TenantRule::Malformed {
                500u16
            } else {
                403u16
            }
        }),
{
    let views = observation::observation_views(items@);
    assert forall|i: int| 0 <= i < items@.len() implies served(
        rule,
        *authorized,
        #[trigger] views[i],
    ) == (rule.admits(items@[i].tenant_id.0) && (authorized.0 is None || authorized.0 == Some(
        items@[i].tenant_id.0,
    ))) by {
        assert(views[i] == items@[i]@);
    }
    if all_served(rule, *authorized, views) {
        assert forall|i: int| 0 <= i < items@.len() implies rule.admits(
            (#[trigger] items@[i]).tenant_id.0,
        ) && (authorized.0 is None || authorized.0 == Some(items@[i].tenant_id.0)) by {
            assert(served(rule, *authorized, views[i]));
        }
    } else {
        let i = choose|i: int|
            0 <= i < views.len() && !served(rule, *authorized, #[trigger] views[i]);
        assert(items@[i]@ == views[i]);
    }
}

/// A request for a queue needs a tenant that is served and covered, and then a queue (409).
pub proof fn a_queue_request_needs_a_queue(
    rule: TenantRule,
    authorized: &AuthorizedTenant,
    tenant_id: u128,
    has_queue: bool,
    r: Result<(), ApiError>,
    tenant: Result<(), ApiError>,
)
    requires
        call_ensures(admit_queue_request, (rule, authorized, tenant_id, has_queue), r),
        call_ensures(access::check_tenant_for, (rule, authorized, tenant_id), tenant),
    ensures
        r is Ok <==> tenant is Ok && has_queue,
        tenant is Err ==> r->Err_0.status == tenant->Err_0.status && r->Err_0.message@
            == tenant->Err_0.message@,
        tenant is Ok && !has_queue ==> r->Err_0.status == 409 && r->Err_0.message@
            == "durable ingestion queue is not enabled"@,
{
}

/// An objective that holds nothing but white space is refused with 400; a dead letter that was
/// queued anew is answered with 202, and one that was not found with 404; a provider is believed
/// where its status is one of success, and else answered with 502.
pub proof fn small_requests_are_answered(
    objective: &str,
    asked: Result<(), ApiError>,
    replayed: bool,
    replay: Result<u16, ApiError>,
    code: u16,
    shown: &str,
    provider: Result<(), ApiError>,
    disabled: ApiError,
)
    requires
        call_ensures(check_objective, (objective,), asked),
        call_ensures(replay_reply, (replayed,), replay),
        call_ensures(check_provider_status, (code, shown), provider),
        call_ensures(queue_is_disabled, (), disabled),
    ensures
        asked is Ok <==> exists|i: int|
            0 <= i < objective@.len() && !text::white(#[trigger] objective@[i]),
        asked is Err ==> asked->Err_0.status == 400 && asked->Err_0.message@
            == "objective must not be empty"@,
        replayed ==> replay == Ok::<u16, ApiError>(202),
        !replayed ==> replay is Err && replay->Err_0.status == 404 && replay->Err_0.message@
            == "dead letter was not found"@,
        provider is Ok <==> 200 <= code <= 299,
        provider is Err ==> provider->Err_0.status == 502 && provider->Err_0.message@
            == "model provider returned "@ + shown@,
        disabled.status == 409,
        disabled.message@ == "durable ingestion queue is not enabled"@,
{
    assert(text::blank(objective@) <==> !exists|i: int|
        0 <= i < objective@.len() && !text::white(#[trigger] objective@[i]));
}

/// Requests go to the endpoint with the key where both are configured; an endpoint without a key is
/// a fault of the installation, and without an endpoint no model is asked.
pub proof fn an_endpoint_needs_a_key(
    endpoint: Option<&str>,
    key: Option<&str>,
    r: Result<ProviderChoice, ApiError>,
)
    requires
        call_ensures(choose_provider, (endpoint, key), r),
    ensures
        endpoint is None ==> r is Ok && r->Ok_0 is Deterministic,
        endpoint is Some && key is Some ==> r is Ok && r->Ok_0 is Remote && r->Ok_0->endpoint@
            == endpoint->0@ && r->Ok_0->key@ == key->0@,
        endpoint is Some && key is None ==> r is Err && r->Err_0.status == 500 && r->Err_0.message@
            == "MODEL_API_KEY is required when MODEL_PROVIDER_URL is configured"@,
{
}

/// Observations are kept in a database where `sqlite` is configured, and else in a file; they are
/// queued first where the mode is `durable`, which needs the database. Any mode but `direct` and
/// `durable` is refused.
pub proof fn storage_is_planned_as_configured(
    storage: &str,
    ingest_mode: &str,
    r: Result<StoragePlan, String>,
)
    requires
        call_ensures(storage_plan, (storage, ingest_mode), r),
    ensures
        ingest_mode@ == "direct"@ && storage@ == "sqlite"@ ==> r == Ok::<StoragePlan, String>(
            StoragePlan::Sqlite,
        ),
        ingest_mode@ == "direct"@ && storage@ != "sqlite"@ ==> r == Ok::<StoragePlan, String>(
            StoragePlan::Jsonl,
        ),
        ingest_mode@ == "durable"@ && storage@ == "sqlite"@ ==> r == Ok::<StoragePlan, String>(
            StoragePlan::DurableSqlite,
        ),
        ingest_mode@ == "durable"@ && storage@ != "sqlite"@ ==> r is Err && r->Err_0@
            == "durable ingestion requires OBSERVABILITY_STORAGE=sqlite"@,
        ingest_mode@ != "durable"@ && ingest_mode@ != "direct"@ ==> r is Err && r->Err_0@
            == "OBSERVABILITY_INGEST_MODE must be direct or durable"@,
{
    reveal_strlit("direct");
    reveal_strlit("durable");
    assert("direct"@.len() == 6 && "durable"@.len() == 7);
}

/// An error body has the code of an invalid argument for 400 and 415, of a denied permission for
/// 403, of an exhausted resource for 413 and 429, of a missing authentication for 401, and of an
/// internal error for anything else.
pub proof fn error_codes_follow_the_status(status: u16, r: i32)
    requires
        call_ensures(rpc_code, (status,), r),
    ensures
        status == 400 || status == 415 ==> r == 3,
        status == 403 ==> r == 7,
        status == 413 || status == 429 ==> r == 8,
        status == 401 ==> r == 16,
        status != 400 && status != 401 && status != 403 && status != 413 && status != 415 && status
            != 429 ==> r == 13,
{
}

/// A trace request with up to a thousand spans is mapped whole; one with more is refused with 413,
/// and nothing of it is mapped.
pub proof fn a_trace_request_has_a_thousand_spans_at_most(
    request: TraceRequest,
    tenant_id: TenantId,
    r: Result<MappedTraceBatch, ApiError>,
    mapped: MappedTraceBatch,
)
    requires
        call_ensures(map_traces, (request, tenant_id), r),
        call_ensures(otlp::map_request, (request, tenant_id), mapped),
    ensures
        r is Ok <==> request@.placed().len() <= 1_000,
        r is Err ==> r->Err_0.status == 413 && r->Err_0.message@
            == "trace request cannot contain more than 1000 spans"@,
        r is Ok ==> {
            &&& observation::observation_views(r->Ok_0.observations@)
                == observation::observation_views(mapped.observations@)
            &&& r->Ok_0.rejected_spans == mapped.rejected_spans
            &&& r->Ok_0.error_message@ == mapped.error_message@
        },
{
    if r is Ok {
        otlp::every_span_is_accounted_for(request@.placed(), tenant_id);
    }
}

/// A trace request names its tenant in a header that is an id; else it is refused with 400.
pub proof fn a_trace_request_names_its_tenant(header: Option<&str>, r: Result<TenantId, ApiError>)
    requires
        call_ensures(trace_tenant, (header,), r),
    ensures
        header is Some && crate::identity::id_parsed(header->0@) is Ok ==> r == Ok::<
            TenantId,
            ApiError,
        >(TenantId(crate::identity::id_parsed(header->0@)->Ok_0)),
        header is None || crate::identity::id_parsed(header->0@) is Err ==> r is Err
            && r->Err_0.status == 400 && r->Err_0.message@ == "x-tenant-id must be a UUID"@,
{
}

/// A trace body is taken where its content type names an encoding (else 415), it is sent as it is
/// (else 415), and it is no larger than four MiB (else 413); the first of these that fails decides.
pub proof fn a_trace_body_is_taken(
    content_type: Option<&str>,
    content_encoding: Option<&str>,
    size: usize,
    r: Result<OtlpEncoding, ApiError>,
    encoding: Result<OtlpEncoding, otlp::OtlpError>,
)
    requires
        call_ensures(admit_trace, (content_type, content_encoding, size), r),
        call_ensures(OtlpEncoding::from_content_type, (content_type,), encoding),
    ensures
        ({
            let plain = content_encoding is None || text::lowered(
                text::trimmed(content_encoding->0@),
            ) == "identity"@;
            &&& encoding is Ok && plain && size <= 4_194_304 ==> r is Ok && r->Ok_0
                == encoding->Ok_0
            &&& encoding is Err ==> r is Err && r->Err_0.status == 415 && r->Err_0.message@
                == "content-type must be application/x-protobuf or application/json"@
            &&& encoding is Ok && !plain ==> r is Err && r->Err_0.status == 415
                && r->Err_0.message@ == "content-encoding is not supported"@
            &&& encoding is Ok && plain && size > 4_194_304 ==> r is Err && r->Err_0.status == 413
                && r->Err_0.message@ == "trace request cannot be larger than 4 MiB"@
        }),
{
}

/// What a trace body is answered is what its request is: a body that cannot be read is refused with
/// 400 and what is wrong with it, and any other is mapped as the request that it holds.
pub proof fn a_trace_body_is_mapped_as_its_request(
    encoding: OtlpEncoding,
    body: &[u8],
    tenant_id: TenantId,
    r: Result<MappedTraceBatch, ApiError>,
    decoded: Result<TraceRequest, otlp::OtlpError>,
    mapped: Result<MappedTraceBatch, ApiError>,
)
    requires
        call_ensures(receive_traces, (encoding, body, tenant_id), r),
        call_ensures(wire::decode_request, (encoding, body), decoded),
        decoded is Ok ==> call_ensures(map_traces, (decoded->Ok_0, tenant_id), mapped),
    ensures
        decoded is Err ==> r is Err && r->Err_0.status == 400 && r->Err_0.message@
            == decoded->Err_0.says(),
        decoded is Ok ==> (r is Ok <==> mapped is Ok),
        decoded is Ok && r is Ok ==> {
            &&& observation::observation_views(r->Ok_0.observations@)
                == observation::observation_views(mapped->Ok_0.observations@)
            &&& r->Ok_0.rejected_spans == mapped->Ok_0.rejected_spans
            &&& r->Ok_0.error_message@ == mapped->Ok_0.error_message@
        },
        decoded is Ok && r is Err ==> r->Err_0.status == mapped->Err_0.status && r->Err_0.message@
            == mapped->Err_0.message@,
{
}

} // verus!
