//! Model completion requests: how each outcome is answered, and what a completed call leaves behind.
use crate::identity;
use crate::json;
use crate::json::Json;
use crate::observation::Observation;
use crate::provider;
use crate::provider::{DeterministicModelProvider, ModelProvider, ModelRequest, ModelResponse};
use crate::reply;
use crate::reply::ApiError;
use crate::service;
use crate::service::ProviderChoice;
use crate::text;
use crate::usage::{UsageEntry, UsageEntryView, UsageKind};
use vstd::prelude::*;

verus! {

/// The answer to a request without a remote provider. A blank prompt is refused.
pub fn local_answer(request: &ModelRequest) -> (r: Result<ModelResponse, ApiError>)
    requires
        request.countable(),
    ensures
        match r {
            Ok(answer) => !text::blank(request.prompt@) && answer@
                == provider::deterministic_answer(*request),
            Err(error) => text::blank(request.prompt@) && error.says(
                reply::BAD_REQUEST,
                "prompt must not be empty"@,
            ),
        },
{
    match DeterministicModelProvider.complete(request) {
        Ok(answer) => Ok(answer),
        Err(message) => Err(ApiError { status: reply::BAD_REQUEST, message }),
    }
}

/// The answer that the body of a remote provider's reply holds. A call that failed, and a body that
/// could not be read, come as the message of the failure; these, and a body without an answer, are
/// answered with a bad gateway.
pub fn remote_answer(request: &ModelRequest, body: Result<serde_json::Value, String>) -> (r: Result<
    ModelResponse,
    ApiError,
>)
    ensures
        match body {
            Err(message) => r matches Err(error) && error.says(reply::BAD_GATEWAY, message@),
            Ok(value) => match r {
                Ok(answer) => {
                    &&& provider::answer_at(json::json_of(value)) == Json::Str(answer.text@)
                    &&& answer.model@ == request.model@
                    &&& answer.input_tokens == provider::count_at(
                        json::json_of(value),
                        "prompt_tokens"@,
                    )
                    &&& answer.output_tokens == provider::count_at(
                        json::json_of(value),
                        "completion_tokens"@,
                    )
                },
                Err(error) => {
                    &&& !(provider::answer_at(json::json_of(value)) is Str)
                    &&& error.says(
                        reply::BAD_GATEWAY,
                        "provider response missing choices[0].message.content"@,
                    )
                },
            },
        },
{
    match body {
        Ok(value) => match provider::parse_model_response(value, request.model.as_str()) {
            Ok(answer) => Ok(answer),
            Err(message) => Err(ApiError { status: reply::BAD_GATEWAY, message }),
        },
        Err(message) => Err(ApiError { status: reply::BAD_GATEWAY, message }),
    }
}

/// How a call begins.
#[derive(Debug, PartialEq)]
pub enum FirstStep {
    /// It is refused.
    Refuse(ApiError),
    /// It is answered at once.
    Answer(ModelResponse),
    /// The body goes to an endpoint with a key.
    Send { endpoint: String, key: String, body: serde_json::Value },
}

/// How a call begins, as the configuration says. With an endpoint it goes there, which needs a key;
/// without one it is answered without a model, unless the prompt is blank.
pub fn begin_call(request: &ModelRequest, endpoint: Option<&str>, key: Option<&str>) -> (r: FirstStep)
    requires
        request.countable(),
    ensures
        match (endpoint, key) {
            (Some(url), Some(secret)) => {
                &&& r is Send
                &&& r->endpoint@ == url@
                &&& r->key@ == secret@
                &&& json::json_of(r->body) == provider::completion_json(*request)
            },
            (Some(_), None) => r matches FirstStep::Refuse(error) && error.says(
                reply::INTERNAL_SERVER_ERROR,
                "MODEL_API_KEY is required when MODEL_PROVIDER_URL is configured"@,
            ),
            (None, _) => if text::blank(request.prompt@) {
                r matches FirstStep::Refuse(error) && error.says(
                    reply::BAD_REQUEST,
                    "prompt must not be empty"@,
                )
            } else {
                r matches FirstStep::Answer(answer) && answer@ == provider::deterministic_answer(
                    *request,
                )
            },
        },
{
    match service::choose_provider(endpoint, key) {
        Ok(ProviderChoice::Remote { endpoint, key }) => FirstStep::Send {
            endpoint,
            key,
            body: provider::completion_request(request),
        },
        Ok(ProviderChoice::Deterministic) => match local_answer(request) {
            Ok(answer) => FirstStep::Answer(answer),
            Err(error) => FirstStep::Refuse(error),
        },
        Err(error) => FirstStep::Refuse(error),
    }
}

/// The usage that a completed call is accounted as.
pub open spec fn call_usage(request: ModelRequest, response: ModelResponse) -> UsageEntryView {
    UsageEntryView {
        tenant_id: request.tenant_id,
        period: "current"@,
        kind: UsageKind::ModelToken,
        quantity: (response.input_tokens + response.output_tokens) as u64,
    }
}

/// What a completed call leaves behind: one observation of the tenant, with the model as its trace
/// and without times, and one usage entry with the tokens. The ids of the observation are random.
pub fn call_record(request: &ModelRequest, response: &ModelResponse) -> (r: (
    Observation,
    UsageEntry,
))
    requires
        response.input_tokens + response.output_tokens <= u64::MAX,
    ensures
        r.0@ == provider::call_observation(
            *request,
            response@,
            request.model@,
            0,
            0,
            r.0.id,
            r.0.span_id@,
        ),
        identity::is_random(r.0.id),
        identity::is_random_text(r.0.span_id@),
        r.0@.flaw() is None,
        r.1@ == call_usage(*request, *response),
{
    let observation: Observation = provider::model_observation(
        request,
        response,
        request.model.as_str(),
        0,
        0,
    );
    proof {
        provider::call_observations_are_valid(
            *request,
            response@,
            request.model@,
            0,
            0,
            observation.id,
            observation.span_id@,
        );
    }
    (observation, provider::token_usage(request, response))
}

/// The tokens of an answer can be counted together.
pub open spec fn tokens_fit(answer: Result<ModelResponse, ApiError>) -> bool {
    answer matches Ok(response) ==> response.input_tokens + response.output_tokens <= u64::MAX
}

/// A completed call: what was answered, and what it leaves behind.
#[derive(Debug, PartialEq, Eq)]
pub struct CompletedCall {
    pub response: ModelResponse,
    pub observation: Observation,
    pub usage: UsageEntry,
}

impl CompletedCall {
    /// The call is the one of the request with this answer.
    pub open spec fn is_of(&self, request: ModelRequest, response: ModelResponse) -> bool {
        &&& self.response == response
        &&& self.observation@ == provider::call_observation(
            request,
            response@,
            request.model@,
            0,
            0,
            self.observation.id,
            self.observation.span_id@,
        )
        &&& identity::is_random(self.observation.id)
        &&& identity::is_random_text(self.observation.span_id@)
        &&& self.usage@ == call_usage(request, response)
    }
}

/// What a request comes to once it has its answer: a completed call, or, where there is no answer,
/// the refusal and nothing else.
pub fn complete_call(request: &ModelRequest, answer: Result<ModelResponse, ApiError>) -> (r: Result<
    CompletedCall,
    ApiError,
>)
    requires
        tokens_fit(answer),
    ensures
        match answer {
            Ok(response) => r matches Ok(call) && call.is_of(*request, response)
                && call.observation@.flaw() is None,
            Err(error) => r == Err::<CompletedCall, ApiError>(error),
        },
{
    match answer {
        Ok(response) => {
            let (observation, usage) = call_record(request, &response);
            Ok(CompletedCall { response, observation, usage })
        },
        Err(error) => Err(error),
    }
}

/// A call without an endpoint is answered at once, or refused with 400 where its prompt is blank; a
/// call with an endpoint needs a key, without which the installation is at fault, and goes there
/// with the body of a completion request, whatever its prompt.
pub proof fn a_call_goes_to_the_endpoint(
    request: &ModelRequest,
    endpoint: Option<&str>,
    key: Option<&str>,
    r: FirstStep,
    local: Result<ModelResponse, ApiError>,
    body: serde_json::Value,
)
    requires
        call_ensures(begin_call, (request, endpoint, key), r),
        call_ensures(local_answer, (request,), local),
        call_ensures(provider::completion_request, (request,), body),
        request.evidence_ids@.len() + 8 <= u64::MAX,
    ensures
        endpoint is Some && key is Some ==> r is Send && r->endpoint@ == endpoint->0@ && r->key@
            == key->0@ && json::json_of(r->body) == json::json_of(body),
        endpoint is Some && key is None ==> r is Refuse && r->Refuse_0.status == 500
            && r->Refuse_0.message@
            == "MODEL_API_KEY is required when MODEL_PROVIDER_URL is configured"@,
        endpoint is None && local is Ok ==> r is Answer && r->Answer_0@ == local->Ok_0@,
        endpoint is None && local is Err ==> r is Refuse && r->Refuse_0.status == 400
            && r->Refuse_0.message@ == "prompt must not be empty"@,
        local is Ok <==> exists|i: int|
            0 <= i < request.prompt@.len() && !text::white(#[trigger] request.prompt@[i]),
{
    assert(text::blank(request.prompt@) <==> !exists|i: int|
        0 <= i < request.prompt@.len() && !text::white(#[trigger] request.prompt@[i]));
}

/// The answer without a model is the one that the deterministic provider gives.
pub proof fn the_local_answer_is_the_deterministic_one(
    request: &ModelRequest,
    r: Result<ModelResponse, ApiError>,
    provider: &DeterministicModelProvider,
    given: Result<ModelResponse, String>,
)
    requires
        call_ensures(local_answer, (request,), r),
        call_ensures(DeterministicModelProvider::complete, (provider, request), given),
        request.evidence_ids@.len() + 8 <= u64::MAX,
    ensures
        r is Ok <==> given is Ok,
        r is Ok ==> r->Ok_0@ == given->Ok_0@,
        r is Err ==> r->Err_0.status == 400 && r->Err_0.message@ == given->Err_0@,
{
}

/// A remote call that failed is answered with 502 and the message of the failure; one whose reply
/// could be read with what the reply says, or with 502 where it says nothing.
pub proof fn a_remote_reply_is_answered(
    request: &ModelRequest,
    body: Result<serde_json::Value, String>,
    r: Result<ModelResponse, ApiError>,
    model: &str,
    parsed: Result<ModelResponse, String>,
)
    requires
        call_ensures(remote_answer, (request, body), r),
        model@ == request.model@,
        body is Ok ==> call_ensures(provider::parse_model_response, (body->Ok_0, model), parsed),
    ensures
        body is Err ==> r is Err && r->Err_0.status == 502 && r->Err_0.message@ == body->Err_0@,
        body is Ok && parsed is Ok ==> r is Ok && r->Ok_0@ == parsed->Ok_0@,
        body is Ok && parsed is Err ==> r is Err && r->Err_0.status == 502 && r->Err_0.message@
            == parsed->Err_0@,
{
}

/// A completed call hands on its answer, and leaves one valid observation of the tenant and one
/// usage entry with all its tokens behind. Without an answer the refusal is handed on.
pub proof fn a_completed_call_leaves_its_record(
    request: &ModelRequest,
    answer: Result<ModelResponse, ApiError>,
    r: Result<CompletedCall, ApiError>,
)
    requires
        call_ensures(complete_call, (request, answer), r),
        answer is Ok ==> answer->Ok_0.input_tokens + answer->Ok_0.output_tokens <= u64::MAX,
    ensures
        answer is Err ==> r is Err && r->Err_0 == answer->Err_0,
        answer is Ok ==> {
            &&& r is Ok
            &&& r->Ok_0.response == answer->Ok_0
            &&& r->Ok_0.observation.tenant_id == request.tenant_id
            &&& r->Ok_0.observation.name@ == "model.complete"@
            &&& r->Ok_0.observation.trace_id@ == request.model@
            &&& r->Ok_0.observation.kind == crate::observation::ObservationKind::Model
            &&& r->Ok_0.observation.status == crate::observation::ObservationStatus::Okay
            &&& r->Ok_0.observation.started_at_ms == 0
            &&& r->Ok_0.observation.duration_ms == 0
            &&& r->Ok_0.observation.attributes@ == provider::call_attributes(
                answer->Ok_0@,
                request.evidence_ids@.len(),
            )
            &&& r->Ok_0.usage.tenant_id == request.tenant_id
            &&& r->Ok_0.usage.period@ == "current"@
            &&& r->Ok_0.usage.kind == UsageKind::ModelToken
            &&& r->Ok_0.usage.quantity == answer->Ok_0.input_tokens + answer->Ok_0.output_tokens
        },
{
    if answer is Ok {
        let call = r->Ok_0;
        let view = call.observation@;
        assert(call.is_of(*request, answer->Ok_0));
        assert(view.tenant_id == call.observation.tenant_id && view.name == call.observation.name@
            && view.trace_id == call.observation.trace_id@ && view.kind == call.observation.kind
            && view.status == call.observation.status && view.attributes
            == call.observation.attributes@);
        let usage = call.usage@;
        assert(usage.tenant_id == call.usage.tenant_id && usage.period == call.usage.period@
            && usage.kind == call.usage.kind && usage.quantity == call.usage.quantity);
    }
}

} // verus!
