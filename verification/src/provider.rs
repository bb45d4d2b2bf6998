//! Model providers: what they are asked, what they answer, and what is recorded of a call.
use crate::identity;
use crate::json;
use crate::json::Json;
use crate::number;
use crate::observation::{
    Attributes, Observation, ObservationKind, ObservationStatus, ObservationView, TenantId,
};
use crate::ordered::OrderedMap;
use crate::text;
use crate::usage::{UsageEntry, UsageEntryView, UsageKind};
use vstd::prelude::*;
use vstd::string::StringExecFns;

verus! {

/// A prompt for a model, on behalf of a tenant, with the observations that it is about.
#[derive(Debug, Clone, PartialEq, Eq)]
pub struct ModelRequest {
    pub tenant_id: TenantId,
    pub model: String,
    pub prompt: String,
    pub evidence_ids: Vec<u128>,
}

/// What a model answered, and how many tokens that took.
#[derive(Debug, Clone, PartialEq, Eq)]
pub struct ModelResponse {
    pub model: String,
    pub text: String,
    pub input_tokens: u64,
    pub output_tokens: u64,
}

/// The value of an answer.
#[verifier::ext_equal]
pub struct ResponseView {
    pub model: Seq<char>,
    pub text: Seq<char>,
    pub input_tokens: u64,
    pub output_tokens: u64,
}

impl View for ModelResponse {
    type V = ResponseView;

    open spec fn view(&self) -> ResponseView {
        ResponseView {
            model: self.model@,
            text: self.text@,
            input_tokens: self.input_tokens,
            output_tokens: self.output_tokens,
        }
    }
}

/// The attributes of the observation of a model call.
pub open spec fn call_attributes(response: ResponseView, evidence: nat) -> Map<
    Seq<char>,
    Seq<char>,
> {
    Map::<Seq<char>, Seq<char>>::empty().insert("model"@, response.model).insert(
        "input_tokens"@,
        number::decimal(response.input_tokens as nat),
    ).insert("output_tokens"@, number::decimal(response.output_tokens as nat)).insert(
        "evidence_count"@,
        number::decimal(evidence),
    )
}

/// The observation of a model call.
pub open spec fn call_observation(
    request: ModelRequest,
    response: ResponseView,
    trace_id: Seq<char>,
    started_at_ms: i64,
    duration_ms: u64,
    id: u128,
    span_id: Seq<char>,
) -> ObservationView {
    ObservationView {
        id,
        tenant_id: request.tenant_id,
        trace_id,
        span_id,
        kind: ObservationKind::Model,
        name: "model.complete"@,
        status: ObservationStatus::Okay,
        started_at_ms,
        duration_ms,
        attributes: call_attributes(response, request.evidence_ids@.len()),
    }
}

/// The observation of a model call, with the given id and span.
pub fn model_observation_with(
    request: &ModelRequest,
    response: &ModelResponse,
    trace_id: &str,
    started_at_ms: i64,
    duration_ms: u64,
    id: u128,
    span_id: String,
) -> (r: Observation)
    ensures
        r@ == call_observation(
            *request,
            response@,
            trace_id@,
            started_at_ms,
            duration_ms,
            id,
            span_id@,
        ),
{
    let mut attributes: Attributes = OrderedMap::new();
    attributes.insert("model".to_owned(), response.model.clone());
    attributes.insert("input_tokens".to_owned(), number::decimal_text(response.input_tokens));
    attributes.insert("output_tokens".to_owned(), number::decimal_text(response.output_tokens));
    attributes.insert(
        "evidence_count".to_owned(),
        number::decimal_text(request.evidence_ids.len() as u64),
    );
    Observation {
        id,
        tenant_id: request.tenant_id,
        trace_id: trace_id.to_owned(),
        span_id,
        kind: ObservationKind::Model,
        name: "model.complete".to_owned(),
        status: ObservationStatus::Okay,
        started_at_ms,
        duration_ms,
        attributes,
    }
}

/// The observation of a model call. Its id, and the id that its span is the text of, are random.
pub fn model_observation(
    request: &ModelRequest,
    response: &ModelResponse,
    trace_id: &str,
    started_at_ms: i64,
    duration_ms: u64,
) -> (r: Observation)
    ensures
        r@ == call_observation(
            *request,
            response@,
            trace_id@,
            started_at_ms,
            duration_ms,
            r.id,
            r.span_id@,
        ),
        identity::is_random(r.id),
        identity::is_random_text(r.span_id@),
{
    let id: u128 = identity::random_id();
    let span: u128 = identity::random_id();
    let span_id: String = identity::format_id(span);
    assert(identity::is_random(span) && span_id@ == identity::id_text(span));
    model_observation_with(request, response, trace_id, started_at_ms, duration_ms, id, span_id)
}

impl ModelRequest {
    /// The pieces of evidence, and eight more, can be counted.
    pub open spec fn countable(&self) -> bool {
        self.evidence_ids@.len() + 8 <= u64::MAX
    }

    /// Whether the pieces of evidence, and eight more, can be counted.
    pub fn is_countable(&self) -> (r: bool)
        ensures
            r == self.countable(),
    {
        self.evidence_ids.len() as u64 <= u64::MAX - 8
    }
}

/// A service that answers prompts.
pub trait ModelProvider: Send + Sync {
    /// Answers a request, or says why not.
    fn complete(&self, request: &ModelRequest) -> (r: Result<ModelResponse, String>)
        requires
            request.countable(),
    ;
}

/// A provider that answers every prompt in the same way, without a model.
#[derive(Debug, Clone, Copy)]
pub struct DeterministicModelProvider;

impl Default for DeterministicModelProvider {
    fn default() -> (r: Self) {
        DeterministicModelProvider
    }
}

/// The answer to a prompt without a model.
pub open spec fn deterministic_answer(request: ModelRequest) -> ResponseView {
    ResponseView {
        model: request.model@,
        text: "基于 "@ + number::decimal(request.evidence_ids@.len()) + " 条证据生成确定性摘要："@
            + request.prompt@,
        input_tokens: vstd::utf8::encode_utf8(request.prompt@).len() as u64,
        output_tokens: (request.evidence_ids@.len() + 8) as u64,
    }
}

impl ModelProvider for DeterministicModelProvider {
    /// Answers every prompt that is not blank with a summary that repeats it. The tokens are the
    /// bytes of the prompt, and the pieces of evidence and eight more.
    fn complete(&self, request: &ModelRequest) -> (r: Result<ModelResponse, String>)
        ensures
            match r {
                Ok(response) => !text::blank(request.prompt@) && response@ == deterministic_answer(
                    *request,
                ) && response.input_tokens == vstd::utf8::encode_utf8(request.prompt@).len(),
                Err(message) => text::blank(request.prompt@) && message@
                    == "prompt must not be empty"@,
            },
    {
        if text::is_blank(request.prompt.as_str()) {
            return Err("prompt must not be empty".to_owned());
        }
        let mut summary: String = "基于 ".to_owned();
        summary.append(number::decimal_text(request.evidence_ids.len() as u64).as_str());
        summary.append(" 条证据生成确定性摘要：");
        summary.append(request.prompt.as_str());
        Ok(
            ModelResponse {
                model: request.model.clone(),
                text: summary,
                input_tokens: request.prompt.as_str().as_bytes().len() as u64,
                output_tokens: request.evidence_ids.len() as u64 + 8,
            },
        )
    }
}

/// Where the text of an answer stands in the body that a provider sent.
pub open spec fn answer_at(body: Json) -> Json {
    body.member("choices"@).element(0).member("message"@).member("content"@)
}

/// A count in the usage section of the body, zero where there is none.
pub open spec fn count_at(body: Json, key: Seq<char>) -> u64 {
    match body.member("usage"@).member(key).unsigned() {
        Some(n) => n,
        None => 0,
    }
}

/// What a chat completion body says: the text of the first choice, and the tokens. Without that
/// text it is refused; counts that are missing are zero.
pub fn parse_model_response(body: serde_json::Value, model: &str) -> (r: Result<
    ModelResponse,
    String,
>)
    ensures
        match r {
            Ok(response) => {
                &&& answer_at(json::json_of(body)) == Json::Str(response.text@)
                &&& response.model@ == model@
                &&& response.input_tokens == count_at(json::json_of(body), "prompt_tokens"@)
                &&& response.output_tokens == count_at(json::json_of(body), "completion_tokens"@)
            },
            Err(message) => {
                &&& !(answer_at(json::json_of(body)) is Str)
                &&& message@ == "provider response missing choices[0].message.content"@
            },
        },
{
    let choices: &serde_json::Value = json::member(&body, "choices");
    let message: &serde_json::Value = json::member(json::element(choices, 0), "message");
    let answer: Option<&str> = json::as_text(json::member(message, "content"));
    match answer {
        Some(answer) => {
            let usage: &serde_json::Value = json::member(&body, "usage");
            let input: Option<u64> = json::as_unsigned(json::member(usage, "prompt_tokens"));
            let output: Option<u64> = json::as_unsigned(json::member(usage, "completion_tokens"));
            Ok(
                ModelResponse {
                    model: model.to_owned(),
                    text: answer.to_owned(),
                    input_tokens: match input {
                        Some(n) => n,
                        None => 0,
                    },
                    output_tokens: match output {
                        Some(n) => n,
                        None => 0,
                    },
                },
            )
        },
        None => Err("provider response missing choices[0].message.content".to_owned()),
    }
}

/// The JSON texts of ids.
pub open spec fn id_texts(ids: Seq<u128>) -> Seq<Json> {
    Seq::new(ids.len(), |i: int| Json::Str(identity::id_text(ids[i])))
}

/// The body of a chat completion request: the prompt as the message of a user, and the evidence
/// beside it.
pub open spec fn completion_json(request: ModelRequest) -> Json {
    let message = json::no_members().insert("role"@, Json::Str("user"@)).insert(
        "content"@,
        Json::Str(request.prompt@),
    );
    let metadata = json::no_members().insert(
        "evidence_ids"@,
        Json::Array(id_texts(request.evidence_ids@)),
    );
    Json::Object(
        json::no_members().insert("model"@, Json::Str(request.model@)).insert(
            "messages"@,
            Json::Array(seq![Json::Object(message)]),
        ).insert("metadata"@, Json::Object(metadata)),
    )
}

/// The body of a chat completion request.
pub fn completion_request(request: &ModelRequest) -> (r: serde_json::Value)
    ensures
        json::json_of(r) == completion_json(*request),
{
    let mut message: serde_json::Map<String, serde_json::Value> = json::no_entries();
    json::insert_entry(&mut message, "role".to_owned(), json::json_string("user".to_owned()));
    json::insert_entry(
        &mut message,
        "content".to_owned(),
        json::json_string(request.prompt.clone()),
    );
    let mut messages: Vec<serde_json::Value> = Vec::new();
    messages.push(json::json_object(message));
    assert(json::jsons_of(messages@) =~= seq![json::json_of(messages@[0])]);
    let mut ids: Vec<serde_json::Value> = Vec::new();
    let mut i: usize = 0;
    while i < request.evidence_ids.len()
        invariant
            i <= request.evidence_ids@.len(),
            json::jsons_of(ids@) == id_texts(request.evidence_ids@.take(i as int)),
        decreases request.evidence_ids@.len() - i,
    {
        let ghost before = ids@;
        ids.push(json::json_string(identity::format_id(request.evidence_ids[i])));
        assert(json::jsons_of(ids@) =~= json::jsons_of(before).push(
            Json::Str(identity::id_text(request.evidence_ids@[i as int])),
        ));
        assert(id_texts(request.evidence_ids@.take(i + 1)) =~= id_texts(
            request.evidence_ids@.take(i as int),
        ).push(Json::Str(identity::id_text(request.evidence_ids@[i as int]))));
        i += 1;
    }
    assert(request.evidence_ids@.take(i as int) =~= request.evidence_ids@);
    let mut metadata: serde_json::Map<String, serde_json::Value> = json::no_entries();
    json::insert_entry(&mut metadata, "evidence_ids".to_owned(), json::json_array(ids));
    let mut body: serde_json::Map<String, serde_json::Value> = json::no_entries();
    json::insert_entry(&mut body, "model".to_owned(), json::json_string(request.model.clone()));
    json::insert_entry(&mut body, "messages".to_owned(), json::json_array(messages));
    json::insert_entry(&mut body, "metadata".to_owned(), json::json_object(metadata));
    json::json_object(body)
}

/// The usage that a model call is accounted as: its tokens, in and out, of the current period.
pub fn token_usage(request: &ModelRequest, response: &ModelResponse) -> (r: UsageEntry)
    requires
        response.input_tokens + response.output_tokens <= u64::MAX,
    ensures
        r@ == (UsageEntryView {
            tenant_id: request.tenant_id,
            period: "current"@,
            kind: UsageKind::ModelToken,
            quantity: (response.input_tokens + response.output_tokens) as u64,
        }),
{
    UsageEntry {
        tenant_id: request.tenant_id,
        period: "current".to_owned(),
        kind: UsageKind::ModelToken,
        quantity: response.input_tokens + response.output_tokens,
    }
}

/// The observation of a model call is valid whenever its duration is within the limit, whatever
/// the model answered.
pub proof fn call_observations_are_valid(
    request: ModelRequest,
    response: ResponseView,
    trace_id: Seq<char>,
    started_at_ms: i64,
    duration_ms: u64,
    id: u128,
    span_id: Seq<char>,
)
    requires
        duration_ms <= crate::observation::MAX_DURATION_MS,
    ensures
        call_observation(
            request,
            response,
            trace_id,
            started_at_ms,
            duration_ms,
            id,
            span_id,
        ).flaw() is None,
{
    reveal_strlit("model.complete");
    assert(!text::white("model.complete"@[0]));
}

/// The observation of a model call says of the call what it took: each of its four attributes can
/// be read back.
pub proof fn call_attributes_are_kept(response: ResponseView, evidence: nat)
    ensures
        call_attributes(response, evidence).dom() == set![
            "model"@,
            "input_tokens"@,
            "output_tokens"@,
            "evidence_count"@,
        ],
        call_attributes(response, evidence)["model"@] == response.model,
        call_attributes(response, evidence)["input_tokens"@] == number::decimal(
            response.input_tokens as nat,
        ),
        call_attributes(response, evidence)["output_tokens"@] == number::decimal(
            response.output_tokens as nat,
        ),
        call_attributes(response, evidence)["evidence_count"@] == number::decimal(evidence),
{
    reveal_strlit("model");
    reveal_strlit("input_tokens");
    reveal_strlit("output_tokens");
    reveal_strlit("evidence_count");
    assert("model"@.len() == 5);
    assert("input_tokens"@.len() == 12);
    assert("output_tokens"@.len() == 13);
    assert("evidence_count"@.len() == 14);
    assert(call_attributes(response, evidence).dom() =~= set![
        "model"@,
        "input_tokens"@,
        "output_tokens"@,
        "evidence_count"@,
    ]);
}

/// The observation of a model call belongs to the tenant, succeeded, and says what the call was: its
/// name, its kind, when it began and how long it took, the model, the tokens and the evidence.
pub proof fn a_call_is_observed(
    request: &ModelRequest,
    response: &ModelResponse,
    trace_id: &str,
    started_at_ms: i64,
    duration_ms: u64,
    id: u128,
    span_id: String,
    r: Observation,
)
    requires
        call_ensures(
            model_observation_with,
            (request, response, trace_id, started_at_ms, duration_ms, id, span_id),
            r,
        ),
    ensures
        r.id == id,
        r.tenant_id == request.tenant_id,
        r.trace_id@ == trace_id@,
        r.span_id@ == span_id@,
        r.kind == ObservationKind::Model,
        r.name@ == "model.complete"@,
        r.status == ObservationStatus::Okay,
        r.started_at_ms == started_at_ms,
        r.duration_ms == duration_ms,
        r.attributes@.dom() == set![
            "model"@,
            "input_tokens"@,
            "output_tokens"@,
            "evidence_count"@,
        ],
        r.attributes@["model"@] == response.model@,
        r.attributes@["input_tokens"@] == number::decimal(response.input_tokens as nat),
        r.attributes@["output_tokens"@] == number::decimal(response.output_tokens as nat),
        r.attributes@["evidence_count"@] == number::decimal(request.evidence_ids@.len()),
{
    call_attributes_are_kept(response@, request.evidence_ids@.len());
    let view = r@;
    assert(view.id == r.id && view.tenant_id == r.tenant_id && view.trace_id == r.trace_id@
        && view.span_id == r.span_id@ && view.kind == r.kind && view.name == r.name@ && view.status
        == r.status && view.attributes == r.attributes@);
    assert(response@.model == response.model@);
}

/// A call that is observed with random ids is observed as with given ones.
pub proof fn random_ids_change_nothing_else(
    request: &ModelRequest,
    response: &ModelResponse,
    trace_id: &str,
    started_at_ms: i64,
    duration_ms: u64,
    r: Observation,
    with: Observation,
)
    requires
        call_ensures(
            model_observation,
            (request, response, trace_id, started_at_ms, duration_ms),
            r,
        ),
        call_ensures(
            model_observation_with,
            (request, response, trace_id, started_at_ms, duration_ms, r.id, r.span_id),
            with,
        ),
    ensures
        r@ == with@,
{
}

/// Without a model a blank prompt is refused. Any other is answered in the name of the model asked
/// for with a summary that counts the evidence and repeats the prompt; that took as many tokens as
/// the prompt has bytes, and eight more than there are pieces of evidence.
pub proof fn a_prompt_is_answered_without_a_model(
    provider: &DeterministicModelProvider,
    request: &ModelRequest,
    r: Result<ModelResponse, String>,
)
    requires
        call_ensures(DeterministicModelProvider::complete, (provider, request), r),
        request.evidence_ids@.len() + 8 <= u64::MAX,
    ensures
        r is Ok <==> exists|i: int|
            0 <= i < request.prompt@.len() && !text::white(#[trigger] request.prompt@[i]),
        r is Err ==> r->Err_0@ == "prompt must not be empty"@,
        r is Ok ==> {
            &&& r->Ok_0.model@ == request.model@
            &&& r->Ok_0.text@ == "基于 "@ + number::decimal(request.evidence_ids@.len())
                + " 条证据生成确定性摘要："@ + request.prompt@
            &&& r->Ok_0.input_tokens == vstd::utf8::encode_utf8(request.prompt@).len()
            &&& r->Ok_0.output_tokens == request.evidence_ids@.len() + 8
        },
{
    assert(text::blank(request.prompt@) <==> !exists|i: int|
        0 <= i < request.prompt@.len() && !text::white(#[trigger] request.prompt@[i]));
    if r is Ok {
        let view = r->Ok_0@;
        assert(view.model == r->Ok_0.model@ && view.text == r->Ok_0.text@ && view.output_tokens
            == r->Ok_0.output_tokens);
    }
}

/// The answer of a provider is the content of the message of its first choice; a body without that
/// text is refused. The tokens are what the usage section counts, nothing where it does not count.
pub proof fn the_first_choice_is_the_answer(
    body: serde_json::Value,
    model: &str,
    r: Result<ModelResponse, String>,
)
    requires
        call_ensures(parse_model_response, (body, model), r),
    ensures
        ({
            let whole = json::json_of(body);
            let content = whole.member("choices"@).element(0).member("message"@).member(
                "content"@,
            );
            let input = whole.member("usage"@).member("prompt_tokens"@);
            let output = whole.member("usage"@).member("completion_tokens"@);
            &&& content is Str ==> r is Ok && r->Ok_0.text@ == content->Str_0 && r->Ok_0.model@
                == model@
            &&& !(content is Str) ==> r is Err && r->Err_0@
                == "provider response missing choices[0].message.content"@
            &&& r is Ok && input is Int && 0 <= input->Int_0 <= u64::MAX ==> r->Ok_0.input_tokens
                == input->Int_0
            &&& r is Ok && !(input is Int) ==> r->Ok_0.input_tokens == 0
            &&& r is Ok && output is Int && 0 <= output->Int_0 <= u64::MAX
                ==> r->Ok_0.output_tokens == output->Int_0
            &&& r is Ok && !(output is Int) ==> r->Ok_0.output_tokens == 0
        }),
{
}

/// A chat completion request names the model, has the prompt as its one message, of the user, and
/// names the evidence in its metadata, in order.
pub proof fn a_completion_request_has_the_prompt_and_the_evidence(
    request: &ModelRequest,
    r: serde_json::Value,
    i: int,
)
    requires
        call_ensures(completion_request, (request,), r),
    ensures
        ({
            let whole = json::json_of(r);
            let message = whole.member("messages"@).element(0);
            let ids = whole.member("metadata"@).member("evidence_ids"@);
            &&& whole is Object
            &&& whole->Object_0.dom() == set!["model"@, "messages"@, "metadata"@]
            &&& whole.member("model"@) == Json::Str(request.model@)
            &&& whole.member("messages"@) is Array
            &&& whole.member("messages"@)->Array_0.len() == 1
            &&& message is Object
            &&& message->Object_0.dom() == set!["role"@, "content"@]
            &&& message.member("role"@) == Json::Str("user"@)
            &&& message.member("content"@) == Json::Str(request.prompt@)
            &&& ids is Array
            &&& ids->Array_0.len() == request.evidence_ids@.len()
            &&& 0 <= i < request.evidence_ids@.len() ==> ids->Array_0[i] == Json::Str(
                identity::id_text(request.evidence_ids@[i]),
            )
        }),
{
    reveal_strlit("model");
    reveal_strlit("messages");
    reveal_strlit("metadata");
    reveal_strlit("role");
    reveal_strlit("content");
    assert("model"@.len() == 5);
    assert("messages"@[2] == 's' && "metadata"@[2] == 't');
    assert("role"@.len() == 4 && "content"@.len() == 7);
    let whole = json::json_of(r);
    assert(whole->Object_0.dom() =~= set!["model"@, "messages"@, "metadata"@]);
    let message = whole.member("messages"@).element(0);
    assert(message->Object_0.dom() =~= set!["role"@, "content"@]);
}

/// A call is accounted as its tokens, in and out together, of the tenant in the current period.
pub proof fn a_call_is_accounted_by_its_tokens(
    request: &ModelRequest,
    response: &ModelResponse,
    r: UsageEntry,
)
    requires
        call_ensures(token_usage, (request, response), r),
        response.input_tokens + response.output_tokens <= u64::MAX,
    ensures
        r.tenant_id == request.tenant_id,
        r.period@ == "current"@,
        r.kind == UsageKind::ModelToken,
        r.quantity == response.input_tokens + response.output_tokens,
{
    let view = r@;
    assert(view.tenant_id == r.tenant_id && view.period == r.period@ && view.kind == r.kind
        && view.quantity == r.quantity);
}

/// The evidence of a request can be counted unless there is more of it than any memory holds.
pub proof fn evidence_can_be_counted(request: &ModelRequest, r: bool)
    requires
        call_ensures(ModelRequest::is_countable, (request,), r),
    ensures
        r <==> request.evidence_ids@.len() + 8 <= 0xffff_ffff_ffff_ffff,
{
}

} // verus!
