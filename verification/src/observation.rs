//! Observations: the immutable runtime facts that everything else refers to.
use crate::ordered::OrderedMap;
use crate::text;
use vstd::prelude::*;
use vstd::string::StringExecFns;

verus! {

/// The longest duration that is accepted: one day in milliseconds.
pub const MAX_DURATION_MS: u64 = 86_400_000;

/// The owner of a record, a UUID as its 128-bit number.
#[derive(Debug, Clone, Copy, PartialEq, Eq, PartialOrd, Ord, Hash, Structural)]
pub struct TenantId(pub u128);

/// What kind of work an observation is about.
#[derive(Debug, Clone, Copy, PartialEq, Eq, Structural)]
pub enum ObservationKind {
    Agent,
    Tool,
    Model,
    Workflow,
    Http,
}

/// How the observed work ended.
#[derive(Debug, Clone, Copy, PartialEq, Eq, Structural)]
pub enum ObservationStatus {
    Okay,
    Error,
}

/// The attributes of an observation, in the order of their names.
pub type Attributes = OrderedMap<String, String>;

/// One runtime fact of a tenant. `id` is a UUID as its 128-bit number.
#[derive(Debug, PartialEq, Eq)]
pub struct Observation {
    pub id: u128,
    pub tenant_id: TenantId,
    pub trace_id: String,
    pub span_id: String,
    pub kind: ObservationKind,
    pub name: String,
    pub status: ObservationStatus,
    pub started_at_ms: i64,
    pub duration_ms: u64,
    pub attributes: Attributes,
}

/// The value of an observation.
#[verifier::ext_equal]
pub struct ObservationView {
    pub id: u128,
    pub tenant_id: TenantId,
    pub trace_id: Seq<char>,
    pub span_id: Seq<char>,
    pub kind: ObservationKind,
    pub name: Seq<char>,
    pub status: ObservationStatus,
    pub started_at_ms: i64,
    pub duration_ms: u64,
    pub attributes: Map<Seq<char>, Seq<char>>,
}

impl View for Observation {
    type V = ObservationView;

    open spec fn view(&self) -> ObservationView {
        ObservationView {
            id: self.id,
            tenant_id: self.tenant_id,
            trace_id: self.trace_id@,
            span_id: self.span_id@,
            kind: self.kind,
            name: self.name@,
            status: self.status,
            started_at_ms: self.started_at_ms,
            duration_ms: self.duration_ms,
            attributes: self.attributes@,
        }
    }
}

impl Clone for Observation {
    fn clone(&self) -> (r: Self)
        ensures
            r@ == self@,
    {
        Observation {
            id: self.id,
            tenant_id: self.tenant_id,
            trace_id: self.trace_id.clone(),
            span_id: self.span_id.clone(),
            kind: self.kind,
            name: self.name.clone(),
            status: self.status,
            started_at_ms: self.started_at_ms,
            duration_ms: self.duration_ms,
            attributes: self.attributes.clone(),
        }
    }
}

/// The values of a sequence of observations.
pub open spec fn observation_views(s: Seq<Observation>) -> Seq<ObservationView> {
    Seq::new(s.len(), |i: int| s[i]@)
}

/// Why an observation or a stored record was refused.
#[derive(Debug, PartialEq, Eq)]
pub enum ObservationError {
    EmptyName,
    DurationTooLarge,
    Storage(String),
}

impl ObservationError {
    /// What the error says.
    pub open spec fn says(&self) -> Seq<char> {
        match self {
            ObservationError::EmptyName => "observation name must not be empty"@,
            ObservationError::DurationTooLarge => "duration must be within the ingestion limit"@,
            ObservationError::Storage(detail) => "observation storage error: "@ + detail@,
        }
    }

    /// The error as a message.
    pub fn message(&self) -> (r: String)
        ensures
            r@ == self.says(),
    {
        match self {
            ObservationError::EmptyName => "observation name must not be empty".to_owned(),
            ObservationError::DurationTooLarge =>
                "duration must be within the ingestion limit".to_owned(),
            ObservationError::Storage(detail) => {
                let mut r: String = "observation storage error: ".to_owned();
                r.append(detail.as_str());
                r
            },
        }
    }
}

impl ObservationView {
    /// What is wrong with the observation, if anything: the name comes before the duration.
    pub open spec fn flaw(self) -> Option<ObservationError> {
        if text::blank(self.name) {
            Some(ObservationError::EmptyName)
        } else if self.duration_ms > MAX_DURATION_MS {
            Some(ObservationError::DurationTooLarge)
        } else {
            None
        }
    }
}

impl Observation {
    /// Accepts an observation whose name is not blank and whose duration is within the limit.
    pub fn validate(&self) -> (r: Result<(), ObservationError>)
        ensures
            match r {
                Ok(_) => self@.flaw() is None,
                Err(error) => self@.flaw() == Some(error),
            },
    {
        if text::is_blank(self.name.as_str()) {
            return Err(ObservationError::EmptyName);
        }
        if self.duration_ms > MAX_DURATION_MS {
            return Err(ObservationError::DurationTooLarge);
        }
        Ok(())
    }
}

/// An observation is valid where its name holds something but white space and it took no longer
/// than a day. A name without that is reported before a duration that is too long.
pub proof fn an_observation_needs_a_name_and_a_day(
    observation: &Observation,
    r: Result<(), ObservationError>,
)
    requires
        call_ensures(Observation::validate, (observation,), r),
    ensures
        ({
            let named = exists|i: int|
                0 <= i < observation.name@.len() && !text::white(#[trigger] observation.name@[i]);
            &&& !named ==> r == Err::<(), ObservationError>(ObservationError::EmptyName)
            &&& named && observation.duration_ms > 86_400_000 ==> r == Err::<(), ObservationError>(
                ObservationError::DurationTooLarge,
            )
            &&& named && observation.duration_ms <= 86_400_000 ==> r is Ok
        }),
{
    assert(observation@.name == observation.name@);
    assert(text::blank(observation.name@) <==> !exists|i: int|
        0 <= i < observation.name@.len() && !text::white(#[trigger] observation.name@[i]));
}

/// The value of an observation has a flaw where its name is blank or it took longer than a day.
pub proof fn a_flaw_is_a_blank_name_or_a_long_duration(observation: ObservationView)
    ensures
        observation.flaw() is None <==> observation.duration_ms <= 86_400_000 && exists|i: int|
            0 <= i < observation.name.len() && !text::white(#[trigger] observation.name[i]),
        observation.flaw() == Some(ObservationError::EmptyName) <==> forall|i: int|
            0 <= i < observation.name.len() ==> text::white(#[trigger] observation.name[i]),
        observation.flaw() is Some ==> !(observation.flaw()->0 is Storage),
{
}

/// Each error says what it is about.
pub proof fn errors_say_what_is_wrong(error: &ObservationError, r: String)
    requires
        call_ensures(ObservationError::message, (error,), r),
    ensures
        *error is EmptyName ==> r@ == "observation name must not be empty"@,
        *error is DurationTooLarge ==> r@ == "duration must be within the ingestion limit"@,
        *error is Storage ==> r@ == "observation storage error: "@ + error->Storage_0@,
{
}

/// A copy of an observation says the same.
pub proof fn a_copy_says_the_same(observation: &Observation, r: Observation)
    requires
        call_ensures(Observation::clone, (observation,), r),
    ensures
        r.id == observation.id,
        r.tenant_id == observation.tenant_id,
        r.trace_id@ == observation.trace_id@,
        r.span_id@ == observation.span_id@,
        r.kind == observation.kind,
        r.name@ == observation.name@,
        r.status == observation.status,
        r.started_at_ms == observation.started_at_ms,
        r.duration_ms == observation.duration_ms,
        r.attributes@ == observation.attributes@,
{
    let a = r@;
    let b = observation@;
    assert(a == b);
    assert(a.id == b.id && a.tenant_id == b.tenant_id && a.trace_id == b.trace_id);
}

} // verus!
