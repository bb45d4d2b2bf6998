//! Investigations: findings, plans and tool runs, each tied to the observations it rests on.
use crate::number;
use crate::observation::{Observation, ObservationStatus, TenantId};
use crate::text;
use crate::select;
use vstd::prelude::*;
use vstd::string::StringExecFns;

verus! {

/// One run of an agent.
#[derive(Debug, Clone, PartialEq, Eq)]
pub struct AgentRun {
    pub id: u128,
    pub tenant_id: TenantId,
    pub agent_name: String,
    pub objective: String,
    pub observation_ids: Vec<u128>,
}

/// One call of a tool in a run.
#[derive(Debug, Clone, PartialEq, Eq)]
pub struct ToolCall {
    pub id: u128,
    pub agent_run_id: u128,
    pub tenant_id: TenantId,
    pub tool_name: String,
    pub input_hash: String,
    pub success: bool,
    pub duration_ms: u64,
}

/// A request to plan an investigation of the named observations.
#[derive(Debug, Clone, PartialEq, Eq)]
pub struct AgentRequest {
    pub tenant_id: TenantId,
    pub objective: String,
    pub observation_ids: Vec<u128>,
}

/// A step that a plan proposes.
#[derive(Debug, Clone, PartialEq, Eq)]
pub struct AgentAction {
    pub tool_name: String,
    pub reason: String,
    pub requires_approval: bool,
}

/// A plan, with the observations that it rests on.
#[derive(Debug, Clone, PartialEq, Eq)]
pub struct AgentDecision {
    pub tenant_id: TenantId,
    pub summary: String,
    pub actions: Vec<AgentAction>,
    pub evidence_ids: Vec<u128>,
}

/// A request to run a tool on the named observations.
#[derive(Debug, Clone, PartialEq, Eq)]
pub struct ToolExecutionRequest {
    pub tenant_id: TenantId,
    pub tool_name: String,
    pub evidence_ids: Vec<u128>,
    pub approved: bool,
}

/// What became of a request to run a tool.
#[derive(Debug, Clone, PartialEq, Eq)]
pub struct ToolExecutionResult {
    pub tool_name: String,
    pub status: String,
    pub output: String,
    pub evidence_ids: Vec<u128>,
}

/// How grave a finding is.
#[derive(Debug, Clone, Copy, PartialEq, Eq, Structural)]
pub enum FindingSeverity {
    Info,
    Warning,
    Critical,
}

/// Something that the observations of a tenant show.
#[derive(Debug, Clone, PartialEq, Eq)]
pub struct Finding {
    pub tenant_id: TenantId,
    pub severity: FindingSeverity,
    pub title: String,
    pub evidence_ids: Vec<u128>,
}

/// The ids of observations, in order.
pub open spec fn ids_of(observations: Seq<Observation>) -> Seq<u128> {
    observations.map_values(|observation: Observation| observation.id)
}

/// The failed observations of a tenant, in order.
pub open spec fn failures(tenant_id: TenantId, observations: Seq<Observation>) -> Seq<Observation> {
    observations.filter(
        |observation: Observation|
            observation.tenant_id == tenant_id && observation.status == ObservationStatus::Error,
    )
}

/// The observations of a tenant among the named ones, in order.
pub open spec fn evidence(
    tenant_id: TenantId,
    ids: Seq<u128>,
    observations: Seq<Observation>,
) -> Seq<Observation> {
    observations.filter(
        |observation: Observation|
            observation.tenant_id == tenant_id && ids.contains(observation.id),
    )
}

/// Whether an id is among the given ones.
fn holds_id(ids: &Vec<u128>, id: u128) -> (r: bool)
    ensures
        r == ids@.contains(id),
{
    let mut i: usize = 0;
    while i < ids.len()
        invariant
            i <= ids.len(),
            forall|j: int| 0 <= j < i ==> ids@[j] != id,
        decreases ids.len() - i,
    {
        if ids[i] == id {
            return true;
        }
        i += 1;
    }
    false
}

/// The title of the finding of `n` failures.
pub open spec fn failure_title(n: nat) -> Seq<char> {
    "发现 "@ + number::decimal(n) + " 个失败观测"@
}

/// Finds the failed observations of a tenant: one warning that names all of them, or nothing where
/// none failed.
pub fn diagnose(tenant_id: &TenantId, observations: &[Observation]) -> (r: Vec<Finding>)
    ensures
        failures(*tenant_id, observations@).len() == 0 ==> r@.len() == 0,
        failures(*tenant_id, observations@).len() > 0 ==> {
            &&& r@.len() == 1
            &&& r@[0].tenant_id == *tenant_id
            &&& r@[0].severity == FindingSeverity::Warning
            &&& r@[0].title@ == failure_title(failures(*tenant_id, observations@).len())
            &&& r@[0].evidence_ids@ == ids_of(failures(*tenant_id, observations@))
        },
{
    let mut evidence_ids: Vec<u128> = Vec::new();
    let ghost keep = |observation: Observation|
        observation.tenant_id == *tenant_id && observation.status == ObservationStatus::Error;
    let ghost all = observations@;
    proof {
        select::lemma_filter_none(all, keep);
    }
    assert(ids_of(all.take(0).filter(keep)) =~= Seq::empty());
    let mut i: usize = 0;
    while i < observations.len()
        invariant
            i <= observations.len(),
            all == observations@,
            keep == (|observation: Observation|
                observation.tenant_id == *tenant_id && observation.status
                    == ObservationStatus::Error),
            evidence_ids@ == ids_of(all.take(i as int).filter(keep)),
        decreases observations.len() - i,
    {
        proof {
            select::lemma_filter_step(all, i as int, keep);
        }
        let observation: &Observation = &observations[i];
        if observation.tenant_id == *tenant_id && observation.status == ObservationStatus::Error {
            evidence_ids.push(observation.id);
        }
        assert(evidence_ids@ =~= ids_of(all.take(i + 1).filter(keep)));
        i += 1;
    }
    assert(all.take(all.len() as int) =~= all);
    let mut findings: Vec<Finding> = Vec::new();
    if evidence_ids.len() > 0 {
        let mut title: String = "发现 ".to_owned();
        title.append(number::decimal_text(evidence_ids.len() as u64).as_str());
        title.append(" 个失败观测");
        findings.push(
            Finding {
                tenant_id: *tenant_id,
                severity: FindingSeverity::Warning,
                title,
                evidence_ids,
            },
        );
    }
    findings
}

/// The number of failed observations.
pub open spec fn failed(observations: Seq<Observation>) -> nat {
    observations.filter(
        |observation: Observation| observation.status == ObservationStatus::Error,
    ).len()
}

/// The summary of a plan for an objective on `n` observations.
pub open spec fn plan_summary(objective: Seq<char>, n: nat) -> Seq<char> {
    "已根据目标“"@ + objective + "”分析 "@ + number::decimal(n) + " 条观测"@
}

/// Why the context of `n` failures is inspected.
pub open spec fn inspection_reason(n: nat) -> Seq<char> {
    "基于 "@ + number::decimal(n) + " 个失败观测检查上下文"@
}

/// Plans an investigation on the requested observations of the tenant: with failures among them
/// their context is inspected, else the trace is summarised. The plan names the observations.
pub fn plan_agent_request(request: &AgentRequest, observations: &[Observation]) -> (r:
    AgentDecision)
    ensures
        ({
            let found = evidence(request.tenant_id, request.observation_ids@, observations@);
            &&& r.tenant_id == request.tenant_id
            &&& r.summary@ == plan_summary(request.objective@, found.len())
            &&& r.evidence_ids@ == ids_of(found)
            &&& r.actions@.len() == 1
            &&& !r.actions@[0].requires_approval
            &&& is_safe(r.actions@[0].tool_name@)
            &&& failed(found) > 0 ==> r.actions@[0].tool_name@ == "inspect_failure_context"@
                && r.actions@[0].reason@ == inspection_reason(failed(found))
            &&& failed(found) == 0 ==> r.actions@[0].tool_name@ == "summarize_trace"@
                && r.actions@[0].reason@ == "观测未显示失败，先生成执行摘要"@
        }),
{
    let mut evidence_ids: Vec<u128> = Vec::new();
    let mut failures: u64 = 0;
    let ghost keep = |observation: Observation|
        observation.tenant_id == request.tenant_id && request.observation_ids@.contains(
            observation.id,
        );
    let ghost bad = |observation: Observation| observation.status == ObservationStatus::Error;
    let ghost all = observations@;
    proof {
        select::lemma_filter_none(all, keep);
        select::lemma_filter_none(all, bad);
        assert(all.take(0).filter(keep) =~= all.take(0));
    }
    assert(ids_of(all.take(0).filter(keep)) =~= Seq::empty());
    let mut i: usize = 0;
    while i < observations.len()
        invariant
            i <= observations.len(),
            all == observations@,
            keep == (|observation: Observation|
                observation.tenant_id == request.tenant_id && request.observation_ids@.contains(
                    observation.id,
                )),
            bad == (|observation: Observation| observation.status == ObservationStatus::Error),
            evidence_ids@ == ids_of(all.take(i as int).filter(keep)),
            failures == all.take(i as int).filter(keep).filter(bad).len(),
            failures <= i,
        decreases observations.len() - i,
    {
        let ghost before = all.take(i as int).filter(keep);
        proof {
            select::lemma_filter_step(all, i as int, keep);
        }
        let observation: &Observation = &observations[i];
        if observation.tenant_id == request.tenant_id && holds_id(
            &request.observation_ids,
            observation.id,
        ) {
            evidence_ids.push(observation.id);
            let ghost after = before.push(*observation);
            proof {
                select::lemma_filter_step(after, before.len() as int, bad);
                assert(after.take(after.len() as int) =~= after);
                assert(after.take(before.len() as int) =~= before);
            }
            if observation.status == ObservationStatus::Error {
                failures = failures + 1;
            }
        }
        assert(evidence_ids@ =~= ids_of(all.take(i + 1).filter(keep)));
        i += 1;
    }
    assert(all.take(all.len() as int) =~= all);
    let ghost found = evidence(request.tenant_id, request.observation_ids@, observations@);
    assert(found == all.filter(keep));
    assert(failures == failed(found));
    let action: AgentAction = if failures > 0 {
        let mut reason: String = "基于 ".to_owned();
        reason.append(number::decimal_text(failures).as_str());
        reason.append(" 个失败观测检查上下文");
        AgentAction {
            tool_name: "inspect_failure_context".to_owned(),
            reason,
            requires_approval: false,
        }
    } else {
        AgentAction {
            tool_name: "summarize_trace".to_owned(),
            reason: "观测未显示失败，先生成执行摘要".to_owned(),
            requires_approval: false,
        }
    };
    let mut summary: String = "已根据目标“".to_owned();
    summary.append(request.objective.as_str());
    summary.append("”分析 ");
    summary.append(number::decimal_text(evidence_ids.len() as u64).as_str());
    summary.append(" 条观测");
    let mut actions: Vec<AgentAction> = Vec::new();
    actions.push(action);
    AgentDecision { tenant_id: request.tenant_id, summary, actions, evidence_ids }
}

/// A tool that may be run at all.
pub open spec fn is_safe(tool_name: Seq<char>) -> bool {
    tool_name == "inspect_failure_context"@ || tool_name == "summarize_trace"@
}

/// What a finished tool says.
pub open spec fn tool_output(tool_name: Seq<char>, n: nat) -> Seq<char> {
    tool_name + " 已基于 "@ + number::decimal(n) + " 条租户范围证据完成"@
}

/// Copies ids.
fn copy_ids(ids: &Vec<u128>) -> (r: Vec<u128>)
    ensures
        r@ == ids@,
{
    let mut r: Vec<u128> = Vec::new();
    let mut i: usize = 0;
    while i < ids.len()
        invariant
            i <= ids.len(),
            r@ == ids@.take(i as int),
        decreases ids.len() - i,
    {
        r.push(ids[i]);
        i += 1;
    }
    assert(r@ =~= ids@);
    r
}

/// Runs a tool that is on the list of safe tools and whose run was approved. Any other tool is
/// rejected, and a safe tool without approval is held back; neither uses any evidence.
pub fn execute_safe_tool(request: &ToolExecutionRequest, observations: &[Observation]) -> (r:
    ToolExecutionResult)
    ensures
        r.tool_name@ == request.tool_name@,
        !is_safe(request.tool_name@) ==> {
            &&& r.status@ == "rejected"@
            &&& r.output@ == "tool is not in the safe allowlist"@
            &&& r.evidence_ids@.len() == 0
        },
        is_safe(request.tool_name@) && !request.approved ==> {
            &&& r.status@ == "approval_required"@
            &&& r.output@ == "execution requires explicit approval"@
            &&& r.evidence_ids@.len() == 0
        },
        is_safe(request.tool_name@) && request.approved ==> {
            &&& r.status@ == "completed"@
            &&& r.output@ == tool_output(
                request.tool_name@,
                evidence(request.tenant_id, request.evidence_ids@, observations@).len(),
            )
            &&& r.evidence_ids@ == request.evidence_ids@
        },
{
    let tool_name: String = request.tool_name.clone();
    if !text::same(tool_name.as_str(), "inspect_failure_context") && !text::same(
        tool_name.as_str(),
        "summarize_trace",
    ) {
        return ToolExecutionResult {
            tool_name,
            status: "rejected".to_owned(),
            output: "tool is not in the safe allowlist".to_owned(),
            evidence_ids: Vec::new(),
        };
    }
    if !request.approved {
        return ToolExecutionResult {
            tool_name,
            status: "approval_required".to_owned(),
            output: "execution requires explicit approval".to_owned(),
            evidence_ids: Vec::new(),
        };
    }
    let mut count: u64 = 0;
    let ghost keep = |observation: Observation|
        observation.tenant_id == request.tenant_id && request.evidence_ids@.contains(
            observation.id,
        );
    let ghost all = observations@;
    proof {
        select::lemma_filter_none(all, keep);
    }
    let mut i: usize = 0;
    while i < observations.len()
        invariant
            i <= observations.len(),
            all == observations@,
            keep == (|observation: Observation|
                observation.tenant_id == request.tenant_id && request.evidence_ids@.contains(
                    observation.id,
                )),
            count == all.take(i as int).filter(keep).len(),
            count <= i,
        decreases observations.len() - i,
    {
        proof {
            select::lemma_filter_step(all, i as int, keep);
        }
        let observation: &Observation = &observations[i];
        if observation.tenant_id == request.tenant_id && holds_id(
            &request.evidence_ids,
            observation.id,
        ) {
            count = count + 1;
        }
        i += 1;
    }
    assert(all.take(all.len() as int) =~= all);
    let mut output: String = request.tool_name.clone();
    output.append(" 已基于 ");
    output.append(number::decimal_text(count).as_str());
    output.append(" 条租户范围证据完成");
    ToolExecutionResult {
        tool_name,
        status: "completed".to_owned(),
        output,
        evidence_ids: copy_ids(&request.evidence_ids),
    }
}

/// The observations of a tenant, in order.
pub open spec fn owned(tenant_id: TenantId, observations: Seq<Observation>) -> Seq<Observation> {
    observations.filter(|observation: Observation| observation.tenant_id == tenant_id)
}

/// What is found for a tenant depends on its own observations alone.
pub proof fn other_tenants_do_not_matter(
    tenant_id: TenantId,
    ids: Seq<u128>,
    observations: Seq<Observation>,
)
    ensures
        failures(tenant_id, observations) == failures(tenant_id, owned(tenant_id, observations)),
        evidence(tenant_id, ids, observations) == evidence(
            tenant_id,
            ids,
            owned(tenant_id, observations),
        ),
    decreases observations.len(),
{
    let own = |observation: Observation| observation.tenant_id == tenant_id;
    let failing = |observation: Observation|
        observation.tenant_id == tenant_id && observation.status == ObservationStatus::Error;
    let named = |observation: Observation|
        observation.tenant_id == tenant_id && ids.contains(observation.id);
    if observations.len() > 0 {
        let front = observations.drop_last();
        let last = observations.last();
        other_tenants_do_not_matter(tenant_id, ids, front);
        assert(observations =~= front.push(last));
        select::lemma_filter_push(front, last, own);
        select::lemma_filter_push(front, last, failing);
        select::lemma_filter_push(front, last, named);
        select::lemma_filter_push(front.filter(own), last, failing);
        select::lemma_filter_push(front.filter(own), last, named);
    } else {
        reveal(Seq::filter);
    }
}

/// Every piece of evidence is one of the observations, belongs to the tenant, and was asked for.
pub proof fn evidence_is_asked_for(
    tenant_id: TenantId,
    ids: Seq<u128>,
    observations: Seq<Observation>,
    i: int,
)
    requires
        0 <= i < evidence(tenant_id, ids, observations).len(),
    ensures
        ({
            let piece = evidence(tenant_id, ids, observations)[i];
            observations.contains(piece) && piece.tenant_id == tenant_id && ids.contains(piece.id)
        }),
        ids.contains(ids_of(evidence(tenant_id, ids, observations))[i]),
{
    select::lemma_filter_keeps(
        observations,
        |observation: Observation|
            observation.tenant_id == tenant_id && ids.contains(observation.id),
    );
}

/// Every observation that a finding names is one of the observations, belongs to the tenant, and
/// failed; and every such observation is named.
pub proof fn findings_name_the_failures(
    tenant_id: TenantId,
    observations: Seq<Observation>,
    i: int,
)
    requires
        0 <= i < observations.len(),
    ensures
        observations[i].tenant_id == tenant_id && observations[i].status
            == ObservationStatus::Error ==> failures(tenant_id, observations).contains(
            observations[i],
        ),
        forall|k: int|
            0 <= k < failures(tenant_id, observations).len() ==> (#[trigger] failures(
                tenant_id,
                observations,
            )[k]).tenant_id == tenant_id && failures(tenant_id, observations)[k].status
                == ObservationStatus::Error && observations.contains(
                failures(tenant_id, observations)[k],
            ),
{
    let failing = |observation: Observation|
        observation.tenant_id == tenant_id && observation.status == ObservationStatus::Error;
    select::lemma_filter_keeps(observations, failing);
    if failing(observations[i]) {
        select::lemma_filter_has(observations, failing, i);
    }
}

/// The observations that a filter leaves out are not needed: filtering what one filter kept with
/// another one keeps what both keep.
proof fn lemma_filter_both(
    s: Seq<Observation>,
    one: spec_fn(Observation) -> bool,
    other: spec_fn(Observation) -> bool,
    both: spec_fn(Observation) -> bool,
)
    requires
        forall|x: Observation| #[trigger] both(x) == (one(x) && other(x)),
    ensures
        s.filter(one).filter(other) == s.filter(both),
    decreases s.len(),
{
    if s.len() > 0 {
        let front = s.drop_last();
        let last = s.last();
        lemma_filter_both(front, one, other, both);
        assert(s =~= front.push(last));
        assert(both(last) == (one(last) && other(last)));
        select::lemma_filter_push(front, last, one);
        select::lemma_filter_push(front, last, both);
        select::lemma_filter_push(front.filter(one), last, other);
    } else {
        reveal(Seq::filter);
    }
}

/// A filter keeps nothing exactly where nothing is meant to be kept.
proof fn lemma_filter_empty(s: Seq<Observation>, keep: spec_fn(Observation) -> bool)
    ensures
        s.filter(keep).len() > 0 <==> exists|i: int| 0 <= i < s.len() && keep(#[trigger] s[i]),
{
    select::lemma_filter_keeps(s, keep);
    if s.filter(keep).len() > 0 {
        assert(keep(s.filter(keep)[0]));
        assert(s.contains(s.filter(keep)[0]));
        let i = choose|i: int| 0 <= i < s.len() && s[i] == s.filter(keep)[0];
        assert(keep(s[i]));
    }
    if exists|i: int| 0 <= i < s.len() && keep(#[trigger] s[i]) {
        let i = choose|i: int| 0 <= i < s.len() && keep(#[trigger] s[i]);
        select::lemma_filter_has(s, keep, i);
    }
}

/// A plan proposes one step that needs no approval. Where any observation of the tenant that the
/// request names failed, of whatever kind, the step inspects the context of the failures and says
/// how many of these observations failed; only where none failed it summarises the trace.
pub proof fn a_plan_inspects_every_failure(
    request: &AgentRequest,
    observations: &[Observation],
    r: AgentDecision,
)
    requires
        call_ensures(plan_agent_request, (request, observations), r),
    ensures
        r.actions@.len() == 1,
        !r.actions@[0].requires_approval,
        (exists|i: int|
            0 <= i < observations@.len() && (#[trigger] observations@[i]).tenant_id
                == request.tenant_id && request.observation_ids@.contains(observations@[i].id)
                && observations@[i].status == ObservationStatus::Error) ==> {
            &&& r.actions@[0].tool_name@ == "inspect_failure_context"@
            &&& r.actions@[0].reason@ == "基于 "@ + number::decimal(
                observations@.filter(
                    |observation: Observation|
                        observation.tenant_id == request.tenant_id
                            && request.observation_ids@.contains(observation.id)
                            && observation.status == ObservationStatus::Error,
                ).len(),
            ) + " 个失败观测检查上下文"@
        },
        (forall|i: int|
            0 <= i < observations@.len() && (#[trigger] observations@[i]).tenant_id
                == request.tenant_id && request.observation_ids@.contains(observations@[i].id)
                ==> observations@[i].status == ObservationStatus::Okay) ==> {
            &&& r.actions@[0].tool_name@ == "summarize_trace"@
            &&& r.actions@[0].reason@ == "观测未显示失败，先生成执行摘要"@
        },
{
    let named = |observation: Observation|
        observation.tenant_id == request.tenant_id && request.observation_ids@.contains(
            observation.id,
        );
    let bad = |observation: Observation| observation.status == ObservationStatus::Error;
    let both = |observation: Observation|
        observation.tenant_id == request.tenant_id && request.observation_ids@.contains(
            observation.id,
        ) && observation.status == ObservationStatus::Error;
    lemma_filter_both(observations@, named, bad, both);
    lemma_filter_empty(observations@, both);
}

/// A plan rests on the observations of the tenant that the request names, in their order, and says
/// how many these are.
pub proof fn a_plan_names_its_evidence(
    request: &AgentRequest,
    observations: &[Observation],
    r: AgentDecision,
)
    requires
        call_ensures(plan_agent_request, (request, observations), r),
    ensures
        ({
            let found = observations@.filter(
                |observation: Observation|
                    observation.tenant_id == request.tenant_id
                        && request.observation_ids@.contains(observation.id),
            );
            &&& r.tenant_id == request.tenant_id
            &&& r.evidence_ids@.len() == found.len()
            &&& forall|k: int| 0 <= k < found.len() ==> #[trigger] r.evidence_ids@[k] == found[k].id
            &&& r.summary@ == "已根据目标“"@ + request.objective@ + "”分析 "@ + number::decimal(
                found.len(),
            ) + " 条观测"@
        }),
{
}

/// A diagnosis is one warning that names every failed observation of the tenant, of whatever kind,
/// in their order, and says how many there are; it is empty only where none failed.
pub proof fn a_diagnosis_names_every_failure(
    tenant_id: &TenantId,
    observations: &[Observation],
    r: Vec<Finding>,
)
    requires
        call_ensures(diagnose, (tenant_id, observations), r),
    ensures
        ({
            let bad = observations@.filter(
                |observation: Observation|
                    observation.tenant_id == *tenant_id && observation.status
                        == ObservationStatus::Error,
            );
            &&& r@.len() <= 1
            &&& r@.len() == 1 <==> exists|i: int|
                0 <= i < observations@.len() && (#[trigger] observations@[i]).tenant_id
                    == *tenant_id && observations@[i].status == ObservationStatus::Error
            &&& r@.len() == 1 ==> {
                &&& r@[0].tenant_id == *tenant_id
                &&& r@[0].severity == FindingSeverity::Warning
                &&& r@[0].title@ == "发现 "@ + number::decimal(bad.len()) + " 个失败观测"@
                &&& r@[0].evidence_ids@.len() == bad.len()
                &&& forall|k: int|
                    0 <= k < bad.len() ==> #[trigger] r@[0].evidence_ids@[k] == bad[k].id
            }
        }),
{
    lemma_filter_empty(
        observations@,
        |observation: Observation|
            observation.tenant_id == *tenant_id && observation.status == ObservationStatus::Error,
    );
}

/// A tool runs exactly where it is one of the two safe tools and its run was approved. It then says
/// on how many of the named observations of the tenant it rests. Any other tool is rejected, approved
/// or not, and neither that nor a missing approval uses any evidence.
pub proof fn a_tool_runs_where_it_is_safe_and_approved(
    request: &ToolExecutionRequest,
    observations: &[Observation],
    r: ToolExecutionResult,
)
    requires
        call_ensures(execute_safe_tool, (request, observations), r),
    ensures
        r.tool_name@ == request.tool_name@,
        request.tool_name@ != "inspect_failure_context"@ && request.tool_name@
            != "summarize_trace"@ ==> r.status@ == "rejected"@ && r.output@
            == "tool is not in the safe allowlist"@ && r.evidence_ids@ == Seq::<u128>::empty(),
        (request.tool_name@ == "inspect_failure_context"@ || request.tool_name@
            == "summarize_trace"@) && !request.approved ==> r.status@ == "approval_required"@
            && r.output@ == "execution requires explicit approval"@ && r.evidence_ids@ == Seq::<
            u128,
        >::empty(),
        (request.tool_name@ == "inspect_failure_context"@ || request.tool_name@
            == "summarize_trace"@) && request.approved ==> {
            &&& r.status@ == "completed"@
            &&& r.evidence_ids@ == request.evidence_ids@
            &&& r.output@ == request.tool_name@ + " 已基于 "@ + number::decimal(
                observations@.filter(
                    |observation: Observation|
                        observation.tenant_id == request.tenant_id
                            && request.evidence_ids@.contains(observation.id),
                ).len(),
            ) + " 条租户范围证据完成"@
        },
{
}

} // verus!
