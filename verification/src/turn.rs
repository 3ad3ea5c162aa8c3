//! Turn compilation: assembling the control context that the runtime loop
//! receives for one inbound message, from the observation, journey, policy,
//! knowledge and tool-gate results.
use vstd::prelude::*;
use crate::json::JsonValue;
use crate::journey::{JourneyActivation, JourneyResolution, JourneyUpdate, ToolCallRecord};
use crate::observation::{owned, ObservationHit};
use crate::policy::{
    activation_names, gate_tools, hit_names, is_gate_decision, names_of, ExcludedGuideline,
    GuidelineActivation, PolicyResolution, ToolAuthorization, ToolExposurePolicy, ToolGateDecision,
};
use crate::text::{opt_str_view, push_str, str_eq};
use vstd::string::StringSliceAdditionalSpecFns;

verus! {

// ───────────────────────── Records ─────────────────────────

/// How freely the agent may phrase its reply.
#[derive(Clone, Copy, Debug, PartialEq, Eq)]
pub enum ResponseMode {
    Freeform,
    Guided,
    Strict,
    CannedOnly,
}

/// Knowledge compiled for a turn; the entries are opaque JSON records.
#[derive(Debug)]
pub struct KnowledgeBundle {
    pub retrieved_chunks: Vec<JsonValue>,
    pub glossary_terms: Vec<JsonValue>,
    pub context_variables: Vec<JsonValue>,
    pub canned_response_candidates: Vec<JsonValue>,
}

/// A tool the runtime could expose this turn.
#[derive(Clone, Debug)]
pub struct ToolCandidate {
    pub tool_name: String,
    pub skill_ref: Option<String>,
}

/// An inbound message in channel-neutral form.
#[derive(Clone, Debug)]
pub struct CanonicalMessage {
    pub scope_id: String,
    pub channel_type: String,
    pub text: String,
    pub external_message_id: Option<String>,
}

/// Audit information attached to a compiled turn.
#[derive(Clone, Debug)]
pub struct AuditMeta {
    pub trace_id: String,
    pub scope_id: String,
    pub release_version: Option<String>,
    /// RFC 3339 time of compilation.
    pub compiled_at: String,
}

/// The control context for one turn.
#[derive(Debug)]
pub struct CompiledTurnContext {
    pub agent_id: String,
    pub session_id: String,
    pub canonical_message: CanonicalMessage,
    pub active_observations: Vec<ObservationHit>,
    pub active_guidelines: Vec<GuidelineActivation>,
    pub excluded_guidelines: Vec<ExcludedGuideline>,
    pub active_journey: Option<JourneyActivation>,
    pub retrieved_chunks: Vec<JsonValue>,
    pub glossary_terms: Vec<JsonValue>,
    pub context_variables: Vec<JsonValue>,
    pub canned_response_candidates: Vec<JsonValue>,
    pub allowed_tools: Vec<String>,
    pub approval_required_tools: Vec<String>,
    pub tool_authorizations: Vec<ToolAuthorization>,
    pub response_mode: ResponseMode,
    pub audit_meta: AuditMeta,
    pub compiled_context_hash: Option<String>,
}

// ───────────────────────── Response mode ─────────────────────────

/// Some authorization requires approval.
pub open spec fn any_requires_approval(auths: Seq<ToolAuthorization>) -> bool {
    exists|k: int| 0 <= k < auths.len() && #[trigger] auths[k].requires_approval
}

/// The response mode: canned responses available → `CannedOnly`; else a
/// tool needing approval → `Strict`; else glossary terms or context
/// variables → `Guided`; else `Freeform`.
pub open spec fn response_mode_spec(k: KnowledgeBundle, auths: Seq<ToolAuthorization>) -> ResponseMode {
    if k.canned_response_candidates@.len() > 0 {
        ResponseMode::CannedOnly
    } else if any_requires_approval(auths) {
        ResponseMode::Strict
    } else if k.glossary_terms@.len() > 0 || k.context_variables@.len() > 0 {
        ResponseMode::Guided
    } else {
        ResponseMode::Freeform
    }
}

/// Chooses how strictly the reply is constrained.
pub fn infer_response_mode(knowledge: &KnowledgeBundle, tool_authorizations: &Vec<ToolAuthorization>) -> (r: ResponseMode)
    ensures
        r == response_mode_spec(*knowledge, tool_authorizations@),
{
    if knowledge.canned_response_candidates.len() > 0 {
        return ResponseMode::CannedOnly;
    }
    let mut i: usize = 0;
    while i < tool_authorizations.len()
        invariant
            i <= tool_authorizations.len(),
            knowledge.canned_response_candidates@.len() == 0,
            forall|k: int| 0 <= k < i ==> !(#[trigger] tool_authorizations@[k]).requires_approval,
        decreases tool_authorizations.len() - i,
    {
        if tool_authorizations[i].requires_approval {
            assert(tool_authorizations@[i as int].requires_approval);
            return ResponseMode::Strict;
        }
        i = i + 1;
    }
    if knowledge.glossary_terms.len() > 0 || knowledge.context_variables.len() > 0 {
        return ResponseMode::Guided;
    }
    ResponseMode::Freeform
}

// ───────────────────────── Tool gating ─────────────────────────

/// The names of the authorized tools, in authorization order.
pub open spec fn authorized_names(auths: Seq<ToolAuthorization>) -> Seq<Seq<char>>
    decreases auths.len(),
{
    if auths.len() == 0 {
        Seq::empty()
    } else {
        authorized_names(auths.drop_last()).push(auths.last().tool_name@)
    }
}

/// The candidates kept for gating, by position: all of them when the input
/// named none is handled separately; here, the candidates whose name is
/// authorized, in order.
pub open spec fn kept_candidates(cands: Seq<ToolCandidate>, allowed: Seq<Seq<char>>) -> Seq<int>
    decreases cands.len(),
{
    if cands.len() == 0 {
        Seq::empty()
    } else {
        let prev = kept_candidates(cands.drop_last(), allowed);
        if allowed.contains(cands.last().tool_name@) {
            prev.push(cands.len() - 1)
        } else {
            prev
        }
    }
}

/// What the tool gate is asked about.
#[derive(Clone, Debug)]
pub struct GateRequest {
    /// The candidates that the policy authorizes.
    pub candidates: Vec<ToolCandidate>,
    /// Their names.
    pub candidate_names: Vec<String>,
    /// The names of the active guidelines.
    pub active_guideline_names: Vec<String>,
}

/// The names of the authorized tools.
fn allowed_tool_names(auths: &Vec<ToolAuthorization>) -> (r: Vec<String>)
    ensures
        r.deep_view() == authorized_names(auths@),
{
    let mut out: Vec<String> = Vec::new();
    let mut i: usize = 0;
    while i < auths.len()
        invariant
            i <= auths.len(),
            out.deep_view() == authorized_names(auths@.take(i as int)),
        decreases auths.len() - i,
    {
        assert(auths@.take(i + 1).drop_last() =~= auths@.take(i as int));
        let ghost before = out.deep_view();
        out.push(auths[i].tool_name.clone());
        assert(out.deep_view() =~= before.push(auths@[i as int].tool_name@));
        i = i + 1;
    }
    assert(auths@.take(auths@.len() as int) =~= auths@);
    out
}

/// `c` is a copy of `d`.
pub open spec fn same_candidate(c: ToolCandidate, d: ToolCandidate) -> bool {
    c.tool_name@ == d.tool_name@ && match (c.skill_ref, d.skill_ref) {
        (Some(a), Some(b)) => a@ == b@,
        (None, None) => true,
        _ => false,
    }
}

fn copy_candidate(c: &ToolCandidate) -> (r: ToolCandidate)
    ensures
        same_candidate(r, *c),
{
    ToolCandidate {
        tool_name: c.tool_name.clone(),
        skill_ref: match &c.skill_ref {
            Some(s) => Some(s.clone()),
            None => None,
        },
    }
}

/// Which tools to put to the tool gate: when the input names no candidate tools,
/// every authorized tool (without a skill reference); otherwise the input's
/// candidates whose name is authorized, in input order. Also returns the
/// names of the policy's active guidelines.
pub fn prepare_gate(policy: &PolicyResolution, candidate_tools: &Vec<ToolCandidate>) -> (r: GateRequest)
    ensures
        r.active_guideline_names.deep_view() == activation_names(policy.active_guidelines@),
        r.candidate_names@.len() == r.candidates@.len(),
        forall|k: int| 0 <= k < r.candidates@.len() ==> (#[trigger] r.candidate_names@[k])@ == r.candidates@[k].tool_name@,
        candidate_tools@.len() == 0 ==> ({
            let names = authorized_names(policy.tool_authorizations@);
            &&& r.candidates@.len() == names.len()
            &&& forall|k: int| 0 <= k < names.len() ==> (#[trigger] r.candidates@[k]).tool_name@ == names[k] && r.candidates@[k].skill_ref is None
        }),
        candidate_tools@.len() > 0 ==> ({
            let kept = kept_candidates(candidate_tools@, authorized_names(policy.tool_authorizations@));
            &&& r.candidates@.len() == kept.len()
            &&& forall|k: int| 0 <= k < kept.len() ==> 0 <= #[trigger] kept[k] < candidate_tools@.len() && same_candidate(r.candidates@[k], candidate_tools@[kept[k]])
        }),
{
    let allowed = allowed_tool_names(&policy.tool_authorizations);
    let guideline_names = names_of(&policy.active_guidelines);
    let mut candidates: Vec<ToolCandidate> = Vec::new();
    if candidate_tools.len() == 0 {
        let mut i: usize = 0;
        while i < allowed.len()
            invariant
                i <= allowed.len(),
                allowed.deep_view() == authorized_names(policy.tool_authorizations@),
                candidates@.len() == i,
                forall|k: int| 0 <= k < i ==> (#[trigger] candidates@[k]).tool_name@ == allowed.deep_view()[k] && candidates@[k].skill_ref is None,
            decreases allowed.len() - i,
        {
            candidates.push(ToolCandidate { tool_name: allowed[i].clone(), skill_ref: None });
            i = i + 1;
        }
    } else {
        let ghost names = authorized_names(policy.tool_authorizations@);
        let mut i: usize = 0;
        while i < candidate_tools.len()
            invariant
                i <= candidate_tools.len(),
                allowed.deep_view() == names,
                candidates@.len() == kept_candidates(candidate_tools@.take(i as int), names).len(),
                forall|k: int|
                    0 <= k < candidates@.len() ==> {
                        let p = #[trigger] kept_candidates(candidate_tools@.take(i as int), names)[k];
                        0 <= p < i && same_candidate(candidates@[k], candidate_tools@[p])
                    },
            decreases candidate_tools.len() - i,
        {
            let ghost before = kept_candidates(candidate_tools@.take(i as int), names);
            assert(candidate_tools@.take(i + 1).drop_last() =~= candidate_tools@.take(i as int));
            assert(candidate_tools@.take(i + 1).last() == candidate_tools@[i as int]);
            if crate::policy::contains_name(&allowed, candidate_tools[i].tool_name.as_str()) {
                candidates.push(copy_candidate(&candidate_tools[i]));
            }
            i = i + 1;
            proof {
                let now = kept_candidates(candidate_tools@.take(i as int), names);
                assert forall|k: int| 0 <= k < candidates@.len() implies {
                    let p = #[trigger] now[k];
                    0 <= p < i && same_candidate(candidates@[k], candidate_tools@[p])
                } by {
                    if k < before.len() {
                        assert(now[k] == before[k]);
                    }
                }
            }
        }
        assert(candidate_tools@.take(candidate_tools@.len() as int) =~= candidate_tools@);
    }
    let mut candidate_names: Vec<String> = Vec::new();
    let mut j: usize = 0;
    while j < candidates.len()
        invariant
            j <= candidates.len(),
            candidate_names@.len() == j,
            forall|k: int| 0 <= k < j ==> (#[trigger] candidate_names@[k])@ == candidates@[k].tool_name@,
        decreases candidates.len() - j,
    {
        candidate_names.push(candidates[j].tool_name.clone());
        j = j + 1;
    }
    GateRequest { candidates, candidate_names, active_guideline_names: guideline_names }
}

/// The names of the tools put to the tool gate for a turn: every authorized
/// tool when the input names no candidates; otherwise the input's candidates
/// whose name is authorized, in input order.
pub open spec fn gate_candidate_names(policy: PolicyResolution, candidate_tools: Seq<ToolCandidate>) -> Seq<
    Seq<char>,
> {
    let names = authorized_names(policy.tool_authorizations@);
    if candidate_tools.len() == 0 {
        names
    } else {
        kept_candidates(candidate_tools, names).map_values(|p: int| candidate_tools[p].tool_name@)
    }
}

/// The tool gate's decisions for a turn: one tool-gate evaluation, over the
/// candidates that `prepare_gate` keeps and the names of the policy's active
/// guidelines, deciding each candidate in order. When the tool policies
/// could not be listed (`gate_policies` is `None`) there are no decisions,
/// so no tool is allowed.
pub fn gate_turn_tools(
    policy: &PolicyResolution,
    candidate_tools: &Vec<ToolCandidate>,
    gate_policies: Option<&Vec<ToolExposurePolicy>>,
    observations: &Vec<ObservationHit>,
    journey_state: Option<&str>,
) -> (r: Vec<ToolGateDecision>)
    ensures
        gate_policies is None ==> r@.len() == 0,
        gate_policies matches Some(ps) ==> ({
            let names = gate_candidate_names(*policy, candidate_tools@);
            &&& r@.len() == names.len()
            &&& forall|i: int|
                0 <= i < r@.len() ==> is_gate_decision(
                    #[trigger] r@[i],
                    names[i],
                    ps@,
                    hit_names(observations@),
                    activation_names(policy.active_guidelines@),
                    opt_str_view(journey_state),
                )
        }),
{
    match gate_policies {
        None => Vec::new(),
        Some(ps) => {
            let req = prepare_gate(policy, candidate_tools);
            let r = gate_tools(ps, &req.candidate_names, observations, &req.active_guideline_names, journey_state);
            proof {
                let names = gate_candidate_names(*policy, candidate_tools@);
                assert(req.candidate_names@.len() == names.len());
                assert forall|i: int| 0 <= i < r@.len() implies req.candidate_names@[i]@ == names[i] by {
                    assert(req.candidate_names@[i]@ == req.candidates@[i].tool_name@);
                }
            }
            r
        },
    }
}

/// The tools that the tool gate allowed, in decision order.
pub open spec fn gated_names(ds: Seq<ToolGateDecision>) -> Seq<Seq<char>>
    decreases ds.len(),
{
    if ds.len() == 0 {
        Seq::empty()
    } else {
        let prev = gated_names(ds.drop_last());
        if ds.last().allowed {
            prev.push(ds.last().tool_name@)
        } else {
            prev
        }
    }
}

/// The allowed tools that need approval, in decision order.
pub open spec fn approval_names(ds: Seq<ToolGateDecision>) -> Seq<Seq<char>>
    decreases ds.len(),
{
    if ds.len() == 0 {
        Seq::empty()
    } else {
        let prev = approval_names(ds.drop_last());
        if ds.last().allowed && ds.last().requires_approval {
            prev.push(ds.last().tool_name@)
        } else {
            prev
        }
    }
}

/// Splits the tool gate's decisions into the allowed tools and the allowed tools
/// that need approval.
pub fn gated_tool_lists(decisions: &Vec<ToolGateDecision>) -> (r: (Vec<String>, Vec<String>))
    ensures
        r.0.deep_view() == gated_names(decisions@),
        r.1.deep_view() == approval_names(decisions@),
{
    let mut allowed: Vec<String> = Vec::new();
    let mut approval: Vec<String> = Vec::new();
    let mut i: usize = 0;
    while i < decisions.len()
        invariant
            i <= decisions.len(),
            allowed.deep_view() == gated_names(decisions@.take(i as int)),
            approval.deep_view() == approval_names(decisions@.take(i as int)),
        decreases decisions.len() - i,
    {
        assert(decisions@.take(i + 1).drop_last() =~= decisions@.take(i as int));
        assert(decisions@.take(i + 1).last() == decisions@[i as int]);
        let d = &decisions[i];
        if d.allowed {
            let ghost before = allowed.deep_view();
            allowed.push(d.tool_name.clone());
            assert(allowed.deep_view() =~= before.push(d.tool_name@));
            if d.requires_approval {
                let ghost before2 = approval.deep_view();
                approval.push(d.tool_name.clone());
                assert(approval.deep_view() =~= before2.push(d.tool_name@));
            }
        }
        i = i + 1;
    }
    assert(decisions@.take(decisions@.len() as int) =~= decisions@);
    (allowed, approval)
}

// ───────────────────────── Context hash ─────────────────────────

/// SHA-256 digest of a byte string.
pub uninterp spec fn sha256_digest(data: Seq<u8>) -> Seq<u8>;

/// `sha2::Sha256::digest`: the SHA-256 digest of `data`, named
/// `sha256_digest`; it is 32 bytes long.
#[verifier::external_body]
fn sha256(data: &[u8]) -> (r: Vec<u8>)
    ensures
        r@ == sha256_digest(data@),
        r@.len() == 32,
{
    <sha2::Sha256 as sha2::Digest>::digest(data).to_vec()
}

/// The lowercase hexadecimal digit for `d < 16`.
pub open spec fn hex_digit(d: nat) -> char {
    if d < 10 {
        crate::text::digit_char(d)
    } else if d == 10 { 'a' }
    else if d == 11 { 'b' }
    else if d == 12 { 'c' }
    else if d == 13 { 'd' }
    else if d == 14 { 'e' }
    else { 'f' }
}

/// Lowercase hexadecimal text of a byte string, two digits per byte.
pub open spec fn hex_lower(bytes: Seq<u8>) -> Seq<char>
    decreases bytes.len(),
{
    if bytes.len() == 0 {
        Seq::empty()
    } else {
        hex_lower(bytes.drop_last()) + seq![hex_digit((bytes.last() / 16) as nat), hex_digit((bytes.last() % 16) as nat)]
    }
}

fn hex_char(d: u8) -> (c: char)
    requires
        d < 16,
    ensures
        c == hex_digit(d as nat),
{
    if d == 0 { '0' }
    else if d == 1 { '1' }
    else if d == 2 { '2' }
    else if d == 3 { '3' }
    else if d == 4 { '4' }
    else if d == 5 { '5' }
    else if d == 6 { '6' }
    else if d == 7 { '7' }
    else if d == 8 { '8' }
    else if d == 9 { '9' }
    else if d == 10 { 'a' }
    else if d == 11 { 'b' }
    else if d == 12 { 'c' }
    else if d == 13 { 'd' }
    else if d == 14 { 'e' }
    else { 'f' }
}

/// Lowercase hexadecimal text of bytes.
pub fn to_hex_lower(bytes: &Vec<u8>) -> (r: String)
    ensures
        r@ == hex_lower(bytes@),
{
    let mut chars: Vec<char> = Vec::new();
    let mut i: usize = 0;
    while i < bytes.len()
        invariant
            i <= bytes.len(),
            chars@ == hex_lower(bytes@.take(i as int)),
        decreases bytes.len() - i,
    {
        assert(bytes@.take(i + 1).drop_last() =~= bytes@.take(i as int));
        assert(bytes@.take(i + 1).last() == bytes@[i as int]);
        let b = bytes[i];
        chars.push(hex_char(b / 16));
        chars.push(hex_char(b % 16));
        assert(chars@ =~= hex_lower(bytes@.take(i + 1)));
        i = i + 1;
    }
    assert(bytes@.take(bytes@.len() as int) =~= bytes@);
    crate::text::string_from_chars(&chars)
}

/// The fingerprint of a compiled context: the lowercase hex SHA-256 of the
/// UTF-8 bytes of its serialized description.
pub fn context_hash(serialized: &str) -> (r: String)
    ensures
        r@ == hex_lower(sha256_digest(serialized.spec_bytes())),
        r@.len() == 64,
{
    let digest = sha256(serialized.as_bytes());
    proof {
        lemma_hex_lower_len(digest@);
    }
    to_hex_lower(&digest)
}

/// Hexadecimal text has two digits per byte.
pub proof fn lemma_hex_lower_len(bytes: Seq<u8>)
    ensures
        hex_lower(bytes).len() == 2 * bytes.len(),
    decreases bytes.len(),
{
    if bytes.len() > 0 {
        lemma_hex_lower_len(bytes.drop_last());
    }
}

// ───────────────────────── Audit ─────────────────────────

/// The release recorded for the turn: the one carried over from an earlier
/// preparation round, else the scope's published release.
pub fn choose_release_version(prior: Option<String>, published: Option<String>) -> (r: Option<String>)
    ensures
        prior is Some ==> r == prior,
        prior is None ==> r == published,
{
    match prior {
        Some(v) => Some(v),
        None => published,
    }
}

/// Audit information for a turn: a carried-over record is re-scoped and
/// re-stamped, keeping its trace id and its release unless it has none;
/// otherwise a fresh record with the given trace id.
pub fn audit_meta_for(
    prior: Option<AuditMeta>,
    scope_id: &String,
    release_version: Option<String>,
    compiled_at: String,
    fresh_trace_id: String,
) -> (r: AuditMeta)
    ensures
        r.scope_id == *scope_id,
        r.compiled_at == compiled_at,
        match prior {
            Some(m) => r.trace_id == m.trace_id && r.release_version == (match m.release_version {
                Some(v) => Some(v),
                None => release_version,
            }),
            None => r.trace_id == fresh_trace_id && r.release_version == release_version,
        },
{
    match prior {
        Some(meta) => {
            let rv = match meta.release_version {
                Some(v) => Some(v),
                None => release_version,
            };
            AuditMeta { trace_id: meta.trace_id, scope_id: scope_id.clone(), release_version: rv, compiled_at }
        },
        None => AuditMeta {
            trace_id: fresh_trace_id,
            scope_id: scope_id.clone(),
            release_version,
            compiled_at,
        },
    }
}

// ───────────────────────── Assembly ─────────────────────────

/// Assembles the turn context: the policy's active guidelines followed by
/// the journey's projected guidelines, the tool gate's allowed tools and the
/// allowed tools needing approval, and the response mode inferred from the
/// knowledge and the authorizations.
pub fn assemble_context(
    agent_id: String,
    session_id: String,
    message: CanonicalMessage,
    observations: Vec<ObservationHit>,
    journey: JourneyResolution,
    policy: PolicyResolution,
    knowledge: KnowledgeBundle,
    gate_decisions: &Vec<ToolGateDecision>,
    audit_meta: AuditMeta,
    compiled_context_hash: Option<String>,
) -> (r: CompiledTurnContext)
    ensures
        r.agent_id == agent_id,
        r.session_id == session_id,
        r.canonical_message == message,
        r.active_observations == observations,
        r.active_guidelines@ == policy.active_guidelines@ + journey.projected_guidelines@,
        r.excluded_guidelines == policy.excluded_guidelines,
        r.active_journey == journey.active_journey,
        r.retrieved_chunks == knowledge.retrieved_chunks,
        r.glossary_terms == knowledge.glossary_terms,
        r.context_variables == knowledge.context_variables,
        r.canned_response_candidates == knowledge.canned_response_candidates,
        r.allowed_tools.deep_view() == gated_names(gate_decisions@),
        r.approval_required_tools.deep_view() == approval_names(gate_decisions@),
        r.tool_authorizations == policy.tool_authorizations,
        r.response_mode == response_mode_spec(knowledge, policy.tool_authorizations@),
        r.audit_meta == audit_meta,
        r.compiled_context_hash == compiled_context_hash,
{
    let (allowed, approval) = gated_tool_lists(gate_decisions);
    let mode = infer_response_mode(&knowledge, &policy.tool_authorizations);
    let mut guidelines = policy.active_guidelines;
    let mut projected = journey.projected_guidelines;
    guidelines.append(&mut projected);
    CompiledTurnContext {
        agent_id,
        session_id,
        canonical_message: message,
        active_observations: observations,
        active_guidelines: guidelines,
        excluded_guidelines: policy.excluded_guidelines,
        active_journey: journey.active_journey,
        retrieved_chunks: knowledge.retrieved_chunks,
        glossary_terms: knowledge.glossary_terms,
        context_variables: knowledge.context_variables,
        canned_response_candidates: knowledge.canned_response_candidates,
        allowed_tools: allowed,
        approval_required_tools: approval,
        tool_authorizations: policy.tool_authorizations,
        response_mode: mode,
        audit_meta,
        compiled_context_hash,
    }
}

// ───────────────────────── Iterative preparation ─────────────────────────

/// The most preparation rounds a turn may take.
pub const MAX_PREP_ITERATIONS: usize = 3;

/// The set of guideline ids of a list of activations.
pub open spec fn guideline_id_set(acts: Seq<GuidelineActivation>) -> Set<Seq<char>> {
    Set::new(|id: Seq<char>| exists|i: int| 0 <= i < acts.len() && #[trigger] acts[i].guideline_id@ == id)
}

/// Two compiled contexts are stable when they activate the same set of
/// guideline ids and allow the same tools in the same order.
pub open spec fn stable_spec(prev: CompiledTurnContext, next: CompiledTurnContext) -> bool {
    guideline_id_set(prev.active_guidelines@) == guideline_id_set(next.active_guidelines@)
        && prev.allowed_tools.deep_view() == next.allowed_tools.deep_view()
}

/// Every id of `a` is an id of `b`.
fn ids_covered(a: &Vec<GuidelineActivation>, b: &Vec<GuidelineActivation>) -> (r: bool)
    ensures
        r == guideline_id_set(a@).subset_of(guideline_id_set(b@)),
{
    let mut i: usize = 0;
    while i < a.len()
        invariant
            i <= a.len(),
            forall|k: int| 0 <= k < i ==> guideline_id_set(b@).contains(#[trigger] a@[k].guideline_id@),
        decreases a.len() - i,
    {
        let mut found = false;
        let mut j: usize = 0;
        while j < b.len()
            invariant
                j <= b.len(),
                i < a.len(),
                found ==> guideline_id_set(b@).contains(a@[i as int].guideline_id@),
                !found ==> forall|m: int| 0 <= m < j ==> b@[m].guideline_id@ != a@[i as int].guideline_id@,
            decreases b.len() - j,
        {
            if !found && str_eq(a[i].guideline_id.as_str(), b[j].guideline_id.as_str()) {
                found = true;
                assert(b@[j as int].guideline_id@ == a@[i as int].guideline_id@);
            }
            j = j + 1;
        }
        if !found {
            assert(!guideline_id_set(b@).contains(a@[i as int].guideline_id@));
            assert(guideline_id_set(a@).contains(a@[i as int].guideline_id@));
            return false;
        }
        i = i + 1;
    }
    assert forall|id: Seq<char>| guideline_id_set(a@).contains(id) implies guideline_id_set(b@).contains(id) by {
        let k = choose|k: int| 0 <= k < a@.len() && #[trigger] a@[k].guideline_id@ == id;
        assert(guideline_id_set(b@).contains(a@[k].guideline_id@));
    }
    true
}

/// Element-wise equality of two string lists.
pub fn strings_equal(a: &Vec<String>, b: &Vec<String>) -> (r: bool)
    ensures
        r == (a.deep_view() == b.deep_view()),
{
    if a.len() != b.len() {
        assert(a.deep_view().len() != b.deep_view().len());
        return false;
    }
    let mut i: usize = 0;
    while i < a.len()
        invariant
            i <= a.len(),
            a.len() == b.len(),
            forall|k: int| 0 <= k < i ==> a.deep_view()[k] == b.deep_view()[k],
        decreases a.len() - i,
    {
        if !str_eq(a[i].as_str(), b[i].as_str()) {
            assert(a.deep_view()[i as int] != b.deep_view()[i as int]);
            return false;
        }
        i = i + 1;
    }
    assert(a.deep_view() =~= b.deep_view());
    true
}

/// Whether two preparation rounds reached the same guidelines and tools.
pub fn guidelines_stable(prev: &CompiledTurnContext, next: &CompiledTurnContext) -> (r: bool)
    ensures
        r == stable_spec(*prev, *next),
{
    let ab = ids_covered(&prev.active_guidelines, &next.active_guidelines);
    let ba = ids_covered(&next.active_guidelines, &prev.active_guidelines);
    let tools = strings_equal(&prev.allowed_tools, &next.allowed_tools);
    proof {
        let sa = guideline_id_set(prev.active_guidelines@);
        let sb = guideline_id_set(next.active_guidelines@);
        if ab && ba {
            assert(sa =~= sb);
        }
        if sa == sb {
            assert(sa.subset_of(sb));
            assert(sb.subset_of(sa));
        }
    }
    ab && ba && tools
}

/// The text summarizing earlier tool calls: `[tool:<name> result:<result>]`
/// per call (`(empty)` when a call has no result), separated by spaces.
pub open spec fn tool_summary_spec(calls: Seq<ToolCallRecord>) -> Seq<char>
    decreases calls.len(),
{
    if calls.len() == 0 {
        Seq::empty()
    } else {
        let prev = tool_summary_spec(calls.drop_last());
        let entry = tool_entry(calls.last());
        if calls.len() == 1 {
            entry
        } else {
            prev + " "@ + entry
        }
    }
}

/// One tool call in the summary.
pub open spec fn tool_entry(c: ToolCallRecord) -> Seq<char> {
    "[tool:"@ + c.tool_name@ + " result:"@ + match c.result {
        Some(r) => r@,
        None => "(empty)"@,
    } + "]"@
}

/// Summarizes earlier tool calls for re-evaluation.
pub fn tool_summary(calls: &Vec<ToolCallRecord>) -> (r: String)
    ensures
        r@ == tool_summary_spec(calls@),
{
    let mut s = String::new();
    let mut i: usize = 0;
    while i < calls.len()
        invariant
            i <= calls.len(),
            s@ == tool_summary_spec(calls@.take(i as int)),
        decreases calls.len() - i,
    {
        assert(calls@.take(i + 1).drop_last() =~= calls@.take(i as int));
        assert(calls@.take(i + 1).last() == calls@[i as int]);
        let c = &calls[i];
        if i > 0 {
            push_str(&mut s, " ");
        }
        let ghost before = s@;
        push_str(&mut s, "[tool:");
        push_str(&mut s, c.tool_name.as_str());
        push_str(&mut s, " result:");
        match &c.result {
            Some(r) => push_str(&mut s, r.as_str()),
            None => push_str(&mut s, "(empty)"),
        }
        push_str(&mut s, "]");
        assert(s@ =~= before + tool_entry(*c));
        i = i + 1;
    }
    assert(calls@.take(calls@.len() as int) =~= calls@);
    s
}

/// The message text for a re-evaluation round: the original text, a blank
/// line, and the tool-call summary.
pub fn enriched_message_text(original: &str, calls: &Vec<ToolCallRecord>) -> (r: String)
    ensures
        r@ == original@ + "\n\nTool call results: "@ + tool_summary_spec(calls@),
{
    let summary = tool_summary(calls);
    let mut s = owned(original);
    push_str(&mut s, "\n\nTool call results: ");
    push_str(&mut s, summary.as_str());
    s
}

/// The next preparation round, given how many rounds have run: another
/// round (with this message text) while fewer than `MAX_PREP_ITERATIONS`
/// rounds ran and earlier tool calls remain to incorporate; otherwise stop.
pub fn next_preparation_round(rounds_done: usize, prior_calls: &Vec<ToolCallRecord>, original_text: &str) -> (r: Option<String>)
    ensures
        r is Some <==> (rounds_done < MAX_PREP_ITERATIONS && prior_calls@.len() > 0),
        r matches Some(t) ==> t@ == original_text@ + "\n\nTool call results: "@ + tool_summary_spec(prior_calls@),
{
    if rounds_done < MAX_PREP_ITERATIONS && prior_calls.len() > 0 {
        Some(enriched_message_text(original_text, prior_calls))
    } else {
        None
    }
}

/// The decision recorded with a journey transition: whether a hand-off was
/// requested and whether the journey completed.
pub fn journey_decision_json(update: &JourneyUpdate) -> (r: JsonValue)
    ensures
        r matches JsonValue::Object(m) && m@.len() == 2
            && m@[0].0@ == "handoff_requested"@ && m@[0].1 == JsonValue::Bool(update.handoff_requested)
            && m@[1].0@ == "completed"@ && m@[1].1 == JsonValue::Bool(update.completed),
{
    let mut m: Vec<(String, JsonValue)> = Vec::new();
    m.push((owned("handoff_requested"), JsonValue::Bool(update.handoff_requested)));
    m.push((owned("completed"), JsonValue::Bool(update.completed)));
    JsonValue::Object(m)
}

/// The authorization explanation recorded after a turn: the compiled
/// authorization reasons (an empty object when there are none or they could
/// not be read) with the runtime's tool calls set as `runtime_tool_calls`;
/// reasons that are not an object are recorded as they are.
pub fn authorization_record_json(reasons: Option<JsonValue>, tool_calls: JsonValue) -> (r: JsonValue)
    ensures
        match reasons {
            None => r is Object && r.get_spec("runtime_tool_calls"@) == Some(tool_calls) && forall|k: Seq<char>|
                k != "runtime_tool_calls"@ ==> #[trigger] r.get_spec(k) is None,
            Some(v) => if v is Object {
                r is Object && r.get_spec("runtime_tool_calls"@) == Some(tool_calls) && forall|k: Seq<char>|
                    k != "runtime_tool_calls"@ ==> #[trigger] r.get_spec(k) == v.get_spec(k)
            } else {
                r == v
            },
        },
{
    let base = match reasons {
        Some(v) => v,
        None => JsonValue::Object(Vec::new()),
    };
    proof {
        if reasons is None {
            assert forall|k: Seq<char>| #[trigger] base.get_spec(k) is None by {}
        }
    }
    base.set_member("runtime_tool_calls", tool_calls)
}

} // verus!
