use openparlant::journey::{JourneyUpdate, NoopJourneyRuntime, ToolCallRecord};
use openparlant::json::JsonValue;
use openparlant::observation::NoopObservationMatcher;
use openparlant::policy::{NoopPolicyResolver, NoopToolGate, PolicyResolution, ToolAuthorization, ToolGateDecision};
use openparlant::turn::{
    assemble_context, audit_meta_for, authorization_record_json, choose_release_version, context_hash,
    gated_tool_lists, guidelines_stable, infer_response_mode, journey_decision_json, next_preparation_round,
    prepare_gate, tool_summary, AuditMeta, CanonicalMessage, CompiledTurnContext, KnowledgeBundle, ResponseMode,
    ToolCandidate, MAX_PREP_ITERATIONS,
};

fn empty_knowledge() -> KnowledgeBundle {
    KnowledgeBundle { retrieved_chunks: Vec::new(), glossary_terms: Vec::new(), context_variables: Vec::new(), canned_response_candidates: Vec::new() }
}

fn auth(tool: &str, approval: bool) -> ToolAuthorization {
    ToolAuthorization { tool_name: tool.to_string(), reasons: vec![format!("policy:{tool}")], requires_approval: approval }
}

fn decision(tool: &str, allowed: bool, approval: bool) -> ToolGateDecision {
    ToolGateDecision { tool_name: tool.to_string(), allowed, reason: "r".to_string(), requires_approval: approval }
}

fn meta() -> AuditMeta {
    AuditMeta { trace_id: "trace-1".to_string(), scope_id: "default".to_string(), release_version: None, compiled_at: "2024-01-01T00:00:00Z".to_string() }
}

fn context(guideline_ids: &[&str], tools: &[&str]) -> CompiledTurnContext {
    let policy = PolicyResolution {
        active_guidelines: guideline_ids
            .iter()
            .map(|id| openparlant::policy::GuidelineActivation {
                guideline_id: id.to_string(),
                name: id.to_string(),
                action_text: String::new(),
                composition_mode: None,
                priority: 0,
                source_observations: Vec::new(),
            })
            .collect(),
        excluded_guidelines: Vec::new(),
        tool_authorizations: Vec::new(),
    };
    let decisions: Vec<ToolGateDecision> = tools.iter().map(|t| decision(t, true, false)).collect();
    assemble_context(
        "agent".to_string(),
        "session".to_string(),
        CanonicalMessage { scope_id: "default".to_string(), channel_type: "web".to_string(), text: "hello".to_string(), external_message_id: None },
        Vec::new(),
        NoopJourneyRuntime.resolve_journey("default", "session", "hello"),
        policy,
        empty_knowledge(),
        &decisions,
        meta(),
        None,
    )
}

#[test]
fn noop_coordinator_compiles_empty_context() {
    let message = CanonicalMessage { scope_id: "default".to_string(), channel_type: "web".to_string(), text: "hello".to_string(), external_message_id: None };
    let observations = NoopObservationMatcher.match_observations("default", &message.text);
    let journey = NoopJourneyRuntime.resolve_journey("default", "session", &message.text);
    let policy = NoopPolicyResolver.resolve_policy("default", &message.text, &observations, None);
    let request = prepare_gate(&policy, &Vec::new());
    let decisions = NoopToolGate.evaluate("default", &request.candidate_names, &observations, &request.active_guideline_names, None);
    let ctx = assemble_context("agent".to_string(), "session".to_string(), message, observations, journey, policy, empty_knowledge(), &decisions, meta(), None);
    assert!(ctx.active_observations.is_empty());
    assert!(ctx.allowed_tools.is_empty());
    assert!(matches!(ctx.response_mode, ResponseMode::Freeform));
}

#[test]
fn response_mode_priorities() {
    let mut k = empty_knowledge();
    assert!(matches!(infer_response_mode(&k, &Vec::new()), ResponseMode::Freeform));
    k.glossary_terms.push(JsonValue::Null);
    assert!(matches!(infer_response_mode(&k, &vec![auth("a", false)]), ResponseMode::Guided));
    assert!(matches!(infer_response_mode(&k, &vec![auth("a", false), auth("b", true)]), ResponseMode::Strict));
    k.canned_response_candidates.push(JsonValue::Null);
    assert!(matches!(infer_response_mode(&k, &vec![auth("b", true)]), ResponseMode::CannedOnly));
    let mut v = empty_knowledge();
    v.context_variables.push(JsonValue::Null);
    assert!(matches!(infer_response_mode(&v, &Vec::new()), ResponseMode::Guided));
}

#[test]
fn gate_request_from_authorizations() {
    let policy = PolicyResolution { active_guidelines: Vec::new(), excluded_guidelines: Vec::new(), tool_authorizations: vec![auth("refund", true), auth("faq", false)] };
    let all = prepare_gate(&policy, &Vec::new());
    assert_eq!(all.candidate_names, vec!["refund".to_string(), "faq".to_string()]);
    assert!(all.candidates.iter().all(|c| c.skill_ref.is_none()));
    let given = vec![
        ToolCandidate { tool_name: "search".to_string(), skill_ref: None },
        ToolCandidate { tool_name: "faq".to_string(), skill_ref: Some("skill-1".to_string()) },
    ];
    let some = prepare_gate(&policy, &given);
    assert_eq!(some.candidate_names, vec!["faq".to_string()]);
    assert_eq!(some.candidates[0].skill_ref.as_deref(), Some("skill-1"));
}

#[test]
fn gated_lists_split_allowed_and_approval() {
    let (allowed, approval) = gated_tool_lists(&vec![decision("a", true, false), decision("b", false, true), decision("c", true, true)]);
    assert_eq!(allowed, vec!["a".to_string(), "c".to_string()]);
    assert_eq!(approval, vec!["c".to_string()]);
}

#[test]
fn context_hash_is_hex_sha256() {
    assert_eq!(context_hash(""), "e3b0c44298fc1c149afbf4c8996fb92427ae41e4649b934ca495991b7852b855");
    assert_eq!(context_hash("abc"), "ba7816bf8f01cfea414140de5dae2223b00361a396177a9cb410ff61f20015ad");
}

#[test]
fn audit_meta_carries_trace_and_release() {
    assert_eq!(choose_release_version(Some("v1".to_string()), Some("v2".to_string())).as_deref(), Some("v1"));
    assert_eq!(choose_release_version(None, Some("v2".to_string())).as_deref(), Some("v2"));
    let fresh = audit_meta_for(None, &"scope".to_string(), Some("v3".to_string()), "now".to_string(), "trace-new".to_string());
    assert_eq!(fresh.trace_id, "trace-new");
    assert_eq!(fresh.release_version.as_deref(), Some("v3"));
    let carried = audit_meta_for(Some(meta()), &"scope".to_string(), Some("v3".to_string()), "later".to_string(), "trace-new".to_string());
    assert_eq!(carried.trace_id, "trace-1");
    assert_eq!(carried.scope_id, "scope");
    assert_eq!(carried.compiled_at, "later");
    assert_eq!(carried.release_version.as_deref(), Some("v3"));
}

#[test]
fn assembly_appends_projected_guidelines_and_lists_tools() {
    let ctx = context(&["g1", "g2"], &["a", "b"]);
    assert_eq!(ctx.active_guidelines.len(), 2);
    assert_eq!(ctx.allowed_tools, vec!["a".to_string(), "b".to_string()]);
    assert!(ctx.approval_required_tools.is_empty());
}

#[test]
fn stability_compares_guideline_sets_and_tool_lists() {
    let a = context(&["g1", "g2"], &["t"]);
    let b = context(&["g2", "g1", "g1"], &["t"]);
    let c = context(&["g1"], &["t"]);
    let d = context(&["g1", "g2"], &["u"]);
    assert!(guidelines_stable(&a, &a));
    assert!(guidelines_stable(&a, &b));
    assert!(guidelines_stable(&b, &a));
    assert!(!guidelines_stable(&a, &c));
    assert!(!guidelines_stable(&a, &d));
}

#[test]
fn preparation_rounds_enrich_the_message() {
    let calls = vec![
        ToolCallRecord { tool_name: "lookup".to_string(), result: Some("42".to_string()) },
        ToolCallRecord { tool_name: "ping".to_string(), result: None },
    ];
    assert_eq!(tool_summary(&calls), "[tool:lookup result:42] [tool:ping result:(empty)]");
    assert_eq!(
        next_preparation_round(0, &calls, "hi").as_deref(),
        Some("hi\n\nTool call results: [tool:lookup result:42] [tool:ping result:(empty)]")
    );
    assert!(next_preparation_round(MAX_PREP_ITERATIONS, &calls, "hi").is_none());
    assert!(next_preparation_round(0, &Vec::new(), "hi").is_none());
}

#[test]
fn recorded_decisions_and_authorizations() {
    let update = JourneyUpdate { journey_instance_id: None, before_state: None, after_state: None, handoff_requested: true, completed: false };
    match journey_decision_json(&update) {
        JsonValue::Object(m) => {
            assert_eq!(m[0].0, "handoff_requested");
            assert!(matches!(m[0].1, JsonValue::Bool(true)));
            assert_eq!(m[1].0, "completed");
            assert!(matches!(m[1].1, JsonValue::Bool(false)));
        }
        _ => panic!("object expected"),
    }
    let calls = JsonValue::Array(vec![]);
    let fresh = authorization_record_json(None, calls);
    assert!(matches!(fresh.get("runtime_tool_calls"), Some(JsonValue::Array(a)) if a.is_empty()));
    let reasons = JsonValue::Object(vec![
        ("runtime_tool_calls".to_string(), JsonValue::Null),
        ("refund".to_string(), JsonValue::Str("policy:p1".to_string())),
    ]);
    let merged = authorization_record_json(Some(reasons), JsonValue::Bool(true));
    assert!(matches!(merged.get("runtime_tool_calls"), Some(JsonValue::Bool(true))));
    assert!(matches!(merged.get("refund"), Some(JsonValue::Str(s)) if s == "policy:p1"));
    let odd = authorization_record_json(Some(JsonValue::Array(vec![])), JsonValue::Bool(true));
    assert!(matches!(odd, JsonValue::Array(a) if a.is_empty()));
}
