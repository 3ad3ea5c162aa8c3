use openparlant::observation::ObservationHit;
use openparlant::policy::{
    activate_guidelines, apply_relationships, authorize_tools, gate_tools, resolve_policy, ApprovalMode,
    GuidelineActivation, GuidelineDefinition, GuidelineRelationship, NoopPolicyResolver, NoopToolGate,
    ToolExposurePolicy,
};

fn guideline(id: &str, name: &str, condition: &str, priority: i32) -> GuidelineDefinition {
    GuidelineDefinition {
        guideline_id: id.to_string(),
        scope_id: "default".to_string(),
        name: name.to_string(),
        condition_ref: condition.to_string(),
        action_text: format!("do {name}"),
        composition_mode: "append".to_string(),
        priority,
        enabled: true,
    }
}

fn hit(id: &str, name: &str) -> ObservationHit {
    ObservationHit { observation_id: id.to_string(), name: name.to_string(), matched_by: "test".to_string() }
}

fn activation(id: &str, priority: i32) -> GuidelineActivation {
    GuidelineActivation {
        guideline_id: id.to_string(),
        name: format!("name-{id}"),
        action_text: "act".to_string(),
        composition_mode: None,
        priority,
        source_observations: Vec::new(),
    }
}

fn rel(from: &str, to: &str, kind: &str) -> GuidelineRelationship {
    GuidelineRelationship {
        relationship_id: format!("{from}-{kind}-{to}"),
        from_guideline_id: from.to_string(),
        to_guideline_id: to.to_string(),
        relation_type: kind.to_string(),
    }
}

fn policy(id: &str, tool: &str, mode: ApprovalMode) -> ToolExposurePolicy {
    ToolExposurePolicy {
        policy_id: id.to_string(),
        scope_id: "default".to_string(),
        tool_name: tool.to_string(),
        skill_ref: None,
        observation_ref: None,
        journey_state_ref: None,
        guideline_ref: None,
        approval_mode: mode,
        enabled: true,
    }
}

#[test]
fn guidelines_activate_on_condition() {
    let mut disabled = guideline("g0", "off", "", 1);
    disabled.enabled = false;
    let gs = vec![
        disabled,
        guideline("g1", "unconditional", "", 1),
        guideline("g2", "always", "always", 1),
        guideline("g3", "vip", "vip_user", 1),
        guideline("g4", "other", "refund", 1),
    ];
    let obs = vec![hit("o1", "vip_user"), hit("o2", "greeting"), hit("o3", "vip_user")];
    let acts = activate_guidelines(&gs, &obs);
    let ids: Vec<&str> = acts.iter().map(|a| a.guideline_id.as_str()).collect();
    assert_eq!(ids, vec!["g1", "g2", "g3"]);
    assert_eq!(acts[2].source_observations, vec!["o1".to_string(), "o3".to_string()]);
    assert!(acts[0].source_observations.is_empty());
    assert_eq!(acts[2].action_text, "do vip");
    assert!(acts[2].composition_mode.is_none());
}

#[test]
fn depends_on_excludes_when_dependency_inactive() {
    let (kept, excluded) = apply_relationships(vec![activation("a", 1)], &vec![rel("a", "b", "depends_on")]);
    assert!(kept.is_empty());
    assert_eq!(excluded.len(), 1);
    assert_eq!(excluded[0].guideline_id, "a");
    assert_eq!(excluded[0].name, "name-a");
    assert_eq!(excluded[0].reason, "depends_on b which is not active");
    let (kept, excluded) = apply_relationships(vec![activation("a", 1), activation("b", 1)], &vec![rel("a", "b", "depends_on")]);
    assert_eq!(kept.len(), 2);
    assert!(excluded.is_empty());
}

#[test]
fn excludes_keeps_higher_priority() {
    let (kept, excluded) = apply_relationships(vec![activation("a", 10), activation("b", 5)], &vec![rel("a", "b", "excludes")]);
    assert_eq!(kept.len(), 1);
    assert_eq!(kept[0].guideline_id, "a");
    assert_eq!(excluded[0].reason, "excluded by a (priority 10 >= 5)");
    let (kept, excluded) = apply_relationships(vec![activation("a", -3), activation("b", 5)], &vec![rel("a", "b", "excludes")]);
    assert_eq!(kept[0].guideline_id, "b");
    assert_eq!(excluded[0].guideline_id, "a");
    assert_eq!(excluded[0].reason, "excluded by b (priority 5 > -3)");
    // A tie excludes the target.
    let (kept, excluded) = apply_relationships(vec![activation("a", 7), activation("b", 7)], &vec![rel("a", "b", "excludes")]);
    assert_eq!(kept[0].guideline_id, "a");
    assert_eq!(excluded[0].reason, "excluded by a (priority 7 >= 7)");
}

#[test]
fn prioritizes_over_excludes_target_and_unknown_kinds_are_ignored() {
    let acts = vec![activation("a", 1), activation("b", 9), activation("c", 1)];
    let rels = vec![rel("a", "b", "prioritizes_over"), rel("c", "a", "likes")];
    let (kept, excluded) = apply_relationships(acts, &rels);
    let ids: Vec<&str> = kept.iter().map(|a| a.guideline_id.as_str()).collect();
    assert_eq!(ids, vec!["a", "c"]);
    assert_eq!(excluded[0].reason, "prioritized_over by a");
}

#[test]
fn rules_read_the_set_before_exclusions_and_last_reason_wins() {
    // b is excluded by a; c depends on b, which was active before exclusions, so c stays.
    let acts = vec![activation("a", 1), activation("b", 1), activation("c", 1)];
    let rels = vec![rel("a", "b", "prioritizes_over"), rel("c", "b", "depends_on"), rel("c", "b", "excludes")];
    let (kept, excluded) = apply_relationships(acts, &rels);
    let ids: Vec<&str> = kept.iter().map(|a| a.guideline_id.as_str()).collect();
    assert_eq!(ids, vec!["a", "c"]);
    assert_eq!(excluded.len(), 1);
    assert_eq!(excluded[0].reason, "excluded by c (priority 1 >= 1)");
}

#[test]
fn no_relationships_keep_everything() {
    let (kept, excluded) = apply_relationships(vec![activation("a", 1), activation("b", 2)], &Vec::new());
    assert_eq!(kept.len(), 2);
    assert!(excluded.is_empty());
}

#[test]
fn tools_authorized_by_preconditions() {
    let mut p1 = policy("p1", "refund", ApprovalMode::Required);
    p1.observation_ref = Some("vip_user".to_string());
    p1.guideline_ref = Some("name-a".to_string());
    p1.journey_state_ref = Some("collect".to_string());
    let mut p2 = policy("p2", "search", ApprovalMode::Auto);
    p2.observation_ref = Some("missing".to_string());
    let mut p3 = policy("p3", "lookup", ApprovalMode::Conditional);
    p3.enabled = false;
    let p4 = policy("p4", "faq", ApprovalMode::Auto);
    let auths = authorize_tools(&vec![p1, p2, p3, p4], &vec![hit("o1", "vip_user")], &vec![activation("a", 1)], Some("collect"));
    assert_eq!(auths.len(), 2);
    assert_eq!(auths[0].tool_name, "refund");
    assert_eq!(auths[0].reasons, vec!["policy:p1 (observation:vip_user) (guideline:name-a) (journey_state:collect)".to_string()]);
    assert!(auths[0].requires_approval);
    assert_eq!(auths[1].tool_name, "faq");
    assert_eq!(auths[1].reasons, vec!["policy:p4".to_string()]);
    assert!(!auths[1].requires_approval);
    // Another journey state fails the precondition.
    let mut p5 = policy("p5", "refund", ApprovalMode::Auto);
    p5.journey_state_ref = Some("collect".to_string());
    assert!(authorize_tools(&vec![p5], &Vec::new(), &Vec::new(), Some("other")).is_empty());
}

#[test]
fn resolve_policy_end_to_end() {
    let gs = vec![guideline("g1", "escalate", "vip_user", 90), guideline("g2", "smalltalk", "", 10)];
    let rels = vec![rel("g1", "g2", "excludes")];
    let mut p = policy("p1", "handoff", ApprovalMode::Required);
    p.guideline_ref = Some("smalltalk".to_string());
    let mut q = policy("p2", "crm", ApprovalMode::Auto);
    q.guideline_ref = Some("escalate".to_string());
    let res = resolve_policy(&gs, &vec![hit("o1", "vip_user")], &rels, &vec![p, q], None);
    assert_eq!(res.active_guidelines.len(), 1);
    assert_eq!(res.active_guidelines[0].guideline_id, "g1");
    assert_eq!(res.excluded_guidelines[0].guideline_id, "g2");
    assert_eq!(res.excluded_guidelines[0].reason, "excluded by g1 (priority 90 >= 10)");
    // The excluded guideline no longer authorizes its tool.
    assert_eq!(res.tool_authorizations.len(), 1);
    assert_eq!(res.tool_authorizations[0].tool_name, "crm");
}

#[test]
fn gate_decides_by_first_applying_policy() {
    let mut cond = policy("p1", "refund", ApprovalMode::Conditional);
    cond.observation_ref = Some("vip_user".to_string());
    let auto = policy("p2", "refund", ApprovalMode::Auto);
    let req = policy("p3", "wire", ApprovalMode::Required);
    let decisions = gate_tools(
        &vec![cond, auto, req],
        &vec!["refund".to_string(), "wire".to_string(), "search".to_string()],
        &vec![hit("o1", "vip_user")],
        &Vec::new(),
        None,
    );
    assert_eq!(decisions.len(), 3);
    assert!(decisions.iter().all(|d| d.allowed));
    assert_eq!(decisions[0].reason, "policy 'p1' (approval_mode=conditional)");
    assert!(decisions[0].requires_approval);
    assert_eq!(decisions[1].reason, "policy 'p3' (approval_mode=required)");
    assert!(decisions[1].requires_approval);
    assert_eq!(decisions[2].tool_name, "search");
    assert_eq!(decisions[2].reason, "no policy (open by default)");
    assert!(!decisions[2].requires_approval);
    // Without the observation the conditional policy does not apply; the next one does.
    let decisions = gate_tools(
        &vec![policy("p1", "refund", ApprovalMode::Auto)],
        &vec!["refund".to_string()],
        &Vec::new(),
        &Vec::new(),
        None,
    );
    assert_eq!(decisions[0].reason, "policy 'p1' (approval_mode=auto)");
    assert!(!decisions[0].requires_approval);
}

#[test]
fn approval_mode_text_round_trips() {
    for mode in [ApprovalMode::Auto, ApprovalMode::Required, ApprovalMode::Conditional] {
        let text = mode.as_str();
        assert_eq!(ApprovalMode::parse(text).as_str(), text);
    }
    assert_eq!(ApprovalMode::parse("whatever").as_str(), "auto");
    assert_eq!(ApprovalMode::parse("required").as_str(), "required");
}

#[test]
fn noop_resolver_and_gate() {
    let res = NoopPolicyResolver.resolve_policy("scope", "hello", &vec![hit("o", "x")], None);
    assert!(res.active_guidelines.is_empty());
    assert!(res.excluded_guidelines.is_empty());
    assert!(res.tool_authorizations.is_empty());
    let decisions = NoopToolGate.evaluate("scope", &vec!["a".to_string()], &Vec::new(), &Vec::new(), None);
    assert_eq!(decisions.len(), 1);
    assert!(decisions[0].allowed);
    assert!(!decisions[0].requires_approval);
    assert_eq!(decisions[0].reason, "noop gate");
}
