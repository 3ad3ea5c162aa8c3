use openparlant::journey::{
    advance_on_outcome, choose_entry_state, compute_missing_fields, decide_outcome, evaluate_transition_condition,
    journey_may_start, journey_triggered, next_actions, outcome_first_step, pick_new_journey, project_guidelines,
    resolve_active_journey, resolve_new_journey, ActiveJourneyInstanceRecord, InstanceChange,
    JourneyDefinition, JourneyStateRecord, NoopJourneyRuntime, OutcomeStep, ToolCallRecord,
    TransitionRecord, TurnOutcome,
};
use openparlant::json::JsonValue;

fn object(members: Vec<(&str, JsonValue)>) -> JsonValue {
    JsonValue::Object(members.into_iter().map(|(k, v)| (k.to_string(), v)).collect())
}

fn strings(items: &[&str]) -> JsonValue {
    JsonValue::Array(items.iter().map(|s| JsonValue::Str(s.to_string())).collect())
}

fn state(id: &str, name: &str, required: &[&str], actions: &[&str]) -> JourneyStateRecord {
    JourneyStateRecord {
        state_id: id.to_string(),
        name: name.to_string(),
        description: None,
        required_fields: required.iter().map(|s| s.to_string()).collect(),
        guideline_actions: actions.iter().map(|s| s.to_string()).collect(),
    }
}

fn transition(to: &str, kind: &str, cond: JsonValue) -> TransitionRecord {
    TransitionRecord { transition_id: format!("t-{to}"), to_state_id: to.to_string(), condition_config: cond, transition_type: kind.to_string() }
}

fn outcome(calls: &[&str], response: &str, handoff: bool) -> TurnOutcome {
    TurnOutcome {
        scope_id: "default".to_string(),
        session_id: "s1".to_string(),
        trace_id: "t1".to_string(),
        tool_calls: calls.iter().map(|c| ToolCallRecord { tool_name: c.to_string(), result: None }).collect(),
        response_text: response.to_string(),
        handoff_suggested: handoff,
    }
}

fn journey(id: &str, trigger: JsonValue) -> JourneyDefinition {
    JourneyDefinition {
        journey_id: id.to_string(),
        scope_id: "default".to_string(),
        name: "Sales".to_string(),
        trigger_config: trigger,
        completion_rule: None,
        entry_state_id: None,
        enabled: true,
    }
}

fn instance(state: &str, payload: JsonValue) -> ActiveJourneyInstanceRecord {
    ActiveJourneyInstanceRecord {
        journey_instance_id: "inst-1".to_string(),
        scope_id: "default".to_string(),
        journey_id: "j1".to_string(),
        current_state_id: state.to_string(),
        state_payload: payload,
    }
}

#[test]
fn triggers_follow_their_rules() {
    assert!(journey_triggered(&object(vec![("always", JsonValue::Bool(true))]), "anything"));
    assert!(journey_triggered(&object(vec![]), "anything"));
    assert!(journey_triggered(&JsonValue::Null, "anything"));
    assert!(!journey_triggered(&object(vec![("always", JsonValue::Bool(false))]), "anything"));
    let sub = object(vec![("substring", JsonValue::Str("Quote".to_string()))]);
    assert!(journey_triggered(&sub, "I need a QUOTE"));
    assert!(!journey_triggered(&sub, "hello"));
    let contains = object(vec![("contains", strings(&["price", "quote"]))]);
    assert!(journey_triggered(&contains, "what is the price"));
    let all = object(vec![("all", strings(&["price", "quote"]))]);
    assert!(!journey_triggered(&all, "what is the price"));
    assert!(journey_triggered(&all, "quote me a price"));
    let pattern = object(vec![("pattern", JsonValue::Str("^order [0-9]+$".to_string()))]);
    assert!(journey_triggered(&pattern, "order 42"));
    assert!(!journey_triggered(&pattern, "Order 42"));
    let regex = object(vec![("regex", JsonValue::Str("[".to_string()))]);
    assert!(!journey_triggered(&regex, "["));
    let other = object(vec![("unknown", JsonValue::Bool(true))]);
    assert!(!journey_triggered(&other, "anything"));
    assert!(journey_may_start(&journey("j", object(vec![])), "hi"));
}

#[test]
fn transitions_fire_on_outcomes() {
    let o = outcome(&["send_quote"], "Quote SENT to you", false);
    assert!(evaluate_transition_condition(&JsonValue::Null, "complete", &o));
    assert!(evaluate_transition_condition(&JsonValue::Null, "handoff", &o));
    assert!(evaluate_transition_condition(&object(vec![("always", JsonValue::Bool(true))]), "auto", &o));
    assert!(evaluate_transition_condition(&object(vec![("tool_called", JsonValue::Str("send_quote".to_string()))]), "auto", &o));
    assert!(!evaluate_transition_condition(&object(vec![("tool_called", JsonValue::Str("refund".to_string()))]), "auto", &o));
    assert!(evaluate_transition_condition(&object(vec![("response_contains", JsonValue::Str("quote sent".to_string()))]), "auto", &o));
    assert!(evaluate_transition_condition(&object(vec![]), "auto", &o));
    assert!(!evaluate_transition_condition(&JsonValue::Null, "auto", &o));
    assert!(!evaluate_transition_condition(&object(vec![("other", JsonValue::Null)]), "auto", &o));
}

#[test]
fn missing_fields_are_absent_or_null() {
    let payload = object(vec![("email", JsonValue::Str("a@b".to_string())), ("phone", JsonValue::Null)]);
    let missing = compute_missing_fields(&vec!["email".to_string(), "phone".to_string(), "name".to_string()], &payload);
    assert_eq!(missing, vec!["phone".to_string(), "name".to_string()]);
    let none = compute_missing_fields(&vec!["email".to_string()], &JsonValue::Null);
    assert_eq!(none, vec!["email".to_string()]);
}

#[test]
fn projected_guidelines_have_stable_ids() {
    let actions = vec!["Ask for the customer's email address before anything else please".to_string(), "Offer a quote".to_string()];
    let a = project_guidelines("j1", "Sales", "s1", "Collect", &actions);
    let b = project_guidelines("j1", "Sales", "s1", "Collect", &actions);
    assert_eq!(a.len(), 2);
    assert_eq!(a[0].guideline_id, "42e234a1-0d23-5f47-9347-69599c49b20b");
    assert_eq!(a[1].guideline_id, "228b97e5-23c7-5567-aa85-d91a6500d391");
    assert_eq!(a[0].guideline_id, b[0].guideline_id);
    assert_eq!(a[0].name, "[journey:Sales:state:Collect] Ask for the customer's email address bef");
    assert_eq!(a[1].name, "[journey:Sales:state:Collect] Offer a quote");
    assert_eq!(a[0].priority, 50);
    assert!(a[0].source_observations.is_empty());
    assert_eq!(a[1].action_text, "Offer a quote");
}

#[test]
fn next_actions_describe_transitions() {
    let ts = vec![transition("s2", "auto", JsonValue::Null), transition("done", "complete", JsonValue::Null)];
    assert_eq!(next_actions(&ts), vec!["auto -> s2".to_string(), "complete -> done".to_string()]);
}

#[test]
fn active_and_new_journeys_resolve() {
    let j = journey("j1", object(vec![]));
    let st = state("s1", "Collect", &["email", "phone"], &["Ask"]);
    let ts = vec![transition("s2", "auto", JsonValue::Null)];
    let payload = object(vec![("email", JsonValue::Str("x".to_string()))]);
    let res = resolve_active_journey(&j, &instance("s1", payload), &st, &ts);
    let act = res.active_journey.unwrap();
    assert_eq!(act.journey_id, "j1");
    assert_eq!(act.current_state, "Collect");
    assert_eq!(act.missing_fields, vec!["phone".to_string()]);
    assert_eq!(act.allowed_next_actions, vec!["auto -> s2".to_string()]);
    assert_eq!(res.projected_guidelines.len(), 1);
    assert_eq!(res.projected_guidelines[0].guideline_id, "42e234a1-0d23-5f47-9347-69599c49b20b");
    let fresh = resolve_new_journey(&j, &st, &ts);
    assert_eq!(fresh.active_journey.unwrap().missing_fields, vec!["email".to_string(), "phone".to_string()]);
}

#[test]
fn outcomes_advance_complete_or_hand_off() {
    assert!(matches!(outcome_first_step(&Vec::new(), &outcome(&[], "", false)), OutcomeStep::NoActiveJourney));
    let insts = vec![instance("s1", JsonValue::Null)];
    match outcome_first_step(&insts, &outcome(&[], "", true)) {
        OutcomeStep::Handoff { change: InstanceChange::SetStatus { instance_id, status }, update } => {
            assert_eq!(instance_id, "inst-1");
            assert_eq!(status, "awaiting_handoff");
            assert!(update.handoff_requested);
            assert!(!update.completed);
            assert_eq!(update.before_state.as_deref(), Some("s1"));
            assert!(update.after_state.is_none());
        }
        _ => panic!("hand-off expected"),
    }
    match outcome_first_step(&insts, &outcome(&[], "", false)) {
        OutcomeStep::LoadTransitions { journey_id, state_id } => {
            assert_eq!(journey_id, "j1");
            assert_eq!(state_id, "s1");
        }
        _ => panic!("transitions expected"),
    }
    let ts = vec![
        transition("s9", "auto", object(vec![("tool_called", JsonValue::Str("never".to_string()))])),
        transition("s2", "auto", object(vec![("always", JsonValue::Bool(true))])),
        transition("s3", "auto", object(vec![])),
    ];
    let (change, update) = advance_on_outcome(&insts[0], &ts, &outcome(&[], "", false)).unwrap();
    assert!(matches!(change, InstanceChange::Advance { ref state_id, .. } if state_id == "s2"));
    assert_eq!(update.after_state.as_deref(), Some("s2"));
    assert!(!update.completed);
    let done = vec![transition("end", "complete", JsonValue::Null)];
    let (change, update) = advance_on_outcome(&insts[0], &done, &outcome(&[], "", false)).unwrap();
    assert!(matches!(change, InstanceChange::SetStatus { ref status, .. } if status == "completed"));
    assert!(update.completed);
    let none = vec![transition("s9", "auto", JsonValue::Null)];
    assert!(advance_on_outcome(&insts[0], &none, &outcome(&[], "", false)).is_none());
}

#[test]
fn prefers_root_state_over_lexical_state_id_order() {
    // Stored in name order: the child sorts first, but the root is the entry.
    let states = vec![state("aaa-child", "Child", &[], &[]), state("zzz-entry", "Entry", &[], &[])];
    let ts = vec![transition("aaa-child", "auto", JsonValue::Null)];
    let i = choose_entry_state(None, &states, &ts).unwrap();
    assert_eq!(states[i].state_id, "zzz-entry");
}

#[test]
fn explicit_entry_state_overrides_ambiguous_graph_roots() {
    let states = vec![state("aaa-root", "Other Root", &[], &[]), state("zzz-entry", "Configured Entry", &[], &[])];
    let i = choose_entry_state(Some("zzz-entry"), &states, &Vec::new()).unwrap();
    assert_eq!(states[i].state_id, "zzz-entry");
    // Without a configured entry, the first root in storage order.
    assert_eq!(choose_entry_state(None, &states, &Vec::new()), Some(0));
    // A configured entry that is not a state falls back to the graph.
    assert_eq!(choose_entry_state(Some("missing"), &states, &Vec::new()), Some(0));
    assert_eq!(choose_entry_state(None, &Vec::new(), &Vec::new()), None);
    // Every state entered: the first in storage order.
    let cyc = vec![transition("aaa-root", "auto", JsonValue::Null), transition("zzz-entry", "auto", JsonValue::Null)];
    assert_eq!(choose_entry_state(None, &states, &cyc), Some(0));
}

#[test]
fn noop_runtime_does_nothing() {
    let rt = NoopJourneyRuntime;
    let res = rt.resolve_journey("scope", "session", "hello");
    assert!(res.active_journey.is_none());
    assert!(res.projected_guidelines.is_empty());
    assert!(rt.apply_outcome("scope", &outcome(&[], "", true)).is_none());
}

#[test]
fn completion_type_condition_fires() {
    let o = TurnOutcome {
        trace_id: "t".to_string(),
        scope_id: "s".to_string(),
        session_id: "sess".to_string(),
        response_text: "hello".to_string(),
        tool_calls: Vec::new(),
        handoff_suggested: false,
    };
    let complete = object(vec![("type", JsonValue::Str("complete".to_string()))]);
    assert!(evaluate_transition_condition(&complete, "auto", &o));
    let other = object(vec![("type", JsonValue::Str("auto".to_string()))]);
    assert!(!evaluate_transition_condition(&other, "auto", &o));
}

#[test]
fn first_startable_journey_is_picked_in_its_entry_state() {
    let keyword = |w: &str| object(vec![("substring", JsonValue::Str(w.to_string()))]);
    let journeys = vec![
        journey("j0", keyword("refund")),
        journey("j1", keyword("quote")),
        journey("j2", keyword("quote")),
    ];
    let states = vec![
        vec![state("a", "A", &[], &[])],
        Vec::new(),
        vec![state("s1", "Second", &[], &[]), state("s0", "First", &[], &[])],
    ];
    let transitions = vec![Vec::new(), Vec::new(), vec![transition("s1", "auto", JsonValue::Null)]];
    // j1 fires but has no states; j2 fires and starts in its root state s0.
    assert_eq!(pick_new_journey(&journeys, &states, &transitions, "a quote please"), Some((2, 1)));
    assert_eq!(pick_new_journey(&journeys, &states, &transitions, "hello"), None);
}

#[test]
fn outcome_decided_in_one_step() {
    let ts = vec![transition("s2", "auto", object(vec![("tool_called", JsonValue::Str("send_quote".to_string()))]))];
    let inst = vec![instance("s1", JsonValue::Null)];
    assert!(decide_outcome(&Vec::new(), &ts, &outcome(&["send_quote"], "", false)).is_none());
    let (_, up) = decide_outcome(&inst, &ts, &outcome(&[], "", true)).unwrap();
    assert!(up.handoff_requested);
    assert_eq!(up.after_state, None);
    let (change, up) = decide_outcome(&inst, &ts, &outcome(&["send_quote"], "", false)).unwrap();
    assert!(matches!(change, InstanceChange::Advance { ref state_id, .. } if state_id == "s2"));
    assert_eq!(up.after_state.as_deref(), Some("s2"));
    assert!(decide_outcome(&inst, &ts, &outcome(&["other"], "", false)).is_none());
}
