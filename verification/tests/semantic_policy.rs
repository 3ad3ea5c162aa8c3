use openparlant::json::JsonValue;
use openparlant::observation::ObservationHit;
use openparlant::policy::GuidelineDefinition;
use openparlant::semantic_policy::{
    finish_semantic_resolution, partition_guidelines, resolve_policy_with_reply, semantic_activations, semantic_candidates_json,
    semantic_policy_prompt,
};

fn guideline(id: &str, name: &str, condition: &str) -> GuidelineDefinition {
    GuidelineDefinition {
        guideline_id: id.to_string(),
        scope_id: "default".to_string(),
        name: name.to_string(),
        condition_ref: condition.to_string(),
        action_text: format!("do {name}"),
        composition_mode: "append".to_string(),
        priority: 1,
        enabled: true,
    }
}

fn result(id: &str, applies: bool) -> JsonValue {
    JsonValue::Object(vec![
        ("id".to_string(), JsonValue::Str(id.to_string())),
        ("applies".to_string(), JsonValue::Bool(applies)),
    ])
}

#[test]
fn rules_decide_conditions_and_model_gets_the_rest() {
    let mut off = guideline("g0", "off", "");
    off.enabled = false;
    let gs = vec![
        off,
        guideline("g1", "always on", "always"),
        guideline("g2", "vip", "vip_user"),
        guideline("g3", "open question", ""),
        guideline("g4", "refund", "refund"),
    ];
    let obs = vec![ObservationHit { observation_id: "o1".to_string(), name: "vip_user".to_string(), matched_by: "t".to_string() }];
    let (acts, cands) = partition_guidelines(&gs, &obs);
    let ids: Vec<&str> = acts.iter().map(|a| a.guideline_id.as_str()).collect();
    assert_eq!(ids, vec!["g1", "g2"]);
    assert!(acts[0].source_observations.is_empty());
    assert_eq!(acts[1].source_observations, vec!["o1".to_string()]);
    assert_eq!(cands, vec![3usize]);
}

#[test]
fn candidates_and_prompt() {
    let gs = vec![guideline("g1", "greeting", ""), guideline("g2", "farewell", "")];
    let json = semantic_candidates_json(&gs, &vec![1, 0]);
    match json {
        JsonValue::Array(items) => {
            assert_eq!(items.len(), 2);
            match &items[0] {
                JsonValue::Object(m) => {
                    assert_eq!(m[0].0, "id");
                    assert!(matches!(&m[0].1, JsonValue::Str(s) if s == "g2"));
                    assert_eq!(m[1].0, "condition");
                    assert!(matches!(&m[1].1, JsonValue::Str(s) if s == "farewell"));
                    assert_eq!(m[2].0, "action");
                    assert!(matches!(&m[2].1, JsonValue::Str(s) if s == "do farewell"));
                }
                _ => panic!("candidate is an object"),
            }
        }
        _ => panic!("candidates are an array"),
    }
    let prompt = semantic_policy_prompt("bye", "[]");
    assert!(prompt.starts_with("You are deciding which behavioral guidelines apply to the current conversation turn.\n\nUser message: \"bye\"\n\nGuidelines to evaluate (JSON array):\n[]\n\nFor each guideline"));
}

#[test]
fn model_reply_activates_listed_candidates_in_reply_order() {
    let gs = vec![guideline("g1", "greeting", ""), guideline("g2", "farewell", ""), guideline("g3", "rules", "x")];
    let cands = vec![0usize, 1usize];
    let reply = JsonValue::Object(vec![(
        "results".to_string(),
        JsonValue::Array(vec![result("g2", true), result("g1", false), result("g3", true), result("nope", true), result("g1", true)]),
    )]);
    let acts = semantic_activations(&gs, &cands, Some(&reply));
    let ids: Vec<&str> = acts.iter().map(|a| a.guideline_id.as_str()).collect();
    // g3 is not a candidate; unknown ids are ignored.
    assert_eq!(ids, vec!["g2", "g1"]);
    assert!(acts[0].source_observations.is_empty());
    assert!(semantic_activations(&gs, &cands, None).is_empty());
    let no_results = JsonValue::Object(vec![]);
    assert!(semantic_activations(&gs, &cands, Some(&no_results)).is_empty());
}

#[test]
fn semantic_resolution_puts_rule_activations_first() {
    let gs = vec![guideline("g1", "always on", "always"), guideline("g2", "open", "")];
    let (rule, cands) = partition_guidelines(&gs, &Vec::new());
    let reply = JsonValue::Object(vec![("results".to_string(), JsonValue::Array(vec![result("g2", true)]))]);
    let model = semantic_activations(&gs, &cands, Some(&reply));
    let res = finish_semantic_resolution(rule, model, &Vec::new(), &Vec::new(), &Vec::new(), None);
    let ids: Vec<&str> = res.active_guidelines.iter().map(|a| a.guideline_id.as_str()).collect();
    assert_eq!(ids, vec!["g1", "g2"]);
}

#[test]
fn guidelines_with_blank_actions_are_not_put_to_the_model() {
    let mut blank = guideline("g1", "blank", "");
    blank.action_text = "  \n ".to_string();
    let mut empty = guideline("g2", "empty", "");
    empty.action_text = String::new();
    let gs = vec![blank, empty, guideline("g3", "real", "")];
    let (acts, cands) = partition_guidelines(&gs, &Vec::new());
    assert!(acts.is_empty());
    assert_eq!(cands, vec![2usize]);
}

#[test]
fn whole_resolution_from_a_reply() {
    let gs = vec![guideline("g1", "always on", "always"), guideline("g2", "open", ""), guideline("g3", "other", "")];
    let reply = JsonValue::Object(vec![("results".to_string(), JsonValue::Array(vec![result("g3", true), result("g2", false)]))]);
    let res = resolve_policy_with_reply(&gs, &Vec::new(), &Vec::new(), &Vec::new(), None, Some(&reply));
    let ids: Vec<&str> = res.active_guidelines.iter().map(|a| a.guideline_id.as_str()).collect();
    assert_eq!(ids, vec!["g1", "g3"]);
    let none = resolve_policy_with_reply(&gs, &Vec::new(), &Vec::new(), &Vec::new(), None, None);
    let ids: Vec<&str> = none.active_guidelines.iter().map(|a| a.guideline_id.as_str()).collect();
    assert_eq!(ids, vec!["g1"]);
}
