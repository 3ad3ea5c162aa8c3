use openparlant::json::JsonValue;
use openparlant::observation::{
    match_observation_deterministic, match_observations, plan_observation, semantic_observation_prompt,
    semantic_reply_hit, NoopObservationMatcher, ObservationDefinition, ObservationStep,
};

fn obs(name: &str, matcher_type: &str, config: JsonValue) -> ObservationDefinition {
    ObservationDefinition {
        observation_id: "obs-1".to_string(),
        scope_id: "default".to_string(),
        name: name.to_string(),
        matcher_type: matcher_type.to_string(),
        matcher_config: config,
        priority: 0,
        enabled: true,
    }
}

fn object(members: Vec<(&str, JsonValue)>) -> JsonValue {
    JsonValue::Object(members.into_iter().map(|(k, v)| (k.to_string(), v)).collect())
}

fn strings(items: &[&str]) -> JsonValue {
    JsonValue::Array(items.iter().map(|s| JsonValue::Str(s.to_string())).collect())
}

#[test]
fn keyword_contains_matches_any_term() {
    let o = obs("vip_user", "keyword", object(vec![("contains", strings(&["vip"]))]));
    assert!(match_observation_deterministic(&o, "I am VIP").is_some());
    assert!(match_observation_deterministic(&o, "hello").is_none());
}

#[test]
fn keyword_name_fallback_when_no_config_terms() {
    let o = obs("refund", "keyword", object(vec![]));
    assert!(match_observation_deterministic(&o, "refund please").is_some());
}

#[test]
fn substring_config() {
    let o = obs("x", "keyword", object(vec![("substring", JsonValue::Str("urgent".to_string()))]));
    assert!(match_observation_deterministic(&o, "URGENT help").is_some());
    assert!(match_observation_deterministic(&o, "later").is_none());
}

#[test]
fn regex_pattern() {
    let o = obs("code", "regex", object(vec![("pattern", JsonValue::Str(r"\b\d{3}\b".to_string()))]));
    assert!(match_observation_deterministic(&o, "code 404").is_some());
    assert!(match_observation_deterministic(&o, "no digits").is_none());
}

#[test]
fn always_matches() {
    let o = obs("x", "always", object(vec![]));
    assert!(match_observation_deterministic(&o, "").is_some());
}

#[test]
fn all_terms_requires_every_token() {
    let o = obs("combo", "keyword", object(vec![("all", strings(&["a", "b"]))]));
    assert!(match_observation_deterministic(&o, "a and b").is_some());
    assert!(match_observation_deterministic(&o, "only a").is_none());
}

#[test]
fn semantic_observation_never_matches_by_rules() {
    let o = obs("angry", "semantic", object(vec![("condition", JsonValue::Str("user is angry".to_string()))]));
    assert!(match_observation_deterministic(&o, "angry angry angry").is_none());
}

#[test]
fn matcher_type_is_case_insensitive() {
    let o = obs("x", "ALWAYS", object(vec![]));
    let hit = match_observation_deterministic(&o, "anything").unwrap();
    assert_eq!(hit.matched_by, "sqlite_observation_matcher (always)");
    assert_eq!(hit.observation_id, "obs-1");
    assert_eq!(hit.name, "x");
}

#[test]
fn match_reasons_name_the_rule() {
    let contains = obs("vip_user", "keyword", object(vec![("contains", strings(&["vip"]))]));
    assert_eq!(
        match_observation_deterministic(&contains, "I am VIP").unwrap().matched_by,
        "sqlite_observation_matcher (keyword:contains)"
    );
    let sub = obs("x", "keyword", object(vec![("substring", JsonValue::Str("urgent".to_string()))]));
    assert_eq!(
        match_observation_deterministic(&sub, "so URGENT").unwrap().matched_by,
        "sqlite_observation_matcher (keyword:substring)"
    );
    let all = obs("combo", "keyword", object(vec![("all", strings(&["a", "b"]))]));
    assert_eq!(
        match_observation_deterministic(&all, "a b").unwrap().matched_by,
        "sqlite_observation_matcher (keyword:all)"
    );
    let name = obs("Refund", "keyword", object(vec![]));
    assert_eq!(
        match_observation_deterministic(&name, "a REFUND now").unwrap().matched_by,
        "sqlite_observation_matcher (keyword:name)"
    );
    let re = obs("code", "regex", object(vec![("pattern", JsonValue::Str("[0-9]+".to_string()))]));
    assert_eq!(
        match_observation_deterministic(&re, "x 12").unwrap().matched_by,
        "sqlite_observation_matcher (regex)"
    );
}

#[test]
fn substring_setting_decides_alone() {
    // A `substring` setting decides even when the name would match.
    let o = obs("hello", "keyword", object(vec![("substring", JsonValue::Str("zzz".to_string()))]));
    assert!(match_observation_deterministic(&o, "hello there").is_none());
}

#[test]
fn contains_without_string_terms_falls_back_to_name() {
    let o = obs("refund", "contains", object(vec![("contains", JsonValue::Array(vec![JsonValue::Number("1".to_string())]))]));
    assert!(match_observation_deterministic(&o, "refund please").is_some());
    assert!(match_observation_deterministic(&o, "1").is_none());
}

#[test]
fn invalid_regex_or_missing_pattern_never_matches() {
    let bad = obs("code", "regex", object(vec![("pattern", JsonValue::Str("(".to_string()))]));
    assert!(match_observation_deterministic(&bad, "(").is_none());
    let none = obs("code", "regex", object(vec![]));
    assert!(match_observation_deterministic(&none, "code").is_none());
}

#[test]
fn regex_matches_original_case() {
    let o = obs("code", "regex", object(vec![("pattern", JsonValue::Str("ABC".to_string()))]));
    assert!(match_observation_deterministic(&o, "xxABCxx").is_some());
    assert!(match_observation_deterministic(&o, "xxabcxx").is_none());
}

#[test]
fn match_observations_skips_disabled_and_keeps_order() {
    let mut disabled = obs("vip", "always", object(vec![]));
    disabled.enabled = false;
    disabled.observation_id = "o-disabled".to_string();
    let mut first = obs("first", "always", object(vec![]));
    first.observation_id = "o-first".to_string();
    let mut miss = obs("zzz", "keyword", object(vec![]));
    miss.observation_id = "o-miss".to_string();
    let mut second = obs("hello", "keyword", object(vec![]));
    second.observation_id = "o-second".to_string();
    let hits = match_observations(&vec![disabled, first, miss, second], "Hello world");
    let ids: Vec<&str> = hits.iter().map(|h| h.observation_id.as_str()).collect();
    assert_eq!(ids, vec!["o-first", "o-second"]);
}

#[test]
fn semantic_prompt_and_reply() {
    let o = obs("angry", "semantic", object(vec![("condition", JsonValue::Str("user is angry".to_string()))]));
    let prompt = semantic_observation_prompt(&o, "I hate this");
    assert!(prompt.starts_with("You are evaluating whether a conversational observation condition is currently triggered.\n\nUser message: \"I hate this\""));
    assert!(prompt.contains("Condition to evaluate: \"user is angry\""));
    match plan_observation(&o, "I hate this") {
        ObservationStep::AskModel(p) => assert_eq!(p, prompt),
        _ => panic!("semantic observations go to the model"),
    }
    let yes = object(vec![("triggered", JsonValue::Bool(true)), ("rationale", JsonValue::Str("tone".to_string()))]);
    let hit = semantic_reply_hit(&o, Some(&yes)).unwrap();
    assert_eq!(hit.matched_by, "llm_semantic: tone");
    let bare = object(vec![("triggered", JsonValue::Bool(true))]);
    assert_eq!(semantic_reply_hit(&o, Some(&bare)).unwrap().matched_by, "llm_semantic: llm_semantic");
    let no = object(vec![("triggered", JsonValue::Bool(false))]);
    assert!(semantic_reply_hit(&o, Some(&no)).is_none());
    assert!(semantic_reply_hit(&o, None).is_none());
    let named = obs("refund_request", "semantic", object(vec![]));
    assert!(semantic_observation_prompt(&named, "m").contains("Condition to evaluate: \"refund_request\""));
}

#[test]
fn plan_skips_disabled_and_decides_rules() {
    let mut off = obs("x", "always", object(vec![]));
    off.enabled = false;
    assert!(matches!(plan_observation(&off, "m"), ObservationStep::Skip));
    let on = obs("x", "always", object(vec![]));
    match plan_observation(&on, "m") {
        ObservationStep::Decided(Some(h)) => assert_eq!(h.matched_by, "sqlite_observation_matcher (always)"),
        _ => panic!("rules decide"),
    }
}

#[test]
fn noop_matcher_matches_nothing() {
    assert!(NoopObservationMatcher.match_observations("scope", "anything").is_empty());
}

#[test]
fn unicode_letters_match_without_regard_to_case() {
    let o = obs("x", "keyword", object(vec![("substring", JsonValue::Str("ÜNÏCODE".to_string()))]));
    assert!(match_observation_deterministic(&o, "vip ünïcode here").is_some());
    let o = obs("Ärger", "keyword", object(vec![]));
    assert!(match_observation_deterministic(&o, "großer ÄRGER").is_some());
}
