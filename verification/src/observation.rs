//! Observation matching: deciding which configured observations an inbound
//! message triggers.
use vstd::prelude::*;
use crate::json::JsonValue;
use crate::matching::{
    all_terms_in, any_term_in, has_term, regex_compiles, regex_matches, regex_search, scan_terms,
};
use crate::text::{chars_of, chars_contains, lower, push_str, seq_contains, str_eq, to_lower};

verus! {

/// A configured observation: a named condition over inbound messages.
#[derive(Debug)]
pub struct ObservationDefinition {
    pub observation_id: String,
    pub scope_id: String,
    pub name: String,
    /// `always`, `keyword`, `contains`, `regex`, `semantic` (case-insensitive);
    /// anything else is treated as `keyword`.
    pub matcher_type: String,
    pub matcher_config: JsonValue,
    pub priority: i32,
    pub enabled: bool,
}

/// An observation that matched a message, with the rule that matched it.
#[derive(Clone, Debug)]
pub struct ObservationHit {
    pub observation_id: String,
    pub name: String,
    pub matched_by: String,
}

pub open spec fn reason_always() -> Seq<char> {
    "sqlite_observation_matcher (always)"@
}

pub open spec fn reason_regex() -> Seq<char> {
    "sqlite_observation_matcher (regex)"@
}

pub open spec fn reason_substring() -> Seq<char> {
    "sqlite_observation_matcher (keyword:substring)"@
}

pub open spec fn reason_contains() -> Seq<char> {
    "sqlite_observation_matcher (keyword:contains)"@
}

pub open spec fn reason_all() -> Seq<char> {
    "sqlite_observation_matcher (keyword:all)"@
}

pub open spec fn reason_name() -> Seq<char> {
    "sqlite_observation_matcher (keyword:name)"@
}

/// The keyword rules, tried in order: a `substring` setting decides alone; a
/// `contains` list with at least one string term decides by "any term"; an
/// `all` list with at least one string term decides by "every term";
/// otherwise the observation's name must occur in the message. All
/// comparisons are on lowercased text.
pub open spec fn keyword_reason(cfg: JsonValue, name: Seq<char>, text_lc: Seq<char>) -> Option<
    Seq<char>,
> {
    match cfg.get_str_spec("substring"@) {
        Some(s) => if seq_contains(text_lc, lower(s)) {
            Some(reason_substring())
        } else {
            None
        },
        None => match cfg.get_array_spec("contains"@) {
            Some(terms) if has_term(terms) => if any_term_in(terms, text_lc) {
                Some(reason_contains())
            } else {
                None
            },
            _ => match cfg.get_array_spec("all"@) {
                Some(terms) if has_term(terms) => if all_terms_in(terms, text_lc) {
                    Some(reason_all())
                } else {
                    None
                },
                _ => if seq_contains(text_lc, lower(name)) {
                    Some(reason_name())
                } else {
                    None
                },
            },
        },
    }
}

/// Why the deterministic matcher fires for `obs` on `text`, or `None` when it
/// does not. `always` always fires; `semantic` never fires here; `regex` fires
/// when the configured `pattern` compiles and matches the original text;
/// every other matcher type uses the keyword rules.
pub open spec fn deterministic_reason(obs: ObservationDefinition, text: Seq<char>) -> Option<
    Seq<char>,
> {
    let mt = lower(obs.matcher_type@);
    if mt == "always"@ {
        Some(reason_always())
    } else if mt == "semantic"@ {
        None
    } else if mt == "regex"@ {
        match obs.matcher_config.get_str_spec("pattern"@) {
            Some(p) => if regex_compiles(p) && regex_matches(p, text) {
                Some(reason_regex())
            } else {
                None
            },
            None => None,
        }
    } else {
        keyword_reason(obs.matcher_config, obs.name@, lower(text))
    }
}

/// `h` reports a match of `obs` for the given reason.
pub open spec fn is_hit(h: ObservationHit, obs: ObservationDefinition, reason: Seq<char>) -> bool {
    &&& h.observation_id@ == obs.observation_id@
    &&& h.name@ == obs.name@
    &&& h.matched_by@ == reason
}

/// The positions of the enabled observations that match `text`
/// deterministically, each with its reason, in list order.
pub open spec fn matched_observations(obs: Seq<ObservationDefinition>, text: Seq<char>) -> Seq<
    (int, Seq<char>),
>
    decreases obs.len(),
{
    if obs.len() == 0 {
        Seq::empty()
    } else {
        let prev = matched_observations(obs.drop_last(), text);
        let o = obs.last();
        match deterministic_reason(o, text) {
            Some(reason) if o.enabled => prev.push((obs.len() - 1, reason)),
            _ => prev,
        }
    }
}

/// An owned copy of a string slice.
pub fn owned(s: &str) -> (r: String)
    ensures
        r@ == s@,
{
    s.to_owned()
}

fn hit(obs: &ObservationDefinition, reason: &str) -> (h: ObservationHit)
    ensures
        is_hit(h, *obs, reason@),
{
    ObservationHit {
        observation_id: obs.observation_id.clone(),
        name: obs.name.clone(),
        matched_by: owned(reason),
    }
}

fn keyword_match(cfg: &JsonValue, name: &str, text_lc: &Vec<char>) -> (r: Option<&'static str>)
    ensures
        match keyword_reason(*cfg, name@, text_lc@) {
            None => r is None,
            Some(reason) => r matches Some(s) && s@ == reason,
        },
{
    if let Some(s) = cfg.get_str("substring") {
        let s_lc = to_lower(s);
        let s_chars = chars_of(s_lc.as_str());
        if chars_contains(text_lc, &s_chars) {
            return Some("sqlite_observation_matcher (keyword:substring)");
        }
        return None;
    }
    if let Some(terms) = cfg.get_array("contains") {
        let scan = scan_terms(terms, text_lc);
        if scan.has_term {
            if scan.any {
                return Some("sqlite_observation_matcher (keyword:contains)");
            }
            return None;
        }
    }
    if let Some(terms) = cfg.get_array("all") {
        let scan = scan_terms(terms, text_lc);
        if scan.has_term {
            if scan.all {
                return Some("sqlite_observation_matcher (keyword:all)");
            }
            return None;
        }
    }
    let name_lc = to_lower(name);
    let name_chars = chars_of(name_lc.as_str());
    if chars_contains(text_lc, &name_chars) {
        return Some("sqlite_observation_matcher (keyword:name)");
    }
    None
}

/// Deterministic observation match, dispatching on the matcher type.
pub fn match_observation_deterministic(obs: &ObservationDefinition, text: &str) -> (r: Option<
    ObservationHit,
>)
    ensures
        match deterministic_reason(*obs, text@) {
            None => r is None,
            Some(reason) => r matches Some(h) && is_hit(h, *obs, reason),
        },
{
    let mt = to_lower(obs.matcher_type.as_str());
    if str_eq(mt.as_str(), "always") {
        return Some(hit(obs, "sqlite_observation_matcher (always)"));
    }
    if str_eq(mt.as_str(), "semantic") {
        return None;
    }
    if str_eq(mt.as_str(), "regex") {
        return match obs.matcher_config.get_str("pattern") {
            Some(pattern) => match regex_search(pattern, text) {
                Some(true) => Some(hit(obs, "sqlite_observation_matcher (regex)")),
                _ => None,
            },
            None => None,
        };
    }
    let text_lc = to_lower(text);
    let text_chars = chars_of(text_lc.as_str());
    match keyword_match(&obs.matcher_config, obs.name.as_str(), &text_chars) {
        Some(reason) => Some(hit(obs, reason)),
        None => None,
    }
}

/// Matches every enabled observation deterministically against `text`,
/// keeping the list order.
pub fn match_observations(observations: &Vec<ObservationDefinition>, text: &str) -> (r: Vec<
    ObservationHit,
>)
    ensures
        r@.len() == matched_observations(observations@, text@).len(),
        forall|i: int|
            0 <= i < r@.len() ==> {
                let m = #[trigger] matched_observations(observations@, text@)[i];
                &&& 0 <= m.0 < observations@.len()
                &&& is_hit(r@[i], observations@[m.0], m.1)
            },
{
    let mut hits: Vec<ObservationHit> = Vec::new();
    let mut i: usize = 0;
    while i < observations.len()
        invariant
            i <= observations.len(),
            hits@.len() == matched_observations(observations@.take(i as int), text@).len(),
            forall|k: int|
                0 <= k < hits@.len() ==> {
                    let m = #[trigger] matched_observations(observations@.take(i as int), text@)[k];
                    &&& 0 <= m.0 < i
                    &&& is_hit(hits@[k], observations@[m.0], m.1)
                },
        decreases observations.len() - i,
    {
        let ghost before = matched_observations(observations@.take(i as int), text@);
        assert(observations@.take(i + 1).drop_last() =~= observations@.take(i as int));
        let obs = &observations[i];
        if obs.enabled {
            if let Some(h) = match_observation_deterministic(obs, text) {
                hits.push(h);
            }
        }
        i = i + 1;
        proof {
            let now = matched_observations(observations@.take(i as int), text@);
            assert forall|k: int| 0 <= k < hits@.len() implies {
                let m = #[trigger] now[k];
                &&& 0 <= m.0 < i
                &&& is_hit(hits@[k], observations@[m.0], m.1)
            } by {
                if k < before.len() {
                    assert(now[k] == before[k]);
                }
            }
        }
    }
    assert(observations@.take(observations@.len() as int) =~= observations@);
    hits
}

// ───────────────────────── Semantic (model-evaluated) observations ─────────────────────────

/// The observation is evaluated by a language model rather than by rules.
pub open spec fn is_semantic_spec(obs: ObservationDefinition) -> bool {
    lower(obs.matcher_type@) == "semantic"@
}

/// Whether the observation is evaluated by a language model.
pub fn is_semantic(obs: &ObservationDefinition) -> (r: bool)
    ensures
        r == is_semantic_spec(*obs),
{
    let mt = to_lower(obs.matcher_type.as_str());
    str_eq(mt.as_str(), "semantic")
}

/// The condition text put to the model: the `condition` setting, or the
/// observation's name.
pub open spec fn semantic_condition_spec(obs: ObservationDefinition) -> Seq<char> {
    match obs.matcher_config.get_str_spec("condition"@) {
        Some(c) => c,
        None => obs.name@,
    }
}

pub open spec fn observation_prompt_head() -> Seq<char> {
    "You are evaluating whether a conversational observation condition is currently triggered.\n\nUser message: \""@
}

pub open spec fn observation_prompt_mid() -> Seq<char> {
    "\"\n\nCondition to evaluate: \""@
}

pub open spec fn observation_prompt_tail() -> Seq<char> {
    "\"\n\nReply with ONLY a JSON object on one line, no markdown:\n{\"triggered\": true, \"rationale\": \"brief reason\"}\nor\n{\"triggered\": false, \"rationale\": \"brief reason\"}"@
}

/// The prompt asking a model whether `obs` is triggered by `message_text`.
pub open spec fn observation_prompt_spec(obs: ObservationDefinition, message_text: Seq<char>) -> Seq<
    char,
> {
    observation_prompt_head() + message_text + observation_prompt_mid() + semantic_condition_spec(obs)
        + observation_prompt_tail()
}

/// Builds the prompt asking a model whether a semantic observation holds.
pub fn semantic_observation_prompt(obs: &ObservationDefinition, message_text: &str) -> (r: String)
    ensures
        r@ == observation_prompt_spec(*obs, message_text@),
{
    let mut p = owned(
        "You are evaluating whether a conversational observation condition is currently triggered.\n\nUser message: \"",
    );
    push_str(&mut p, message_text);
    push_str(&mut p, "\"\n\nCondition to evaluate: \"");
    match obs.matcher_config.get_str("condition") {
        Some(c) => push_str(&mut p, c),
        None => push_str(&mut p, obs.name.as_str()),
    }
    push_str(
        &mut p,
        "\"\n\nReply with ONLY a JSON object on one line, no markdown:\n{\"triggered\": true, \"rationale\": \"brief reason\"}\nor\n{\"triggered\": false, \"rationale\": \"brief reason\"}",
    );
    p
}

/// The rationale reported with a semantic hit: the reply's `rationale`
/// string, or `llm_semantic`.
pub open spec fn semantic_rationale(reply: JsonValue) -> Seq<char> {
    match reply.get_str_spec("rationale"@) {
        Some(r) => r,
        None => "llm_semantic"@,
    }
}

/// What the model's reply means for `obs`: a hit when the reply parsed as
/// JSON and its `triggered` member is `true`; nothing otherwise (an
/// unparsable reply or a failed call is passed as `None`).
pub open spec fn semantic_reply_reason(reply: Option<JsonValue>) -> Option<Seq<char>> {
    match reply {
        Some(v) => if v.get_bool_spec("triggered"@) == Some(true) {
            Some("llm_semantic: "@ + semantic_rationale(v))
        } else {
            None
        },
        None => None,
    }
}

/// Decides a semantic observation from the model's parsed reply.
pub fn semantic_reply_hit(obs: &ObservationDefinition, reply: Option<&JsonValue>) -> (r: Option<
    ObservationHit,
>)
    ensures
        match semantic_reply_reason(
            match reply {
                Some(v) => Some(*v),
                None => None,
            },
        ) {
            None => r is None,
            Some(reason) => r matches Some(h) && is_hit(h, *obs, reason),
        },
{
    match reply {
        Some(v) => {
            if v.get_bool("triggered") == Some(true) {
                let mut reason = owned("llm_semantic: ");
                match v.get_str("rationale") {
                    Some(r) => push_str(&mut reason, r),
                    None => push_str(&mut reason, "llm_semantic"),
                }
                Some(ObservationHit {
                    observation_id: obs.observation_id.clone(),
                    name: obs.name.clone(),
                    matched_by: reason,
                })
            } else {
                None
            }
        },
        None => None,
    }
}

/// What to do with one observation when a model is available for semantic
/// matching.
#[derive(Clone, Debug)]
pub enum ObservationStep {
    /// Disabled: nothing to do.
    Skip,
    /// Semantic: ask the model this prompt, then call `semantic_reply_hit`.
    AskModel(String),
    /// Decided by the rules.
    Decided(Option<ObservationHit>),
}

/// The first step for one observation in model-assisted matching: disabled
/// observations are skipped, semantic ones go to the model with the prompt
/// of `semantic_observation_prompt`, and the rest are decided by
/// `match_observation_deterministic`.
pub fn plan_observation(obs: &ObservationDefinition, message_text: &str) -> (r: ObservationStep)
    ensures
        !obs.enabled ==> r is Skip,
        obs.enabled && is_semantic_spec(*obs) ==> (r matches ObservationStep::AskModel(p) && p@
            == observation_prompt_spec(*obs, message_text@)),
        obs.enabled && !is_semantic_spec(*obs) ==> (r matches ObservationStep::Decided(d) && match
            deterministic_reason(*obs, message_text@) {
            None => d is None,
            Some(reason) => d matches Some(h) && is_hit(h, *obs, reason),
        }),
{
    if !obs.enabled {
        ObservationStep::Skip
    } else if is_semantic(obs) {
        ObservationStep::AskModel(semantic_observation_prompt(obs, message_text))
    } else {
        ObservationStep::Decided(match_observation_deterministic(obs, message_text))
    }
}

/// The view of an optional borrowed JSON value.
pub open spec fn opt_json(reply: Option<&JsonValue>) -> Option<JsonValue> {
    match reply {
        Some(v) => Some(*v),
        None => None,
    }
}

/// The model's parsed reply for the observation at position `i` (`None` past
/// the end of the list).
pub open spec fn reply_at(replies: Seq<Option<JsonValue>>, i: int) -> Option<JsonValue> {
    if 0 <= i < replies.len() {
        replies[i]
    } else {
        None
    }
}

/// Why `obs` matches in model-assisted matching, given the model's parsed
/// reply for it: a disabled observation never matches; a semantic one
/// matches as its reply says; any other matches by its rules.
pub open spec fn assisted_reason(obs: ObservationDefinition, text: Seq<char>, reply: Option<JsonValue>) -> Option<
    Seq<char>,
> {
    if !obs.enabled {
        None
    } else if is_semantic_spec(obs) {
        semantic_reply_reason(reply)
    } else {
        deterministic_reason(obs, text)
    }
}

/// The positions of the observations that match in model-assisted matching,
/// each with its reason, in list order; `replies[i]` is the model's parsed
/// reply for observation `i`.
pub open spec fn assisted_matches(
    obs: Seq<ObservationDefinition>,
    text: Seq<char>,
    replies: Seq<Option<JsonValue>>,
) -> Seq<(int, Seq<char>)>
    decreases obs.len(),
{
    if obs.len() == 0 {
        Seq::empty()
    } else {
        let prev = assisted_matches(obs.drop_last(), text, replies);
        match assisted_reason(obs.last(), text, reply_at(replies, obs.len() - 1)) {
            Some(reason) => prev.push((obs.len() - 1, reason)),
            None => prev,
        }
    }
}

fn assisted_hit(obs: &ObservationDefinition, text: &str, reply: Option<&JsonValue>) -> (r: Option<ObservationHit>)
    ensures
        match assisted_reason(*obs, text@, opt_json(reply)) {
            None => r is None,
            Some(reason) => r matches Some(h) && is_hit(h, *obs, reason),
        },
{
    if !obs.enabled {
        None
    } else if is_semantic(obs) {
        semantic_reply_hit(obs, reply)
    } else {
        match_observation_deterministic(obs, text)
    }
}

/// Model-assisted matching of a whole list, once the model has answered:
/// `replies[i]` is the parsed reply to the prompt of `plan_observation` for
/// observation `i` (`None` where no call was made, the call failed or the
/// reply did not parse). Semantic observations match as their replies say,
/// the others by their rules, disabled ones never; the list order is kept.
pub fn match_observations_with_replies(
    observations: &Vec<ObservationDefinition>,
    text: &str,
    replies: &Vec<Option<JsonValue>>,
) -> (r: Vec<ObservationHit>)
    ensures
        r@.len() == assisted_matches(observations@, text@, replies@).len(),
        forall|i: int|
            0 <= i < r@.len() ==> {
                let m = #[trigger] assisted_matches(observations@, text@, replies@)[i];
                &&& 0 <= m.0 < observations@.len()
                &&& is_hit(r@[i], observations@[m.0], m.1)
            },
{
    let mut hits: Vec<ObservationHit> = Vec::new();
    let mut i: usize = 0;
    while i < observations.len()
        invariant
            i <= observations.len(),
            hits@.len() == assisted_matches(observations@.take(i as int), text@, replies@).len(),
            forall|k: int|
                0 <= k < hits@.len() ==> {
                    let m = #[trigger] assisted_matches(observations@.take(i as int), text@, replies@)[k];
                    &&& 0 <= m.0 < i
                    &&& is_hit(hits@[k], observations@[m.0], m.1)
                },
        decreases observations.len() - i,
    {
        let ghost before = assisted_matches(observations@.take(i as int), text@, replies@);
        assert(observations@.take(i + 1).drop_last() =~= observations@.take(i as int));
        let reply: Option<&JsonValue> = if i < replies.len() {
            match &replies[i] {
                Some(v) => Some(v),
                None => None,
            }
        } else {
            None
        };
        assert(opt_json(reply) == reply_at(replies@, i as int));
        if let Some(h) = assisted_hit(&observations[i], text, reply) {
            hits.push(h);
        }
        i = i + 1;
        proof {
            let now = assisted_matches(observations@.take(i as int), text@, replies@);
            assert forall|k: int| 0 <= k < hits@.len() implies {
                let m = #[trigger] now[k];
                &&& 0 <= m.0 < i
                &&& is_hit(hits@[k], observations@[m.0], m.1)
            } by {
                if k < before.len() {
                    assert(now[k] == before[k]);
                }
            }
        }
    }
    assert(observations@.take(observations@.len() as int) =~= observations@);
    hits
}

/// Observation matcher that never matches anything.
pub struct NoopObservationMatcher;

impl NoopObservationMatcher {
    /// No observations ever match.
    pub fn match_observations(&self, scope_id: &str, message_text: &str) -> (r: Vec<ObservationHit>)
        ensures
            r@.len() == 0,
    {
        Vec::new()
    }
}

} // verus!
