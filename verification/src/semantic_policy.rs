//! Policy resolution with model-evaluated guidelines: guidelines without a
//! condition but with an action are put to a language model, the rest are
//! decided by rules.
use vstd::prelude::*;
use crate::json::JsonValue;
use crate::observation::{opt_json, owned, ObservationHit};
use crate::policy::{
    activation_from, collect_source_ids, finish_resolution, has_hit_named, hit_names,
    is_activation, resolution_from, source_ids, GuidelineActivation,
    GuidelineDefinition, GuidelineRelationship, PolicyResolution, ToolExposurePolicy,
};
use crate::text::{is_blank, opt_str_view, push_str, str_eq, trim};

verus! {

/// Decided by rules: enabled, and either `always` or a non-empty condition
/// naming a matched observation.
pub open spec fn rule_active(g: GuidelineDefinition, obs: Seq<ObservationHit>) -> bool {
    &&& g.enabled
    &&& (g.condition_ref@ == "always"@ || (g.condition_ref@.len() > 0 && hit_names(obs).contains(
        g.condition_ref@,
    )))
}

/// The source observations of a rule-decided guideline: none for `always`,
/// otherwise the hits of its condition.
pub open spec fn rule_sources(g: GuidelineDefinition, obs: Seq<ObservationHit>) -> Seq<Seq<char>> {
    if g.condition_ref@ == "always"@ {
        Seq::empty()
    } else {
        source_ids(obs, g.condition_ref@)
    }
}

/// Put to the model: enabled, with an empty condition and an action text
/// that is not blank.
pub open spec fn is_semantic_candidate(g: GuidelineDefinition) -> bool {
    &&& g.enabled
    &&& g.condition_ref@.len() == 0
    &&& trim(g.action_text@).len() > 0
}

/// Positions of the rule-active guidelines, in order.
pub open spec fn rule_positions(gs: Seq<GuidelineDefinition>, obs: Seq<ObservationHit>) -> Seq<int>
    decreases gs.len(),
{
    if gs.len() == 0 {
        Seq::empty()
    } else {
        let prev = rule_positions(gs.drop_last(), obs);
        if rule_active(gs.last(), obs) {
            prev.push(gs.len() - 1)
        } else {
            prev
        }
    }
}

/// Positions of the semantic candidates, in order.
pub open spec fn candidate_positions(gs: Seq<GuidelineDefinition>) -> Seq<int>
    decreases gs.len(),
{
    if gs.len() == 0 {
        Seq::empty()
    } else {
        let prev = candidate_positions(gs.drop_last());
        if is_semantic_candidate(gs.last()) {
            prev.push(gs.len() - 1)
        } else {
            prev
        }
    }
}

/// `acts` activates, in order, the guidelines at `positions` with their rule sources.
pub open spec fn rule_activations_match(
    acts: Seq<GuidelineActivation>,
    gs: Seq<GuidelineDefinition>,
    positions: Seq<int>,
    obs: Seq<ObservationHit>,
) -> bool {
    &&& acts.len() == positions.len()
    &&& forall|i: int|
        0 <= i < acts.len() ==> {
            let p = #[trigger] positions[i];
            &&& 0 <= p < gs.len()
            &&& is_activation(acts[i], gs[p], rule_sources(gs[p], obs))
        }
}

/// Splits the guidelines into the ones decided by rules (returned as
/// activations) and the positions of the ones to put to the model.
pub fn partition_guidelines(guidelines: &Vec<GuidelineDefinition>, observations: &Vec<ObservationHit>) -> (r: (
    Vec<GuidelineActivation>,
    Vec<usize>,
))
    ensures
        rule_activations_match(r.0@, guidelines@, rule_positions(guidelines@, observations@), observations@),
        r.1@.len() == candidate_positions(guidelines@).len(),
        forall|k: int| 0 <= k < r.1@.len() ==> r.1@[k] as int == #[trigger] candidate_positions(guidelines@)[k],
        forall|k: int| 0 <= k < r.1@.len() ==> #[trigger] r.1@[k] < guidelines@.len(),
{
    let mut acts: Vec<GuidelineActivation> = Vec::new();
    let mut cands: Vec<usize> = Vec::new();
    let mut i: usize = 0;
    while i < guidelines.len()
        invariant
            i <= guidelines.len(),
            rule_activations_match(acts@, guidelines@, rule_positions(guidelines@.take(i as int), observations@), observations@),
            forall|k: int|
                0 <= k < rule_positions(guidelines@.take(i as int), observations@).len()
                    ==> #[trigger] rule_positions(guidelines@.take(i as int), observations@)[k] < i,
            cands@.len() == candidate_positions(guidelines@.take(i as int)).len(),
            forall|k: int| 0 <= k < cands@.len() ==> cands@[k] as int == #[trigger] candidate_positions(guidelines@.take(i as int))[k],
            forall|k: int| 0 <= k < cands@.len() ==> #[trigger] cands@[k] < i,
        decreases guidelines.len() - i,
    {
        let ghost before = rule_positions(guidelines@.take(i as int), observations@);
        let ghost cbefore = candidate_positions(guidelines@.take(i as int));
        assert(guidelines@.take(i + 1).drop_last() =~= guidelines@.take(i as int));
        assert(guidelines@.take(i + 1).last() == guidelines@[i as int]);
        let g = &guidelines[i];
        proof {
            reveal_strlit("always");
        }
        if g.enabled {
            let cref = g.condition_ref.as_str();
            if str_eq(cref, "always") {
                let sources: Vec<String> = Vec::new();
                assert(sources.deep_view() =~= Seq::<Seq<char>>::empty());
                acts.push(activation_from(g, sources));
            } else if !cref.is_empty() {
                if has_hit_named(observations, cref) {
                    let sources = collect_source_ids(observations, cref);
                    acts.push(activation_from(g, sources));
                }
            } else if !is_blank(g.action_text.as_str()) {
                cands.push(i);
            }
        }
        i = i + 1;
        proof {
            let now = rule_positions(guidelines@.take(i as int), observations@);
            let cnow = candidate_positions(guidelines@.take(i as int));
            assert forall|k: int| 0 <= k < acts@.len() implies {
                let p = #[trigger] now[k];
                &&& 0 <= p < guidelines@.len()
                &&& is_activation(acts@[k], guidelines@[p], rule_sources(guidelines@[p], observations@))
            } by {
                if k < before.len() {
                    assert(now[k] == before[k]);
                }
            }
            assert forall|k: int| 0 <= k < now.len() implies #[trigger] now[k] < i by {
                if k < before.len() {
                    assert(now[k] == before[k]);
                }
            }
            assert forall|k: int| 0 <= k < cands@.len() implies cands@[k] as int == #[trigger] cnow[k] by {
                if k < cbefore.len() {
                    assert(cnow[k] == cbefore[k]);
                }
            }
        }
    }
    assert(guidelines@.take(guidelines@.len() as int) =~= guidelines@);
    (acts, cands)
}

/// The JSON object describing one candidate to the model.
pub open spec fn candidate_json_ok(v: JsonValue, g: GuidelineDefinition) -> bool {
    v matches JsonValue::Object(m) && m@.len() == 3
        && m@[0].0@ == "id"@ && (m@[0].1 matches JsonValue::Str(s) && s@ == g.guideline_id@)
        && m@[1].0@ == "condition"@ && (m@[1].1 matches JsonValue::Str(s) && s@ == g.name@)
        && m@[2].0@ == "action"@ && (m@[2].1 matches JsonValue::Str(s) && s@ == g.action_text@)
}

/// The candidates as a JSON array of `{"id", "condition", "action"}`
/// objects (the guideline's id, name and action text), in candidate order.
pub fn semantic_candidates_json(guidelines: &Vec<GuidelineDefinition>, candidates: &Vec<usize>) -> (r: JsonValue)
    requires
        forall|k: int| 0 <= k < candidates@.len() ==> #[trigger] candidates@[k] < guidelines@.len(),
    ensures
        r matches JsonValue::Array(items) && items@.len() == candidates@.len() && forall|k: int|
            0 <= k < items@.len() ==> candidate_json_ok(#[trigger] items@[k], guidelines@[candidates@[k] as int]),
{
    let mut items: Vec<JsonValue> = Vec::new();
    let mut k: usize = 0;
    while k < candidates.len()
        invariant
            k <= candidates.len(),
            forall|j: int| 0 <= j < candidates@.len() ==> #[trigger] candidates@[j] < guidelines@.len(),
            items@.len() == k,
            forall|j: int| 0 <= j < k ==> candidate_json_ok(#[trigger] items@[j], guidelines@[candidates@[j] as int]),
        decreases candidates.len() - k,
    {
        let g = &guidelines[candidates[k]];
        let mut members: Vec<(String, JsonValue)> = Vec::new();
        members.push((owned("id"), JsonValue::Str(g.guideline_id.clone())));
        members.push((owned("condition"), JsonValue::Str(g.name.clone())));
        members.push((owned("action"), JsonValue::Str(g.action_text.clone())));
        items.push(JsonValue::Object(members));
        k = k + 1;
    }
    JsonValue::Array(items)
}

pub open spec fn policy_prompt_head() -> Seq<char> {
    "You are deciding which behavioral guidelines apply to the current conversation turn.\n\nUser message: \""@
}

pub open spec fn policy_prompt_mid() -> Seq<char> {
    "\"\n\nGuidelines to evaluate (JSON array):\n"@
}

pub open spec fn policy_prompt_tail() -> Seq<char> {
    "\n\nFor each guideline determine if it applies given the user message.\nReply with ONLY a JSON object on one line, no markdown:\n{\"results\": [{\"id\": \"...\", \"applies\": true, \"score\": 0.9, \"rationale\": \"...\"}]}"@
}

/// The prompt asking a model which candidate guidelines apply; the
/// candidates are given as serialized JSON text.
pub fn semantic_policy_prompt(message_text: &str, candidates_text: &str) -> (r: String)
    ensures
        r@ == policy_prompt_head() + message_text@ + policy_prompt_mid() + candidates_text@
            + policy_prompt_tail(),
{
    let mut p = owned(
        "You are deciding which behavioral guidelines apply to the current conversation turn.\n\nUser message: \"",
    );
    push_str(&mut p, message_text);
    push_str(&mut p, "\"\n\nGuidelines to evaluate (JSON array):\n");
    push_str(&mut p, candidates_text);
    push_str(
        &mut p,
        "\n\nFor each guideline determine if it applies given the user message.\nReply with ONLY a JSON object on one line, no markdown:\n{\"results\": [{\"id\": \"...\", \"applies\": true, \"score\": 0.9, \"rationale\": \"...\"}]}",
    );
    p
}

/// The position (in `cands`) of the first candidate whose id is `id`.
pub open spec fn first_candidate(gs: Seq<GuidelineDefinition>, cands: Seq<usize>, id: Seq<char>) -> Option<int>
    decreases cands.len(),
{
    if cands.len() == 0 {
        None
    } else {
        match first_candidate(gs, cands.drop_last(), id) {
            Some(i) => Some(i),
            None => if gs[cands.last() as int].guideline_id@ == id {
                Some(cands.len() - 1)
            } else {
                None
            },
        }
    }
}

/// The id a result refers to (empty when absent).
pub open spec fn result_id(v: JsonValue) -> Seq<char> {
    match v.get_str_spec("id"@) {
        Some(s) => s,
        None => Seq::empty(),
    }
}

/// The result says its guideline applies.
pub open spec fn result_applies(v: JsonValue) -> bool {
    v.get_bool_spec("applies"@) == Some(true)
}

/// The guideline positions activated by the model's results, in result
/// order: each result that applies activates the first candidate with its id.
pub open spec fn model_activated(results: Seq<JsonValue>, gs: Seq<GuidelineDefinition>, cands: Seq<usize>) -> Seq<int>
    decreases results.len(),
{
    if results.len() == 0 {
        Seq::empty()
    } else {
        let prev = model_activated(results.drop_last(), gs, cands);
        let v = results.last();
        if result_applies(v) {
            match first_candidate(gs, cands, result_id(v)) {
                Some(c) => prev.push(cands[c] as int),
                None => prev,
            }
        } else {
            prev
        }
    }
}

/// The results list of a reply: the `results` array of a parsed reply, or
/// nothing.
pub open spec fn reply_results(reply: Option<JsonValue>) -> Seq<JsonValue> {
    match reply {
        Some(v) => match v.get_array_spec("results"@) {
            Some(a) => a,
            None => Seq::empty(),
        },
        None => Seq::empty(),
    }
}

fn find_candidate(guidelines: &Vec<GuidelineDefinition>, cands: &Vec<usize>, id: &str) -> (r: Option<usize>)
    requires
        forall|k: int| 0 <= k < cands@.len() ==> #[trigger] cands@[k] < guidelines@.len(),
    ensures
        match first_candidate(guidelines@, cands@, id@) {
            None => r is None,
            Some(c) => r matches Some(x) && x as int == c && 0 <= c < cands@.len(),
        },
{
    let mut i: usize = 0;
    while i < cands.len()
        invariant
            i <= cands.len(),
            forall|k: int| 0 <= k < cands@.len() ==> #[trigger] cands@[k] < guidelines@.len(),
            first_candidate(guidelines@, cands@.take(i as int), id@) is None,
        decreases cands.len() - i,
    {
        assert(cands@.take(i + 1).drop_last() =~= cands@.take(i as int));
        assert(cands@.take(i + 1).last() == cands@[i as int]);
        if str_eq(guidelines[cands[i]].guideline_id.as_str(), id) {
            proof {
                lemma_first_candidate_prefix(guidelines@, cands@, id@, i as int + 1);
            }
            return Some(i);
        }
        i = i + 1;
    }
    assert(cands@.take(cands@.len() as int) =~= cands@);
    None
}

proof fn lemma_first_candidate_prefix(gs: Seq<GuidelineDefinition>, cands: Seq<usize>, id: Seq<char>, n: int)
    requires
        0 <= n <= cands.len(),
        first_candidate(gs, cands.take(n), id) is Some,
    ensures
        first_candidate(gs, cands, id) == first_candidate(gs, cands.take(n), id),
    decreases cands.len() - n,
{
    if n < cands.len() {
        assert(cands.take(n + 1).drop_last() =~= cands.take(n));
        lemma_first_candidate_prefix(gs, cands, id, n + 1);
    } else {
        assert(cands.take(n) =~= cands);
    }
}

/// The guidelines that the model's parsed reply activates (`None` when the
/// call failed or the reply was not JSON), each without source observations.
pub fn semantic_activations(
    guidelines: &Vec<GuidelineDefinition>,
    candidates: &Vec<usize>,
    reply: Option<&JsonValue>,
) -> (r: Vec<GuidelineActivation>)
    requires
        forall|k: int| 0 <= k < candidates@.len() ==> #[trigger] candidates@[k] < guidelines@.len(),
    ensures
        ({
            let positions = model_activated(reply_results(opt_json(reply)), guidelines@, candidates@);
            &&& r@.len() == positions.len()
            &&& forall|i: int|
                0 <= i < r@.len() ==> {
                    let p = #[trigger] positions[i];
                    &&& 0 <= p < guidelines@.len()
                    &&& is_activation(r@[i], guidelines@[p], Seq::empty())
                }
        }),
{
    let mut out: Vec<GuidelineActivation> = Vec::new();
    let ghost reply_spec = match reply {
        Some(v) => Some(*v),
        None => None,
    };
    let results: &Vec<JsonValue> = match reply {
        Some(v) => match v.get_array("results") {
            Some(a) => a,
            None => {
                return out;
            },
        },
        None => {
            return out;
        },
    };
    assert(results@ == reply_results(reply_spec));
    let mut i: usize = 0;
    while i < results.len()
        invariant
            i <= results.len(),
            forall|k: int| 0 <= k < candidates@.len() ==> #[trigger] candidates@[k] < guidelines@.len(),
            out@.len() == model_activated(results@.take(i as int), guidelines@, candidates@).len(),
            forall|k: int|
                0 <= k < out@.len() ==> {
                    let p = #[trigger] model_activated(results@.take(i as int), guidelines@, candidates@)[k];
                    &&& 0 <= p < guidelines@.len()
                    &&& is_activation(out@[k], guidelines@[p], Seq::empty())
                },
        decreases results.len() - i,
    {
        let ghost before = model_activated(results@.take(i as int), guidelines@, candidates@);
        assert(results@.take(i + 1).drop_last() =~= results@.take(i as int));
        assert(results@.take(i + 1).last() == results@[i as int]);
        let v = &results[i];
        let id: &str = match v.get_str("id") {
            Some(s) => s,
            None => "",
        };
        proof {
            reveal_strlit("");
            assert(id@ == result_id(*v));
        }
        let applies = match v.get_bool("applies") {
            Some(b) => b,
            None => false,
        };
        assert(applies == result_applies(*v));
        if applies {
            if let Some(c) = find_candidate(guidelines, candidates, id) {
                let sources: Vec<String> = Vec::new();
                assert(sources.deep_view() =~= Seq::<Seq<char>>::empty());
                let a = activation_from(&guidelines[candidates[c]], sources);
                assert(is_activation(a, guidelines@[candidates@[c as int] as int], Seq::empty()));
                out.push(a);
                let ghost ri = results@.take(i + 1);
                assert(ri.last() == *v);
                assert(result_applies(ri.last()));
                assert(result_id(ri.last()) == id@);
                assert(first_candidate(guidelines@, candidates@, id@) == Some(c as int));
                assert(model_activated(results@.take(i + 1), guidelines@, candidates@) == before.push(
                    candidates@[c as int] as int,
                ));
            }
        }
        i = i + 1;
        proof {
            let now = model_activated(results@.take(i as int), guidelines@, candidates@);
            assert forall|k: int| 0 <= k < out@.len() implies {
                let p = #[trigger] now[k];
                &&& 0 <= p < guidelines@.len()
                &&& is_activation(out@[k], guidelines@[p], Seq::empty())
            } by {
                if k < before.len() {
                    assert(now[k] == before[k]);
                }
            }
        }
    }
    assert(results@.take(results@.len() as int) =~= results@);
    out
}

/// Completes a model-assisted resolution: the rule-decided activations are
/// followed by the model-decided ones, then the relationship graph and tool
/// authorization apply as in `resolve_policy`.
pub fn finish_semantic_resolution(
    rule_acts: Vec<GuidelineActivation>,
    model_acts: Vec<GuidelineActivation>,
    observations: &Vec<ObservationHit>,
    relationships: &Vec<GuidelineRelationship>,
    policies: &Vec<ToolExposurePolicy>,
    journey_state: Option<&str>,
) -> (r: PolicyResolution)
    ensures
        resolution_from(r, rule_acts@ + model_acts@, observations@, relationships@, policies@, opt_str_view(journey_state)),
{
    let mut all = rule_acts;
    let mut rest = model_acts;
    all.append(&mut rest);
    finish_resolution(all, observations, relationships, policies, journey_state)
}

/// The positions of the semantic candidates as indices.
pub open spec fn candidate_indices(gs: Seq<GuidelineDefinition>) -> Seq<usize> {
    candidate_positions(gs).map_values(|p: int| p as usize)
}

/// `acts` activates, in order, the guidelines at `positions`, each without
/// source observations.
pub open spec fn model_activations_match(
    acts: Seq<GuidelineActivation>,
    gs: Seq<GuidelineDefinition>,
    positions: Seq<int>,
) -> bool {
    &&& acts.len() == positions.len()
    &&& forall|i: int|
        0 <= i < acts.len() ==> {
            let p = #[trigger] positions[i];
            &&& 0 <= p < gs.len()
            &&& is_activation(acts[i], gs[p], Seq::empty())
        }
}

/// A whole model-assisted resolution, once the model has answered: the
/// guidelines decided by rules, followed by the candidates (enabled, no
/// condition, an action that is not blank) that the parsed reply says apply
/// (`None` when no call was made, the call failed or the reply did not
/// parse, which activates none), then the relationship graph and tool
/// authorization as in `resolve_policy`.
pub fn resolve_policy_with_reply(
    guidelines: &Vec<GuidelineDefinition>,
    observations: &Vec<ObservationHit>,
    relationships: &Vec<GuidelineRelationship>,
    policies: &Vec<ToolExposurePolicy>,
    journey_state: Option<&str>,
    reply: Option<&JsonValue>,
) -> (r: PolicyResolution)
    ensures
        exists|rule_acts: Seq<GuidelineActivation>, model_acts: Seq<GuidelineActivation>|
            rule_activations_match(rule_acts, guidelines@, rule_positions(guidelines@, observations@), observations@)
            && model_activations_match(
                model_acts,
                guidelines@,
                model_activated(reply_results(opt_json(reply)), guidelines@, candidate_indices(guidelines@)),
            )
            && #[trigger] resolution_from(
                r,
                rule_acts + model_acts,
                observations@,
                relationships@,
                policies@,
                opt_str_view(journey_state),
            ),
{
    let (rule_acts, cands) = partition_guidelines(guidelines, observations);
    proof {
        assert(cands@ =~= candidate_indices(guidelines@));
    }
    let model_acts = semantic_activations(guidelines, &cands, reply);
    let ghost ra = rule_acts@;
    let ghost ma = model_acts@;
    assert(model_activations_match(
        ma,
        guidelines@,
        model_activated(reply_results(opt_json(reply)), guidelines@, candidate_indices(guidelines@)),
    ));
    assert(rule_activations_match(ra, guidelines@, rule_positions(guidelines@, observations@), observations@));
    let r = finish_semantic_resolution(rule_acts, model_acts, observations, relationships, policies, journey_state);
    assert(resolution_from(r, ra + ma, observations@, relationships@, policies@, opt_str_view(journey_state)));
    r
}

} // verus!
