//! Properties of the control plane that hold across its operations.
use vstd::prelude::*;
use crate::json::{members_get, JsonValue};
use crate::journey::{first_firing, missing_fields_spec, field_missing, journey_triggered_spec, transition_fires_spec, TransitionRecord, TurnOutcome};
use crate::observation::{deterministic_reason, is_semantic_spec, matched_observations, reason_always, ObservationDefinition, ObservationHit};
use crate::policy::{
    active_positions, applying_policies, excluded_entries, exclusion_reason, guideline_is_active,
    kept_guidelines, last_reason, policy_applies, rel_exclusions, relationship_exclusion, ApprovalMode,
    GuidelineActivation, GuidelineDefinition, GuidelineRelationship, ToolExposurePolicy,
};
use crate::semantic_policy::{candidate_positions, first_candidate, is_semantic_candidate, model_activated, rule_active};
use crate::migration::{pending_spec, SCHEMA_VERSION};
use crate::text::lower;
use crate::journey::{has_inbound, is_entry_choice, is_projection, JourneyStateRecord};
use crate::dashboard::{bool_setting_spec, bool_setting_value_spec};
use crate::embedding::{decode_words, encode_words, lemma_encode_words, lemma_word_of_le_bytes, le_bytes};
use crate::releases::{
    current_version, last_with, lemma_last_with, lemma_last_with_unique, publish_spec, releases_well_formed,
    rollback_spec, with_status, ReleaseRecord, ReleaseStatus,
};
use crate::agents::{loaded_rows, row_loaded, AgentRowKey};
use crate::turn::{response_mode_spec, stable_spec, CompiledTurnContext, KnowledgeBundle, ResponseMode};
use crate::policy::ToolAuthorization;
use crate::policy::{first_gate_policy, gate_applies, gate_reason, is_active_id, is_gate_decision, ToolGateDecision};
use crate::observation::{assisted_matches, assisted_reason, reply_at};
use crate::text::seq_contains;

verus! {

// ───────────────────────── Observations ─────────────────────────

/// Only enabled observations are reported as matched, each for the reason
/// its rules give; and every enabled observation that its rules match is
/// reported.
pub proof fn law_matched_observations_are_enabled_matches(obs: Seq<ObservationDefinition>, text: Seq<char>)
    ensures
        forall|k: int|
            0 <= k < matched_observations(obs, text).len() ==> {
                let m = #[trigger] matched_observations(obs, text)[k];
                &&& 0 <= m.0 < obs.len()
                &&& obs[m.0].enabled
                &&& deterministic_reason(obs[m.0], text) == Some(m.1)
            },
        forall|j: int|
            0 <= j < obs.len() && obs[j].enabled && #[trigger] deterministic_reason(obs[j], text) is Some
                ==> exists|k: int| 0 <= k < matched_observations(obs, text).len()
                    && (#[trigger] matched_observations(obs, text)[k]).0 == j,
    decreases obs.len(),
{
    if obs.len() > 0 {
        let prev = obs.drop_last();
        law_matched_observations_are_enabled_matches(prev, text);
        let before = matched_observations(prev, text);
        let now = matched_observations(obs, text);
        assert forall|k: int| 0 <= k < before.len() implies #[trigger] now[k] == before[k] by {}
        assert forall|j: int|
            0 <= j < obs.len() && obs[j].enabled && #[trigger] deterministic_reason(obs[j], text) is Some
            implies exists|k: int| 0 <= k < now.len() && (#[trigger] now[k]).0 == j by {
            if j < obs.len() - 1 {
                assert(prev[j] == obs[j]);
                let k = choose|k: int| 0 <= k < before.len() && (#[trigger] before[k]).0 == j;
                assert(now[k] == before[k]);
            } else {
                assert(now[now.len() - 1].0 == j);
            }
        }
    }
}

/// Observations evaluated by a language model never match by rules.
pub proof fn law_semantic_observations_never_match_by_rules(obs: ObservationDefinition, text: Seq<char>)
    requires
        is_semantic_spec(obs),
    ensures
        deterministic_reason(obs, text) is None,
{
    reveal_strlit("always");
    reveal_strlit("semantic");
    assert("always"@.len() != "semantic"@.len());
}

/// An `always` observation matches every message.
pub proof fn law_always_observation_matches(obs: ObservationDefinition, text: Seq<char>)
    requires
        lower(obs.matcher_type@) == "always"@,
    ensures
        deterministic_reason(obs, text) == Some(reason_always()),
{
}

/// Apart from regular expressions, matching ignores letter case: two
/// messages with the same lowercase form match the same way.
pub proof fn law_rule_matching_ignores_case(obs: ObservationDefinition, a: Seq<char>, b: Seq<char>)
    requires
        lower(obs.matcher_type@) != "regex"@,
        lower(a) == lower(b),
    ensures
        deterministic_reason(obs, a) == deterministic_reason(obs, b),
{
}

// ───────────────────────── Guidelines ─────────────────────────

/// A guideline is activated exactly when it is enabled and its condition is
/// empty, `always`, or the name of a matched observation; activations keep
/// the definition order.
pub proof fn law_active_guidelines(gs: Seq<GuidelineDefinition>, obs: Seq<ObservationHit>)
    ensures
        forall|k: int|
            0 <= k < active_positions(gs, obs).len() ==> {
                let p = #[trigger] active_positions(gs, obs)[k];
                &&& 0 <= p < gs.len()
                &&& guideline_is_active(gs[p], obs)
            },
        forall|k: int, l: int|
            0 <= k < l < active_positions(gs, obs).len()
                ==> #[trigger] active_positions(gs, obs)[k] < #[trigger] active_positions(gs, obs)[l],
        forall|j: int|
            0 <= j < gs.len() && #[trigger] guideline_is_active(gs[j], obs)
                ==> active_positions(gs, obs).contains(j),
    decreases gs.len(),
{
    if gs.len() > 0 {
        let prev = gs.drop_last();
        law_active_guidelines(prev, obs);
        let before = active_positions(prev, obs);
        let now = active_positions(gs, obs);
        assert forall|k: int| 0 <= k < before.len() implies #[trigger] now[k] == before[k] by {}
        assert forall|k: int| 0 <= k < before.len() implies before[k] < gs.len() - 1 by {
            assert(prev[before[k]] == gs[before[k]]);
        }
        assert forall|j: int| 0 <= j < gs.len() && #[trigger] guideline_is_active(gs[j], obs)
            implies now.contains(j) by {
            if j < gs.len() - 1 {
                assert(prev[j] == gs[j]);
                assert(before.contains(j));
                let k = choose|k: int| 0 <= k < before.len() && before[k] == j;
                assert(now[k] == j);
            } else {
                assert(now[now.len() - 1] == j);
            }
        }
        assert forall|k: int| 0 <= k < now.len() implies {
            let p = #[trigger] now[k];
            &&& 0 <= p < gs.len()
            &&& guideline_is_active(gs[p], obs)
        } by {
            if k < before.len() {
                assert(prev[before[k]] == gs[before[k]]);
            }
        }
    }
}

/// A guideline decided by rules is never also put to the language model.
pub proof fn law_rule_and_model_guidelines_disjoint(g: GuidelineDefinition, obs: Seq<ObservationHit>)
    ensures
        !(rule_active(g, obs) && is_semantic_candidate(g)),
{
    reveal_strlit("always");
}

proof fn lemma_candidate_positions(gs: Seq<GuidelineDefinition>)
    ensures
        forall|k: int|
            0 <= k < candidate_positions(gs).len() ==> {
                let p = #[trigger] candidate_positions(gs)[k];
                &&& 0 <= p < gs.len()
                &&& is_semantic_candidate(gs[p])
            },
    decreases gs.len(),
{
    if gs.len() > 0 {
        let prev = gs.drop_last();
        lemma_candidate_positions(prev);
        let before = candidate_positions(prev);
        let now = candidate_positions(gs);
        assert forall|k: int| 0 <= k < now.len() implies {
            let p = #[trigger] now[k];
            &&& 0 <= p < gs.len()
            &&& is_semantic_candidate(gs[p])
        } by {
            if k < before.len() {
                assert(now[k] == before[k]);
                assert(prev[before[k]] == gs[before[k]]);
            }
        }
    }
}

proof fn lemma_first_candidate_in_range(gs: Seq<GuidelineDefinition>, cands: Seq<usize>, id: Seq<char>)
    ensures
        first_candidate(gs, cands, id) matches Some(c) ==> 0 <= c < cands.len(),
    decreases cands.len(),
{
    if cands.len() > 0 {
        lemma_first_candidate_in_range(gs, cands.drop_last(), id);
    }
}

/// The language model can only activate guidelines that were put to it:
/// every guideline it activates is an enabled guideline without a condition
/// and with an action text that is not blank.
pub proof fn law_model_activates_only_candidates(
    results: Seq<JsonValue>,
    gs: Seq<GuidelineDefinition>,
    cands: Seq<usize>,
)
    requires
        cands.len() == candidate_positions(gs).len(),
        forall|k: int| 0 <= k < cands.len() ==> cands[k] as int == #[trigger] candidate_positions(gs)[k],
    ensures
        forall|k: int|
            0 <= k < model_activated(results, gs, cands).len() ==> {
                let p = #[trigger] model_activated(results, gs, cands)[k];
                &&& 0 <= p < gs.len()
                &&& is_semantic_candidate(gs[p])
            },
    decreases results.len(),
{
    lemma_candidate_positions(gs);
    if results.len() > 0 {
        let prev = results.drop_last();
        law_model_activates_only_candidates(prev, gs, cands);
        let before = model_activated(prev, gs, cands);
        let now = model_activated(results, gs, cands);
        lemma_first_candidate_in_range(gs, cands, crate::semantic_policy::result_id(results.last()));
        assert forall|k: int| 0 <= k < now.len() implies {
            let p = #[trigger] now[k];
            &&& 0 <= p < gs.len()
            &&& is_semantic_candidate(gs[p])
        } by {
            if k < before.len() {
                assert(now[k] == before[k]);
            } else {
                let c = first_candidate(gs, cands, crate::semantic_policy::result_id(results.last())).unwrap();
                assert(now[k] == cands[c] as int);
                assert(cands[c] as int == candidate_positions(gs)[c]);
            }
        }
    }
}

// ───────────────────────── Relationship graph ─────────────────────────

proof fn lemma_partition(
    part: Seq<GuidelineActivation>,
    all: Seq<GuidelineActivation>,
    rels: Seq<GuidelineRelationship>,
)
    ensures
        kept_guidelines(part, all, rels).len() + excluded_entries(part, all, rels).len() == part.len(),
        forall|k: int|
            0 <= k < kept_guidelines(part, all, rels).len() ==> exclusion_reason(
                rels,
                all,
                (#[trigger] kept_guidelines(part, all, rels)[k]).guideline_id@,
            ) is None,
        forall|k: int|
            0 <= k < excluded_entries(part, all, rels).len() ==> exclusion_reason(
                rels,
                all,
                (#[trigger] excluded_entries(part, all, rels)[k]).0,
            ) == Some(excluded_entries(part, all, rels)[k].2),
    decreases part.len(),
{
    if part.len() > 0 {
        let prev = part.drop_last();
        lemma_partition(prev, all, rels);
        let kb = kept_guidelines(prev, all, rels);
        let kn = kept_guidelines(part, all, rels);
        let eb = excluded_entries(prev, all, rels);
        let en = excluded_entries(part, all, rels);
        assert forall|k: int| 0 <= k < kb.len() implies #[trigger] kn[k] == kb[k] by {}
        assert forall|k: int| 0 <= k < eb.len() implies #[trigger] en[k] == eb[k] by {}
    }
}

/// Applying the relationship graph splits the activations in two: each one
/// either remains active (no relationship excludes it) or is excluded with
/// the reason of the last relationship that excludes it, never both.
pub proof fn law_relationships_partition_activations(
    acts: Seq<GuidelineActivation>,
    rels: Seq<GuidelineRelationship>,
)
    ensures
        kept_guidelines(acts, acts, rels).len() + excluded_entries(acts, acts, rels).len() == acts.len(),
        forall|k: int|
            0 <= k < kept_guidelines(acts, acts, rels).len() ==> exclusion_reason(
                rels,
                acts,
                (#[trigger] kept_guidelines(acts, acts, rels)[k]).guideline_id@,
            ) is None,
        forall|k: int|
            0 <= k < excluded_entries(acts, acts, rels).len() ==> exclusion_reason(
                rels,
                acts,
                (#[trigger] excluded_entries(acts, acts, rels)[k]).0,
            ) == Some(excluded_entries(acts, acts, rels)[k].2),
{
    lemma_partition(acts, acts, rels);
}

/// The activations that no relationship excludes.
pub open spec fn not_excluded(rels: Seq<GuidelineRelationship>, all: Seq<GuidelineActivation>) -> spec_fn(
    GuidelineActivation,
) -> bool {
    |a: GuidelineActivation| exclusion_reason(rels, all, a.guideline_id@) is None
}

/// The activations that some relationship excludes.
pub open spec fn excluded_by_some(rels: Seq<GuidelineRelationship>, all: Seq<GuidelineActivation>) -> spec_fn(
    GuidelineActivation,
) -> bool {
    |a: GuidelineActivation| exclusion_reason(rels, all, a.guideline_id@) is Some
}

/// The excluded entry of an activation: its id, name and exclusion reason.
pub open spec fn exclusion_entry(rels: Seq<GuidelineRelationship>, all: Seq<GuidelineActivation>) -> spec_fn(
    GuidelineActivation,
) -> (Seq<char>, Seq<char>, Seq<char>) {
    |a: GuidelineActivation| (a.guideline_id@, a.name@, exclusion_reason(rels, all, a.guideline_id@).unwrap())
}

proof fn lemma_order_preserving_partition(
    part: Seq<GuidelineActivation>,
    all: Seq<GuidelineActivation>,
    rels: Seq<GuidelineRelationship>,
)
    ensures
        kept_guidelines(part, all, rels) == part.filter(not_excluded(rels, all)),
        excluded_entries(part, all, rels) == part.filter(excluded_by_some(rels, all)).map_values(
            exclusion_entry(rels, all),
        ),
    decreases part.len(),
{
    reveal(Seq::filter);
    if part.len() > 0 {
        lemma_order_preserving_partition(part.drop_last(), all, rels);
        let prev = part.drop_last().filter(excluded_by_some(rels, all));
        let f = exclusion_entry(rels, all);
        assert(prev.push(part.last()).map_values(f) =~= prev.map_values(f).push(f(part.last())));
    } else {
        assert(part.filter(excluded_by_some(rels, all)).map_values(exclusion_entry(rels, all)) =~= Seq::<
            (Seq<char>, Seq<char>, Seq<char>),
        >::empty());
    }
}

/// Applying the relationship graph is an order-preserving partition of the
/// matched guidelines: the guidelines that remain active are exactly those
/// that no relationship excludes, and the excluded entries are exactly the
/// others (by id and name, each with the reason of the last relationship
/// that excludes it); both lists keep the order of the matched guidelines.
pub proof fn law_relationships_order_preserving_partition(
    acts: Seq<GuidelineActivation>,
    rels: Seq<GuidelineRelationship>,
)
    ensures
        kept_guidelines(acts, acts, rels) == acts.filter(not_excluded(rels, acts)),
        excluded_entries(acts, acts, rels) == acts.filter(excluded_by_some(rels, acts)).map_values(
            exclusion_entry(rels, acts),
        ),
{
    lemma_order_preserving_partition(acts, acts, rels);
}

proof fn lemma_no_relationships(part: Seq<GuidelineActivation>, all: Seq<GuidelineActivation>)
    ensures
        kept_guidelines(part, all, Seq::empty()) == part,
        excluded_entries(part, all, Seq::empty()).len() == 0,
    decreases part.len(),
{
    if part.len() > 0 {
        lemma_no_relationships(part.drop_last(), all);
        assert(rel_exclusions(Seq::<GuidelineRelationship>::empty(), all).len() == 0);
        assert(part.drop_last().push(part.last()) =~= part);
    }
}

/// Without relationships every activation remains active and none is excluded.
pub proof fn law_no_relationships_keep_all(acts: Seq<GuidelineActivation>)
    ensures
        kept_guidelines(acts, acts, Seq::empty()) == acts,
        excluded_entries(acts, acts, Seq::empty()).len() == 0,
{
    lemma_no_relationships(acts, acts);
}

proof fn lemma_last_reason_some(list: Seq<(Seq<char>, Seq<char>)>, id: Seq<char>, k: int)
    requires
        0 <= k < list.len(),
        list[k].0 == id,
    ensures
        last_reason(list, id) is Some,
    decreases list.len(),
{
    if k < list.len() - 1 {
        lemma_last_reason_some(list.drop_last(), id, k);
    }
}

proof fn lemma_rel_exclusions_contains(
    rels: Seq<GuidelineRelationship>,
    acts: Seq<GuidelineActivation>,
    j: int,
)
    requires
        0 <= j < rels.len(),
        relationship_exclusion(rels[j], acts) is Some,
    ensures
        exists|k: int|
            0 <= k < rel_exclusions(rels, acts).len()
                && #[trigger] rel_exclusions(rels, acts)[k] == relationship_exclusion(rels[j], acts).unwrap(),
    decreases rels.len(),
{
    let now = rel_exclusions(rels, acts);
    if j < rels.len() - 1 {
        let prev = rels.drop_last();
        assert(prev[j] == rels[j]);
        lemma_rel_exclusions_contains(prev, acts, j);
        let before = rel_exclusions(prev, acts);
        let k = choose|k: int|
            0 <= k < before.len() && #[trigger] before[k] == relationship_exclusion(rels[j], acts).unwrap();
        assert(now[k] == before[k]);
    } else {
        assert(now[now.len() - 1] == relationship_exclusion(rels[j], acts).unwrap());
    }
}

/// A guideline that some relationship excludes does not remain active.
pub proof fn law_excluded_guideline_not_kept(
    acts: Seq<GuidelineActivation>,
    rels: Seq<GuidelineRelationship>,
    j: int,
)
    requires
        0 <= j < rels.len(),
        relationship_exclusion(rels[j], acts) is Some,
    ensures
        exclusion_reason(rels, acts, relationship_exclusion(rels[j], acts).unwrap().0) is Some,
        forall|k: int|
            0 <= k < kept_guidelines(acts, acts, rels).len()
                ==> (#[trigger] kept_guidelines(acts, acts, rels)[k]).guideline_id@
                != relationship_exclusion(rels[j], acts).unwrap().0,
{
    let id = relationship_exclusion(rels[j], acts).unwrap().0;
    lemma_rel_exclusions_contains(rels, acts, j);
    let list = rel_exclusions(rels, acts);
    let k = choose|k: int| 0 <= k < list.len() && #[trigger] list[k] == relationship_exclusion(rels[j], acts).unwrap();
    lemma_last_reason_some(list, id, k);
    lemma_partition(acts, acts, rels);
}

// ───────────────────────── Tool authorization ─────────────────────────

/// A policy authorizes its tool exactly when it is enabled and all of its
/// preconditions hold; authorizations keep the policy order.
pub proof fn law_applying_policies(
    ps: Seq<ToolExposurePolicy>,
    obs_names: Seq<Seq<char>>,
    guideline_names: Seq<Seq<char>>,
    journey_state: Option<Seq<char>>,
)
    ensures
        forall|k: int|
            0 <= k < applying_policies(ps, obs_names, guideline_names, journey_state).len() ==> {
                let p = #[trigger] applying_policies(ps, obs_names, guideline_names, journey_state)[k];
                &&& 0 <= p < ps.len()
                &&& policy_applies(ps[p], obs_names, guideline_names, journey_state)
            },
        forall|j: int|
            0 <= j < ps.len() && #[trigger] policy_applies(ps[j], obs_names, guideline_names, journey_state)
                ==> applying_policies(ps, obs_names, guideline_names, journey_state).contains(j),
    decreases ps.len(),
{
    if ps.len() > 0 {
        let prev = ps.drop_last();
        law_applying_policies(prev, obs_names, guideline_names, journey_state);
        let before = applying_policies(prev, obs_names, guideline_names, journey_state);
        let now = applying_policies(ps, obs_names, guideline_names, journey_state);
        assert forall|k: int| 0 <= k < before.len() implies #[trigger] now[k] == before[k] by {}
        assert forall|j: int|
            0 <= j < ps.len() && #[trigger] policy_applies(ps[j], obs_names, guideline_names, journey_state)
            implies now.contains(j) by {
            if j < ps.len() - 1 {
                assert(prev[j] == ps[j]);
                assert(before.contains(j));
                let k = choose|k: int| 0 <= k < before.len() && before[k] == j;
                assert(now[k] == j);
            } else {
                assert(now[now.len() - 1] == j);
            }
        }
        assert forall|k: int| 0 <= k < now.len() implies {
            let p = #[trigger] now[k];
            &&& 0 <= p < ps.len()
            &&& policy_applies(ps[p], obs_names, guideline_names, journey_state)
        } by {
            if k < before.len() {
                assert(prev[before[k]] == ps[before[k]]);
            }
        }
    }
}

/// Approval modes survive storage: reading the stored text of a mode gives
/// the mode back, and a mode needs approval exactly when it is not `Auto`.
pub proof fn law_approval_mode_round_trip(m: ApprovalMode)
    ensures
        ApprovalMode::from_text(m.text()) == m,
        m.needs_approval() <==> !(m is Auto),
{
    reveal_strlit("auto");
    reveal_strlit("required");
    reveal_strlit("conditional");
    assert("auto"@.len() != "required"@.len());
    assert("auto"@.len() != "conditional"@.len());
    assert("required"@.len() != "conditional"@.len());
}

// ───────────────────────── Journeys ─────────────────────────

/// A journey whose trigger says `always: true` starts on every message.
pub proof fn law_always_trigger_fires(cfg: JsonValue, text: Seq<char>)
    requires
        cfg.get_bool_spec("always"@) == Some(true),
    ensures
        journey_triggered_spec(cfg, text),
{
}

/// A journey whose trigger is an empty object starts on every message.
pub proof fn law_empty_trigger_fires(cfg: JsonValue, text: Seq<char>)
    requires
        cfg.is_empty_object_spec(),
    ensures
        journey_triggered_spec(cfg, text),
{
}

/// `complete` and `handoff` transitions fire on every outcome, whatever
/// their condition.
pub proof fn law_complete_and_handoff_always_fire(cond: JsonValue, transition_type: Seq<char>, outcome: TurnOutcome)
    requires
        transition_type == "complete"@ || transition_type == "handoff"@,
    ensures
        transition_fires_spec(cond, transition_type, outcome),
{
}

/// The transition that advances an instance is the first one in order that
/// fires: it fires, and none before it does.
pub proof fn law_first_firing_transition_wins(ts: Seq<TransitionRecord>, outcome: TurnOutcome)
    ensures
        first_firing(ts, outcome) matches Some(j) ==> {
            &&& 0 <= j < ts.len()
            &&& transition_fires_spec(ts[j].condition_config, ts[j].transition_type@, outcome)
            &&& forall|i: int| 0 <= i < j ==> !transition_fires_spec(
                #[trigger] ts[i].condition_config,
                ts[i].transition_type@,
                outcome,
            )
        },
        first_firing(ts, outcome) is None ==> forall|i: int|
            0 <= i < ts.len() ==> !transition_fires_spec(#[trigger] ts[i].condition_config, ts[i].transition_type@, outcome),
    decreases ts.len(),
{
    if ts.len() > 0 {
        let prev = ts.drop_last();
        law_first_firing_transition_wins(prev, outcome);
        assert forall|i: int| 0 <= i < prev.len() implies #[trigger] prev[i] == ts[i] by {}
        match first_firing(prev, outcome) {
            Some(j) => {
                assert forall|i: int| 0 <= i < j implies !transition_fires_spec(
                    #[trigger] ts[i].condition_config,
                    ts[i].transition_type@,
                    outcome,
                ) by {
                    assert(prev[i] == ts[i]);
                }
                assert(prev[j] == ts[j]);
            },
            None => {
                assert forall|i: int| 0 <= i < ts.len() - 1 implies !transition_fires_spec(
                    #[trigger] ts[i].condition_config,
                    ts[i].transition_type@,
                    outcome,
                ) by {
                    assert(prev[i] == ts[i]);
                }
            },
        }
    }
}

/// A state's projected guidelines get the same ids on every turn: the id
/// depends only on the journey, the state and the action's position.
pub proof fn law_projection_ids_stable(
    a: GuidelineActivation,
    b: GuidelineActivation,
    journey_id: Seq<char>,
    state_id: Seq<char>,
    index: nat,
    name_a: Seq<char>,
    name_b: Seq<char>,
    state_a: Seq<char>,
    state_b: Seq<char>,
    action_a: Seq<char>,
    action_b: Seq<char>,
)
    requires
        is_projection(a, journey_id, name_a, state_id, state_a, action_a, index),
        is_projection(b, journey_id, name_b, state_id, state_b, action_b, index),
    ensures
        a.guideline_id@ == b.guideline_id@,
{
}

/// The missing fields of a state are exactly its required fields that the
/// payload lacks or holds as `null`, in the order they are required.
pub proof fn law_missing_fields(required: Seq<Seq<char>>, payload: JsonValue)
    ensures
        forall|f: Seq<char>|
            #[trigger] missing_fields_spec(required, payload).contains(f) <==> (required.contains(f) && field_missing(payload, f)),
        missing_fields_spec(required, payload).len() <= required.len(),
    decreases required.len(),
{
    if required.len() > 0 {
        let prev = required.drop_last();
        law_missing_fields(prev, payload);
        let before = missing_fields_spec(prev, payload);
        let now = missing_fields_spec(required, payload);
        assert forall|f: Seq<char>| #[trigger] now.contains(f) <==> (required.contains(f) && field_missing(payload, f)) by {
            if now.contains(f) {
                let k = choose|k: int| 0 <= k < now.len() && now[k] == f;
                if k < before.len() {
                    assert(before[k] == f);
                    assert(before.contains(f));
                    let i = choose|i: int| 0 <= i < prev.len() && prev[i] == f;
                    assert(required[i] == f);
                } else {
                    assert(required[required.len() - 1] == f);
                }
            }
            if required.contains(f) && field_missing(payload, f) {
                let i = choose|i: int| 0 <= i < required.len() && required[i] == f;
                if i < required.len() - 1 {
                    assert(prev[i] == f);
                    assert(prev.contains(f));
                    assert(before.contains(f));
                    let k = choose|k: int| 0 <= k < before.len() && before[k] == f;
                    assert(now[k] == f);
                } else {
                    assert(now[now.len() - 1] == f);
                }
            }
        }
    }
}

// ───────────────────────── Turn compilation ─────────────────────────

/// Stability between preparation rounds is an equivalence: every context is
/// stable with itself, and stability is symmetric and transitive.
pub proof fn law_stability_is_equivalence(a: CompiledTurnContext, b: CompiledTurnContext, c: CompiledTurnContext)
    ensures
        stable_spec(a, a),
        stable_spec(a, b) ==> stable_spec(b, a),
        stable_spec(a, b) && stable_spec(b, c) ==> stable_spec(a, c),
{
}

/// When canned responses are available the reply is restricted to them,
/// whatever the tools; with no knowledge constraints and no tool needing
/// approval the reply is free-form.
pub proof fn law_response_mode(k: KnowledgeBundle, auths: Seq<ToolAuthorization>)
    ensures
        k.canned_response_candidates@.len() > 0 ==> response_mode_spec(k, auths) == ResponseMode::CannedOnly,
        k.canned_response_candidates@.len() == 0 && k.glossary_terms@.len() == 0 && k.context_variables@.len() == 0
            && (forall|i: int| 0 <= i < auths.len() ==> !(#[trigger] auths[i]).requires_approval)
            ==> response_mode_spec(k, auths) == ResponseMode::Freeform,
{
}

// ───────────────────────── Agents ─────────────────────────

proof fn lemma_loaded_rows(rows: Seq<AgentRowKey>)
    ensures
        forall|k: int|
            0 <= k < loaded_rows(rows).len() ==> {
                let p = #[trigger] loaded_rows(rows)[k];
                &&& 0 <= p < rows.len()
                &&& row_loaded(rows, p)
            },
        forall|k: int, l: int|
            0 <= k < l < loaded_rows(rows).len() ==> #[trigger] loaded_rows(rows)[k] < #[trigger] loaded_rows(rows)[l],
    decreases rows.len(),
{
    if rows.len() > 0 {
        let prev = rows.drop_last();
        lemma_loaded_rows(prev);
        let before = loaded_rows(prev);
        let now = loaded_rows(rows);
        assert forall|k: int| 0 <= k < before.len() implies #[trigger] now[k] == before[k] by {}
        assert forall|k: int| 0 <= k < now.len() implies {
            let p = #[trigger] now[k];
            &&& 0 <= p < rows.len()
            &&& row_loaded(rows, p)
        } by {
            if k < before.len() {
                let p = before[k];
                assert(prev[p] == rows[p]);
                assert(row_loaded(prev, p));
                assert forall|j: int| 0 <= j < p implies lower(#[trigger] rows[j].name@) != lower(rows[p].name@) by {
                    assert(prev[j] == rows[j]);
                    assert(lower(prev[j].name@) != lower(prev[p].name@));
                }
            }
        }
    }
}

/// No two loaded agents share a name, compared without regard to case.
pub proof fn law_loaded_agent_names_distinct(rows: Seq<AgentRowKey>)
    ensures
        forall|k: int, l: int|
            0 <= k < l < loaded_rows(rows).len() ==> lower(rows[#[trigger] loaded_rows(rows)[k]].name@)
                != lower(rows[#[trigger] loaded_rows(rows)[l]].name@),
{
    lemma_loaded_rows(rows);
    assert forall|k: int, l: int|
        0 <= k < l < loaded_rows(rows).len() implies lower(rows[#[trigger] loaded_rows(rows)[k]].name@)
            != lower(rows[#[trigger] loaded_rows(rows)[l]].name@) by {
        let p = loaded_rows(rows)[k];
        let q = loaded_rows(rows)[l];
        assert(row_loaded(rows, q));
        assert(p < q);
        assert(lower(rows[p].name@) != lower(rows[q].name@));
    }
}

/// The configured entry state is chosen whenever it is one of the
/// journey's states; with no usable configured entry, a state that no
/// transition enters is chosen whenever one exists.
pub proof fn law_entry_state_preference(
    entry: Option<Seq<char>>,
    states: Seq<JourneyStateRecord>,
    ts: Seq<TransitionRecord>,
    i: int,
    j: int,
)
    requires
        is_entry_choice(entry, states, ts, i),
        0 <= j < states.len(),
    ensures
        entry == Some(states[j].state_id@) ==> entry == Some(states[i].state_id@),
        entry != Some(states[i].state_id@) && !has_inbound(ts, states[j].state_id@) ==> !has_inbound(ts, states[i].state_id@),
{
}

// ───────────────────────── Embeddings ─────────────────────────

/// A stored embedding reads back exactly as it was written.
pub proof fn law_embedding_round_trip(ws: Seq<u32>)
    ensures
        decode_words(encode_words(ws)) == ws,
{
    lemma_encode_words(ws);
    let e = encode_words(ws);
    assert(e.len() / 4 == ws.len());
    assert forall|i: int| 0 <= i < ws.len() implies #[trigger] decode_words(e)[i] == ws[i] by {
        assert(e[4 * i + 0] == le_bytes(ws[i])[0]);
        assert(e[4 * i + 1] == le_bytes(ws[i])[1]);
        assert(e[4 * i + 2] == le_bytes(ws[i])[2]);
        assert(e[4 * i + 3] == le_bytes(ws[i])[3]);
        lemma_word_of_le_bytes(ws[i]);
    }
    assert(decode_words(e) =~= ws);
}

// ───────────────────────── Releases ─────────────────────────

/// Publishing a release puts its version in effect.
pub proof fn law_publish_puts_version_in_effect(log: Seq<ReleaseRecord>, release_id: String, version: String)
    ensures
        current_version(publish_spec(log, release_id, version)) == Some(version@),
{
    let p = publish_spec(log, release_id, version);
    assert(p.last().status is Published);
}

proof fn lemma_publish_shape(log: Seq<ReleaseRecord>, release_id: String, version: String)
    ensures
        publish_spec(log, release_id, version).len() == log.len() + 1,
        forall|i: int|
            0 <= i < log.len() ==> #[trigger] publish_spec(log, release_id, version)[i] == (if log[i].status is Published {
                with_status(log[i], ReleaseStatus::Superseded)
            } else {
                log[i]
            }),
        publish_spec(log, release_id, version)[log.len() as int] == (ReleaseRecord {
            release_id,
            version,
            status: ReleaseStatus::Published,
        }),
{
}

/// Publishing and rolling back keep a scope's releases well formed.
pub proof fn law_releases_stay_well_formed(log: Seq<ReleaseRecord>, release_id: String, version: String)
    requires
        releases_well_formed(log),
    ensures
        releases_well_formed(publish_spec(log, release_id, version)),
        releases_well_formed(rollback_spec(log)),
{
    let p = publish_spec(log, release_id, version);
    let n = log.len() as int;
    lemma_publish_shape(log, release_id, version);
    assert forall|i: int, j: int|
        0 <= i < p.len() && 0 <= j < p.len() && (#[trigger] p[i]).status is Published && (#[trigger] p[j]).status is Published
        implies i == j by {
        assert(i == n && j == n);
    }
    assert forall|i: int, j: int|
        0 <= i < p.len() && 0 <= j < p.len() && (#[trigger] p[i]).status is Superseded && (#[trigger] p[j]).status is Published
        implies i < j by {
        assert(j == n);
    }
    assert(p[n].status is Published);
    lemma_last_with(log, true);
    lemma_last_with(log, false);
    match last_with(log, true) {
        None => {
            assert forall|i: int| 0 <= i < log.len() implies !((#[trigger] log[i]).status is Superseded) by {
                if log[i].status is Superseded {
                    assert(!(log[i].status is Published));
                }
            }
        },
        Some(q) => {
            let rolled = log.update(q, with_status(log[q], ReleaseStatus::RolledBack));
            lemma_last_with(rolled, false);
            let r = rollback_spec(log);
            match last_with(rolled, false) {
                None => {
                    assert(r == rolled);
                    assert forall|i: int| 0 <= i < r.len() implies !((#[trigger] r[i]).status is Published) by {
                        if i != q {
                            assert(r[i] == log[i]);
                            if log[i].status is Published {
                                assert(i == q);
                            }
                        }
                    }
                    assert forall|i: int| 0 <= i < r.len() implies !((#[trigger] r[i]).status is Superseded) by {}
                },
                Some(s) => {
                    assert(s != q);
                    assert(rolled[s] == log[s]);
                    assert forall|i: int| 0 <= i < r.len() && (#[trigger] r[i]).status is Published implies i == s by {
                        if i != s && i != q {
                            assert(r[i] == log[i]);
                            assert(i == q);
                        }
                    }
                    assert forall|i: int, j: int|
                        0 <= i < r.len() && 0 <= j < r.len() && (#[trigger] r[i]).status is Superseded
                            && (#[trigger] r[j]).status is Published implies i < j by {
                        assert(j == s);
                        assert(i != q);
                        assert(rolled[i] == r[i]);
                    }
                    assert(r[s].status is Published);
                }
            }
        },
    }
}

/// Rolling back right after a publish restores the version that was in
/// effect before it.
pub proof fn law_rollback_undoes_publish(log: Seq<ReleaseRecord>, release_id: String, version: String)
    requires
        releases_well_formed(log),
    ensures
        current_version(rollback_spec(publish_spec(log, release_id, version))) == current_version(log),
{
    let p = publish_spec(log, release_id, version);
    let n = log.len() as int;
    lemma_publish_shape(log, release_id, version);
    assert(p[n].status is Published);
    lemma_last_with_unique(p, true, n);
    let rolled = p.update(n, with_status(p[n], ReleaseStatus::RolledBack));
    lemma_last_with(log, true);
    lemma_last_with(rolled, false);
    let r = rollback_spec(p);
    match last_with(log, true) {
        Some(q) => {
            assert(rolled[q].status is Superseded);
            assert forall|j: int| q < j < rolled.len() implies !has_superseded(#[trigger] rolled[j]) by {
                if j < n {
                    assert(rolled[j] == p[j]);
                    if log[j].status is Superseded {
                        assert(j < q);
                    }
                    if log[j].status is Published {
                        assert(j == q);
                    }
                }
            }
            lemma_last_with_unique(rolled, false, q);
            assert(r == rolled.update(q, with_status(rolled[q], ReleaseStatus::Published)));
            assert forall|j: int| q < j < r.len() implies !((#[trigger] r[j]).status is Published) by {
                if j < n {
                    assert(r[j] == p[j]);
                    if log[j].status is Published {
                        assert(j == q);
                    }
                }
            }
            assert(r[q].status is Published);
            lemma_last_with_unique(r, true, q);
            assert(r[q].version == log[q].version);
        },
        None => {
            assert forall|j: int| 0 <= j < rolled.len() implies !has_superseded(#[trigger] rolled[j]) by {
                if j < n {
                    assert(rolled[j] == p[j]);
                    if log[j].status is Superseded {
                        assert(!(log[j].status is Published));
                    }
                }
            }
            match last_with(rolled, false) {
                Some(s) => {
                    assert(has_superseded(rolled[s]));
                },
                None => {},
            }
            assert(r == rolled);
            lemma_last_with(r, true);
            match last_with(r, true) {
                Some(x) => {
                    if x < n {
                        assert(r[x] == p[x]);
                    }
                },
                None => {},
            }
        },
    }
}

/// The release has the superseded status.
pub open spec fn has_superseded(r: ReleaseRecord) -> bool {
    r.status is Superseded
}

// ───────────────────────── Settings ─────────────────────────

/// Reading a boolean setting gives back the value last written, whatever
/// the default.
pub proof fn law_bool_setting_round_trip(v: JsonValue, enabled: bool, default: bool)
    requires
        bool_setting_value_spec(v, enabled),
    ensures
        bool_setting_spec(Some(v), default) == enabled,
{
}

// ───────────────────────── Migrations ─────────────────────────

/// Migrations run in version order, one per version above the current one
/// up to the schema version; a database at (or past) the schema version has
/// nothing left to run, so running the migrations twice changes nothing.
pub proof fn law_migration_plan(current: u32)
    ensures
        forall|i: int| 0 <= i < pending_spec(current).len() ==> #[trigger] pending_spec(current)[i] == current + 1 + i,
        current < SCHEMA_VERSION ==> pending_spec(current).len() == SCHEMA_VERSION - current
            && pending_spec(current).last() == SCHEMA_VERSION,
        current >= SCHEMA_VERSION ==> pending_spec(current).len() == 0,
        pending_spec(SCHEMA_VERSION).len() == 0,
{
}


// ───────────────────────── Exclusions need active relationships ─────────────────────────

proof fn lemma_last_reason_names(list: Seq<(Seq<char>, Seq<char>)>, id: Seq<char>)
    requires
        last_reason(list, id) is Some,
    ensures
        exists|k: int| 0 <= k < list.len() && (#[trigger] list[k]).0 == id,
    decreases list.len(),
{
    if list.last().0 != id {
        lemma_last_reason_names(list.drop_last(), id);
        let k = choose|k: int| 0 <= k < list.len() - 1 && (#[trigger] list.drop_last()[k]).0 == id;
        assert(list[k] == list.drop_last()[k]);
    } else {
        assert(list[list.len() - 1].0 == id);
    }
}

proof fn lemma_rel_exclusions_from(rels: Seq<GuidelineRelationship>, acts: Seq<GuidelineActivation>)
    ensures
        forall|k: int|
            0 <= k < rel_exclusions(rels, acts).len() ==> exists|j: int|
                0 <= j < rels.len() && relationship_exclusion(#[trigger] rels[j], acts) == Some(
                    #[trigger] rel_exclusions(rels, acts)[k],
                ),
    decreases rels.len(),
{
    if rels.len() > 0 {
        let prev = rels.drop_last();
        lemma_rel_exclusions_from(prev, acts);
        let before = rel_exclusions(prev, acts);
        let now = rel_exclusions(rels, acts);
        assert forall|k: int| 0 <= k < now.len() implies exists|j: int|
            0 <= j < rels.len() && relationship_exclusion(#[trigger] rels[j], acts) == Some(#[trigger] now[k]) by {
            if k < before.len() {
                assert(now[k] == before[k]);
                let j = choose|j: int| 0 <= j < prev.len() && relationship_exclusion(#[trigger] prev[j], acts) == Some(before[k]);
                assert(rels[j] == prev[j]);
            } else {
                assert(relationship_exclusion(rels[rels.len() - 1], acts) == Some(now[k]));
            }
        }
    }
}

/// A guideline is excluded only through a relationship that names it and
/// whose source guideline is active; unless that relationship is a
/// `depends_on`, its target must be active too. In particular a
/// `prioritizes_over` or `excludes` relationship whose source is not active
/// excludes nothing.
pub proof fn law_exclusions_come_from_active_relationships(
    acts: Seq<GuidelineActivation>,
    rels: Seq<GuidelineRelationship>,
    id: Seq<char>,
)
    requires
        exclusion_reason(rels, acts, id) is Some,
    ensures
        exists|k: int|
            0 <= k < rels.len() && is_active_id(acts, (#[trigger] rels[k]).from_guideline_id@) && (
            rels[k].from_guideline_id@ == id || rels[k].to_guideline_id@ == id) && (rels[k].relation_type@
                != "depends_on"@ ==> is_active_id(acts, rels[k].to_guideline_id@)),
{
    let list = rel_exclusions(rels, acts);
    lemma_last_reason_names(list, id);
    let k = choose|k: int| 0 <= k < list.len() && (#[trigger] list[k]).0 == id;
    lemma_rel_exclusions_from(rels, acts);
    let j = choose|j: int| 0 <= j < rels.len() && relationship_exclusion(#[trigger] rels[j], acts) == Some(list[k]);
    assert(is_active_id(acts, rels[j].from_guideline_id@));
}

// ───────────────────────── Semantic observations follow the reply ─────────────────────────

proof fn lemma_assisted_matches(obs: Seq<ObservationDefinition>, text: Seq<char>, replies: Seq<Option<JsonValue>>)
    ensures
        forall|k: int|
            0 <= k < assisted_matches(obs, text, replies).len() ==> {
                let m = #[trigger] assisted_matches(obs, text, replies)[k];
                &&& 0 <= m.0 < obs.len()
                &&& assisted_reason(obs[m.0], text, reply_at(replies, m.0)) == Some(m.1)
            },
        forall|p: int|
            0 <= p < obs.len() && (#[trigger] assisted_reason(obs[p], text, reply_at(replies, p))) is Some
                ==> exists|k: int|
                0 <= k < assisted_matches(obs, text, replies).len() && (#[trigger] assisted_matches(
                    obs,
                    text,
                    replies,
                )[k]).0 == p,
    decreases obs.len(),
{
    if obs.len() > 0 {
        let prev = obs.drop_last();
        lemma_assisted_matches(prev, text, replies);
        let before = assisted_matches(prev, text, replies);
        let now = assisted_matches(obs, text, replies);
        assert forall|k: int| 0 <= k < now.len() implies {
            let m = #[trigger] now[k];
            &&& 0 <= m.0 < obs.len()
            &&& assisted_reason(obs[m.0], text, reply_at(replies, m.0)) == Some(m.1)
        } by {
            if k < before.len() {
                assert(now[k] == before[k]);
                assert(prev[before[k].0] == obs[before[k].0]);
            }
        }
        assert forall|p: int|
            0 <= p < obs.len() && (#[trigger] assisted_reason(obs[p], text, reply_at(replies, p))) is Some
            implies exists|k: int| 0 <= k < now.len() && (#[trigger] now[k]).0 == p by {
            if p < obs.len() - 1 {
                assert(prev[p] == obs[p]);
                assert(assisted_reason(prev[p], text, reply_at(replies, p)) is Some);
                let k = choose|k: int| 0 <= k < before.len() && (#[trigger] before[k]).0 == p;
                assert(now[k] == before[k]);
            } else {
                assert(now[now.len() - 1].0 == p);
            }
        }
    }
}

/// The model's reply for position `i` parsed and says `triggered: true`.
pub open spec fn reply_says_triggered(replies: Seq<Option<JsonValue>>, i: int) -> bool {
    0 <= i < replies.len() && match replies[i] {
        Some(v) => v.get_bool_spec("triggered"@) == Some(true),
        None => false,
    }
}

/// The rationale of the model's reply for position `i` (`llm_semantic` when
/// it gives none).
pub open spec fn reply_rationale(replies: Seq<Option<JsonValue>>, i: int) -> Seq<char> {
    if 0 <= i < replies.len() {
        match replies[i] {
            Some(v) => match v.get_str_spec("rationale"@) {
                Some(r) => r,
                None => "llm_semantic"@,
            },
            None => "llm_semantic"@,
        }
    } else {
        "llm_semantic"@
    }
}

/// In model-assisted matching an enabled semantic observation is reported
/// exactly when the model's parsed reply for it says `triggered: true`, and
/// then with the reason `llm_semantic: ` followed by the reply's rationale
/// (or `llm_semantic`).
pub proof fn law_semantic_observation_follows_reply(
    obs: Seq<ObservationDefinition>,
    text: Seq<char>,
    replies: Seq<Option<JsonValue>>,
    i: int,
)
    requires
        0 <= i < obs.len(),
        obs[i].enabled,
        lower(obs[i].matcher_type@) == "semantic"@,
    ensures
        (exists|k: int|
            0 <= k < assisted_matches(obs, text, replies).len() && (#[trigger] assisted_matches(obs, text, replies)[k]).0
                == i) <==> reply_says_triggered(replies, i),
        forall|k: int|
            0 <= k < assisted_matches(obs, text, replies).len() && (#[trigger] assisted_matches(obs, text, replies)[k]).0
                == i ==> assisted_matches(obs, text, replies)[k].1 == "llm_semantic: "@ + reply_rationale(replies, i),
{
    lemma_assisted_matches(obs, text, replies);
    let m = assisted_matches(obs, text, replies);
    assert(is_semantic_spec(obs[i]));
    if reply_says_triggered(replies, i) {
        assert(assisted_reason(obs[i], text, reply_at(replies, i)) is Some);
    }
    assert forall|k: int| 0 <= k < m.len() && (#[trigger] m[k]).0 == i implies m[k].1 == "llm_semantic: "@
        + reply_rationale(replies, i) by {
        assert(assisted_reason(obs[m[k].0], text, reply_at(replies, m[k].0)) == Some(m[k].1));
    }
}

// ───────────────────────── Response-contains conditions ─────────────────────────

/// A transition that is neither `complete` nor `handoff`, whose condition
/// holds only a `response_contains` text, fires exactly when the response,
/// lowercased, contains that text, lowercased; and as the only outgoing
/// transition it advances the instance exactly then.
pub proof fn law_response_contains_fires_on_substring(
    t: TransitionRecord,
    members: Vec<(String, JsonValue)>,
    text: String,
    outcome: TurnOutcome,
)
    requires
        t.condition_config == JsonValue::Object(members),
        members@.len() == 1,
        members@[0].0@ == "response_contains"@,
        members@[0].1 == JsonValue::Str(text),
        t.transition_type@ != "complete"@,
        t.transition_type@ != "handoff"@,
    ensures
        transition_fires_spec(t.condition_config, t.transition_type@, outcome) == seq_contains(
            lower(outcome.response_text@),
            lower(text@),
        ),
        first_firing(seq![t], outcome) == (if seq_contains(lower(outcome.response_text@), lower(text@)) {
            Some(0int)
        } else {
            None
        }),
{
    reveal_strlit("response_contains");
    reveal_strlit("always");
    reveal_strlit("type");
    reveal_strlit("tool_called");
    let c = t.condition_config;
    assert(members@.drop_first().len() == 0);
    assert("response_contains"@.len() == 17);
    assert("always"@.len() == 6);
    assert("type"@.len() == 4);
    assert("tool_called"@.len() == 11);
    assert(members_get(members@.drop_first(), "always"@) is None);
    assert(members_get(members@.drop_first(), "type"@) is None);
    assert(members_get(members@.drop_first(), "tool_called"@) is None);
    assert(c.get_spec("always"@) is None);
    assert(c.get_spec("type"@) is None);
    assert(c.get_spec("tool_called"@) is None);
    assert(c.get_str_spec("response_contains"@) == Some(text@));
    let ts = seq![t];
    assert(ts.drop_last() =~= Seq::<TransitionRecord>::empty());
    assert(first_firing(ts.drop_last(), outcome) is None);
    assert(ts.last() == t);
    assert(ts.len() == 1);
}

// ───────────────────────── The tool gate ─────────────────────────

/// Policy `p` governs `tool`: it is enabled, names the tool, and each of
/// its preconditions holds (the named observation matched, the named
/// guideline is active, the journey is in the named state).
pub open spec fn policy_governs(
    p: ToolExposurePolicy,
    tool: Seq<char>,
    obs_names: Seq<Seq<char>>,
    guideline_names: Seq<Seq<char>>,
    journey_state: Option<Seq<char>>,
) -> bool {
    &&& p.enabled
    &&& p.tool_name@ == tool
    &&& (p.observation_ref matches Some(o) ==> obs_names.contains(o@))
    &&& (p.guideline_ref matches Some(g) ==> guideline_names.contains(g@))
    &&& (p.journey_state_ref matches Some(s) ==> journey_state == Some(s@))
}

proof fn lemma_first_gate_policy(
    ps: Seq<ToolExposurePolicy>,
    tool: Seq<char>,
    obs_names: Seq<Seq<char>>,
    guideline_names: Seq<Seq<char>>,
    journey_state: Option<Seq<char>>,
)
    ensures
        match first_gate_policy(ps, tool, obs_names, guideline_names, journey_state) {
            Some(j) => 0 <= j < ps.len() && policy_governs(ps[j], tool, obs_names, guideline_names, journey_state)
                && forall|k: int|
                0 <= k < j ==> !policy_governs(#[trigger] ps[k], tool, obs_names, guideline_names, journey_state),
            None => forall|k: int|
                0 <= k < ps.len() ==> !policy_governs(#[trigger] ps[k], tool, obs_names, guideline_names, journey_state),
        },
    decreases ps.len(),
{
    assert forall|p: ToolExposurePolicy|
        gate_applies(p, tool, obs_names, guideline_names, journey_state) == #[trigger] policy_governs(
            p,
            tool,
            obs_names,
            guideline_names,
            journey_state,
        ) by {}
    if ps.len() > 0 {
        let prev = ps.drop_last();
        lemma_first_gate_policy(prev, tool, obs_names, guideline_names, journey_state);
        assert forall|k: int| 0 <= k < prev.len() implies #[trigger] prev[k] == ps[k] by {}
        let last = ps.len() - 1;
        match first_gate_policy(prev, tool, obs_names, guideline_names, journey_state) {
            Some(j) => {
                assert(prev[j] == ps[j]);
                assert forall|k: int| 0 <= k < j implies !policy_governs(
                    #[trigger] ps[k],
                    tool,
                    obs_names,
                    guideline_names,
                    journey_state,
                ) by {
                    assert(prev[k] == ps[k]);
                }
            },
            None => {
                if policy_governs(ps[last], tool, obs_names, guideline_names, journey_state) {
                    assert(ps.last() == ps[last]);
                    assert forall|k: int| 0 <= k < last implies !policy_governs(
                        #[trigger] ps[k],
                        tool,
                        obs_names,
                        guideline_names,
                        journey_state,
                    ) by {
                        assert(prev[k] == ps[k]);
                    }
                } else {
                    assert forall|k: int| 0 <= k < ps.len() implies !policy_governs(
                        #[trigger] ps[k],
                        tool,
                        obs_names,
                        guideline_names,
                        journey_state,
                    ) by {
                        if k < last {
                            assert(prev[k] == ps[k]);
                        }
                    }
                }
            },
        }
    }
}

/// The tool gate's decision for a tool is made by the first policy that
/// governs it (enabled, naming the tool, every precondition holding): the
/// tool needs approval exactly when that policy's approval mode asks for
/// it. A tool that no policy governs is open and needs no approval; a policy
/// whose precondition fails never decides.
pub proof fn law_gate_decided_by_first_governing_policy(
    d: ToolGateDecision,
    tool: Seq<char>,
    ps: Seq<ToolExposurePolicy>,
    obs_names: Seq<Seq<char>>,
    guideline_names: Seq<Seq<char>>,
    journey_state: Option<Seq<char>>,
)
    requires
        is_gate_decision(d, tool, ps, obs_names, guideline_names, journey_state),
    ensures
        d.tool_name@ == tool,
        d.allowed,
        forall|j: int|
            0 <= j < ps.len() && #[trigger] policy_governs(ps[j], tool, obs_names, guideline_names, journey_state)
                && (forall|k: int|
                0 <= k < j ==> !policy_governs(#[trigger] ps[k], tool, obs_names, guideline_names, journey_state))
                ==> d.requires_approval == ps[j].approval_mode.needs_approval() && d.reason@ == gate_reason(ps[j]),
        (forall|k: int|
            0 <= k < ps.len() ==> !policy_governs(#[trigger] ps[k], tool, obs_names, guideline_names, journey_state))
            ==> !d.requires_approval && d.reason@ == "no policy (open by default)"@,
{
    lemma_first_gate_policy(ps, tool, obs_names, guideline_names, journey_state);
}

// ───────────────────────── Approval makes the reply strict ─────────────────────────

/// With no canned responses, a tool authorization that needs approval, at
/// any position, makes the reply strict.
pub proof fn law_approval_makes_reply_strict(k: KnowledgeBundle, auths: Seq<ToolAuthorization>, i: int)
    requires
        k.canned_response_candidates@.len() == 0,
        0 <= i < auths.len(),
        auths[i].requires_approval,
    ensures
        response_mode_spec(k, auths) == ResponseMode::Strict,
{
    assert(auths[i].requires_approval);
}

} // verus!
