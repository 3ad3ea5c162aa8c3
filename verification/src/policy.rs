//! Policy resolution: which guidelines are active for a turn, which are
//! excluded by the relationship graph, and which tools are authorized.
use vstd::prelude::*;
use crate::observation::{owned, ObservationHit};
use crate::text::{decimal, i64_to_decimal, opt_str_view, push_str, str_eq};

verus! {

/// A configured behavioural guideline.
#[derive(Clone, Debug)]
pub struct GuidelineDefinition {
    pub guideline_id: String,
    pub scope_id: String,
    pub name: String,
    /// The observation name that activates the guideline; empty or `always`
    /// for unconditional guidelines.
    pub condition_ref: String,
    pub action_text: String,
    pub composition_mode: String,
    pub priority: i32,
    pub enabled: bool,
}

/// A guideline that is active for the current turn.
#[derive(Clone, Debug)]
pub struct GuidelineActivation {
    pub guideline_id: String,
    pub name: String,
    pub action_text: String,
    pub composition_mode: Option<String>,
    pub priority: i32,
    /// The observations whose hits activated the guideline.
    pub source_observations: Vec<String>,
}

/// A guideline removed from the active set by a relationship rule.
#[derive(Clone, Debug)]
pub struct ExcludedGuideline {
    pub guideline_id: String,
    pub name: String,
    pub reason: String,
}

/// A directed relationship between two guidelines.
#[derive(Clone, Debug)]
pub struct GuidelineRelationship {
    pub relationship_id: String,
    pub from_guideline_id: String,
    pub to_guideline_id: String,
    /// `depends_on`, `excludes` or `prioritizes_over`; other kinds are ignored.
    pub relation_type: String,
}

/// The names of the observations that matched.
pub open spec fn hit_names(obs: Seq<ObservationHit>) -> Seq<Seq<char>>
    decreases obs.len(),
{
    if obs.len() == 0 {
        Seq::empty()
    } else {
        hit_names(obs.drop_last()).push(obs.last().name@)
    }
}

/// The ids of the observation hits named `name`, in order.
pub open spec fn source_ids(obs: Seq<ObservationHit>, name: Seq<char>) -> Seq<Seq<char>>
    decreases obs.len(),
{
    if obs.len() == 0 {
        Seq::empty()
    } else {
        let prev = source_ids(obs.drop_last(), name);
        if obs.last().name@ == name {
            prev.push(obs.last().observation_id@)
        } else {
            prev
        }
    }
}

/// `a` activates guideline `g` with the given source observation ids.
pub open spec fn is_activation(a: GuidelineActivation, g: GuidelineDefinition, sources: Seq<Seq<char>>) -> bool {
    &&& a.guideline_id@ == g.guideline_id@
    &&& a.name@ == g.name@
    &&& a.action_text@ == g.action_text@
    &&& a.composition_mode is None
    &&& a.priority == g.priority
    &&& a.source_observations.deep_view() == sources
}

/// A guideline is active when it is enabled and its condition is empty,
/// `always`, or the name of a matched observation.
pub open spec fn guideline_is_active(g: GuidelineDefinition, obs: Seq<ObservationHit>) -> bool {
    &&& g.enabled
    &&& (g.condition_ref@.len() == 0 || g.condition_ref@ == "always"@ || hit_names(obs).contains(
        g.condition_ref@,
    ))
}

/// The positions of the active guidelines, in definition order.
pub open spec fn active_positions(gs: Seq<GuidelineDefinition>, obs: Seq<ObservationHit>) -> Seq<int>
    decreases gs.len(),
{
    if gs.len() == 0 {
        Seq::empty()
    } else {
        let prev = active_positions(gs.drop_last(), obs);
        if guideline_is_active(gs.last(), obs) {
            prev.push(gs.len() - 1)
        } else {
            prev
        }
    }
}

/// `acts` activates, in order, the guidelines at `positions`, each with the
/// ids of the hits of its condition as sources.
pub open spec fn activations_match(
    acts: Seq<GuidelineActivation>,
    gs: Seq<GuidelineDefinition>,
    positions: Seq<int>,
    obs: Seq<ObservationHit>,
) -> bool {
    &&& acts.len() == positions.len()
    &&& forall|i: int|
        0 <= i < acts.len() ==> {
            let p = #[trigger] positions[i];
            &&& 0 <= p < gs.len()
            &&& is_activation(acts[i], gs[p], source_ids(obs, gs[p].condition_ref@))
        }
}

proof fn lemma_hit_names_contains(obs: Seq<ObservationHit>, name: Seq<char>, k: int)
    requires
        0 <= k < obs.len(),
        obs[k].name@ == name,
    ensures
        hit_names(obs).contains(name),
    decreases obs.len(),
{
    if k == obs.len() - 1 {
        assert(hit_names(obs)[hit_names(obs).len() - 1] == name);
    } else {
        lemma_hit_names_contains(obs.drop_last(), name, k);
        let prev = hit_names(obs.drop_last());
        let j = choose|j: int| 0 <= j < prev.len() && prev[j] == name;
        assert(hit_names(obs)[j] == name);
    }
}

proof fn lemma_hit_names_len(obs: Seq<ObservationHit>)
    ensures
        hit_names(obs).len() == obs.len(),
        forall|j: int| 0 <= j < obs.len() ==> #[trigger] hit_names(obs)[j] == obs[j].name@,
    decreases obs.len(),
{
    if obs.len() > 0 {
        lemma_hit_names_len(obs.drop_last());
    }
}

/// Whether some observation hit is named `name`.
pub fn has_hit_named(obs: &Vec<ObservationHit>, name: &str) -> (r: bool)
    ensures
        r == hit_names(obs@).contains(name@),
{
    proof {
        lemma_hit_names_len(obs@);
    }
    let mut i: usize = 0;
    while i < obs.len()
        invariant
            i <= obs.len(),
            hit_names(obs@).len() == obs@.len(),
            forall|j: int| 0 <= j < obs@.len() ==> #[trigger] hit_names(obs@)[j] == obs@[j].name@,
            forall|j: int| 0 <= j < i ==> obs@[j].name@ != name@,
        decreases obs.len() - i,
    {
        if str_eq(obs[i].name.as_str(), name) {
            proof {
                lemma_hit_names_contains(obs@, name@, i as int);
            }
            return true;
        }
        i = i + 1;
    }
    false
}

/// The ids of the observation hits named `name`.
pub fn collect_source_ids(obs: &Vec<ObservationHit>, name: &str) -> (r: Vec<String>)
    ensures
        r.deep_view() == source_ids(obs@, name@),
{
    let mut out: Vec<String> = Vec::new();
    let mut i: usize = 0;
    while i < obs.len()
        invariant
            i <= obs.len(),
            out.deep_view() == source_ids(obs@.take(i as int), name@),
        decreases obs.len() - i,
    {
        assert(obs@.take(i + 1).drop_last() =~= obs@.take(i as int));
        if str_eq(obs[i].name.as_str(), name) {
            let ghost before = out.deep_view();
            out.push(obs[i].observation_id.clone());
            assert(out.deep_view() =~= before.push(obs@[i as int].observation_id@));
        }
        i = i + 1;
    }
    assert(obs@.take(obs@.len() as int) =~= obs@);
    out
}

pub(crate) fn activation_from(g: &GuidelineDefinition, sources: Vec<String>) -> (a: GuidelineActivation)
    ensures
        is_activation(a, *g, sources.deep_view()),
{
    GuidelineActivation {
        guideline_id: g.guideline_id.clone(),
        name: g.name.clone(),
        action_text: g.action_text.clone(),
        composition_mode: None,
        priority: g.priority,
        source_observations: sources,
    }
}

/// The guidelines that are active before relationship rules are applied:
/// every enabled guideline whose condition is empty, `always`, or the name of
/// a matched observation, with the matching hits as sources.
pub fn activate_guidelines(guidelines: &Vec<GuidelineDefinition>, observations: &Vec<ObservationHit>) -> (r: Vec<
    GuidelineActivation,
>)
    ensures
        activations_match(r@, guidelines@, active_positions(guidelines@, observations@), observations@),
{
    let mut out: Vec<GuidelineActivation> = Vec::new();
    let mut i: usize = 0;
    while i < guidelines.len()
        invariant
            i <= guidelines.len(),
            activations_match(
                out@,
                guidelines@,
                active_positions(guidelines@.take(i as int), observations@),
                observations@,
            ),
            forall|k: int|
                0 <= k < active_positions(guidelines@.take(i as int), observations@).len()
                    ==> #[trigger] active_positions(guidelines@.take(i as int), observations@)[k]
                    < i,
        decreases guidelines.len() - i,
    {
        let ghost before = active_positions(guidelines@.take(i as int), observations@);
        assert(guidelines@.take(i + 1).drop_last() =~= guidelines@.take(i as int));
        assert(guidelines@.take(i + 1).last() == guidelines@[i as int]);
        let g = &guidelines[i];
        if g.enabled {
            let is_active = g.condition_ref.as_str().is_empty() || str_eq(
                g.condition_ref.as_str(),
                "always",
            ) || has_hit_named(observations, g.condition_ref.as_str());
            if is_active {
                let sources = collect_source_ids(observations, g.condition_ref.as_str());
                out.push(activation_from(g, sources));
            }
        }
        i = i + 1;
        proof {
            let now = active_positions(guidelines@.take(i as int), observations@);
            assert forall|k: int| 0 <= k < out@.len() implies {
                let p = #[trigger] now[k];
                &&& 0 <= p < guidelines@.len()
                &&& is_activation(out@[k], guidelines@[p], source_ids(observations@, guidelines@[p].condition_ref@))
            } by {
                if k < before.len() {
                    assert(now[k] == before[k]);
                }
            }
            assert forall|k: int| 0 <= k < now.len() implies #[trigger] now[k] < i by {
                if k < before.len() {
                    assert(now[k] == before[k]);
                }
            }
        }
    }
    assert(guidelines@.take(guidelines@.len() as int) =~= guidelines@);
    out
}


// ───────────────────────── Relationship graph ─────────────────────────

/// Some activation has the guideline id `id`.
pub open spec fn is_active_id(acts: Seq<GuidelineActivation>, id: Seq<char>) -> bool {
    exists|i: int| 0 <= i < acts.len() && #[trigger] acts[i].guideline_id@ == id
}

/// The priority of the last activation with id `id`.
pub open spec fn priority_of(acts: Seq<GuidelineActivation>, id: Seq<char>) -> i32
    decreases acts.len(),
{
    if acts.len() == 0 {
        0
    } else if acts.last().guideline_id@ == id {
        acts.last().priority
    } else {
        priority_of(acts.drop_last(), id)
    }
}

/// Decimal text of a signed integer.
pub open spec fn int_text(n: int) -> Seq<char> {
    if n < 0 {
        seq!['-'] + decimal((-n) as nat)
    } else {
        decimal(n as nat)
    }
}

/// The guideline that one relationship excludes from the active set `acts`,
/// with the reason, if any. All rules are read against the active set as it
/// was before any exclusion:
/// - `depends_on`: `from` is excluded when it is active and `to` is not;
/// - `excludes`: when both are active, the one with the lower priority is
///   excluded (`to` on a tie);
/// - `prioritizes_over`: when both are active, `to` is excluded.
pub open spec fn relationship_exclusion(r: GuidelineRelationship, acts: Seq<GuidelineActivation>) -> Option<
    (Seq<char>, Seq<char>),
> {
    let f = r.from_guideline_id@;
    let t = r.to_guideline_id@;
    let kind = r.relation_type@;
    if kind == "depends_on"@ {
        if is_active_id(acts, f) && !is_active_id(acts, t) {
            Some((f, "depends_on "@ + t + " which is not active"@))
        } else {
            None
        }
    } else if kind == "excludes"@ {
        if is_active_id(acts, f) && is_active_id(acts, t) {
            let fp = priority_of(acts, f) as int;
            let tp = priority_of(acts, t) as int;
            if fp >= tp {
                Some((t, "excluded by "@ + f + " (priority "@ + int_text(fp) + " >= "@ + int_text(tp) + ")"@))
            } else {
                Some((f, "excluded by "@ + t + " (priority "@ + int_text(tp) + " > "@ + int_text(fp) + ")"@))
            }
        } else {
            None
        }
    } else if kind == "prioritizes_over"@ {
        if is_active_id(acts, f) && is_active_id(acts, t) {
            Some((t, "prioritized_over by "@ + f))
        } else {
            None
        }
    } else {
        None
    }
}

/// The exclusions that the relationships produce, in relationship order.
pub open spec fn rel_exclusions(rels: Seq<GuidelineRelationship>, acts: Seq<GuidelineActivation>) -> Seq<
    (Seq<char>, Seq<char>),
>
    decreases rels.len(),
{
    if rels.len() == 0 {
        Seq::empty()
    } else {
        let prev = rel_exclusions(rels.drop_last(), acts);
        match relationship_exclusion(rels.last(), acts) {
            Some(e) => prev.push(e),
            None => prev,
        }
    }
}

/// The reason of the last exclusion of `id` in `list`.
pub open spec fn last_reason(list: Seq<(Seq<char>, Seq<char>)>, id: Seq<char>) -> Option<Seq<char>>
    decreases list.len(),
{
    if list.len() == 0 {
        None
    } else if list.last().0 == id {
        Some(list.last().1)
    } else {
        last_reason(list.drop_last(), id)
    }
}

/// Why the guideline `id` is excluded (the last relationship that excludes
/// it decides the reason), or `None` when it stays active.
pub open spec fn exclusion_reason(
    rels: Seq<GuidelineRelationship>,
    acts: Seq<GuidelineActivation>,
    id: Seq<char>,
) -> Option<Seq<char>> {
    last_reason(rel_exclusions(rels, acts), id)
}

/// The activations of `part` that no relationship excludes, in order.
pub open spec fn kept_guidelines(
    part: Seq<GuidelineActivation>,
    all: Seq<GuidelineActivation>,
    rels: Seq<GuidelineRelationship>,
) -> Seq<GuidelineActivation>
    decreases part.len(),
{
    if part.len() == 0 {
        Seq::empty()
    } else {
        let prev = kept_guidelines(part.drop_last(), all, rels);
        if exclusion_reason(rels, all, part.last().guideline_id@) is None {
            prev.push(part.last())
        } else {
            prev
        }
    }
}

/// The excluded activations of `part` as (id, name, reason), in order.
pub open spec fn excluded_entries(
    part: Seq<GuidelineActivation>,
    all: Seq<GuidelineActivation>,
    rels: Seq<GuidelineRelationship>,
) -> Seq<(Seq<char>, Seq<char>, Seq<char>)>
    decreases part.len(),
{
    if part.len() == 0 {
        Seq::empty()
    } else {
        let prev = excluded_entries(part.drop_last(), all, rels);
        let a = part.last();
        match exclusion_reason(rels, all, a.guideline_id@) {
            Some(reason) => prev.push((a.guideline_id@, a.name@, reason)),
            None => prev,
        }
    }
}

/// `ex` lists exactly the entries `spec`, in order.
pub open spec fn excluded_match(ex: Seq<ExcludedGuideline>, spec: Seq<(Seq<char>, Seq<char>, Seq<char>)>) -> bool {
    &&& ex.len() == spec.len()
    &&& forall|k: int|
        0 <= k < ex.len() ==> {
            &&& (#[trigger] ex[k]).guideline_id@ == spec[k].0
            &&& ex[k].name@ == spec[k].1
            &&& ex[k].reason@ == spec[k].2
        }
}

/// An exclusion decided by one relationship.
struct Exclusion {
    id: String,
    reason: String,
}

/// Whether some activation has the id `id`.
fn active_id(acts: &Vec<GuidelineActivation>, id: &str) -> (r: bool)
    ensures
        r == is_active_id(acts@, id@),
{
    let mut i: usize = 0;
    while i < acts.len()
        invariant
            i <= acts.len(),
            forall|k: int| 0 <= k < i ==> acts@[k].guideline_id@ != id@,
        decreases acts.len() - i,
    {
        if str_eq(acts[i].guideline_id.as_str(), id) {
            assert(acts@[i as int].guideline_id@ == id@);
            return true;
        }
        i = i + 1;
    }
    false
}

/// The priority of the last activation with id `id`.
fn active_priority(acts: &Vec<GuidelineActivation>, id: &str) -> (r: i32)
    ensures
        r == priority_of(acts@, id@),
{
    let mut j = acts.len();
    assert(acts@.take(j as int) =~= acts@);
    while j > 0
        invariant
            j <= acts.len(),
            priority_of(acts@, id@) == priority_of(acts@.take(j as int), id@),
        decreases j,
    {
        assert(acts@.take(j as int).drop_last() =~= acts@.take(j - 1));
        assert(acts@.take(j as int).last() == acts@[j - 1]);
        if str_eq(acts[j - 1].guideline_id.as_str(), id) {
            return acts[j - 1].priority;
        }
        j = j - 1;
    }
    0
}

/// Text of a signed 32-bit integer.
fn i32_text(n: i32) -> (s: String)
    ensures
        s@ == int_text(n as int),
{
    i64_to_decimal(n as i64)
}

/// The exclusion that one relationship produces.
fn exclusion_of(rel: &GuidelineRelationship, acts: &Vec<GuidelineActivation>) -> (r: Option<Exclusion>)
    ensures
        match relationship_exclusion(*rel, acts@) {
            None => r is None,
            Some(e) => r matches Some(x) && x.id@ == e.0 && x.reason@ == e.1,
        },
{
    let f = rel.from_guideline_id.as_str();
    let t = rel.to_guideline_id.as_str();
    let kind = rel.relation_type.as_str();
    if str_eq(kind, "depends_on") {
        if active_id(acts, f) && !active_id(acts, t) {
            let mut reason = owned("depends_on ");
            push_str(&mut reason, t);
            push_str(&mut reason, " which is not active");
            return Some(Exclusion { id: owned(f), reason });
        }
        None
    } else if str_eq(kind, "excludes") {
        if active_id(acts, f) && active_id(acts, t) {
            let fp = active_priority(acts, f);
            let tp = active_priority(acts, t);
            let fp_text = i32_text(fp);
            let tp_text = i32_text(tp);
            if fp >= tp {
                let mut reason = owned("excluded by ");
                push_str(&mut reason, f);
                push_str(&mut reason, " (priority ");
                push_str(&mut reason, fp_text.as_str());
                push_str(&mut reason, " >= ");
                push_str(&mut reason, tp_text.as_str());
                push_str(&mut reason, ")");
                return Some(Exclusion { id: owned(t), reason });
            } else {
                let mut reason = owned("excluded by ");
                push_str(&mut reason, t);
                push_str(&mut reason, " (priority ");
                push_str(&mut reason, tp_text.as_str());
                push_str(&mut reason, " > ");
                push_str(&mut reason, fp_text.as_str());
                push_str(&mut reason, ")");
                return Some(Exclusion { id: owned(f), reason });
            }
        }
        None
    } else if str_eq(kind, "prioritizes_over") {
        if active_id(acts, f) && active_id(acts, t) {
            let mut reason = owned("prioritized_over by ");
            push_str(&mut reason, f);
            return Some(Exclusion { id: owned(t), reason });
        }
        None
    } else {
        None
    }
}

/// `list` holds exactly the exclusions `spec`, in order.
spec fn exclusions_match(list: Seq<Exclusion>, spec: Seq<(Seq<char>, Seq<char>)>) -> bool {
    &&& list.len() == spec.len()
    &&& forall|k: int|
        0 <= k < list.len() ==> (#[trigger] list[k]).id@ == spec[k].0 && list[k].reason@ == spec[k].1
}

/// The exclusions of all relationships, in order.
fn collect_exclusions(rels: &Vec<GuidelineRelationship>, acts: &Vec<GuidelineActivation>) -> (r: Vec<Exclusion>)
    ensures
        exclusions_match(r@, rel_exclusions(rels@, acts@)),
{
    let mut out: Vec<Exclusion> = Vec::new();
    let mut i: usize = 0;
    while i < rels.len()
        invariant
            i <= rels.len(),
            exclusions_match(out@, rel_exclusions(rels@.take(i as int), acts@)),
        decreases rels.len() - i,
    {
        assert(rels@.take(i + 1).drop_last() =~= rels@.take(i as int));
        assert(rels@.take(i + 1).last() == rels@[i as int]);
        let ghost before = rel_exclusions(rels@.take(i as int), acts@);
        match exclusion_of(&rels[i], acts) {
            Some(x) => {
                out.push(x);
            },
            None => {},
        }
        i = i + 1;
        proof {
            let now = rel_exclusions(rels@.take(i as int), acts@);
            assert forall|k: int| 0 <= k < out@.len() implies (#[trigger] out@[k]).id@ == now[k].0
                && out@[k].reason@ == now[k].1 by {
                if k < before.len() {
                    assert(now[k] == before[k]);
                }
            }
        }
    }
    assert(rels@.take(rels@.len() as int) =~= rels@);
    out
}

/// The reason of the last exclusion of `id`.
fn find_reason(list: &Vec<Exclusion>, id: &str, Ghost(spec): Ghost<Seq<(Seq<char>, Seq<char>)>>) -> (r: Option<String>)
    requires
        exclusions_match(list@, spec),
    ensures
        match last_reason(spec, id@) {
            None => r is None,
            Some(reason) => r matches Some(s) && s@ == reason,
        },
{
    let mut j = list.len();
    assert(spec.take(list.len() as int) =~= spec);
    while j > 0
        invariant
            j <= list.len(),
            exclusions_match(list@, spec),
            last_reason(spec, id@) == last_reason(spec.take(j as int), id@),
        decreases j,
    {
        assert(spec.take(j as int).drop_last() =~= spec.take(j - 1));
        assert(spec.take(j as int).last() == spec[j - 1]);
        if str_eq(list[j - 1].id.as_str(), id) {
            return Some(list[j - 1].reason.clone());
        }
        j = j - 1;
    }
    None
}

/// Applies the relationship graph to the activations: returns the
/// activations that remain active and the excluded ones with their reasons,
/// both in activation order.
pub fn apply_relationships(acts: Vec<GuidelineActivation>, rels: &Vec<GuidelineRelationship>) -> (r: (
    Vec<GuidelineActivation>,
    Vec<ExcludedGuideline>,
))
    ensures
        r.0@ == kept_guidelines(acts@, acts@, rels@),
        excluded_match(r.1@, excluded_entries(acts@, acts@, rels@)),
{
    let decisions = collect_exclusions(rels, &acts);
    let ghost spec = rel_exclusions(rels@, acts@);
    let ghost all = acts@;
    let mut reasons: Vec<Option<String>> = Vec::new();
    let mut i: usize = 0;
    while i < acts.len()
        invariant
            i <= acts.len(),
            all == acts@,
            spec == rel_exclusions(rels@, acts@),
            exclusions_match(decisions@, spec),
            reasons@.len() == i,
            forall|k: int|
                0 <= k < i ==> match last_reason(spec, acts@[k].guideline_id@) {
                    None => (#[trigger] reasons@[k]) is None,
                    Some(reason) => reasons@[k] matches Some(s) && s@ == reason,
                },
        decreases acts.len() - i,
    {
        let reason = find_reason(&decisions, acts[i].guideline_id.as_str(), Ghost(spec));
        reasons.push(reason);
        i = i + 1;
    }
    let mut kept: Vec<GuidelineActivation> = Vec::new();
    let mut excluded: Vec<ExcludedGuideline> = Vec::new();
    let mut k: usize = 0;
    let mut rest = acts;
    while k < reasons.len()
        invariant
            k <= all.len(),
            rest@ == all.subrange(k as int, all.len() as int),
            reasons@.len() == all.len(),
            spec == rel_exclusions(rels@, all),
            forall|m: int|
                0 <= m < all.len() ==> match last_reason(spec, all[m].guideline_id@) {
                    None => (#[trigger] reasons@[m]) is None,
                    Some(reason) => reasons@[m] matches Some(s) && s@ == reason,
                },
            kept@ == kept_guidelines(all.take(k as int), all, rels@),
            excluded_match(excluded@, excluded_entries(all.take(k as int), all, rels@)),
        decreases all.len() - k,
    {
        let a = rest.remove(0);
        assert(a == all[k as int]);
        assert(rest@ =~= all.subrange(k + 1, all.len() as int));
        assert(all.take(k + 1).drop_last() =~= all.take(k as int));
        assert(all.take(k + 1).last() == all[k as int]);
        let ghost before = excluded_entries(all.take(k as int), all, rels@);
        match &reasons[k] {
            Some(reason) => {
                excluded.push(
                    ExcludedGuideline {
                        guideline_id: a.guideline_id.clone(),
                        name: a.name.clone(),
                        reason: reason.clone(),
                    },
                );
            },
            None => {
                kept.push(a);
            },
        }
        k = k + 1;
        proof {
            let now = excluded_entries(all.take(k as int), all, rels@);
            assert forall|m: int| 0 <= m < excluded@.len() implies {
                &&& (#[trigger] excluded@[m]).guideline_id@ == now[m].0
                &&& excluded@[m].name@ == now[m].1
                &&& excluded@[m].reason@ == now[m].2
            } by {
                if m < before.len() {
                    assert(now[m] == before[m]);
                }
            }
        }
    }
    assert(all.take(all.len() as int) =~= all);
    (kept, excluded)
}


// ───────────────────────── Tool authorization ─────────────────────────

/// How a tool call must be approved.
#[derive(Clone, Copy, Debug, PartialEq, Eq)]
pub enum ApprovalMode {
    /// No approval needed (the default).
    Auto,
    /// Every call needs approval.
    Required,
    /// Calls may need approval depending on context.
    Conditional,
}

impl ApprovalMode {
    /// The stored text of the mode.
    pub open spec fn text(self) -> Seq<char> {
        match self {
            ApprovalMode::Auto => "auto"@,
            ApprovalMode::Required => "required"@,
            ApprovalMode::Conditional => "conditional"@,
        }
    }

    /// The stored text of the mode.
    pub fn as_str(&self) -> (r: &'static str)
        ensures
            r@ == self.text(),
    {
        match self {
            ApprovalMode::Auto => "auto",
            ApprovalMode::Required => "required",
            ApprovalMode::Conditional => "conditional",
        }
    }

    /// The mode stored as `s`: `required` and `conditional` name their
    /// modes, any other text reads as `Auto`.
    pub open spec fn from_text(s: Seq<char>) -> ApprovalMode {
        if s == "required"@ {
            ApprovalMode::Required
        } else if s == "conditional"@ {
            ApprovalMode::Conditional
        } else {
            ApprovalMode::Auto
        }
    }

    /// Reads a stored mode; unknown text falls back to `Auto`.
    pub fn parse(s: &str) -> (r: ApprovalMode)
        ensures
            r == ApprovalMode::from_text(s@),
    {
        proof {
            reveal_strlit("required");
            reveal_strlit("conditional");
            assert("required"@.len() != "conditional"@.len());
        }
        if str_eq(s, "required") {
            ApprovalMode::Required
        } else if str_eq(s, "conditional") {
            ApprovalMode::Conditional
        } else {
            ApprovalMode::Auto
        }
    }

    /// Calls under this mode need approval.
    pub open spec fn needs_approval(self) -> bool {
        self is Required || self is Conditional
    }
}

/// A rule exposing a tool under preconditions.
#[derive(Clone, Debug)]
pub struct ToolExposurePolicy {
    pub policy_id: String,
    pub scope_id: String,
    pub tool_name: String,
    pub skill_ref: Option<String>,
    /// When set, the named observation must have matched.
    pub observation_ref: Option<String>,
    /// When set, the active journey must be in this state.
    pub journey_state_ref: Option<String>,
    /// When set, the named guideline must be active.
    pub guideline_ref: Option<String>,
    pub approval_mode: ApprovalMode,
    pub enabled: bool,
}

/// A tool authorized for the turn, with why.
#[derive(Clone, Debug)]
pub struct ToolAuthorization {
    pub tool_name: String,
    pub reasons: Vec<String>,
    pub requires_approval: bool,
}

/// The names of a list of activations.
pub open spec fn activation_names(acts: Seq<GuidelineActivation>) -> Seq<Seq<char>>
    decreases acts.len(),
{
    if acts.len() == 0 {
        Seq::empty()
    } else {
        activation_names(acts.drop_last()).push(acts.last().name@)
    }
}

/// The policy is enabled and all of its preconditions hold.
pub open spec fn policy_applies(
    p: ToolExposurePolicy,
    obs_names: Seq<Seq<char>>,
    guideline_names: Seq<Seq<char>>,
    journey_state: Option<Seq<char>>,
) -> bool {
    &&& p.enabled
    &&& match p.observation_ref {
        Some(r) => obs_names.contains(r@),
        None => true,
    }
    &&& match p.guideline_ref {
        Some(g) => guideline_names.contains(g@),
        None => true,
    }
    &&& match p.journey_state_ref {
        Some(js) => journey_state == Some(js@),
        None => true,
    }
}

/// The observation precondition as it appears in an authorization reason.
pub open spec fn observation_part(p: ToolExposurePolicy) -> Seq<char> {
    match p.observation_ref {
        Some(r) => " (observation:"@ + r@ + ")"@,
        None => Seq::empty(),
    }
}

/// The guideline precondition as it appears in an authorization reason.
pub open spec fn guideline_part(p: ToolExposurePolicy) -> Seq<char> {
    match p.guideline_ref {
        Some(g) => " (guideline:"@ + g@ + ")"@,
        None => Seq::empty(),
    }
}

/// The journey-state precondition as it appears in an authorization reason.
pub open spec fn journey_state_part(p: ToolExposurePolicy) -> Seq<char> {
    match p.journey_state_ref {
        Some(js) => " (journey_state:"@ + js@ + ")"@,
        None => Seq::empty(),
    }
}

/// The reason recorded for an authorization: the policy id followed by
/// each precondition it carries.
pub open spec fn authorization_reason(p: ToolExposurePolicy) -> Seq<char> {
    "policy:"@ + p.policy_id@ + observation_part(p) + guideline_part(p) + journey_state_part(p)
}

/// The positions of the policies that apply, in order.
pub open spec fn applying_policies(
    ps: Seq<ToolExposurePolicy>,
    obs_names: Seq<Seq<char>>,
    guideline_names: Seq<Seq<char>>,
    journey_state: Option<Seq<char>>,
) -> Seq<int>
    decreases ps.len(),
{
    if ps.len() == 0 {
        Seq::empty()
    } else {
        let prev = applying_policies(ps.drop_last(), obs_names, guideline_names, journey_state);
        if policy_applies(ps.last(), obs_names, guideline_names, journey_state) {
            prev.push(ps.len() - 1)
        } else {
            prev
        }
    }
}

/// `a` is the authorization that policy `p` grants.
pub open spec fn is_authorization(a: ToolAuthorization, p: ToolExposurePolicy) -> bool {
    &&& a.tool_name@ == p.tool_name@
    &&& a.reasons.deep_view() == seq![authorization_reason(p)]
    &&& a.requires_approval == p.approval_mode.needs_approval()
}

/// `auths` are, in order, the authorizations of the policies at `positions`.
pub open spec fn authorizations_match(
    auths: Seq<ToolAuthorization>,
    ps: Seq<ToolExposurePolicy>,
    positions: Seq<int>,
) -> bool {
    &&& auths.len() == positions.len()
    &&& forall|i: int|
        0 <= i < auths.len() ==> {
            let p = #[trigger] positions[i];
            &&& 0 <= p < ps.len()
            &&& is_authorization(auths[i], ps[p])
        }
}

/// Whether `name` is one of `names`.
pub fn contains_name(names: &Vec<String>, name: &str) -> (r: bool)
    ensures
        r == names.deep_view().contains(name@),
{
    let mut i: usize = 0;
    while i < names.len()
        invariant
            i <= names.len(),
            forall|j: int| 0 <= j < i ==> names.deep_view()[j] != name@,
        decreases names.len() - i,
    {
        if str_eq(names[i].as_str(), name) {
            assert(names.deep_view()[i as int] == name@);
            return true;
        }
        i = i + 1;
    }
    false
}

/// The names of a list of activations.
pub fn names_of(acts: &Vec<GuidelineActivation>) -> (r: Vec<String>)
    ensures
        r.deep_view() == activation_names(acts@),
{
    let mut out: Vec<String> = Vec::new();
    let mut i: usize = 0;
    while i < acts.len()
        invariant
            i <= acts.len(),
            out.deep_view() == activation_names(acts@.take(i as int)),
        decreases acts.len() - i,
    {
        assert(acts@.take(i + 1).drop_last() =~= acts@.take(i as int));
        let ghost before = out.deep_view();
        out.push(acts[i].name.clone());
        assert(out.deep_view() =~= before.push(acts@[i as int].name@));
        i = i + 1;
    }
    assert(acts@.take(acts@.len() as int) =~= acts@);
    out
}

/// Whether the optional journey state equals `expected`.
fn state_is(journey_state: Option<&str>, expected: &str) -> (r: bool)
    ensures
        r == (match journey_state {
            Some(s) => Some(s@),
            None => None,
        } == Some(expected@)),
{
    match journey_state {
        Some(s) => str_eq(s, expected),
        None => false,
    }
}

fn policy_applies_exec(
    p: &ToolExposurePolicy,
    observations: &Vec<ObservationHit>,
    guideline_names: &Vec<String>,
    journey_state: Option<&str>,
) -> (r: bool)
    ensures
        r == policy_applies(*p, hit_names(observations@), guideline_names.deep_view(), opt_str_view(journey_state)),
{
    if !p.enabled {
        return false;
    }
    if let Some(r) = &p.observation_ref {
        if !has_hit_named(observations, r.as_str()) {
            return false;
        }
    }
    if let Some(g) = &p.guideline_ref {
        if !contains_name(guideline_names, g.as_str()) {
            return false;
        }
    }
    if let Some(js) = &p.journey_state_ref {
        if !state_is(journey_state, js.as_str()) {
            return false;
        }
    }
    true
}

/// The reason text for an authorization granted by `p`.
fn authorization_reason_exec(p: &ToolExposurePolicy) -> (r: String)
    ensures
        r@ == authorization_reason(*p),
{
    let mut reason = owned("policy:");
    push_str(&mut reason, p.policy_id.as_str());
    let ghost base = reason@;
    if let Some(r) = &p.observation_ref {
        push_str(&mut reason, " (observation:");
        push_str(&mut reason, r.as_str());
        push_str(&mut reason, ")");
    }
    let ghost with_obs = reason@;
    if let Some(g) = &p.guideline_ref {
        push_str(&mut reason, " (guideline:");
        push_str(&mut reason, g.as_str());
        push_str(&mut reason, ")");
    }
    let ghost with_g = reason@;
    if let Some(js) = &p.journey_state_ref {
        push_str(&mut reason, " (journey_state:");
        push_str(&mut reason, js.as_str());
        push_str(&mut reason, ")");
    }
    proof {
        assert(with_obs =~= base + observation_part(*p));
        assert(with_g =~= base + observation_part(*p) + guideline_part(*p));
        assert(reason@ =~= base + observation_part(*p) + guideline_part(*p) + journey_state_part(*p));
    }
    reason
}

/// The tool authorizations for the turn: one per enabled policy whose
/// preconditions hold (its observation matched, its guideline is among the
/// `active` guidelines, its journey state is the current one), in policy order.
pub fn authorize_tools(
    policies: &Vec<ToolExposurePolicy>,
    observations: &Vec<ObservationHit>,
    active: &Vec<GuidelineActivation>,
    journey_state: Option<&str>,
) -> (r: Vec<ToolAuthorization>)
    ensures
        authorizations_match(
            r@,
            policies@,
            applying_policies(policies@, hit_names(observations@), activation_names(active@), opt_str_view(journey_state)),
        ),
{
    let names = names_of(active);
    let ghost on = hit_names(observations@);
    let ghost gn = activation_names(active@);
    let ghost js = opt_str_view(journey_state);
    let mut out: Vec<ToolAuthorization> = Vec::new();
    let mut i: usize = 0;
    while i < policies.len()
        invariant
            i <= policies.len(),
            on == hit_names(observations@),
            gn == activation_names(active@),
            js == opt_str_view(journey_state),
            names.deep_view() == gn,
            authorizations_match(out@, policies@, applying_policies(policies@.take(i as int), on, gn, js)),
            forall|k: int|
                0 <= k < applying_policies(policies@.take(i as int), on, gn, js).len()
                    ==> #[trigger] applying_policies(policies@.take(i as int), on, gn, js)[k] < i,
        decreases policies.len() - i,
    {
        let ghost before = applying_policies(policies@.take(i as int), on, gn, js);
        assert(policies@.take(i + 1).drop_last() =~= policies@.take(i as int));
        assert(policies@.take(i + 1).last() == policies@[i as int]);
        let p = &policies[i];
        if policy_applies_exec(p, observations, &names, journey_state) {
            let reason = authorization_reason_exec(p);
            let mut reasons: Vec<String> = Vec::new();
            reasons.push(reason);
            assert(reasons.deep_view() =~= seq![authorization_reason(*p)]);
            let needs = match p.approval_mode {
                ApprovalMode::Required => true,
                ApprovalMode::Conditional => true,
                ApprovalMode::Auto => false,
            };
            out.push(ToolAuthorization { tool_name: p.tool_name.clone(), reasons, requires_approval: needs });
        }
        i = i + 1;
        proof {
            let now = applying_policies(policies@.take(i as int), on, gn, js);
            assert forall|k: int| 0 <= k < out@.len() implies {
                let q = #[trigger] now[k];
                &&& 0 <= q < policies@.len()
                &&& is_authorization(out@[k], policies@[q])
            } by {
                if k < before.len() {
                    assert(now[k] == before[k]);
                }
            }
            assert forall|k: int| 0 <= k < now.len() implies #[trigger] now[k] < i by {
                if k < before.len() {
                    assert(now[k] == before[k]);
                }
            }
        }
    }
    assert(policies@.take(policies@.len() as int) =~= policies@);
    out
}

// ───────────────────────── Resolution ─────────────────────────

/// The outcome of policy resolution for one turn.
#[derive(Clone, Debug)]
pub struct PolicyResolution {
    pub active_guidelines: Vec<GuidelineActivation>,
    pub excluded_guidelines: Vec<ExcludedGuideline>,
    pub tool_authorizations: Vec<ToolAuthorization>,
}

/// `res` is the resolution obtained from the activations `acts`: the
/// relationship graph applied to them, and the tools authorized against the
/// guidelines that remain active.
pub open spec fn resolution_from(
    res: PolicyResolution,
    acts: Seq<GuidelineActivation>,
    obs: Seq<ObservationHit>,
    rels: Seq<GuidelineRelationship>,
    policies: Seq<ToolExposurePolicy>,
    journey_state: Option<Seq<char>>,
) -> bool {
    &&& res.active_guidelines@ == kept_guidelines(acts, acts, rels)
    &&& excluded_match(res.excluded_guidelines@, excluded_entries(acts, acts, rels))
    &&& authorizations_match(
        res.tool_authorizations@,
        policies,
        applying_policies(policies, hit_names(obs), activation_names(kept_guidelines(acts, acts, rels)), journey_state),
    )
}

/// Finishes a resolution from a set of activations: applies the relationship
/// graph, then authorizes tools against the remaining guidelines.
pub fn finish_resolution(
    acts: Vec<GuidelineActivation>,
    observations: &Vec<ObservationHit>,
    relationships: &Vec<GuidelineRelationship>,
    policies: &Vec<ToolExposurePolicy>,
    journey_state: Option<&str>,
) -> (r: PolicyResolution)
    ensures
        resolution_from(r, acts@, observations@, relationships@, policies@, opt_str_view(journey_state)),
{
    let (kept, excluded) = apply_relationships(acts, relationships);
    let auths = authorize_tools(policies, observations, &kept, journey_state);
    PolicyResolution { active_guidelines: kept, excluded_guidelines: excluded, tool_authorizations: auths }
}

/// Rule-based policy resolution: activates guidelines from the matched
/// observations, applies the relationship graph, and authorizes tools.
/// `guidelines`, `relationships` and `policies` are the scope's stored
/// definitions.
pub fn resolve_policy(
    guidelines: &Vec<GuidelineDefinition>,
    observations: &Vec<ObservationHit>,
    relationships: &Vec<GuidelineRelationship>,
    policies: &Vec<ToolExposurePolicy>,
    journey_state: Option<&str>,
) -> (r: PolicyResolution)
    ensures
        exists|acts: Seq<GuidelineActivation>|
            activations_match(acts, guidelines@, active_positions(guidelines@, observations@), observations@)
            && #[trigger] resolution_from(r, acts, observations@, relationships@, policies@, opt_str_view(journey_state)),
{
    let acts = activate_guidelines(guidelines, observations);
    let ghost a = acts@;
    let r = finish_resolution(acts, observations, relationships, policies, journey_state);
    assert(resolution_from(r, a, observations@, relationships@, policies@, opt_str_view(journey_state)));
    r
}

/// Policy resolver that resolves nothing.
pub struct NoopPolicyResolver;

impl NoopPolicyResolver {
    /// An empty resolution: no active or excluded guidelines, no tools.
    pub fn resolve_policy(&self, scope_id: &str, message_text: &str, observations: &Vec<ObservationHit>, journey_state: Option<&str>) -> (r: PolicyResolution)
        ensures
            r.active_guidelines@.len() == 0,
            r.excluded_guidelines@.len() == 0,
            r.tool_authorizations@.len() == 0,
    {
        PolicyResolution {
            active_guidelines: Vec::new(),
            excluded_guidelines: Vec::new(),
            tool_authorizations: Vec::new(),
        }
    }
}


// ───────────────────────── Tool gate ─────────────────────────

/// Whether a tool is visible this turn and whether calls need approval.
#[derive(Clone, Debug)]
pub struct ToolGateDecision {
    pub tool_name: String,
    pub allowed: bool,
    pub reason: String,
    pub requires_approval: bool,
}

/// Policy `p` governs `tool` this turn: it names the tool and applies.
pub open spec fn gate_applies(
    p: ToolExposurePolicy,
    tool: Seq<char>,
    obs_names: Seq<Seq<char>>,
    guideline_names: Seq<Seq<char>>,
    journey_state: Option<Seq<char>>,
) -> bool {
    p.tool_name@ == tool && policy_applies(p, obs_names, guideline_names, journey_state)
}

/// The position of the first policy that governs `tool`.
pub open spec fn first_gate_policy(
    ps: Seq<ToolExposurePolicy>,
    tool: Seq<char>,
    obs_names: Seq<Seq<char>>,
    guideline_names: Seq<Seq<char>>,
    journey_state: Option<Seq<char>>,
) -> Option<int>
    decreases ps.len(),
{
    if ps.len() == 0 {
        None
    } else {
        match first_gate_policy(ps.drop_last(), tool, obs_names, guideline_names, journey_state) {
            Some(i) => Some(i),
            None => if gate_applies(ps.last(), tool, obs_names, guideline_names, journey_state) {
                Some(ps.len() - 1)
            } else {
                None
            },
        }
    }
}

/// The reason given when policy `p` governs a tool.
pub open spec fn gate_reason(p: ToolExposurePolicy) -> Seq<char> {
    "policy '"@ + p.policy_id@ + "' (approval_mode="@ + p.approval_mode.text() + ")"@
}

/// `d` is the decision for `tool`: the first governing policy decides
/// whether approval is needed; a tool that no policy governs is open.
/// Every tool is allowed.
pub open spec fn is_gate_decision(
    d: ToolGateDecision,
    tool: Seq<char>,
    ps: Seq<ToolExposurePolicy>,
    obs_names: Seq<Seq<char>>,
    guideline_names: Seq<Seq<char>>,
    journey_state: Option<Seq<char>>,
) -> bool {
    &&& d.tool_name@ == tool
    &&& d.allowed
    &&& match first_gate_policy(ps, tool, obs_names, guideline_names, journey_state) {
        Some(j) => 0 <= j < ps.len() && d.reason@ == gate_reason(ps[j])
            && d.requires_approval == ps[j].approval_mode.needs_approval(),
        None => d.reason@ == "no policy (open by default)"@ && !d.requires_approval,
    }
}

fn gate_decision(
    tool: &String,
    policies: &Vec<ToolExposurePolicy>,
    observations: &Vec<ObservationHit>,
    guideline_names: &Vec<String>,
    journey_state: Option<&str>,
) -> (d: ToolGateDecision)
    ensures
        is_gate_decision(d, tool@, policies@, hit_names(observations@), guideline_names.deep_view(), opt_str_view(journey_state)),
{
    let ghost on = hit_names(observations@);
    let ghost gn = guideline_names.deep_view();
    let ghost js = opt_str_view(journey_state);
    let mut i: usize = 0;
    while i < policies.len()
        invariant
            i <= policies.len(),
            on == hit_names(observations@),
            gn == guideline_names.deep_view(),
            js == opt_str_view(journey_state),
            first_gate_policy(policies@.take(i as int), tool@, on, gn, js) is None,
        decreases policies.len() - i,
    {
        assert(policies@.take(i + 1).drop_last() =~= policies@.take(i as int));
        assert(policies@.take(i + 1).last() == policies@[i as int]);
        let p = &policies[i];
        if str_eq(p.tool_name.as_str(), tool.as_str()) && policy_applies_exec(p, observations, guideline_names, journey_state) {
            proof {
                lemma_first_gate_prefix(policies@, tool@, on, gn, js, i as int + 1);
            }
            let mut reason = owned("policy '");
            push_str(&mut reason, p.policy_id.as_str());
            push_str(&mut reason, "' (approval_mode=");
            push_str(&mut reason, p.approval_mode.as_str());
            push_str(&mut reason, ")");
            let needs = match p.approval_mode {
                ApprovalMode::Required => true,
                ApprovalMode::Conditional => true,
                ApprovalMode::Auto => false,
            };
            return ToolGateDecision { tool_name: tool.clone(), allowed: true, reason, requires_approval: needs };
        }
        i = i + 1;
    }
    assert(policies@.take(policies@.len() as int) =~= policies@);
    ToolGateDecision {
        tool_name: tool.clone(),
        allowed: true,
        reason: owned("no policy (open by default)"),
        requires_approval: false,
    }
}

/// Once a prefix of the policies has a governing policy, longer lists keep it.
proof fn lemma_first_gate_prefix(
    ps: Seq<ToolExposurePolicy>,
    tool: Seq<char>,
    on: Seq<Seq<char>>,
    gn: Seq<Seq<char>>,
    js: Option<Seq<char>>,
    n: int,
)
    requires
        0 <= n <= ps.len(),
        first_gate_policy(ps.take(n), tool, on, gn, js) is Some,
    ensures
        first_gate_policy(ps, tool, on, gn, js) == first_gate_policy(ps.take(n), tool, on, gn, js),
    decreases ps.len() - n,
{
    if n < ps.len() {
        assert(ps.take(n + 1).drop_last() =~= ps.take(n));
        lemma_first_gate_prefix(ps, tool, on, gn, js, n + 1);
    } else {
        assert(ps.take(n) =~= ps);
    }
}

/// Tool gate: one decision per candidate tool, in order. Each tool is
/// allowed; the first enabled policy for the tool whose preconditions hold
/// decides whether approval is required, and a tool without such a policy
/// is open by default.
pub fn gate_tools(
    policies: &Vec<ToolExposurePolicy>,
    candidate_tools: &Vec<String>,
    observations: &Vec<ObservationHit>,
    active_guideline_names: &Vec<String>,
    journey_state: Option<&str>,
) -> (r: Vec<ToolGateDecision>)
    ensures
        r@.len() == candidate_tools@.len(),
        forall|i: int|
            0 <= i < r@.len() ==> is_gate_decision(
                #[trigger] r@[i],
                candidate_tools@[i]@,
                policies@,
                hit_names(observations@),
                active_guideline_names.deep_view(),
                opt_str_view(journey_state),
            ),
{
    let mut out: Vec<ToolGateDecision> = Vec::new();
    let mut i: usize = 0;
    while i < candidate_tools.len()
        invariant
            i <= candidate_tools.len(),
            out@.len() == i,
            forall|k: int|
                0 <= k < i ==> is_gate_decision(
                    #[trigger] out@[k],
                    candidate_tools@[k]@,
                    policies@,
                    hit_names(observations@),
                    active_guideline_names.deep_view(),
                    opt_str_view(journey_state),
                ),
        decreases candidate_tools.len() - i,
    {
        let d = gate_decision(&candidate_tools[i], policies, observations, active_guideline_names, journey_state);
        out.push(d);
        i = i + 1;
    }
    out
}

/// Tool gate that allows every tool without approval.
pub struct NoopToolGate;

impl NoopToolGate {
    /// Every candidate is allowed, needs no approval, with reason `noop gate`.
    pub fn evaluate(
        &self,
        scope_id: &str,
        candidate_tools: &Vec<String>,
        observations: &Vec<ObservationHit>,
        active_guideline_names: &Vec<String>,
        journey_state: Option<&str>,
    ) -> (r: Vec<ToolGateDecision>)
        ensures
            r@.len() == candidate_tools@.len(),
            forall|i: int|
                0 <= i < r@.len() ==> {
                    &&& (#[trigger] r@[i]).tool_name@ == candidate_tools@[i]@
                    &&& r@[i].allowed
                    &&& r@[i].reason@ == "noop gate"@
                    &&& !r@[i].requires_approval
                },
    {
        let mut out: Vec<ToolGateDecision> = Vec::new();
        let mut i: usize = 0;
        while i < candidate_tools.len()
            invariant
                i <= candidate_tools.len(),
                out@.len() == i,
                forall|k: int|
                    0 <= k < i ==> {
                        &&& (#[trigger] out@[k]).tool_name@ == candidate_tools@[k]@
                        &&& out@[k].allowed
                        &&& out@[k].reason@ == "noop gate"@
                        &&& !out@[k].requires_approval
                    },
            decreases candidate_tools.len() - i,
        {
            out.push(
                ToolGateDecision {
                    tool_name: candidate_tools[i].clone(),
                    allowed: true,
                    reason: owned("noop gate"),
                    requires_approval: false,
                },
            );
            i = i + 1;
        }
        out
    }
}

} // verus!
