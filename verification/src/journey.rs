//! Journeys: multi-turn conversational flows made of states and
//! transitions. This module decides which journey a message starts, what the
//! current state projects into the turn, and how a turn's outcome moves an
//! active journey along.
use vstd::prelude::*;
use crate::json::JsonValue;
use crate::matching::{all_terms_in, any_term_in, has_term, regex_compiles, regex_matches, regex_search, scan_terms};
use crate::observation::owned;
use crate::policy::{is_activation, GuidelineActivation};
use crate::text::{
    chars_of, chars_contains, decimal, lower, opt_str_view, opt_string_view, prefix, push_str, seq_contains, str_eq, take_chars,
    to_lower, usize_to_decimal,
};

verus! {

// ───────────────────────── Records ─────────────────────────

/// A journey definition.
#[derive(Debug)]
pub struct JourneyDefinition {
    pub journey_id: String,
    pub scope_id: String,
    pub name: String,
    pub trigger_config: JsonValue,
    pub completion_rule: Option<String>,
    pub entry_state_id: Option<String>,
    pub enabled: bool,
}

/// A state of a journey.
#[derive(Clone, Debug)]
pub struct JourneyStateRecord {
    pub state_id: String,
    pub name: String,
    pub description: Option<String>,
    /// Fields the conversation must collect while in this state.
    pub required_fields: Vec<String>,
    /// Guideline action texts projected into the turn while this state is current.
    pub guideline_actions: Vec<String>,
}

/// An outgoing transition of a state.
#[derive(Debug)]
pub struct TransitionRecord {
    pub transition_id: String,
    pub to_state_id: String,
    pub condition_config: JsonValue,
    pub transition_type: String,
}

/// A running journey instance bound to a session.
#[derive(Debug)]
pub struct ActiveJourneyInstanceRecord {
    pub journey_instance_id: String,
    pub scope_id: String,
    pub journey_id: String,
    pub current_state_id: String,
    pub state_payload: JsonValue,
}

/// A running journey instance of a scope.
#[derive(Debug)]
pub struct JourneyInstanceRecord {
    pub journey_instance_id: String,
    pub journey_id: String,
    pub current_state_id: String,
    pub state_payload: JsonValue,
}

/// The journey that is active for the turn.
#[derive(Clone, Debug)]
pub struct JourneyActivation {
    pub journey_id: String,
    pub name: String,
    pub current_state: String,
    pub missing_fields: Vec<String>,
    pub allowed_next_actions: Vec<String>,
}

/// Journey resolution for one turn.
#[derive(Clone, Debug)]
pub struct JourneyResolution {
    pub active_journey: Option<JourneyActivation>,
    /// Guidelines projected from the active journey state.
    pub projected_guidelines: Vec<GuidelineActivation>,
}

/// A journey state change emitted after a turn.
#[derive(Clone, Debug)]
pub struct JourneyUpdate {
    pub journey_instance_id: Option<String>,
    pub before_state: Option<String>,
    pub after_state: Option<String>,
    pub handoff_requested: bool,
    pub completed: bool,
}

/// A tool call made during a turn.
#[derive(Clone, Debug)]
pub struct ToolCallRecord {
    pub tool_name: String,
    pub result: Option<String>,
}

/// What happened in a turn.
#[derive(Clone, Debug)]
pub struct TurnOutcome {
    pub scope_id: String,
    pub session_id: String,
    pub trace_id: String,
    pub tool_calls: Vec<ToolCallRecord>,
    pub response_text: String,
    pub handoff_suggested: bool,
}

// ───────────────────────── Missing fields ─────────────────────────

/// A required field is missing when the payload has no such member or the
/// member is `null` (a payload that is not an object has no members).
pub open spec fn field_missing(payload: JsonValue, field: Seq<char>) -> bool {
    match payload.get_spec(field) {
        Some(v) => v is Null,
        None => true,
    }
}

/// The required fields that the payload does not yet hold, in order.
pub open spec fn missing_fields_spec(required: Seq<Seq<char>>, payload: JsonValue) -> Seq<Seq<char>>
    decreases required.len(),
{
    if required.len() == 0 {
        Seq::empty()
    } else {
        let prev = missing_fields_spec(required.drop_last(), payload);
        if field_missing(payload, required.last()) {
            prev.push(required.last())
        } else {
            prev
        }
    }
}

/// The required fields that `state_payload` does not yet hold.
pub fn compute_missing_fields(required_fields: &Vec<String>, state_payload: &JsonValue) -> (r: Vec<String>)
    ensures
        r.deep_view() == missing_fields_spec(required_fields.deep_view(), *state_payload),
{
    let mut out: Vec<String> = Vec::new();
    let mut i: usize = 0;
    while i < required_fields.len()
        invariant
            i <= required_fields.len(),
            out.deep_view() == missing_fields_spec(required_fields.deep_view().take(i as int), *state_payload),
        decreases required_fields.len() - i,
    {
        assert(required_fields.deep_view().take(i + 1).drop_last() =~= required_fields.deep_view().take(i as int));
        assert(required_fields.deep_view().take(i + 1).last() == required_fields@[i as int]@);
        let field = &required_fields[i];
        let missing = match state_payload.get(field.as_str()) {
            Some(v) => v.is_null(),
            None => true,
        };
        if missing {
            let ghost before = out.deep_view();
            out.push(field.clone());
            assert(out.deep_view() =~= before.push(field@));
        }
        i = i + 1;
    }
    assert(required_fields.deep_view().take(required_fields@.len() as int) =~= required_fields.deep_view());
    out
}

// ───────────────────────── Triggers ─────────────────────────

/// The regular expression a trigger carries: the `pattern` member when
/// present (if it is a string), otherwise the `regex` member.
pub open spec fn trigger_pattern(cfg: JsonValue) -> Option<Seq<char>> {
    match cfg.get_spec("pattern"@) {
        Some(JsonValue::Str(p)) => Some(p@),
        Some(_) => None,
        None => cfg.get_str_spec("regex"@),
    }
}

/// Whether a journey's trigger fires on a message. Rules, first applicable
/// wins: `always: true`; a `substring` (case-insensitive); a `contains` list
/// with a string term (any term); an `all` list with a string term (every
/// term); a `pattern` or `regex` (must compile and match the original
/// text); otherwise the trigger fires exactly when it is an empty object or
/// not an object at all.
pub open spec fn journey_triggered_spec(cfg: JsonValue, text: Seq<char>) -> bool {
    let tl = lower(text);
    if cfg.get_bool_spec("always"@) == Some(true) {
        true
    } else {
        match cfg.get_str_spec("substring"@) {
            Some(s) => seq_contains(tl, lower(s)),
            None => match cfg.get_array_spec("contains"@) {
                Some(terms) if has_term(terms) => any_term_in(terms, tl),
                _ => match cfg.get_array_spec("all"@) {
                    Some(terms) if has_term(terms) => all_terms_in(terms, tl),
                    _ => match trigger_pattern(cfg) {
                        Some(p) => regex_compiles(p) && regex_matches(p, text),
                        None => !cfg.is_object_spec() || cfg.is_empty_object_spec(),
                    },
                },
            },
        }
    }
}

/// Whether a journey's trigger configuration fires on the message text.
pub fn journey_triggered(trigger_config: &JsonValue, text: &str) -> (r: bool)
    ensures
        r == journey_triggered_spec(*trigger_config, text@),
{
    let text_lc = to_lower(text);
    let tl = chars_of(text_lc.as_str());
    match trigger_config.get_bool("always") {
        Some(true) => {
            return true;
        },
        _ => {},
    }
    if let Some(sub) = trigger_config.get_str("substring") {
        let sub_lc = to_lower(sub);
        let sub_chars = chars_of(sub_lc.as_str());
        return chars_contains(&tl, &sub_chars);
    }
    if let Some(arr) = trigger_config.get_array("contains") {
        let scan = scan_terms(arr, &tl);
        if scan.has_term {
            return scan.any;
        }
    }
    if let Some(arr) = trigger_config.get_array("all") {
        let scan = scan_terms(arr, &tl);
        if scan.has_term {
            return scan.all;
        }
    }
    let pattern: Option<&str> = match trigger_config.get("pattern") {
        Some(JsonValue::Str(p)) => Some(p.as_str()),
        Some(_) => None,
        None => trigger_config.get_str("regex"),
    };
    if let Some(p) = pattern {
        return match regex_search(p, text) {
            Some(b) => b,
            None => false,
        };
    }
    !trigger_config.is_object() || trigger_config.is_empty_object()
}

// ───────────────────────── Transitions ─────────────────────────

/// Some tool call in the list is named `name`.
pub open spec fn called_tool(calls: Seq<ToolCallRecord>, name: Seq<char>) -> bool {
    exists|k: int| 0 <= k < calls.len() && #[trigger] calls[k].tool_name@ == name
}

/// Whether a transition fires for a turn outcome. `complete` and `handoff`
/// transitions always fire; otherwise `always: true` fires, and so does a
/// condition of `type` `complete` (a completion transition); a `tool_called`
/// condition fires when that tool was called; a `response_contains`
/// condition fires when the response contains the text (case-insensitive);
/// an empty object fires; anything else does not.
pub open spec fn transition_fires_spec(cond: JsonValue, transition_type: Seq<char>, outcome: TurnOutcome) -> bool {
    if transition_type == "complete"@ || transition_type == "handoff"@ {
        true
    } else if cond.get_bool_spec("always"@) == Some(true) {
        true
    } else if cond.get_str_spec("type"@) == Some("complete"@) {
        true
    } else {
        match cond.get_str_spec("tool_called"@) {
            Some(tool) => called_tool(outcome.tool_calls@, tool),
            None => match cond.get_str_spec("response_contains"@) {
                Some(t) => seq_contains(lower(outcome.response_text@), lower(t)),
                None => cond.is_empty_object_spec(),
            },
        }
    }
}

/// Whether some tool call is named `name`.
fn tool_was_called(calls: &Vec<ToolCallRecord>, name: &str) -> (r: bool)
    ensures
        r == called_tool(calls@, name@),
{
    let mut i: usize = 0;
    while i < calls.len()
        invariant
            i <= calls.len(),
            forall|k: int| 0 <= k < i ==> calls@[k].tool_name@ != name@,
        decreases calls.len() - i,
    {
        if str_eq(calls[i].tool_name.as_str(), name) {
            assert(calls@[i as int].tool_name@ == name@);
            return true;
        }
        i = i + 1;
    }
    false
}

/// Whether a transition should fire given the turn outcome.
pub fn evaluate_transition_condition(condition_config: &JsonValue, transition_type: &str, outcome: &TurnOutcome) -> (r: bool)
    ensures
        r == transition_fires_spec(*condition_config, transition_type@, *outcome),
{
    if str_eq(transition_type, "complete") || str_eq(transition_type, "handoff") {
        return true;
    }
    match condition_config.get_bool("always") {
        Some(true) => {
            return true;
        },
        _ => {},
    }
    if let Some(ty) = condition_config.get_str("type") {
        if str_eq(ty, "complete") {
            return true;
        }
    }
    if let Some(tool) = condition_config.get_str("tool_called") {
        return tool_was_called(&outcome.tool_calls, tool);
    }
    if let Some(t) = condition_config.get_str("response_contains") {
        let resp = to_lower(outcome.response_text.as_str());
        let resp_chars = chars_of(resp.as_str());
        let t_lc = to_lower(t);
        let t_chars = chars_of(t_lc.as_str());
        return chars_contains(&resp_chars, &t_chars);
    }
    condition_config.is_empty_object()
}

// ───────────────────────── Projection ─────────────────────────

/// The text of the version-5 UUID (OID namespace) of the UTF-8 bytes of
/// `name`, in lowercase hyphenated form.
pub uninterp spec fn uuid_v5_oid_text(name: Seq<char>) -> Seq<char>;

/// `uuid::Uuid::new_v5(&Uuid::NAMESPACE_OID, name.as_bytes())`, formatted
/// with `Display`: the result is named `uuid_v5_oid_text` of the name, and is
/// the 36-character hyphenated form.
#[verifier::external_body]
fn uuid_v5_oid(name: &str) -> (r: String)
    ensures
        r@ == uuid_v5_oid_text(name@),
        r@.len() == 36,
{
    uuid::Uuid::new_v5(&uuid::Uuid::NAMESPACE_OID, name.as_bytes()).to_string()
}

/// The seed of a projected guideline's id: `journey:<journey>:state:<state>:<index>`.
pub open spec fn projection_seed(journey_id: Seq<char>, state_id: Seq<char>, index: nat) -> Seq<char> {
    "journey:"@ + journey_id + ":state:"@ + state_id + ":"@ + decimal(index)
}

/// The display name of a projected guideline: the journey and state names
/// and the first 40 characters of the action.
pub open spec fn projection_name(journey_name: Seq<char>, state_name: Seq<char>, action: Seq<char>) -> Seq<char> {
    "[journey:"@ + journey_name + ":state:"@ + state_name + "] "@ + prefix(action, 40)
}

/// `g` is the guideline projected from action `index` of a state.
pub open spec fn is_projection(
    g: GuidelineActivation,
    journey_id: Seq<char>,
    journey_name: Seq<char>,
    state_id: Seq<char>,
    state_name: Seq<char>,
    action: Seq<char>,
    index: nat,
) -> bool {
    &&& g.guideline_id@ == uuid_v5_oid_text(projection_seed(journey_id, state_id, index))
    &&& g.name@ == projection_name(journey_name, state_name, action)
    &&& g.action_text@ == action
    &&& g.composition_mode is None
    &&& g.priority == 50
    &&& g.source_observations@.len() == 0
}

/// `gs` are the guidelines projected from the actions, one per action, in order.
pub open spec fn projections_match(
    gs: Seq<GuidelineActivation>,
    journey_id: Seq<char>,
    journey_name: Seq<char>,
    state_id: Seq<char>,
    state_name: Seq<char>,
    actions: Seq<Seq<char>>,
) -> bool {
    &&& gs.len() == actions.len()
    &&& forall|i: int|
        0 <= i < gs.len() ==> is_projection(#[trigger] gs[i], journey_id, journey_name, state_id, state_name, actions[i], i as nat)
}

/// The guidelines that a journey state projects into the turn: one per
/// action text, each with a deterministic id derived from journey, state and
/// position, so that the same projection yields the same ids across turns.
pub fn project_guidelines(
    journey_id: &str,
    journey_name: &str,
    state_id: &str,
    state_name: &str,
    actions: &Vec<String>,
) -> (r: Vec<GuidelineActivation>)
    ensures
        projections_match(r@, journey_id@, journey_name@, state_id@, state_name@, actions.deep_view()),
{
    let mut out: Vec<GuidelineActivation> = Vec::new();
    let mut i: usize = 0;
    while i < actions.len()
        invariant
            i <= actions.len(),
            out@.len() == i,
            forall|k: int|
                0 <= k < i ==> is_projection(#[trigger] out@[k], journey_id@, journey_name@, state_id@, state_name@, actions.deep_view()[k], k as nat),
        decreases actions.len() - i,
    {
        let action = &actions[i];
        let mut seed = owned("journey:");
        push_str(&mut seed, journey_id);
        push_str(&mut seed, ":state:");
        push_str(&mut seed, state_id);
        push_str(&mut seed, ":");
        let idx = usize_to_decimal(i);
        push_str(&mut seed, idx.as_str());
        let mut name = owned("[journey:");
        push_str(&mut name, journey_name);
        push_str(&mut name, ":state:");
        push_str(&mut name, state_name);
        push_str(&mut name, "] ");
        let short = take_chars(action.as_str(), 40);
        push_str(&mut name, short.as_str());
        let id = uuid_v5_oid(seed.as_str());
        let g = GuidelineActivation {
            guideline_id: id,
            name,
            action_text: action.clone(),
            composition_mode: None,
            priority: 50,
            source_observations: Vec::new(),
        };
        assert(seed@ =~= projection_seed(journey_id@, state_id@, i as nat));
        assert(g.name@ =~= projection_name(journey_name@, state_name@, action@));
        out.push(g);
        i = i + 1;
    }
    out
}

/// The action text describing a transition: `<type> -> <target state>`.
pub open spec fn transition_action(t: TransitionRecord) -> Seq<char> {
    t.transition_type@ + " -> "@ + t.to_state_id@
}

/// The allowed next actions: one per outgoing transition, in order.
pub fn next_actions(transitions: &Vec<TransitionRecord>) -> (r: Vec<String>)
    ensures
        r@.len() == transitions@.len(),
        forall|i: int| 0 <= i < r@.len() ==> (#[trigger] r@[i])@ == transition_action(transitions@[i]),
{
    let mut out: Vec<String> = Vec::new();
    let mut i: usize = 0;
    while i < transitions.len()
        invariant
            i <= transitions.len(),
            out@.len() == i,
            forall|k: int| 0 <= k < i ==> (#[trigger] out@[k])@ == transition_action(transitions@[k]),
        decreases transitions.len() - i,
    {
        let t = &transitions[i];
        let mut s = t.transition_type.clone();
        push_str(&mut s, " -> ");
        push_str(&mut s, t.to_state_id.as_str());
        out.push(s);
        i = i + 1;
    }
    out
}

/// `act` describes the journey `journey` in state `state_name` with the
/// given missing fields and outgoing transitions.
pub open spec fn is_activation_of(
    act: JourneyActivation,
    journey_id: Seq<char>,
    journey_name: Seq<char>,
    state_name: Seq<char>,
    missing: Seq<Seq<char>>,
    transitions: Seq<TransitionRecord>,
) -> bool {
    &&& act.journey_id@ == journey_id
    &&& act.name@ == journey_name
    &&& act.current_state@ == state_name
    &&& act.missing_fields.deep_view() == missing
    &&& act.allowed_next_actions@.len() == transitions.len()
    &&& forall|i: int|
        0 <= i < transitions.len() ==> (#[trigger] act.allowed_next_actions@[i])@ == transition_action(transitions[i])
}

/// The resolution for a session whose journey instance is already running:
/// the instance's journey in its current state, with the required fields
/// its payload still lacks and the state's projected guidelines.
pub fn resolve_active_journey(
    journey: &JourneyDefinition,
    instance: &ActiveJourneyInstanceRecord,
    state: &JourneyStateRecord,
    transitions: &Vec<TransitionRecord>,
) -> (r: JourneyResolution)
    ensures
        r.active_journey matches Some(act) && is_activation_of(
            act,
            journey.journey_id@,
            journey.name@,
            state.name@,
            missing_fields_spec(state.required_fields.deep_view(), instance.state_payload),
            transitions@,
        ),
        projections_match(
            r.projected_guidelines@,
            journey.journey_id@,
            journey.name@,
            instance.current_state_id@,
            state.name@,
            state.guideline_actions.deep_view(),
        ),
{
    let projected = project_guidelines(
        journey.journey_id.as_str(),
        journey.name.as_str(),
        instance.current_state_id.as_str(),
        state.name.as_str(),
        &state.guideline_actions,
    );
    let act = JourneyActivation {
        journey_id: journey.journey_id.clone(),
        name: journey.name.clone(),
        current_state: state.name.clone(),
        missing_fields: compute_missing_fields(&state.required_fields, &instance.state_payload),
        allowed_next_actions: next_actions(transitions),
    };
    JourneyResolution { active_journey: Some(act), projected_guidelines: projected }
}

/// Copies a list of strings.
pub fn copy_strings(v: &Vec<String>) -> (r: Vec<String>)
    ensures
        r.deep_view() == v.deep_view(),
{
    let mut out: Vec<String> = Vec::new();
    let mut i: usize = 0;
    while i < v.len()
        invariant
            i <= v.len(),
            out.deep_view() == v.deep_view().take(i as int),
        decreases v.len() - i,
    {
        let ghost before = out.deep_view();
        out.push(v[i].clone());
        assert(out.deep_view() =~= before.push(v@[i as int]@));
        assert(v.deep_view().take(i + 1) =~= v.deep_view().take(i as int).push(v.deep_view()[i as int]));
        i = i + 1;
    }
    assert(v.deep_view().take(v@.len() as int) =~= v.deep_view());
    out
}

/// The resolution for a journey that the message has just started, in its
/// entry state: all of the state's required fields are missing.
pub fn resolve_new_journey(
    journey: &JourneyDefinition,
    initial_state: &JourneyStateRecord,
    transitions: &Vec<TransitionRecord>,
) -> (r: JourneyResolution)
    ensures
        r.active_journey matches Some(act) && is_activation_of(
            act,
            journey.journey_id@,
            journey.name@,
            initial_state.name@,
            initial_state.required_fields.deep_view(),
            transitions@,
        ),
        projections_match(
            r.projected_guidelines@,
            journey.journey_id@,
            journey.name@,
            initial_state.state_id@,
            initial_state.name@,
            initial_state.guideline_actions.deep_view(),
        ),
{
    let projected = project_guidelines(
        journey.journey_id.as_str(),
        journey.name.as_str(),
        initial_state.state_id.as_str(),
        initial_state.name.as_str(),
        &initial_state.guideline_actions,
    );
    let act = JourneyActivation {
        journey_id: journey.journey_id.clone(),
        name: journey.name.clone(),
        current_state: initial_state.name.clone(),
        missing_fields: copy_strings(&initial_state.required_fields),
        allowed_next_actions: next_actions(transitions),
    };
    JourneyResolution { active_journey: Some(act), projected_guidelines: projected }
}

/// The resolution when no journey is active or started.
pub fn empty_resolution() -> (r: JourneyResolution)
    ensures
        r.active_journey is None,
        r.projected_guidelines@.len() == 0,
{
    JourneyResolution { active_journey: None, projected_guidelines: Vec::new() }
}

/// Whether the journey is one the message may start: its trigger fires.
pub fn journey_may_start(journey: &JourneyDefinition, message_text: &str) -> (r: bool)
    ensures
        r == journey_triggered_spec(journey.trigger_config, message_text@),
{
    journey_triggered(&journey.trigger_config, message_text)
}

// ───────────────────────── Entry state ─────────────────────────

/// Some transition of the journey enters the state `state_id`.
pub open spec fn has_inbound(ts: Seq<TransitionRecord>, state_id: Seq<char>) -> bool {
    exists|k: int| 0 <= k < ts.len() && #[trigger] ts[k].to_state_id@ == state_id
}

/// How strongly a state is preferred as the journey's entry (lower is
/// stronger): the configured entry state comes first, and among the rest a
/// state that no transition enters (a root of the graph) comes before one
/// that some transition enters.
pub open spec fn entry_rank(entry: Option<Seq<char>>, s: JourneyStateRecord, ts: Seq<TransitionRecord>) -> int {
    (if entry == Some(s.state_id@) { 0int } else { 2int }) + (if has_inbound(ts, s.state_id@) { 1int } else { 0int })
}

/// Position `i` holds the entry state: the first of the states of
/// strongest preference.
pub open spec fn is_entry_choice(
    entry: Option<Seq<char>>,
    states: Seq<JourneyStateRecord>,
    ts: Seq<TransitionRecord>,
    i: int,
) -> bool {
    &&& 0 <= i < states.len()
    &&& forall|j: int| 0 <= j < states.len() ==> entry_rank(entry, states[i], ts) <= entry_rank(entry, #[trigger] states[j], ts)
    &&& forall|j: int| 0 <= j < i ==> entry_rank(entry, #[trigger] states[j], ts) > entry_rank(entry, states[i], ts)
}

/// Whether some transition enters `state_id`.
fn enters(transitions: &Vec<TransitionRecord>, state_id: &str) -> (r: bool)
    ensures
        r == has_inbound(transitions@, state_id@),
{
    let mut k: usize = 0;
    while k < transitions.len()
        invariant
            k <= transitions.len(),
            forall|m: int| 0 <= m < k ==> (#[trigger] transitions@[m]).to_state_id@ != state_id@,
        decreases transitions.len() - k,
    {
        if str_eq(transitions[k].to_state_id.as_str(), state_id) {
            assert(transitions@[k as int].to_state_id@ == state_id@);
            return true;
        }
        k = k + 1;
    }
    false
}

fn entry_rank_exec(entry_state_id: Option<&str>, state: &JourneyStateRecord, transitions: &Vec<TransitionRecord>) -> (r: u8)
    ensures
        r as int == entry_rank(opt_str_view(entry_state_id), *state, transitions@),
{
    let configured = match entry_state_id {
        Some(e) => str_eq(e, state.state_id.as_str()),
        None => false,
    };
    let base: u8 = if configured { 0 } else { 2 };
    if enters(transitions, state.state_id.as_str()) {
        base + 1
    } else {
        base
    }
}

/// The position of the journey's entry state among its states (given in
/// storage order) and the journey's transitions: the first state of
/// strongest preference (see `entry_rank`); `None` when the journey has no
/// states.
pub fn choose_entry_state(
    entry_state_id: Option<&str>,
    states: &Vec<JourneyStateRecord>,
    transitions: &Vec<TransitionRecord>,
) -> (r: Option<usize>)
    ensures
        r is None <==> states@.len() == 0,
        r matches Some(i) ==> is_entry_choice(opt_str_view(entry_state_id), states@, transitions@, i as int),
{
    if states.len() == 0 {
        return None;
    }
    let ghost e = opt_str_view(entry_state_id);
    let mut best: usize = 0;
    let mut best_rank = entry_rank_exec(entry_state_id, &states[0], transitions);
    let mut i: usize = 1;
    while i < states.len()
        invariant
            1 <= i <= states.len(),
            best < i,
            e == opt_str_view(entry_state_id),
            best_rank as int == entry_rank(e, states@[best as int], transitions@),
            forall|j: int| 0 <= j < i ==> best_rank as int <= entry_rank(e, #[trigger] states@[j], transitions@),
            forall|j: int| 0 <= j < best ==> entry_rank(e, #[trigger] states@[j], transitions@) > best_rank as int,
        decreases states.len() - i,
    {
        let rank = entry_rank_exec(entry_state_id, &states[i], transitions);
        if rank < best_rank {
            best = i;
            best_rank = rank;
        }
        i = i + 1;
    }
    Some(best)
}

// ───────────────────────── Starting a journey ─────────────────────────

/// The states loaded for journey `j` (none past the end of the list).
pub open spec fn states_at(states: Seq<Vec<JourneyStateRecord>>, j: int) -> Seq<JourneyStateRecord> {
    if 0 <= j < states.len() {
        states[j]@
    } else {
        Seq::empty()
    }
}

/// The transitions loaded for journey `j` (none past the end of the list).
pub open spec fn transitions_at(ts: Seq<Vec<TransitionRecord>>, j: int) -> Seq<TransitionRecord> {
    if 0 <= j < ts.len() {
        ts[j]@
    } else {
        Seq::empty()
    }
}

/// The message may start the journey, and the journey has a state to start in.
pub open spec fn journey_can_start(journey: JourneyDefinition, states: Seq<JourneyStateRecord>, text: Seq<char>) -> bool {
    journey_triggered_spec(journey.trigger_config, text) && states.len() > 0
}

/// Which journey a message starts, and in which state: the first journey
/// (in list order) whose trigger fires on `text` and that has states, with
/// the entry state that `choose_entry_state` picks among its states
/// (`states[j]`) and all its transitions (`transitions[j]`); `None` when no
/// journey can start.
pub fn pick_new_journey(
    journeys: &Vec<JourneyDefinition>,
    states: &Vec<Vec<JourneyStateRecord>>,
    transitions: &Vec<Vec<TransitionRecord>>,
    text: &str,
) -> (r: Option<(usize, usize)>)
    ensures
        r is None <==> forall|j: int|
            0 <= j < journeys@.len() ==> !journey_can_start(#[trigger] journeys@[j], states_at(states@, j), text@),
        r matches Some(p) ==> {
            let j = p.0 as int;
            &&& 0 <= j < journeys@.len()
            &&& journey_can_start(journeys@[j], states_at(states@, j), text@)
            &&& forall|k: int|
                0 <= k < j ==> !journey_can_start(#[trigger] journeys@[k], states_at(states@, k), text@)
            &&& is_entry_choice(
                opt_string_view(journeys@[j].entry_state_id),
                states_at(states@, j),
                transitions_at(transitions@, j),
                p.1 as int,
            )
        },
{
    let ghost empty_ts: Seq<TransitionRecord> = Seq::empty();
    let no_transitions: Vec<TransitionRecord> = Vec::new();
    let mut j: usize = 0;
    while j < journeys.len()
        invariant
            j <= journeys.len(),
            no_transitions@ == empty_ts,
            empty_ts.len() == 0,
            forall|k: int|
                0 <= k < j ==> !journey_can_start(#[trigger] journeys@[k], states_at(states@, k), text@),
        decreases journeys.len() - j,
    {
        if j < states.len() && states[j].len() > 0 && journey_may_start(&journeys[j], text) {
            let entry: Option<&str> = match &journeys[j].entry_state_id {
                Some(e) => Some(e.as_str()),
                None => None,
            };
            assert(opt_str_view(entry) == opt_string_view(journeys@[j as int].entry_state_id));
            let ts: &Vec<TransitionRecord> = if j < transitions.len() {
                &transitions[j]
            } else {
                &no_transitions
            };
            assert(ts@ == transitions_at(transitions@, j as int));
            match choose_entry_state(entry, &states[j], ts) {
                Some(s) => {
                    return Some((j, s));
                },
                None => {
                    assert(false);
                },
            }
        }
        j = j + 1;
    }
    None
}

// ───────────────────────── Applying a turn outcome ─────────────────────────

/// A change to store for a journey instance.
#[derive(Clone, Debug)]
pub enum InstanceChange {
    /// Set the instance's status (`awaiting_handoff` or `completed`).
    SetStatus { instance_id: String, status: String },
    /// Move the instance to another state.
    Advance { instance_id: String, state_id: String },
}

/// The first step of applying a turn outcome to a session's journeys.
#[derive(Clone, Debug)]
pub enum OutcomeStep {
    /// The session has no active journey: nothing changes.
    NoActiveJourney,
    /// Hand-off was suggested: the instance awaits hand-off.
    Handoff { change: InstanceChange, update: JourneyUpdate },
    /// Load the outgoing transitions of this journey state, then call
    /// `advance_on_outcome`.
    LoadTransitions { journey_id: String, state_id: String },
}

/// The first step of applying a turn's outcome, given the session's active
/// journey instances (most recent first): only the first instance is
/// considered. When hand-off was suggested it is marked `awaiting_handoff`
/// and the update reports a hand-off from its current state; otherwise the
/// transitions of its current state are needed.
pub fn outcome_first_step(instances: &Vec<ActiveJourneyInstanceRecord>, outcome: &TurnOutcome) -> (r: OutcomeStep)
    ensures
        instances@.len() == 0 ==> r is NoActiveJourney,
        instances@.len() > 0 && outcome.handoff_suggested ==> (r matches OutcomeStep::Handoff { change, update } && ({
            let inst = instances@[0];
            &&& change matches InstanceChange::SetStatus { instance_id, status } && instance_id@
                == inst.journey_instance_id@ && status@ == "awaiting_handoff"@
            &&& update.journey_instance_id matches Some(id) && id@ == inst.journey_instance_id@
            &&& update.before_state matches Some(s) && s@ == inst.current_state_id@
            &&& update.after_state is None
            &&& update.handoff_requested
            &&& !update.completed
        })),
        instances@.len() > 0 && !outcome.handoff_suggested ==> (r matches OutcomeStep::LoadTransitions { journey_id, state_id }
            && journey_id@ == instances@[0].journey_id@ && state_id@ == instances@[0].current_state_id@),
{
    if instances.len() == 0 {
        return OutcomeStep::NoActiveJourney;
    }
    let inst = &instances[0];
    if outcome.handoff_suggested {
        OutcomeStep::Handoff {
            change: InstanceChange::SetStatus {
                instance_id: inst.journey_instance_id.clone(),
                status: owned("awaiting_handoff"),
            },
            update: JourneyUpdate {
                journey_instance_id: Some(inst.journey_instance_id.clone()),
                before_state: Some(inst.current_state_id.clone()),
                after_state: None,
                handoff_requested: true,
                completed: false,
            },
        }
    } else {
        OutcomeStep::LoadTransitions {
            journey_id: inst.journey_id.clone(),
            state_id: inst.current_state_id.clone(),
        }
    }
}

/// The position of the first transition that fires.
pub open spec fn first_firing(ts: Seq<TransitionRecord>, outcome: TurnOutcome) -> Option<int>
    decreases ts.len(),
{
    if ts.len() == 0 {
        None
    } else {
        match first_firing(ts.drop_last(), outcome) {
            Some(i) => Some(i),
            None => if transition_fires_spec(ts.last().condition_config, ts.last().transition_type@, outcome) {
                Some(ts.len() - 1)
            } else {
                None
            },
        }
    }
}

proof fn lemma_first_firing_prefix(ts: Seq<TransitionRecord>, outcome: TurnOutcome, n: int)
    requires
        0 <= n <= ts.len(),
        first_firing(ts.take(n), outcome) is Some,
    ensures
        first_firing(ts, outcome) == first_firing(ts.take(n), outcome),
    decreases ts.len() - n,
{
    if n < ts.len() {
        assert(ts.take(n + 1).drop_last() =~= ts.take(n));
        lemma_first_firing_prefix(ts, outcome, n + 1);
    } else {
        assert(ts.take(n) =~= ts);
    }
}

/// `(change, update)` is what firing transition `t` does to instance `inst`:
/// a `complete` transition completes the instance, any other moves it to the
/// transition's target; the update reports the move.
pub open spec fn is_transition_effect(
    change: InstanceChange,
    update: JourneyUpdate,
    inst: ActiveJourneyInstanceRecord,
    t: TransitionRecord,
) -> bool {
    let complete = t.transition_type@ == "complete"@;
    &&& (complete ==> (change matches InstanceChange::SetStatus { instance_id, status } && instance_id@
        == inst.journey_instance_id@ && status@ == "completed"@))
    &&& (!complete ==> (change matches InstanceChange::Advance { instance_id, state_id } && instance_id@
        == inst.journey_instance_id@ && state_id@ == t.to_state_id@))
    &&& update.journey_instance_id matches Some(id) && id@ == inst.journey_instance_id@
    &&& update.before_state matches Some(s) && s@ == inst.current_state_id@
    &&& update.after_state matches Some(s) && s@ == t.to_state_id@
    &&& !update.handoff_requested
    &&& update.completed == complete
}

/// The second step of applying a turn outcome: the first outgoing
/// transition that fires moves the instance (or completes it); when none
/// fires nothing changes.
pub fn advance_on_outcome(
    instance: &ActiveJourneyInstanceRecord,
    transitions: &Vec<TransitionRecord>,
    outcome: &TurnOutcome,
) -> (r: Option<(InstanceChange, JourneyUpdate)>)
    ensures
        match first_firing(transitions@, *outcome) {
            None => r is None,
            Some(j) => 0 <= j < transitions@.len() && (r matches Some(cu) && is_transition_effect(
                cu.0,
                cu.1,
                *instance,
                transitions@[j],
            )),
        },
{
    let mut i: usize = 0;
    while i < transitions.len()
        invariant
            i <= transitions.len(),
            first_firing(transitions@.take(i as int), *outcome) is None,
        decreases transitions.len() - i,
    {
        assert(transitions@.take(i + 1).drop_last() =~= transitions@.take(i as int));
        assert(transitions@.take(i + 1).last() == transitions@[i as int]);
        let t = &transitions[i];
        if evaluate_transition_condition(&t.condition_config, t.transition_type.as_str(), outcome) {
            proof {
                lemma_first_firing_prefix(transitions@, *outcome, i as int + 1);
            }
            let complete = str_eq(t.transition_type.as_str(), "complete");
            let change = if complete {
                InstanceChange::SetStatus { instance_id: instance.journey_instance_id.clone(), status: owned("completed") }
            } else {
                InstanceChange::Advance { instance_id: instance.journey_instance_id.clone(), state_id: t.to_state_id.clone() }
            };
            let update = JourneyUpdate {
                journey_instance_id: Some(instance.journey_instance_id.clone()),
                before_state: Some(instance.current_state_id.clone()),
                after_state: Some(t.to_state_id.clone()),
                handoff_requested: false,
                completed: complete,
            };
            return Some((change, update));
        }
        i = i + 1;
    }
    assert(transitions@.take(transitions@.len() as int) =~= transitions@);
    None
}

/// A hand-off: the instance awaits hand-off and the update reports it,
/// with no state after it.
pub open spec fn is_handoff_effect(change: InstanceChange, update: JourneyUpdate, inst: ActiveJourneyInstanceRecord) -> bool {
    &&& change matches InstanceChange::SetStatus { instance_id, status } && instance_id@ == inst.journey_instance_id@
        && status@ == "awaiting_handoff"@
    &&& update.journey_instance_id matches Some(id) && id@ == inst.journey_instance_id@
    &&& update.before_state matches Some(s) && s@ == inst.current_state_id@
    &&& update.after_state is None
    &&& update.handoff_requested
    &&& !update.completed
}

/// What a turn outcome does to the session's journeys, in one step:
/// `instances` are the session's active instances (newest first) and
/// `transitions` the outgoing transitions of the first one's current state.
/// With no instance nothing changes; a suggested hand-off puts the first
/// instance on hand-off; otherwise the first transition that fires moves
/// (or completes) it, and when none fires nothing changes.
pub fn decide_outcome(
    instances: &Vec<ActiveJourneyInstanceRecord>,
    transitions: &Vec<TransitionRecord>,
    outcome: &TurnOutcome,
) -> (r: Option<(InstanceChange, JourneyUpdate)>)
    ensures
        instances@.len() == 0 ==> r is None,
        instances@.len() > 0 && outcome.handoff_suggested ==> (r matches Some(cu) && is_handoff_effect(
            cu.0,
            cu.1,
            instances@[0],
        )),
        instances@.len() > 0 && !outcome.handoff_suggested ==> match first_firing(transitions@, *outcome) {
            None => r is None,
            Some(j) => 0 <= j < transitions@.len() && (r matches Some(cu) && is_transition_effect(
                cu.0,
                cu.1,
                instances@[0],
                transitions@[j],
            )),
        },
{
    match outcome_first_step(instances, outcome) {
        OutcomeStep::NoActiveJourney => None,
        OutcomeStep::Handoff { change, update } => Some((change, update)),
        OutcomeStep::LoadTransitions { .. } => advance_on_outcome(&instances[0], transitions, outcome),
    }
}

/// Journey runtime that never activates or advances a journey.
pub struct NoopJourneyRuntime;

impl NoopJourneyRuntime {
    /// No journey is active.
    pub fn resolve_journey(&self, scope_id: &str, session_id: &str, message_text: &str) -> (r: JourneyResolution)
        ensures
            r.active_journey is None,
            r.projected_guidelines@.len() == 0,
    {
        empty_resolution()
    }

    /// No journey changes.
    pub fn apply_outcome(&self, scope_id: &str, outcome: &TurnOutcome) -> (r: Option<JourneyUpdate>)
        ensures
            r is None,
    {
        None
    }
}

} // verus!
