//! Dashboard administration rules: the bootstrap tenant and administrator,
//! tenant deletion, boolean settings, and the per-company and per-creator
//! figures shown on the dashboard.
use vstd::prelude::*;
use crate::json::JsonValue;
use crate::observation::owned;
use crate::text::{opt_str_view, push_str, seq_contains, str_contains, str_eq};

verus! {

// ───────────────────────── Records ─────────────────────────

/// A company (tenant) of the dashboard. Times are RFC 3339 text.
#[derive(Clone, Debug)]
pub struct DashboardTenant {
    pub tenant_id: String,
    pub name: String,
    pub slug: String,
    pub im_provider: String,
    pub timezone: String,
    pub is_active: bool,
    pub created_at: String,
    pub default_message_limit: i32,
    pub default_message_period: String,
    pub default_max_agents: i32,
    pub default_agent_ttl_hours: i32,
    pub default_max_llm_calls_per_day: i32,
    pub min_heartbeat_interval_minutes: i32,
    pub default_max_triggers: i32,
    pub min_poll_interval_floor: i32,
    pub max_webhook_rate_ceiling: i32,
}

/// A dashboard user. Times are RFC 3339 text.
#[derive(Clone, Debug)]
pub struct DashboardUser {
    pub user_id: String,
    pub username: String,
    pub email: String,
    pub password_hash: String,
    pub display_name: String,
    pub role: String,
    pub tenant_id: Option<String>,
    pub is_active: bool,
    pub created_at: String,
    pub updated_at: String,
    pub quota_message_limit: i32,
    pub quota_message_period: String,
    pub quota_messages_used: i32,
    pub quota_max_agents: i32,
    pub quota_agent_ttl_hours: i32,
    pub source: String,
}

/// The dashboard figures of one company.
#[derive(Clone, Debug)]
pub struct DashboardCompanyStats {
    pub tenant: DashboardTenant,
    pub user_count: i64,
    pub agent_count: i64,
    pub agent_running_count: i64,
    pub total_tokens: i64,
}

/// Why a dashboard operation was refused.
#[derive(Clone, Debug)]
pub enum DashboardError {
    /// The request is not allowed (the message says why).
    InvalidInput(String),
    /// The stored data is not as expected (the message says what).
    Memory(String),
}

// ───────────────────────── Bootstrap ─────────────────────────

/// `t` is the default company with the given id and creation time.
pub open spec fn is_default_tenant(t: DashboardTenant, tenant_id: Seq<char>, created_at: Seq<char>) -> bool {
    &&& t.tenant_id@ == tenant_id
    &&& t.name@ == "Default Company"@
    &&& t.slug@ == "default"@
    &&& t.im_provider@ == "web_only"@
    &&& t.timezone@ == "UTC"@
    &&& t.is_active
    &&& t.created_at@ == created_at
    &&& t.default_message_limit == 50
    &&& t.default_message_period@ == "permanent"@
    &&& t.default_max_agents == 2
    &&& t.default_agent_ttl_hours == 48
    &&& t.default_max_llm_calls_per_day == 100
    &&& t.min_heartbeat_interval_minutes == 120
    &&& t.default_max_triggers == 20
    &&& t.min_poll_interval_floor == 5
    &&& t.max_webhook_rate_ceiling == 5
}

/// The default company, created when none with slug `default` exists.
pub fn default_tenant(tenant_id: String, created_at: String) -> (t: DashboardTenant)
    ensures
        is_default_tenant(t, tenant_id@, created_at@),
{
    DashboardTenant {
        tenant_id,
        name: owned("Default Company"),
        slug: owned("default"),
        im_provider: owned("web_only"),
        timezone: owned("UTC"),
        is_active: true,
        created_at,
        default_message_limit: 50,
        default_message_period: owned("permanent"),
        default_max_agents: 2,
        default_agent_ttl_hours: 48,
        default_max_llm_calls_per_day: 100,
        min_heartbeat_interval_minutes: 120,
        default_max_triggers: 20,
        min_poll_interval_floor: 5,
        max_webhook_rate_ceiling: 5,
    }
}

/// `u` is the bootstrap administrator made from `prior` (an existing user
/// with that name, if any) for the company `tenant` at time `now`: an
/// existing user keeps its record but gets the new password hash, the
/// `platform_admin` role, the company, and is active; a new user is created
/// with the company's default quotas.
pub open spec fn is_bootstrap_admin(
    u: DashboardUser,
    prior: Option<DashboardUser>,
    username: Seq<char>,
    password_hash: Seq<char>,
    tenant: DashboardTenant,
    user_id: Seq<char>,
    now: Seq<char>,
) -> bool {
    &&& u.password_hash@ == password_hash
    &&& u.role@ == "platform_admin"@
    &&& u.is_active
    &&& u.tenant_id matches Some(t) && t@ == tenant.tenant_id@
    &&& u.updated_at@ == now
    &&& match prior {
        Some(p) => {
            &&& u.user_id == p.user_id
            &&& u.username == p.username
            &&& u.email == p.email
            &&& u.display_name == p.display_name
            &&& u.created_at == p.created_at
            &&& u.quota_message_limit == p.quota_message_limit
            &&& u.quota_message_period == p.quota_message_period
            &&& u.quota_messages_used == p.quota_messages_used
            &&& u.quota_max_agents == p.quota_max_agents
            &&& u.quota_agent_ttl_hours == p.quota_agent_ttl_hours
            &&& u.source == p.source
        },
        None => {
            &&& u.user_id@ == user_id
            &&& u.username@ == username
            &&& u.email@ == username + "@local.openparlant"@
            &&& u.display_name@ == username
            &&& u.created_at@ == now
            &&& u.quota_message_limit == tenant.default_message_limit
            &&& u.quota_message_period@ == tenant.default_message_period@
            &&& u.quota_messages_used == 0
            &&& u.quota_max_agents == tenant.default_max_agents
            &&& u.quota_agent_ttl_hours == tenant.default_agent_ttl_hours
            &&& u.source@ == "bootstrap"@
        },
    }
}

/// The bootstrap administrator: promotes the existing user with the name,
/// or creates one (`user_id` is used only then).
pub fn bootstrap_admin(
    prior: Option<DashboardUser>,
    username: &str,
    password_hash: &str,
    tenant: &DashboardTenant,
    user_id: String,
    now: String,
) -> (u: DashboardUser)
    ensures
        is_bootstrap_admin(u, prior, username@, password_hash@, *tenant, user_id@, now@),
{
    match prior {
        Some(existing) => {
            let mut u = existing;
            u.password_hash = owned(password_hash);
            u.role = owned("platform_admin");
            u.is_active = true;
            u.tenant_id = Some(tenant.tenant_id.clone());
            u.updated_at = now;
            u
        },
        None => {
            let mut email = owned(username);
            push_str(&mut email, "@local.openparlant");
            DashboardUser {
                user_id,
                username: owned(username),
                email,
                password_hash: owned(password_hash),
                display_name: owned(username),
                role: owned("platform_admin"),
                tenant_id: Some(tenant.tenant_id.clone()),
                is_active: true,
                created_at: now.clone(),
                updated_at: now,
                quota_message_limit: tenant.default_message_limit,
                quota_message_period: tenant.default_message_period.clone(),
                quota_messages_used: 0,
                quota_max_agents: tenant.default_max_agents,
                quota_agent_ttl_hours: tenant.default_agent_ttl_hours,
                source: owned("bootstrap"),
            }
        },
    }
}

// ───────────────────────── User updates ─────────────────────────

/// The user after a profile change: each given field replaces the stored
/// one, and the update time is `now`.
pub open spec fn profile_updated(
    user: DashboardUser,
    username: Option<String>,
    display_name: Option<String>,
    now: String,
) -> DashboardUser {
    DashboardUser {
        username: match username {
            Some(n) => n,
            None => user.username,
        },
        display_name: match display_name {
            Some(d) => d,
            None => user.display_name,
        },
        updated_at: now,
        ..user
    }
}

/// Changes a user's name and display name (each where given).
pub fn update_user_profile(
    user: DashboardUser,
    username: Option<String>,
    display_name: Option<String>,
    now: String,
) -> (u: DashboardUser)
    ensures
        u == profile_updated(user, username, display_name, now),
{
    let mut u = user;
    if let Some(n) = username {
        u.username = n;
    }
    if let Some(d) = display_name {
        u.display_name = d;
    }
    u.updated_at = now;
    u
}

/// Replaces a user's password hash.
pub fn update_user_password(user: DashboardUser, password_hash: String, now: String) -> (u: DashboardUser)
    ensures
        u == (DashboardUser { password_hash, updated_at: now, ..user }),
{
    let mut u = user;
    u.password_hash = password_hash;
    u.updated_at = now;
    u
}

/// Replaces a user's quotas (the messages used so far are kept).
pub fn update_user_quota(
    user: DashboardUser,
    quota_message_limit: i32,
    quota_message_period: String,
    quota_max_agents: i32,
    quota_agent_ttl_hours: i32,
    now: String,
) -> (u: DashboardUser)
    ensures
        u == (DashboardUser {
            quota_message_limit,
            quota_message_period,
            quota_max_agents,
            quota_agent_ttl_hours,
            updated_at: now,
            ..user
        }),
{
    let mut u = user;
    u.quota_message_limit = quota_message_limit;
    u.quota_message_period = quota_message_period;
    u.quota_max_agents = quota_max_agents;
    u.quota_agent_ttl_hours = quota_agent_ttl_hours;
    u.updated_at = now;
    u
}

// ───────────────────────── Tenant deletion ─────────────────────────

/// What deleting a company does, given the company (if it exists) and the
/// default company (if it exists): nothing for an unknown company; the
/// default company cannot be deleted; otherwise its users move to the
/// default company, whose id is returned (an error when it is missing).
pub fn plan_tenant_deletion(target: Option<&DashboardTenant>, fallback: Option<&DashboardTenant>) -> (r: Result<
    Option<String>,
    DashboardError,
>)
    ensures
        match target {
            None => r matches Ok(None),
            Some(t) => if t.slug@ == "default"@ {
                r matches Err(DashboardError::InvalidInput(m)) && m@ == "default tenant cannot be deleted"@
            } else {
                match fallback {
                    None => r matches Err(DashboardError::Memory(m)) && m@ == "default tenant missing"@,
                    Some(f) => r matches Ok(Some(id)) && id@ == f.tenant_id@,
                }
            },
        },
{
    match target {
        None => Ok(None),
        Some(t) => {
            if str_eq(t.slug.as_str(), "default") {
                return Err(DashboardError::InvalidInput(owned("default tenant cannot be deleted")));
            }
            match fallback {
                None => Err(DashboardError::Memory(owned("default tenant missing"))),
                Some(f) => Ok(Some(f.tenant_id.clone())),
            }
        },
    }
}

// ───────────────────────── Boolean settings ─────────────────────────

/// A boolean setting: the `enabled` member of its stored JSON value when
/// that is a boolean; otherwise (no setting, unreadable value, no such
/// member) the default.
pub open spec fn bool_setting_spec(value: Option<JsonValue>, default: bool) -> bool {
    match value {
        Some(v) => match v.get_bool_spec("enabled"@) {
            Some(b) => b,
            None => default,
        },
        None => default,
    }
}

/// Reads a boolean setting from its parsed stored value.
pub fn read_bool_setting(value: Option<&JsonValue>, default: bool) -> (r: bool)
    ensures
        r == bool_setting_spec(match value {
            Some(v) => Some(*v),
            None => None,
        }, default),
{
    match value {
        Some(v) => match v.get_bool("enabled") {
            Some(b) => b,
            None => default,
        },
        None => default,
    }
}

/// The stored value of a boolean setting: `{"enabled": <value>}`.
pub open spec fn bool_setting_value_spec(v: JsonValue, enabled: bool) -> bool {
    v matches JsonValue::Object(m) && m@.len() == 1 && m@[0].0@ == "enabled"@ && m@[0].1 == JsonValue::Bool(enabled)
}

/// The value stored for a boolean setting.
pub fn bool_setting_value(enabled: bool) -> (v: JsonValue)
    ensures
        bool_setting_value_spec(v, enabled),
{
    let mut m: Vec<(String, JsonValue)> = Vec::new();
    m.push((owned("enabled"), JsonValue::Bool(enabled)));
    JsonValue::Object(m)
}

// ───────────────────────── Company and creator figures ─────────────────────────

/// What the figures read of a stored agent: its id, its state (as stored),
/// and the `tenant_id`, `control_scope_id` and `creator_user_id` texts of its
/// manifest metadata.
#[derive(Clone, Debug)]
pub struct AgentManifestRow {
    pub agent_id: String,
    pub state: String,
    pub metadata_tenant_id: Option<String>,
    pub metadata_scope_id: Option<String>,
    pub creator_user_id: Option<String>,
}

/// The company an agent belongs to: its metadata `tenant_id`, else its
/// `control_scope_id`.
pub open spec fn agent_tenant(a: AgentManifestRow) -> Option<Seq<char>> {
    match a.metadata_tenant_id {
        Some(t) => Some(t@),
        None => match a.metadata_scope_id {
            Some(s) => Some(s@),
            None => None,
        },
    }
}

/// The agent is running: its stored state mentions `running`.
pub open spec fn agent_running(a: AgentManifestRow) -> bool {
    seq_contains(a.state@, "running"@)
}

/// How many users belong to company `t`.
pub open spec fn users_in(users: Seq<Option<String>>, t: Seq<char>) -> nat
    decreases users.len(),
{
    if users.len() == 0 {
        0
    } else {
        users_in(users.drop_last(), t) + (if users.last() matches Some(u) && u@ == t { 1nat } else { 0nat })
    }
}

/// How many agents belong to company `t` (only running ones if `running_only`).
pub open spec fn agents_in(agents: Seq<AgentManifestRow>, t: Seq<char>, running_only: bool) -> nat
    decreases agents.len(),
{
    if agents.len() == 0 {
        0
    } else {
        let a = agents.last();
        agents_in(agents.drop_last(), t, running_only) + (if agent_tenant(a) == Some(t) && (!running_only
            || agent_running(a)) {
            1nat
        } else {
            0nat
        })
    }
}

/// The token total recorded for an agent: the last usage entry for it, or 0.
pub open spec fn usage_of(usage: Seq<(String, i64)>, agent_id: Seq<char>) -> int
    decreases usage.len(),
{
    if usage.len() == 0 {
        0
    } else if usage.last().0@ == agent_id {
        usage.last().1 as int
    } else {
        usage_of(usage.drop_last(), agent_id)
    }
}

/// The tokens used by the agents of company `t`.
pub open spec fn tokens_in(agents: Seq<AgentManifestRow>, usage: Seq<(String, i64)>, t: Seq<char>) -> int
    decreases agents.len(),
{
    if agents.len() == 0 {
        0
    } else {
        let a = agents.last();
        tokens_in(agents.drop_last(), usage, t) + (if agent_tenant(a) == Some(t) {
            usage_of(usage, a.agent_id@)
        } else {
            0
        })
    }
}

/// Every running total of a company's tokens, agent by agent, fits in 64 bits.
pub open spec fn token_totals_fit(agents: Seq<AgentManifestRow>, usage: Seq<(String, i64)>) -> bool {
    forall|t: Seq<char>, n: int|
        0 <= n <= agents.len() ==> i64::MIN <= #[trigger] tokens_in(agents.take(n), usage, t) <= i64::MAX
}

fn agent_tenant_is(a: &AgentManifestRow, t: &str) -> (r: bool)
    ensures
        r == (agent_tenant(*a) == Some(t@)),
{
    match &a.metadata_tenant_id {
        Some(x) => str_eq(x.as_str(), t),
        None => match &a.metadata_scope_id {
            Some(x) => str_eq(x.as_str(), t),
            None => false,
        },
    }
}

fn usage_lookup(usage: &Vec<(String, i64)>, agent_id: &str) -> (r: i64)
    ensures
        r as int == usage_of(usage@, agent_id@),
{
    let mut i: usize = usage.len();
    assert(usage@.take(i as int) =~= usage@);
    while i > 0
        invariant
            i <= usage.len(),
            usage_of(usage@, agent_id@) == usage_of(usage@.take(i as int), agent_id@),
        decreases i,
    {
        assert(usage@.take(i as int).drop_last() =~= usage@.take(i - 1));
        assert(usage@.take(i as int).last() == usage@[i - 1]);
        if str_eq(usage[i - 1].0.as_str(), agent_id) {
            return usage[i - 1].1;
        }
        i = i - 1;
    }
    0
}

/// The figures of one company.
fn company_figures(
    tenant_id: &str,
    users: &Vec<Option<String>>,
    agents: &Vec<AgentManifestRow>,
    usage: &Vec<(String, i64)>,
) -> (r: (i64, i64, i64, i64))
    requires
        users@.len() <= i64::MAX,
        agents@.len() <= i64::MAX,
        token_totals_fit(agents@, usage@),
    ensures
        r.0 as int == users_in(users@, tenant_id@),
        r.1 as int == agents_in(agents@, tenant_id@, false),
        r.2 as int == agents_in(agents@, tenant_id@, true),
        r.3 as int == tokens_in(agents@, usage@, tenant_id@),
{
    let mut user_count: i64 = 0;
    let mut i: usize = 0;
    while i < users.len()
        invariant
            i <= users@.len() <= i64::MAX,
            user_count as int == users_in(users@.take(i as int), tenant_id@),
            user_count <= i,
        decreases users.len() - i,
    {
        assert(users@.take(i + 1).drop_last() =~= users@.take(i as int));
        assert(users@.take(i + 1).last() == users@[i as int]);
        let belongs = match &users[i] {
            Some(t) => str_eq(t.as_str(), tenant_id),
            None => false,
        };
        if belongs {
            user_count = user_count + 1;
        }
        i = i + 1;
    }
    assert(users@.take(users@.len() as int) =~= users@);
    let mut agent_count: i64 = 0;
    let mut running: i64 = 0;
    let mut tokens: i64 = 0;
    let mut k: usize = 0;
    while k < agents.len()
        invariant
            k <= agents@.len() <= i64::MAX,
            token_totals_fit(agents@, usage@),
            agent_count as int == agents_in(agents@.take(k as int), tenant_id@, false),
            running as int == agents_in(agents@.take(k as int), tenant_id@, true),
            tokens as int == tokens_in(agents@.take(k as int), usage@, tenant_id@),
            agent_count <= k,
            running <= k,
        decreases agents.len() - k,
    {
        assert(agents@.take(k + 1).drop_last() =~= agents@.take(k as int));
        assert(agents@.take(k + 1).last() == agents@[k as int]);
        let a = &agents[k];
        if agent_tenant_is(a, tenant_id) {
            agent_count = agent_count + 1;
            if str_contains(a.state.as_str(), "running") {
                running = running + 1;
            }
            let used = usage_lookup(usage, a.agent_id.as_str());
            assert(i64::MIN <= tokens_in(agents@.take(k + 1), usage@, tenant_id@) <= i64::MAX);
            tokens = tokens + used;
        }
        k = k + 1;
    }
    assert(agents@.take(agents@.len() as int) =~= agents@);
    (user_count, agent_count, running, tokens)
}

/// `s` holds the figures of company `t`.
pub open spec fn is_company_stats(
    s: DashboardCompanyStats,
    t: DashboardTenant,
    users: Seq<Option<String>>,
    agents: Seq<AgentManifestRow>,
    usage: Seq<(String, i64)>,
) -> bool {
    &&& s.tenant == t
    &&& s.user_count as int == users_in(users, t.tenant_id@)
    &&& s.agent_count as int == agents_in(agents, t.tenant_id@, false)
    &&& s.agent_running_count as int == agents_in(agents, t.tenant_id@, true)
    &&& s.total_tokens as int == tokens_in(agents, usage, t.tenant_id@)
}

/// The figures of every company, in company order: its users (by the
/// users' company ids), its agents, its running agents, and the tokens its
/// agents used (`usage` gives each agent's token total).
pub fn company_stats(
    tenants: Vec<DashboardTenant>,
    users: &Vec<Option<String>>,
    agents: &Vec<AgentManifestRow>,
    usage: &Vec<(String, i64)>,
) -> (r: Vec<DashboardCompanyStats>)
    requires
        users@.len() <= i64::MAX,
        agents@.len() <= i64::MAX,
        token_totals_fit(agents@, usage@),
    ensures
        r@.len() == tenants@.len(),
        forall|i: int| 0 <= i < r@.len() ==> is_company_stats(#[trigger] r@[i], tenants@[i], users@, agents@, usage@),
{
    let mut out: Vec<DashboardCompanyStats> = Vec::new();
    let ghost all = tenants@;
    let n = tenants.len();
    let mut rest = tenants;
    let mut i: usize = 0;
    while rest.len() > 0
        invariant
            i + rest@.len() == all.len(),
            all.len() == n,
            rest@ == all.subrange(i as int, all.len() as int),
            out@.len() == i,
            users@.len() <= i64::MAX,
            agents@.len() <= i64::MAX,
            token_totals_fit(agents@, usage@),
            forall|k: int| 0 <= k < i ==> is_company_stats(#[trigger] out@[k], all[k], users@, agents@, usage@),
        decreases rest@.len(),
    {
        let t = rest.remove(0);
        assert(t == all[i as int]);
        assert(rest@ =~= all.subrange(i + 1, all.len() as int));
        let (user_count, agent_count, running, tokens) = company_figures(t.tenant_id.as_str(), users, agents, usage);
        out.push(
            DashboardCompanyStats {
                tenant: t,
                user_count,
                agent_count,
                agent_running_count: running,
                total_tokens: tokens,
            },
        );
        i = i + 1;
    }
    out
}

/// How many agents user `user` created, counting only the agents of
/// company `tenant` when one is given.
pub open spec fn created_by(agents: Seq<AgentManifestRow>, user: Seq<char>, tenant: Option<Seq<char>>) -> nat
    decreases agents.len(),
{
    if agents.len() == 0 {
        0
    } else {
        let a = agents.last();
        let in_tenant = match tenant {
            Some(t) => agent_tenant(a) == Some(t),
            None => true,
        };
        created_by(agents.drop_last(), user, tenant) + (if in_tenant && (a.creator_user_id matches Some(c) && c@
            == user) {
            1nat
        } else {
            0nat
        })
    }
}

/// How many agents each user created (in user order), restricted to the
/// agents of `tenant` when one is given.
pub fn agent_counts_by_creator(user_ids: &Vec<String>, agents: &Vec<AgentManifestRow>, tenant: Option<&str>) -> (r: Vec<
    i64,
>)
    requires
        agents@.len() <= i64::MAX,
    ensures
        r@.len() == user_ids@.len(),
        forall|i: int| 0 <= i < r@.len() ==> #[trigger] r@[i] as int == created_by(agents@, user_ids@[i]@, opt_str_view(tenant)),
{
    let mut out: Vec<i64> = Vec::new();
    let mut i: usize = 0;
    while i < user_ids.len()
        invariant
            i <= user_ids@.len(),
            agents@.len() <= i64::MAX,
            out@.len() == i,
            forall|m: int| 0 <= m < i ==> #[trigger] out@[m] as int == created_by(agents@, user_ids@[m]@, opt_str_view(tenant)),
        decreases user_ids.len() - i,
    {
        let user = user_ids[i].as_str();
        let mut count: i64 = 0;
        let mut k: usize = 0;
        while k < agents.len()
            invariant
                k <= agents@.len() <= i64::MAX,
                count <= k,
                count as int == created_by(agents@.take(k as int), user@, opt_str_view(tenant)),
            decreases agents.len() - k,
        {
            assert(agents@.take(k + 1).drop_last() =~= agents@.take(k as int));
            assert(agents@.take(k + 1).last() == agents@[k as int]);
            let a = &agents[k];
            let in_tenant = match tenant {
                Some(t) => agent_tenant_is(a, t),
                None => true,
            };
            let by_user = match &a.creator_user_id {
                Some(c) => str_eq(c.as_str(), user),
                None => false,
            };
            if in_tenant && by_user {
                count = count + 1;
            }
            k = k + 1;
        }
        assert(agents@.take(agents@.len() as int) =~= agents@);
        out.push(count);
        i = i + 1;
    }
    out
}

} // verus!
