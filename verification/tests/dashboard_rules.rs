use openparlant::dashboard::{
    agent_counts_by_creator, bool_setting_value, bootstrap_admin, company_stats, default_tenant,
    plan_tenant_deletion, read_bool_setting, update_user_password, update_user_profile, update_user_quota,
    AgentManifestRow, DashboardError, DashboardUser,
};
use openparlant::json::JsonValue;
use openparlant::plaza::{plaza_stats, PlazaPostSummary};

fn agent(id: &str, state: &str, tenant: Option<&str>, scope: Option<&str>, creator: Option<&str>) -> AgentManifestRow {
    AgentManifestRow {
        agent_id: id.to_string(),
        state: state.to_string(),
        metadata_tenant_id: tenant.map(|s| s.to_string()),
        metadata_scope_id: scope.map(|s| s.to_string()),
        creator_user_id: creator.map(|s| s.to_string()),
    }
}

fn post(name: &str, kind: &str, comments: i32, today: bool) -> PlazaPostSummary {
    PlazaPostSummary { author_name: name.to_string(), author_type: kind.to_string(), comments_count: comments, posted_today: today }
}

#[test]
fn default_tenant_has_bootstrap_defaults() {
    let t = default_tenant("t-1".to_string(), "2024-01-01T00:00:00Z".to_string());
    assert_eq!(t.slug, "default");
    assert_eq!(t.name, "Default Company");
    assert_eq!(t.im_provider, "web_only");
    assert_eq!(t.timezone, "UTC");
    assert!(t.is_active);
    assert_eq!(t.default_message_limit, 50);
    assert_eq!(t.default_message_period, "permanent");
    assert_eq!(t.default_max_agents, 2);
    assert_eq!(t.default_agent_ttl_hours, 48);
    assert_eq!(t.default_max_llm_calls_per_day, 100);
    assert_eq!(t.min_heartbeat_interval_minutes, 120);
    assert_eq!(t.default_max_triggers, 20);
    assert_eq!(t.min_poll_interval_floor, 5);
    assert_eq!(t.max_webhook_rate_ceiling, 5);
}

#[test]
fn bootstrap_admin_creates_or_promotes() {
    let t = default_tenant("t-1".to_string(), "c".to_string());
    let fresh = bootstrap_admin(None, "root", "hash", &t, "u-1".to_string(), "now".to_string());
    assert_eq!(fresh.user_id, "u-1");
    assert_eq!(fresh.email, "root@local.openparlant");
    assert_eq!(fresh.role, "platform_admin");
    assert_eq!(fresh.tenant_id.as_deref(), Some("t-1"));
    assert_eq!(fresh.quota_message_limit, 50);
    assert_eq!(fresh.quota_max_agents, 2);
    assert_eq!(fresh.source, "bootstrap");
    let existing = DashboardUser {
        user_id: "u-9".to_string(),
        username: "root".to_string(),
        email: "boss@example.com".to_string(),
        password_hash: "old".to_string(),
        display_name: "Boss".to_string(),
        role: "member".to_string(),
        tenant_id: None,
        is_active: false,
        created_at: "long ago".to_string(),
        updated_at: "long ago".to_string(),
        quota_message_limit: 7,
        quota_message_period: "daily".to_string(),
        quota_messages_used: 3,
        quota_max_agents: 1,
        quota_agent_ttl_hours: 1,
        source: "invite".to_string(),
    };
    let promoted = bootstrap_admin(Some(existing), "root", "new", &t, "u-1".to_string(), "now".to_string());
    assert_eq!(promoted.user_id, "u-9");
    assert_eq!(promoted.email, "boss@example.com");
    assert_eq!(promoted.password_hash, "new");
    assert_eq!(promoted.role, "platform_admin");
    assert!(promoted.is_active);
    assert_eq!(promoted.tenant_id.as_deref(), Some("t-1"));
    assert_eq!(promoted.updated_at, "now");
    assert_eq!(promoted.created_at, "long ago");
    assert_eq!(promoted.quota_message_limit, 7);
}

#[test]
fn default_tenant_cannot_be_deleted() {
    let d = default_tenant("t-default".to_string(), "c".to_string());
    let mut other = default_tenant("t-other".to_string(), "c".to_string());
    other.slug = "acme".to_string();
    assert!(matches!(plan_tenant_deletion(None, Some(&d)), Ok(None)));
    match plan_tenant_deletion(Some(&d), Some(&d)) {
        Err(DashboardError::InvalidInput(m)) => assert_eq!(m, "default tenant cannot be deleted"),
        _ => panic!("refused"),
    }
    match plan_tenant_deletion(Some(&other), None) {
        Err(DashboardError::Memory(m)) => assert_eq!(m, "default tenant missing"),
        _ => panic!("error"),
    }
    assert!(matches!(plan_tenant_deletion(Some(&other), Some(&d)), Ok(Some(id)) if id == "t-default"));
}

#[test]
fn bool_settings_read_back() {
    assert!(read_bool_setting(Some(&bool_setting_value(true)), false));
    assert!(!read_bool_setting(Some(&bool_setting_value(false)), true));
    assert!(read_bool_setting(None, true));
    assert!(!read_bool_setting(Some(&JsonValue::Null), false));
    let wrong = JsonValue::Object(vec![("enabled".to_string(), JsonValue::Str("yes".to_string()))]);
    assert!(read_bool_setting(Some(&wrong), true));
}

#[test]
fn company_figures_count_users_agents_and_tokens() {
    let mut acme = default_tenant("acme".to_string(), "c".to_string());
    acme.slug = "acme".to_string();
    let globex = default_tenant("globex".to_string(), "c".to_string());
    let users = vec![Some("acme".to_string()), None, Some("acme".to_string()), Some("globex".to_string())];
    let agents = vec![
        agent("a1", "\"Running\"", Some("acme"), None, Some("u1")),
        agent("a2", "running", Some("acme"), Some("globex"), Some("u2")),
        agent("a3", "stopped", None, Some("acme"), Some("u1")),
        agent("a4", "running", None, None, Some("u1")),
    ];
    let usage = vec![("a1".to_string(), 10i64), ("a3".to_string(), 5i64), ("a1".to_string(), 7i64)];
    let stats = company_stats(vec![acme, globex], &users, &agents, &usage);
    assert_eq!(stats.len(), 2);
    assert_eq!(stats[0].tenant.tenant_id, "acme");
    assert_eq!(stats[0].user_count, 2);
    assert_eq!(stats[0].agent_count, 3);
    assert_eq!(stats[0].agent_running_count, 1);
    assert_eq!(stats[0].total_tokens, 12);
    assert_eq!(stats[1].user_count, 1);
    assert_eq!(stats[1].agent_count, 0);
    assert_eq!(stats[1].total_tokens, 0);
    let counts = agent_counts_by_creator(&vec!["u1".to_string(), "u2".to_string(), "u3".to_string()], &agents, None);
    assert_eq!(counts, vec![3, 1, 0]);
    let counts = agent_counts_by_creator(&vec!["u1".to_string()], &agents, Some("acme"));
    assert_eq!(counts, vec![2]);
}

#[test]
fn plaza_statistics() {
    let posts = vec![
        post("Ann", "user", 2, true),
        post("Bot", "agent", 0, false),
        post("Ann", "user", 1, false),
        post("Ann", "agent", 4, true),
        post("Cid", "user", 0, false),
        post("Bot", "agent", 1, false),
        post("Dee", "user", 0, false),
        post("Eve", "user", 0, false),
        post("Ann", "user", 0, false),
    ];
    let stats = plaza_stats(&posts);
    assert_eq!(stats.total_posts, 9);
    assert_eq!(stats.total_comments, 8);
    assert_eq!(stats.today_posts, 2);
    let top: Vec<(String, String, i64)> =
        stats.top_contributors.iter().map(|c| (c.name.clone(), c.author_type.clone(), c.posts)).collect();
    assert_eq!(top.len(), 5);
    assert_eq!(top[0], ("Ann".to_string(), "user".to_string(), 3));
    assert_eq!(top[1], ("Bot".to_string(), "agent".to_string(), 2));
    assert!(top[2..].iter().all(|c| c.2 == 1));
    let empty = plaza_stats(&Vec::new());
    assert_eq!(empty.total_posts, 0);
    assert!(empty.top_contributors.is_empty());
}

fn stored_user() -> DashboardUser {
    let t = default_tenant("t-1".to_string(), "2024-01-01T00:00:00Z".to_string());
    bootstrap_admin(None, "alice", "h1", &t, "u-1".to_string(), "2024-01-01T00:00:00Z".to_string())
}

#[test]
fn profile_update_changes_only_given_fields() {
    let u = update_user_profile(stored_user(), None, Some("Alice A.".to_string()), "2024-02-02T00:00:00Z".to_string());
    assert_eq!(u.username, "alice");
    assert_eq!(u.display_name, "Alice A.");
    assert_eq!(u.updated_at, "2024-02-02T00:00:00Z");
    assert_eq!(u.created_at, "2024-01-01T00:00:00Z");
    let u = update_user_profile(u, Some("al".to_string()), None, "2024-03-03T00:00:00Z".to_string());
    assert_eq!(u.username, "al");
    assert_eq!(u.display_name, "Alice A.");
}

#[test]
fn password_and_quota_updates_keep_the_rest() {
    let u = update_user_password(stored_user(), "h2".to_string(), "2024-02-02T00:00:00Z".to_string());
    assert_eq!(u.password_hash, "h2");
    assert_eq!(u.role, "platform_admin");
    let u = update_user_quota(u, 10, "daily".to_string(), 3, 12, "2024-03-03T00:00:00Z".to_string());
    assert_eq!(u.quota_message_limit, 10);
    assert_eq!(u.quota_message_period, "daily");
    assert_eq!(u.quota_max_agents, 3);
    assert_eq!(u.quota_agent_ttl_hours, 12);
    assert_eq!(u.quota_messages_used, 0);
    assert_eq!(u.password_hash, "h2");
    assert_eq!(u.updated_at, "2024-03-03T00:00:00Z");
}
