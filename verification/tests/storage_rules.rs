use openparlant::agents::{select_agent_rows, AgentRowKey};
use openparlant::embedding::{embedding_from_bytes, embedding_to_bytes};
use openparlant::migration::{pending_migrations, SCHEMA_VERSION};
use openparlant::queries::{
    fetch_limit, graph_query, invitation_queries, notification_query, recall_query, RecallFilter, SqlDialect, SqlParam,
};

fn texts(params: &[SqlParam]) -> Vec<String> {
    params
        .iter()
        .map(|p| match p {
            SqlParam::Text(s) => format!("T:{s}"),
            SqlParam::Integer(n) => format!("I:{n}"),
            SqlParam::MinConfidence => "C".to_string(),
        })
        .collect()
}

#[test]
fn migrations_run_in_order_once() {
    let all = pending_migrations(0);
    assert_eq!(all.len(), SCHEMA_VERSION as usize);
    assert_eq!(all[0], 1);
    assert_eq!(all[21], 22);
    assert_eq!(pending_migrations(20), vec![21, 22]);
    assert!(pending_migrations(SCHEMA_VERSION).is_empty());
    assert!(pending_migrations(99).is_empty());
}

#[test]
fn agent_names_are_claimed_once_without_regard_to_case() {
    let rows = vec![
        AgentRowKey { id: "not-a-uuid".to_string(), name: "Helper".to_string(), decodes: true },
        AgentRowKey { id: "6ba7b812-9dad-11d1-80b4-00c04fd430c8".to_string(), name: "HELPER".to_string(), decodes: true },
        AgentRowKey { id: "6ba7b811-9dad-11d1-80b4-00c04fd430c8".to_string(), name: "Writer".to_string(), decodes: true },
        AgentRowKey { id: "6ba7b810-9dad-11d1-80b4-00c04fd430c8".to_string(), name: "writer".to_string(), decodes: true },
        AgentRowKey { id: "6ba7b814-9dad-11d1-80b4-00c04fd430c8".to_string(), name: "Coder".to_string(), decodes: true },
    ];
    // The bad-UUID row still claims "helper", so the second Helper is skipped too.
    assert_eq!(select_agent_rows(&rows), vec![2, 4]);
    assert!(select_agent_rows(&Vec::new()).is_empty());
}

#[test]
fn undecodable_rows_are_skipped_but_keep_their_names() {
    let rows = vec![
        AgentRowKey { id: "6ba7b812-9dad-11d1-80b4-00c04fd430c8".to_string(), name: "Helper".to_string(), decodes: false },
        AgentRowKey { id: "6ba7b811-9dad-11d1-80b4-00c04fd430c8".to_string(), name: "helper".to_string(), decodes: true },
        AgentRowKey { id: "6ba7b810-9dad-11d1-80b4-00c04fd430c8".to_string(), name: "Coder".to_string(), decodes: true },
    ];
    assert_eq!(select_agent_rows(&rows), vec![2]);
}

#[test]
fn graph_query_binds_given_parts() {
    let q = graph_query(SqlDialect::Sqlite, Some("alice"), None, Some("acme"));
    assert!(q.sql.ends_with(" WHERE 1=1 AND (s.id = ?1 OR s.name = ?2) AND (t.id = ?3 OR t.name = ?4) LIMIT 100"));
    assert!(q.sql.starts_with("SELECT s.id, s.entity_type, s.name"));
    assert_eq!(texts(&q.params), vec!["T:alice", "T:alice", "T:acme", "T:acme"]);
    let q = graph_query(SqlDialect::Postgres, None, Some("\"works_at\""), None);
    assert!(q.sql.ends_with(" WHERE 1=1 AND r.relation_type = $1 LIMIT 100"));
    assert_eq!(texts(&q.params), vec!["T:\"works_at\""]);
    let q = graph_query(SqlDialect::Sqlite, None, None, None);
    assert!(q.sql.ends_with("WHERE 1=1 LIMIT 100"));
    assert!(q.params.is_empty());
}

#[test]
fn recall_query_text_filters_and_limit() {
    let filter = RecallFilter { agent_id: Some("agent-1".to_string()), scope: None, with_min_confidence: true, source: Some("\"conversation\"".to_string()) };
    let q = recall_query(SqlDialect::Sqlite, "Rust", false, &filter, 10);
    assert!(q.sql.ends_with(
        "FROM memories WHERE deleted = 0 AND content LIKE ?1 AND agent_id = ?2 AND confidence >= ?3 AND source = ?4 ORDER BY accessed_at DESC, access_count DESC LIMIT 10"
    ));
    assert_eq!(texts(&q.params), vec!["T:%Rust%", "T:agent-1", "C", "T:\"conversation\""]);
    let none = RecallFilter { agent_id: None, scope: Some("episodic".to_string()), with_min_confidence: false, source: None };
    let q = recall_query(SqlDialect::Postgres, "Rust", true, &none, 3);
    assert!(q.sql.ends_with("FROM memories WHERE deleted = FALSE AND scope = $1 ORDER BY accessed_at DESC, access_count DESC LIMIT 100"));
    assert_eq!(texts(&q.params), vec!["T:episodic"]);
    let q = recall_query(SqlDialect::Postgres, "Rust", false, &none, 3);
    assert!(q.sql.contains("AND content ILIKE $1 AND scope = $2"));
    let q = recall_query(SqlDialect::Sqlite, "", false, &none, 7);
    assert!(!q.sql.contains("LIKE"));
    assert!(q.sql.ends_with("LIMIT 7"));
    assert_eq!(fetch_limit(5, true), 100);
    assert_eq!(fetch_limit(50, true), 500);
    assert_eq!(fetch_limit(50, false), 50);
}

#[test]
fn invitation_queries_filter_and_count() {
    let (list, count) = invitation_queries(SqlDialect::Sqlite, Some("tenant-1"), Some("ABC"), 20, 40);
    assert!(list.sql.ends_with("FROM invitation_codes WHERE tenant_id = ?1 AND LOWER(code) LIKE ?2 ORDER BY created_at DESC LIMIT ?3 OFFSET ?4"));
    assert_eq!(texts(&list.params), vec!["T:tenant-1", "T:%abc%", "I:20", "I:40"]);
    assert_eq!(count.sql, "SELECT COUNT(*) FROM invitation_codes WHERE tenant_id = ?1 AND LOWER(code) LIKE ?2");
    assert_eq!(texts(&count.params), vec!["T:tenant-1", "T:%abc%"]);
    let (list, count) = invitation_queries(SqlDialect::Postgres, None, Some("x"), 5, 0);
    assert!(list.sql.ends_with("FROM invitation_codes WHERE LOWER(code) LIKE $1 ORDER BY created_at DESC LIMIT $2 OFFSET $3"));
    assert_eq!(count.sql, "SELECT COUNT(*) FROM invitation_codes WHERE LOWER(code) LIKE $1");
    let (list, count) = invitation_queries(SqlDialect::Sqlite, None, None, 5, 0);
    assert!(list.sql.ends_with("FROM invitation_codes ORDER BY created_at DESC LIMIT ?1 OFFSET ?2"));
    assert_eq!(count.sql, "SELECT COUNT(*) FROM invitation_codes");
    assert!(count.params.is_empty());
}

#[test]
fn notification_category_all_lists_everything() {
    let q = notification_query(SqlDialect::Sqlite, "user-1", Some("all"), 50);
    assert!(q.sql.ends_with("FROM notifications WHERE user_id = ?1 ORDER BY created_at DESC LIMIT ?2"));
    assert_eq!(texts(&q.params), vec!["T:user-1", "I:50"]);
    let q = notification_query(SqlDialect::Postgres, "user-1", Some("system"), 10);
    assert!(q.sql.ends_with("WHERE user_id = $1 AND category = $2 ORDER BY created_at DESC LIMIT $3"));
    assert_eq!(texts(&q.params), vec!["T:user-1", "T:system", "I:10"]);
    let q = notification_query(SqlDialect::Sqlite, "u", None, 1);
    assert_eq!(texts(&q.params), vec!["T:u", "I:1"]);
}

#[test]
fn embeddings_round_trip_little_endian() {
    let words = vec![1.0f32.to_bits(), (-2.5f32).to_bits(), 0];
    let bytes = embedding_to_bytes(&words);
    assert_eq!(&bytes[0..4], &[0u8, 0, 128, 63]);
    assert_eq!(bytes.len(), 12);
    assert_eq!(embedding_from_bytes(&bytes), words);
    let mut odd = bytes.clone();
    odd.push(7);
    assert_eq!(embedding_from_bytes(&odd), words);
    assert_eq!(f32::from_bits(embedding_from_bytes(&bytes)[1]), -2.5f32);
}
