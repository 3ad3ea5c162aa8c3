use openparlant::releases::{current_release_version, publish_release, rollback_release, ReleaseRecord, ReleaseStatus};

fn statuses(log: &[ReleaseRecord]) -> Vec<&str> {
    log.iter().map(|r| r.status.as_str()).collect()
}

#[test]
fn publishing_supersedes_the_published_release() {
    let log = publish_release(Vec::new(), "r1".to_string(), "v1".to_string());
    assert_eq!(current_release_version(&log).as_deref(), Some("v1"));
    let log = publish_release(log, "r2".to_string(), "v2".to_string());
    assert_eq!(statuses(&log), vec!["superseded", "published"]);
    assert_eq!(current_release_version(&log).as_deref(), Some("v2"));
}

#[test]
fn rollback_restores_the_previous_release() {
    let log = publish_release(Vec::new(), "r1".to_string(), "v1".to_string());
    let log = publish_release(log, "r2".to_string(), "v2".to_string());
    let log = publish_release(log, "r3".to_string(), "v3".to_string());
    let (log, rolled) = rollback_release(log);
    assert_eq!(rolled.as_deref(), Some("r3"));
    assert_eq!(statuses(&log), vec!["superseded", "published", "rolled_back"]);
    assert_eq!(current_release_version(&log).as_deref(), Some("v2"));
    let (log, rolled) = rollback_release(log);
    assert_eq!(rolled.as_deref(), Some("r2"));
    assert_eq!(current_release_version(&log).as_deref(), Some("v1"));
    let (log, rolled) = rollback_release(log);
    assert_eq!(rolled.as_deref(), Some("r1"));
    assert_eq!(current_release_version(&log), None);
    let (log, rolled) = rollback_release(log);
    assert!(rolled.is_none());
    assert_eq!(statuses(&log), vec!["rolled_back", "rolled_back", "rolled_back"]);
}

#[test]
fn rollback_after_publish_restores_current_version() {
    let log = publish_release(Vec::new(), "r1".to_string(), "v1".to_string());
    let log = publish_release(log, "r2".to_string(), "v2".to_string());
    let before = current_release_version(&log);
    let (log, _) = rollback_release(publish_release(log, "r3".to_string(), "v3".to_string()));
    assert_eq!(current_release_version(&log), before);
}

#[test]
fn unknown_statuses_are_kept() {
    let log = vec![ReleaseRecord { release_id: "r0".to_string(), version: "v0".to_string(), status: ReleaseStatus::parse("draft") }];
    let log = publish_release(log, "r1".to_string(), "v1".to_string());
    assert_eq!(statuses(&log), vec!["draft", "published"]);
    assert!(matches!(ReleaseStatus::parse("published"), ReleaseStatus::Published));
}
