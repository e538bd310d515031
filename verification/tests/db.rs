use codex_reset_watch::db::{
    connection_settings, cursor_update_commits, notification_was_inserted, CleanupCounts,
};

#[test]
fn in_memory_databases_use_one_connection_without_wal() {
    let settings = connection_settings("sqlite::memory:");
    assert!(settings.in_memory);
    assert_eq!(settings.max_connections, 1);
    assert!(!settings.write_ahead_log);
    assert!(settings.foreign_keys);
    assert!(settings.create_if_missing);
    assert_eq!(settings.busy_timeout_secs, 5);
}

#[test]
fn file_databases_use_a_pool_with_wal() {
    let settings = connection_settings("sqlite://codex-reset-watch.db");
    assert!(!settings.in_memory);
    assert_eq!(settings.max_connections, 5);
    assert!(settings.write_ahead_log);
    assert!(settings.foreign_keys);
}

#[test]
fn row_counts_decide_commits_and_dedupe() {
    assert!(cursor_update_commits(1));
    assert!(!cursor_update_commits(0));
    assert!(!cursor_update_commits(2));
    assert!(notification_was_inserted(1));
    assert!(!notification_was_inserted(0));
}

#[test]
fn an_empty_cleanup_counts_nothing() {
    let counts = CleanupCounts::default();
    assert_eq!(counts.source_items + counts.pairing_codes + counts.evidence, 0);
    assert_eq!(counts, CleanupCounts { run_executions: 0, ..counts });
}
