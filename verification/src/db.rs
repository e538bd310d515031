//! The storage decisions: how the pool connects to SQLite, when a source
//! cursor advance commits, when a notification counts as inserted, and what a
//! retention cleanup reports.

use vstd::prelude::*;

use crate::text::{contains, contains_text};

verus! {

/// How the connection pool opens a database.
#[derive(Clone, Copy, Debug, PartialEq, Eq, Structural)]
pub struct ConnectionSettings {
    /// Whether the database lives in memory only.
    pub in_memory: bool,
    /// Whether a missing database file is created.
    pub create_if_missing: bool,
    /// Whether foreign keys are enforced.
    pub foreign_keys: bool,
    /// How long a connection waits for a lock, in seconds.
    pub busy_timeout_secs: u64,
    /// Whether the write-ahead log is used.
    pub write_ahead_log: bool,
    /// The size of the pool.
    pub max_connections: u32,
}

/// How the pool opens the database at `database_url`: an in-memory database
/// (one whose URL mentions `:memory:`) gets one connection and no
/// write-ahead log, any other five connections and the write-ahead log; all
/// create missing files, enforce foreign keys and wait five seconds for
/// locks.
pub fn connection_settings(database_url: &str) -> (r: ConnectionSettings)
    ensures
        r.in_memory == contains_text(database_url@, ":memory:"@),
        r.create_if_missing,
        r.foreign_keys,
        r.busy_timeout_secs == 5,
        r.write_ahead_log == !r.in_memory,
        r.max_connections == (if r.in_memory {
            1u32
        } else {
            5u32
        }),
{
    let in_memory = contains(database_url, ":memory:");
    ConnectionSettings {
        in_memory,
        create_if_missing: true,
        foreign_keys: true,
        busy_timeout_secs: 5,
        write_ahead_log: !in_memory,
        max_connections: if in_memory {
            1
        } else {
            5
        },
    }
}

/// Whether a source item and its cursor advance may commit, given how many
/// cursor rows the update touched: only when it touched exactly one, since
/// the source's cursor row must already exist.
pub fn cursor_update_commits(rows_affected: u64) -> (r: bool)
    ensures
        r == (rows_affected == 1),
{
    rows_affected == 1
}

/// Whether an insert of a notification added a record, given how many rows
/// it touched; an insert whose dedupe key already exists touches none.
pub fn notification_was_inserted(rows_affected: u64) -> (r: bool)
    ensures
        r == (rows_affected == 1),
{
    rows_affected == 1
}

/// How many records a retention cleanup removed from each table.
#[derive(Clone, Copy, Debug, PartialEq, Eq, Structural)]
pub struct CleanupCounts {
    pub source_items: u64,
    pub forecast_observations: u64,
    pub evidence: u64,
    pub classification_runs: u64,
    pub notifications: u64,
    pub run_executions: u64,
    pub signal_clusters: u64,
    pub pairing_codes: u64,
}

impl Default for CleanupCounts {
    /// A cleanup that removed nothing.
    fn default() -> (r: CleanupCounts)
        ensures
            r == (CleanupCounts {
                source_items: 0,
                forecast_observations: 0,
                evidence: 0,
                classification_runs: 0,
                notifications: 0,
                run_executions: 0,
                signal_clusters: 0,
                pairing_codes: 0,
            }),
    {
        CleanupCounts {
            source_items: 0,
            forecast_observations: 0,
            evidence: 0,
            classification_runs: 0,
            notifications: 0,
            run_executions: 0,
            signal_clusters: 0,
            pairing_codes: 0,
        }
    }
}

} // verus!
