//! Configuration of the lakehouse.

use crate::text::names_of;
use vstd::prelude::*;

verus! {

/// The signing secret used when none is configured.
pub const DEFAULT_JWT_SECRET: &'static str = "polarway-lakehouse-default-secret-change-me";

/// What `Path::join` gives for a base directory and a relative or absolute
/// name, both as text.
pub uninterp spec fn joined_path(base: Seq<char>, name: Seq<char>) -> Seq<char>;

/// Calls `Path::join` of the standard library on the two paths and hands
/// the joined path back as text. The contract names the result: how a path
/// is adjoined is the platform's rule and is not restated.
#[verifier::external_body]
pub(crate) fn join_path(base: &str, name: &str) -> (joined: String)
    ensures
        joined@ == joined_path(base@, name@),
{
    std::path::Path::new(base).join(name).to_string_lossy().to_string()
}

/// Lakehouse configuration.
#[derive(Debug, Clone)]
pub struct LakehouseConfig {
    /// Root path of the table tree.
    pub base_path: String,
    /// Secret with which session tokens are signed.
    pub jwt_secret: String,
    /// Default session expiry in days.
    pub session_expiry_days: u32,
    /// Vacuum retention in hours.
    pub vacuum_retention_hours: u64,
    /// Whether vacuum refuses a retention of zero hours.
    pub enforce_retention: bool,
    /// Compact when a table's file count exceeds this.
    pub auto_compact_threshold: usize,
    /// Clustering columns of the sessions table.
    pub session_z_order_columns: Vec<String>,
    /// Clustering columns of the audit log.
    pub audit_z_order_columns: Vec<String>,
    /// Maximum number of concurrent writers.
    pub max_concurrent_writers: usize,
    /// How often a commit is tried again after a lost race.
    pub commit_retry_max: u32,
    /// The first delay between two commit attempts, in milliseconds.
    pub commit_retry_initial_ms: u64,
    /// The size that data files are written at, in bytes.
    pub target_file_bytes: u64,
    /// Files below this size are candidates for compaction.
    pub small_file_bytes: u64,
    /// A checkpoint is written every this many commits.
    pub checkpoint_interval: u64,
}

impl LakehouseConfig {
    /// Whether a configuration holds the defaults for the given base path.
    pub open spec fn is_default_for(&self, base_path: Seq<char>) -> bool {
        &&& self.base_path@ == base_path
        &&& self.jwt_secret@ == DEFAULT_JWT_SECRET@
        &&& self.session_expiry_days == 7
        &&& self.vacuum_retention_hours == 168
        &&& self.enforce_retention
        &&& self.auto_compact_threshold == 50
        &&& names_of(self.session_z_order_columns@) == seq!["user_id"@]
        &&& names_of(self.audit_z_order_columns@) == seq!["user_id"@, "action"@]
        &&& self.max_concurrent_writers == 4
        &&& self.commit_retry_max == 5
        &&& self.commit_retry_initial_ms == 10
        &&& self.target_file_bytes == 134_217_728
        &&& self.small_file_bytes == 67_108_864
        &&& self.checkpoint_interval == 10
    }

    /// A configuration with the defaults: sessions last 7 days, vacuum keeps
    /// 168 hours, commits are retried 5 times starting at 10 ms, files are
    /// written at 128 MiB and count as small below half of that, and a
    /// checkpoint is written every 10 commits.
    pub fn new(base_path: &str) -> (config: LakehouseConfig)
        ensures
            config.is_default_for(base_path@),
    {
        let mut session_columns: Vec<String> = Vec::new();
        session_columns.push(String::from_str("user_id"));
        let mut audit_columns: Vec<String> = Vec::new();
        audit_columns.push(String::from_str("user_id"));
        audit_columns.push(String::from_str("action"));
        assert(names_of(session_columns@) == seq!["user_id"@]);
        assert(names_of(audit_columns@) == seq!["user_id"@, "action"@]);
        LakehouseConfig {
            base_path: String::from_str(base_path),
            jwt_secret: String::from_str(DEFAULT_JWT_SECRET),
            session_expiry_days: 7,
            vacuum_retention_hours: 168,
            enforce_retention: true,
            auto_compact_threshold: 50,
            session_z_order_columns: session_columns,
            audit_z_order_columns: audit_columns,
            max_concurrent_writers: 4,
            commit_retry_max: 5,
            commit_retry_initial_ms: 10,
            target_file_bytes: 134_217_728,
            small_file_bytes: 67_108_864,
            checkpoint_interval: 10,
        }
    }

    /// Overrides the signing secret.
    pub fn with_jwt_secret(self, secret: &str) -> (config: LakehouseConfig)
        ensures
            config.jwt_secret@ == secret@,
            config == (LakehouseConfig { jwt_secret: config.jwt_secret, ..self }),
    {
        let mut config = self;
        config.jwt_secret = String::from_str(secret);
        config
    }

    /// Overrides the session expiry.
    pub fn with_session_expiry_days(self, days: u32) -> (config: LakehouseConfig)
        ensures
            config == (LakehouseConfig { session_expiry_days: days, ..self }),
    {
        let mut config = self;
        config.session_expiry_days = days;
        config
    }

    /// Overrides the vacuum retention.
    pub fn with_vacuum_retention_hours(self, hours: u64) -> (config: LakehouseConfig)
        ensures
            config == (LakehouseConfig { vacuum_retention_hours: hours, ..self }),
    {
        let mut config = self;
        config.vacuum_retention_hours = hours;
        config
    }

    /// Sets whether vacuum refuses a retention of zero hours.
    pub fn with_enforce_retention(self, enforce: bool) -> (config: LakehouseConfig)
        ensures
            config == (LakehouseConfig { enforce_retention: enforce, ..self }),
    {
        let mut config = self;
        config.enforce_retention = enforce;
        config
    }

    /// Sets the target file size; files below half of it count as small.
    pub fn with_target_file_bytes(self, bytes: u64) -> (config: LakehouseConfig)
        ensures
            config == (LakehouseConfig {
                target_file_bytes: bytes,
                small_file_bytes: bytes / 2,
                ..self
            }),
    {
        let mut config = self;
        config.target_file_bytes = bytes;
        config.small_file_bytes = bytes / 2;
        config
    }

    /// The path of a table below the base path.
    pub fn table_path(&self, table_name: &str) -> (path: String)
        ensures
            path@ == joined_path(self.base_path@, table_name@),
    {
        join_path(self.base_path.as_str(), table_name)
    }

    /// The location of a table as text.
    pub fn table_uri(&self, table_name: &str) -> (uri: String)
        ensures
            uri@ == joined_path(self.base_path@, table_name@),
    {
        self.table_path(table_name)
    }
}

} // verus!
