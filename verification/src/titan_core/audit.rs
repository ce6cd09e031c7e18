//! Audit records of model runs.

use vstd::prelude::*;
use crate::text::to_owned_string;

verus! {

#[derive(Debug)]
pub struct AuditEntry {
    pub timestamp: u64,
    pub env: String,
    pub model: String,
    pub hash: String,
    pub status: String,
    pub rows_affected: usize,
    pub duration_ms: u64,
}

/// Appends audit entries to the audit table of a project.
pub struct AuditLogger;

impl AuditEntry {
    /// The entry recorded after a successful run.
    pub fn success(timestamp: u64, env: &str, model: &str, hash: &str, duration_ms: u64) -> (e: Self)
        ensures
            e.timestamp == timestamp,
            e.env@ == env@,
            e.model@ == model@,
            e.hash@ == hash@,
            e.status@ == "success"@,
            e.rows_affected == 0,
            e.duration_ms == duration_ms,
    {
        AuditEntry {
            timestamp,
            env: to_owned_string(env),
            model: to_owned_string(model),
            hash: to_owned_string(hash),
            status: to_owned_string("success"),
            rows_affected: 0,
            duration_ms,
        }
    }
}

impl AuditLogger {
    /// Where the audit table lives, relative to the project root.
    pub fn audit_dir() -> (r: &'static str)
        ensures
            r@ == "target/titan_audit"@,
    {
        "target/titan_audit"
    }
}

} // verus!
