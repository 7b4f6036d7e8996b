//! Bank synchronisation runs.

use vstd::prelude::*;

verus! {

/// How a synchronisation run ended: its status, per-account tallies, row
/// tallies, and a summary of what failed.
#[derive(Debug)]
pub struct SyncRunFinish {
    pub status: String,
    pub accounts_total: i64,
    pub accounts_succeeded: i64,
    pub accounts_failed: i64,
    pub added: i64,
    pub updated: i64,
    pub skipped: i64,
    pub queued_for_review: i64,
    pub error_summary: Option<String>,
}

} // verus!
