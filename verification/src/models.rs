//! Plain data carried between the store, the facade and the front-end.
//! Quota amounts are carried in thousandths of a unit, so that the records
//! hold no floating point.

use vstd::prelude::*;

verus! {

/// One imported authentication identity.
#[derive(Debug, Clone)]
pub struct Account {
    pub id: String,
    pub name: String,
    pub tags: Vec<String>,
    pub auth_fingerprint: String,
    pub created_at: String,
    pub updated_at: String,
    pub last_used_at: Option<String>,
}

/// One append-only switch log entry.
#[derive(Debug, Clone)]
pub struct SwitchHistory {
    pub id: String,
    pub from_account_id: Option<String>,
    pub to_account_id: String,
    pub snapshot_path: Option<String>,
    pub result: String,
    pub error_message: Option<String>,
    pub created_at: String,
}

/// What a switch or rollback reports back.
#[derive(Debug, Clone)]
pub struct SwitchResult {
    pub success: bool,
    pub history_id: String,
    pub snapshot_path: Option<String>,
    pub message: String,
}

/// Read-only observability snapshot.
#[derive(Debug, Clone)]
pub struct RuntimeDiagnostics {
    pub codex_auth_path: String,
    pub codex_auth_exists: bool,
    pub app_data_dir: String,
    pub db_path: String,
    pub schema_ok: bool,
    pub process_count: usize,
}

/// One stored quota observation. `remaining_milli` carries the remaining
/// amount in thousandths of a unit when the probe was exact.
#[derive(Debug, Clone)]
pub struct QuotaSnapshot {
    pub id: String,
    pub account_id: String,
    pub mode: String,
    pub remaining_milli: Option<i64>,
    pub remaining_unit: Option<String>,
    pub quota_state: String,
    pub reset_at: Option<String>,
    pub source: String,
    pub confidence: i64,
    pub reason: Option<String>,
    pub created_at: String,
}

/// An account joined with its latest quota snapshot.
#[derive(Debug, Clone)]
pub struct QuotaDashboardItem {
    pub account: Account,
    pub snapshot: Option<QuotaSnapshot>,
}

/// A one-line command outcome.
#[derive(Debug, Clone)]
pub struct SimpleStatus {
    pub ok: bool,
    pub message: String,
}

/// The quota refresh policy: request timeout, cache lifetime, fan-out bound.
#[derive(Debug, Clone)]
pub struct QuotaRefreshPolicy {
    pub timeout_ms: u64,
    pub cache_ttl_seconds: u64,
    pub max_concurrency: usize,
}

impl Default for QuotaRefreshPolicy {
    /// The built-in policy: 5 s timeout, 180 s cache, fan-out of three.
    fn default() -> (r: Self)
        ensures
            r.timeout_ms == 5000,
            r.cache_ttl_seconds == 180,
            r.max_concurrency == 3,
    {
        QuotaRefreshPolicy { timeout_ms: 5000, cache_ttl_seconds: 180, max_concurrency: 3 }
    }
}

/// Whether the CLI is running right now.
#[derive(Debug, Clone)]
pub struct CodexCliStatus {
    pub is_running: bool,
    pub process_count: usize,
    pub checked_at: String,
}

// ---------------------------------------------------------------------------
// Mathematical views
// ---------------------------------------------------------------------------

/// The mathematical shadow of an account.
pub struct AccountView {
    pub id: Seq<char>,
    pub name: Seq<char>,
    pub tags: Seq<Seq<char>>,
    pub auth_fingerprint: Seq<char>,
    pub created_at: Seq<char>,
    pub updated_at: Seq<char>,
    pub last_used_at: Option<Seq<char>>,
}

impl View for Account {
    type V = AccountView;

    open spec fn view(&self) -> AccountView {
        AccountView {
            id: self.id@,
            name: self.name@,
            tags: self.tags.deep_view(),
            auth_fingerprint: self.auth_fingerprint@,
            created_at: self.created_at@,
            updated_at: self.updated_at@,
            last_used_at: self.last_used_at.deep_view(),
        }
    }
}

/// The mathematical shadow of a switch log entry.
pub struct SwitchHistoryView {
    pub id: Seq<char>,
    pub from_account_id: Option<Seq<char>>,
    pub to_account_id: Seq<char>,
    pub snapshot_path: Option<Seq<char>>,
    pub result: Seq<char>,
    pub error_message: Option<Seq<char>>,
    pub created_at: Seq<char>,
}

impl View for SwitchHistory {
    type V = SwitchHistoryView;

    open spec fn view(&self) -> SwitchHistoryView {
        SwitchHistoryView {
            id: self.id@,
            from_account_id: self.from_account_id.deep_view(),
            to_account_id: self.to_account_id@,
            snapshot_path: self.snapshot_path.deep_view(),
            result: self.result@,
            error_message: self.error_message.deep_view(),
            created_at: self.created_at@,
        }
    }
}

/// The mathematical shadow of a quota snapshot.
pub struct QuotaSnapshotView {
    pub id: Seq<char>,
    pub account_id: Seq<char>,
    pub mode: Seq<char>,
    pub remaining_milli: Option<i64>,
    pub remaining_unit: Option<Seq<char>>,
    pub quota_state: Seq<char>,
    pub reset_at: Option<Seq<char>>,
    pub source: Seq<char>,
    pub confidence: i64,
    pub reason: Option<Seq<char>>,
    pub created_at: Seq<char>,
}

impl View for QuotaSnapshot {
    type V = QuotaSnapshotView;

    open spec fn view(&self) -> QuotaSnapshotView {
        QuotaSnapshotView {
            id: self.id@,
            account_id: self.account_id@,
            mode: self.mode@,
            remaining_milli: self.remaining_milli,
            remaining_unit: self.remaining_unit.deep_view(),
            quota_state: self.quota_state@,
            reset_at: self.reset_at.deep_view(),
            source: self.source@,
            confidence: self.confidence,
            reason: self.reason.deep_view(),
            created_at: self.created_at@,
        }
    }
}

/// The mathematical shadow of a dashboard item.
pub struct QuotaDashboardItemView {
    pub account: AccountView,
    pub snapshot: Option<QuotaSnapshotView>,
}

impl View for QuotaDashboardItem {
    type V = QuotaDashboardItemView;

    open spec fn view(&self) -> QuotaDashboardItemView {
        QuotaDashboardItemView {
            account: self.account@,
            snapshot: match self.snapshot {
                Some(q) => Some(q@),
                None => None,
            },
        }
    }
}

} // verus!
