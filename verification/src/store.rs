//! The persistence model: accounts, switch history, quota snapshots and the
//! singleton settings row, with the orderings the callers rely on. Accounts
//! stand in most-recently-updated-first order; history and quota snapshots
//! are append-only logs whose newest entry stands last. Writing this state
//! to durable storage is the surrounding application's work.

use vstd::prelude::*;
use vstd::string::*;
use crate::errors::CoreError;
use crate::models::{Account, AccountView, QuotaSnapshot, QuotaSnapshotView, SwitchHistory};
use crate::text::{spec_trim, str_eq, trim_str};

verus! {

/// An account together with its sealed auth blob.
#[derive(Debug, Clone)]
pub struct AccountSecret {
    pub account: Account,
    pub encrypted_auth_blob: String,
}

/// The mathematical shadow of an account secret.
pub struct AccountSecretView {
    pub account: AccountView,
    pub encrypted_auth_blob: Seq<char>,
}

impl View for AccountSecret {
    type V = AccountSecretView;

    open spec fn view(&self) -> AccountSecretView {
        AccountSecretView { account: self.account@, encrypted_auth_blob: self.encrypted_auth_blob@ }
    }
}

/// The singleton vault settings row's caller-visible part.
#[derive(Debug, Clone)]
pub struct VaultSettings {
    pub salt: Option<String>,
}

// ---------------------------------------------------------------------------
// Clone helpers with exact contracts
// ---------------------------------------------------------------------------

/// Copy a tag list, keeping every character.
pub fn clone_string_vec(v: &Vec<String>) -> (r: Vec<String>)
    ensures
        r.deep_view() == v.deep_view(),
{
    let mut out: Vec<String> = Vec::new();
    let n = v.len();
    let mut i: usize = 0;
    while i < n
        invariant
            n == v@.len(),
            0 <= i <= n,
            out@.len() == i,
            forall|k: int| 0 <= k < i ==> out@[k]@ == v@[k]@,
        decreases n - i,
    {
        out.push(v[i].clone());
        i += 1;
    }
    proof {
        assert(out.deep_view() =~= v.deep_view());
    }
    out
}

/// Copy an optional text, keeping every character.
pub fn clone_opt_string(o: &Option<String>) -> (r: Option<String>)
    ensures
        r.deep_view() == o.deep_view(),
{
    match o {
        Some(s) => Some(s.clone()),
        None => None,
    }
}

/// Copy an account, keeping every field.
pub fn clone_account(a: &Account) -> (r: Account)
    ensures
        r@ == a@,
{
    Account {
        id: a.id.clone(),
        name: a.name.clone(),
        tags: clone_string_vec(&a.tags),
        auth_fingerprint: a.auth_fingerprint.clone(),
        created_at: a.created_at.clone(),
        updated_at: a.updated_at.clone(),
        last_used_at: clone_opt_string(&a.last_used_at),
    }
}

/// Copy a history row, keeping every field.
pub fn clone_history(h: &SwitchHistory) -> (r: SwitchHistory)
    ensures
        r@ == h@,
{
    SwitchHistory {
        id: h.id.clone(),
        from_account_id: clone_opt_string(&h.from_account_id),
        to_account_id: h.to_account_id.clone(),
        snapshot_path: clone_opt_string(&h.snapshot_path),
        result: h.result.clone(),
        error_message: clone_opt_string(&h.error_message),
        created_at: h.created_at.clone(),
    }
}

/// Copy a quota snapshot, keeping every field.
pub fn clone_quota(q: &QuotaSnapshot) -> (r: QuotaSnapshot)
    ensures
        r@ == q@,
{
    QuotaSnapshot {
        id: q.id.clone(),
        account_id: q.account_id.clone(),
        mode: q.mode.clone(),
        remaining_milli: q.remaining_milli,
        remaining_unit: clone_opt_string(&q.remaining_unit),
        quota_state: q.quota_state.clone(),
        reset_at: clone_opt_string(&q.reset_at),
        source: q.source.clone(),
        confidence: q.confidence,
        reason: clone_opt_string(&q.reason),
        created_at: q.created_at.clone(),
    }
}

/// Copy an account secret, keeping every field.
pub fn clone_secret(s: &AccountSecret) -> (r: AccountSecret)
    ensures
        r@ == s@,
{
    AccountSecret {
        account: clone_account(&s.account),
        encrypted_auth_blob: s.encrypted_auth_blob.clone(),
    }
}

// ---------------------------------------------------------------------------
// Trusted clock and id source
// ---------------------------------------------------------------------------

/// Relies on chrono's Utc::now().to_rfc3339(): the current instant as a
/// non-empty RFC 3339 text.
#[verifier::external_body]
pub fn now() -> (r: String)
    ensures
        r@.len() > 0,
{
    chrono::Utc::now().to_rfc3339()
}

/// Relies on chrono's Utc::now().timestamp(): the current instant in whole
/// seconds since the epoch.
#[verifier::external_body]
pub fn now_epoch_seconds() -> (r: i64) {
    chrono::Utc::now().timestamp()
}

/// The epoch second that an RFC 3339 text denotes, when it parses: parsing
/// is deterministic in the text.
pub uninterp spec fn epoch_seconds_of(s: Seq<char>) -> Option<i64>;

/// Relies on chrono's DateTime::parse_from_rfc3339 and timestamp.
#[verifier::external_body]
pub fn rfc3339_epoch_seconds(s: &str) -> (r: Option<i64>)
    ensures
        r == epoch_seconds_of(s@),
{
    chrono::DateTime::parse_from_rfc3339(s).ok().map(|t| t.timestamp())
}

/// Relies on uuid's new_v4: a fresh random id, 36 characters hyphenated.
#[verifier::external_body]
pub fn new_uuid() -> (r: String)
    ensures
        r@.len() == 36,
{
    uuid::Uuid::new_v4().to_string()
}

// ---------------------------------------------------------------------------
// Index searches
// ---------------------------------------------------------------------------

/// Index of the first account with this id.
pub open spec fn find_account_idx(accs: Seq<AccountSecret>, id: Seq<char>, i: int) -> Option<int>
    decreases accs.len() - i,
{
    if i < 0 || i >= accs.len() {
        None
    } else if accs[i].account.id@ == id {
        Some(i)
    } else {
        find_account_idx(accs, id, i + 1)
    }
}

/// Index of the first account with this fingerprint.
pub open spec fn find_fp_idx(accs: Seq<AccountSecret>, fp: Seq<char>, i: int) -> Option<int>
    decreases accs.len() - i,
{
    if i < 0 || i >= accs.len() {
        None
    } else if accs[i].account.auth_fingerprint@ == fp {
        Some(i)
    } else {
        find_fp_idx(accs, fp, i + 1)
    }
}

/// Index of the first history row with this id.
pub open spec fn find_history_idx(rows: Seq<SwitchHistory>, id: Seq<char>, i: int) -> Option<int>
    decreases rows.len() - i,
{
    if i < 0 || i >= rows.len() {
        None
    } else if rows[i].id@ == id {
        Some(i)
    } else {
        find_history_idx(rows, id, i + 1)
    }
}

/// The rows of one account, in stored order, as views.
pub open spec fn quotas_of(qs: Seq<QuotaSnapshot>, id: Seq<char>) -> Seq<QuotaSnapshotView>
    decreases qs.len(),
{
    if qs.len() == 0 {
        Seq::empty()
    } else {
        (if qs[0].account_id@ == id {
            seq![qs[0]@]
        } else {
            Seq::empty()
        }) + quotas_of(qs.drop_first(), id)
    }
}

proof fn lemma_quotas_of_push(qs: Seq<QuotaSnapshot>, x: QuotaSnapshot, id: Seq<char>)
    ensures
        quotas_of(qs.push(x), id) == quotas_of(qs, id) + (if x.account_id@ == id {
            seq![x@]
        } else {
            Seq::<QuotaSnapshotView>::empty()
        }),
    decreases qs.len(),
{
    if qs.len() == 0 {
        assert(qs.push(x).drop_first() =~= qs);
        assert(qs.push(x)[0] == x);
        assert(quotas_of(qs, id) =~= Seq::<QuotaSnapshotView>::empty());
        assert(quotas_of(qs.push(x), id) =~= quotas_of(qs, id) + (if x.account_id@ == id {
            seq![x@]
        } else {
            Seq::<QuotaSnapshotView>::empty()
        }));
    } else {
        assert(qs.push(x).drop_first() =~= qs.drop_first().push(x));
        lemma_quotas_of_push(qs.drop_first(), x, id);
        assert(quotas_of(qs.push(x), id) =~= quotas_of(qs, id) + (if x.account_id@ == id {
            seq![x@]
        } else {
            Seq::<QuotaSnapshotView>::empty()
        }));
    }
}

/// For each account (in list order) that has quota rows, its latest row.
pub open spec fn latest_per_account(
    accs: Seq<AccountSecret>,
    qs: Seq<QuotaSnapshot>,
    i: int,
) -> Seq<QuotaSnapshotView>
    decreases accs.len() - i,
{
    if i < 0 || i >= accs.len() {
        Seq::empty()
    } else {
        (if quotas_of(qs, accs[i].account.id@).len() > 0 {
            seq![quotas_of(qs, accs[i].account.id@).last()]
        } else {
            Seq::<QuotaSnapshotView>::empty()
        }) + latest_per_account(accs, qs, i + 1)
    }
}

// ---------------------------------------------------------------------------
// The store
// ---------------------------------------------------------------------------

/// The in-memory persistence model.
#[derive(Debug)]
pub struct AppStore {
    pub base_dir: String,
    pub db_path: String,
    pub snapshots_dir: String,
    pub initialized: bool,
    pub salt: Option<String>,
    pub quota_timeout_ms: u64,
    pub quota_cache_ttl_seconds: u64,
    pub quota_max_concurrency: usize,
    pub accounts: Vec<AccountSecret>,
    pub history: Vec<SwitchHistory>,
    pub quotas: Vec<QuotaSnapshot>,
}

impl AppStore {
    /// Account ids and fingerprints are unique; so are row ids.
    pub open spec fn wf(self) -> bool {
        &&& forall|i: int, j: int|
            #![trigger self.accounts@[i], self.accounts@[j]]
            0 <= i < j < self.accounts@.len() ==> self.accounts@[i].account.id@
                != self.accounts@[j].account.id@ && self.accounts@[i].account.auth_fingerprint@
                != self.accounts@[j].account.auth_fingerprint@
        &&& forall|i: int, j: int|
            #![trigger self.history@[i], self.history@[j]]
            0 <= i < j < self.history@.len() ==> self.history@[i].id@ != self.history@[j].id@
        &&& forall|i: int, j: int|
            #![trigger self.quotas@[i], self.quotas@[j]]
            0 <= i < j < self.quotas@.len() ==> self.quotas@[i].id@ != self.quotas@[j].id@
    }

    /// The settings and paths of `other`, unchanged.
    pub open spec fn same_config(self, other: AppStore) -> bool {
        &&& self.base_dir == other.base_dir
        &&& self.db_path == other.db_path
        &&& self.snapshots_dir == other.snapshots_dir
        &&& self.initialized == other.initialized
        &&& self.salt == other.salt
        &&& self.quota_timeout_ms == other.quota_timeout_ms
        &&& self.quota_cache_ttl_seconds == other.quota_cache_ttl_seconds
        &&& self.quota_max_concurrency == other.quota_max_concurrency
    }

    /// A fresh store under `base_dir`, with the built-in policy defaults.
    pub fn new(base_dir: String) -> (r: Self)
        ensures
            r.base_dir@ == base_dir@,
            r.db_path@ == base_dir@ + "/codex-switch.db"@,
            r.snapshots_dir@ == base_dir@ + "/snapshots"@,
            !r.initialized,
            r.salt is None,
            r.quota_timeout_ms == 5000,
            r.quota_cache_ttl_seconds == 180,
            r.quota_max_concurrency == 3,
            r.accounts@.len() == 0,
            r.history@.len() == 0,
            r.quotas@.len() == 0,
            r.wf(),
    {
        let db_path = base_dir.clone().concat("/codex-switch.db");
        let snapshots_dir = base_dir.clone().concat("/snapshots");
        AppStore {
            base_dir,
            db_path,
            snapshots_dir,
            initialized: false,
            salt: None,
            quota_timeout_ms: 5000,
            quota_cache_ttl_seconds: 180,
            quota_max_concurrency: 3,
            accounts: Vec::new(),
            history: Vec::new(),
            quotas: Vec::new(),
        }
    }

    /// Idempotent initialization: marks the schema ready and touches nothing
    /// else.
    pub fn init(&mut self)
        ensures
            final(self).initialized,
            final(self).base_dir == old(self).base_dir,
            final(self).db_path == old(self).db_path,
            final(self).snapshots_dir == old(self).snapshots_dir,
            final(self).salt == old(self).salt,
            final(self).quota_timeout_ms == old(self).quota_timeout_ms,
            final(self).quota_cache_ttl_seconds == old(self).quota_cache_ttl_seconds,
            final(self).quota_max_concurrency == old(self).quota_max_concurrency,
            final(self).accounts == old(self).accounts,
            final(self).history == old(self).history,
            final(self).quotas == old(self).quotas,
    {
        self.initialized = true;
    }

    /// The singleton settings row's salt.
    pub fn get_vault_settings(&self) -> (r: VaultSettings)
        ensures
            r.salt.deep_view() == self.salt.deep_view(),
    {
        VaultSettings { salt: clone_opt_string(&self.salt) }
    }

    /// Record the write-once master salt.
    pub fn set_vault_salt(&mut self, salt: &str)
        ensures
            final(self).salt matches Some(s) && s@ == salt@,
            final(self).base_dir == old(self).base_dir,
            final(self).db_path == old(self).db_path,
            final(self).snapshots_dir == old(self).snapshots_dir,
            final(self).initialized == old(self).initialized,
            final(self).quota_timeout_ms == old(self).quota_timeout_ms,
            final(self).quota_cache_ttl_seconds == old(self).quota_cache_ttl_seconds,
            final(self).quota_max_concurrency == old(self).quota_max_concurrency,
            final(self).accounts == old(self).accounts,
            final(self).history == old(self).history,
            final(self).quotas == old(self).quotas,
    {
        self.salt = Some(salt.to_owned());
    }

    /// The stored quota policy values.
    pub fn get_quota_policy(&self) -> (r: (u64, u64, usize))
        ensures
            r.0 == self.quota_timeout_ms,
            r.1 == self.quota_cache_ttl_seconds,
            r.2 == self.quota_max_concurrency,
    {
        (self.quota_timeout_ms, self.quota_cache_ttl_seconds, self.quota_max_concurrency)
    }

    /// Store quota policy values as given; clamping is the caller's rule.
    pub fn set_quota_policy(&mut self, timeout_ms: u64, cache_ttl_seconds: u64, max_concurrency: usize)
        ensures
            final(self).quota_timeout_ms == timeout_ms,
            final(self).quota_cache_ttl_seconds == cache_ttl_seconds,
            final(self).quota_max_concurrency == max_concurrency,
            final(self).base_dir == old(self).base_dir,
            final(self).db_path == old(self).db_path,
            final(self).snapshots_dir == old(self).snapshots_dir,
            final(self).initialized == old(self).initialized,
            final(self).salt == old(self).salt,
            final(self).accounts == old(self).accounts,
            final(self).history == old(self).history,
            final(self).quotas == old(self).quotas,
    {
        self.quota_timeout_ms = timeout_ms;
        self.quota_cache_ttl_seconds = cache_ttl_seconds;
        self.quota_max_concurrency = max_concurrency;
    }

    #[verifier::loop_isolation(false)]
    fn account_index(&self, id: &str) -> (r: Option<usize>)
        ensures
            match r {
                Some(i) => find_account_idx(self.accounts@, id@, 0) == Some(i as int) && i
                    < self.accounts@.len(),
                None => find_account_idx(self.accounts@, id@, 0) is None,
            },
    {
        let n = self.accounts.len();
        let mut i: usize = 0;
        while i < n
            invariant
                0 <= i <= n,
                find_account_idx(self.accounts@, id@, 0) == find_account_idx(
                    self.accounts@,
                    id@,
                    i as int,
                ),
            decreases n - i,
        {
            if str_eq(self.accounts[i].account.id.as_str(), id) {
                return Some(i);
            }
            i += 1;
        }
        None
    }

    #[verifier::loop_isolation(false)]
    fn fingerprint_index(&self, fp: &str) -> (r: Option<usize>)
        ensures
            match r {
                Some(i) => find_fp_idx(self.accounts@, fp@, 0) == Some(i as int) && i
                    < self.accounts@.len(),
                None => find_fp_idx(self.accounts@, fp@, 0) is None,
            },
    {
        let n = self.accounts.len();
        let mut i: usize = 0;
        while i < n
            invariant
                0 <= i <= n,
                find_fp_idx(self.accounts@, fp@, 0) == find_fp_idx(self.accounts@, fp@, i as int),
            decreases n - i,
        {
            if str_eq(self.accounts[i].account.auth_fingerprint.as_str(), fp) {
                return Some(i);
            }
            i += 1;
        }
        None
    }

    /// Insert a new account in front, with a fresh id and the current time.
    /// Fails with the duplicate-account error exactly when the fingerprint is
    /// already present; an id clash with the random id source leaves the
    /// store unchanged.
    pub fn create_account(
        &mut self,
        name: &str,
        tags: Vec<String>,
        encrypted_auth_blob: &str,
        fingerprint: &str,
    ) -> (r: Result<Account, CoreError>)
        requires
            old(self).wf(),
        ensures
            final(self).wf(),
            final(self).same_config(*old(self)),
            final(self).history == old(self).history,
            final(self).quotas == old(self).quotas,
            find_fp_idx(old(self).accounts@, fingerprint@, 0) is Some ==> (r matches Err(
                CoreError::DuplicateAccount,
            ) && final(self).accounts == old(self).accounts),
            r matches Err(e) ==> final(self).accounts == old(self).accounts && (e is
                DuplicateAccount <==> find_fp_idx(old(self).accounts@, fingerprint@, 0) is Some),
            r matches Err(e) ==> (e is DuplicateAccount || e is Store),
            r matches Ok(a) ==> {
                &&& final(self).accounts@.len() == old(self).accounts@.len() + 1
                &&& final(self).accounts@.skip(1) == old(self).accounts@
                &&& a@ == final(self).accounts@[0].account@
                &&& a@.name == spec_trim(name@)
                &&& a@.tags == tags.deep_view()
                &&& a@.auth_fingerprint == fingerprint@
                &&& a@.last_used_at is None
                &&& a@.created_at == a@.updated_at
                &&& final(self).accounts@[0].encrypted_auth_blob@ == encrypted_auth_blob@
                &&& find_fp_idx(old(self).accounts@, fingerprint@, 0) is None
            },
    {
        if self.fingerprint_index(fingerprint).is_some() {
            return Err(CoreError::DuplicateAccount);
        }
        let id = new_uuid();
        if self.account_index(id.as_str()).is_some() {
            return Err(CoreError::Store("the generated account id is already taken".to_owned()));
        }
        let ts = now();
        let account = Account {
            id,
            name: trim_str(name),
            tags,
            auth_fingerprint: fingerprint.to_owned(),
            created_at: ts.clone(),
            updated_at: ts,
            last_used_at: None,
        };
        let returned = clone_account(&account);
        let record = AccountSecret { account, encrypted_auth_blob: encrypted_auth_blob.to_owned() };
        proof {
            lemma_find_none_means_absent_id(self.accounts@, record.account.id@);
            lemma_find_none_means_absent_fp(self.accounts@, record.account.auth_fingerprint@);
        }
        self.accounts.insert(0, record);
        proof {
            assert(self.accounts@.skip(1) =~= old(self).accounts@);
            lemma_wf_insert_front(*old(self), *self);
        }
        Ok(returned)
    }

    /// The first account carrying this fingerprint, if any.
    pub fn find_account_by_fingerprint(&self, fingerprint: &str) -> (r: Option<Account>)
        ensures
            match r {
                Some(a) => find_fp_idx(self.accounts@, fingerprint@, 0) matches Some(i) && a@
                    == self.accounts@[i].account@,
                None => find_fp_idx(self.accounts@, fingerprint@, 0) is None,
            },
    {
        match self.fingerprint_index(fingerprint) {
            Some(i) => Some(clone_account(&self.accounts[i].account)),
            None => None,
        }
    }

    /// The account with this id, if any.
    pub fn get_account(&self, id: &str) -> (r: Option<Account>)
        ensures
            match r {
                Some(a) => find_account_idx(self.accounts@, id@, 0) matches Some(i) && a@
                    == self.accounts@[i].account@,
                None => find_account_idx(self.accounts@, id@, 0) is None,
            },
    {
        match self.account_index(id) {
            Some(i) => Some(clone_account(&self.accounts[i].account)),
            None => None,
        }
    }

    /// The account with this id together with its sealed blob, if any.
    pub fn get_account_secret(&self, id: &str) -> (r: Option<AccountSecret>)
        ensures
            match r {
                Some(s) => find_account_idx(self.accounts@, id@, 0) matches Some(i) && s@
                    == self.accounts@[i]@,
                None => find_account_idx(self.accounts@, id@, 0) is None,
            },
    {
        match self.account_index(id) {
            Some(i) => Some(clone_secret(&self.accounts[i])),
            None => None,
        }
    }

    /// Every account, most recently updated first.
    pub fn list_accounts(&self) -> (r: Vec<Account>)
        ensures
            r@.len() == self.accounts@.len(),
            forall|i: int| 0 <= i < r@.len() ==> #[trigger] r@[i]@ == self.accounts@[i].account@,
    {
        let mut out: Vec<Account> = Vec::new();
        let n = self.accounts.len();
        let mut i: usize = 0;
        while i < n
            invariant
                n == self.accounts@.len(),
                0 <= i <= n,
                out@.len() == i,
                forall|k: int| 0 <= k < i ==> #[trigger] out@[k]@ == self.accounts@[k].account@,
            decreases n - i,
        {
            out.push(clone_account(&self.accounts[i].account));
            i += 1;
        }
        out
    }

    /// Rename and retag the account, refresh its update time and move it to
    /// the front; an unknown id changes nothing.
    pub fn update_account_meta(&mut self, id: &str, name: &str, tags: Vec<String>) -> (r: Result<
        (),
        CoreError,
    >)
        requires
            old(self).wf(),
        ensures
            final(self).wf(),
            r is Ok,
            final(self).same_config(*old(self)),
            final(self).history == old(self).history,
            final(self).quotas == old(self).quotas,
            find_account_idx(old(self).accounts@, id@, 0) is None ==> final(self).accounts == old(self).accounts,
            find_account_idx(old(self).accounts@, id@, 0) matches Some(i) ==> {
                &&& final(self).accounts@.len() == old(self).accounts@.len()
                &&& final(self).accounts@.skip(1) == old(self).accounts@.remove(i)
                &&& final(self).accounts@[0].account@.id == old(self).accounts@[i].account@.id
                &&& final(self).accounts@[0].account@.name == spec_trim(name@)
                &&& final(self).accounts@[0].account@.tags == tags.deep_view()
                &&& final(self).accounts@[0].account@.auth_fingerprint == old(self).accounts@[i].account@.auth_fingerprint
                &&& final(self).accounts@[0].account@.created_at == old(self).accounts@[i].account@.created_at
                &&& final(self).accounts@[0].account@.last_used_at == old(self).accounts@[i].account@.last_used_at
                &&& final(self).accounts@[0].encrypted_auth_blob == old(self).accounts@[i].encrypted_auth_blob
            },
    {
        match self.account_index(id) {
            None => Ok(()),
            Some(i) => {
                proof {
                    lemma_find_account_idx_found(self.accounts@, id@, i as int);
                }
                let record = self.accounts.remove(i);
                let updated = AccountSecret {
                    account: Account {
                        id: record.account.id,
                        name: trim_str(name),
                        tags,
                        auth_fingerprint: record.account.auth_fingerprint,
                        created_at: record.account.created_at,
                        updated_at: now(),
                        last_used_at: record.account.last_used_at,
                    },
                    encrypted_auth_blob: record.encrypted_auth_blob,
                };
                self.accounts.insert(0, updated);
                proof {
                    assert(self.accounts@.skip(1) =~= old(self).accounts@.remove(i as int));
                    lemma_wf_move_front(*old(self), *self, i as int);
                }
                Ok(())
            },
        }
    }

    /// Hard-delete the account; its history and quota rows stay as audit.
    pub fn delete_account(&mut self, id: &str) -> (r: Result<(), CoreError>)
        requires
            old(self).wf(),
        ensures
            final(self).wf(),
            r is Ok,
            final(self).same_config(*old(self)),
            final(self).history == old(self).history,
            final(self).quotas == old(self).quotas,
            find_account_idx(old(self).accounts@, id@, 0) is None ==> final(self).accounts == old(self).accounts,
            find_account_idx(old(self).accounts@, id@, 0) matches Some(i) ==> final(self).accounts@ == old(self).accounts@.remove(i),
    {
        match self.account_index(id) {
            None => Ok(()),
            Some(i) => {
                self.accounts.remove(i);
                proof {
                    lemma_wf_remove(*old(self), *self, i as int);
                }
                Ok(())
            },
        }
    }

    /// Stamp the account as used now and move it to the front; an unknown id
    /// changes nothing.
    pub fn mark_account_used(&mut self, id: &str) -> (r: Result<(), CoreError>)
        requires
            old(self).wf(),
        ensures
            final(self).wf(),
            r is Ok,
            final(self).same_config(*old(self)),
            final(self).history == old(self).history,
            final(self).quotas == old(self).quotas,
            find_account_idx(old(self).accounts@, id@, 0) is None ==> final(self).accounts == old(self).accounts,
            find_account_idx(old(self).accounts@, id@, 0) matches Some(i) ==> {
                &&& final(self).accounts@.len() == old(self).accounts@.len()
                &&& final(self).accounts@.skip(1) == old(self).accounts@.remove(i)
                &&& final(self).accounts@[0].account@.id == old(self).accounts@[i].account@.id
                &&& final(self).accounts@[0].account@.name == old(self).accounts@[i].account@.name
                &&& final(self).accounts@[0].account@.tags == old(self).accounts@[i].account@.tags
                &&& final(self).accounts@[0].account@.auth_fingerprint == old(self).accounts@[i].account@.auth_fingerprint
                &&& final(self).accounts@[0].account@.created_at == old(self).accounts@[i].account@.created_at
                &&& final(self).accounts@[0].account@.last_used_at is Some
                &&& final(self).accounts@[0].encrypted_auth_blob == old(self).accounts@[i].encrypted_auth_blob
            },
    {
        match self.account_index(id) {
            None => Ok(()),
            Some(i) => {
                proof {
                    lemma_find_account_idx_found(self.accounts@, id@, i as int);
                }
                let record = self.accounts.remove(i);
                let ts = now();
                let updated = AccountSecret {
                    account: Account {
                        id: record.account.id,
                        name: record.account.name,
                        tags: record.account.tags,
                        auth_fingerprint: record.account.auth_fingerprint,
                        created_at: record.account.created_at,
                        updated_at: ts.clone(),
                        last_used_at: Some(ts),
                    },
                    encrypted_auth_blob: record.encrypted_auth_blob,
                };
                self.accounts.insert(0, updated);
                proof {
                    assert(self.accounts@.skip(1) =~= old(self).accounts@.remove(i as int));
                    lemma_wf_move_front(*old(self), *self, i as int);
                }
                Ok(())
            },
        }
    }
}

// ---------------------------------------------------------------------------
// Well-formedness helper lemmas
// ---------------------------------------------------------------------------

proof fn lemma_find_none_means_absent_id(accs: Seq<AccountSecret>, id: Seq<char>)
    requires
        find_account_idx(accs, id, 0) is None,
    ensures
        forall|k: int| 0 <= k < accs.len() ==> #[trigger] accs[k].account.id@ != id,
{
    assert forall|k: int| 0 <= k < accs.len() implies #[trigger] accs[k].account.id@ != id by {
        lemma_find_account_skips(accs, id, 0, k);
    }
}

proof fn lemma_find_account_skips(accs: Seq<AccountSecret>, id: Seq<char>, i: int, k: int)
    requires
        0 <= i <= k < accs.len(),
        find_account_idx(accs, id, i) is None,
    ensures
        accs[k].account.id@ != id,
    decreases k - i,
{
    if i < k {
        lemma_find_account_skips(accs, id, i + 1, k);
    }
}

proof fn lemma_find_none_means_absent_fp(accs: Seq<AccountSecret>, fp: Seq<char>)
    requires
        find_fp_idx(accs, fp, 0) is None,
    ensures
        forall|k: int| 0 <= k < accs.len() ==> #[trigger] accs[k].account.auth_fingerprint@ != fp,
{
    assert forall|k: int|
        0 <= k < accs.len() implies #[trigger] accs[k].account.auth_fingerprint@ != fp by {
        lemma_find_fp_skips(accs, fp, 0, k);
    }
}

proof fn lemma_find_fp_skips(accs: Seq<AccountSecret>, fp: Seq<char>, i: int, k: int)
    requires
        0 <= i <= k < accs.len(),
        find_fp_idx(accs, fp, i) is None,
    ensures
        accs[k].account.auth_fingerprint@ != fp,
    decreases k - i,
{
    if i < k {
        lemma_find_fp_skips(accs, fp, i + 1, k);
    }
}

proof fn lemma_find_account_idx_found(accs: Seq<AccountSecret>, id: Seq<char>, i: int)
    requires
        find_account_idx(accs, id, 0) == Some(i),
    ensures
        0 <= i < accs.len(),
        accs[i].account.id@ == id,
    decreases accs.len(),
{
    lemma_find_account_idx_found_from(accs, id, 0, i);
}

proof fn lemma_find_account_idx_found_from(accs: Seq<AccountSecret>, id: Seq<char>, j: int, i: int)
    requires
        0 <= j,
        find_account_idx(accs, id, j) == Some(i),
    ensures
        j <= i < accs.len(),
        accs[i].account.id@ == id,
    decreases accs.len() - j,
{
    if j < accs.len() && accs[j].account.id@ != id {
        lemma_find_account_idx_found_from(accs, id, j + 1, i);
    }
}

/// Moving the element at `i` to the front, with id, fingerprint and the
/// other rows kept, preserves well-formedness.
proof fn lemma_wf_move_front(pre: AppStore, post: AppStore, i: int)
    requires
        pre.wf(),
        0 <= i < pre.accounts@.len(),
        post.accounts@.len() == pre.accounts@.len(),
        post.accounts@.skip(1) == pre.accounts@.remove(i),
        post.accounts@[0].account.id@ == pre.accounts@[i].account.id@,
        post.accounts@[0].account.auth_fingerprint@ == pre.accounts@[i].account.auth_fingerprint@,
        post.history == pre.history,
        post.quotas == pre.quotas,
    ensures
        post.wf(),
{
    assert forall|a: int, b: int|
        0 <= a < b < post.accounts@.len() implies (#[trigger] post.accounts@[a]).account.id@ != (
    #[trigger] post.accounts@[b]).account.id@ && post.accounts@[a].account.auth_fingerprint@
        != post.accounts@[b].account.auth_fingerprint@ by {
        if a == 0 {
            let src = if b - 1 < i {
                b - 1
            } else {
                b
            };
            assert(post.accounts@[b] == pre.accounts@.remove(i)[b - 1]);
            assert(pre.accounts@.remove(i)[b - 1] == pre.accounts@[src]);
            assert(src != i);
        } else {
            let sa = if a - 1 < i {
                a - 1
            } else {
                a
            };
            let sb = if b - 1 < i {
                b - 1
            } else {
                b
            };
            assert(post.accounts@[a] == pre.accounts@.remove(i)[a - 1]);
            assert(post.accounts@[b] == pre.accounts@.remove(i)[b - 1]);
            assert(pre.accounts@.remove(i)[a - 1] == pre.accounts@[sa]);
            assert(pre.accounts@.remove(i)[b - 1] == pre.accounts@[sb]);
        }
    }
}

/// A fresh record in front, with an unseen id and fingerprint, preserves
/// well-formedness.
proof fn lemma_wf_insert_front(pre: AppStore, post: AppStore)
    requires
        pre.wf(),
        post.accounts@.len() == pre.accounts@.len() + 1,
        post.accounts@.skip(1) == pre.accounts@,
        forall|k: int|
            0 <= k < pre.accounts@.len() ==> #[trigger] pre.accounts@[k].account.id@
                != post.accounts@[0].account.id@,
        forall|k: int|
            0 <= k < pre.accounts@.len() ==> #[trigger] pre.accounts@[k].account.auth_fingerprint@
                != post.accounts@[0].account.auth_fingerprint@,
        post.history == pre.history,
        post.quotas == pre.quotas,
    ensures
        post.wf(),
{
    assert forall|a: int, b: int|
        0 <= a < b < post.accounts@.len() implies (#[trigger] post.accounts@[a]).account.id@ != (
    #[trigger] post.accounts@[b]).account.id@ && post.accounts@[a].account.auth_fingerprint@
        != post.accounts@[b].account.auth_fingerprint@ by {
        assert(post.accounts@[b] == post.accounts@.skip(1)[b - 1]);
        if a > 0 {
            assert(post.accounts@[a] == post.accounts@.skip(1)[a - 1]);
        }
    }
}

/// Removing one account preserves well-formedness.
proof fn lemma_wf_remove(pre: AppStore, post: AppStore, i: int)
    requires
        pre.wf(),
        0 <= i < pre.accounts@.len(),
        post.accounts@ == pre.accounts@.remove(i),
        post.history == pre.history,
        post.quotas == pre.quotas,
    ensures
        post.wf(),
{
    assert forall|a: int, b: int|
        0 <= a < b < post.accounts@.len() implies (#[trigger] post.accounts@[a]).account.id@ != (
    #[trigger] post.accounts@[b]).account.id@ && post.accounts@[a].account.auth_fingerprint@
        != post.accounts@[b].account.auth_fingerprint@ by {
        let sa = if a < i {
            a
        } else {
            a + 1
        };
        let sb = if b < i {
            b
        } else {
            b + 1
        };
        assert(post.accounts@[a] == pre.accounts@[sa]);
        assert(post.accounts@[b] == pre.accounts@[sb]);
    }
}

/// Index of the first quota row with this id.
pub open spec fn find_quota_idx(rows: Seq<QuotaSnapshot>, id: Seq<char>, i: int) -> Option<int>
    decreases rows.len() - i,
{
    if i < 0 || i >= rows.len() {
        None
    } else if rows[i].id@ == id {
        Some(i)
    } else {
        find_quota_idx(rows, id, i + 1)
    }
}

/// Views of a row sequence.
pub open spec fn quota_views(s: Seq<QuotaSnapshot>) -> Seq<QuotaSnapshotView> {
    s.map(|_i: int, q: QuotaSnapshot| q@)
}

proof fn lemma_find_none_means_absent_history(rows: Seq<SwitchHistory>, id: Seq<char>)
    requires
        find_history_idx(rows, id, 0) is None,
    ensures
        forall|k: int| 0 <= k < rows.len() ==> (#[trigger] rows[k]).id@ != id,
{
    assert forall|k: int| 0 <= k < rows.len() implies (#[trigger] rows[k]).id@ != id by {
        lemma_find_history_skips(rows, id, 0, k);
    }
}

proof fn lemma_find_history_skips(rows: Seq<SwitchHistory>, id: Seq<char>, i: int, k: int)
    requires
        0 <= i <= k < rows.len(),
        find_history_idx(rows, id, i) is None,
    ensures
        rows[k].id@ != id,
    decreases k - i,
{
    if i < k {
        lemma_find_history_skips(rows, id, i + 1, k);
    }
}

proof fn lemma_find_none_means_absent_quota(rows: Seq<QuotaSnapshot>, id: Seq<char>)
    requires
        find_quota_idx(rows, id, 0) is None,
    ensures
        forall|k: int| 0 <= k < rows.len() ==> (#[trigger] rows[k]).id@ != id,
{
    assert forall|k: int| 0 <= k < rows.len() implies (#[trigger] rows[k]).id@ != id by {
        lemma_find_quota_skips(rows, id, 0, k);
    }
}

proof fn lemma_find_quota_skips(rows: Seq<QuotaSnapshot>, id: Seq<char>, i: int, k: int)
    requires
        0 <= i <= k < rows.len(),
        find_quota_idx(rows, id, i) is None,
    ensures
        rows[k].id@ != id,
    decreases k - i,
{
    if i < k {
        lemma_find_quota_skips(rows, id, i + 1, k);
    }
}

impl AppStore {
    #[verifier::loop_isolation(false)]
    fn history_index(&self, id: &str) -> (r: Option<usize>)
        ensures
            match r {
                Some(i) => find_history_idx(self.history@, id@, 0) == Some(i as int) && i
                    < self.history@.len(),
                None => find_history_idx(self.history@, id@, 0) is None,
            },
    {
        let n = self.history.len();
        let mut i: usize = 0;
        while i < n
            invariant
                0 <= i <= n,
                find_history_idx(self.history@, id@, 0) == find_history_idx(
                    self.history@,
                    id@,
                    i as int,
                ),
            decreases n - i,
        {
            if str_eq(self.history[i].id.as_str(), id) {
                return Some(i);
            }
            i += 1;
        }
        None
    }

    #[verifier::loop_isolation(false)]
    fn quota_index(&self, id: &str) -> (r: Option<usize>)
        ensures
            match r {
                Some(i) => find_quota_idx(self.quotas@, id@, 0) == Some(i as int) && i
                    < self.quotas@.len(),
                None => find_quota_idx(self.quotas@, id@, 0) is None,
            },
    {
        let n = self.quotas.len();
        let mut i: usize = 0;
        while i < n
            invariant
                0 <= i <= n,
                find_quota_idx(self.quotas@, id@, 0) == find_quota_idx(
                    self.quotas@,
                    id@,
                    i as int,
                ),
            decreases n - i,
        {
            if str_eq(self.quotas[i].id.as_str(), id) {
                return Some(i);
            }
            i += 1;
        }
        None
    }

    /// Append one switch log row with a fresh id and the current time; an id
    /// clash with the random id source leaves the log unchanged.
    pub fn create_switch_history(
        &mut self,
        from_account_id: Option<&str>,
        to_account_id: &str,
        snapshot_path: Option<&str>,
        result: &str,
        error_message: Option<&str>,
    ) -> (r: Result<String, CoreError>)
        requires
            old(self).wf(),
        ensures
            final(self).wf(),
            final(self).same_config(*old(self)),
            final(self).accounts == old(self).accounts,
            final(self).quotas == old(self).quotas,
            r matches Err(e) ==> final(self).history == old(self).history && e is Store,
            r matches Ok(id) ==> {
                &&& final(self).history@.len() == old(self).history@.len() + 1
                &&& final(self).history@.take(old(self).history@.len() as int) == old(self).history@
                &&& final(self).history@.last()@.id == id@
                &&& final(self).history@.last()@.from_account_id == (match from_account_id {
                    Some(s) => Some(s@),
                    None => None::<Seq<char>>,
                })
                &&& final(self).history@.last()@.to_account_id == to_account_id@
                &&& final(self).history@.last()@.snapshot_path == (match snapshot_path {
                    Some(s) => Some(s@),
                    None => None::<Seq<char>>,
                })
                &&& final(self).history@.last()@.result == result@
                &&& final(self).history@.last()@.error_message == (match error_message {
                    Some(s) => Some(s@),
                    None => None::<Seq<char>>,
                })
            },
    {
        let id = new_uuid();
        if self.history_index(id.as_str()).is_some() {
            return Err(CoreError::Store("the generated history id is already taken".to_owned()));
        }
        let row = SwitchHistory {
            id: id.clone(),
            from_account_id: match from_account_id {
                Some(s) => Some(s.to_owned()),
                None => None,
            },
            to_account_id: to_account_id.to_owned(),
            snapshot_path: match snapshot_path {
                Some(s) => Some(s.to_owned()),
                None => None,
            },
            result: result.to_owned(),
            error_message: match error_message {
                Some(s) => Some(s.to_owned()),
                None => None,
            },
            created_at: now(),
        };
        proof {
            lemma_find_none_means_absent_history(self.history@, row.id@);
        }
        self.history.push(row);
        proof {
            assert(self.history@.take(old(self).history@.len() as int) =~= old(self).history@);
            assert forall|a: int, b: int|
                0 <= a < b < self.history@.len() implies (#[trigger] self.history@[a]).id@ != (
            #[trigger] self.history@[b]).id@ by {
                if b < self.history@.len() - 1 {
                    assert(self.history@[a] == old(self).history@[a]);
                    assert(self.history@[b] == old(self).history@[b]);
                } else {
                    assert(self.history@[a] == old(self).history@[a]);
                }
            }
        }
        Ok(id)
    }

    /// The history row with this id, if any.
    pub fn get_switch_history(&self, id: &str) -> (r: Option<SwitchHistory>)
        ensures
            match r {
                Some(h) => find_history_idx(self.history@, id@, 0) matches Some(i) && h@
                    == self.history@[i]@,
                None => find_history_idx(self.history@, id@, 0) is None,
            },
    {
        match self.history_index(id) {
            Some(i) => Some(clone_history(&self.history[i])),
            None => None,
        }
    }

    /// Up to `limit` history rows, newest first.
    pub fn list_switch_history(&self, limit: usize) -> (r: Vec<SwitchHistory>)
        ensures
            r@.len() == (if limit < self.history@.len() {
                limit as int
            } else {
                self.history@.len() as int
            }),
            forall|i: int|
                0 <= i < r@.len() ==> #[trigger] r@[i]@ == self.history@[self.history@.len() - 1
                    - i]@,
    {
        let n = self.history.len();
        let mut out: Vec<SwitchHistory> = Vec::new();
        let mut k: usize = 0;
        while k < limit && k < n
            invariant
                n == self.history@.len(),
                0 <= k <= n,
                k <= limit,
                out@.len() == k,
                forall|i: int|
                    0 <= i < k ==> #[trigger] out@[i]@ == self.history@[n - 1 - i]@,
            decreases n - k,
        {
            out.push(clone_history(&self.history[n - 1 - k]));
            k += 1;
        }
        out
    }

    /// The current account: the target of the newest history row.
    pub fn get_current_account_id(&self) -> (r: Option<String>)
        ensures
            self.history@.len() == 0 ==> r is None,
            self.history@.len() > 0 ==> (r matches Some(s) && s@
                == self.history@.last().to_account_id@),
    {
        let n = self.history.len();
        if n == 0 {
            None
        } else {
            Some(self.history[n - 1].to_account_id.clone())
        }
    }

    /// Append one quota observation with a fresh id and the current time; an
    /// id clash with the random id source leaves the rows unchanged.
    pub fn save_quota_snapshot(
        &mut self,
        account_id: &str,
        mode: &str,
        remaining_milli: Option<i64>,
        remaining_unit: Option<&str>,
        quota_state: &str,
        reset_at: Option<&str>,
        source: &str,
        confidence: i64,
        reason: Option<&str>,
    ) -> (r: Result<QuotaSnapshot, CoreError>)
        requires
            old(self).wf(),
        ensures
            final(self).wf(),
            final(self).same_config(*old(self)),
            final(self).accounts == old(self).accounts,
            final(self).history == old(self).history,
            r matches Err(e) ==> final(self).quotas == old(self).quotas && e is Store,
            r matches Ok(q) ==> {
                &&& final(self).quotas@.len() == old(self).quotas@.len() + 1
                &&& final(self).quotas@.take(old(self).quotas@.len() as int) == old(self).quotas@
                &&& q@ == final(self).quotas@.last()@
                &&& q@.account_id == account_id@
                &&& q@.mode == mode@
                &&& q@.remaining_milli == remaining_milli
                &&& q@.remaining_unit == (match remaining_unit {
                    Some(s) => Some(s@),
                    None => None::<Seq<char>>,
                })
                &&& q@.quota_state == quota_state@
                &&& q@.reset_at == (match reset_at {
                    Some(s) => Some(s@),
                    None => None::<Seq<char>>,
                })
                &&& q@.source == source@
                &&& q@.confidence == confidence
                &&& q@.reason == (match reason {
                    Some(s) => Some(s@),
                    None => None::<Seq<char>>,
                })
            },
    {
        let id = new_uuid();
        if self.quota_index(id.as_str()).is_some() {
            return Err(CoreError::Store("the generated snapshot id is already taken".to_owned()));
        }
        let row = QuotaSnapshot {
            id,
            account_id: account_id.to_owned(),
            mode: mode.to_owned(),
            remaining_milli,
            remaining_unit: match remaining_unit {
                Some(s) => Some(s.to_owned()),
                None => None,
            },
            quota_state: quota_state.to_owned(),
            reset_at: match reset_at {
                Some(s) => Some(s.to_owned()),
                None => None,
            },
            source: source.to_owned(),
            confidence,
            reason: match reason {
                Some(s) => Some(s.to_owned()),
                None => None,
            },
            created_at: now(),
        };
        let returned = clone_quota(&row);
        proof {
            lemma_find_none_means_absent_quota(self.quotas@, row.id@);
        }
        self.quotas.push(row);
        proof {
            assert(self.quotas@.take(old(self).quotas@.len() as int) =~= old(self).quotas@);
            assert forall|a: int, b: int|
                0 <= a < b < self.quotas@.len() implies (#[trigger] self.quotas@[a]).id@ != (
            #[trigger] self.quotas@[b]).id@ by {
                if b < self.quotas@.len() - 1 {
                    assert(self.quotas@[a] == old(self).quotas@[a]);
                    assert(self.quotas@[b] == old(self).quotas@[b]);
                } else {
                    assert(self.quotas@[a] == old(self).quotas@[a]);
                }
            }
        }
        Ok(returned)
    }

    /// The quota row with this id, if any.
    pub fn get_quota_snapshot(&self, id: &str) -> (r: Option<QuotaSnapshot>)
        ensures
            match r {
                Some(q) => find_quota_idx(self.quotas@, id@, 0) matches Some(i) && q@
                    == self.quotas@[i]@,
                None => find_quota_idx(self.quotas@, id@, 0) is None,
            },
    {
        match self.quota_index(id) {
            Some(i) => Some(clone_quota(&self.quotas[i])),
            None => None,
        }
    }

    /// Every row of one account, oldest first.
    #[verifier::loop_isolation(false)]
    fn quotas_for_account(&self, account_id: &str) -> (r: Vec<QuotaSnapshot>)
        ensures
            quota_views(r@) == quotas_of(self.quotas@, account_id@),
    {
        let n = self.quotas.len();
        let mut out: Vec<QuotaSnapshot> = Vec::new();
        let mut i: usize = 0;
        proof {
            assert(self.quotas@.take(0) =~= Seq::<QuotaSnapshot>::empty());
            assert(quota_views(out@) =~= quotas_of(self.quotas@.take(0), account_id@));
        }
        while i < n
            invariant
                0 <= i <= n,
                quota_views(out@) == quotas_of(self.quotas@.take(i as int), account_id@),
            decreases n - i,
        {
            let ghost prev = out@;
            if str_eq(self.quotas[i].account_id.as_str(), account_id) {
                out.push(clone_quota(&self.quotas[i]));
            }
            proof {
                lemma_quotas_of_push(
                    self.quotas@.take(i as int),
                    self.quotas@[i as int],
                    account_id@,
                );
                assert(self.quotas@.take(i as int).push(self.quotas@[i as int]) =~= self.quotas@
                    .take(i as int + 1));
                assert(quota_views(out@) =~= quotas_of(
                    self.quotas@.take(i as int + 1),
                    account_id@,
                ));
            }
            i += 1;
        }
        proof {
            assert(self.quotas@.take(n as int) =~= self.quotas@);
        }
        out
    }

    /// Up to `limit` rows of one account, newest first.
    pub fn list_quota_snapshots(&self, account_id: &str, limit: usize) -> (r: Vec<QuotaSnapshot>)
        ensures
            r@.len() == (if limit < quotas_of(self.quotas@, account_id@).len() {
                limit as int
            } else {
                quotas_of(self.quotas@, account_id@).len() as int
            }),
            forall|i: int|
                0 <= i < r@.len() ==> #[trigger] r@[i]@ == quotas_of(self.quotas@, account_id@)[
                    quotas_of(self.quotas@, account_id@).len() - 1 - i
                ],
    {
        let all = self.quotas_for_account(account_id);
        let m = all.len();
        proof {
            assert(all@.len() == quota_views(all@).len());
        }
        let mut out: Vec<QuotaSnapshot> = Vec::new();
        let mut k: usize = 0;
        while k < limit && k < m
            invariant
                m == all@.len(),
                quota_views(all@) == quotas_of(self.quotas@, account_id@),
                0 <= k <= m,
                k <= limit,
                out@.len() == k,
                forall|i: int|
                    0 <= i < k ==> #[trigger] out@[i]@ == quotas_of(self.quotas@, account_id@)[m - 1
                        - i],
            decreases m - k,
        {
            out.push(clone_quota(&all[m - 1 - k]));
            proof {
                assert(quota_views(all@)[m - 1 - k as int] == all@[m - 1 - k as int]@);
            }
            k += 1;
        }
        out
    }

    /// The newest row of one account, if any.
    pub fn latest_quota_by_account(&self, account_id: &str) -> (r: Option<QuotaSnapshot>)
        ensures
            (r is Some) == (quotas_of(self.quotas@, account_id@).len() > 0),
            r matches Some(q) ==> q@ == quotas_of(self.quotas@, account_id@).last(),
    {
        let all = self.quotas_for_account(account_id);
        let m = all.len();
        proof {
            assert(all@.len() == quota_views(all@).len());
        }
        if m == 0 {
            None
        } else {
            proof {
                assert(quota_views(all@)[m - 1] == all@[m - 1]@);
            }
            Some(clone_quota(&all[m - 1]))
        }
    }

    /// For each account in list order, its newest quota row, where one
    /// exists.
    #[verifier::loop_isolation(false)]
    pub fn list_latest_quota_snapshots(&self) -> (r: Vec<QuotaSnapshot>)
        ensures
            quota_views(r@) == latest_per_account(self.accounts@, self.quotas@, 0),
    {
        let n = self.accounts.len();
        let mut out: Vec<QuotaSnapshot> = Vec::new();
        let mut i: usize = 0;
        while i < n
            invariant
                0 <= i <= n,
                quota_views(out@) + latest_per_account(self.accounts@, self.quotas@, i as int)
                    == latest_per_account(self.accounts@, self.quotas@, 0),
            decreases n - i,
        {
            let ghost prev = out@;
            let id = self.accounts[i].account.id.clone();
            match self.latest_quota_by_account(id.as_str()) {
                Some(q) => {
                    out.push(q);
                },
                None => {},
            }
            proof {
                assert(latest_per_account(self.accounts@, self.quotas@, i as int) == (
                if quotas_of(self.quotas@, self.accounts@[i as int].account.id@).len() > 0 {
                    seq![quotas_of(self.quotas@, self.accounts@[i as int].account.id@).last()]
                } else {
                    Seq::<QuotaSnapshotView>::empty()
                }) + latest_per_account(self.accounts@, self.quotas@, i as int + 1));
                assert(quota_views(out@) + latest_per_account(
                    self.accounts@,
                    self.quotas@,
                    i as int + 1,
                ) =~= quota_views(prev) + latest_per_account(
                    self.accounts@,
                    self.quotas@,
                    i as int,
                ));
            }
            i += 1;
        }
        proof {
            assert(quota_views(out@) + latest_per_account(self.accounts@, self.quotas@, n as int)
                =~= quota_views(out@));
        }
        out
    }
}

} // verus!
