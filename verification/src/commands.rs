//! The command facade: the user-visible operations, wired over the vault
//! session, the store and the pure probe logic. Filesystem, process and HTTP
//! work is prepared and completed here; performing it is the surrounding
//! application's part.

use vstd::prelude::*;
use vstd::string::*;
use vstd::set::Set;
use crate::app_state::AppState;
use crate::auth::{
    compute_fingerprint, ensure_access_token, ensure_name, spec_ensure_name, spec_fingerprint,
    spec_valid_auth, validate_auth_json,
};
use crate::crypto::{
    decrypt_of, decrypt_from_base64, encrypt_to_base64, salt_ok, wipe_bytes, MAX_PASSWORD_BYTES,
    MAX_SEAL_BYTES,
};
use crate::errors::CoreError;
use crate::json::{json_of, parse_json, spec_str_field_trimmed, get_trimmed_str_field, Json};
use crate::models::{
    Account, QuotaDashboardItem, QuotaRefreshPolicy, QuotaSnapshot, SimpleStatus, SwitchHistory,
    SwitchResult,
};
use crate::quota::QuotaProbeResult;
use crate::store::{
    clone_account, clone_quota, clone_secret, epoch_seconds_of, find_account_idx, find_fp_idx,
    find_history_idx, quotas_of, AccountSecret,
};
use crate::text::{spec_trim, spec_u64_digits, str_eq, trim_str, u64_to_string};
use vstd::utf8::encode_utf8;

verus! {

// ---------------------------------------------------------------------------
// Small shared rules
// ---------------------------------------------------------------------------

/// Tags trimmed, empties dropped, first occurrence of each kept.
pub open spec fn spec_unique_tags(tags: Seq<Seq<char>>, i: int, seen: Set<Seq<char>>) -> Seq<
    Seq<char>,
>
    decreases tags.len() - i,
{
    if i < 0 || i >= tags.len() {
        Seq::empty()
    } else {
        let t = spec_trim(tags[i]);
        if t.len() == 0 || seen.contains(t) {
            spec_unique_tags(tags, i + 1, seen)
        } else {
            seq![t] + spec_unique_tags(tags, i + 1, seen.insert(t))
        }
    }
}

#[verifier::loop_isolation(false)]
fn vec_contains_str(v: &Vec<String>, s: &str) -> (r: bool)
    ensures
        r == v.deep_view().contains(s@),
{
    let n = v.len();
    let mut i: usize = 0;
    while i < n
        invariant
            0 <= i <= n,
            forall|k: int| 0 <= k < i ==> v.deep_view()[k] != s@,
        decreases n - i,
    {
        proof {
            assert(v.deep_view()[i as int] == v@[i as int]@);
        }
        if str_eq(v[i].as_str(), s) {
            proof {
                assert(v.deep_view().contains(s@));
            }
            return true;
        }
        i += 1;
    }
    proof {
        if v.deep_view().contains(s@) {
            let k = choose|k: int| 0 <= k < v.deep_view().len() && v.deep_view()[k] == s@;
            assert(false);
        }
    }
    false
}

/// Trim tags, drop empties, keep the first occurrence of each.
#[verifier::loop_isolation(false)]
pub fn unique_tags(tags: Vec<String>) -> (r: Vec<String>)
    ensures
        r.deep_view() == spec_unique_tags(tags.deep_view(), 0, Set::empty()),
{
    let n = tags.len();
    let mut out: Vec<String> = Vec::new();
    let ghost mut seen: Set<Seq<char>> = Set::empty();
    let mut i: usize = 0;
    while i < n
        invariant
            0 <= i <= n,
            out.deep_view() + spec_unique_tags(tags.deep_view(), i as int, seen)
                == spec_unique_tags(tags.deep_view(), 0, Set::empty()),
            forall|t: Seq<char>| seen.contains(t) == out.deep_view().contains(t),
        decreases n - i,
    {
        let ghost prev = out.deep_view();
        let ghost prev_seen = seen;
        proof {
            assert(tags.deep_view()[i as int] == tags@[i as int]@);
        }
        let t = trim_str(tags[i].as_str());
        if t.as_str().unicode_len() > 0 && !vec_contains_str(&out, t.as_str()) {
            out.push(t);
            proof {
                seen = prev_seen.insert(spec_trim(tags.deep_view()[i as int]));
                assert(out.deep_view() =~= prev.push(spec_trim(tags.deep_view()[i as int])));
                assert(out.deep_view() + spec_unique_tags(tags.deep_view(), i as int + 1, seen)
                    =~= prev + spec_unique_tags(tags.deep_view(), i as int, prev_seen));
                assert forall|t2: Seq<char>|
                    seen.contains(t2) == out.deep_view().contains(t2) by {
                    if seen.contains(t2) {
                        if prev_seen.contains(t2) {
                            let k = choose|k: int| 0 <= k < prev.len() && prev[k] == t2;
                            assert(out.deep_view()[k] == t2);
                        } else {
                            assert(out.deep_view().last() == t2);
                        }
                    }
                    if out.deep_view().contains(t2) {
                        let k = choose|k: int|
                            0 <= k < out.deep_view().len() && out.deep_view()[k] == t2;
                        if k < prev.len() {
                            assert(prev[k] == t2);
                        }
                    }
                }
            }
        } else {
            proof {
                assert(spec_unique_tags(tags.deep_view(), i as int, seen) == spec_unique_tags(
                    tags.deep_view(),
                    i as int + 1,
                    seen,
                ));
            }
        }
        i += 1;
    }
    proof {
        assert(out.deep_view() + spec_unique_tags(tags.deep_view(), n as int, seen)
            =~= out.deep_view());
    }
    out
}

/// The dashboard rank of a quota state: available, near limit, exhausted,
/// then everything unknown.
pub open spec fn spec_state_rank(state: Option<Seq<char>>) -> int {
    match state {
        Some(s) => if s == "available"@ {
            0
        } else if s == "near_limit"@ {
            1
        } else if s == "exhausted"@ {
            2
        } else {
            3
        },
        None => 3,
    }
}

/// Rank a quota state for dashboard ordering.
pub fn state_rank(state: Option<&str>) -> (r: u8)
    ensures
        r as int == spec_state_rank(match state {
            Some(s) => Some(s@),
            None => None::<Seq<char>>,
        }),
{
    match state {
        Some(s) => {
            if str_eq(s, "available") {
                0
            } else if str_eq(s, "near_limit") {
                1
            } else if str_eq(s, "exhausted") {
                2
            } else {
                3
            }
        },
        None => 3,
    }
}

/// The text the login poll accepts: the auth file's content changed from
/// what stood before the login (when anything did) and validates.
pub fn accept_login_auth_text(previous: Option<&str>, current: &str) -> (r: Option<Json>)
    ensures
        r matches Some(j) ==> {
            &&& match previous {
                Some(p) => p@ != current@,
                None => true,
            }
            &&& json_of(current@) == Some(j)
            &&& spec_valid_auth(j)
        },
        ((match previous {
            Some(p) => p@ != current@,
            None => true,
        }) && (json_of(current@) matches Some(j) && spec_valid_auth(j))) ==> r is Some,
{
    let updated = match previous {
        Some(p) => !str_eq(p, current),
        None => true,
    };
    if updated {
        match validate_auth_json(current) {
            Ok(j) => Some(j),
            Err(_) => None,
        }
    } else {
        None
    }
}

// ---------------------------------------------------------------------------
// Vault commands
// ---------------------------------------------------------------------------

/// Initialize the vault: requires a password of at least eight characters
/// after trimming; reports whether a fresh initialization happened.
pub fn init_vault(state: &mut AppState, master_password: &str) -> (r: Result<SimpleStatus, String>)
    requires
        old(state).store.wf(),
    ensures
        final(state).store.wf(),
        spec_trim(master_password@).len() < 8 ==> (r is Err && *final(state) == *old(state)),
        r matches Ok(s) ==> (s.ok == (old(state).store.salt is None)),
        r matches Ok(s) ==> (s.ok ==> final(state).vault.key is Some && final(state).store.salt
            is Some),
        r matches Ok(s) ==> (!s.ok ==> *final(state) == *old(state)),
        (spec_trim(master_password@).len() >= 8 && old(state).store.salt is None && encode_utf8(
            spec_trim(master_password@),
        ).len() <= MAX_PASSWORD_BYTES) ==> (r matches Ok(s) && s.ok),
        r matches Ok(s) ==> (s.ok ==> (final(state).store.salt matches Some(ss) && salt_ok(ss@))),
{
    let trimmed = trim_str(master_password);
    if trimmed.as_str().unicode_len() < 8 {
        return Err(CoreError::WeakPassword.message());
    }
    match state.init_vault(trimmed.as_str()) {
        Ok(true) => Ok(
            SimpleStatus { ok: true, message: "vault initialized and unlocked".to_owned() },
        ),
        Ok(false) => Ok(
            SimpleStatus {
                ok: false,
                message: "vault already exists, unlock it instead".to_owned(),
            },
        ),
        Err(e) => Err(e.message()),
    }
}

/// Unlock the vault with the master password.
pub fn unlock_vault(state: &mut AppState, master_password: &str) -> (r: Result<
    SimpleStatus,
    String,
>)
    requires
        old(state).store.wf(),
    ensures
        final(state).store.wf(),
        final(state).store == old(state).store,
        r is Ok ==> final(state).vault.key is Some,
        old(state).store.salt is None ==> r is Err,
        (old(state).store.salt matches Some(s) && salt_ok(s@) && encode_utf8(
            spec_trim(master_password@),
        ).len() <= MAX_PASSWORD_BYTES) ==> r is Ok,
{
    let trimmed = trim_str(master_password);
    match state.unlock_vault(trimmed.as_str()) {
        Ok(()) => Ok(SimpleStatus { ok: true, message: "vault unlocked".to_owned() }),
        Err(e) => Err(e.message()),
    }
}

/// Lock the vault, wiping the key.
pub fn lock_vault(state: &mut AppState) -> (r: Result<SimpleStatus, String>)
    ensures
        final(state).vault.key is None,
        final(state).store == old(state).store,
        r is Ok,
{
    state.lock_vault();
    Ok(SimpleStatus { ok: true, message: "vault locked".to_owned() })
}

/// Whether the vault is unlocked, as a status line.
pub fn vault_status(state: &AppState) -> (r: Result<SimpleStatus, String>)
    ensures
        r matches Ok(s) && s.ok == (state.vault.key is Some),
{
    let unlocked = state.is_vault_unlocked();
    Ok(
        SimpleStatus {
            ok: unlocked,
            message: if unlocked {
                "unlocked".to_owned()
            } else {
                "locked".to_owned()
            },
        },
    )
}

// ---------------------------------------------------------------------------
// Account commands
// ---------------------------------------------------------------------------

/// Every account, most recently updated first.
pub fn list_accounts(state: &AppState) -> (r: Result<Vec<Account>, String>)
    ensures
        r matches Ok(v) && v@.len() == state.store.accounts@.len() && forall|i: int|
            0 <= i < v@.len() ==> (#[trigger] v@[i])@ == state.store.accounts@[i].account@,
{
    Ok(state.store.list_accounts())
}

/// Rename and retag an account.
pub fn update_account_meta(state: &mut AppState, id: &str, name: &str, tags: Vec<String>) -> (r:
    Result<SimpleStatus, String>)
    requires
        old(state).store.wf(),
    ensures
        final(state).store.wf(),
        r is Ok,
        final(state).vault == old(state).vault,
        final(state).store.history == old(state).store.history,
        final(state).store.quotas == old(state).store.quotas,
        find_account_idx(old(state).store.accounts@, spec_trim(id@), 0) matches Some(i) ==> {
            &&& final(state).store.accounts@[0].account@.name == spec_trim(name@)
            &&& final(state).store.accounts@[0].account@.tags == spec_unique_tags(
                tags.deep_view(),
                0,
                Set::empty(),
            )
            &&& final(state).store.accounts@[0].account@.id == old(state).store.accounts@[i].account@.id
        },
        find_account_idx(old(state).store.accounts@, spec_trim(id@), 0) is None ==> final(state).store.accounts == old(state).store.accounts,
{
    let trimmed_id = trim_str(id);
    let deduped = unique_tags(tags);
    match state.store.update_account_meta(trimmed_id.as_str(), name, deduped) {
        Ok(()) => Ok(SimpleStatus { ok: true, message: "account updated".to_owned() }),
        Err(e) => Err(e.message()),
    }
}

/// Delete an account; its audit rows stay.
pub fn delete_account(state: &mut AppState, id: &str) -> (r: Result<SimpleStatus, String>)
    requires
        old(state).store.wf(),
    ensures
        final(state).store.wf(),
        r is Ok,
        final(state).vault == old(state).vault,
        final(state).store.history == old(state).store.history,
        final(state).store.quotas == old(state).store.quotas,
        find_account_idx(old(state).store.accounts@, spec_trim(id@), 0) matches Some(i) ==> final(state).store.accounts@ == old(state).store.accounts@.remove(i),
        find_account_idx(old(state).store.accounts@, spec_trim(id@), 0) is None ==> final(state).store.accounts == old(state).store.accounts,
{
    let trimmed_id = trim_str(id);
    match state.store.delete_account(trimmed_id.as_str()) {
        Ok(()) => Ok(SimpleStatus { ok: true, message: "account deleted".to_owned() }),
        Err(e) => Err(e.message()),
    }
}

/// Up to `limit` history rows (100 when unspecified), newest first.
pub fn list_switch_history(state: &AppState, limit: Option<usize>) -> (r: Result<
    Vec<SwitchHistory>,
    String,
>)
    ensures
        r matches Ok(v) && v@.len() == (if (match limit {
            Some(l) => l as int,
            None => 100,
        }) < state.store.history@.len() {
            match limit {
                Some(l) => l as int,
                None => 100,
            }
        } else {
            state.store.history@.len() as int
        }),
        r matches Ok(v) ==> forall|i: int|
            0 <= i < v@.len() ==> (#[trigger] v@[i])@ == state.store.history@[state.store.history@.len()
                - 1 - i]@,
{
    let lim: usize = match limit {
        Some(l) => l,
        None => 100,
    };
    Ok(state.store.list_switch_history(lim))
}

/// Up to `limit` quota rows (50 when unspecified) of one account, newest
/// first.
pub fn list_quota_snapshots(state: &AppState, account_id: &str, limit: Option<usize>) -> (r: Result<
    Vec<QuotaSnapshot>,
    String,
>)
    ensures
        r matches Ok(v) && v@.len() == (if (match limit {
            Some(l) => l as int,
            None => 50,
        }) < quotas_of(state.store.quotas@, spec_trim(account_id@)).len() {
            match limit {
                Some(l) => l as int,
                None => 50,
            }
        } else {
            quotas_of(state.store.quotas@, spec_trim(account_id@)).len() as int
        }),
        r matches Ok(v) ==> forall|i: int|
            0 <= i < v@.len() ==> (#[trigger] v@[i])@ == quotas_of(
                state.store.quotas@,
                spec_trim(account_id@),
            )[quotas_of(state.store.quotas@, spec_trim(account_id@)).len() - 1 - i],
{
    let lim: usize = match limit {
        Some(l) => l,
        None => 50,
    };
    let trimmed = trim_str(account_id);
    Ok(state.store.list_quota_snapshots(trimmed.as_str(), lim))
}

/// Clamp a policy value into its allowed band.
pub fn clamp_u64(v: u64, lo: u64, hi: u64) -> (r: u64)
    requires
        lo <= hi,
    ensures
        r == (if v < lo {
            lo
        } else if v > hi {
            hi
        } else {
            v
        }),
{
    if v < lo {
        lo
    } else if v > hi {
        hi
    } else {
        v
    }
}

/// Store the quota refresh policy, clamped into the allowed bands:
/// timeout 1000..30000 ms, cache 30..3600 s, fan-out 1..8.
pub fn set_quota_refresh_policy(state: &mut AppState, policy: QuotaRefreshPolicy) -> (r: Result<
    SimpleStatus,
    String,
>)
    ensures
        r is Ok,
        final(state).vault == old(state).vault,
        final(state).store.accounts == old(state).store.accounts,
        final(state).store.history == old(state).store.history,
        final(state).store.quotas == old(state).store.quotas,
        final(state).store.salt == old(state).store.salt,
        final(state).store.quota_timeout_ms == (if policy.timeout_ms < 1000 {
            1000u64
        } else if policy.timeout_ms > 30000 {
            30000u64
        } else {
            policy.timeout_ms
        }),
        final(state).store.quota_cache_ttl_seconds == (if policy.cache_ttl_seconds < 30 {
            30u64
        } else if policy.cache_ttl_seconds > 3600 {
            3600u64
        } else {
            policy.cache_ttl_seconds
        }),
        final(state).store.quota_max_concurrency == (if policy.max_concurrency < 1 {
            1usize
        } else if policy.max_concurrency > 8 {
            8usize
        } else {
            policy.max_concurrency
        }),
{
    let timeout_ms = clamp_u64(policy.timeout_ms, 1000, 30000);
    let ttl = clamp_u64(policy.cache_ttl_seconds, 30, 3600);
    let mc: usize = if policy.max_concurrency < 1 {
        1
    } else if policy.max_concurrency > 8 {
        8
    } else {
        policy.max_concurrency
    };
    state.store.set_quota_policy(timeout_ms, ttl, mc);
    Ok(SimpleStatus { ok: true, message: "quota refresh policy updated".to_owned() })
}

// ---------------------------------------------------------------------------
// Import pipeline
// ---------------------------------------------------------------------------

/// The login flow re-imported the same identity it started from.
pub open spec fn spec_same_identity(j: Json, previous: Option<Seq<char>>) -> bool {
    match previous {
        Some(p) => Some(p) == spec_fingerprint(j),
        None => false,
    }
}

/// The import pipeline over validated auth text: validate, fingerprint,
/// reject the same or an already imported identity, seal the text under the
/// vault key, insert the account. The validated text itself is sealed, every
/// field kept verbatim, so a later switch writes back exactly the bytes that
/// were imported.
pub fn import_account_from_auth_text(
    state: &mut AppState,
    name: &str,
    tags: Vec<String>,
    previous_fingerprint: Option<&str>,
    auth_text: &str,
) -> (r: Result<Account, CoreError>)
    requires
        old(state).store.wf(),
    ensures
        final(state).store.wf(),
        final(state).vault == old(state).vault,
        final(state).store.history == old(state).store.history,
        final(state).store.quotas == old(state).store.quotas,
        final(state).store.same_config(old(state).store),
        r is Err ==> final(state).store.accounts == old(state).store.accounts,
        !(json_of(auth_text@) matches Some(j) && spec_valid_auth(j)) ==> (r matches Err(e) && e
            is AuthSchema),
        json_of(auth_text@) matches Some(j) ==> (spec_valid_auth(j) ==> {
            let prev = match previous_fingerprint {
                Some(p) => Some(p@),
                None => None::<Seq<char>>,
            };
            &&& (old(state).vault.key is None ==> r matches Err(CoreError::VaultLocked))
            &&& (old(state).vault.key is Some && spec_same_identity(j, prev) ==> r matches Err(
                CoreError::SameIdentity,
            ))
            &&& (spec_fingerprint(j) matches Some(fp) ==> ((old(state).vault.key is Some
                && !spec_same_identity(j, prev) && find_fp_idx(old(state).store.accounts@, fp, 0)
                is Some) ==> r matches Err(CoreError::DuplicateAccount)))
            &&& (r matches Ok(a) ==> {
                &&& old(state).vault.key is Some
                &&& !spec_same_identity(j, prev)
                &&& final(state).store.accounts@.len() == old(state).store.accounts@.len() + 1
                &&& final(state).store.accounts@.skip(1) == old(state).store.accounts@
                &&& a@ == final(state).store.accounts@[0].account@
                &&& a@.name == spec_trim(spec_ensure_name(name@, j))
                &&& Some(a@.auth_fingerprint) == spec_fingerprint(j)
                &&& find_fp_idx(old(state).store.accounts@, a@.auth_fingerprint, 0) is None
                &&& a@.tags == spec_unique_tags(tags.deep_view(), 0, Set::empty())
                &&& a@.last_used_at is None
                &&& (old(state).vault.key matches Some(k) ==> decrypt_of(
                    k@,
                    final(state).store.accounts@[0].encrypted_auth_blob@,
                ) == Some(auth_text@))
            })
            &&& (r matches Err(e) ==> (e is VaultLocked || e is SameIdentity || e
                is DuplicateAccount || e is KeySize || e is EncryptFailed || e is Store))
            &&& (r matches Err(CoreError::VaultLocked) ==> old(state).vault.key is None)
            &&& (r matches Err(CoreError::SameIdentity) ==> spec_same_identity(j, prev))
            &&& (spec_fingerprint(j) matches Some(fp) ==> (r matches Err(
                CoreError::DuplicateAccount,
            ) ==> find_fp_idx(old(state).store.accounts@, fp, 0) is Some))
            &&& (r matches Err(CoreError::KeySize) ==> (old(state).vault.key matches Some(k2)
                && k2@.len() != 32))
            &&& (r matches Err(CoreError::EncryptFailed) ==> auth_text.spec_bytes().len()
                >= MAX_SEAL_BYTES)
            &&& ((old(state).vault.key matches Some(k3) && (k3@.len() == 32
                && !spec_same_identity(j, prev) && (spec_fingerprint(j) matches Some(fp2)
                && find_fp_idx(old(state).store.accounts@, fp2, 0) is None)
                && auth_text.spec_bytes().len() < MAX_SEAL_BYTES)) ==> (r is Ok || (r
                matches Err(e2) && e2 is Store)))
        }),
        r matches Err(e) ==> (e is AuthSchema ==> !(json_of(auth_text@) matches Some(j2)
            && spec_valid_auth(j2))),
{
    let j = match validate_auth_json(auth_text) {
        Ok(j) => j,
        Err(e) => {
            return Err(e);
        },
    };
    let mut key = match state.get_vault_key() {
        Ok(k) => k,
        Err(e) => {
            return Err(e);
        },
    };
    let fingerprint = match compute_fingerprint(&j) {
        Ok(f) => f,
        Err(e) => {
            proof {
                assert(false);
            }
            return Err(e);
        },
    };
    match previous_fingerprint {
        Some(prev) => {
            if str_eq(prev, fingerprint.as_str()) {
                wipe_bytes(&mut key);
                return Err(CoreError::SameIdentity);
            }
        },
        None => {},
    }
    if state.store.find_account_by_fingerprint(fingerprint.as_str()).is_some() {
        wipe_bytes(&mut key);
        return Err(CoreError::DuplicateAccount);
    }
    let encrypted = match encrypt_to_base64(&key, auth_text) {
        Ok(c) => c,
        Err(e) => {
            wipe_bytes(&mut key);
            return Err(e);
        },
    };
    wipe_bytes(&mut key);
    let display_name = ensure_name(name, &j);
    let deduped = unique_tags(tags);
    state.store.create_account(
        display_name.as_str(),
        deduped,
        encrypted.as_str(),
        fingerprint.as_str(),
    )
}

// ---------------------------------------------------------------------------
// Switch protocol
// ---------------------------------------------------------------------------

/// Everything a switch needs before the filesystem is touched.
#[derive(Debug)]
pub struct SwitchPrep {
    pub from_account_id: Option<String>,
    pub target_id: String,
    pub auth_text: String,
}

/// Resolve the target, read the current account, open and revalidate the
/// sealed auth text. The caller then snapshots the live auth file, writes
/// this text over it and reports back through `complete_switch`.
pub fn prepare_switch(state: &AppState, id: &str) -> (r: Result<SwitchPrep, CoreError>)
    ensures
        find_account_idx(state.store.accounts@, spec_trim(id@), 0) is None ==> r matches Err(
            CoreError::AccountNotFound,
        ),
        find_account_idx(state.store.accounts@, spec_trim(id@), 0) matches Some(i) ==> {
            &&& (state.vault.key is None ==> r matches Err(CoreError::VaultLocked))
            &&& ((state.vault.key matches Some(k2) && (k2@.len() == 32 && (decrypt_of(
                k2@,
                state.store.accounts@[i].encrypted_auth_blob@,
            ) matches Some(t) && (json_of(t) matches Some(j2) && spec_valid_auth(j2)))))
                ==> r is Ok)
            &&& (r matches Ok(p) ==> {
                &&& p.target_id@ == state.store.accounts@[i].account.id@
                &&& (state.vault.key matches Some(k) && decrypt_of(
                    k@,
                    state.store.accounts@[i].encrypted_auth_blob@,
                ) == Some(p.auth_text@))
                &&& (json_of(p.auth_text@) matches Some(j) && spec_valid_auth(j))
                &&& (state.store.history@.len() == 0 ==> p.from_account_id is None)
                &&& (state.store.history@.len() > 0 ==> (p.from_account_id matches Some(f) && f@
                    == state.store.history@.last().to_account_id@))
            })
        },
{
    let trimmed = trim_str(id);
    let secret = match state.store.get_account_secret(trimmed.as_str()) {
        Some(s) => s,
        None => {
            return Err(CoreError::AccountNotFound);
        },
    };
    let from_account_id = state.store.get_current_account_id();
    let mut key = match state.get_vault_key() {
        Ok(k) => k,
        Err(e) => {
            return Err(e);
        },
    };
    let auth_text = match decrypt_from_base64(&key, secret.encrypted_auth_blob.as_str()) {
        Ok(t) => t,
        Err(e) => {
            wipe_bytes(&mut key);
            return Err(e);
        },
    };
    wipe_bytes(&mut key);
    match validate_auth_json(auth_text.as_str()) {
        Ok(_) => {},
        Err(e) => {
            return Err(e);
        },
    }
    Ok(SwitchPrep { from_account_id, target_id: secret.account.id, auth_text })
}

/// Record the outcome of the auth-file replacement: a failed write appends a
/// `failed` history row and touches no account; a successful write stamps
/// the target as used and appends a `success` row.
pub fn complete_switch(
    state: &mut AppState,
    from_account_id: Option<&str>,
    target_id: &str,
    snapshot_path: Option<&str>,
    write_error: Option<&str>,
    killed_count: Option<usize>,
) -> (r: Result<SwitchResult, CoreError>)
    requires
        old(state).store.wf(),
    ensures
        final(state).store.wf(),
        final(state).vault == old(state).vault,
        final(state).store.quotas == old(state).store.quotas,
        final(state).store.same_config(old(state).store),
        r matches Err(e) ==> e is Store,
        r is Ok ==> final(state).store.history@.len() == old(state).store.history@.len() + 1,
        r is Ok ==> final(state).store.history@.take(old(state).store.history@.len() as int)
            == old(state).store.history@,
        r is Ok ==> final(state).store.history@.last()@.to_account_id == target_id@,
        r is Ok ==> final(state).store.history@.last()@.from_account_id == (
        match from_account_id {
            Some(s) => Some(s@),
            None => None::<Seq<char>>,
        }),
        r is Ok ==> final(state).store.history@.last()@.snapshot_path == (match snapshot_path {
            Some(s) => Some(s@),
            None => None::<Seq<char>>,
        }),
        r matches Ok(res) ==> res.history_id@ == final(state).store.history@.last()@.id,
        r matches Ok(res) ==> res.snapshot_path.deep_view() == (match snapshot_path {
            Some(s) => Some(s@),
            None => None::<Seq<char>>,
        }),
        // a failed write marks nothing as used
        write_error is Some ==> final(state).store.accounts == old(state).store.accounts,
        write_error matches Some(m) ==> (r is Ok ==> final(state).store.history@.last()@.result
            == "failed"@ && final(state).store.history@.last()@.error_message == Some(m@)),
        write_error matches Some(m) ==> (r matches Ok(res) ==> !res.success && res.message@
            == "switch failed: "@ + m@),
        // a successful write stamps the target
        write_error is None ==> (r is Ok ==> final(state).store.history@.last()@.result
            == "success"@ && final(state).store.history@.last()@.error_message is None),
        write_error is None ==> (r matches Ok(res) ==> res.success),
        write_error is None ==> (find_account_idx(old(state).store.accounts@, target_id@, 0)
            matches Some(i) ==> (r is Ok ==> {
            &&& final(state).store.accounts@[0].account@.id == old(
                state,
            ).store.accounts@[i].account@.id
            &&& final(state).store.accounts@[0].account@.last_used_at is Some
            &&& final(state).store.accounts@.skip(1) == old(state).store.accounts@.remove(i)
        })),
        write_error is None ==> (find_account_idx(old(state).store.accounts@, target_id@, 0)
            is None ==> final(state).store.accounts == old(state).store.accounts),
        write_error is None ==> (r matches Ok(res) ==> res.message@ == (match killed_count {
            Some(n) => "switch done, handled "@ + spec_u64_digits(n as int) + " codex processes"@,
            None => "switch done"@,
        })),
{
    match write_error {
        Some(err) => {
            let history_id = match state.store.create_switch_history(
                from_account_id,
                target_id,
                snapshot_path,
                "failed",
                Some(err),
            ) {
                Ok(h) => h,
                Err(e) => {
                    return Err(e);
                },
            };
            Ok(
                SwitchResult {
                    success: false,
                    history_id,
                    snapshot_path: match snapshot_path {
                        Some(s) => Some(s.to_owned()),
                        None => None,
                    },
                    message: "switch failed: ".to_owned().concat(err),
                },
            )
        },
        None => {
            match state.store.mark_account_used(target_id) {
                Ok(()) => {},
                Err(e) => {
                    return Err(e);
                },
            }
            let history_id = match state.store.create_switch_history(
                from_account_id,
                target_id,
                snapshot_path,
                "success",
                None,
            ) {
                Ok(h) => h,
                Err(e) => {
                    return Err(e);
                },
            };
            let message = match killed_count {
                Some(n) => "switch done, handled ".to_owned().concat(
                    u64_to_string(n as u64).as_str(),
                ).concat(" codex processes"),
                None => "switch done".to_owned(),
            };
            Ok(
                SwitchResult {
                    success: true,
                    history_id,
                    snapshot_path: match snapshot_path {
                        Some(s) => Some(s.to_owned()),
                        None => None,
                    },
                    message,
                },
            )
        },
    }
}

// ---------------------------------------------------------------------------
// Rollback
// ---------------------------------------------------------------------------

/// Everything a rollback needs before the filesystem is touched.
#[derive(Debug)]
pub struct RollbackPrep {
    pub from_account_id: Option<String>,
    pub to_account_id: String,
    pub snapshot_path: String,
}

/// Resolve a history row to its snapshot file. The caller then reads and
/// revalidates that file, snapshots the live auth file, replays the content
/// and reports back through `complete_rollback`.
pub fn prepare_rollback(state: &AppState, history_id: &str) -> (r: Result<RollbackPrep, CoreError>)
    ensures
        find_history_idx(state.store.history@, spec_trim(history_id@), 0) is None ==> (r
            matches Err(e) && e is Store),
        find_history_idx(state.store.history@, spec_trim(history_id@), 0) matches Some(i) ==> {
            &&& (state.store.history@[i].snapshot_path is None ==> (r matches Err(e) && e
                is SnapshotMissing))
            &&& (state.store.history@[i].snapshot_path is Some ==> r is Ok)
            &&& (r matches Ok(p) ==> {
                &&& p.from_account_id.deep_view() == state.store.history@[i]@.from_account_id
                &&& p.to_account_id@ == state.store.history@[i]@.to_account_id
                &&& Some(p.snapshot_path@) == state.store.history@[i]@.snapshot_path
            })
        },
{
    let trimmed = trim_str(history_id);
    let row = match state.store.get_switch_history(trimmed.as_str()) {
        Some(h) => h,
        None => {
            return Err(CoreError::Store("history entry not found".to_owned()));
        },
    };
    match row.snapshot_path {
        Some(path) => Ok(
            RollbackPrep {
                from_account_id: row.from_account_id,
                to_account_id: row.to_account_id,
                snapshot_path: path,
            },
        ),
        None => Err(CoreError::SnapshotMissing("this history entry has no snapshot".to_owned())),
    }
}

/// Record a replayed snapshot: append a `rolled_back` history row; no
/// account is stamped as used.
pub fn complete_rollback(
    state: &mut AppState,
    from_account_id: Option<&str>,
    to_account_id: &str,
    restored_snapshot_path: &str,
    current_snapshot: Option<&str>,
    killed_count: usize,
) -> (r: Result<SwitchResult, CoreError>)
    requires
        old(state).store.wf(),
    ensures
        final(state).store.wf(),
        final(state).vault == old(state).vault,
        final(state).store.accounts == old(state).store.accounts,
        final(state).store.quotas == old(state).store.quotas,
        final(state).store.same_config(old(state).store),
        r matches Err(e) ==> e is Store,
        r is Ok ==> final(state).store.history@.len() == old(state).store.history@.len() + 1,
        r is Ok ==> final(state).store.history@.take(old(state).store.history@.len() as int)
            == old(state).store.history@,
        r is Ok ==> final(state).store.history@.last()@.result == "rolled_back"@,
        r is Ok ==> final(state).store.history@.last()@.to_account_id == to_account_id@,
        r is Ok ==> final(state).store.history@.last()@.snapshot_path == (
        match current_snapshot {
            Some(s) => Some(s@),
            None => None::<Seq<char>>,
        }),
        r matches Ok(res) ==> {
            &&& res.success
            &&& res.history_id@ == final(state).store.history@.last()@.id
            &&& res.snapshot_path.deep_view() == Some(restored_snapshot_path@)
            &&& res.message@ == "rollback done, handled "@ + spec_u64_digits(killed_count as int)
                + " codex processes"@
        },
{
    let history_id = match state.store.create_switch_history(
        from_account_id,
        to_account_id,
        current_snapshot,
        "rolled_back",
        None,
    ) {
        Ok(h) => h,
        Err(e) => {
            return Err(e);
        },
    };
    Ok(
        SwitchResult {
            success: true,
            history_id,
            snapshot_path: Some(restored_snapshot_path.to_owned()),
            message: "rollback done, handled ".to_owned().concat(
                u64_to_string(killed_count as u64).as_str(),
            ).concat(" codex processes"),
        },
    )
}

// ---------------------------------------------------------------------------
// Quota refresh
// ---------------------------------------------------------------------------

/// What one account's refresh should do next.
#[derive(Debug)]
pub enum RefreshPlan {
    /// The cached snapshot is fresh: reuse it, no network work.
    Reuse(QuotaSnapshot),
    /// Probe upstream with this request.
    Probe(ProbeRequest),
}

/// What a probe needs: the bearer token, the optional upstream account id,
/// and the configured timeout.
#[derive(Debug)]
pub struct ProbeRequest {
    pub access_token: String,
    pub chatgpt_account_id: Option<String>,
    pub timeout_ms: u64,
}

/// The cache rule: a stored snapshot is fresh when its timestamp parses and
/// its age against the given clock reading lies between zero and the cache
/// lifetime; a negative age is stale forever.
pub open spec fn spec_cache_fresh(created_at: Seq<char>, now_epoch: int, ttl_seconds: int) -> bool {
    epoch_seconds_of(created_at) matches Some(c) && now_epoch - c >= 0 && now_epoch - c
        <= ttl_seconds
}

/// Whether a stored snapshot is fresh at the given clock reading.
pub fn cache_fresh(created_at: &str, now_epoch: i64, ttl_seconds: u64) -> (r: bool)
    ensures
        r == spec_cache_fresh(created_at@, now_epoch as int, ttl_seconds as int),
{
    match crate::store::rfc3339_epoch_seconds(created_at) {
        Some(c) => {
            let age: i128 = (now_epoch as i128) - (c as i128);
            age >= 0 && age <= (ttl_seconds as i128)
        },
        None => false,
    }
}

/// Decide one account's refresh at the given clock reading: reuse a fresh
/// cached snapshot unless forced, else open the sealed auth blob and shape
/// the probe request.
pub fn plan_quota_refresh(state: &AppState, account_id: &str, force: bool, now_epoch: i64) -> (r:
    Result<RefreshPlan, CoreError>)
    ensures
        state.vault.key is None ==> r matches Err(CoreError::VaultLocked),
        (state.vault.key is Some && find_account_idx(state.store.accounts@, spec_trim(account_id@), 0)
            is None) ==> r matches Err(CoreError::AccountNotFound),
        r matches Ok(plan) ==> (plan matches RefreshPlan::Reuse(q) ==> (!force && quotas_of(
            state.store.quotas@,
            spec_trim(account_id@),
        ).len() > 0 && q@ == quotas_of(state.store.quotas@, spec_trim(account_id@)).last())),
        // a fresh cache is reused: no probe, no decryption
        (state.vault.key is Some && (find_account_idx(
            state.store.accounts@,
            spec_trim(account_id@),
            0,
        ) is Some && (!force && (quotas_of(state.store.quotas@, spec_trim(account_id@)).len() > 0
            && spec_cache_fresh(
            quotas_of(state.store.quotas@, spec_trim(account_id@)).last().created_at,
            now_epoch as int,
            state.store.quota_cache_ttl_seconds as int,
        ))))) ==> (r matches Ok(plan) && (plan matches RefreshPlan::Reuse(q2) && q2@ == quotas_of(
            state.store.quotas@,
            spec_trim(account_id@),
        ).last())),
        // a held key over a readable blob always yields a plan
        (state.vault.key matches Some(k2) && (k2@.len() == 32 && (find_account_idx(
            state.store.accounts@,
            spec_trim(account_id@),
            0,
        ) matches Some(i2) && (decrypt_of(
            k2@,
            state.store.accounts@[i2].encrypted_auth_blob@,
        ) matches Some(t2) && (json_of(t2) matches Some(j2) && spec_str_field_trimmed(
            j2,
            "access_token"@,
        ) is Some))))) ==> r is Ok,
        r matches Ok(plan) ==> (plan matches RefreshPlan::Probe(req) ==> (find_account_idx(
            state.store.accounts@,
            spec_trim(account_id@),
            0,
        ) matches Some(i) && (state.vault.key matches Some(k) && (decrypt_of(
            k@,
            state.store.accounts@[i].encrypted_auth_blob@,
        ) matches Some(text) && (json_of(text) matches Some(j) && {
            &&& spec_str_field_trimmed(j, "access_token"@) == Some(req.access_token@)
            &&& req.chatgpt_account_id.deep_view() == spec_str_field_trimmed(j, "account_id"@)
            &&& req.timeout_ms == state.store.quota_timeout_ms
        }))))),
{
    let mut key = match state.get_vault_key() {
        Ok(k) => k,
        Err(e) => {
            return Err(e);
        },
    };
    let trimmed = trim_str(account_id);
    let secret = match state.store.get_account_secret(trimmed.as_str()) {
        Some(s) => s,
        None => {
            wipe_bytes(&mut key);
            return Err(CoreError::AccountNotFound);
        },
    };
    if !force {
        match state.store.latest_quota_by_account(trimmed.as_str()) {
            Some(latest) => {
                let (_, ttl_seconds, _) = state.store.get_quota_policy();
                if cache_fresh(latest.created_at.as_str(), now_epoch, ttl_seconds) {
                    wipe_bytes(&mut key);
                    return Ok(RefreshPlan::Reuse(latest));
                }
            },
            None => {},
        }
    }
    let auth_text = match decrypt_from_base64(&key, secret.encrypted_auth_blob.as_str()) {
        Ok(t) => t,
        Err(e) => {
            wipe_bytes(&mut key);
            return Err(e);
        },
    };
    wipe_bytes(&mut key);
    let j = match parse_json(auth_text.as_str()) {
        Some(j) => j,
        None => {
            return Err(CoreError::AuthSchema(crate::errors::AuthSchemaIssue::NotJson));
        },
    };
    let access_token = match ensure_access_token(&j) {
        Ok(t) => t,
        Err(e) => {
            return Err(e);
        },
    };
    let chatgpt_account_id = get_trimmed_str_field(&j, "account_id");
    let (timeout_ms, _, _) = state.store.get_quota_policy();
    Ok(RefreshPlan::Probe(ProbeRequest { access_token, chatgpt_account_id, timeout_ms }))
}

/// Store one probe outcome as a fresh snapshot of the account.
pub fn record_quota_probe(state: &mut AppState, account_id: &str, probe: &QuotaProbeResult) -> (r:
    Result<QuotaSnapshot, CoreError>)
    requires
        old(state).store.wf(),
    ensures
        final(state).store.wf(),
        final(state).vault == old(state).vault,
        final(state).store.accounts == old(state).store.accounts,
        final(state).store.history == old(state).store.history,
        final(state).store.same_config(old(state).store),
        r matches Err(e) ==> (e is Store && final(state).store.quotas == old(state).store.quotas),
        r matches Ok(q) ==> {
            &&& final(state).store.quotas@.len() == old(state).store.quotas@.len() + 1
            &&& final(state).store.quotas@.take(old(state).store.quotas@.len() as int) == old(
                state,
            ).store.quotas@
            &&& q@ == final(state).store.quotas@.last()@
            &&& q@.account_id == spec_trim(account_id@)
            &&& q@.mode == probe.mode@
            &&& q@.remaining_milli == probe.remaining_milli
            &&& q@.remaining_unit == probe.remaining_unit.deep_view()
            &&& q@.quota_state == probe.quota_state@
            &&& q@.reset_at == probe.reset_at.deep_view()
            &&& q@.source == probe.source@
            &&& q@.confidence == probe.confidence
            &&& q@.reason == probe.reason.deep_view()
        },
{
    let trimmed = trim_str(account_id);
    state.store.save_quota_snapshot(
        trimmed.as_str(),
        probe.mode.as_str(),
        probe.remaining_milli,
        match &probe.remaining_unit {
            Some(u) => Some(u.as_str()),
            None => None,
        },
        probe.quota_state.as_str(),
        match &probe.reset_at {
            Some(t) => Some(t.as_str()),
            None => None,
        },
        probe.source.as_str(),
        probe.confidence,
        match &probe.reason {
            Some(t) => Some(t.as_str()),
            None => None,
        },
    )
}

/// The accounts a refresh works on: one, or all of them.
pub fn refresh_targets(state: &AppState, account_id: Option<&str>) -> (r: Result<
    Vec<AccountSecret>,
    CoreError,
>)
    ensures
        account_id matches Some(id) ==> {
            &&& (find_account_idx(state.store.accounts@, spec_trim(id@), 0) is None ==> r
                matches Err(CoreError::AccountNotFound))
            &&& (find_account_idx(state.store.accounts@, spec_trim(id@), 0) matches Some(i) ==> (r
                matches Ok(v) && v@.len() == 1 && v@[0]@ == state.store.accounts@[i]@))
        },
        account_id is None ==> (r matches Ok(v) && v@.len() == state.store.accounts@.len()
            && forall|i: int|
            0 <= i < v@.len() ==> (#[trigger] v@[i])@ == state.store.accounts@[i]@),
{
    match account_id {
        Some(id) => {
            let trimmed = trim_str(id);
            match state.store.get_account_secret(trimmed.as_str()) {
                Some(s) => {
                    let mut v: Vec<AccountSecret> = Vec::new();
                    v.push(s);
                    Ok(v)
                },
                None => Err(CoreError::AccountNotFound),
            }
        },
        None => {
            let n = state.store.accounts.len();
            let mut v: Vec<AccountSecret> = Vec::new();
            let mut i: usize = 0;
            while i < n
                invariant
                    n == state.store.accounts@.len(),
                    0 <= i <= n,
                    v@.len() == i,
                    forall|k: int|
                        0 <= k < i ==> (#[trigger] v@[k])@ == state.store.accounts@[k]@,
                decreases n - i,
            {
                v.push(clone_secret(&state.store.accounts[i]));
                i += 1;
            }
            Ok(v)
        },
    }
}

// ---------------------------------------------------------------------------
// Dashboard
// ---------------------------------------------------------------------------

/// Accounts joined with their latest snapshots, in account list order.
pub open spec fn spec_dash_base(
    accs: Seq<AccountSecret>,
    qs: Seq<QuotaSnapshot>,
    i: int,
) -> Seq<crate::models::QuotaDashboardItemView>
    decreases accs.len() - i,
{
    if i < 0 || i >= accs.len() {
        Seq::empty()
    } else {
        seq![
            crate::models::QuotaDashboardItemView {
                account: accs[i].account@,
                snapshot: if quotas_of(qs, accs[i].account.id@).len() > 0 {
                    Some(quotas_of(qs, accs[i].account.id@).last())
                } else {
                    None
                },
            },
        ] + spec_dash_base(accs, qs, i + 1)
    }
}

/// The dashboard rank of one item.
pub open spec fn spec_item_rank(d: crate::models::QuotaDashboardItemView) -> int {
    spec_state_rank(
        match d.snapshot {
            Some(s) => Some(s.quota_state),
            None => None,
        },
    )
}

/// The items of one rank, keeping their relative order.
pub open spec fn spec_rank_filter(
    s: Seq<crate::models::QuotaDashboardItemView>,
    k: int,
    i: int,
) -> Seq<crate::models::QuotaDashboardItemView>
    decreases s.len() - i,
{
    if i < 0 || i >= s.len() {
        Seq::empty()
    } else {
        (if spec_item_rank(s[i]) == k {
            seq![s[i]]
        } else {
            Seq::empty()
        }) + spec_rank_filter(s, k, i + 1)
    }
}

/// Views of a dashboard list.
pub open spec fn dash_views(v: Seq<QuotaDashboardItem>) -> Seq<
    crate::models::QuotaDashboardItemView,
> {
    v.map(|_i: int, d: QuotaDashboardItem| d@)
}

fn clone_dash_item(d: &QuotaDashboardItem) -> (r: QuotaDashboardItem)
    ensures
        r@ == d@,
{
    QuotaDashboardItem {
        account: clone_account(&d.account),
        snapshot: match &d.snapshot {
            Some(q) => Some(clone_quota(q)),
            None => None,
        },
    }
}

fn item_rank(d: &QuotaDashboardItem) -> (r: u8)
    ensures
        r as int == spec_item_rank(d@),
{
    match &d.snapshot {
        Some(q) => state_rank(Some(q.quota_state.as_str())),
        None => state_rank(None),
    }
}

#[verifier::loop_isolation(false)]
fn push_rank(base: &Vec<QuotaDashboardItem>, k: u8, out: &mut Vec<QuotaDashboardItem>)
    ensures
        dash_views(final(out)@) == dash_views(old(out)@) + spec_rank_filter(
            dash_views(base@),
            k as int,
            0,
        ),
{
    let n = base.len();
    let mut i: usize = 0;
    while i < n
        invariant
            0 <= i <= n,
            dash_views(out@) + spec_rank_filter(dash_views(base@), k as int, i as int)
                == dash_views(old(out)@) + spec_rank_filter(dash_views(base@), k as int, 0),
        decreases n - i,
    {
        let ghost prev = out@;
        proof {
            assert(dash_views(base@)[i as int] == base@[i as int]@);
        }
        if item_rank(&base[i]) == k {
            out.push(clone_dash_item(&base[i]));
        }
        proof {
            assert(spec_rank_filter(dash_views(base@), k as int, i as int) == (if spec_item_rank(
                dash_views(base@)[i as int],
            ) == k {
                seq![dash_views(base@)[i as int]]
            } else {
                Seq::<crate::models::QuotaDashboardItemView>::empty()
            }) + spec_rank_filter(dash_views(base@), k as int, i as int + 1));
            assert(dash_views(out@) + spec_rank_filter(dash_views(base@), k as int, i as int + 1)
                =~= dash_views(prev) + spec_rank_filter(dash_views(base@), k as int, i as int));
        }
        i += 1;
    }
    proof {
        assert(dash_views(out@) + spec_rank_filter(dash_views(base@), k as int, n as int)
            =~= dash_views(out@));
    }
}

/// Accounts joined with their latest quota snapshots, sorted by state rank
/// (available first, unknown last), keeping the account order inside each
/// rank.
#[verifier::loop_isolation(false)]
pub fn get_quota_dashboard(state: &AppState) -> (r: Result<Vec<QuotaDashboardItem>, String>)
    ensures
        r matches Ok(v) && dash_views(v@) == spec_rank_filter(
            spec_dash_base(state.store.accounts@, state.store.quotas@, 0),
            0,
            0,
        ) + spec_rank_filter(spec_dash_base(state.store.accounts@, state.store.quotas@, 0), 1, 0)
            + spec_rank_filter(spec_dash_base(state.store.accounts@, state.store.quotas@, 0), 2, 0)
            + spec_rank_filter(
            spec_dash_base(state.store.accounts@, state.store.quotas@, 0),
            3,
            0,
        ),
{
    let n = state.store.accounts.len();
    let mut base: Vec<QuotaDashboardItem> = Vec::new();
    let mut i: usize = 0;
    while i < n
        invariant
            0 <= i <= n,
            dash_views(base@) + spec_dash_base(state.store.accounts@, state.store.quotas@, i as int)
                == spec_dash_base(state.store.accounts@, state.store.quotas@, 0),
        decreases n - i,
    {
        let ghost prev = base@;
        let id = state.store.accounts[i].account.id.clone();
        let snapshot = state.store.latest_quota_by_account(id.as_str());
        let account = clone_account(&state.store.accounts[i].account);
        base.push(QuotaDashboardItem { account, snapshot });
        proof {
            assert(spec_dash_base(state.store.accounts@, state.store.quotas@, i as int) == seq![
                crate::models::QuotaDashboardItemView {
                    account: state.store.accounts@[i as int].account@,
                    snapshot: if quotas_of(
                        state.store.quotas@,
                        state.store.accounts@[i as int].account.id@,
                    ).len() > 0 {
                        Some(
                            quotas_of(
                                state.store.quotas@,
                                state.store.accounts@[i as int].account.id@,
                            ).last(),
                        )
                    } else {
                        None
                    },
                },
            ] + spec_dash_base(state.store.accounts@, state.store.quotas@, i as int + 1));
            assert(dash_views(base@) + spec_dash_base(
                state.store.accounts@,
                state.store.quotas@,
                i as int + 1,
            ) =~= dash_views(prev) + spec_dash_base(
                state.store.accounts@,
                state.store.quotas@,
                i as int,
            ));
        }
        i += 1;
    }
    proof {
        assert(dash_views(base@) + spec_dash_base(
            state.store.accounts@,
            state.store.quotas@,
            n as int,
        ) =~= dash_views(base@));
    }
    let mut out: Vec<QuotaDashboardItem> = Vec::new();
    push_rank(&base, 0, &mut out);
    push_rank(&base, 1, &mut out);
    push_rank(&base, 2, &mut out);
    push_rank(&base, 3, &mut out);
    proof {
        let b = spec_dash_base(state.store.accounts@, state.store.quotas@, 0);
        assert(dash_views(out@) =~= spec_rank_filter(b, 0, 0) + spec_rank_filter(b, 1, 0)
            + spec_rank_filter(b, 2, 0) + spec_rank_filter(b, 3, 0));
    }
    Ok(out)
}

} // verus!
