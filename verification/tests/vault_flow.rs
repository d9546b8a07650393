//! End-to-end flows over the in-memory core: vault lifecycle, import,
//! switch, rollback, quota refresh and the dashboard.

use codex_switch::app_state::AppState;
use codex_switch::commands::{
    accept_login_auth_text, complete_rollback, complete_switch, get_quota_dashboard, init_vault,
    list_accounts, list_switch_history, lock_vault, plan_quota_refresh, prepare_rollback,
    prepare_switch, record_quota_probe, set_quota_refresh_policy, state_rank, unique_tags,
    unlock_vault, vault_status, RefreshPlan,
};
use codex_switch::commands::{delete_account, import_account_from_auth_text, update_account_meta};
use codex_switch::errors::CoreError;
use codex_switch::models::QuotaRefreshPolicy;
use codex_switch::quota::{classify_api_response, ProbeStep};
use codex_switch::store::{now_epoch_seconds, AppStore};

fn fresh_state() -> AppState {
    AppState::initialize(AppStore::new("/tmp/codex-switch-test".to_string()))
}

fn unlocked_state() -> AppState {
    let mut state = fresh_state();
    let status = init_vault(&mut state, "passphrase-1").expect("init must pass");
    assert!(status.ok);
    state
}

fn auth_text(account_id: &str, token: &str) -> String {
    format!(
        "{{\"type\":\"codex\",\"access_token\":\"{}\",\"account_id\":\"{}\"}}",
        token, account_id
    )
}

#[test]
fn vault_lifecycle_and_weak_password() {
    let mut state = fresh_state();
    assert!(init_vault(&mut state, "short").is_err());
    let first = init_vault(&mut state, "passphrase-1").unwrap();
    assert!(first.ok);
    assert!(vault_status(&state).unwrap().ok);
    let second = init_vault(&mut state, "passphrase-1").unwrap();
    assert!(!second.ok);
    lock_vault(&mut state).unwrap();
    assert!(!vault_status(&state).unwrap().ok);
    unlock_vault(&mut state, "passphrase-1").unwrap();
    assert!(vault_status(&state).unwrap().ok);
}

#[test]
fn unlock_before_init_is_refused() {
    let mut state = fresh_state();
    let err = unlock_vault(&mut state, "whatever-pass").unwrap_err();
    assert!(err.contains("VaultUninitialized"));
}

#[test]
fn import_lists_one_account_with_account_fingerprint() {
    let mut state = unlocked_state();
    let text = auth_text("acc-A", "tok-A");
    let account =
        import_account_from_auth_text(&mut state, "", vec![], None, &text).expect("import");
    let listed = list_accounts(&state).unwrap();
    assert_eq!(listed.len(), 1);
    assert!(listed[0].auth_fingerprint.starts_with("account:"));
    assert_eq!(listed[0].id, account.id);
    assert_eq!(listed[0].name, "acc-A");
}

#[test]
fn import_requires_unlocked_vault() {
    let mut state = fresh_state();
    let text = auth_text("acc-A", "tok-A");
    let err = import_account_from_auth_text(&mut state, "", vec![], None, &text).unwrap_err();
    assert!(matches!(err, CoreError::VaultLocked));
}

#[test]
fn duplicate_fingerprint_is_rejected_without_insert() {
    let mut state = unlocked_state();
    let text = auth_text("acc-A", "tok-A");
    import_account_from_auth_text(&mut state, "first", vec![], None, &text).expect("import");
    let again = auth_text("acc-A", "tok-other");
    let err = import_account_from_auth_text(&mut state, "second", vec![], None, &again)
        .unwrap_err();
    assert!(matches!(err, CoreError::DuplicateAccount));
    assert_eq!(list_accounts(&state).unwrap().len(), 1);
}

#[test]
fn login_with_same_identity_is_rejected() {
    let mut state = unlocked_state();
    let text = auth_text("acc-A", "tok-A");
    let first = import_account_from_auth_text(&mut state, "", vec![], None, &text).unwrap();
    let err = import_account_from_auth_text(
        &mut state,
        "",
        vec![],
        Some(first.auth_fingerprint.as_str()),
        &auth_text("acc-A", "tok-B"),
    )
    .unwrap_err();
    assert!(matches!(err, CoreError::SameIdentity));
}

#[test]
fn tags_are_trimmed_and_deduplicated() {
    let tags = vec![" a ".to_string(), "b".to_string(), "a".to_string(), "  ".to_string()];
    assert_eq!(unique_tags(tags), vec!["a".to_string(), "b".to_string()]);
}

#[test]
fn switch_replaces_auth_and_appends_success_history() {
    let mut state = unlocked_state();
    let text_a = auth_text("acc-A", "tok-A");
    let text_b = auth_text("acc-B", "tok-B");
    let _a = import_account_from_auth_text(&mut state, "A", vec![], None, &text_a).unwrap();
    let b = import_account_from_auth_text(&mut state, "B", vec![], None, &text_b).unwrap();

    let prep = prepare_switch(&state, &b.id).expect("prepare");
    assert_eq!(prep.auth_text, text_b);
    assert_eq!(prep.target_id, b.id);
    assert!(prep.from_account_id.is_none());

    let result = complete_switch(
        &mut state,
        prep.from_account_id.as_deref(),
        prep.target_id.as_str(),
        Some("/tmp/codex-switch-test/snapshots/snapshot-1.json"),
        None,
        None,
    )
    .expect("complete");
    assert!(result.success);
    assert_eq!(result.message, "switch done");

    assert_eq!(state.store.get_current_account_id().as_deref(), Some(b.id.as_str()));
    let history = list_switch_history(&state, None).unwrap();
    assert_eq!(history.len(), 1);
    assert_eq!(history[0].result, "success");
    let marked = state.store.get_account(&b.id).unwrap();
    assert!(marked.last_used_at.is_some());
}

#[test]
fn failed_switch_keeps_last_used_untouched() {
    let mut state = unlocked_state();
    let text_a = auth_text("acc-A", "tok-A");
    let a = import_account_from_auth_text(&mut state, "A", vec![], None, &text_a).unwrap();

    let prep = prepare_switch(&state, &a.id).expect("prepare");
    let result = complete_switch(
        &mut state,
        prep.from_account_id.as_deref(),
        prep.target_id.as_str(),
        None,
        Some("disk full"),
        None,
    )
    .expect("complete");
    assert!(!result.success);
    assert_eq!(result.message, "switch failed: disk full");

    let history = list_switch_history(&state, None).unwrap();
    assert_eq!(history.len(), 1);
    assert_eq!(history[0].result, "failed");
    assert_eq!(history[0].error_message.as_deref(), Some("disk full"));
    let unmarked = state.store.get_account(&a.id).unwrap();
    assert!(unmarked.last_used_at.is_none());
}

#[test]
fn unknown_switch_target_is_account_not_found() {
    let state = unlocked_state();
    let err = prepare_switch(&state, "missing-id").unwrap_err();
    assert!(matches!(err, CoreError::AccountNotFound));
}

#[test]
fn rollback_appends_rolled_back_history() {
    let mut state = unlocked_state();
    let text_a = auth_text("acc-A", "tok-A");
    let text_b = auth_text("acc-B", "tok-B");
    let a = import_account_from_auth_text(&mut state, "A", vec![], None, &text_a).unwrap();
    let b = import_account_from_auth_text(&mut state, "B", vec![], None, &text_b).unwrap();

    let prep = prepare_switch(&state, &b.id).expect("prepare");
    let switched = complete_switch(
        &mut state,
        Some(a.id.as_str()),
        prep.target_id.as_str(),
        Some("/snapshots/snapshot-older.json"),
        None,
        None,
    )
    .expect("complete");

    let rb = prepare_rollback(&state, &switched.history_id).expect("rollback prep");
    assert_eq!(rb.snapshot_path, "/snapshots/snapshot-older.json");
    assert_eq!(rb.to_account_id, b.id);

    let rolled = complete_rollback(
        &mut state,
        rb.from_account_id.as_deref(),
        rb.to_account_id.as_str(),
        rb.snapshot_path.as_str(),
        Some("/snapshots/snapshot-newer.json"),
        0,
    )
    .expect("rollback");
    assert!(rolled.success);
    assert_eq!(rolled.snapshot_path.as_deref(), Some("/snapshots/snapshot-older.json"));

    let history = list_switch_history(&state, None).unwrap();
    assert_eq!(history.len(), 2);
    assert_eq!(history[0].result, "rolled_back");
    assert_eq!(history[1].result, "success");
}

#[test]
fn rollback_without_snapshot_is_refused() {
    let mut state = unlocked_state();
    let text_a = auth_text("acc-A", "tok-A");
    let a = import_account_from_auth_text(&mut state, "A", vec![], None, &text_a).unwrap();
    let prep = prepare_switch(&state, &a.id).unwrap();
    let switched = complete_switch(
        &mut state,
        None,
        prep.target_id.as_str(),
        None,
        None,
        None,
    )
    .unwrap();
    let err = prepare_rollback(&state, &switched.history_id).unwrap_err();
    assert!(matches!(err, CoreError::SnapshotMissing(_)));
}

#[test]
fn policy_values_are_clamped() {
    let mut state = unlocked_state();
    set_quota_refresh_policy(
        &mut state,
        QuotaRefreshPolicy { timeout_ms: 50, cache_ttl_seconds: 10, max_concurrency: 99 },
    )
    .unwrap();
    let (timeout, ttl, mc) = state.store.get_quota_policy();
    assert_eq!(timeout, 1000);
    assert_eq!(ttl, 30);
    assert_eq!(mc, 8);
}

#[test]
fn rate_limited_probe_is_stored_as_exhausted_snapshot() {
    let mut state = unlocked_state();
    let text_a = auth_text("acc-A", "tok-A");
    let a = import_account_from_auth_text(&mut state, "A", vec![], None, &text_a).unwrap();

    let step = classify_api_response(
        429,
        &Vec::new(),
        "",
        "https://chatgpt.com/backend-api/api/codex/usage",
    );
    let probe = match step {
        ProbeStep::Done(q) => q,
        ProbeStep::Next(_) => panic!("429 must stop the family"),
    };
    let stored = record_quota_probe(&mut state, &a.id, &probe).expect("record");
    assert_eq!(stored.quota_state, "exhausted");
    assert_eq!(stored.source, "api");
    assert_eq!(stored.confidence, 95);

    let latest = state.store.latest_quota_by_account(&a.id).unwrap();
    assert_eq!(latest.quota_state, "exhausted");
}

#[test]
fn fresh_snapshot_is_reused_without_probing() {
    let mut state = unlocked_state();
    set_quota_refresh_policy(
        &mut state,
        QuotaRefreshPolicy { timeout_ms: 5000, cache_ttl_seconds: 300, max_concurrency: 3 },
    )
    .unwrap();
    let text_a = auth_text("acc-A", "tok-A");
    let a = import_account_from_auth_text(&mut state, "A", vec![], None, &text_a).unwrap();

    // first refresh has no cache and must ask for a probe
    let first = plan_quota_refresh(&state, &a.id, false, now_epoch_seconds()).expect("plan");
    let request = match first {
        RefreshPlan::Probe(req) => req,
        RefreshPlan::Reuse(_) => panic!("no snapshot exists yet"),
    };
    assert_eq!(request.access_token, "tok-A");
    assert_eq!(request.chatgpt_account_id.as_deref(), Some("acc-A"));

    // store an outcome, then the second refresh reuses it: one probe in all
    let step = classify_api_response(429, &Vec::new(), "", "ep");
    let probe = match step {
        ProbeStep::Done(q) => q,
        ProbeStep::Next(_) => panic!(),
    };
    let stored = record_quota_probe(&mut state, &a.id, &probe).unwrap();
    let second = plan_quota_refresh(&state, &a.id, false, now_epoch_seconds()).expect("plan again");
    match second {
        RefreshPlan::Reuse(q) => assert_eq!(q.id, stored.id),
        RefreshPlan::Probe(_) => panic!("the fresh snapshot must be reused"),
    }

    // a forced refresh probes again regardless
    let forced = plan_quota_refresh(&state, &a.id, true, now_epoch_seconds()).expect("forced plan");
    assert!(matches!(forced, RefreshPlan::Probe(_)));
}

#[test]
fn dashboard_sorts_by_state_rank() {
    let mut state = unlocked_state();
    let a = import_account_from_auth_text(&mut state, "A", vec![], None, &auth_text("acc-A", "t1"))
        .unwrap();
    let b = import_account_from_auth_text(&mut state, "B", vec![], None, &auth_text("acc-B", "t2"))
        .unwrap();
    let c = import_account_from_auth_text(&mut state, "C", vec![], None, &auth_text("acc-C", "t3"))
        .unwrap();

    // B exhausted, C available, A has no snapshot (unknown)
    let exhausted = match classify_api_response(429, &Vec::new(), "", "ep") {
        ProbeStep::Done(q) => q,
        ProbeStep::Next(_) => panic!(),
    };
    record_quota_probe(&mut state, &b.id, &exhausted).unwrap();
    let available = match classify_api_response(
        200,
        &vec![("x-codex-remaining".to_string(), "9".to_string())],
        "",
        "ep",
    ) {
        ProbeStep::Done(q) => q,
        ProbeStep::Next(_) => panic!(),
    };
    record_quota_probe(&mut state, &c.id, &available).unwrap();

    let dashboard = get_quota_dashboard(&state).unwrap();
    assert_eq!(dashboard.len(), 3);
    assert_eq!(dashboard[0].account.id, c.id);
    assert_eq!(dashboard[1].account.id, b.id);
    assert_eq!(dashboard[2].account.id, a.id);
    assert!(dashboard[2].snapshot.is_none());
}

#[test]
fn update_and_delete_account_meta() {
    let mut state = unlocked_state();
    let a = import_account_from_auth_text(&mut state, "A", vec![], None, &auth_text("acc-A", "t1"))
        .unwrap();
    update_account_meta(&mut state, &a.id, "  renamed ", vec!["x".to_string(), "x".to_string()])
        .unwrap();
    let listed = list_accounts(&state).unwrap();
    assert_eq!(listed[0].name, "renamed");
    assert_eq!(listed[0].tags, vec!["x".to_string()]);

    delete_account(&mut state, &a.id).unwrap();
    assert!(list_accounts(&state).unwrap().is_empty());
}

#[test]
fn login_poll_accepts_only_changed_valid_text() {
    let before = auth_text("acc-A", "t1");
    let after = auth_text("acc-B", "t2");
    assert!(accept_login_auth_text(Some(&before), &before).is_none());
    assert!(accept_login_auth_text(Some(&before), &after).is_some());
    assert!(accept_login_auth_text(Some(&before), "not json").is_none());
    assert!(accept_login_auth_text(None, &after).is_some());
}

#[test]
fn state_ranks_order_states() {
    assert_eq!(state_rank(Some("available")), 0);
    assert_eq!(state_rank(Some("near_limit")), 1);
    assert_eq!(state_rank(Some("exhausted")), 2);
    assert_eq!(state_rank(Some("weird")), 3);
    assert_eq!(state_rank(None), 3);
}
