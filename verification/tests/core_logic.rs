//! Process classification, auth validation, fingerprints and probe
//! classification on concrete values.

use codex_switch::auth::{compute_fingerprint, ensure_access_token, ensure_name, validate_auth_json};
use codex_switch::errors::{AuthSchemaIssue, CoreError};
use codex_switch::json::Json;
use codex_switch::process::{
    dedupe_command_targets, format_login_command, is_codex_cli_process_fields,
    is_web_login_unsupported, normalize_file_name, truncate_for_error, CodexCommandTarget,
};
use codex_switch::quota::{
    classify_api_response, classify_web_response, extract_from_codex_headers, extract_from_html,
    merge_probe_results, normalize_quota_state, reason_from_http_status, state_from_milli,
    ProbeStep, QuotaProbeResult,
};
use sha2::Digest;

fn obj(fields: Vec<(&str, Json)>) -> Json {
    Json::Obj(fields.into_iter().map(|(k, v)| (k.to_string(), v)).collect())
}

fn s(text: &str) -> Json {
    Json::Str(text.to_string())
}

fn headers(pairs: Vec<(&str, &str)>) -> Vec<(String, String)> {
    pairs.into_iter().map(|(k, v)| (k.to_string(), v.to_string())).collect()
}

#[test]
fn detects_real_codex_cli_process() {
    let cmd = vec!["C:\\Tools\\codex.exe".to_string()];
    assert!(is_codex_cli_process_fields(
        "codex.exe",
        Some("C:\\Tools\\codex.exe"),
        &cmd,
        Some("codex-switch-app.exe")
    ));
}

#[test]
fn ignores_switch_process_itself() {
    let cmd = vec!["C:\\Apps\\codex-switch-app.exe".to_string()];
    assert!(!is_codex_cli_process_fields(
        "codex-switch-app.exe",
        Some("C:\\Apps\\codex-switch-app.exe"),
        &cmd,
        Some("codex-switch-app.exe")
    ));
}

#[test]
fn ignores_non_cli_process_with_codex_argument() {
    let cmd = vec![
        "node.exe".to_string(),
        "worker.js".to_string(),
        "--project=codex-switch".to_string(),
    ];
    assert!(!is_codex_cli_process_fields(
        "node.exe",
        Some("node.exe"),
        &cmd,
        Some("codex-switch-app.exe")
    ));
}

#[test]
fn detects_web_flag_not_supported_error() {
    assert!(is_web_login_unsupported("error: unexpected argument '--web' found"));
}

#[test]
fn validates_codex_auth_json() {
    let text = r#"{
        "type": "  CoDeX  ",
        "access_token": "token-123",
        "account_id": "acc-1"
    }"#;
    assert!(validate_auth_json(text).is_ok());
}

#[test]
fn rejects_auth_json_without_type() {
    let text = r#"{
        "access_token": "token-123",
        "account_id": "acc-1"
    }"#;
    let error = validate_auth_json(text).unwrap_err().message();
    assert!(error.contains("type"));
}

#[test]
fn rejects_non_codex_type() {
    let text = r#"{
        "type": "chatgpt",
        "access_token": "token-123",
        "account_id": "acc-1"
    }"#;
    let error = validate_auth_json(text).unwrap_err().message();
    assert!(error.contains("codex"));
}

#[test]
fn rejects_auth_json_without_access_token() {
    let text = r#"{
        "type": "codex",
        "account_id": "acc-1"
    }"#;
    let error = validate_auth_json(text).unwrap_err().message();
    assert!(error.contains("access_token"));
}

#[test]
fn fingerprint_is_stable_and_distinct() {
    let auth_a = obj(vec![
        ("type", s("codex")),
        ("access_token", s("token-a")),
        ("account_id", s("account-a")),
        ("email", s("alice@example.com")),
    ]);
    let auth_a_copy = obj(vec![
        ("type", s("codex")),
        ("access_token", s("token-a")),
        ("account_id", s("account-a")),
        ("email", s("alice@example.com")),
    ]);
    let auth_b = obj(vec![
        ("type", s("codex")),
        ("access_token", s("token-b")),
        ("account_id", s("account-b")),
        ("email", s("bob@example.com")),
    ]);

    let fp_a = compute_fingerprint(&auth_a).expect("应生成指纹");
    let fp_a_copy = compute_fingerprint(&auth_a_copy).expect("应生成指纹");
    let fp_b = compute_fingerprint(&auth_b).expect("应生成指纹");

    assert_eq!(fp_a, fp_a_copy);
    assert_ne!(fp_a, fp_b);
    assert!(fp_a.starts_with("account:"));
}

#[test]
fn parses_remaining_from_codex_headers() {
    let headers = headers(vec![("x-codex-remaining", "12.5"), ("x-codex-unit", "requests")]);

    let result = extract_from_codex_headers(
        &headers,
        "api",
        "https://chatgpt.com/backend-api/api/codex/usage",
    )
    .expect("should parse headers");

    assert_eq!(result.mode, "exact");
    assert_eq!(result.remaining_milli, Some(12_500));
    assert_eq!(result.remaining_unit.as_deref(), Some("requests"));
    assert_eq!(result.quota_state, "available");
}

#[test]
fn computes_remaining_from_limit_minus_used_headers() {
    let headers = headers(vec![("x-codex-limit", "100"), ("x-codex-used", "97")]);

    let result = extract_from_codex_headers(
        &headers,
        "api",
        "https://chat.openai.com/backend-api/wham/usage",
    )
    .expect("should parse headers");

    assert_eq!(result.mode, "exact");
    assert_eq!(result.remaining_milli, Some(3_000));
    assert_eq!(result.quota_state, "near_limit");
}

#[test]
fn parses_state_only_from_codex_headers() {
    let headers = headers(vec![("x-codex-state", "exhausted")]);

    let result = extract_from_codex_headers(
        &headers,
        "api",
        "https://chatgpt.com/backend-api/api/codex/usage",
    )
    .expect("should parse state headers");

    assert_eq!(result.mode, "state");
    assert_eq!(result.remaining_milli, None);
    assert_eq!(result.quota_state, "exhausted");
}

#[test]
fn fingerprint_email_is_case_insensitive() {
    let upper = obj(vec![
        ("type", s("codex")),
        ("access_token", s("t")),
        ("email", s("Alice@Example.COM")),
    ]);
    let lower = obj(vec![
        ("type", s("codex")),
        ("access_token", s("t")),
        ("email", s("alice@example.com")),
    ]);
    let fp_upper = compute_fingerprint(&upper).unwrap();
    let fp_lower = compute_fingerprint(&lower).unwrap();
    assert_eq!(fp_upper, fp_lower);
    assert!(fp_upper.starts_with("email:"));
}

#[test]
fn fingerprint_matches_reference_digest() {
    let auth = obj(vec![("type", s("codex")), ("access_token", s("x")), ("account_id", s("acc-9"))]);
    let fp = compute_fingerprint(&auth).unwrap();
    let mut hasher = sha2::Sha256::new();
    hasher.update("account:acc-9".as_bytes());
    let digest = hasher.finalize();
    let expected = format!("account:{}", &hex::encode(digest)[..16]);
    assert_eq!(fp, expected);
}

#[test]
fn fingerprint_fails_without_any_seed() {
    let auth = obj(vec![("type", s("codex"))]);
    let e = compute_fingerprint(&auth).unwrap_err();
    assert!(matches!(e, CoreError::Fingerprint));
}

#[test]
fn ensure_name_prefers_input_then_email_then_account_id() {
    let auth = obj(vec![
        ("type", s("codex")),
        ("access_token", s("t")),
        ("account_id", s("acc-1")),
        ("email", s("a@b.c")),
    ]);
    assert_eq!(ensure_name("  Alice  ", &auth), "Alice");
    assert_eq!(ensure_name("   ", &auth), "a@b.c");
    let no_email = obj(vec![("type", s("codex")), ("access_token", s("t")), ("account_id", s("acc-1"))]);
    assert_eq!(ensure_name("", &no_email), "acc-1");
    let token_only = obj(vec![("type", s("codex")), ("access_token", s("t"))]);
    let fallback = ensure_name("", &token_only);
    assert!(fallback.starts_with("未命名账号-"));
    assert_eq!(fallback.chars().count(), "未命名账号-".chars().count() + 4);
}

#[test]
fn ensure_access_token_requires_the_field() {
    let without = obj(vec![("type", s("codex"))]);
    assert!(matches!(ensure_access_token(&without), Err(CoreError::MissingAccessToken)));
    let with = obj(vec![("type", s("codex")), ("access_token", s("  tok  "))]);
    assert_eq!(ensure_access_token(&with).unwrap(), "tok");
}

#[test]
fn normalizes_quota_states() {
    assert_eq!(normalize_quota_state("exhausted").as_deref(), Some("exhausted"));
    assert_eq!(normalize_quota_state("low").as_deref(), Some("near_limit"));
    assert_eq!(normalize_quota_state("available").as_deref(), Some("available"));
    assert_eq!(normalize_quota_state("weird"), None);
    assert_eq!(normalize_quota_state("EXHAUSTED").as_deref(), Some("exhausted"));
}

#[test]
fn states_from_remaining_value() {
    assert_eq!(state_from_milli(0), "exhausted");
    assert_eq!(state_from_milli(-1_000), "exhausted");
    assert_eq!(state_from_milli(3_000), "near_limit");
    assert_eq!(state_from_milli(3_001), "available");
}

#[test]
fn merge_prefers_exact_api_result() {
    let mut api = QuotaProbeResult::unavailable("x", "api");
    api.mode = "exact".to_string();
    api.remaining_milli = Some(7_000);
    api.quota_state = "available".to_string();
    api.confidence = 88;
    let web = QuotaProbeResult::unavailable("nothing@web", "web");
    let merged = merge_probe_results(api.clone(), web);
    assert_eq!(merged.mode, "exact");
    assert_eq!(merged.source, "api");
    assert_eq!(merged.remaining_milli, Some(7_000));
}

#[test]
fn merge_joins_reasons_when_both_unknown() {
    let api = QuotaProbeResult::unavailable("api_down", "api");
    let web = QuotaProbeResult::unavailable("web_down", "web");
    let merged = merge_probe_results(api, web);
    assert_eq!(merged.quota_state, "unknown");
    assert_eq!(merged.source, "merged");
    assert_eq!(merged.confidence, 20);
    assert_eq!(merged.reason.as_deref(), Some("api:api_down|web:web_down"));
}

#[test]
fn status_reasons_are_labelled() {
    assert_eq!(reason_from_http_status(404, "ep"), "endpoint_not_found@404:ep");
    assert_eq!(reason_from_http_status(429, "ep"), "rate_limited@429:ep");
    assert_eq!(reason_from_http_status(503, "ep"), "upstream_unavailable@503:ep");
    assert_eq!(reason_from_http_status(418, "ep"), "client_error@418:ep");
}

#[test]
fn classifies_api_rate_limit_as_exhausted() {
    let step = classify_api_response(429, &headers(vec![]), "", "https://chatgpt.com/backend-api/api/codex/usage");
    match step {
        ProbeStep::Done(q) => {
            assert_eq!(q.quota_state, "exhausted");
            assert_eq!(q.source, "api");
            assert_eq!(q.confidence, 95);
            assert_eq!(q.mode, "state");
        }
        ProbeStep::Next(_) => panic!("429 must stop the api family"),
    }
}

#[test]
fn classifies_api_json_body_remaining() {
    let body = r#"{"usage":{"remaining": 5, "unit": "msgs"}}"#;
    let step = classify_api_response(200, &headers(vec![]), body, "ep");
    match step {
        ProbeStep::Done(q) => {
            assert_eq!(q.mode, "exact");
            assert_eq!(q.remaining_milli, Some(5_000));
            assert_eq!(q.remaining_unit.as_deref(), Some("msgs"));
            assert_eq!(q.confidence, 88);
        }
        ProbeStep::Next(_) => panic!("a remaining leaf must be found"),
    }
}

#[test]
fn classifies_api_json_exhausted_flag() {
    let body = r#"{"quota_exhausted": true}"#;
    let step = classify_api_response(200, &headers(vec![]), body, "ep");
    match step {
        ProbeStep::Done(q) => {
            assert_eq!(q.mode, "state");
            assert_eq!(q.quota_state, "exhausted");
            assert_eq!(q.confidence, 75);
        }
        ProbeStep::Next(_) => panic!("the exhausted flag must be found"),
    }
}

#[test]
fn classifies_api_unusable_body_as_next() {
    let step = classify_api_response(200, &headers(vec![]), r#"{"hello": "world"}"#, "ep");
    match step {
        ProbeStep::Next(reason) => assert_eq!(reason, "quota_field_not_found@ep"),
        ProbeStep::Done(_) => panic!("nothing to observe here"),
    }
}

#[test]
fn classifies_web_html_number() {
    let html = "<p>Your remaining quota: 42 units</p>";
    let step = classify_web_response(200, html, "https://chatgpt.com/codex");
    match step {
        ProbeStep::Done(q) => {
            assert_eq!(q.mode, "exact");
            assert_eq!(q.remaining_milli, Some(42_000));
            assert_eq!(q.remaining_unit.as_deref(), Some("units"));
            assert_eq!(q.confidence, 60);
        }
        ProbeStep::Next(_) => panic!("the number must be found"),
    }
}

#[test]
fn classifies_web_html_limit_phrase() {
    let html = "<p>Sorry, quota exceeded for today.</p>";
    let q = extract_from_html(html).expect("phrase should match");
    assert_eq!(q.quota_state, "exhausted");
    assert_eq!(q.confidence, 55);
}

#[test]
fn html_gap_longer_than_twenty_does_not_match() {
    let html = "remaining xxxxxxxxxxxxxxxxxxxxxxxxxxxxxx 42";
    assert!(extract_from_html(html).is_none());
}

#[test]
fn normalizes_file_names() {
    assert_eq!(normalize_file_name("\"C:\\Tools\\Codex.EXE\"").as_deref(), Some("codex.exe"));
    assert_eq!(normalize_file_name("/usr/local/bin/codex").as_deref(), Some("codex"));
    assert_eq!(normalize_file_name("  "), None);
    assert_eq!(normalize_file_name("node.exe").as_deref(), Some("node.exe"));
}

#[test]
fn truncates_and_flattens_process_output() {
    assert_eq!(truncate_for_error("a\nb\r\nc", 400), "a b  c");
    assert_eq!(truncate_for_error("  hello  ", 400), "hello");
    assert_eq!(truncate_for_error("abcdef", 3), "abc...");
}

#[test]
fn formats_login_commands() {
    let args = vec!["login".to_string(), "--web".to_string()];
    assert_eq!(format_login_command(&args), "codex login --web");
    let plain = vec!["login".to_string()];
    assert_eq!(format_login_command(&plain), "codex login");
}

#[test]
fn schema_issue_kinds_are_distinct() {
    let no_type = validate_auth_json(r#"{"access_token":"x"}"#).unwrap_err();
    assert!(matches!(no_type, CoreError::AuthSchema(AuthSchemaIssue::MissingType)));
    let wrong = validate_auth_json(r#"{"type":"chatgpt","access_token":"x"}"#).unwrap_err();
    assert!(matches!(wrong, CoreError::AuthSchema(AuthSchemaIssue::WrongType)));
    let no_token = validate_auth_json(r#"{"type":"codex"}"#).unwrap_err();
    assert!(matches!(no_token, CoreError::AuthSchema(AuthSchemaIssue::MissingAccessToken)));
    let not_json = validate_auth_json("not json").unwrap_err();
    assert!(matches!(not_json, CoreError::AuthSchema(AuthSchemaIssue::NotJson)));
}

#[test]
fn dedupes_login_targets_case_insensitively() {
    let t = |program: &str, args: Vec<&str>, display: &str| CodexCommandTarget {
        program: program.to_string(),
        prefix_args: args.into_iter().map(str::to_string).collect(),
        display: display.to_string(),
    };
    let targets = vec![
        t("codex.cmd", vec![], "first"),
        t("CODEX.CMD", vec![], "shadowed by case"),
        t("codex.cmd", vec![], "shadowed exactly"),
        t("powershell", vec!["-File", "C:/a.ps1"], "kept"),
        t("powershell", vec!["-file", "c:/A.PS1"], "shadowed args"),
        t("codex.exe", vec![], "kept too"),
    ];
    let deduped = dedupe_command_targets(targets);
    let displays: Vec<&str> = deduped.iter().map(|t| t.display.as_str()).collect();
    assert_eq!(displays, vec!["first", "kept", "kept too"]);
}

#[test]
fn error_messages_carry_distinct_prefixes() {
    let cases = vec![
        (CoreError::VaultUninitialized, "VaultUninitialized"),
        (CoreError::VaultLocked, "VaultLocked"),
        (CoreError::WeakPassword, "WeakPassword"),
        (CoreError::KeySize, "KeySizeError"),
        (CoreError::DecryptFailed, "DecryptError"),
        (CoreError::AuthFileMissing("/p".to_string()), "AuthFileMissing"),
        (CoreError::AuthSchema(AuthSchemaIssue::NotJson), "AuthSchemaError"),
        (CoreError::Fingerprint, "FingerprintError"),
        (CoreError::SameIdentity, "SameIdentityError"),
        (CoreError::DuplicateAccount, "DuplicateAccountError"),
        (CoreError::AccountNotFound, "AccountNotFound"),
        (CoreError::SnapshotMissing("/p".to_string()), "SnapshotMissing"),
        (CoreError::AtomicWriteFailed("x".to_string()), "AtomicWriteError"),
        (CoreError::SubprocessSpawn("x".to_string()), "SubprocessSpawnError"),
        (CoreError::LoginTimeout, "LoginTimeout"),
        (CoreError::LoginPostPollTimeout, "LoginPostPollTimeout"),
        (CoreError::MissingAccessToken, "MissingAccessToken"),
        (CoreError::QuotaNetwork("x".to_string()), "QuotaNetworkError"),
        (CoreError::Store("x".to_string()), "StoreError"),
    ];
    for (error, prefix) in cases {
        assert!(error.message().starts_with(prefix), "prefix missing for {prefix}");
    }
}

#[test]
fn trims_unicode_whitespace_like_std() {
    // non-breaking space and ideographic space are white space too
    assert_eq!(
        codex_switch::text::trim_str("\u{a0}\u{3000} padded name \u{a0}"),
        "\u{a0}\u{3000} padded name \u{a0}".trim()
    );
    assert_eq!(codex_switch::text::trim_str("\u{a0}x\u{a0}"), "x");
    assert_eq!(normalize_file_name("\u{a0}codex.EXE\u{a0}").as_deref(), Some("codex.exe"));
}
