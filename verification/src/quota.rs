//! Quota probe classification: response headers, JSON and HTML bodies,
//! status reasons and the merge policy. Sending HTTP belongs outside the
//! library; every decision about a response is verified here.

use vstd::prelude::*;
use vstd::string::*;
use crate::json::{json_of, parse_json, spec_find_bool, spec_find_text, spec_num_leaves, collect_num_leaves, find_bool_by_key, find_text_by_key, leaves_view, Json};
use crate::text::{
    codes_eq_nocase, contains_str, lower_code, lower_of, lowercase, spec_contains,
    spec_first_number_milli, first_number_milli, spec_trim, trim_str, str_eq,
    spec_u64_digits, u64_to_string, token_milli_at, is_digit, is_digit_x, lower_code_x,
    num_token_at,
};

verus! {

/// One best-effort quota observation, as the probe reports it.
#[derive(Debug, Clone)]
pub struct QuotaProbeResult {
    pub mode: String,
    pub remaining_milli: Option<i64>,
    pub remaining_unit: Option<String>,
    pub quota_state: String,
    pub reset_at: Option<String>,
    pub source: String,
    pub confidence: i64,
    pub reason: Option<String>,
}

/// The mathematical shadow of a probe result.
pub struct ProbeView {
    pub mode: Seq<char>,
    pub remaining_milli: Option<i64>,
    pub remaining_unit: Option<Seq<char>>,
    pub quota_state: Seq<char>,
    pub reset_at: Option<Seq<char>>,
    pub source: Seq<char>,
    pub confidence: int,
    pub reason: Option<Seq<char>>,
}

/// View of a probe result.
pub open spec fn probe_view(q: QuotaProbeResult) -> ProbeView {
    ProbeView {
        mode: q.mode@,
        remaining_milli: q.remaining_milli,
        remaining_unit: match q.remaining_unit {
            Some(u) => Some(u@),
            None => None,
        },
        quota_state: q.quota_state@,
        reset_at: match q.reset_at {
            Some(t) => Some(t@),
            None => None,
        },
        source: q.source@,
        confidence: q.confidence as int,
        reason: match q.reason {
            Some(t) => Some(t@),
            None => None,
        },
    }
}

/// The well-typed `unknown` observation a failed source degrades to.
pub open spec fn spec_unavailable(reason: Seq<char>, source: Seq<char>) -> ProbeView {
    ProbeView {
        mode: "state"@,
        remaining_milli: None,
        remaining_unit: None,
        quota_state: "unknown"@,
        reset_at: None,
        source: source,
        confidence: 20,
        reason: Some(reason),
    }
}

impl QuotaProbeResult {
    /// A probe that could not observe anything: `unknown`, confidence 20.
    pub fn unavailable(reason: &str, source: &str) -> (r: Self)
        ensures
            probe_view(r) == spec_unavailable(reason@, source@),
    {
        QuotaProbeResult {
            mode: "state".to_owned(),
            remaining_milli: None,
            remaining_unit: None,
            quota_state: "unknown".to_owned(),
            reset_at: None,
            source: source.to_owned(),
            confidence: 20,
            reason: Some(reason.to_owned()),
        }
    }
}

// ---------------------------------------------------------------------------
// States
// ---------------------------------------------------------------------------

/// The state a numeric remaining amount (in thousandths) maps to.
pub open spec fn spec_state_from_milli(v: int) -> Seq<char> {
    if v <= 0 {
        "exhausted"@
    } else if v <= 3000 {
        "near_limit"@
    } else {
        "available"@
    }
}

/// State from a remaining amount in thousandths: zero or less is exhausted,
/// up to three units is near the limit, more is available.
pub fn state_from_milli(v: i64) -> (r: String)
    ensures
        r@ == spec_state_from_milli(v as int),
{
    if v <= 0 {
        "exhausted".to_owned()
    } else if v <= 3000 {
        "near_limit".to_owned()
    } else {
        "available".to_owned()
    }
}

/// Normalization of an upstream state word, over its lowercased characters.
pub open spec fn spec_normalize_state(lower: Seq<char>) -> Option<Seq<char>> {
    if spec_contains(lower, "exhaust"@) || spec_contains(lower, "limit"@) || spec_contains(
        lower,
        "deny"@,
    ) || spec_contains(lower, "blocked"@) {
        Some("exhausted"@)
    } else if spec_contains(lower, "near"@) || spec_contains(lower, "warn"@) || spec_contains(
        lower,
        "low"@,
    ) || spec_contains(lower, "throttle"@) {
        Some("near_limit"@)
    } else if spec_contains(lower, "ok"@) || spec_contains(lower, "allow"@) || spec_contains(
        lower,
        "available"@,
    ) || spec_contains(lower, "active"@) {
        Some("available"@)
    } else {
        None
    }
}

/// Map an upstream state word onto the library's state set, by lowercased
/// substring.
pub fn normalize_quota_state(raw: &str) -> (r: Option<String>)
    ensures
        match r {
            Some(s) => spec_normalize_state(lower_of(raw@)) == Some(s@),
            None => spec_normalize_state(lower_of(raw@)) is None,
        },
{
    let lower = lowercase(raw);
    let l = lower.as_str();
    if contains_str(l, "exhaust") || contains_str(l, "limit") || contains_str(l, "deny")
        || contains_str(l, "blocked") {
        Some("exhausted".to_owned())
    } else if contains_str(l, "near") || contains_str(l, "warn") || contains_str(l, "low")
        || contains_str(l, "throttle") {
        Some("near_limit".to_owned())
    } else if contains_str(l, "ok") || contains_str(l, "allow") || contains_str(l, "available")
        || contains_str(l, "active") {
        Some("available".to_owned())
    } else {
        None
    }
}

// ---------------------------------------------------------------------------
// Reasons
// ---------------------------------------------------------------------------

/// The label an HTTP status maps to.
pub open spec fn spec_status_label(status: int) -> Seq<char> {
    if status == 401 {
        "auth_expired"@
    } else if status == 403 {
        "auth_forbidden"@
    } else if status == 404 {
        "endpoint_not_found"@
    } else if status == 429 {
        "rate_limited"@
    } else if status == 301 || status == 302 || status == 307 || status == 308 {
        "endpoint_redirected"@
    } else if status == 408 || status == 504 {
        "upstream_timeout"@
    } else if status == 502 || status == 503 || status == 500 {
        "upstream_unavailable"@
    } else if 400 <= status && status < 500 {
        "client_error"@
    } else if 500 <= status && status < 600 {
        "server_error"@
    } else {
        "source_unavailable"@
    }
}

/// The recorded reason for an HTTP status: `<label>@<status>:<endpoint>`.
pub open spec fn spec_status_reason(status: int, endpoint: Seq<char>) -> Seq<char> {
    spec_status_label(status) + "@"@ + spec_u64_digits(status) + ":"@ + endpoint
}

/// The reason text recorded for a non-2xx HTTP status.
pub fn reason_from_http_status(status: u16, endpoint: &str) -> (r: String)
    ensures
        r@ == spec_status_reason(status as int, endpoint@),
{
    let label: &str = if status == 401 {
        "auth_expired"
    } else if status == 403 {
        "auth_forbidden"
    } else if status == 404 {
        "endpoint_not_found"
    } else if status == 429 {
        "rate_limited"
    } else if status == 301 || status == 302 || status == 307 || status == 308 {
        "endpoint_redirected"
    } else if status == 408 || status == 504 {
        "upstream_timeout"
    } else if status == 502 || status == 503 || status == 500 {
        "upstream_unavailable"
    } else if 400 <= status && status < 500 {
        "client_error"
    } else if 500 <= status && status < 600 {
        "server_error"
    } else {
        "source_unavailable"
    };
    label.to_owned().concat("@").concat(u64_to_string(status as u64).as_str()).concat(":").concat(
        endpoint,
    )
}

/// What a request that never yielded a response is recorded as.
#[derive(Debug, Clone, Copy, PartialEq, Eq, Structural)]
pub enum RequestFailKind {
    Timeout,
    Connect,
    Build,
    Decode,
    Other,
}

/// The label of a request failure kind.
pub open spec fn spec_request_fail_label(kind: RequestFailKind) -> Seq<char> {
    match kind {
        RequestFailKind::Timeout => "request_timeout"@,
        RequestFailKind::Connect => "connect_failed"@,
        RequestFailKind::Build => "request_build_failed"@,
        RequestFailKind::Decode => "response_decode_failed"@,
        RequestFailKind::Other => "request_failed"@,
    }
}

/// The reason text recorded when the request itself failed:
/// `<label>@<endpoint>`.
pub fn reason_from_request_error(kind: RequestFailKind, endpoint: &str) -> (r: String)
    ensures
        r@ == spec_request_fail_label(kind) + "@"@ + endpoint@,
{
    let label: &str = match kind {
        RequestFailKind::Timeout => "request_timeout",
        RequestFailKind::Connect => "connect_failed",
        RequestFailKind::Build => "request_build_failed",
        RequestFailKind::Decode => "response_decode_failed",
        RequestFailKind::Other => "request_failed",
    };
    label.to_owned().concat("@").concat(endpoint)
}

/// An error message flattened to one line and cut at 120 characters.
pub open spec fn spec_short_error(msg: Seq<char>) -> Seq<char> {
    let flat = crate::process::spec_flatten(msg);
    if flat.len() <= 120 {
        flat
    } else {
        flat.take(120)
    }
}

/// Bound an error message for a reason string.
pub fn short_error(msg: &str) -> (r: String)
    ensures
        r@ == spec_short_error(msg@),
{
    let flat = crate::process::flatten_newlines(msg);
    let n = flat.as_str().unicode_len();
    if n <= 120 {
        flat
    } else {
        proof {
            assert(spec_short_error(msg@) =~= crate::process::spec_flatten(msg@).subrange(
                0,
                120,
            ));
        }
        flat.as_str().substring_char(0, 120).to_owned()
    }
}

// ---------------------------------------------------------------------------
// Header extraction
// ---------------------------------------------------------------------------

/// First header whose name equals `key` up to ASCII case.
pub open spec fn spec_header_get(h: Seq<(String, String)>, key: Seq<char>) -> Option<Seq<char>>
    decreases h.len(),
{
    if h.len() == 0 {
        None
    } else if codes_eq_nocase(h[0].0@, key) {
        Some(h[0].1@)
    } else {
        spec_header_get(h.drop_first(), key)
    }
}

/// Trimmed, non-empty text of the header `key`.
pub open spec fn spec_header_text(h: Seq<(String, String)>, key: Seq<char>) -> Option<Seq<char>> {
    match spec_header_get(h, key) {
        Some(v) => if spec_trim(v).len() > 0 {
            Some(spec_trim(v))
        } else {
            None
        },
        None => None,
    }
}

/// First number (in thousandths) in the value of the header `key`.
pub open spec fn spec_header_number(h: Seq<(String, String)>, key: Seq<char>) -> Option<i64> {
    match spec_header_get(h, key) {
        Some(v) => spec_first_number_milli(v),
        None => None,
    }
}

proof fn lemma_header_number_bounds(h: Seq<(String, String)>, key: Seq<char>)
    ensures
        spec_header_number(h, key) matches Some(v) ==> -999_999_999_999_999_999 <= v
            <= 999_999_999_999_999_999,
{
    match spec_header_get(h, key) {
        Some(t) => {
            crate::text::lemma_first_number_milli_bounds(t);
        },
        None => {},
    }
}

#[verifier::loop_isolation(false)]
fn header_get(h: &Vec<(String, String)>, key: &str) -> (r: Option<String>)
    ensures
        match r {
            Some(v) => spec_header_get(h@, key@) == Some(v@),
            None => spec_header_get(h@, key@) is None,
        },
{
    let n = h.len();
    proof {
        assert(h@.subrange(0, n as int) =~= h@);
    }
    let mut i: usize = 0;
    while i < n
        invariant
            0 <= i <= n,
            spec_header_get(h@, key@) == spec_header_get(h@.subrange(i as int, n as int), key@),
        decreases n - i,
    {
        proof {
            assert(h@.subrange(i as int, n as int).drop_first() =~= h@.subrange(
                i as int + 1,
                n as int,
            ));
            assert(h@.subrange(i as int, n as int)[0] == h@[i as int]);
        }
        if crate::text::eq_ignore_ascii_case_str(h[i].0.as_str(), key) {
            return Some(h[i].1.clone());
        }
        i += 1;
    }
    None
}

fn header_text(h: &Vec<(String, String)>, key: &str) -> (r: Option<String>)
    ensures
        match r {
            Some(v) => spec_header_text(h@, key@) == Some(v@),
            None => spec_header_text(h@, key@) is None,
        },
{
    match header_get(h, key) {
        Some(v) => {
            let t = trim_str(v.as_str());
            if t.as_str().unicode_len() > 0 {
                Some(t)
            } else {
                None
            }
        },
        None => None,
    }
}

fn header_number(h: &Vec<(String, String)>, key: &str) -> (r: Option<i64>)
    ensures
        r == spec_header_number(h@, key@),
{
    match header_get(h, key) {
        Some(v) => first_number_milli(v.as_str()),
        None => None,
    }
}

/// The remaining amount read from the `x-codex-remaining` key family.
pub open spec fn spec_remaining_keys(h: Seq<(String, String)>) -> Option<i64> {
    match spec_header_number(h, "x-codex-remaining"@) {
        Some(v) => Some(v),
        None => match spec_header_number(h, "x-codex-remaining-quota"@) {
            Some(v) => Some(v),
            None => match spec_header_number(h, "x-codex-usage-remaining"@) {
                Some(v) => Some(v),
                None => spec_header_number(h, "x-codex-quota-remaining"@),
            },
        },
    }
}

/// The used amount from its key family.
pub open spec fn spec_used_keys(h: Seq<(String, String)>) -> Option<i64> {
    match spec_header_number(h, "x-codex-used"@) {
        Some(v) => Some(v),
        None => match spec_header_number(h, "x-codex-usage-used"@) {
            Some(v) => Some(v),
            None => spec_header_number(h, "x-codex-consumed"@),
        },
    }
}

/// The limit amount from its key family.
pub open spec fn spec_limit_keys(h: Seq<(String, String)>) -> Option<i64> {
    match spec_header_number(h, "x-codex-limit"@) {
        Some(v) => Some(v),
        None => match spec_header_number(h, "x-codex-usage-limit"@) {
            Some(v) => Some(v),
            None => spec_header_number(h, "x-codex-total"@),
        },
    }
}

/// The remaining amount: the remaining family, else the limit minus the used
/// amount, floored at zero.
pub open spec fn spec_header_remaining(h: Seq<(String, String)>) -> Option<i64> {
    match spec_remaining_keys(h) {
        Some(v) => Some(v),
        None => match spec_used_keys(h) {
            Some(u) => match spec_limit_keys(h) {
                Some(l) => Some(
                    if l - u >= 0 {
                        (l - u) as i64
                    } else {
                        0i64
                    },
                ),
                None => None,
            },
            None => None,
        },
    }
}

/// The unit text from its key family.
pub open spec fn spec_header_unit(h: Seq<(String, String)>) -> Option<Seq<char>> {
    match spec_header_text(h, "x-codex-unit"@) {
        Some(v) => Some(v),
        None => match spec_header_text(h, "x-codex-quota-unit"@) {
            Some(v) => Some(v),
            None => spec_header_text(h, "x-codex-remaining-unit"@),
        },
    }
}

/// The reset timestamp text from its key family.
pub open spec fn spec_header_reset(h: Seq<(String, String)>) -> Option<Seq<char>> {
    match spec_header_text(h, "x-codex-reset-at"@) {
        Some(v) => Some(v),
        None => match spec_header_text(h, "x-codex-reset"@) {
            Some(v) => Some(v),
            None => match spec_header_text(h, "x-codex-reset-ts"@) {
                Some(v) => Some(v),
                None => spec_header_text(h, "x-codex-reset-time"@),
            },
        },
    }
}

/// The normalized state from the state key family.
pub open spec fn spec_header_state(h: Seq<(String, String)>) -> Option<Seq<char>> {
    let raw = match spec_header_text(h, "x-codex-state"@) {
        Some(v) => Some(v),
        None => match spec_header_text(h, "x-codex-quota-state"@) {
            Some(v) => Some(v),
            None => spec_header_text(h, "x-codex-usage-state"@),
        },
    };
    match raw {
        Some(t) => spec_normalize_state(lower_of(t)),
        None => None,
    }
}

/// What the `X-Codex-*` headers alone yield: an exact observation when a
/// remaining amount is present (confidence 96), a state-only observation when
/// only a state is present (confidence 80), nothing otherwise.
pub open spec fn spec_extract_headers(
    h: Seq<(String, String)>,
    source: Seq<char>,
    endpoint: Seq<char>,
) -> Option<ProbeView> {
    let unit = spec_header_unit(h);
    let reset = spec_header_reset(h);
    let state_hdr = spec_header_state(h);
    match spec_header_remaining(h) {
        Some(v) => Some(
            ProbeView {
                mode: "exact"@,
                remaining_milli: Some(v),
                remaining_unit: unit,
                quota_state: match state_hdr {
                    Some(s) => s,
                    None => spec_state_from_milli(v as int),
                },
                reset_at: reset,
                source: source,
                confidence: 96,
                reason: Some("x_codex_headers@"@ + endpoint),
            },
        ),
        None => match state_hdr {
            Some(s) => Some(
                ProbeView {
                    mode: "state"@,
                    remaining_milli: None,
                    remaining_unit: unit,
                    quota_state: s,
                    reset_at: reset,
                    source: source,
                    confidence: 80,
                    reason: Some("x_codex_headers_state@"@ + endpoint),
                },
            ),
            None => None,
        },
    }
}

/// Read a quota observation out of `X-Codex-*` response headers.
pub fn extract_from_codex_headers(
    headers: &Vec<(String, String)>,
    source: &str,
    endpoint: &str,
) -> (r: Option<QuotaProbeResult>)
    ensures
        match r {
            Some(q) => spec_extract_headers(headers@, source@, endpoint@) == Some(probe_view(q)),
            None => spec_extract_headers(headers@, source@, endpoint@) is None,
        },
{
    let remaining: Option<i64> = match header_number(headers, "x-codex-remaining") {
        Some(v) => Some(v),
        None => match header_number(headers, "x-codex-remaining-quota") {
            Some(v) => Some(v),
            None => match header_number(headers, "x-codex-usage-remaining") {
                Some(v) => Some(v),
                None => match header_number(headers, "x-codex-quota-remaining") {
                    Some(v) => Some(v),
                    None => {
                        let used = match header_number(headers, "x-codex-used") {
                            Some(v) => Some(v),
                            None => match header_number(headers, "x-codex-usage-used") {
                                Some(v) => Some(v),
                                None => header_number(headers, "x-codex-consumed"),
                            },
                        };
                        let limit = match header_number(headers, "x-codex-limit") {
                            Some(v) => Some(v),
                            None => match header_number(headers, "x-codex-usage-limit") {
                                Some(v) => Some(v),
                                None => header_number(headers, "x-codex-total"),
                            },
                        };
                        proof {
                            lemma_header_number_bounds(headers@, "x-codex-used"@);
                            lemma_header_number_bounds(headers@, "x-codex-usage-used"@);
                            lemma_header_number_bounds(headers@, "x-codex-consumed"@);
                            lemma_header_number_bounds(headers@, "x-codex-limit"@);
                            lemma_header_number_bounds(headers@, "x-codex-usage-limit"@);
                            lemma_header_number_bounds(headers@, "x-codex-total"@);
                        }
                        match used {
                            Some(u) => match limit {
                                Some(l) => {
                                    if l >= u {
                                        Some(l - u)
                                    } else {
                                        Some(0)
                                    }
                                },
                                None => None,
                            },
                            None => None,
                        }
                    },
                },
            },
        },
    };
    let unit = match header_text(headers, "x-codex-unit") {
        Some(v) => Some(v),
        None => match header_text(headers, "x-codex-quota-unit") {
            Some(v) => Some(v),
            None => header_text(headers, "x-codex-remaining-unit"),
        },
    };
    let reset_at = match header_text(headers, "x-codex-reset-at") {
        Some(v) => Some(v),
        None => match header_text(headers, "x-codex-reset") {
            Some(v) => Some(v),
            None => match header_text(headers, "x-codex-reset-ts") {
                Some(v) => Some(v),
                None => header_text(headers, "x-codex-reset-time"),
            },
        },
    };
    let state_raw = match header_text(headers, "x-codex-state") {
        Some(v) => Some(v),
        None => match header_text(headers, "x-codex-quota-state") {
            Some(v) => Some(v),
            None => header_text(headers, "x-codex-usage-state"),
        },
    };
    let state_hdr = match state_raw {
        Some(t) => normalize_quota_state(t.as_str()),
        None => None,
    };
    match remaining {
        Some(v) => {
            let quota_state = match &state_hdr {
                Some(s) => s.clone(),
                None => state_from_milli(v),
            };
            Some(
                QuotaProbeResult {
                    mode: "exact".to_owned(),
                    remaining_milli: Some(v),
                    remaining_unit: unit,
                    quota_state,
                    reset_at,
                    source: source.to_owned(),
                    confidence: 96,
                    reason: Some("x_codex_headers@".to_owned().concat(endpoint)),
                },
            )
        },
        None => match state_hdr {
            Some(s) => Some(
                QuotaProbeResult {
                    mode: "state".to_owned(),
                    remaining_milli: None,
                    remaining_unit: unit,
                    quota_state: s,
                    reset_at,
                    source: source.to_owned(),
                    confidence: 80,
                    reason: Some("x_codex_headers_state@".to_owned().concat(endpoint)),
                },
            ),
            None => None,
        },
    }
}

// ---------------------------------------------------------------------------
// Merge policy
// ---------------------------------------------------------------------------

/// The merge of the two families' observations: any exact result wins with
/// the api side first, else the first result whose state is known, else a
/// merged `unknown` carrying both reasons.
pub open spec fn spec_merge(api: ProbeView, web: ProbeView) -> ProbeView {
    if api.mode == "exact"@ {
        api
    } else if web.mode == "exact"@ {
        web
    } else if api.quota_state != "unknown"@ {
        api
    } else if web.quota_state != "unknown"@ {
        web
    } else {
        ProbeView {
            mode: "state"@,
            remaining_milli: None,
            remaining_unit: None,
            quota_state: "unknown"@,
            reset_at: None,
            source: "merged"@,
            confidence: 20,
            reason: Some(
                "api:"@ + (match api.reason {
                    Some(t) => t,
                    None => "unknown"@,
                }) + "|web:"@ + (match web.reason {
                    Some(t) => t,
                    None => "unknown"@,
                }),
            ),
        }
    }
}

/// Merge the api and web observations.
pub fn merge_probe_results(api: QuotaProbeResult, web: QuotaProbeResult) -> (r: QuotaProbeResult)
    ensures
        probe_view(r) == spec_merge(probe_view(api), probe_view(web)),
{
    if str_eq(api.mode.as_str(), "exact") {
        return api;
    }
    if str_eq(web.mode.as_str(), "exact") {
        return web;
    }
    if !str_eq(api.quota_state.as_str(), "unknown") {
        return api;
    }
    if !str_eq(web.quota_state.as_str(), "unknown") {
        return web;
    }
    let api_reason: String = match api.reason {
        Some(t) => t,
        None => "unknown".to_owned(),
    };
    let web_reason: String = match web.reason {
        Some(t) => t,
        None => "unknown".to_owned(),
    };
    QuotaProbeResult {
        mode: "state".to_owned(),
        remaining_milli: None,
        remaining_unit: None,
        quota_state: "unknown".to_owned(),
        reset_at: None,
        source: "merged".to_owned(),
        confidence: 20,
        reason: Some(
            "api:".to_owned().concat(api_reason.as_str()).concat("|web:").concat(
                web_reason.as_str(),
            ),
        ),
    }
}

/// Merge law: an exact api observation is what the merge returns, whatever
/// the web side saw.
pub proof fn lemma_merge_prefers_exact_api(api: ProbeView, web: ProbeView)
    requires
        api.mode == "exact"@,
    ensures
        spec_merge(api, web) == api,
{
}

/// Merge law: when neither side is exact and only the api state is known,
/// the merge returns the api observation.
pub proof fn lemma_merge_prefers_known_state(api: ProbeView, web: ProbeView)
    requires
        api.mode != "exact"@,
        web.mode != "exact"@,
        api.quota_state != "unknown"@,
    ensures
        spec_merge(api, web) == api,
{
}

// ---------------------------------------------------------------------------
// JSON body extraction
// ---------------------------------------------------------------------------

/// First leaf from `i` on whose lowercased path contains `word`.
pub open spec fn spec_leaf_pick(leaves: Seq<(Seq<char>, i64)>, word: Seq<char>, i: int) -> Option<
    i64,
>
    decreases leaves.len() - i,
{
    if i < 0 || i >= leaves.len() {
        None
    } else if spec_contains(lower_of(leaves[i].0), word) {
        Some(leaves[i].1)
    } else {
        spec_leaf_pick(leaves, word, i + 1)
    }
}

#[verifier::loop_isolation(false)]
fn pick_leaf(leaves: &Vec<(String, i64)>, word: &str) -> (r: Option<i64>)
    ensures
        r == spec_leaf_pick(leaves_view(leaves@), word@, 0),
{
    let n = leaves.len();
    let mut i: usize = 0;
    while i < n
        invariant
            0 <= i <= n,
            spec_leaf_pick(leaves_view(leaves@), word@, 0) == spec_leaf_pick(
                leaves_view(leaves@),
                word@,
                i as int,
            ),
        decreases n - i,
    {
        proof {
            assert(leaves_view(leaves@)[i as int] == (leaves@[i as int].0@, leaves@[i as int].1));
        }
        let lower = lowercase(leaves[i].0.as_str());
        if contains_str(lower.as_str(), word) {
            return Some(leaves[i].1);
        }
        i += 1;
    }
    None
}

/// The chosen remaining value among the numeric leaves: the first whose path
/// mentions `remaining`, else the first whose path mentions `quota`.
pub open spec fn spec_pick_remaining(leaves: Seq<(Seq<char>, i64)>) -> Option<i64> {
    match spec_leaf_pick(leaves, "remaining"@, 0) {
        Some(v) => Some(v),
        None => spec_leaf_pick(leaves, "quota"@, 0),
    }
}

/// The unit text found in a JSON body.
pub open spec fn spec_json_unit(j: Json) -> Option<Seq<char>> {
    match spec_find_text(j, "unit"@) {
        Some(v) => Some(v),
        None => match spec_find_text(j, "quota_unit"@) {
            Some(v) => Some(v),
            None => spec_find_text(j, "remaining_unit"@),
        },
    }
}

/// The reset timestamp text found in a JSON body.
pub open spec fn spec_json_reset(j: Json) -> Option<Seq<char>> {
    match spec_find_text(j, "reset_at"@) {
        Some(v) => Some(v),
        None => match spec_find_text(j, "resetAt"@) {
            Some(v) => Some(v),
            None => spec_find_text(j, "next_reset"@),
        },
    }
}

/// An exact observation from a JSON body: the chosen numeric leaf with unit
/// and reset looked up by key, confidence 88.
pub open spec fn spec_exact_from_json(j: Json, source: Seq<char>) -> Option<ProbeView> {
    match spec_pick_remaining(spec_num_leaves(Seq::<char>::empty(), j)) {
        Some(v) => Some(
            ProbeView {
                mode: "exact"@,
                remaining_milli: Some(v),
                remaining_unit: spec_json_unit(j),
                quota_state: spec_state_from_milli(v as int),
                reset_at: spec_json_reset(j),
                source: source,
                confidence: 88,
                reason: None,
            },
        ),
        None => None,
    }
}

fn json_unit(j: &Json) -> (r: Option<String>)
    ensures
        match r {
            Some(v) => spec_json_unit(*j) == Some(v@),
            None => spec_json_unit(*j) is None,
        },
{
    match find_text_by_key(j, "unit") {
        Some(v) => Some(v),
        None => match find_text_by_key(j, "quota_unit") {
            Some(v) => Some(v),
            None => find_text_by_key(j, "remaining_unit"),
        },
    }
}

fn json_reset(j: &Json) -> (r: Option<String>)
    ensures
        match r {
            Some(v) => spec_json_reset(*j) == Some(v@),
            None => spec_json_reset(*j) is None,
        },
{
    match find_text_by_key(j, "reset_at") {
        Some(v) => Some(v),
        None => match find_text_by_key(j, "resetAt") {
            Some(v) => Some(v),
            None => find_text_by_key(j, "next_reset"),
        },
    }
}

/// Read an exact observation out of a JSON body, if it has a usable numeric
/// leaf.
pub fn extract_exact_from_json(j: &Json, source: &str) -> (r: Option<QuotaProbeResult>)
    ensures
        match r {
            Some(q) => spec_exact_from_json(*j, source@) == Some(probe_view(q)),
            None => spec_exact_from_json(*j, source@) is None,
        },
{
    let mut leaves: Vec<(String, i64)> = Vec::new();
    collect_num_leaves("", j, &mut leaves);
    proof {
        reveal_strlit("");
        assert(""@ =~= Seq::<char>::empty());
        assert(leaves_view(Seq::<(String, i64)>::empty()) =~= Seq::<(Seq<char>, i64)>::empty());
        assert(leaves_view(leaves@) =~= spec_num_leaves(Seq::<char>::empty(), *j));
    }
    let picked = match pick_leaf(&leaves, "remaining") {
        Some(v) => Some(v),
        None => pick_leaf(&leaves, "quota"),
    };
    match picked {
        Some(v) => Some(
            QuotaProbeResult {
                mode: "exact".to_owned(),
                remaining_milli: Some(v),
                remaining_unit: json_unit(j),
                quota_state: state_from_milli(v),
                reset_at: json_reset(j),
                source: source.to_owned(),
                confidence: 88,
                reason: None,
            },
        ),
        None => None,
    }
}

/// The first boolean among the exhaustion flags.
pub open spec fn spec_exhausted_flag(j: Json) -> Option<bool> {
    match spec_find_bool(j, "quota_exhausted"@) {
        Some(b) => Some(b),
        None => match spec_find_bool(j, "limit_reached"@) {
            Some(b) => Some(b),
            None => spec_find_bool(j, "exhausted"@),
        },
    }
}

/// A state-only observation from a JSON body: exhausted when a boolean
/// exhaustion flag is set, confidence 75.
pub open spec fn spec_state_from_json(j: Json, source: Seq<char>) -> Option<ProbeView> {
    if spec_exhausted_flag(j) == Some(true) {
        Some(
            ProbeView {
                mode: "state"@,
                remaining_milli: None,
                remaining_unit: None,
                quota_state: "exhausted"@,
                reset_at: spec_json_reset(j),
                source: source,
                confidence: 75,
                reason: Some("state_only"@),
            },
        )
    } else {
        None
    }
}

/// Read a state-only observation out of a JSON body's exhaustion flags.
pub fn extract_state_from_json(j: &Json, source: &str) -> (r: Option<QuotaProbeResult>)
    ensures
        match r {
            Some(q) => spec_state_from_json(*j, source@) == Some(probe_view(q)),
            None => spec_state_from_json(*j, source@) is None,
        },
{
    let flag = match find_bool_by_key(j, "quota_exhausted") {
        Some(b) => Some(b),
        None => match find_bool_by_key(j, "limit_reached") {
            Some(b) => Some(b),
            None => find_bool_by_key(j, "exhausted"),
        },
    };
    let exhausted = match flag {
        Some(b) => b,
        None => false,
    };
    if exhausted {
        Some(
            QuotaProbeResult {
                mode: "state".to_owned(),
                remaining_milli: None,
                remaining_unit: None,
                quota_state: "exhausted".to_owned(),
                reset_at: json_reset(j),
                source: source.to_owned(),
                confidence: 75,
                reason: Some("state_only".to_owned()),
            },
        )
    } else {
        None
    }
}

// ---------------------------------------------------------------------------
// HTML body extraction
// ---------------------------------------------------------------------------

/// `w` occurs at position `i` of `s` up to ASCII case.
pub open spec fn spec_word_at_nocase(s: Seq<char>, i: int, w: Seq<char>) -> bool {
    0 <= i && i + w.len() <= s.len() && forall|t: int|
        0 <= t < w.len() ==> lower_code(s[i + t]) == lower_code(w[t])
}

/// Length of the quota word matching at `i`, if one does.
pub open spec fn spec_html_word_len_at(s: Seq<char>, i: int) -> Option<int> {
    if spec_word_at_nocase(s, i, "remaining"@) {
        Some("remaining"@.len() as int)
    } else if spec_word_at_nocase(s, i, "quota"@) {
        Some("quota"@.len() as int)
    } else {
        None
    }
}

/// Position of the first digit at or after `p`.
pub open spec fn spec_first_digit_from(s: Seq<char>, p: int) -> Option<int>
    recommends
        0 <= p <= s.len(),
    decreases s.len() - p,
{
    if p < 0 || p >= s.len() {
        None
    } else if is_digit(s[p]) {
        Some(p)
    } else {
        spec_first_digit_from(s, p + 1)
    }
}

/// Digit position of a full pattern match whose word starts at `i`: a quota
/// word, at most twenty non-digits, then a number.
pub open spec fn spec_html_hit_at(s: Seq<char>, i: int) -> Option<int> {
    match spec_html_word_len_at(s, i) {
        Some(w) => match spec_first_digit_from(s, i + w) {
            Some(d) => if d - (i + w) <= 20 {
                Some(d)
            } else {
                None
            },
            None => None,
        },
        None => None,
    }
}

/// Digit position of the leftmost full pattern match from `i` on.
pub open spec fn spec_html_first_hit(s: Seq<char>, i: int) -> Option<int>
    recommends
        0 <= i <= s.len(),
    decreases s.len() - i,
{
    if i < 0 || i >= s.len() {
        None
    } else {
        match spec_html_hit_at(s, i) {
            Some(d) => Some(d),
            None => spec_html_first_hit(s, i + 1),
        }
    }
}

/// What an HTML body yields: the first number within twenty characters of a
/// quota word (exact, confidence 60, unit `units`), else an exhausted state
/// when a limit phrase occurs (confidence 55), else nothing.
pub open spec fn spec_extract_html(s: Seq<char>) -> Option<ProbeView> {
    match spec_html_first_hit(s, 0) {
        Some(d) => match token_milli_at(s, d) {
            Some(v) => Some(
                ProbeView {
                    mode: "exact"@,
                    remaining_milli: Some(v),
                    remaining_unit: Some("units"@),
                    quota_state: spec_state_from_milli(v as int),
                    reset_at: None,
                    source: "web"@,
                    confidence: 60,
                    reason: None,
                },
            ),
            None => None,
        },
        None => {
            let lower = lower_of(s);
            if spec_contains(lower, "limit reached"@) || spec_contains(lower, "quota exceeded"@)
                || spec_contains(lower, "you've reached your usage limit"@) {
                Some(
                    ProbeView {
                        mode: "state"@,
                        remaining_milli: None,
                        remaining_unit: None,
                        quota_state: "exhausted"@,
                        reset_at: None,
                        source: "web"@,
                        confidence: 55,
                        reason: Some("state_only"@),
                    },
                )
            } else {
                None
            }
        },
    }
}

fn word_nocase_at(s: &str, i: usize, pat: &str, n: usize) -> (r: bool)
    requires
        n == s@.len(),
        i <= n,
    ensures
        r == spec_word_at_nocase(s@, i as int, pat@),
{
    let m = pat.unicode_len();
    if m > n - i {
        return false;
    }
    let mut t: usize = 0;
    while t < m
        invariant
            n == s@.len(),
            m == pat@.len(),
            i + m <= n,
            0 <= t <= m,
            forall|u: int| 0 <= u < t ==> lower_code(s@[i + u]) == lower_code(pat@[u]),
        decreases m - t,
    {
        if lower_code_x(s.get_char(i + t)) != lower_code_x(pat.get_char(t)) {
            return false;
        }
        t += 1;
    }
    true
}

#[verifier::loop_isolation(false)]
fn first_digit_from_x(s: &str, p: usize, n: usize) -> (r: Option<usize>)
    requires
        n == s@.len(),
        p <= n,
    ensures
        match r {
            Some(d) => spec_first_digit_from(s@, p as int) == Some(d as int) && p <= d < n
                && is_digit(s@[d as int]),
            None => spec_first_digit_from(s@, p as int) is None,
        },
{
    let mut q: usize = p;
    while q < n
        invariant
            p <= q <= n,
            spec_first_digit_from(s@, p as int) == spec_first_digit_from(s@, q as int),
        decreases n - q,
    {
        if is_digit_x(s.get_char(q)) {
            return Some(q);
        }
        q += 1;
    }
    None
}

fn html_hit_at(s: &str, i: usize, n: usize) -> (r: Option<usize>)
    requires
        n == s@.len(),
        i < n,
    ensures
        match r {
            Some(d) => spec_html_hit_at(s@, i as int) == Some(d as int) && d < n && is_digit(
                s@[d as int],
            ) && num_token_at(s@, d as int),
            None => spec_html_hit_at(s@, i as int) is None,
        },
{
    let w: usize = if word_nocase_at(s, i, "remaining", n) {
        proof {
            reveal_strlit("remaining");
        }
        9
    } else if word_nocase_at(s, i, "quota", n) {
        proof {
            reveal_strlit("remaining");
            reveal_strlit("quota");
        }
        5
    } else {
        proof {
            reveal_strlit("remaining");
            reveal_strlit("quota");
        }
        return None;
    };
    match first_digit_from_x(s, i + w, n) {
        Some(d) => {
            if d - (i + w) <= 20 {
                Some(d)
            } else {
                None
            }
        },
        None => None,
    }
}

/// Read an observation out of an HTML body.
#[verifier::loop_isolation(false)]
pub fn extract_from_html(html: &str) -> (r: Option<QuotaProbeResult>)
    ensures
        match r {
            Some(q) => spec_extract_html(html@) == Some(probe_view(q)),
            None => spec_extract_html(html@) is None,
        },
{
    let n = html.unicode_len();
    let mut i: usize = 0;
    while i < n
        invariant
            0 <= i <= n,
            spec_html_first_hit(html@, 0) == spec_html_first_hit(html@, i as int),
        decreases n - i,
    {
        match html_hit_at(html, i, n) {
            Some(d) => {
                let (v, _) = crate::text::token_milli_x(html, d, n);
                match v {
                    Some(v) => {
                        return Some(
                            QuotaProbeResult {
                                mode: "exact".to_owned(),
                                remaining_milli: Some(v),
                                remaining_unit: Some("units".to_owned()),
                                quota_state: state_from_milli(v),
                                reset_at: None,
                                source: "web".to_owned(),
                                confidence: 60,
                                reason: None,
                            },
                        );
                    },
                    None => {
                        return None;
                    },
                }
            },
            None => {},
        }
        i += 1;
    }
    let lower = lowercase(html);
    let l = lower.as_str();
    if contains_str(l, "limit reached") || contains_str(l, "quota exceeded") || contains_str(
        l,
        "you've reached your usage limit",
    ) {
        Some(
            QuotaProbeResult {
                mode: "state".to_owned(),
                remaining_milli: None,
                remaining_unit: None,
                quota_state: "exhausted".to_owned(),
                reset_at: None,
                source: "web".to_owned(),
                confidence: 55,
                reason: Some("state_only".to_owned()),
            },
        )
    } else {
        None
    }
}

// ---------------------------------------------------------------------------
// Endpoints and per-response classification
// ---------------------------------------------------------------------------

/// The api endpoint list, in probe order.
pub fn api_endpoints() -> (r: Vec<String>)
    ensures
        r@.len() == 8,
        r@[0]@ == "https://chatgpt.com/backend-api/api/codex/usage"@,
        r@[1]@ == "https://chatgpt.com/backend-api/wham/usage"@,
        r@[2]@ == "https://chat.openai.com/backend-api/api/codex/usage"@,
        r@[3]@ == "https://chat.openai.com/backend-api/wham/usage"@,
        r@[4]@ == "https://chatgpt.com/backend-api/codex/usage"@,
        r@[5]@ == "https://chatgpt.com/backend-api/usage"@,
        r@[6]@ == "https://chat.openai.com/backend-api/codex/usage"@,
        r@[7]@ == "https://chat.openai.com/backend-api/usage"@,
{
    let mut v: Vec<String> = Vec::new();
    v.push("https://chatgpt.com/backend-api/api/codex/usage".to_owned());
    v.push("https://chatgpt.com/backend-api/wham/usage".to_owned());
    v.push("https://chat.openai.com/backend-api/api/codex/usage".to_owned());
    v.push("https://chat.openai.com/backend-api/wham/usage".to_owned());
    v.push("https://chatgpt.com/backend-api/codex/usage".to_owned());
    v.push("https://chatgpt.com/backend-api/usage".to_owned());
    v.push("https://chat.openai.com/backend-api/codex/usage".to_owned());
    v.push("https://chat.openai.com/backend-api/usage".to_owned());
    v
}

/// The web endpoint list, in probe order.
pub fn web_endpoints() -> (r: Vec<String>)
    ensures
        r@.len() == 2,
        r@[0]@ == "https://chatgpt.com/codex"@,
        r@[1]@ == "https://chat.openai.com/codex"@,
{
    let mut v: Vec<String> = Vec::new();
    v.push("https://chatgpt.com/codex".to_owned());
    v.push("https://chat.openai.com/codex".to_owned());
    v
}

/// What one endpoint's response means for the family loop.
#[derive(Debug, Clone)]
pub enum ProbeStep {
    /// The family is done and reports this observation.
    Done(QuotaProbeResult),
    /// Record this reason and try the family's next endpoint.
    Next(String),
}

/// The mathematical shadow of a probe step.
pub enum StepView {
    Done(ProbeView),
    Next(Seq<char>),
}

/// View of a probe step.
pub open spec fn step_view(s: ProbeStep) -> StepView {
    match s {
        ProbeStep::Done(q) => StepView::Done(probe_view(q)),
        ProbeStep::Next(t) => StepView::Next(t@),
    }
}

/// The api family's reading of one response: 401 stops with `unknown`, 429
/// stops with exhausted at confidence 95, another failure status moves on
/// with its reason, and a success is read from the `X-Codex-*` headers, then
/// the JSON body, in that order.
pub open spec fn spec_classify_api(
    status: int,
    h: Seq<(String, String)>,
    body: Seq<char>,
    endpoint: Seq<char>,
) -> StepView {
    if status == 401 {
        StepView::Done(spec_unavailable(spec_status_reason(status, endpoint), "api"@))
    } else if status == 429 {
        StepView::Done(
            ProbeView {
                mode: "state"@,
                remaining_milli: None,
                remaining_unit: None,
                quota_state: "exhausted"@,
                reset_at: None,
                source: "api"@,
                confidence: 95,
                reason: Some(spec_status_reason(status, endpoint)),
            },
        )
    } else if !(200 <= status && status < 300) {
        StepView::Next(spec_status_reason(status, endpoint))
    } else {
        match spec_extract_headers(h, "api"@, endpoint) {
            Some(v) => StepView::Done(v),
            None => match json_of(body) {
                None => StepView::Next("json_parse_failed@"@ + endpoint),
                Some(j) => match spec_exact_from_json(j, "api"@) {
                    Some(v) => StepView::Done(v),
                    None => match spec_state_from_json(j, "api"@) {
                        Some(v) => StepView::Done(v),
                        None => StepView::Next("quota_field_not_found@"@ + endpoint),
                    },
                },
            },
        }
    }
}

/// Classify one api response from its status, headers and body text.
pub fn classify_api_response(
    status: u16,
    headers: &Vec<(String, String)>,
    body_text: &str,
    endpoint: &str,
) -> (r: ProbeStep)
    ensures
        step_view(r) == spec_classify_api(status as int, headers@, body_text@, endpoint@),
{
    if status == 401 {
        return ProbeStep::Done(
            QuotaProbeResult::unavailable(reason_from_http_status(status, endpoint).as_str(), "api"),
        );
    }
    if status == 429 {
        return ProbeStep::Done(
            QuotaProbeResult {
                mode: "state".to_owned(),
                remaining_milli: None,
                remaining_unit: None,
                quota_state: "exhausted".to_owned(),
                reset_at: None,
                source: "api".to_owned(),
                confidence: 95,
                reason: Some(reason_from_http_status(status, endpoint)),
            },
        );
    }
    if !(200 <= status && status < 300) {
        return ProbeStep::Next(reason_from_http_status(status, endpoint));
    }
    match extract_from_codex_headers(headers, "api", endpoint) {
        Some(q) => ProbeStep::Done(q),
        None => match parse_json(body_text) {
            None => ProbeStep::Next("json_parse_failed@".to_owned().concat(endpoint)),
            Some(j) => match extract_exact_from_json(&j, "api") {
                Some(q) => ProbeStep::Done(q),
                None => match extract_state_from_json(&j, "api") {
                    Some(q) => ProbeStep::Done(q),
                    None => ProbeStep::Next("quota_field_not_found@".to_owned().concat(endpoint)),
                },
            },
        },
    }
}

/// The web family's reading of one response: 401 stops with `unknown`, a
/// failure status moves on with its reason, and a success is read from the
/// HTML body.
pub open spec fn spec_classify_web(status: int, body: Seq<char>, endpoint: Seq<char>) -> StepView {
    if status == 401 {
        StepView::Done(spec_unavailable(spec_status_reason(status, endpoint), "web"@))
    } else if !(200 <= status && status < 300) {
        StepView::Next(spec_status_reason(status, endpoint))
    } else {
        match spec_extract_html(body) {
            Some(v) => StepView::Done(v),
            None => StepView::Next("html_parse_failed@"@ + endpoint),
        }
    }
}

/// Classify one web response from its status and body text.
pub fn classify_web_response(status: u16, body_text: &str, endpoint: &str) -> (r: ProbeStep)
    ensures
        step_view(r) == spec_classify_web(status as int, body_text@, endpoint@),
{
    if status == 401 {
        return ProbeStep::Done(
            QuotaProbeResult::unavailable(reason_from_http_status(status, endpoint).as_str(), "web"),
        );
    }
    if !(200 <= status && status < 300) {
        return ProbeStep::Next(reason_from_http_status(status, endpoint));
    }
    match extract_from_html(body_text) {
        Some(q) => ProbeStep::Done(q),
        None => ProbeStep::Next("html_parse_failed@".to_owned().concat(endpoint)),
    }
}

} // verus!
