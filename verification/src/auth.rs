//! Auth-file schema validation, the deterministic privacy-aware fingerprint,
//! account naming, and access-token extraction.

use vstd::prelude::*;
use vstd::string::*;
use crate::errors::{AuthSchemaIssue, CoreError};
use crate::json::{
    get_trimmed_str_field, json_of, parse_json, spec_str_field_trimmed, Json,
};
use crate::text::{codes_eq_nocase, digit_char, eq_ignore_ascii_case_str, lower_of, lowercase, spec_trim, trim_str};
use sha2::Digest;

verus! {

// ---------------------------------------------------------------------------
// Schema validation
// ---------------------------------------------------------------------------

/// An auth JSON is accepted iff its trimmed `type` equals `codex` up to ASCII
/// case and it has a non-empty `access_token` string.
pub open spec fn spec_valid_auth(j: Json) -> bool {
    &&& spec_str_field_trimmed(j, "type"@) matches Some(t) && codes_eq_nocase(t, "codex"@)
    &&& spec_str_field_trimmed(j, "access_token"@) is Some
}

/// Parse and validate auth-file text against the schema.
pub fn validate_auth_json(text: &str) -> (r: Result<Json, CoreError>)
    ensures
        r matches Ok(j) ==> json_of(text@) == Some(j) && spec_valid_auth(j),
        json_of(text@) is None ==> r matches Err(CoreError::AuthSchema(AuthSchemaIssue::NotJson)),
        json_of(text@) matches Some(j) && spec_str_field_trimmed(j, "type"@) is None ==> r
            matches Err(CoreError::AuthSchema(AuthSchemaIssue::MissingType)),
        json_of(text@) matches Some(j) && spec_str_field_trimmed(j, "type"@) matches Some(t)
            && !codes_eq_nocase(t, "codex"@) ==> r matches Err(
            CoreError::AuthSchema(AuthSchemaIssue::WrongType),
        ),
        json_of(text@) matches Some(j) && spec_str_field_trimmed(j, "type"@) matches Some(t)
            && codes_eq_nocase(t, "codex"@) && spec_str_field_trimmed(j, "access_token"@) is None
            ==> r matches Err(CoreError::AuthSchema(AuthSchemaIssue::MissingAccessToken)),
        json_of(text@) matches Some(j) ==> (spec_valid_auth(j) ==> r == Ok::<Json, CoreError>(j)),
{
    let j = match parse_json(text) {
        Some(j) => j,
        None => {
            return Err(CoreError::AuthSchema(AuthSchemaIssue::NotJson));
        },
    };
    let auth_type = match get_trimmed_str_field(&j, "type") {
        Some(t) => t,
        None => {
            return Err(CoreError::AuthSchema(AuthSchemaIssue::MissingType));
        },
    };
    if !eq_ignore_ascii_case_str(auth_type.as_str(), "codex") {
        return Err(CoreError::AuthSchema(AuthSchemaIssue::WrongType));
    }
    match get_trimmed_str_field(&j, "access_token") {
        Some(_) => Ok(j),
        None => Err(CoreError::AuthSchema(AuthSchemaIssue::MissingAccessToken)),
    }
}

// ---------------------------------------------------------------------------
// Hex and SHA-256
// ---------------------------------------------------------------------------

/// Lowercase hex digit for `d`.
pub open spec fn hex_digit(d: int) -> char
    recommends
        0 <= d < 16,
{
    if d < 10 {
        digit_char(d)
    } else {
        ((d + 87) as u8) as char
    }
}

/// Lowercase hex rendering of a byte sequence, two digits per byte.
pub open spec fn spec_hex(bytes: Seq<u8>) -> Seq<char>
    decreases bytes.len(),
{
    if bytes.len() == 0 {
        Seq::empty()
    } else {
        seq![hex_digit(bytes[0] as int / 16), hex_digit(bytes[0] as int % 16)] + spec_hex(
            bytes.drop_first(),
        )
    }
}

pub proof fn lemma_spec_hex_len(bytes: Seq<u8>)
    ensures
        spec_hex(bytes).len() == 2 * bytes.len(),
    decreases bytes.len(),
{
    if bytes.len() > 0 {
        lemma_spec_hex_len(bytes.drop_first());
    }
}

/// Relies on hex::encode: two lowercase hex digits for each byte, in order.
#[verifier::external_body]
fn to_hex(bytes: &Vec<u8>) -> (r: String)
    ensures
        r@ == spec_hex(bytes@),
{
    hex::encode(bytes)
}

/// The SHA-256 digest of the text's UTF-8 bytes.
pub uninterp spec fn sha256_of(s: Seq<char>) -> Seq<u8>;

/// Relies on sha2's Sha256 over the string's UTF-8 bytes: the digest has 32
/// bytes and depends on the text alone.
#[verifier::external_body]
fn sha256_str(s: &str) -> (r: Vec<u8>)
    ensures
        r@ == sha256_of(s@),
        r@.len() == 32,
{
    let mut hasher = sha2::Sha256::new();
    hasher.update(s.as_bytes());
    let digest = hasher.finalize();
    digest.as_slice().to_vec()
}

// ---------------------------------------------------------------------------
// Fingerprint
// ---------------------------------------------------------------------------

/// The fingerprint seed: the first present of `account_id`, `email`
/// (lowercased) and `access_token`, with its prefix.
pub open spec fn spec_seed(j: Json) -> Option<(Seq<char>, Seq<char>)> {
    match spec_str_field_trimmed(j, "account_id"@) {
        Some(a) => Some(("account"@, a)),
        None => match spec_str_field_trimmed(j, "email"@) {
            Some(e) => Some(("email"@, lower_of(e))),
            None => match spec_str_field_trimmed(j, "access_token"@) {
                Some(t) => Some(("token"@, t)),
                None => None,
            },
        },
    }
}

/// `<prefix>:` followed by the first 16 hex digits of
/// SHA-256 over `<prefix>:<seed>`.
pub open spec fn spec_fingerprint_of_seed(prefix: Seq<char>, seed: Seq<char>) -> Seq<char> {
    prefix + ":"@ + spec_hex(sha256_of(prefix + ":"@ + seed)).take(16)
}

/// The fingerprint of an auth JSON, when a seed exists.
pub open spec fn spec_fingerprint(j: Json) -> Option<Seq<char>> {
    match spec_seed(j) {
        Some((prefix, seed)) => Some(spec_fingerprint_of_seed(prefix, seed)),
        None => None,
    }
}

fn fingerprint_of_seed(prefix: &str, seed: &str) -> (r: String)
    ensures
        r@ == spec_fingerprint_of_seed(prefix@, seed@),
{
    let input = prefix.to_owned().concat(":").concat(seed);
    let digest = sha256_str(input.as_str());
    let full_hex = to_hex(&digest);
    proof {
        lemma_spec_hex_len(digest@);
    }
    let hex16 = full_hex.as_str().substring_char(0, 16);
    proof {
        assert(hex16@ =~= spec_hex(sha256_of(prefix@ + ":"@ + seed@)).take(16));
    }
    prefix.to_owned().concat(":").concat(hex16)
}

/// Deterministic, privacy-aware fingerprint of an auth JSON.
pub fn compute_fingerprint(j: &Json) -> (r: Result<String, CoreError>)
    ensures
        r matches Ok(f) ==> spec_fingerprint(*j) == Some(f@),
        (r is Err) == (spec_fingerprint(*j) is None),
        r matches Err(e) ==> e is Fingerprint,
{
    match get_trimmed_str_field(j, "account_id") {
        Some(a) => Ok(fingerprint_of_seed("account", a.as_str())),
        None => match get_trimmed_str_field(j, "email") {
            Some(e) => {
                let lowered = lowercase(e.as_str());
                Ok(fingerprint_of_seed("email", lowered.as_str()))
            },
            None => match get_trimmed_str_field(j, "access_token") {
                Some(t) => Ok(fingerprint_of_seed("token", t.as_str())),
                None => Err(CoreError::Fingerprint),
            },
        },
    }
}

/// Fingerprint stability: two auth files whose chosen seeds agree get the
/// same fingerprint.
pub proof fn lemma_fingerprint_stable(a: Json, b: Json)
    requires
        spec_seed(a) == spec_seed(b),
    ensures
        spec_fingerprint(a) == spec_fingerprint(b),
{
}

/// Email fingerprints are case-insensitive on the seed: without an
/// `account_id`, two auth files whose emails fold to the same characters get
/// the same fingerprint.
pub proof fn lemma_fingerprint_email_case(a: Json, b: Json, e1: Seq<char>, e2: Seq<char>)
    requires
        spec_str_field_trimmed(a, "account_id"@) is None,
        spec_str_field_trimmed(b, "account_id"@) is None,
        spec_str_field_trimmed(a, "email"@) == Some(e1),
        spec_str_field_trimmed(b, "email"@) == Some(e2),
        lower_of(e1) == lower_of(e2),
    ensures
        spec_fingerprint(a) == spec_fingerprint(b),
{
    assert(spec_seed(a) == spec_seed(b));
    lemma_fingerprint_stable(a, b);
}

// ---------------------------------------------------------------------------
// Naming and token extraction
// ---------------------------------------------------------------------------

/// The fallback name suffix: the first four fingerprint hash digits, or
/// `0000` when no fingerprint exists.
pub open spec fn spec_name_suffix(j: Json) -> Seq<char> {
    match spec_seed(j) {
        Some((prefix, seed)) => spec_hex(sha256_of(prefix + ":"@ + seed)).take(4),
        None => "0000"@,
    }
}

/// The account name: the trimmed user input, else the `email` field, else
/// `account_id`, else a generated fallback name.
pub open spec fn spec_ensure_name(name: Seq<char>, j: Json) -> Seq<char> {
    if spec_trim(name).len() > 0 {
        spec_trim(name)
    } else {
        match spec_str_field_trimmed(j, "email"@) {
            Some(e) => e,
            None => match spec_str_field_trimmed(j, "account_id"@) {
                Some(a) => a,
                None => "未命名账号-"@ + spec_name_suffix(j),
            },
        }
    }
}

/// Pick the display name for an imported account.
pub fn ensure_name(name: &str, j: &Json) -> (r: String)
    ensures
        r@ == spec_ensure_name(name@, *j),
{
    let trimmed = trim_str(name);
    if trimmed.as_str().unicode_len() > 0 {
        return trimmed;
    }
    match get_trimmed_str_field(j, "email") {
        Some(e) => e,
        None => match get_trimmed_str_field(j, "account_id") {
            Some(a) => a,
            None => {
                let suffix = name_suffix(j);
                "未命名账号-".to_owned().concat(suffix.as_str())
            },
        },
    }
}

fn name_suffix(j: &Json) -> (r: String)
    ensures
        r@ == spec_name_suffix(*j),
{
    let seed: Option<(&'static str, String)> = match get_trimmed_str_field(j, "account_id") {
        Some(a) => Some(("account", a)),
        None => match get_trimmed_str_field(j, "email") {
            Some(e) => Some(("email", lowercase(e.as_str()))),
            None => match get_trimmed_str_field(j, "access_token") {
                Some(t) => Some(("token", t)),
                None => None,
            },
        },
    };
    match seed {
        Some((prefix, seed_text)) => {
            let input = prefix.to_owned().concat(":").concat(seed_text.as_str());
            let digest = sha256_str(input.as_str());
            let full_hex = to_hex(&digest);
            proof {
                lemma_spec_hex_len(digest@);
            }
            let hex4 = full_hex.as_str().substring_char(0, 4);
            proof {
                assert(hex4@ =~= spec_name_suffix(*j));
            }
            hex4.to_owned()
        },
        None => "0000".to_owned(),
    }
}

/// The account's access token, required for quota probing.
pub fn ensure_access_token(j: &Json) -> (r: Result<String, CoreError>)
    ensures
        r matches Ok(t) ==> spec_str_field_trimmed(*j, "access_token"@) == Some(t@),
        (r is Err) == (spec_str_field_trimmed(*j, "access_token"@) is None),
        r matches Err(e) ==> e is MissingAccessToken,
{
    match get_trimmed_str_field(j, "access_token") {
        Some(t) => Ok(t),
        None => Err(CoreError::MissingAccessToken),
    }
}

} // verus!
