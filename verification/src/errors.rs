//! Error kinds of the vault core. Every recoverable failure of the library is
//! one of these variants; each maps to a distinct message prefix so that the
//! front-end can show a single string.

use vstd::prelude::*;
use vstd::string::*;

verus! {

/// Why a candidate auth JSON was rejected by schema validation.
#[derive(Clone, Debug, PartialEq, Eq, Structural)]
pub enum AuthSchemaIssue {
    /// The text is not valid JSON at all.
    NotJson,
    /// The top-level object has no non-empty `type` string field.
    MissingType,
    /// The `type` field is present but is not `codex` (case-insensitively).
    WrongType,
    /// The top-level object has no non-empty `access_token` string field.
    MissingAccessToken,
}

/// One error kind for the whole core.
#[derive(Clone, Debug)]
pub enum CoreError {
    VaultUninitialized,
    VaultLocked,
    WeakPassword,
    KeySize,
    EncryptFailed,
    DecryptFailed,
    AuthFileMissing(String),
    AuthSchema(AuthSchemaIssue),
    Fingerprint,
    SameIdentity,
    DuplicateAccount,
    AccountNotFound,
    SnapshotMissing(String),
    AtomicWriteFailed(String),
    SubprocessSpawn(String),
    LoginTimeout,
    LoginPostPollTimeout,
    MissingAccessToken,
    QuotaNetwork(String),
    Store(String),
}

/// The message text of a schema issue, as a sequence of characters.
pub open spec fn spec_schema_message(issue: AuthSchemaIssue) -> Seq<char> {
    match issue {
        AuthSchemaIssue::NotJson => "AuthSchemaError: auth file is not valid JSON"@,
        AuthSchemaIssue::MissingType => "AuthSchemaError: auth file is missing the type field"@,
        AuthSchemaIssue::WrongType => "AuthSchemaError: auth file type field must be codex"@,
        AuthSchemaIssue::MissingAccessToken => "AuthSchemaError: auth file is missing the access_token field"@,
    }
}

/// The message text of an error, as a sequence of characters.
pub open spec fn spec_message(e: CoreError) -> Seq<char> {
    match e {
        CoreError::VaultUninitialized => "VaultUninitialized: the vault has no master password yet"@,
        CoreError::VaultLocked => "VaultLocked: unlock the vault with the master password first"@,
        CoreError::WeakPassword => "WeakPassword: the master password needs at least 8 characters"@,
        CoreError::KeySize => "KeySizeError: the key must be exactly 32 bytes"@,
        CoreError::EncryptFailed => "EncryptError: encrypting the auth file failed"@,
        CoreError::DecryptFailed => "DecryptError: decryption failed, the master password may be wrong"@,
        CoreError::AuthFileMissing(p) => "AuthFileMissing: no auth file at "@ + p@,
        CoreError::AuthSchema(issue) => spec_schema_message(issue),
        CoreError::Fingerprint => "FingerprintError: the auth file has no account_id, email or access_token"@,
        CoreError::SameIdentity => "SameIdentityError: the login finished on the same account as before"@,
        CoreError::DuplicateAccount => "DuplicateAccountError: this account is already imported"@,
        CoreError::AccountNotFound => "AccountNotFound: no account with this id"@,
        CoreError::SnapshotMissing(p) => "SnapshotMissing: no snapshot file at "@ + p@,
        CoreError::AtomicWriteFailed(d) => "AtomicWriteError: replacing the auth file failed: "@ + d@,
        CoreError::SubprocessSpawn(d) => "SubprocessSpawnError: "@ + d@,
        CoreError::LoginTimeout => "LoginTimeout: the login run did not finish in time"@,
        CoreError::LoginPostPollTimeout => "LoginPostPollTimeout: the auth file did not update after login"@,
        CoreError::MissingAccessToken => "MissingAccessToken: the account has no access_token field"@,
        CoreError::QuotaNetwork(d) => "QuotaNetworkError: "@ + d@,
        CoreError::Store(d) => "StoreError: "@ + d@,
    }
}

impl CoreError {
    /// The single user-visible string for this error.
    pub fn message(&self) -> (r: String)
        ensures
            r@ == spec_message(*self),
    {
        match self {
            CoreError::VaultUninitialized => "VaultUninitialized: the vault has no master password yet".to_owned(),
            CoreError::VaultLocked => "VaultLocked: unlock the vault with the master password first".to_owned(),
            CoreError::WeakPassword => "WeakPassword: the master password needs at least 8 characters".to_owned(),
            CoreError::KeySize => "KeySizeError: the key must be exactly 32 bytes".to_owned(),
            CoreError::EncryptFailed => "EncryptError: encrypting the auth file failed".to_owned(),
            CoreError::DecryptFailed => "DecryptError: decryption failed, the master password may be wrong".to_owned(),
            CoreError::AuthFileMissing(p) => "AuthFileMissing: no auth file at ".to_owned().concat(p.as_str()),
            CoreError::AuthSchema(issue) => match issue {
                AuthSchemaIssue::NotJson => "AuthSchemaError: auth file is not valid JSON".to_owned(),
                AuthSchemaIssue::MissingType => "AuthSchemaError: auth file is missing the type field".to_owned(),
                AuthSchemaIssue::WrongType => "AuthSchemaError: auth file type field must be codex".to_owned(),
                AuthSchemaIssue::MissingAccessToken => "AuthSchemaError: auth file is missing the access_token field".to_owned(),
            },
            CoreError::Fingerprint => "FingerprintError: the auth file has no account_id, email or access_token".to_owned(),
            CoreError::SameIdentity => "SameIdentityError: the login finished on the same account as before".to_owned(),
            CoreError::DuplicateAccount => "DuplicateAccountError: this account is already imported".to_owned(),
            CoreError::AccountNotFound => "AccountNotFound: no account with this id".to_owned(),
            CoreError::SnapshotMissing(p) => "SnapshotMissing: no snapshot file at ".to_owned().concat(p.as_str()),
            CoreError::AtomicWriteFailed(d) => "AtomicWriteError: replacing the auth file failed: ".to_owned().concat(d.as_str()),
            CoreError::SubprocessSpawn(d) => "SubprocessSpawnError: ".to_owned().concat(d.as_str()),
            CoreError::LoginTimeout => "LoginTimeout: the login run did not finish in time".to_owned(),
            CoreError::LoginPostPollTimeout => "LoginPostPollTimeout: the auth file did not update after login".to_owned(),
            CoreError::MissingAccessToken => "MissingAccessToken: the account has no access_token field".to_owned(),
            CoreError::QuotaNetwork(d) => "QuotaNetworkError: ".to_owned().concat(d.as_str()),
            CoreError::Store(d) => "StoreError: ".to_owned().concat(d.as_str()),
        }
    }
}

} // verus!
