//! Crypto primitives: salt generation, password-based key derivation, and
//! authenticated encryption of auth-file text. The outside calls stand behind
//! trusted wrappers; the key-size rule and everything around the calls is
//! verified.

use vstd::prelude::*;
use vstd::string::*;
use crate::errors::CoreError;
use base64::Engine;
use chacha20poly1305::{aead::Aead, KeyInit, XChaCha20Poly1305, XNonce};
use rand::RngCore;
use zeroize::Zeroize;

verus! {

/// Longest password, in UTF-8 bytes, that key derivation accepts.
pub const MAX_PASSWORD_BYTES: u64 = 0xFFFF_FFFF;

/// Longest plaintext, in UTF-8 bytes, that one seal accepts: just under the
/// cipher's 256 GiB keystream bound.
pub const MAX_SEAL_BYTES: u64 = 0x3F_FFFF_FFC0;

/// The 32 bytes that Argon2 (default parameters) derives from this password
/// and salt text.
pub uninterp spec fn derived_key_of(password: Seq<char>, salt: Seq<char>) -> Seq<u8>;

/// Whether the derivation pipeline accepts this salt text: valid B64 salt
/// text of the lengths SaltString::from_b64 admits. A function of the text
/// alone.
pub uninterp spec fn salt_ok(salt: Seq<char>) -> bool;

/// What the decrypt pipeline — base64 decode, split off the 24-byte nonce,
/// XChaCha20-Poly1305 open, UTF-8 decode — yields for this key and payload
/// when every step succeeds. Decryption is deterministic, so this is a
/// function of the key and the payload alone.
pub uninterp spec fn decrypt_of(key: Seq<u8>, payload: Seq<char>) -> Option<Seq<char>>;

/// Relies on SaltString::generate of the password-hash stack under argon2:
/// a fresh random salt in canonical B64 text, which from_b64 accepts.
#[verifier::external_body]
pub fn generate_salt() -> (r: String)
    ensures
        r@.len() > 0,
        salt_ok(r@),
{
    let salt = argon2::password_hash::phc::SaltString::generate();
    let text: &str = salt.as_ref();
    text.to_string()
}

/// Relies on argon2: SaltString::from_b64 accepts exactly the salt texts
/// named by `salt_ok`, and hash_password_into with the default parameters
/// fills the 32 output bytes as a function of the password and salt text
/// alone. An accepted salt text is 8 to 64 bytes, within Argon2's own salt
/// bounds, so with a password of at most `MAX_PASSWORD_BYTES` bytes the
/// derivation succeeds; exhaustion of the work memory is treated like any
/// other allocation failure and does not return.
#[verifier::external_body]
pub fn derive_key(master_password: &str, salt: &str) -> (r: Result<Vec<u8>, CoreError>)
    ensures
        r matches Ok(k) ==> k@ == derived_key_of(master_password@, salt@) && k@.len() == 32,
        (r is Ok) == (salt_ok(salt@) && master_password.spec_bytes().len() <= MAX_PASSWORD_BYTES),
        r matches Err(e) ==> e is Store,
{
    if argon2::password_hash::phc::SaltString::from_b64(salt).is_err() {
        return Err(CoreError::Store("the stored master salt is not valid".to_string()));
    }
    let mut key = vec![0u8; 32];
    match argon2::Argon2::default().hash_password_into(
        master_password.as_bytes(),
        salt.as_bytes(),
        &mut key,
    ) {
        Ok(()) => Ok(key),
        Err(argon2::Error::OutOfMemory) => {
            None::<Result<Vec<u8>, CoreError>>.expect("argon2 work memory could not be allocated")
        },
        Err(_) => Err(CoreError::Store("key derivation failed".to_string())),
    }
}

/// Relies on XChaCha20Poly1305 (chacha20poly1305), OsRng (rand) and base64:
/// seal under a fresh 24-byte nonce, then base64 of nonce||ciphertext. The
/// cipher errors only beyond its keystream bound, which the caller's length
/// check rules out, so sealing succeeds; the decrypt pipeline inverts it, so
/// the sealed text opens to the plaintext. The payload is the plaintext's
/// bytes plus the 24-byte nonce and 16-byte tag, padded base64-encoded.
#[verifier::external_body]
fn encrypt_raw(key: &Vec<u8>, plaintext: &str) -> (r: Result<String, CoreError>)
    requires
        key@.len() == 32,
        plaintext.spec_bytes().len() < MAX_SEAL_BYTES,
    ensures
        r is Ok,
        r matches Ok(c) ==> decrypt_of(key@, c@) == Some(plaintext@),
        r matches Ok(c) ==> c@.len() == 4 * ((plaintext.spec_bytes().len() + 42) / 3),
{
    let cipher = XChaCha20Poly1305::new_from_slice(key.as_slice())
        .map_err(|_| CoreError::EncryptFailed)?;
    let mut nonce_bytes = [0u8; 24];
    rand::rngs::OsRng.fill_bytes(&mut nonce_bytes);
    let sealed = cipher
        .encrypt(&XNonce::from(nonce_bytes), plaintext.as_bytes())
        .map_err(|_| CoreError::EncryptFailed)?;
    let mut payload = nonce_bytes.to_vec();
    payload.extend_from_slice(&sealed);
    Ok(base64::engine::general_purpose::STANDARD.encode(payload))
}

/// Relies on base64, XChaCha20Poly1305 and String::from_utf8: opening is
/// deterministic in the key and payload, and fails on tampering, a wrong key
/// or a truncated payload.
#[verifier::external_body]
fn decrypt_raw(key: &Vec<u8>, payload: &str) -> (r: Result<String, CoreError>)
    requires
        key@.len() == 32,
    ensures
        (r is Ok) == (decrypt_of(key@, payload@) is Some),
        r matches Ok(p) ==> decrypt_of(key@, payload@) == Some(p@),
        r matches Err(e) ==> e is DecryptFailed,
{
    let data = base64::engine::general_purpose::STANDARD
        .decode(payload)
        .map_err(|_| CoreError::DecryptFailed)?;
    if data.len() < 25 {
        return Err(CoreError::DecryptFailed);
    }
    let (nonce, sealed) = data.split_at(24);
    let cipher = XChaCha20Poly1305::new_from_slice(key.as_slice())
        .map_err(|_| CoreError::DecryptFailed)?;
    let nonce_arr = XNonce::try_from(nonce).map_err(|_| CoreError::DecryptFailed)?;
    let plain = cipher.decrypt(&nonce_arr, sealed).map_err(|_| CoreError::DecryptFailed)?;
    String::from_utf8(plain).map_err(|_| CoreError::DecryptFailed)
}

/// Seal auth-file text under the vault key. Sealing fails exactly on a key
/// that is not 32 bytes or a plaintext beyond the cipher's bound. With a
/// fresh random nonce inside, two calls on the same input differ; what is
/// promised of every sealed text is its length and that the decrypt
/// pipeline recovers the plaintext.
pub fn encrypt_to_base64(key: &Vec<u8>, plaintext: &str) -> (r: Result<String, CoreError>)
    ensures
        (r is Err) == (key@.len() != 32 || plaintext.spec_bytes().len() >= MAX_SEAL_BYTES),
        r matches Err(CoreError::KeySize) ==> key@.len() != 32,
        r matches Err(e) ==> (e is KeySize || e is EncryptFailed),
        r matches Err(CoreError::EncryptFailed) ==> plaintext.spec_bytes().len() >= MAX_SEAL_BYTES,
        r matches Ok(c) ==> key@.len() == 32 && decrypt_of(key@, c@) == Some(plaintext@),
        r matches Ok(c) ==> c@.len() == 4 * ((plaintext.spec_bytes().len() + 42) / 3),
{
    if key.len() != 32 {
        return Err(CoreError::KeySize);
    }
    if plaintext.as_bytes().len() as u64 >= MAX_SEAL_BYTES {
        return Err(CoreError::EncryptFailed);
    }
    encrypt_raw(key, plaintext)
}

/// Open sealed auth-file text with the vault key: fails exactly on a key
/// that is not 32 bytes or a payload the decrypt pipeline rejects.
pub fn decrypt_from_base64(key: &Vec<u8>, payload: &str) -> (r: Result<String, CoreError>)
    ensures
        key@.len() != 32 ==> r matches Err(CoreError::KeySize),
        r matches Err(CoreError::KeySize) ==> key@.len() != 32,
        key@.len() == 32 ==> (r is Ok) == (decrypt_of(key@, payload@) is Some),
        key@.len() == 32 ==> (r matches Err(e) ==> e is DecryptFailed),
        r matches Ok(p) ==> key@.len() == 32 && decrypt_of(key@, payload@) == Some(p@),
{
    if key.len() != 32 {
        return Err(CoreError::KeySize);
    }
    decrypt_raw(key, payload)
}

/// Relies on zeroize for Vec of u8: overwrite the bytes, then clear.
#[verifier::external_body]
pub fn wipe_bytes(buf: &mut Vec<u8>)
    ensures
        final(buf)@.len() == 0,
{
    buf.zeroize();
}

} // verus!
