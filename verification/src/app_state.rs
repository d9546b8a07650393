//! The vault session (the only in-memory secret) and the application state
//! that ties it to the store. Key bytes are wiped on every transition out of
//! the unlocked state.

use vstd::prelude::*;
use vstd::string::*;
use crate::crypto::{derive_key, derived_key_of, generate_salt, salt_ok, wipe_bytes, MAX_PASSWORD_BYTES};
use crate::errors::CoreError;
use crate::store::AppStore;

verus! {

/// Copy key bytes.
pub fn clone_bytes(v: &Vec<u8>) -> (r: Vec<u8>)
    ensures
        r@ == v@,
{
    let mut out: Vec<u8> = Vec::new();
    let n = v.len();
    let mut i: usize = 0;
    while i < n
        invariant
            n == v@.len(),
            0 <= i <= n,
            out@ == v@.take(i as int),
        decreases n - i,
    {
        out.push(v[i]);
        proof {
            assert(out@ =~= v@.take(i as int + 1));
        }
        i += 1;
    }
    proof {
        assert(v@.take(n as int) =~= v@);
    }
    out
}

/// The in-memory master key, when the vault is unlocked.
#[derive(Debug)]
pub struct VaultSession {
    pub key: Option<Vec<u8>>,
}

impl VaultSession {
    /// A locked session.
    pub fn new() -> (r: Self)
        ensures
            r.key is None,
    {
        VaultSession { key: None }
    }

    /// Wipe any held key bytes and drop them.
    pub fn lock(&mut self)
        ensures
            final(self).key is None,
    {
        let prev = self.key.take();
        match prev {
            Some(mut k) => {
                wipe_bytes(&mut k);
            },
            None => {},
        }
    }

    /// Replace the key, wiping any previous one first.
    pub fn set_key(&mut self, key: Vec<u8>)
        ensures
            final(self).key == Some(key),
    {
        self.lock();
        self.key = Some(key);
    }

    /// Whether a key is in memory.
    pub fn is_unlocked(&self) -> (r: bool)
        ensures
            r == (self.key is Some),
    {
        self.key.is_some()
    }

    /// A copy of the key, or the locked-vault error.
    pub fn get_key(&self) -> (r: Result<Vec<u8>, CoreError>)
        ensures
            self.key matches Some(k) ==> (r matches Ok(rk) && rk@ == k@),
            self.key is None ==> r matches Err(CoreError::VaultLocked),
    {
        match &self.key {
            Some(k) => Ok(clone_bytes(k)),
            None => Err(CoreError::VaultLocked),
        }
    }
}

/// The store together with the vault session.
#[derive(Debug)]
pub struct AppState {
    pub store: AppStore,
    pub vault: VaultSession,
}

impl AppState {
    /// Wire a store to a fresh, locked vault session.
    pub fn initialize(store: AppStore) -> (r: Self)
        ensures
            r.store.initialized,
            r.store.salt == store.salt,
            r.store.accounts == store.accounts,
            r.store.history == store.history,
            r.store.quotas == store.quotas,
            r.store.base_dir == store.base_dir,
            r.store.db_path == store.db_path,
            r.store.snapshots_dir == store.snapshots_dir,
            r.store.quota_timeout_ms == store.quota_timeout_ms,
            r.store.quota_cache_ttl_seconds == store.quota_cache_ttl_seconds,
            r.store.quota_max_concurrency == store.quota_max_concurrency,
            r.vault.key is None,
    {
        let mut store = store;
        store.init();
        AppState { store, vault: VaultSession::new() }
    }

    /// First-time initialization: generate and persist a salt, derive the
    /// key and unlock. On an already initialized vault nothing changes and
    /// `false` comes back.
    pub fn init_vault(&mut self, master_password: &str) -> (r: Result<bool, CoreError>)
        requires
            old(self).store.wf(),
        ensures
            final(self).store.wf(),
            final(self).store.accounts == old(self).store.accounts,
            final(self).store.history == old(self).store.history,
            final(self).store.quotas == old(self).store.quotas,
            old(self).store.salt is Some ==> (r == Ok::<bool, CoreError>(false) && *final(self)
                == *old(self)),
            old(self).store.salt is None ==> final(self).store.salt is Some,
            (old(self).store.salt is None && master_password.spec_bytes().len()
                <= MAX_PASSWORD_BYTES) ==> r == Ok::<bool, CoreError>(true),
            r matches Ok(b) ==> b == (old(self).store.salt is None),
            r matches Ok(b) ==> (!b ==> *final(self) == *old(self)),
            r matches Ok(true) ==> old(self).store.salt is None,
            r matches Ok(true) ==> (final(self).store.salt matches Some(s) && (
            final(self).vault.key matches Some(k) && k@ == derived_key_of(master_password@, s@)
                && k@.len() == 32)),
            r matches Ok(true) ==> (final(self).store.salt matches Some(s) && salt_ok(s@)),
            r is Err ==> final(self).vault == old(self).vault,
            r matches Err(e) ==> e is Store,
    {
        match &self.store.salt {
            Some(_) => Ok(false),
            None => {
                let salt = generate_salt();
                self.store.set_vault_salt(salt.as_str());
                match derive_key(master_password, salt.as_str()) {
                    Ok(key) => {
                        self.vault.set_key(key);
                        Ok(true)
                    },
                    Err(e) => Err(e),
                }
            },
        }
    }

    /// Rederive the key from the stored salt and unlock, replacing and
    /// wiping any earlier key. A wrong password is not detected here: it
    /// shows up later as a decrypt failure.
    pub fn unlock_vault(&mut self, master_password: &str) -> (r: Result<(), CoreError>)
        requires
            old(self).store.wf(),
        ensures
            final(self).store.wf(),
            final(self).store == old(self).store,
            old(self).store.salt is None ==> (r matches Err(CoreError::VaultUninitialized)
                && *final(self) == *old(self)),
            r matches Err(CoreError::VaultUninitialized) ==> old(self).store.salt is None,
            (old(self).store.salt matches Some(s) && salt_ok(s@)
                && master_password.spec_bytes().len() <= MAX_PASSWORD_BYTES) ==> r is Ok,
            r is Ok ==> (old(self).store.salt matches Some(s) && (final(self).vault.key
                matches Some(k) && k@ == derived_key_of(master_password@, s@) && k@.len() == 32)),
            r is Err ==> final(self).vault == old(self).vault,
    {
        match &self.store.salt {
            None => Err(CoreError::VaultUninitialized),
            Some(salt) => {
                let salt_text = salt.clone();
                match derive_key(master_password, salt_text.as_str()) {
                    Ok(key) => {
                        self.vault.set_key(key);
                        Ok(())
                    },
                    Err(e) => Err(e),
                }
            },
        }
    }

    /// Wipe and drop the key.
    pub fn lock_vault(&mut self)
        ensures
            final(self).vault.key is None,
            final(self).store == old(self).store,
    {
        self.vault.lock();
    }

    /// Whether the vault is unlocked.
    pub fn is_vault_unlocked(&self) -> (r: bool)
        ensures
            r == (self.vault.key is Some),
    {
        self.vault.is_unlocked()
    }

    /// A copy of the vault key, or the locked-vault error.
    pub fn get_vault_key(&self) -> (r: Result<Vec<u8>, CoreError>)
        ensures
            self.vault.key matches Some(k) ==> (r matches Ok(rk) && rk@ == k@),
            self.vault.key is None ==> r matches Err(CoreError::VaultLocked),
    {
        self.vault.get_key()
    }
}

} // verus!
