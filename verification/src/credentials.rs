//! The credential records held in the platform secret store.
//!
//! Reading and writing the store, and the JSON (de)serialisation of these
//! records, are I/O concerns of the surrounding shell; the library only
//! defines the records themselves.

use vstd::prelude::*;

verus! {

/// The remote data store's location and API key.
#[derive(Clone, Debug)]
pub struct SupabaseCredentials {
    pub url: String,
    pub anon_key: String,
}

impl SupabaseCredentials {
    pub fn new(url: String, anon_key: String) -> (r: SupabaseCredentials)
        ensures
            r.url@ == url@,
            r.anon_key@ == anon_key@,
    {
        SupabaseCredentials { url, anon_key }
    }
}

/// The salted password hash guarding the local vault.
#[derive(Clone, Debug)]
pub struct VaultCredentials {
    pub salt: String,
    pub hashed_password: String,
}

impl VaultCredentials {
    pub fn new(salt: String, hashed_password: String) -> (r: VaultCredentials)
        ensures
            r.salt@ == salt@,
            r.hashed_password@ == hashed_password@,
    {
        VaultCredentials { salt, hashed_password }
    }
}

} // verus!
