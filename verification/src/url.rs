//! The backend's HTTP endpoints, built from the configured domain.

use vstd::prelude::*;
use vstd::string::StringExecFns;

use crate::domain::Domain;

verus! {

pub struct BitwardenUrl(pub Domain);

impl BitwardenUrl {
    /// The identity endpoint a client-credentials grant is posted to.
    pub fn as_identity_url(&self) -> (r: String)
        ensures
            r@ == "https://"@ + self.0@ + "/identity/connect/token"@,
    {
        String::from_str("https://").concat(self.0.as_str()).concat("/identity/connect/token")
    }

    /// The sync endpoint the whole vault can be read from.
    pub fn as_vault_url(&self) -> (r: String)
        ensures
            r@ == "https://"@ + self.0@ + "/api/sync"@,
    {
        String::from_str("https://").concat(self.0.as_str()).concat("/api/sync")
    }

    /// The endpoint one item is read from.
    pub fn as_cipher_url(&self, id: &str) -> (r: String)
        ensures
            r@ == "https://"@ + self.0@ + "/api/ciphers/"@ + id@,
    {
        String::from_str("https://").concat(self.0.as_str()).concat("/api/ciphers/").concat(id)
    }
}

} // verus!
