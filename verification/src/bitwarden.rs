//! The vault session: an unauthenticated handle becomes an authenticated
//! one only by supplying a non-empty session token, so fetching is
//! impossible before authentication by construction. The interpretation of
//! a backend item response — status, parsed document, query — is a single
//! verified decision.

use vstd::prelude::*;

use crate::email::Email;
use crate::json::JsonValue;
use crate::resolver::{resolve, spec_resolve, ResolveError};
use crate::text::{spec_trim, trim};

verus! {

/// A vault handle; `S` is `()` before authentication and the session token
/// text after it.
pub struct Bitwarden<S> {
    pub email: Email,
    pub session: S,
}

impl Bitwarden<()> {
    pub fn new(email: Email) -> (r: Bitwarden<()>)
        ensures
            r.email == email,
    {
        Bitwarden { email, session: () }
    }

    /// Upgrades the handle once authentication produced a session token.
    pub fn into_authenticated(self, session: String) -> (r: Bitwarden<String>)
        requires
            session@.len() > 0,
        ensures
            r.email == self.email,
            r.session == session,
    {
        Bitwarden { email: self.email, session }
    }
}

/// What can go wrong between asking the backend for an item and holding the
/// secret.
#[derive(Debug)]
pub enum VaultError {
    /// The backend call could not be made at all.
    Transport(String),
    /// The backend answered with a failure; carries its trimmed error text.
    Fetch(String),
    /// The backend's response body was not a well-formed document.
    Parse,
    /// The entry's query does not compile.
    Query,
    /// The query addresses nothing, or a value that is not a scalar string.
    Extraction,
}

impl Bitwarden<String> {
    /// The fetch decision: a failed backend call yields the trimmed error
    /// text, an unparsable body is a parse failure, and a parsed document
    /// is resolved by the entry's query.
    pub fn interpret_item_response(
        success: bool,
        document: Option<&JsonValue>,
        stderr: &str,
        query: &str,
    ) -> (r: Result<String, VaultError>)
        ensures
            !success ==> (r matches Err(e) && e matches VaultError::Fetch(t) && t@ == spec_trim(
                stderr@,
            )),
            success && document is None ==> r matches Err(VaultError::Parse),
            success ==> (document matches Some(doc) ==> match spec_resolve(*doc, query@) {
                Ok(t) => r matches Ok(s) && s@ == t,
                Err(ResolveError::Query) => r matches Err(VaultError::Query),
                Err(ResolveError::Extraction) => r matches Err(VaultError::Extraction),
            }),
    {
        if !success {
            return Err(VaultError::Fetch(trim(stderr)));
        }
        match document {
            None => Err(VaultError::Parse),
            Some(doc) => match resolve(doc, query) {
                Ok(s) => Ok(s),
                Err(ResolveError::Query) => Err(VaultError::Query),
                Err(ResolveError::Extraction) => Err(VaultError::Extraction),
            },
        }
    }
}

/// The key-derivation parameters and tokens the backend's identity endpoint
/// answers with.
pub struct BitwardenToken {
    pub kdf: i64,
    pub kdf_iterations: u32,
    pub kdf_memory: Option<i64>,
    pub kdf_parallelism: Option<String>,
    pub key: String,
    pub private_key: String,
    pub reset_master_password: bool,
    pub access_token: String,
    pub expires_in: usize,
    pub scope: String,
    pub token_type: String,
}

/// A vault item's protected payload, as the backend hands it out.
pub struct EncryptedBitwardenItem(pub String);

/// The command-line flavoured vault handle; the same session discipline as
/// `Bitwarden`.
pub struct BitwardenCli<S> {
    email: Email,
    session: S,
}

impl BitwardenCli<()> {
    pub fn new(email: Email) -> (r: BitwardenCli<()>)
        ensures
            r.email() == email,
    {
        BitwardenCli { email, session: () }
    }

    pub fn into_authenticated(self, session: String) -> (r: BitwardenCli<String>)
        requires
            session@.len() > 0,
        ensures
            r.email() == self.email(),
            r.session_token()@ == session@,
    {
        BitwardenCli { email: self.email, session }
    }
}

impl<S> BitwardenCli<S> {
    pub closed spec fn email(&self) -> Email {
        self.email
    }

    pub fn email_ref(&self) -> (r: &Email)
        ensures
            *r == self.email(),
    {
        &self.email
    }
}

impl BitwardenCli<String> {
    pub closed spec fn session_token(&self) -> String {
        self.session
    }

    pub fn session_ref(&self) -> (r: &String)
        ensures
            r@ == self.session_token()@,
    {
        &self.session
    }
}

} // verus!
