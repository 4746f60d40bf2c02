//! The run's configuration: the entry list and the identity, with the
//! completion step that fills defaults into a partially specified
//! configuration.
//!
//! Loading and storing the configuration file is a collaborator's job; the
//! library only consumes the already-parsed values.

use vstd::prelude::*;
use vstd::string::StringExecFns;

use crate::email::{valid_email, Email, EmailError};
use crate::domain::Domain;

verus! {

/// One secret to materialize: the vault item, the extraction query, the
/// path under the store root, whether the placed file may stay
/// world-readable, and the symlinks that should point at it.
pub struct PunlockConfigurationEntry {
    pub id: String,
    pub query: String,
    pub path: String,
    pub links: Option<Vec<String>>,
    pub public: bool,
}

/// A configuration as read from disk, every field optional.
pub struct PartialPunlockConfiguration {
    pub domain: Option<String>,
    pub version: Option<String>,
    pub email: Option<String>,
    pub entries: Option<Vec<PunlockConfigurationEntry>>,
    pub cache_token: Option<bool>,
}

/// A complete configuration, defaults filled in.
pub struct PunlockConfiguration {
    pub cache_token: bool,
    pub version: String,
    pub email: Email,
    pub domain: Domain,
    pub entries: Vec<PunlockConfigurationEntry>,
}

pub enum ConfigError {
    /// The configured email text is not a valid address.
    InvalidEmail,
    /// No email was configured and none was supplied interactively.
    EmailMissing,
}

pub open spec fn default_version() -> Seq<char> {
    "1.0.0"@
}

pub open spec fn default_domain() -> Seq<char> {
    "vault.bitwarden.com"@
}

impl PunlockConfiguration {
    /// Completes a partial configuration: absent fields get their defaults,
    /// a configured email must be valid, and an absent email is taken from
    /// the interactively supplied one.
    pub fn from_partial(partial: PartialPunlockConfiguration, prompted: Option<Email>) -> (r:
        Result<PunlockConfiguration, ConfigError>)
        ensures
            match r {
                Ok(c) => {
                    &&& c.cache_token == (match partial.cache_token {
                        Some(b) => b,
                        None => false,
                    })
                    &&& c.version@ == (match partial.version {
                        Some(v) => v@,
                        None => default_version(),
                    })
                    &&& c.domain@ == (match partial.domain {
                        Some(d) => d@,
                        None => default_domain(),
                    })
                    &&& (match partial.email {
                        Some(e) => valid_email(e@) && c.email@ == e@,
                        None => (prompted matches Some(p) && c.email@ == p@),
                    })
                    &&& c.entries@ == (match partial.entries {
                        Some(v) => v@,
                        None => Seq::<PunlockConfigurationEntry>::empty(),
                    })
                },
                Err(err) => match err {
                    ConfigError::InvalidEmail => (partial.email matches Some(e)
                        && !valid_email(e@)),
                    ConfigError::EmailMissing => partial.email is None && prompted is None,
                },
            },
    {
        let PartialPunlockConfiguration { domain, version, email, entries, cache_token } = partial;
        let email = match email {
            Some(text) => match Email::new(text) {
                Ok(e) => e,
                Err(EmailError::Invalid) => {
                    return Err(ConfigError::InvalidEmail);
                },
            },
            None => match prompted {
                Some(p) => p,
                None => {
                    return Err(ConfigError::EmailMissing);
                },
            },
        };
        let version = match version {
            Some(v) => v,
            None => String::from_str("1.0.0"),
        };
        let domain = Domain::new(
            match domain {
                Some(d) => d,
                None => String::from_str("vault.bitwarden.com"),
            },
        );
        let entries = match entries {
            Some(v) => v,
            None => Vec::new(),
        };
        let cache_token = match cache_token {
            Some(b) => b,
            None => false,
        };
        proof {
            if partial.entries is None {
                assert(entries@ =~= Seq::<PunlockConfigurationEntry>::empty());
            }
        }
        Ok(PunlockConfiguration { cache_token, version, email, domain, entries })
    }
}

} // verus!
