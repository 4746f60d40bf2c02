use punlock::bitwarden::{Bitwarden, BitwardenCli};
use punlock::config::{
    ConfigError, PartialPunlockConfiguration, PunlockConfiguration, PunlockConfigurationEntry,
};
use punlock::credentials::BitwardenClientCredentials;
use punlock::domain::Domain;
use punlock::email::Email;
use punlock::password::Password;
use punlock::text::{has_prefix, is_blank, trim};
use punlock::url::BitwardenUrl;

fn email(text: &str) -> Email {
    Email::new(text.to_string()).ok().expect("a valid address")
}

#[test]
fn valid_addresses_are_accepted() {
    for good in ["a@b.c", "user@example.com", "first.last@mail.example.org"] {
        let e = Email::new(good.to_string()).ok().expect("accepted");
        assert_eq!(e.as_ref(), good);
    }
}

#[test]
fn invalid_addresses_are_rejected() {
    for bad in [
        "", "plain", "@b.c", "a@", "a@bc", "a@.c", "a@b.", "a@@b.c", "a b@c.d", "a@b c.d",
        "a@b.c ", "two@ats@x.y",
    ] {
        assert!(Email::new(bad.to_string()).is_err(), "address {:?}", bad);
    }
}

#[test]
fn urls_are_built_from_the_domain() {
    let url = BitwardenUrl(Domain::new("vault.bitwarden.com".to_string()));
    assert_eq!(url.as_identity_url(), "https://vault.bitwarden.com/identity/connect/token");
    assert_eq!(url.as_vault_url(), "https://vault.bitwarden.com/api/sync");
    assert_eq!(url.as_cipher_url("abc-123"), "https://vault.bitwarden.com/api/ciphers/abc-123");
}

#[test]
fn completion_fills_defaults() {
    let partial = PartialPunlockConfiguration {
        domain: None,
        version: None,
        email: Some("user@example.com".to_string()),
        entries: None,
        cache_token: None,
    };
    let c = PunlockConfiguration::from_partial(partial, None).ok().expect("complete");
    assert_eq!(c.version, "1.0.0");
    assert_eq!(c.domain.as_str(), "vault.bitwarden.com");
    assert_eq!(c.email.as_ref(), "user@example.com");
    assert!(!c.cache_token);
    assert!(c.entries.is_empty());
}

#[test]
fn completion_keeps_configured_values() {
    let partial = PartialPunlockConfiguration {
        domain: Some("vault.example.net".to_string()),
        version: Some("0.9.1".to_string()),
        email: Some("user@example.com".to_string()),
        entries: Some(vec![PunlockConfigurationEntry {
            id: "item".to_string(),
            query: "login.password".to_string(),
            path: "svc/key".to_string(),
            links: Some(vec![".secret".to_string()]),
            public: true,
        }]),
        cache_token: Some(true),
    };
    let c = PunlockConfiguration::from_partial(partial, None).ok().expect("complete");
    assert_eq!(c.version, "0.9.1");
    assert_eq!(c.domain.as_str(), "vault.example.net");
    assert!(c.cache_token);
    assert_eq!(c.entries.len(), 1);
    assert_eq!(c.entries[0].id, "item");
    assert!(c.entries[0].public);
}

#[test]
fn completion_rejects_invalid_email() {
    let partial = PartialPunlockConfiguration {
        domain: None,
        version: None,
        email: Some("not-an-address".to_string()),
        entries: None,
        cache_token: None,
    };
    assert!(matches!(
        PunlockConfiguration::from_partial(partial, None),
        Err(ConfigError::InvalidEmail)
    ));
}

#[test]
fn completion_without_any_email_asks_for_one() {
    let partial = PartialPunlockConfiguration {
        domain: None,
        version: None,
        email: None,
        entries: None,
        cache_token: None,
    };
    assert!(matches!(
        PunlockConfiguration::from_partial(partial, None),
        Err(ConfigError::EmailMissing)
    ));
    let partial = PartialPunlockConfiguration {
        domain: None,
        version: None,
        email: None,
        entries: None,
        cache_token: None,
    };
    let c = PunlockConfiguration::from_partial(partial, Some(email("typed@example.com")))
        .ok()
        .expect("complete");
    assert_eq!(c.email.as_ref(), "typed@example.com");
}

#[test]
fn sessions_are_typed_by_authentication() {
    let handle = Bitwarden::new(email("user@example.com"));
    let authed = handle.into_authenticated("tok".to_string());
    assert_eq!(authed.session, "tok");
    assert_eq!(authed.email.as_ref(), "user@example.com");
    let cli = BitwardenCli::new(email("user@example.com"));
    let cli = cli.into_authenticated("tok".to_string());
    assert_eq!(cli.session_ref(), "tok");
    assert_eq!(cli.email_ref().as_ref(), "user@example.com");
}

#[test]
fn text_helpers_trim_and_match_prefixes() {
    assert_eq!(trim("  tok \n"), "tok");
    assert_eq!(trim("tok"), "tok");
    assert_eq!(trim(" \t\r\n"), "");
    assert!(is_blank("   "));
    assert!(!is_blank(" x "));
    assert!(has_prefix("You are already logged in as x.", "You are already logged in as"));
    assert!(!has_prefix("You are", "You are already"));
}

#[test]
fn password_acceptance_refuses_blank_input() {
    assert!(!Password::is_acceptable("  \t"));
    assert!(Password::is_acceptable("hunter2"));
    let p = Password("hunter2".to_string());
    assert_eq!(p.0, "hunter2");
}

#[test]
fn credentials_hold_the_pair() {
    let c = BitwardenClientCredentials::new("id".to_string(), "secret".to_string());
    assert_eq!(c.id, "id");
    assert_eq!(c.secret, "secret");
}
