use punlock::bitwarden::{Bitwarden, VaultError};
use punlock::config::PunlockConfigurationEntry;
use punlock::fs::{FsAction, FsPath};
use punlock::json::JsonValue;
use punlock::placer::write_plan;
use punlock::store::{
    summarize_outcomes, EntryError, EntryOutcome, SecretStore, SetupError, StoreBacking,
};

fn store_entry(id: &str, path: &str) -> PunlockConfigurationEntry {
    PunlockConfigurationEntry {
        id: id.to_string(),
        query: "login.password".to_string(),
        path: path.to_string(),
        links: None,
        public: false,
    }
}

fn item_with_password(pw: &str) -> JsonValue {
    JsonValue::Object(vec![(
        "login".to_string(),
        JsonValue::Object(vec![("password".to_string(), JsonValue::Str(pw.to_string()))]),
    )])
}

#[test]
fn teardown_of_absent_root_plans_nothing() {
    let store = SecretStore::new(FsPath::relative("run/punlock"));
    assert!(store.teardown_plan(false).is_empty());
}

#[test]
fn teardown_of_existing_root_removes_the_tree() {
    let store = SecretStore::new(FsPath::relative("run/punlock"));
    assert_eq!(
        store.teardown_plan(true),
        vec![FsAction::RemoveTree(FsPath::relative("run/punlock"))]
    );
}

#[test]
fn setup_plans_the_root_directory() {
    let store = SecretStore::new(FsPath::relative("run/punlock"));
    assert_eq!(
        store.setup_plan(),
        vec![FsAction::CreateDirAll(FsPath::relative("run/punlock"))]
    );
}

#[test]
fn setup_outcomes_classify_as_specified() {
    assert_eq!(SecretStore::interpret_setup(false, true, true), Err(SetupError::Io));
    assert_eq!(SecretStore::interpret_setup(true, true, true), Ok(StoreBacking::Volatile));
    assert_eq!(SecretStore::interpret_setup(true, true, false), Err(SetupError::Mount));
    assert_eq!(
        SecretStore::interpret_setup(true, false, false),
        Ok(StoreBacking::PlainDirectory)
    );
}

#[test]
fn one_failed_fetch_is_isolated_and_reported() {
    let root = FsPath::relative("run/punlock");
    let entries = [store_entry("one", "one/key"), store_entry("two", "two/key"), store_entry("three", "three/key")];
    // Entries one and three fetch fine; entry two's backend call fails.
    let fetched: [(bool, Option<JsonValue>, &str); 3] = [
        (true, Some(item_with_password("alpha")), ""),
        (false, None, "boom: no such item\n"),
        (true, Some(item_with_password("gamma")), ""),
    ];
    let mut outcomes: Vec<EntryOutcome> = Vec::new();
    let mut plans: Vec<Vec<FsAction>> = Vec::new();
    for (e, (success, doc, stderr)) in entries.iter().zip(fetched.iter()) {
        match Bitwarden::<String>::interpret_item_response(*success, doc.as_ref(), stderr, &e.query) {
            Ok(secret) => {
                let (_, plan) = write_plan(&root, e, &secret);
                plans.push(plan);
                outcomes.push(EntryOutcome::Written { id: e.id.clone(), path: e.path.clone() });
            },
            Err(err) => {
                outcomes.push(EntryOutcome::Failed {
                    id: e.id.clone(),
                    error: EntryError::Vault(err),
                });
            },
        }
    }
    // The run reports two successes out of three.
    assert_eq!(summarize_outcomes(&outcomes), (2, 3));
    // The succeeding entries' files are written; the failing entry leaves
    // no write behind.
    assert_eq!(plans.len(), 2);
    assert!(plans[0].contains(&FsAction::WriteFile(
        FsPath::relative("run/punlock/one/key"),
        "alpha\n".to_string()
    )));
    assert!(plans[1].contains(&FsAction::WriteFile(
        FsPath::relative("run/punlock/three/key"),
        "gamma\n".to_string()
    )));
    match &outcomes[1] {
        EntryOutcome::Failed { id, error: EntryError::Vault(VaultError::Fetch(text)) } => {
            assert_eq!(id, "two");
            assert_eq!(text, "boom: no such item");
        },
        _ => panic!("entry two should fail its fetch"),
    }
}

#[test]
fn summary_counts_empty_run_as_zero_of_zero() {
    assert_eq!(summarize_outcomes(&Vec::new()), (0, 0));
}

#[test]
fn fetch_interpretation_distinguishes_error_kinds() {
    let doc = item_with_password("pw");
    // Backend failure: trimmed stderr is surfaced.
    match Bitwarden::<String>::interpret_item_response(false, Some(&doc), "  err \n", "login.password") {
        Err(VaultError::Fetch(t)) => assert_eq!(t, "err"),
        _ => panic!("expected a fetch error"),
    }
    // Unparsable body.
    assert!(matches!(
        Bitwarden::<String>::interpret_item_response(true, None, "", "login.password"),
        Err(VaultError::Parse)
    ));
    // Query that does not compile.
    assert!(matches!(
        Bitwarden::<String>::interpret_item_response(true, Some(&doc), "", "login..password"),
        Err(VaultError::Query)
    ));
    // Query that lands on nothing.
    assert!(matches!(
        Bitwarden::<String>::interpret_item_response(true, Some(&doc), "", "login.user"),
        Err(VaultError::Extraction)
    ));
    // The good path.
    assert_eq!(
        Bitwarden::<String>::interpret_item_response(true, Some(&doc), "", "login.password").unwrap(),
        "pw".to_string()
    );
}
