use punlock::config::PunlockConfigurationEntry;
use punlock::fs::{FsAction, FsPath, LinkState};
use punlock::placer::{
    normalize_secret, reconcile_plan, resolve_link_target, secret_file_mode, write_plan,
};

fn entry(path: &str, public: bool) -> PunlockConfigurationEntry {
    PunlockConfigurationEntry {
        id: "item".to_string(),
        query: "login.password".to_string(),
        path: path.to_string(),
        links: None,
        public,
    }
}

#[test]
fn secret_without_newline_gets_exactly_one() {
    assert_eq!(normalize_secret(&"abc".to_string()), "abc\n".to_string());
    assert_eq!(normalize_secret(&"".to_string()), "\n".to_string());
}

#[test]
fn secret_with_newline_is_unmodified() {
    assert_eq!(normalize_secret(&"abc\n".to_string()), "abc\n".to_string());
    assert_eq!(normalize_secret(&"abc\n\n".to_string()), "abc\n\n".to_string());
}

#[test]
fn private_mode_denies_nonowner_read() {
    let m = secret_file_mode(false);
    assert_eq!(m, 0o400);
    assert_eq!(m & 0o077, 0);
    assert_ne!(m & 0o400, 0);
}

#[test]
fn public_mode_is_readonly_for_everyone() {
    assert_eq!(secret_file_mode(true), 0o444);
}

#[test]
fn write_plan_creates_parent_chain_before_writing() {
    let root = FsPath::relative("run/punlock");
    let (dest, plan) = write_plan(&root, &entry("svc/api/key", false), &"s3cret".to_string());
    assert_eq!(dest, FsPath::relative("run/punlock/svc/api/key"));
    assert_eq!(
        plan,
        vec![
            FsAction::CreateDirAll(FsPath::relative("run/punlock/svc/api")),
            FsAction::WriteFile(FsPath::relative("run/punlock/svc/api/key"), "s3cret\n".to_string()),
            FsAction::SetMode(FsPath::relative("run/punlock/svc/api/key"), 0o400),
        ]
    );
}

#[test]
fn write_plan_for_public_entry_keeps_world_read() {
    let root = FsPath::relative("run/punlock");
    let (_, plan) = write_plan(&root, &entry("note", true), &"hi\n".to_string());
    assert_eq!(
        plan,
        vec![
            FsAction::CreateDirAll(FsPath::relative("run/punlock")),
            FsAction::WriteFile(FsPath::relative("run/punlock/note"), "hi\n".to_string()),
            FsAction::SetMode(FsPath::relative("run/punlock/note"), 0o444),
        ]
    );
}

#[test]
fn reconcile_missing_link_creates_it() {
    let link = FsPath::absolute("home/user/.secret");
    let dest = FsPath::absolute("run/punlock/key");
    let plan = reconcile_plan(&LinkState::Missing, &link, &dest);
    assert_eq!(
        plan,
        vec![
            FsAction::CreateDirAll(FsPath::absolute("home/user")),
            FsAction::Symlink(
                FsPath::absolute("home/user/.secret"),
                FsPath::absolute("run/punlock/key")
            ),
        ]
    );
}

#[test]
fn reconcile_correct_link_is_a_noop() {
    let link = FsPath::absolute("home/user/.secret");
    let dest = FsPath::absolute("run/punlock/key");
    let observed = LinkState::SymlinkTo(FsPath::absolute("run/punlock/key"));
    assert!(reconcile_plan(&observed, &link, &dest).is_empty());
}

#[test]
fn reconcile_is_idempotent_across_two_runs() {
    let link = FsPath::absolute("home/user/.secret");
    let dest = FsPath::absolute("run/punlock/key");
    // First run: the link is absent; one creation is planned.
    let first = reconcile_plan(&LinkState::Missing, &link, &dest);
    assert_eq!(first.len(), 2);
    // Second run: the driver now observes the link the first run created;
    // nothing further is planned.
    let observed = LinkState::SymlinkTo(dest.duplicate());
    let second = reconcile_plan(&observed, &link, &dest);
    assert!(second.is_empty());
}

#[test]
fn reconcile_replaces_wrong_link_and_foreign_files() {
    let link = FsPath::absolute("home/user/.secret");
    let dest = FsPath::absolute("run/punlock/key");
    for observed in [
        LinkState::SymlinkTo(FsPath::absolute("elsewhere")),
        LinkState::ExistingFile,
        LinkState::ExistingDir,
    ] {
        let plan = reconcile_plan(&observed, &link, &dest);
        assert_eq!(
            plan,
            vec![
                FsAction::CreateDirAll(FsPath::absolute("home/user")),
                FsAction::RemoveFile(FsPath::absolute("home/user/.secret")),
                FsAction::Symlink(
                    FsPath::absolute("home/user/.secret"),
                    FsPath::absolute("run/punlock/key")
                ),
            ]
        );
    }
}

#[test]
fn link_targets_resolve_against_home_unless_absolute() {
    let home = FsPath::absolute("home/user");
    assert_eq!(
        resolve_link_target(&home, ".config/secret"),
        FsPath::absolute("home/user/.config/secret")
    );
    assert_eq!(resolve_link_target(&home, "/etc/secret"), FsPath::absolute("etc/secret"));
}

#[test]
fn path_splitting_drops_empty_components() {
    assert_eq!(FsPath::relative("a//b/"), FsPath::relative("a/b"));
    assert_eq!(FsPath::relative("a/b").parts, vec!["a".to_string(), "b".to_string()]);
}
