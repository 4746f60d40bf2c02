//! Secure file placement: where a secret lands, with which content and which
//! permission bits, and how symlinks pointing at it are reconciled.
//!
//! Placement is expressed as plans of `FsAction`s; the laws at the bottom say
//! what any driver that carries a plan out does to the modelled filesystem.

use vstd::prelude::*;
use vstd::string::StringExecFns;

use crate::config::PunlockConfigurationEntry;
use crate::fs::{
    action_model, apply_action, apply_plan, key_is_prefix, key_parent, link_state_model,
    observe_link, plan_model, spec_split_path, ActionModel, FsAction, FsModel, FsPath, LinkModel,
    LinkState, PathKey,
};

verus! {

/// The secret's text as written: ending in exactly one newline, the text
/// otherwise untouched.
pub open spec fn spec_normalize(s: Seq<char>) -> Seq<char> {
    if s.len() > 0 && s.last() == '\n' {
        s
    } else {
        s.push('\n')
    }
}

/// Appends a newline unless the secret already ends in one.
pub fn normalize_secret(s: &String) -> (r: String)
    ensures
        r@ == spec_normalize(s@),
{
    let n = s.as_str().unicode_len();
    if n > 0 && s.as_str().get_char(n - 1) == '\n' {
        s.clone()
    } else {
        let mut r = s.clone();
        r.append("\n");
        proof {
            reveal_strlit("\n");
            assert(r@ =~= s@.push('\n'));
        }
        r
    }
}

/// The permission bits a placed secret gets: read-only for everyone when the
/// entry is public, owner-read-only otherwise.
pub open spec fn spec_mode(public: bool) -> u32 {
    if public {
        0o444
    } else {
        0o400
    }
}

/// The mode keeps a read permission for the owner.
pub open spec fn mode_owner_can_read(m: u32) -> bool {
    (m / 0o400) % 2 == 1
}

/// Neither the group-read nor the other-read permission bit is set, so on a
/// platform with POSIX permission bits non-owners cannot read the file.
/// On platforms without such bits a mode carries no enforced meaning; the
/// driver only marks the file read-only there.
pub open spec fn mode_denies_nonowner_read(m: u32) -> bool {
    (m / 0o040) % 2 == 0 && (m / 0o004) % 2 == 0
}

pub fn secret_file_mode(public: bool) -> (m: u32)
    ensures
        m == spec_mode(public),
        mode_owner_can_read(m),
        !public ==> mode_denies_nonowner_read(m),
{
    if public {
        0o444
    } else {
        0o400
    }
}

/// Where an entry's secret lands: the store root extended by the entry's
/// relative path.
pub open spec fn dest_key(root: PathKey, rel: Seq<char>) -> PathKey {
    (root.0, root.1 + spec_split_path(rel))
}

/// The plan that places one secret: create the destination's parent chain,
/// write the normalized text, then harden the permission bits.
pub fn write_plan(root: &FsPath, entry: &PunlockConfigurationEntry, secret: &String) -> (r: (
    FsPath,
    Vec<FsAction>,
))
    ensures
        r.0@ == dest_key(root@, entry.path@),
        plan_model(r.1@) =~= seq![
            ActionModel::MkDirAll(key_parent(dest_key(root@, entry.path@))),
            ActionModel::Write(dest_key(root@, entry.path@), spec_normalize(secret@)),
            ActionModel::Chmod(dest_key(root@, entry.path@), spec_mode(entry.public)),
        ],
{
    let dest = root.join(entry.path.as_str());
    let parent = dest.parent();
    let content = normalize_secret(secret);
    let mode = secret_file_mode(entry.public);
    let mut plan: Vec<FsAction> = Vec::new();
    plan.push(FsAction::CreateDirAll(parent));
    plan.push(FsAction::WriteFile(dest.duplicate(), content));
    plan.push(FsAction::SetMode(dest.duplicate(), mode));
    (dest, plan)
}

/// The reconciliation decision: nothing when the link already points at the
/// destination; otherwise make the parent chain, clear whatever else occupies
/// the location, and link it to the destination.
pub open spec fn spec_reconcile(o: LinkModel, l: PathKey, d: PathKey) -> Seq<ActionModel> {
    if o == LinkModel::LinkTo(d) {
        Seq::empty()
    } else if o == LinkModel::Missing {
        seq![ActionModel::MkDirAll(key_parent(l)), ActionModel::Link(l, d)]
    } else {
        seq![
            ActionModel::MkDirAll(key_parent(l)),
            ActionModel::Unlink(l),
            ActionModel::Link(l, d),
        ]
    }
}

/// The plan that reconciles one link location with the placed secret.
pub fn reconcile_plan(observed: &LinkState, link: &FsPath, dest: &FsPath) -> (r: Vec<FsAction>)
    ensures
        plan_model(r@) =~= spec_reconcile(link_state_model(*observed), link@, dest@),
{
    let mut plan: Vec<FsAction> = Vec::new();
    match observed {
        LinkState::SymlinkTo(cur) => {
            if cur.same_as(dest) {
                return plan;
            }
            plan.push(FsAction::CreateDirAll(link.parent()));
            plan.push(FsAction::RemoveFile(link.duplicate()));
            plan.push(FsAction::Symlink(link.duplicate(), dest.duplicate()));
        },
        LinkState::Missing => {
            plan.push(FsAction::CreateDirAll(link.parent()));
            plan.push(FsAction::Symlink(link.duplicate(), dest.duplicate()));
        },
        LinkState::ExistingFile => {
            plan.push(FsAction::CreateDirAll(link.parent()));
            plan.push(FsAction::RemoveFile(link.duplicate()));
            plan.push(FsAction::Symlink(link.duplicate(), dest.duplicate()));
        },
        LinkState::ExistingDir => {
            plan.push(FsAction::CreateDirAll(link.parent()));
            plan.push(FsAction::RemoveFile(link.duplicate()));
            plan.push(FsAction::Symlink(link.duplicate(), dest.duplicate()));
        },
    }
    plan
}

/// A link target from its configured text: absolute text stands alone,
/// anything else is resolved against the invoking user's home directory.
pub open spec fn spec_link_target(home: PathKey, link: Seq<char>) -> PathKey {
    if link.len() > 0 && link[0] == '/' {
        (true, spec_split_path(link))
    } else {
        (home.0, home.1 + spec_split_path(link))
    }
}

pub fn resolve_link_target(home: &FsPath, link: &str) -> (r: FsPath)
    ensures
        r@ == spec_link_target(home@, link@),
{
    let n = link.unicode_len();
    if n > 0 && link.get_char(0) == '/' {
        FsPath::absolute(link)
    } else {
        home.join(link)
    }
}

/// Placing a secret establishes the full parent chain of the destination,
/// leaves the normalized text at the destination, and sets the hardened mode;
/// for a non-public entry the resulting mode denies non-owners read access.
pub proof fn lemma_write_plan_effect(
    fs: FsModel,
    root: PathKey,
    rel: Seq<char>,
    content: Seq<char>,
    public: bool,
)
    ensures
        ({
            let dest = dest_key(root, rel);
            let plan = seq![
                ActionModel::MkDirAll(key_parent(dest)),
                ActionModel::Write(dest, spec_normalize(content)),
                ActionModel::Chmod(dest, spec_mode(public)),
            ];
            let post = apply_plan(fs, plan);
            &&& post.files.dom().contains(dest)
            &&& post.files[dest] == spec_normalize(content)
            &&& spec_normalize(content).len() > 0 && spec_normalize(content).last() == '\n'
            &&& forall|q: PathKey|
                key_is_prefix(q, key_parent(dest)) ==> post.dirs.contains(q)
            &&& post.modes.dom().contains(dest)
            &&& post.modes[dest] == spec_mode(public)
            &&& !public ==> mode_denies_nonowner_read(post.modes[dest])
        }),
{
    let dest = dest_key(root, rel);
    let a0 = ActionModel::MkDirAll(key_parent(dest));
    let a1 = ActionModel::Write(dest, spec_normalize(content));
    let a2 = ActionModel::Chmod(dest, spec_mode(public));
    let plan = seq![a0, a1, a2];
    assert(plan[0] == a0 && plan[1] == a1 && plan[2] == a2);
    let rest1 = plan.drop_first();
    let rest2 = rest1.drop_first();
    let rest3 = rest2.drop_first();
    assert(rest1 =~= seq![a1, a2]);
    assert(rest2 =~= seq![a2]);
    assert(rest3 =~= Seq::<ActionModel>::empty());
    let fs1 = apply_action(fs, a0);
    let fs2 = apply_action(fs1, a1);
    let fs3 = apply_action(fs2, a2);
    assert(apply_plan(fs, plan) == apply_plan(fs1, rest1));
    assert(rest1[0] == a1);
    assert(apply_plan(fs1, rest1) == apply_plan(fs2, rest2));
    assert(rest2[0] == a2);
    assert(apply_plan(fs2, rest2) == apply_plan(fs3, rest3));
    assert(apply_plan(fs3, rest3) == fs3);
}

/// Every path a write plan touches lies at or under the store root: the
/// destination and its parent chain extend the root, so entries placed
/// under their own sub-paths never interfere with one another.
pub proof fn lemma_write_plan_stays_under_root(root: PathKey, rel: Seq<char>)
    requires
        spec_split_path(rel).len() > 0,
    ensures
        key_is_prefix(root, dest_key(root, rel)),
        key_is_prefix(root, key_parent(dest_key(root, rel))),
{
    let tail = spec_split_path(rel);
    assert(root.1.is_prefix_of(root.1 + tail)) by {
        assert((root.1 + tail).subrange(0, root.1.len() as int) =~= root.1);
    }
    assert((root.1 + tail).drop_last() =~= root.1 + tail.drop_last());
    assert(root.1.is_prefix_of(root.1 + tail.drop_last())) by {
        assert((root.1 + tail.drop_last()).subrange(0, root.1.len() as int) =~= root.1);
    }
}

/// Reconciliation is idempotent: after one reconciliation of a link the
/// observation reports a link to the destination, a second reconciliation
/// plans no action at all, and applying that empty plan changes nothing.
/// When the link already points at the destination, even the first
/// reconciliation leaves the state untouched.
pub proof fn lemma_reconcile_idempotent(fs: FsModel, l: PathKey, d: PathKey)
    ensures
        ({
            let fs1 = apply_plan(fs, spec_reconcile(observe_link(fs, l), l, d));
            &&& observe_link(fs1, l) == LinkModel::LinkTo(d)
            &&& spec_reconcile(observe_link(fs1, l), l, d) =~= Seq::<ActionModel>::empty()
            &&& apply_plan(fs1, spec_reconcile(observe_link(fs1, l), l, d)) == fs1
            &&& observe_link(fs, l) == LinkModel::LinkTo(d) ==> fs1 == fs
        }),
{
    let o = observe_link(fs, l);
    let plan = spec_reconcile(o, l, d);
    if o == LinkModel::LinkTo(d) {
        assert(plan =~= Seq::<ActionModel>::empty());
        assert(apply_plan(fs, plan) == fs);
    } else if o == LinkModel::Missing {
        let a0 = ActionModel::MkDirAll(key_parent(l));
        let a1 = ActionModel::Link(l, d);
        assert(plan[0] == a0 && plan[1] == a1);
        let rest1 = plan.drop_first();
        let rest2 = rest1.drop_first();
        assert(rest1 =~= seq![a1]);
        assert(rest2 =~= Seq::<ActionModel>::empty());
        let fs1 = apply_action(fs, a0);
        let fs2 = apply_action(fs1, a1);
        assert(apply_plan(fs, plan) == apply_plan(fs1, rest1));
        assert(rest1[0] == a1);
        assert(apply_plan(fs1, rest1) == apply_plan(fs2, rest2));
        assert(apply_plan(fs2, rest2) == fs2);
        assert(fs2.links[l] == d);
    } else {
        let a0 = ActionModel::MkDirAll(key_parent(l));
        let a1 = ActionModel::Unlink(l);
        let a2 = ActionModel::Link(l, d);
        assert(plan[0] == a0 && plan[1] == a1 && plan[2] == a2);
        let rest1 = plan.drop_first();
        let rest2 = rest1.drop_first();
        let rest3 = rest2.drop_first();
        assert(rest1 =~= seq![a1, a2]);
        assert(rest2 =~= seq![a2]);
        assert(rest3 =~= Seq::<ActionModel>::empty());
        let fs1 = apply_action(fs, a0);
        let fs2 = apply_action(fs1, a1);
        let fs3 = apply_action(fs2, a2);
        assert(apply_plan(fs, plan) == apply_plan(fs1, rest1));
        assert(rest1[0] == a1);
        assert(apply_plan(fs1, rest1) == apply_plan(fs2, rest2));
        assert(rest2[0] == a2);
        assert(apply_plan(fs2, rest2) == apply_plan(fs3, rest3));
        assert(apply_plan(fs3, rest3) == fs3);
        assert(fs3.links[l] == d);
    }
}

} // verus!
