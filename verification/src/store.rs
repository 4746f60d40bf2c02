//! The ephemeral backing store and the run's aggregation.
//!
//! The store root is torn down and recreated at the start of every run;
//! teardown of a root that does not exist is a no-op. The pipeline's
//! per-entry outcomes are aggregated into the success/total pair the run
//! reports.

use vstd::prelude::*;

use crate::bitwarden::VaultError;
use crate::fs::{
    apply_action, apply_plan, key_is_prefix, plan_model, ActionModel, FsAction, FsModel, FsPath,
    PathKey,
};

verus! {

/// The storage root all placed secrets live under for one run.
pub struct SecretStore {
    pub root: FsPath,
}

/// What backs the store root, surfaced so a weaker fallback is never
/// silent.
#[derive(PartialEq, Eq, Structural, Debug)]
pub enum StoreBacking {
    /// A volatile memory-backed filesystem is mounted at the root.
    Volatile,
    /// A plain directory; secrets survive until the next teardown, which
    /// weakens the exposure-time guarantee.
    PlainDirectory,
}

/// Why provisioning the store failed; both are fatal, since no safe
/// placement location exists.
#[derive(PartialEq, Eq, Structural, Debug)]
pub enum SetupError {
    /// The root directory could not be created.
    Io,
    /// The platform supports volatile backing but mounting it failed.
    Mount,
}

/// How one entry's materialization ended.
pub enum EntryOutcome {
    Written { id: String, path: String },
    Failed { id: String, error: EntryError },
}

/// Why one entry failed; the failure never leaves the entry.
pub enum EntryError {
    /// Fetching or resolving the secret failed.
    Vault(VaultError),
    /// Placing the secret or a link failed; carries the driver's error
    /// text.
    Io(String),
}

/// The teardown decision: remove the tree when the root exists, nothing
/// otherwise.
pub open spec fn spec_teardown(root_exists: bool, root: PathKey) -> Seq<ActionModel> {
    if root_exists {
        seq![ActionModel::RemoveTree(root)]
    } else {
        Seq::empty()
    }
}

impl SecretStore {
    pub fn new(root: FsPath) -> (s: SecretStore)
        ensures
            s.root@ == root@,
    {
        SecretStore { root }
    }

    /// The plan that clears the previous run's root, given whether the
    /// driver observed it to exist.
    pub fn teardown_plan(&self, root_exists: bool) -> (r: Vec<FsAction>)
        ensures
            plan_model(r@) =~= spec_teardown(root_exists, self.root@),
    {
        let mut plan: Vec<FsAction> = Vec::new();
        if root_exists {
            plan.push(FsAction::RemoveTree(self.root.duplicate()));
        }
        plan
    }

    /// The plan that provisions the root directory.
    pub fn setup_plan(&self) -> (r: Vec<FsAction>)
        ensures
            plan_model(r@) =~= seq![ActionModel::MkDirAll(self.root@)],
    {
        let mut plan: Vec<FsAction> = Vec::new();
        plan.push(FsAction::CreateDirAll(self.root.duplicate()));
        plan
    }

    /// The provisioning decision: a root that could not be created is
    /// fatal; on a platform with volatile backing a failed mount is fatal;
    /// without such backing the plain directory is used and surfaced.
    pub fn interpret_setup(created: bool, volatile_supported: bool, mount_succeeded: bool) -> (r:
        Result<StoreBacking, SetupError>)
        ensures
            !created ==> r == Err::<StoreBacking, SetupError>(SetupError::Io),
            created && volatile_supported && mount_succeeded ==> r == Ok::<
                StoreBacking,
                SetupError,
            >(StoreBacking::Volatile),
            created && volatile_supported && !mount_succeeded ==> r == Err::<
                StoreBacking,
                SetupError,
            >(SetupError::Mount),
            created && !volatile_supported ==> r == Ok::<StoreBacking, SetupError>(
                StoreBacking::PlainDirectory,
            ),
    {
        if !created {
            Err(SetupError::Io)
        } else if volatile_supported {
            if mount_succeeded {
                Ok(StoreBacking::Volatile)
            } else {
                Err(SetupError::Mount)
            }
        } else {
            Ok(StoreBacking::PlainDirectory)
        }
    }
}

pub open spec fn is_written(o: EntryOutcome) -> bool {
    o matches EntryOutcome::Written { .. }
}

/// How many outcomes report a written secret.
pub open spec fn spec_success_count(s: Seq<EntryOutcome>) -> int
    decreases s.len(),
{
    if s.len() == 0 {
        0
    } else {
        spec_success_count(s.drop_last()) + if is_written(s.last()) {
            1int
        } else {
            0int
        }
    }
}

/// The run's visible summary: how many entries succeeded, out of how many.
/// One entry's failure never hides another's success.
pub fn summarize_outcomes(outcomes: &Vec<EntryOutcome>) -> (r: (usize, usize))
    ensures
        r.0 == spec_success_count(outcomes@),
        r.1 == outcomes@.len(),
{
    let mut ok: usize = 0;
    let mut i: usize = 0;
    proof {
        assert(outcomes@.take(0int) =~= Seq::<EntryOutcome>::empty());
    }
    while i < outcomes.len()
        invariant
            i <= outcomes.len(),
            ok == spec_success_count(outcomes@.take(i as int)),
            ok <= i,
        decreases outcomes.len() - i,
    {
        proof {
            assert(outcomes@.take(i + 1).drop_last() =~= outcomes@.take(i as int));
            assert(outcomes@.take(i + 1).last() == outcomes@[i as int]);
        }
        let hit = match &outcomes[i] {
            EntryOutcome::Written { .. } => true,
            EntryOutcome::Failed { .. } => false,
        };
        if hit {
            ok = ok + 1;
        }
        i = i + 1;
    }
    proof {
        assert(outcomes@.take(outcomes@.len() as int) =~= outcomes@);
    }
    (ok, outcomes.len())
}

/// Tearing down a store whose root does not exist plans nothing, and
/// applying that empty plan leaves every part of the filesystem as it was.
pub proof fn lemma_teardown_absent_root(fs: FsModel, root: PathKey)
    ensures
        spec_teardown(false, root) =~= Seq::<ActionModel>::empty(),
        apply_plan(fs, spec_teardown(false, root)) == fs,
{
}

/// Tearing down an existing root removes everything at or under it: no
/// file, link, mode or directory of a previous run survives.
pub proof fn lemma_teardown_clears_root(fs: FsModel, root: PathKey)
    ensures
        ({
            let post = apply_plan(fs, spec_teardown(true, root));
            forall|q: PathKey|
                key_is_prefix(root, q) ==> !post.files.dom().contains(q)
                    && !post.links.dom().contains(q) && !post.modes.dom().contains(q)
                    && !post.dirs.contains(q)
        }),
{
    let plan = spec_teardown(true, root);
    let post1 = apply_action(fs, plan[0]);
    assert(plan.drop_first() =~= Seq::<ActionModel>::empty());
    assert(apply_plan(fs, plan) == apply_plan(post1, plan.drop_first()));
    assert(apply_plan(post1, plan.drop_first()) == post1);
}

} // verus!
