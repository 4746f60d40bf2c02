//! Paths and filesystem effects, modelled explicitly.
//!
//! The library never touches the real filesystem. Every effect it wants is a
//! `FsAction` in a plan; an unverified driver carries plans out. The ghost
//! `FsModel` gives plans a meaning, so laws about placement, reconciliation
//! and teardown can be stated and proved.

use vstd::prelude::*;

verus! {

/// The mathematical form of a path: whether it is absolute, and its
/// components.
pub type PathKey = (bool, Seq<Seq<char>>);

/// A path, split into components. Relative paths are resolved by the caller
/// against an explicit base (the store root, the home directory); nothing
/// here consults the environment.
#[derive(Debug, PartialEq, Eq)]
pub struct FsPath {
    pub absolute: bool,
    pub parts: Vec<String>,
}

impl View for FsPath {
    type V = PathKey;

    open spec fn view(&self) -> PathKey {
        (self.absolute, self.parts.deep_view())
    }
}

/// The path one component up; the root of the hierarchy is its own parent.
pub open spec fn key_parent(p: PathKey) -> PathKey {
    if p.1.len() == 0 {
        p
    } else {
        (p.0, p.1.drop_last())
    }
}

/// `a` names the same directory as `b` or one of its ancestors.
pub open spec fn key_is_prefix(a: PathKey, b: PathKey) -> bool {
    a.0 == b.0 && a.1.is_prefix_of(b.1)
}

/// Splitting `s` on `/`, empty components dropped; scanning from `i` with the
/// component read so far and the components already complete.
pub open spec fn spec_components(
    s: Seq<char>,
    i: int,
    cur: Seq<char>,
    acc: Seq<Seq<char>>,
) -> Seq<Seq<char>>
    decreases s.len() - i,
{
    if i < 0 || i >= s.len() {
        if cur.len() > 0 {
            acc.push(cur)
        } else {
            acc
        }
    } else if s[i] == '/' {
        spec_components(
            s,
            i + 1,
            Seq::empty(),
            if cur.len() > 0 {
                acc.push(cur)
            } else {
                acc
            },
        )
    } else {
        spec_components(s, i + 1, cur.push(s[i]), acc)
    }
}

/// The components of a textual path, `/`-separated, empty components dropped.
pub open spec fn spec_split_path(s: Seq<char>) -> Seq<Seq<char>> {
    spec_components(s, 0, Seq::empty(), Seq::empty())
}

/// Splits path text into its non-empty components.
pub fn split_path(s: &str) -> (r: Vec<String>)
    ensures
        r.deep_view() == spec_split_path(s@),
{
    let n = s.unicode_len();
    let mut acc: Vec<String> = Vec::new();
    let mut start: usize = 0;
    let mut i: usize = 0;
    proof {
        assert(s@.subrange(0, 0) =~= Seq::<char>::empty());
        assert(acc.deep_view() =~= Seq::<Seq<char>>::empty());
    }
    while i < n
        invariant
            start <= i <= n,
            n == s@.len(),
            spec_components(s@, i as int, s@.subrange(start as int, i as int), acc.deep_view())
                == spec_split_path(s@),
        decreases n - i,
    {
        let ghost cur = s@.subrange(start as int, i as int);
        let ghost old_acc = acc.deep_view();
        let c = s.get_char(i);
        if c == '/' {
            if i > start {
                let piece = s.substring_char(start, i).to_owned();
                acc.push(piece);
                proof {
                    assert(acc.deep_view() =~= old_acc.push(cur));
                }
            }
            start = i + 1;
            i = i + 1;
            proof {
                assert(s@.subrange(start as int, i as int) =~= Seq::<char>::empty());
            }
        } else {
            i = i + 1;
            proof {
                assert(s@.subrange(start as int, i as int) =~= cur.push(s@[i - 1]));
            }
        }
    }
    if n > start {
        let ghost cur = s@.subrange(start as int, n as int);
        let ghost old_acc = acc.deep_view();
        let piece = s.substring_char(start, n).to_owned();
        acc.push(piece);
        proof {
            assert(acc.deep_view() =~= old_acc.push(cur));
        }
    }
    acc
}

impl FsPath {
    /// A relative path from its textual, `/`-separated form.
    pub fn relative(text: &str) -> (r: FsPath)
        ensures
            r@ == (false, spec_split_path(text@)),
    {
        FsPath { absolute: false, parts: split_path(text) }
    }

    /// An absolute path from its textual, `/`-separated form.
    pub fn absolute(text: &str) -> (r: FsPath)
        ensures
            r@ == (true, spec_split_path(text@)),
    {
        FsPath { absolute: true, parts: split_path(text) }
    }

    /// A structural copy.
    pub fn duplicate(&self) -> (r: FsPath)
        ensures
            r@ == self@,
    {
        let mut parts: Vec<String> = Vec::new();
        let mut i: usize = 0;
        while i < self.parts.len()
            invariant
                i <= self.parts.len(),
                parts.deep_view() =~= self.parts.deep_view().take(i as int),
            decreases self.parts.len() - i,
        {
            let ghost before = parts.deep_view();
            let piece = self.parts[i].clone();
            parts.push(piece);
            proof {
                assert(parts.deep_view() =~= before.push(self.parts@[i as int]@));
                assert(parts.deep_view() =~= self.parts.deep_view().take(i + 1));
            }
            i = i + 1;
        }
        proof {
            assert(parts.deep_view() =~= self.parts.deep_view());
        }
        FsPath { absolute: self.absolute, parts }
    }

    /// This path extended by the components of relative path text.
    pub fn join(&self, rel: &str) -> (r: FsPath)
        ensures
            r@ == (self@.0, self@.1 + spec_split_path(rel@)),
    {
        let mut out = self.duplicate();
        let mut extra = split_path(rel);
        let ghost base = self.parts.deep_view();
        let ghost added = extra.deep_view();
        let mut i: usize = 0;
        while i < extra.len()
            invariant
                i <= extra.len(),
                extra.deep_view() == added,
                out.absolute == self.absolute,
                out.parts.deep_view() =~= base + added.take(i as int),
            decreases extra.len() - i,
        {
            let ghost before = out.parts.deep_view();
            let piece = extra[i].clone();
            out.parts.push(piece);
            proof {
                assert(out.parts.deep_view() =~= before.push(extra@[i as int]@));
                assert(out.parts.deep_view() =~= base + added.take(i + 1));
            }
            i = i + 1;
        }
        proof {
            assert(out.parts.deep_view() =~= base + added);
        }
        out
    }

    /// The parent directory; a path with no components is its own parent.
    pub fn parent(&self) -> (r: FsPath)
        ensures
            r@ == key_parent(self@),
    {
        let mut out = self.duplicate();
        if out.parts.len() > 0 {
            out.parts.pop();
            proof {
                assert(out.parts.deep_view() =~= self.parts.deep_view().drop_last());
            }
        }
        out
    }

    /// Structural equality of two paths.
    pub fn same_as(&self, other: &FsPath) -> (b: bool)
        ensures
            b == (self@ == other@),
    {
        if self.absolute != other.absolute {
            return false;
        }
        if self.parts.len() != other.parts.len() {
            proof {
                assert(self@.1.len() != other@.1.len());
            }
            return false;
        }
        let mut i: usize = 0;
        while i < self.parts.len()
            invariant
                i <= self.parts.len(),
                self.parts.len() == other.parts.len(),
                self.absolute == other.absolute,
            forall|k: int| 0 <= k < i ==> self.parts.deep_view()[k] == other.parts.deep_view()[k],
        decreases self.parts.len() - i,
    {
        if !(self.parts[i] == other.parts[i]) {
            proof {
                assert(self@.1[i as int] != other@.1[i as int]);
            }
            return false;
        }
        i = i + 1;
    }
        proof {
            assert(self@.1 =~= other@.1);
        }
        true
    }
}

/// One filesystem effect, as the driver is asked to perform it.
#[derive(Debug, PartialEq, Eq)]
pub enum FsAction {
    /// Create the directory and all missing ancestors.
    CreateDirAll(FsPath),
    /// Create or replace the file with the given text.
    WriteFile(FsPath, String),
    /// Set the file's POSIX permission bits.
    SetMode(FsPath, u32),
    /// Remove the file or symlink at the path.
    RemoveFile(FsPath),
    /// Create a symlink at the first path pointing at the second.
    Symlink(FsPath, FsPath),
    /// Remove the whole tree rooted at the path.
    RemoveTree(FsPath),
}

/// The mathematical form of an action.
pub enum ActionModel {
    MkDirAll(PathKey),
    Write(PathKey, Seq<char>),
    Chmod(PathKey, u32),
    Unlink(PathKey),
    Link(PathKey, PathKey),
    RemoveTree(PathKey),
}

pub open spec fn action_model(a: FsAction) -> ActionModel {
    match a {
        FsAction::CreateDirAll(p) => ActionModel::MkDirAll(p@),
        FsAction::WriteFile(p, s) => ActionModel::Write(p@, s@),
        FsAction::SetMode(p, m) => ActionModel::Chmod(p@, m),
        FsAction::RemoveFile(p) => ActionModel::Unlink(p@),
        FsAction::Symlink(l, d) => ActionModel::Link(l@, d@),
        FsAction::RemoveTree(p) => ActionModel::RemoveTree(p@),
    }
}

pub open spec fn plan_model(v: Seq<FsAction>) -> Seq<ActionModel> {
    v.map_values(|a: FsAction| action_model(a))
}

/// Ghost state of the part of the filesystem the library cares about:
/// which directories exist, file contents, permission modes, and where
/// symlinks point.
#[verifier::ext_equal]
pub struct FsModel {
    pub dirs: Set<PathKey>,
    pub files: Map<PathKey, Seq<char>>,
    pub modes: Map<PathKey, u32>,
    pub links: Map<PathKey, PathKey>,
}

/// What one action does to the modelled state.
pub open spec fn apply_action(fs: FsModel, a: ActionModel) -> FsModel {
    match a {
        ActionModel::MkDirAll(p) => FsModel {
            dirs: fs.dirs.union(Set::new(|q: PathKey| key_is_prefix(q, p))),
            ..fs
        },
        ActionModel::Write(p, c) => FsModel {
            files: fs.files.insert(p, c),
            links: fs.links.remove(p),
            ..fs
        },
        ActionModel::Chmod(p, m) => FsModel { modes: fs.modes.insert(p, m), ..fs },
        ActionModel::Unlink(p) => FsModel {
            files: fs.files.remove(p),
            links: fs.links.remove(p),
            ..fs
        },
        ActionModel::Link(l, d) => FsModel {
            links: fs.links.insert(l, d),
            files: fs.files.remove(l),
            ..fs
        },
        ActionModel::RemoveTree(p) => FsModel {
            dirs: fs.dirs.difference(Set::new(|q: PathKey| key_is_prefix(p, q))),
            files: fs.files.remove_keys(Set::new(|q: PathKey| key_is_prefix(p, q))),
            modes: fs.modes.remove_keys(Set::new(|q: PathKey| key_is_prefix(p, q))),
            links: fs.links.remove_keys(Set::new(|q: PathKey| key_is_prefix(p, q))),
        },
    }
}

/// A plan applied in order.
pub open spec fn apply_plan(fs: FsModel, plan: Seq<ActionModel>) -> FsModel
    decreases plan.len(),
{
    if plan.len() == 0 {
        fs
    } else {
        apply_plan(apply_action(fs, plan[0]), plan.drop_first())
    }
}

/// What a driver observes at a link location before reconciling it.
#[derive(Debug, PartialEq, Eq)]
pub enum LinkState {
    Missing,
    SymlinkTo(FsPath),
    ExistingFile,
    ExistingDir,
}

/// The mathematical form of an observation.
pub enum LinkModel {
    Missing,
    LinkTo(PathKey),
    FileHere,
    DirHere,
}

pub open spec fn link_state_model(s: LinkState) -> LinkModel {
    match s {
        LinkState::Missing => LinkModel::Missing,
        LinkState::SymlinkTo(p) => LinkModel::LinkTo(p@),
        LinkState::ExistingFile => LinkModel::FileHere,
        LinkState::ExistingDir => LinkModel::DirHere,
    }
}

/// What the modelled state says an observation of `l` yields.
pub open spec fn observe_link(fs: FsModel, l: PathKey) -> LinkModel {
    if fs.links.dom().contains(l) {
        LinkModel::LinkTo(fs.links[l])
    } else if fs.files.dom().contains(l) {
        LinkModel::FileHere
    } else if fs.dirs.contains(l) {
        LinkModel::DirHere
    } else {
        LinkModel::Missing
    }
}

} // verus!
