//! Asset paths: the handle through which assets are named, resolved and
//! registered as dependencies, and the error that names the asset at which
//! a load failed.

use vstd::prelude::*;
use std::sync::Arc;
use crate::path::{extension_of, parent_of, resolve, AssetInnerPath};
use crate::root::{join, AssetRoot};
use renege::Condition;
use crate::token::{always_valid, minted};
use crate::tracker::Tracker;

verus! {

/// `Arc::clone`: another handle to the same value.
#[verifier::external_body]
fn share_root(root: &Arc<AssetRoot>) -> (shared: Arc<AssetRoot>)
    ensures
        shared == *root,
{
    Arc::clone(root)
}

/// `Arc::ptr_eq`: whether two handles point to the same allocation. Two
/// that do hold the same value; two that do not may hold equal values.
#[verifier::external_body]
fn same_root(a: &Arc<AssetRoot>, b: &Arc<AssetRoot>) -> (same: bool)
    ensures
        same ==> *a == *b,
{
    Arc::ptr_eq(a, b)
}

/// Two paths with the texts `a` and `b` are the same asset: they belong to
/// the same root instance and their texts are equal.
pub open spec fn same_asset(same_instance: bool, a: Seq<char>, b: Seq<char>) -> bool {
    same_instance && a == b
}

/// Identity goes by the root instance: paths of two root instances are
/// never the same asset, though their texts be identical, and paths of one
/// root instance are the same asset exactly where their texts are equal.
pub proof fn lemma_identity_by_root(a: Seq<char>, b: Seq<char>)
    ensures
        !same_asset(false, a, b),
        !same_asset(false, a, a),
        same_asset(true, a, b) <==> a == b,
{
}

/// An asset or a directory of assets: a root, shared by all the paths
/// derived from it, and a path within that root. Two asset paths are the
/// same only if they belong to the same root instance.
pub struct AssetPath {
    root: Arc<AssetRoot>,
    inner: AssetInnerPath,
}

impl AssetPath {
    /// The root that the path belongs to.
    pub closed spec fn root(&self) -> AssetRoot {
        *self.root
    }

    /// The text of the path within its root.
    pub closed spec fn inner(&self) -> Seq<char> {
        self.inner@
    }

    /// The root path of the namespace over `root`: the path from which all
    /// others in that root are derived.
    pub fn new_root(root: AssetRoot) -> (path: Self)
        ensures
            path.root() == root,
            path.inner() == Seq::<char>::empty(),
    {
        AssetPath { root: Arc::new(root), inner: AssetInnerPath::root() }
    }

    /// The path of the directory that this asset is in, or `None` for the
    /// root directory.
    pub fn parent(&self) -> (parent: Option<Self>)
        ensures
            match parent {
                Some(p) => p.root() == self.root() && parent_of(self.inner()) == Some(p.inner()),
                None => parent_of(self.inner()) is None,
            },
    {
        match self.inner.parent() {
            Some(inner) => Some(AssetPath { root: share_root(&self.root), inner }),
            None => None,
        }
    }

    /// Taking this path for a directory, the path of the asset that `path`
    /// denotes relative to it.
    pub fn relative(&self, path: &str) -> (asset: Self)
        ensures
            asset.root() == self.root(),
            asset.inner() == resolve(self.inner(), path@),
    {
        AssetPath { root: share_root(&self.root), inner: self.inner.relative(path) }
    }

    /// The file extension of this asset, or `None` where its path holds no
    /// dot.
    pub fn extension(&self) -> (ext: Option<&str>)
        ensures
            match ext {
                Some(e) => extension_of(self.inner()) == Some(e@),
                None => extension_of(self.inner()) is None,
            },
    {
        self.inner.extension()
    }

    /// The text of the path within its root.
    pub fn as_str(&self) -> (text: &str)
        ensures
            text@ == self.inner(),
    {
        self.inner.as_str()
    }

    /// The real path of the asset in the file system.
    pub fn full_path(&self) -> (full: String)
        ensures
            full@ == join(self.root().dir(), self.inner()),
    {
        self.root.full_path(self.inner.as_str())
    }

    /// Whether changes to the assets of this path's root are watched.
    pub fn watched(&self) -> (watched: bool)
        ensures
            watched == self.root().is_watched(),
    {
        self.root.watched()
    }

    /// Makes sure that `tracker` becomes invalid when this asset changes,
    /// without reading the asset. Where the root is watched, the token of
    /// the condition for the real path of the asset is composed into the
    /// tracker, which from then on is not valid for ever; a tracker without
    /// dependencies holds just a token that a condition minted. Where the
    /// root is not watched the tracker stays as it is: one that was valid
    /// for ever is so still.
    pub fn track(&self, tracker: &mut Tracker)
        ensures
            !self.root().is_watched() ==> final(tracker)@ == old(tracker)@,
            !self.root().is_watched() && always_valid(old(tracker)@) ==> always_valid(
                final(tracker)@,
            ),
            self.root().is_watched() ==> !always_valid(final(tracker)@),
            self.root().is_watched() && always_valid(old(tracker)@) ==> exists|c: Condition|
                final(tracker)@ == #[trigger] minted(c),
    {
        self.root.track_file(tracker, self.inner.as_str());
    }

    /// Whether two paths are the same asset, given whether they belong to
    /// the same root instance: they are where they do and the texts of
    /// their paths are equal.
    pub fn same_in(same_instance: bool, a: &AssetInnerPath, b: &AssetInnerPath) -> (same: bool)
        ensures
            same == same_asset(same_instance, a@, b@),
    {
        same_instance && *a == *b
    }

    /// Whether two paths are the same asset: the same path in the same
    /// root instance. Paths of two roots are never the same, whatever
    /// their texts.
    pub fn same_as(&self, other: &Self) -> (same: bool)
        ensures
            same ==> self.root() == other.root() && self.inner() == other.inner(),
            self.inner() != other.inner() ==> !same,
    {
        let same_instance = same_root(&self.root, &other.root);
        AssetPath::same_in(same_instance, &self.inner, &other.inner)
    }
}

impl Clone for AssetPath {
    fn clone(&self) -> (copy: Self)
        ensures
            copy == *self,
    {
        AssetPath { root: share_root(&self.root), inner: self.inner.clone() }
    }
}

impl std::hash::Hash for AssetPath {
    /// `Hash::hash` of the address of the root together with the text of
    /// the path: equal paths of one root instance hash alike. Nothing is
    /// stated of the hash.
    #[verifier::external_body]
    fn hash<H: std::hash::Hasher>(&self, state: &mut H) {
        (Arc::as_ptr(&self.root), self.inner.as_str()).hash(state)
    }
}

impl PartialEq for AssetPath {
    fn eq(&self, other: &Self) -> (equal: bool) {
        self.same_as(other)
    }
}

impl Eq for AssetPath {}

impl vstd::std_specs::cmp::PartialEqSpecImpl for AssetPath {
    open spec fn obeys_eq_spec() -> bool {
        false
    }

    open spec fn eq_spec(&self, other: &Self) -> bool {
        self.root() == other.root() && self.inner() == other.inner()
    }
}

/// The failure of a load: the asset that was being loaded and what went
/// wrong with it.
pub struct AssetLoadError<E> {
    /// The path of the asset that could not be loaded.
    pub asset: AssetPath,
    /// The cause of the failure.
    pub inner: E,
}

/// The result of loading an asset.
pub type AssetLoadResult<T, E> = Result<T, AssetLoadError<E>>;

/// Tags a failure with the asset at which it occurred.
pub fn tag_error<T, E>(asset: &AssetPath, result: Result<T, E>) -> (tagged: AssetLoadResult<T, E>)
    ensures
        match result {
            Ok(value) => tagged == Ok::<T, AssetLoadError<E>>(value),
            Err(cause) => tagged == Err::<T, AssetLoadError<E>>(
                (AssetLoadError { asset: *asset, inner: cause }),
            ),
        },
{
    match result {
        Ok(value) => Ok(value),
        Err(cause) => Err(AssetLoadError { asset: asset.clone(), inner: cause }),
    }
}

/// Runs `inner` and tags the failure, if it fails, with `asset`. What
/// `inner` returned is kept: the value as it is, the failure as the cause.
pub fn with_asset<T, E, F: FnOnce() -> Result<T, E>>(asset: &AssetPath, inner: F) -> (result:
    AssetLoadResult<T, E>)
    requires
        inner.requires(()),
    ensures
        match result {
            Ok(value) => inner.ensures((), Ok(value)),
            Err(error) => error.asset == *asset && inner.ensures((), Err(error.inner)),
        },
{
    tag_error(asset, inner())
}

} // verus!
