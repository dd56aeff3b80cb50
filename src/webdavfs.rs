//! The filesystem that the protocol adapters serve: the namespace, and the
//! time reported where a node records none.
use vstd::prelude::*;

use crate::error::FsError;
use crate::meta::NodeMeta;
use crate::namespace::{build_spec, listing_matches, open_matches, BuildError, FsTree, Listing, OpenOptions};
use crate::template::{Locator, SnapshotInfo, Timestamp};
use crate::text::path_segments;
use crate::tree::{resolve_spec, EntryV, KindV, Resolved, ResolvedV};

verus! {

/// A read-only filesystem over snapshots. The namespace is built once and
/// never changes; `now` is taken once per session and stands for every
/// time a node does not record.
#[derive(Clone, Debug)]
pub struct RusticWebDavFS {
    pub root: FsTree,
    pub now: Timestamp,
}

impl RusticWebDavFS {
    pub open spec fn wf(&self) -> bool {
        self.root.wf()
    }

    /// Serves the namespace `root`.
    pub fn new(root: FsTree, now: Timestamp) -> (r: RusticWebDavFS)
        requires
            root.wf(),
        ensures
            r.wf(),
            r.root == root,
            r.now == now,
    {
        RusticWebDavFS { root, now }
    }

    /// Serves one directory tree of the store at the root.
    pub fn from_node(tree: Locator, now: Timestamp) -> (r: RusticWebDavFS)
        ensures
            r.wf(),
            r.root.entries_v() == seq![EntryV { path: Seq::empty(), kind: KindV::Real(tree) }],
            r.now == now,
    {
        Self::new(FsTree::from_node(tree), now)
    }

    /// Serves the namespace of `snapshots` (see `FsTree::from_snapshots`);
    /// links are shown as symlinks when `symlinks` is set.
    pub fn from_snapshots(
        snapshots: Vec<SnapshotInfo>,
        path_template: &str,
        time_template: &str,
        symlinks: bool,
        now: Timestamp,
    ) -> (r: Result<RusticWebDavFS, BuildError>)
        ensures
            match build_spec(snapshots@, path_template@, time_template@) {
                Ok(es) => r is Ok && r->Ok_0.wf() && r->Ok_0.root.entries_v() == es
                    && r->Ok_0.root.links_as_symlinks == symlinks && r->Ok_0.now == now,
                Err(e) => r == Err::<RusticWebDavFS, BuildError>(e),
            },
    {
        match FsTree::from_snapshots(snapshots, path_template, time_template, symlinks) {
            Ok(root) => Ok(Self::new(root, now)),
            Err(e) => Err(e),
        }
    }

    /// Where a `/`-separated path leads.
    pub fn node_from_path(&self, path: &str) -> (r: Resolved)
        requires
            self.wf(),
        ensures
            r@ == resolve_spec(self.root.entries_v(), self.root.links_as_symlinks, path_segments(path@)),
    {
        self.root.node_from_path(path)
    }

    /// Lists the directory at a `/`-separated path.
    pub fn dir_entries_from_path(&self, path: &str) -> (r: Result<Listing, FsError>)
        requires
            self.wf(),
        ensures
            listing_matches(self.root.entries_v(), self.root.links_as_symlinks, path_segments(path@), r),
    {
        let segs = crate::text::split_path(path);
        self.root.dir_entries(&segs)
    }

    /// Opens a `/`-separated path for reading; any request that would
    /// write is forbidden.
    pub fn open(&self, path: &str, options: OpenOptions) -> (r: Result<(Locator, Vec<String>), FsError>)
        requires
            self.wf(),
        ensures
            open_matches(self.root.entries_v(), self.root.links_as_symlinks, path_segments(path@), options, r),
    {
        let segs = crate::text::split_path(path);
        self.root.open(&segs, options)
    }

    /// The metadata of what a path leads to, where the namespace itself
    /// knows it: a synthetic directory or a symlink. Paths into the store
    /// and missing paths give `None`.
    pub fn synthetic_metadata(&self, r: &Resolved) -> (m: Option<NodeMeta>)
        ensures
            r@ is Virtual ==> m == Some(NodeMeta::synthetic_dir_spec()),
            r@ is Symlink ==> m == Some(NodeMeta::synthetic_symlink_spec()),
            (r@ is Real || r@ is NotFound) ==> m is None,
    {
        match r {
            Resolved::Virtual => Some(NodeMeta::synthetic_dir()),
            Resolved::Symlink { .. } => Some(NodeMeta::synthetic_symlink()),
            _ => None,
        }
    }
}

} // verus!
