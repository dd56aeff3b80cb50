//! Metadata of nodes as the protocol adapters report it.
use vstd::prelude::*;

use crate::error::FsError;
use crate::template::Timestamp;

verus! {

/// The kind of a node.
#[derive(Clone, Copy, Debug, PartialEq, Eq, Structural)]
pub enum NodeKind {
    File,
    Dir,
    Symlink,
}

/// What is known of a node: kind, size, times and permission bits.
#[derive(Clone, Copy, Debug, PartialEq, Eq, Structural)]
pub struct NodeMeta {
    pub kind: NodeKind,
    pub size: u64,
    pub mtime: Option<Timestamp>,
    pub atime: Option<Timestamp>,
    pub ctime: Option<Timestamp>,
    pub mode: Option<u32>,
}

/// The owner-execute permission bit.
pub const OWNER_EXECUTE: u32 = 0o100;

/// A time, or `now` where the node records none.
pub open spec fn time_or(t: Option<Timestamp>, now: Timestamp) -> Timestamp {
    match t {
        Some(x) => x,
        None => now,
    }
}

impl NodeMeta {
    pub open spec fn synthetic_dir_spec() -> NodeMeta {
        NodeMeta { kind: NodeKind::Dir, size: 0, mtime: None, atime: None, ctime: None, mode: None }
    }

    pub open spec fn synthetic_symlink_spec() -> NodeMeta {
        NodeMeta { kind: NodeKind::Symlink, size: 0, mtime: None, atime: None, ctime: None, mode: None }
    }

    /// The metadata of a synthetic directory: empty, with no times.
    pub fn synthetic_dir() -> (r: NodeMeta)
        ensures
            r == Self::synthetic_dir_spec(),
    {
        NodeMeta { kind: NodeKind::Dir, size: 0, mtime: None, atime: None, ctime: None, mode: None }
    }

    /// The metadata of a symlink shown for a link entry.
    pub fn synthetic_symlink() -> (r: NodeMeta)
        ensures
            r == Self::synthetic_symlink_spec(),
    {
        NodeMeta { kind: NodeKind::Symlink, size: 0, mtime: None, atime: None, ctime: None, mode: None }
    }

    pub fn len(&self) -> (r: u64)
        ensures
            r == self.size,
    {
        self.size
    }

    /// Creation time is not recorded: always `now`.
    pub fn created(&self, now: Timestamp) -> (r: Timestamp)
        ensures
            r == now,
    {
        now
    }

    pub fn modified(&self, now: Timestamp) -> (r: Timestamp)
        ensures
            r == time_or(self.mtime, now),
    {
        match self.mtime {
            Some(t) => t,
            None => now,
        }
    }

    pub fn accessed(&self, now: Timestamp) -> (r: Timestamp)
        ensures
            r == time_or(self.atime, now),
    {
        match self.atime {
            Some(t) => t,
            None => now,
        }
    }

    pub fn status_changed(&self, now: Timestamp) -> (r: Timestamp)
        ensures
            r == time_or(self.ctime, now),
    {
        match self.ctime {
            Some(t) => t,
            None => now,
        }
    }

    pub fn is_dir(&self) -> (r: bool)
        ensures
            r == (self.kind == NodeKind::Dir),
    {
        self.kind == NodeKind::Dir
    }

    pub fn is_file(&self) -> (r: bool)
        ensures
            r == (self.kind == NodeKind::File),
    {
        self.kind == NodeKind::File
    }

    pub fn is_symlink(&self) -> (r: bool)
        ensures
            r == (self.kind == NodeKind::Symlink),
    {
        self.kind == NodeKind::Symlink
    }

    /// Whether a file has the owner-execute bit; a file without a mode is
    /// not executable, and other kinds do not answer.
    pub fn executable(&self) -> (r: Result<bool, FsError>)
        ensures
            self.kind == NodeKind::File ==> r == Ok::<bool, FsError>(
                match self.mode {
                    Some(m) => m & OWNER_EXECUTE != 0,
                    None => false,
                },
            ),
            self.kind != NodeKind::File ==> r == Err::<bool, FsError>(FsError::NotImplemented),
    {
        if self.kind == NodeKind::File {
            match self.mode {
                Some(m) => Ok(m & OWNER_EXECUTE != 0),
                None => Ok(false),
            }
        } else {
            Err(FsError::NotImplemented)
        }
    }
}

} // verus!
