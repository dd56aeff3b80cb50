use vstd::prelude::*;

verus! {

/// The kinds of failure a filesystem request can end in.
#[derive(Clone, Copy, Debug, PartialEq, Eq, Structural)]
pub enum FsError {
    /// A path segment has no match.
    NotFound,
    /// A directory operation on a file, or the other way round.
    WrongType,
    /// A request that would write; the namespace is read-only.
    Forbidden,
    /// The backing repository failed.
    GeneralFailure,
    /// The query is not answered for this kind of node.
    NotImplemented,
    /// A seek to a position that is negative or beyond `u64`.
    InvalidSeek,
}

} // verus!
