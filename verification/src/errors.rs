//! The failures that the library reports.

use vstd::prelude::*;

verus! {

/// Why a record was refused by the staging area.
#[derive(Clone, Copy, Debug, PartialEq, Eq, Structural)]
pub enum StagingFault {
    /// The record's path is empty.
    EmptyPath,
    /// The record's path is the path of the record staged just before it.
    Duplicate,
    /// The record's path comes before the path of the record staged just before it.
    OutOfOrder,
}

/// A failure of one of the library's operations. Each one ends the work on
/// the commit at hand.
#[derive(Clone, Debug, PartialEq, Eq)]
pub enum Failure {
    /// An identifier does not name an object of the kind that was asked for.
    ObjectResolution,
    /// A tree entry names an object that is neither a blob nor a tree.
    UnsupportedObjectKind,
    /// The staging input is malformed or out of order.
    StagingWrite(StagingFault),
    /// The object store failed to read or to write; the text is the store's own.
    Store(String),
    /// The commit has more than two parents.
    UnsupportedTopology,
    /// Subtrees are nested deeper than the caller allowed.
    DepthLimit,
}

} // verus!
