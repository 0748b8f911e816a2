//! Inspection of how a commit changed its tree relative to its parents.
//!
//! The crate flattens nested trees into staging records, rebuilds a baseline
//! tree from them, asks the object store for tree-to-tree differences and
//! renders them as prefixed patch lines. Every function states its behaviour
//! in a contract that is checked by Verus.
//!
//! - `ids`, `paths`, `bytes`: identifiers, slash-joined paths and their order.
//! - `tree`, `flatten`, `ordering`: resolved trees, the tree flattener and
//!   what holds of its output.
//! - `staging`, `baseline`: the staging area and the baseline reconstructor.
//! - `patch`, `render`, `differ`: deltas, the patch renderer and the tree
//!   differencer.
//! - `dispatch`, `inspect`, `report`, `info`: the commit dispatcher, its run
//!   against the store, and what is shown of it.
//! - `resolve`, `store`: reading trees out of the object store, and the
//!   calls into `git2` that are taken on trust.

pub mod baseline;
pub mod bytes;
pub mod differ;
pub mod dispatch;
pub mod errors;
pub mod flatten;
pub mod ids;
pub mod info;
pub mod inspect;
pub mod ordering;
pub mod patch;
pub mod paths;
pub mod render;
pub mod report;
pub mod resolve;
pub mod staging;
pub mod store;
pub mod tree;
