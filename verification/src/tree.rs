//! Trees as the object store lists them, and trees with every entry resolved.

use vstd::prelude::*;
use crate::ids::ObjectId;
use crate::paths::SEPARATOR;

verus! {

/// One entry of a tree as the store lists it: a name, the identifier of the
/// object it points to, and a file mode.
#[derive(Clone, Debug, PartialEq, Eq)]
pub struct TreeEntry {
    pub name: Vec<u8>,
    pub id: ObjectId,
    pub mode: u32,
}

/// What the identifier of an entry turned out to name.
#[derive(Debug, PartialEq, Eq)]
pub enum Target {
    /// A blob of `size` bytes.
    Blob { size: u64 },
    /// A subtree with its own resolved entries, in the store's order.
    Tree { entries: Vec<Entry> },
    /// Any other kind of object.
    Other,
}

/// A tree entry together with the object it points to.
#[derive(Debug, PartialEq, Eq)]
pub struct Entry {
    pub name: Vec<u8>,
    pub id: ObjectId,
    pub mode: u32,
    pub target: Target,
}

/// No entry, at any depth, points to an object that is neither blob nor tree.
pub open spec fn supported(entries: Seq<Entry>) -> bool
    decreases entries,
{
    forall|i: int| 0 <= i < entries.len() ==> entry_supported(#[trigger] entries[i])
}

/// The entry and everything below it is a blob or a tree.
pub open spec fn entry_supported(entry: Entry) -> bool
    decreases entry,
{
    match entry.target {
        Target::Blob { .. } => true,
        Target::Tree { entries } => supported(entries@),
        Target::Other => false,
    }
}

/// The names at one level are path segments and no two of them are the same.
pub open spec fn level_well_formed(entries: Seq<Entry>) -> bool {
    &&& forall|i: int| 0 <= i < entries.len() ==> !(#[trigger] entries[i]).name@.contains(SEPARATOR)
    &&& forall|i: int, j: int|
        0 <= i < j < entries.len() ==> (#[trigger] entries[i]).name@ != (#[trigger] entries[j]).name@
}

/// Every level of the tree is well formed.
pub open spec fn well_formed(entries: Seq<Entry>) -> bool
    decreases entries,
{
    &&& level_well_formed(entries)
    &&& forall|i: int| 0 <= i < entries.len() ==> entry_well_formed(#[trigger] entries[i])
}

/// Every level below the entry is well formed.
pub open spec fn entry_well_formed(entry: Entry) -> bool
    decreases entry,
{
    match entry.target {
        Target::Tree { entries } => well_formed(entries@),
        _ => true,
    }
}

/// The greatest number of trees that are nested inside one another, the
/// listed level not counted.
pub open spec fn depth(entries: Seq<Entry>) -> nat
    decreases entries,
{
    if entries.len() == 0 {
        0
    } else {
        let rest = depth(entries.drop_last());
        let last = entry_depth(entries.last());
        if rest < last { last } else { rest }
    }
}

/// The nesting below one entry: zero for a blob, one more than the depth of
/// its entries for a tree.
pub open spec fn entry_depth(entry: Entry) -> nat
    decreases entry,
{
    match entry.target {
        Target::Tree { entries } => 1 + depth(entries@),
        _ => 0,
    }
}

} // verus!
