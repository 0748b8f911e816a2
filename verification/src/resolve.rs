//! Reading a tree out of the object store, every entry resolved.

use vstd::prelude::*;
use crate::bytes::copy_bytes;
use crate::errors::Failure;
use crate::ids::ObjectId;
use crate::store::{find_object, store_failure, tree_entries, Found};
use crate::tree::{depth, entry_depth, Entry, Target, TreeEntry};

verus! {

/// The resolved entries stand for the listed ones, position by position:
/// same name, same identifier, same mode.
pub open spec fn mirrors(listed: Seq<TreeEntry>, resolved: Seq<Entry>) -> bool {
    &&& resolved.len() == listed.len()
    &&& forall|i: int|
        0 <= i < listed.len() ==> {
            &&& (#[trigger] resolved[i]).name@ == listed[i].name@
            &&& resolved[i].id@ == listed[i].id@
            &&& resolved[i].mode == listed[i].mode
        }
}

/// What is done with an entry once the store has answered for its identifier.
pub enum Descent<'repo> {
    /// The entry is resolved: it points to this.
    Settled { target: Target },
    /// The entry is a subtree that is to be entered.
    Enter { tree: git2::Tree<'repo> },
}

/// What the store's answer for an entry's identifier leads to, with `fuel`
/// levels of subtrees left to enter.
///
/// A blob is settled with its size, an object of another kind as `Other`.
/// A tree is entered while fuel is left and exceeds the depth limit when
/// none is. A failure of the store is a `Store` failure.
pub open spec fn descent_spec<'repo>(
    found: Result<Found<'repo>, git2::Error>,
    fuel: usize,
    outcome: Result<Descent<'repo>, Failure>,
) -> bool {
    match found {
        Ok(Found::Blob { size }) => outcome == Ok::<Descent<'repo>, Failure>(
            Descent::Settled { target: Target::Blob { size } },
        ),
        Ok(Found::Other) => outcome == Ok::<Descent<'repo>, Failure>(Descent::Settled { target: Target::Other }),
        Ok(Found::Tree { tree }) => if fuel == 0 {
            outcome == Err::<Descent<'repo>, Failure>(Failure::DepthLimit)
        } else {
            outcome == Ok::<Descent<'repo>, Failure>(Descent::Enter { tree })
        },
        Err(_) => outcome matches Err(e) && e is Store,
    }
}

/// Decides what the store's answer for an entry's identifier leads to.
pub fn descend<'repo>(found: Result<Found<'repo>, git2::Error>, fuel: usize) -> (outcome: Result<
    Descent<'repo>,
    Failure,
>)
    ensures
        descent_spec(found, fuel, outcome),
{
    match found {
        Ok(Found::Blob { size }) => Ok(Descent::Settled { target: Target::Blob { size } }),
        Ok(Found::Other) => Ok(Descent::Settled { target: Target::Other }),
        Ok(Found::Tree { tree }) => {
            if fuel == 0 {
                Err(Failure::DepthLimit)
            } else {
                Ok(Descent::Enter { tree })
            }
        },
        Err(e) => Err(store_failure(&e)),
    }
}

/// The tree that the store's answer holds, or `ObjectResolution` where the
/// store found no tree: it failed, or found an object of another kind.
pub open spec fn tree_spec<'repo>(found: Result<Found<'repo>, git2::Error>) -> Result<git2::Tree<'repo>, Failure> {
    match found {
        Ok(Found::Tree { tree }) => Ok(tree),
        _ => Err(Failure::ObjectResolution),
    }
}

/// Takes the tree out of the store's answer for an identifier that is to
/// name a tree.
pub fn expect_tree<'repo>(found: Result<Found<'repo>, git2::Error>) -> (outcome: Result<git2::Tree<'repo>, Failure>)
    ensures
        outcome == tree_spec(found),
{
    match found {
        Ok(Found::Tree { tree }) => Ok(tree),
        _ => Err(Failure::ObjectResolution),
    }
}

/// The two trees that the store's answers hold, or `ObjectResolution` where
/// one of the answers holds no tree.
pub open spec fn trees_spec<'repo>(
    old_found: Result<Found<'repo>, git2::Error>,
    new_found: Result<Found<'repo>, git2::Error>,
) -> Result<(git2::Tree<'repo>, git2::Tree<'repo>), Failure> {
    match (tree_spec(old_found), tree_spec(new_found)) {
        (Ok(old_tree), Ok(new_tree)) => Ok((old_tree, new_tree)),
        _ => Err(Failure::ObjectResolution),
    }
}

/// Takes the two trees out of the store's answers for the two identifiers
/// that are to be compared.
pub fn expect_trees<'repo>(
    old_found: Result<Found<'repo>, git2::Error>,
    new_found: Result<Found<'repo>, git2::Error>,
) -> (outcome: Result<(git2::Tree<'repo>, git2::Tree<'repo>), Failure>)
    ensures
        outcome == trees_spec(old_found, new_found),
{
    let old_tree = match expect_tree(old_found) {
        Ok(tree) => tree,
        Err(e) => {
            return Err(e);
        },
    };
    match expect_tree(new_found) {
        Ok(new_tree) => Ok((old_tree, new_tree)),
        Err(e) => Err(e),
    }
}

/// Lists the entries of the tree that `id` names, in the store's order.
///
/// Fails with `ObjectResolution` when the identifier does not name a tree,
/// and with `Store` when the tree cannot be read.
pub fn list_tree(repo: &git2::Repository, id: &ObjectId) -> (outcome: Result<Vec<TreeEntry>, Failure>)
    ensures
        outcome matches Err(e) ==> e is ObjectResolution || e is Store,
{
    let tree = match expect_tree(find_object(repo, id)) {
        Ok(tree) => tree,
        Err(e) => {
            return Err(e);
        },
    };
    match tree_entries(&tree) {
        Ok(entries) => Ok(entries),
        Err(e) => Err(store_failure(&e)),
    }
}

/// Resolves each listed entry: a blob to its size, a subtree to its own
/// resolved entries, anything else to `Other`. At most `fuel` trees are
/// entered inside one another. A listing without entries needs no word
/// from the store and is always resolved.
pub fn resolve_entries(repo: &git2::Repository, listed: &Vec<TreeEntry>, fuel: usize) -> (outcome: Result<
    Vec<Entry>,
    Failure,
>)
    ensures
        listed@.len() == 0 ==> outcome is Ok,
        outcome matches Ok(entries) ==> mirrors(listed@, entries@) && depth(entries@) <= fuel,
        outcome matches Err(e) ==> e is Store || e is DepthLimit,
    decreases fuel,
{
    let mut entries: Vec<Entry> = Vec::new();
    let mut i: usize = 0;
    while i < listed.len()
        invariant
            i <= listed.len(),
            mirrors(listed@.take(i as int), entries@),
            depth(entries@) <= fuel,
        decreases listed.len() - i,
    {
        let entry = &listed[i];
        let target = match descend(find_object(repo, &entry.id), fuel) {
            Ok(Descent::Settled { target }) => target,
            Ok(Descent::Enter { tree }) => {
                let below = match tree_entries(&tree) {
                    Ok(below) => below,
                    Err(e) => {
                        return Err(store_failure(&e));
                    },
                };
                match resolve_entries(repo, &below, fuel - 1) {
                    Ok(children) => Target::Tree { entries: children },
                    Err(e) => {
                        return Err(e);
                    },
                }
            },
            Err(e) => {
                return Err(e);
            },
        };
        let resolved = Entry { name: copy_bytes(&entry.name), id: entry.id, mode: entry.mode, target };
        proof {
            assert(entry_depth(resolved) <= fuel);
            assert(entries@.push(resolved).drop_last() =~= entries@);
            assert(listed@.take(i + 1) =~= listed@.take(i as int).push(listed@[i as int]));
        }
        entries.push(resolved);
        i = i + 1;
    }
    assert(listed@.take(listed.len() as int) =~= listed@);
    Ok(entries)
}

/// Reads the tree that `id` names with every entry resolved, going down
/// through at most `depth_limit` levels of subtrees.
///
/// Fails with `ObjectResolution` when the identifier does not name a tree,
/// with `Store` when an object below it cannot be read, and with
/// `DepthLimit` when subtrees are nested deeper than the limit.
pub fn resolve_tree(repo: &git2::Repository, id: &ObjectId, depth_limit: usize) -> (outcome: Result<
    Vec<Entry>,
    Failure,
>)
    ensures
        outcome matches Ok(entries) ==> depth(entries@) <= depth_limit,
        outcome matches Err(e) ==> e is ObjectResolution || e is Store || e is DepthLimit,
{
    match list_tree(repo, id) {
        Ok(listed) => resolve_entries(repo, &listed, depth_limit),
        Err(e) => Err(e),
    }
}

} // verus!
