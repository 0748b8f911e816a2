//! The baseline reconstructor: a tree is flattened, staged and written back
//! to the store as a new tree.

use vstd::prelude::*;
use crate::errors::Failure;
use crate::flatten::{
    at_or_below, flat, flatten, flatten_complete, flatten_is_free_of_collisions, free_of_collisions, reaches,
};
use crate::ids::ObjectId;
use crate::paths::base_view;
use crate::resolve::resolve_tree;
use crate::ordering::{in_store_order, store_order_is_acceptable};
use crate::staging::{
    no_fault_iff_acceptable, paths_of, records_view, stage_all, staging_outcome, RecordView, StagingRecord,
};
use crate::store::{
    clear_of, entries_after_add, entry_for, index_add, index_built_by_adds, index_entries, index_new,
    index_write_tree_to, paths_collide, store_failure, written_tree_id,
};
use crate::tree::{depth, supported, well_formed, Entry};

verus! {

/// What is handed to the store for a tree: its flattened records, unless an
/// entry is of an unsupported kind or a record is refused by the staging area.
pub open spec fn prepared(entries: Seq<Entry>, base: Option<Seq<u8>>) -> Result<Seq<RecordView>, Failure> {
    if supported(entries) {
        staging_outcome(flat(entries, base))
    } else {
        Err(Failure::UnsupportedObjectKind)
    }
}

/// A tree of blobs and subtrees in the store's order can always be
/// prepared: what is handed to the store is its flattened records.
pub proof fn store_ordered_tree_is_prepared(entries: Seq<Entry>, base: Option<Seq<u8>>)
    requires
        supported(entries),
        in_store_order(entries),
    ensures
        prepared(entries, base) == Ok::<Seq<RecordView>, Failure>(flat(entries, base)),
{
    store_order_is_acceptable(entries, base);
    no_fault_iff_acceptable(flat(entries, base));
}

/// Flattens a tree and stages every record in the order in which the
/// flattener gives them.
pub fn prepare(entries: &Vec<Entry>, base: Option<&Vec<u8>>) -> (outcome: Result<Vec<StagingRecord>, Failure>)
    ensures
        outcome matches Ok(records) ==> Ok::<Seq<RecordView>, Failure>(records_view(records@)) == prepared(
            entries@,
            base_view(base),
        ),
        outcome matches Err(e) ==> Err::<Seq<RecordView>, Failure>(e) == prepared(entries@, base_view(base)),
{
    let records = match flatten(entries, base) {
        Ok(records) => records,
        Err(e) => {
            return Err(e);
        },
    };
    match stage_all(&records) {
        Ok(area) => Ok(area.into_records()),
        Err(e) => Err(e),
    }
}

/// The size that the store's staging structure keeps: the low 32 bits.
pub open spec fn staged_size(size: u64) -> u32 {
    (size % 0x1_0000_0000) as u32
}

fn size_for_index(size: u64) -> (kept: u32)
    ensures
        kept == staged_size(size),
{
    (size % 0x1_0000_0000) as u32
}

/// What an index that was built by adds holds after the records were added
/// to it in order.
pub open spec fn entries_after(before: Seq<RecordView>, records: Seq<RecordView>) -> Seq<RecordView>
    decreases records.len(),
{
    if records.len() == 0 {
        before
    } else {
        entries_after_add(
            entries_after(before, records.drop_last()),
            entry_for(records.last(), staged_size(records.last().size)),
        )
    }
}

/// The identifier of the baseline that the store writes for these records,
/// where it succeeds.
pub open spec fn baseline_id(records: Seq<RecordView>) -> Seq<u8> {
    written_tree_id(entries_after(Seq::empty(), records))
}

/// The paths of a longer sequence are those of the shorter and the last.
proof fn paths_grow(records: Seq<RecordView>, k: int)
    requires
        0 <= k < records.len(),
    ensures
        paths_of(records.take(k + 1)).to_set() == paths_of(records.take(k)).to_set().insert(records[k].path),
{
    let shorter = paths_of(records.take(k));
    let longer = paths_of(records.take(k + 1));
    assert(longer =~= shorter.push(records[k].path));
    assert forall|path: Seq<u8>| longer.to_set().contains(path) <==> shorter.to_set().insert(
        records[k].path,
    ).contains(path) by {
        if longer.contains(path) {
            let i = choose|i: int| 0 <= i < longer.len() && longer[i] == path;
            if i < k {
                assert(shorter[i] == path);
            }
        }
        if shorter.contains(path) {
            let i = choose|i: int| 0 <= i < shorter.len() && shorter[i] == path;
            assert(longer[i] == path);
        }
        assert(longer[k] == records[k].path);
    }
    assert(longer.to_set() =~= shorter.to_set().insert(records[k].path));
}

/// An index that holds the first `k` of records that are free of
/// collisions holds no path that collides with the next one.
proof fn next_is_clear(records: Seq<RecordView>, held: Seq<RecordView>, k: int)
    requires
        0 <= k < records.len(),
        free_of_collisions(records),
        paths_of(held).to_set() == paths_of(records.take(k)).to_set(),
    ensures
        clear_of(held, records[k].path),
{
    assert forall|i: int| 0 <= i < held.len() implies !paths_collide((#[trigger] held[i]).path, records[k].path) by {
        let path = held[i].path;
        assert(paths_of(held)[i] == path);
        assert(paths_of(held).to_set().contains(path));
        assert(paths_of(records.take(k)).contains(path));
        let j = choose|j: int| 0 <= j < paths_of(records.take(k)).len() && paths_of(records.take(k))[j] == path;
        assert(records[j].path == path);
        assert(!at_or_below(records[j].path, records[k].path));
        assert(!at_or_below(records[k].path, records[j].path));
    }
}

fn add_records(index: &mut git2::Index, records: &Vec<StagingRecord>) -> (outcome: Result<(), Failure>)
    ensures
        outcome matches Err(e) ==> e is Store,
        records@.len() == 0 ==> outcome is Ok && *final(index) == *old(index),
        outcome is Ok && index_built_by_adds(*old(index)) ==> index_built_by_adds(*final(index)) && index_entries(
            *final(index),
        ) == entries_after(index_entries(*old(index)), records_view(records@)),
        outcome is Ok && index_built_by_adds(*old(index)) && index_entries(*old(index)).len() == 0
            && free_of_collisions(records_view(records@)) ==> paths_of(index_entries(*final(index))).to_set()
            == paths_of(records_view(records@)).to_set(),
{
    let ghost all = records_view(records@);
    let mut i: usize = 0;
    assert(all.take(0) =~= Seq::<RecordView>::empty());
    assert(index_entries(*index).len() == 0 ==> paths_of(index_entries(*index)) =~= paths_of(all.take(0)));
    while i < records.len()
        invariant
            i <= records.len(),
            all == records_view(records@),
            i == 0 ==> *index == *old(index),
            index_built_by_adds(*old(index)) ==> index_built_by_adds(*index) && index_entries(*index)
                == entries_after(index_entries(*old(index)), all.take(i as int)),
            index_built_by_adds(*old(index)) && index_entries(*old(index)).len() == 0 && free_of_collisions(all)
                ==> paths_of(index_entries(*index)).to_set() == paths_of(all.take(i as int)).to_set(),
        decreases records.len() - i,
    {
        proof {
            if index_built_by_adds(*old(index)) && index_entries(*old(index)).len() == 0 && free_of_collisions(all) {
                next_is_clear(all, index_entries(*index), i as int);
            }
            paths_grow(all, i as int);
        }
        match index_add(index, &records[i], size_for_index(records[i].size)) {
            Ok(()) => {},
            Err(e) => {
                return Err(store_failure(&e));
            },
        }
        proof {
            assert(all.take(i + 1).drop_last() =~= all.take(i as int));
            assert(all.take(i + 1).last() == records@[i as int]@);
        }
        i = i + 1;
    }
    assert(all.take(records.len() as int) =~= all);
    Ok(())
}

/// Adds every blob below `entries` to the store's staging structure, under
/// the base path joined with the names that lead to it.
///
/// Where a well-formed tree is added to an empty index, the paths that the
/// index holds afterwards are the paths of the blobs that are reachable
/// from the tree, no more and no less.
///
/// Nothing is added unless the whole tree can be prepared: where it cannot,
/// the call fails as the preparation does and the index is left as it was.
/// A tree without blobs is added without a word to the store: the call
/// succeeds and the index is left as it was. Else the store may still
/// refuse a record; the failure is then the store's.
pub fn add_tree_to_index(index: &mut git2::Index, entries: &Vec<Entry>, base: Option<&Vec<u8>>) -> (outcome:
    Result<(), Failure>)
    ensures
        prepared(entries@, base_view(base)) matches Err(e) ==> outcome == Err::<(), Failure>(e) && *final(index)
            == *old(index) && index_entries(*final(index)) == index_entries(*old(index)),
        prepared(entries@, base_view(base)) matches Ok(records) ==> {
            &&& outcome is Ok || (outcome matches Err(e) && e is Store)
            &&& records.len() == 0 ==> outcome is Ok && *final(index) == *old(index)
            &&& outcome is Ok && index_built_by_adds(*old(index)) ==> index_built_by_adds(*final(index))
                && index_entries(*final(index)) == entries_after(index_entries(*old(index)), records)
        },
        outcome is Ok && index_built_by_adds(*old(index)) && index_entries(*old(index)).len() == 0 && well_formed(
            entries@,
        ) ==> paths_of(index_entries(*final(index))).to_set() == Set::new(
            |path: Seq<u8>| reaches(entries@, base_view(base), path),
        ),
{
    proof {
        if well_formed(entries@) {
            flatten_is_free_of_collisions(entries@, base_view(base));
        }
        flatten_complete(entries@, base_view(base));
    }
    match prepare(entries, base) {
        Ok(records) => add_records(index, &records),
        Err(e) => Err(e),
    }
}

/// What the baseline reconstructor may return for a tree.
///
/// Where the tree cannot be prepared, the failure of the preparation. Else
/// the identifier of the baseline that the store wrote for the flattened
/// tree, or a failure of the store.
pub open spec fn reconstructed(entries: Seq<Entry>, outcome: Result<ObjectId, Failure>) -> bool {
    match prepared(entries, None) {
        Err(e) => outcome == Err::<ObjectId, Failure>(e),
        Ok(records) => match outcome {
            Ok(id) => id@ == baseline_id(records),
            Err(e) => e is Store,
        },
    }
}

/// Rebuilds a resolved tree: opens a fresh staging structure, adds the
/// flattened tree to it and has the store write it as a tree.
///
/// Fails with `UnsupportedObjectKind` or `StagingWrite` exactly when the
/// tree cannot be prepared, before the store is touched. Otherwise the
/// outcome is the store's: the identifier of the tree it wrote, or `Store`.
pub fn reconstruct(repo: &git2::Repository, entries: &Vec<Entry>) -> (outcome: Result<ObjectId, Failure>)
    ensures
        reconstructed(entries@, outcome),
{
    let records = match prepare(entries, None) {
        Ok(records) => records,
        Err(e) => {
            return Err(e);
        },
    };
    let mut index = match index_new() {
        Ok(index) => index,
        Err(e) => {
            return Err(store_failure(&e));
        },
    };
    match add_records(&mut index, &records) {
        Ok(()) => {},
        Err(e) => {
            return Err(e);
        },
    }
    match index_write_tree_to(&mut index, repo) {
        Ok(id) => Ok(id),
        Err(e) => Err(store_failure(&e)),
    }
}

/// Reconstruction is deterministic: whenever the reconstructor succeeds
/// twice on the same tree, it names the same baseline both times, and a
/// tree that cannot be prepared fails the same way every time.
pub proof fn reconstruction_is_deterministic(
    entries: Seq<Entry>,
    first: Result<ObjectId, Failure>,
    second: Result<ObjectId, Failure>,
)
    requires
        reconstructed(entries, first),
        reconstructed(entries, second),
    ensures
        first is Ok && second is Ok ==> first == second,
        prepared(entries, None) is Err ==> first == second,
{
    if first is Ok && second is Ok {
        let a = first->Ok_0;
        let b = second->Ok_0;
        assert(a.bytes@ =~= b.bytes@);
        assert(a.bytes == b.bytes);
    }
}

/// What reading a tree out of the store and rebuilding it may return.
///
/// Either the tree could not be read: the identifier names no tree, the
/// store failed, or subtrees are nested deeper than the limit. Or a tree of
/// at most `depth_limit` levels was read, and the outcome is what the
/// baseline reconstructor returns for that tree.
pub open spec fn rebuilt_from_store(depth_limit: usize, outcome: Result<ObjectId, Failure>) -> bool {
    ||| outcome matches Err(e) && (e is ObjectResolution || e is Store || e is DepthLimit)
    ||| exists|entries: Seq<Entry>| depth(entries) <= depth_limit && #[trigger] reconstructed(entries, outcome)
}

/// Reads the tree that `tree` names, with every entry resolved down to
/// `depth_limit` levels of subtrees, and rebuilds it.
///
/// Which tree is read is the store's to say. Whatever it is, the outcome is
/// the reconstructor's for that tree: its failure where the tree cannot be
/// prepared, else the identifier of its baseline or a failure of the store.
pub fn reconstruct_tree(repo: &git2::Repository, tree: &ObjectId, depth_limit: usize) -> (outcome: Result<
    ObjectId,
    Failure,
>)
    ensures
        rebuilt_from_store(depth_limit, outcome),
        outcome matches Err(e) ==> !(e is UnsupportedTopology),
{
    match resolve_tree(repo, tree, depth_limit) {
        Ok(entries) => {
            let outcome = reconstruct(repo, &entries);
            assert(reconstructed(entries@, outcome));
            outcome
        },
        Err(e) => Err(e),
    }
}

} // verus!
