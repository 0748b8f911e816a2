//! The object store: the calls into `git2` that the library makes.
//!
//! Nothing here is proved. Each item says what is taken on trust about the
//! store; where it says nothing, the callers are proved for whatever the
//! store hands back.

use vstd::prelude::*;
use crate::dispatch::CommitInfo;
use crate::errors::Failure;
use crate::ids::ObjectId;
use crate::patch::HunkRange;
use crate::flatten::at_or_below;
use crate::staging::{paths_of, RecordView, StagingRecord};
use crate::tree::TreeEntry;

verus! {

/// `git2::Repository`: a handle on an object store. Opaque.
#[verifier::external_type_specification]
#[verifier::external_body]
pub struct ExRepository(git2::Repository);

/// `git2::Error`: a failure reported by the store. Opaque.
#[verifier::external_type_specification]
#[verifier::external_body]
pub struct ExStoreError(git2::Error);

/// `git2::Tree`: a tree object held by the store. Opaque.
#[verifier::external_type_specification]
#[verifier::external_body]
pub struct ExStoreTree<'repo>(git2::Tree<'repo>);

/// `git2::Index`: the store's staging structure. Opaque.
#[verifier::external_type_specification]
#[verifier::external_body]
pub struct ExStoreIndex(git2::Index);

/// `git2::Diff`: the differences that the store found between two trees. Opaque.
#[verifier::external_type_specification]
#[verifier::external_body]
pub struct ExStoreDiff<'repo>(git2::Diff<'repo>);

/// `git2::Delta`: the store's status of one path of a difference. Its
/// variants carry no data and are read as they are declared.
#[verifier::external_type_specification]
pub struct ExStoreStatus(git2::Delta);

/// What an identifier names in the store.
pub enum Found<'repo> {
    /// A blob of `size` bytes.
    Blob { size: u64 },
    /// A tree.
    Tree { tree: git2::Tree<'repo> },
    /// An object of another kind.
    Other,
}

/// `git2::Repository::find_object`, with `Object::into_blob`, `Blob::size`
/// and `Object::into_tree` to tell what was found. Nothing is claimed of the
/// result: it depends on what the store holds.
#[verifier::external_body]
pub(crate) fn find_object<'repo>(repo: &'repo git2::Repository, id: &ObjectId) -> (found: Result<
    Found<'repo>,
    git2::Error,
>) {
    let object = repo.find_object(git2::Oid::from_bytes(&id.bytes)?, None)?;
    match object.into_blob() {
        Ok(blob) => Ok(Found::Blob { size: blob.size() as u64 }),
        Err(object) => match object.into_tree() {
            Ok(tree) => Ok(Found::Tree { tree }),
            Err(_) => Ok(Found::Other),
        },
    }
}

/// `git2::Tree::iter`, each entry read with `TreeEntry::name_bytes`, `id`
/// and `filemode`. Nothing is claimed of the entries.
#[verifier::external_body]
pub(crate) fn tree_entries(tree: &git2::Tree<'_>) -> (entries: Result<Vec<TreeEntry>, git2::Error>) {
    tree.iter().map(|entry| {
        let bytes = <[u8; 20]>::try_from(entry.id().as_bytes());
        Ok(TreeEntry {
            name: entry.name_bytes().to_vec(),
            id: ObjectId { bytes: bytes.map_err(|_| git2::Error::from_str("identifier is not 20 bytes wide"))? },
            mode: entry.filemode() as u32,
        })
    }).collect()
}

/// `git2::Tree::get_path` and `TreeEntry::filemode`: the mode of the entry
/// at `path` below the tree, if the store finds one. Nothing is claimed of
/// the result.
///
/// The modes of a delta are read here and not with `git2::DiffFile::mode`:
/// that function stops the program on a mode that its list of modes lacks,
/// and a tree may hold such a mode.
#[verifier::external_body]
pub(crate) fn entry_mode_at(tree: &git2::Tree<'_>, path: &Vec<u8>) -> (mode: Option<u32>) {
    let text = std::str::from_utf8(path).ok()?;
    tree.get_path(std::path::Path::new(text)).ok().map(|entry| entry.filemode() as u32)
}

/// `git2::Repository::find_commit`, read with `Commit::id`, `tree_id`,
/// `parent_ids` and `summary_bytes`. Nothing is claimed of the result.
#[verifier::external_body]
pub(crate) fn find_commit(repo: &git2::Repository, id: &ObjectId) -> (commit: Result<CommitInfo, git2::Error>) {
    let commit = repo.find_commit(git2::Oid::from_bytes(&id.bytes)?)?;
    let convert = |oid: git2::Oid| {
        let bytes = <[u8; 20]>::try_from(oid.as_bytes());
        Ok(ObjectId { bytes: bytes.map_err(|_| git2::Error::from_str("identifier is not 20 bytes wide"))? })
    };
    Ok(CommitInfo {
        id: convert(commit.id())?,
        tree: convert(commit.tree_id())?,
        parents: commit.parent_ids().map(convert).collect::<Result<Vec<ObjectId>, git2::Error>>()?,
        summary: commit.summary_bytes().map(|text| text.to_vec()),
    })
}

/// The index was made by `git2::Index::new` and has since been changed by
/// `git2::Index::add` alone, with entries as `index_add` builds them.
pub uninterp spec fn index_built_by_adds(index: git2::Index) -> bool;

/// What the index holds: its entries in the index's own order, each with its
/// path, identifier, mode and size.
pub uninterp spec fn index_entries(index: git2::Index) -> Seq<RecordView>;

/// What `git2::Index::add` makes of the entries of an index that was built
/// by adds alone, when it takes the entry `added`.
pub uninterp spec fn entries_after_add(before: Seq<RecordView>, added: RecordView) -> Seq<RecordView>;

/// The identifier of the tree that `git2::Index::write_tree_to` writes for
/// an index that was built by adds and holds these entries.
pub uninterp spec fn written_tree_id(entries: Seq<RecordView>) -> Seq<u8>;

/// The two paths cannot both be held as files: they are the same path, or
/// one of them lies below the other as below a directory.
pub open spec fn paths_collide(first: Seq<u8>, second: Seq<u8>) -> bool {
    at_or_below(first, second) || at_or_below(second, first)
}

/// No entry has a path that collides with `path`.
pub open spec fn clear_of(entries: Seq<RecordView>, path: Seq<u8>) -> bool {
    forall|i: int| 0 <= i < entries.len() ==> !paths_collide((#[trigger] entries[i]).path, path)
}

/// The entry that `index_add` hands to the store for a record.
pub open spec fn entry_for(record: RecordView, file_size: u32) -> RecordView {
    RecordView { path: record.path, id: record.id, mode: record.mode, size: file_size as u64 }
}

/// `git2::Index::new`: a fresh staging structure that lives in memory and
/// belongs to no repository. Trusted: where one is made, it holds nothing.
#[verifier::external_body]
pub(crate) fn index_new() -> (index: Result<git2::Index, git2::Error>)
    ensures
        index matches Ok(made) ==> index_built_by_adds(made) && index_entries(made) == Seq::<RecordView>::empty(),
{
    git2::Index::new()
}

/// `git2::Index::add`, with an entry that holds the record's path,
/// identifier and mode, the given size, and zero for everything else.
///
/// Trusted: an index that was built by adds stays so, and what it holds
/// after an add that succeeded depends on nothing but what it held before
/// and on the entry. Where no path that it held collides with the path of
/// the entry, the entry was added and none was taken out: its paths are
/// those it held and the path of the entry. Nothing is claimed of whether
/// the add succeeds, nor of what a failed one leaves.
#[verifier::external_body]
pub(crate) fn index_add(index: &mut git2::Index, record: &StagingRecord, file_size: u32) -> (outcome: Result<
    (),
    git2::Error,
>)
    ensures
        outcome is Ok && index_built_by_adds(*old(index)) ==> index_built_by_adds(*final(index)) && index_entries(
            *final(index),
        ) == entries_after_add(index_entries(*old(index)), entry_for(record@, file_size)),
        outcome is Ok && index_built_by_adds(*old(index)) && clear_of(index_entries(*old(index)), record.path@)
            ==> paths_of(index_entries(*final(index))).to_set() == paths_of(
            index_entries(*old(index)),
        ).to_set().insert(record.path@),
{
    let (id, zero) = (git2::Oid::from_bytes(&record.id.bytes)?, git2::IndexTime::new(0, 0));
    let (mode, path) = (record.mode, record.path.clone());
    index.add(&git2::IndexEntry {
        ctime: zero, mtime: zero, dev: 0, ino: 0, mode, uid: 0, gid: 0,
        file_size, id, flags: 0, flags_extended: 0, path,
    })
}

/// `git2::Index::write_tree_to`: writes what is staged as a tree into the
/// store and gives the tree's identifier.
///
/// Trusted: for an index that was built by adds, the identifier of a tree
/// that was written depends on nothing but the entries of the index, the
/// store being addressed by content. Nothing is claimed of whether the
/// write succeeds.
#[verifier::external_body]
pub(crate) fn index_write_tree_to(index: &mut git2::Index, repo: &git2::Repository) -> (id: Result<
    ObjectId,
    git2::Error,
>)
    ensures
        index_built_by_adds(*old(index)) ==> (id matches Ok(written) ==> written@ == written_tree_id(
            index_entries(*old(index)),
        )),
{
    let oid = index.write_tree_to(repo)?;
    let bytes = <[u8; 20]>::try_from(oid.as_bytes());
    Ok(ObjectId { bytes: bytes.map_err(|_| git2::Error::from_str("identifier is not 20 bytes wide"))? })
}

/// `git2::Repository::diff_tree_to_tree`, with `git2::DiffOptions` set from
/// the arguments. Nothing is claimed of the result.
#[verifier::external_body]
pub(crate) fn diff_tree_to_tree<'repo>(
    repo: &'repo git2::Repository,
    old_tree: &git2::Tree<'repo>,
    new_tree: &git2::Tree<'repo>,
    context_lines: u32,
    include_untracked: bool,
    include_ignored: bool,
    include_unmodified: bool,
) -> (diff: Result<git2::Diff<'repo>, git2::Error>) {
    let mut options = git2::DiffOptions::new();
    options.context_lines(context_lines);
    options.include_untracked(include_untracked).recurse_untracked_dirs(include_untracked);
    options.include_ignored(include_ignored).include_unmodified(include_unmodified);
    repo.diff_tree_to_tree(Some(old_tree), Some(new_tree), Some(&mut options))
}

/// One callback of the store while it prints a difference as a patch, with
/// the status as the store holds it.
pub struct StoreEvent {
    pub path: Option<Vec<u8>>,
    pub status: git2::Delta,
    pub range: Option<HunkRange>,
    pub origin: char,
    pub content: Vec<u8>,
}

/// `git2::Diff::print` in patch format: one event for each call of the
/// callback, in the order of the calls, read with `DiffFile::path_bytes`,
/// `DiffDelta::status`, the four ranges of `DiffHunk`, `DiffLine::origin`
/// and `content`. Nothing is claimed of the events.
#[verifier::external_body]
pub(crate) fn patch_events(diff: &git2::Diff<'_>) -> (events: Result<Vec<StoreEvent>, git2::Error>) {
    let mut events = Vec::new();
    diff.print(git2::DiffFormat::Patch, |delta, hunk, line| {
        let range = hunk.map(|h| HunkRange {
            old_start: h.old_start(), old_lines: h.old_lines(), new_start: h.new_start(), new_lines: h.new_lines(),
        });
        let path = delta.new_file().path_bytes().map(|path| path.to_vec());
        let (origin, content) = (line.origin(), line.content().to_vec());
        events.push(StoreEvent { path, status: delta.status(), range, origin, content });
        true
    })?;
    Ok(events)
}

/// `git2::Error::message`: the store's own words for a failure.
#[verifier::external_body]
pub(crate) fn error_text(error: &git2::Error) -> (text: String) {
    error.message().to_string()
}

/// The library's error for a failure of the store.
pub(crate) fn store_failure(error: &git2::Error) -> (failure: Failure)
    ensures
        failure is Store,
{
    Failure::Store(error_text(error))
}

} // verus!
