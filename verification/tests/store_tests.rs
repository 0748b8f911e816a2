use commit_diff::baseline::{add_tree_to_index, reconstruct, reconstruct_tree};
use commit_diff::errors::StagingFault;
use commit_diff::tree::Entry;
use commit_diff::differ::{diff_trees, fitting_modes, plain_event, plain_events, print_diff, status_of, DiffConfig};
use commit_diff::dispatch::CommitInfo;
use commit_diff::patch::{DeltaStatus, HunkRange, PatchEvent};
use commit_diff::store::StoreEvent;
use commit_diff::dispatch::{OldSide, Step};
use commit_diff::errors::Failure;
use commit_diff::flatten::flatten;
use commit_diff::ids::ObjectId;
use commit_diff::inspect::{ask, expect_commit, parent_tree, read_commit, show_commit};
use commit_diff::dispatch::{Answer, Request};
use commit_diff::patch::ChangeKind;
use commit_diff::resolve::{descend, expect_tree, expect_trees, list_tree, resolve_entries, resolve_tree, Descent};
use commit_diff::store::Found;
use commit_diff::tree::Target;

fn memory_repo() -> git2::Repository {
    let odb = git2::Odb::new().unwrap();
    odb.add_new_mempack_backend(1000).unwrap();
    git2::Repository::from_odb(odb).unwrap()
}

fn id_of(oid: git2::Oid) -> ObjectId {
    let mut bytes = [0u8; 20];
    bytes.copy_from_slice(oid.as_bytes());
    ObjectId::from_bytes(bytes)
}

fn tree_of(repo: &git2::Repository, entries: &[(&str, git2::Oid, i32)]) -> git2::Oid {
    let mut builder = repo.treebuilder(None).unwrap();
    for (name, oid, mode) in entries {
        builder.insert(name, *oid, *mode).unwrap();
    }
    builder.write().unwrap()
}

fn commit_of(repo: &git2::Repository, tree: git2::Oid, parents: &[git2::Oid], message: &str) -> git2::Oid {
    let signature = git2::Signature::new("Test User", "test@example.com", &git2::Time::new(0, 0)).unwrap();
    let tree = repo.find_tree(tree).unwrap();
    let parents: Vec<git2::Commit> = parents.iter().map(|p| repo.find_commit(*p).unwrap()).collect();
    let parents: Vec<&git2::Commit> = parents.iter().collect();
    repo.commit(None, &signature, &signature, message, &tree, &parents).unwrap()
}

/// Creates a repository at `path` whose branch `main` holds one commit on
/// the empty tree. A repository left there by an earlier run is taken over.
fn create_empty_repo(path: &str, message: &str) -> git2::Repository {
    let repo = git2::Repository::init(path).unwrap();
    repo.set_head("refs/heads/main").unwrap();
    {
        let mut index = repo.index().unwrap();
        index.clear().unwrap();
        index.write().unwrap();
        let tree_id = index.write_tree().unwrap();
        let tree = repo.find_tree(tree_id).unwrap();
        let signature = git2::Signature::now("Test User", "test@example.com").unwrap();
        let commit = repo.commit(None, &signature, &signature, message, &tree, &[]).unwrap();
        repo.reference("refs/heads/main", commit, true, message).unwrap();
    }
    repo
}

#[test]
fn test_empty_repo() {
    let test_dir = "/tmp/commit_diff_test_repos/test_empty_repo";

    // Create an empty repository
    drop(create_empty_repo(test_dir, "Initial commit"));

    // Re-open the repository
    let repo = git2::Repository::open(test_dir).unwrap();

    // Get head commit
    let head_commit = repo.head().unwrap().peel_to_commit().unwrap();

    // Assert all the parameters are as expected
    assert!(
        head_commit.parent_count() == 0,
        "Unexpected: commit has {} parents",
        head_commit.parent_count()
    );
    assert!(head_commit.id() != git2::Oid::from_str("0").unwrap(), "Unexpected: id is 0");
    assert!(head_commit.message().unwrap_or_default() == "Initial commit", "Unexpected: commit message");
    assert!(head_commit.author().name().unwrap_or_default() == "Test User", "Unexpected: author name");
    assert!(head_commit.author().email().unwrap_or_default() == "test@example.com", "Unexpected: author email");
    assert!(head_commit.committer().name().unwrap_or_default() == "Test User", "Unexpected: committer name");
    assert!(
        head_commit.committer().email().unwrap_or_default() == "test@example.com",
        "Unexpected: committer email"
    );

    // Verify the HEAD commit points to an empty tree
    let tree = head_commit.tree().unwrap();
    assert!(tree.iter().next().is_none(), "Tree is not empty");

    // there should be no blob
    assert!(repo.find_blob(head_commit.id()).is_err(), "Unexpected: blob found");

    // There should be 1 local branch
    let b = &repo
        .branches(Some(git2::BranchType::Local))
        .unwrap()
        .into_iter()
        .collect::<Result<Vec<_>, _>>()
        .unwrap();
    assert!(b.len() == 1, "Unexpected: branches found");
    let (b0, b0_type) = &b[0];
    assert!(*b0_type == git2::BranchType::Local, "Unexpected: b0_type={b0_type:?}");

    // The branch should be named "main"
    let b0_name = b0.name().unwrap().unwrap();
    assert!(b0_name == "main", "Unexpected: b0_name={b0_name}");

    // The library reads the same commit
    let commit = read_commit(&repo, &id_of(head_commit.id())).unwrap();
    assert_eq!(commit.parents, Vec::new());
    assert!(!commit.id.is_zero());
    assert_eq!(commit.summary, Some(b"Initial commit".to_vec()));
    assert_eq!(list_tree(&repo, &commit.tree), Ok(Vec::new()));
    let report = show_commit(&repo, &commit, &DiffConfig::default(), 16).unwrap();
    assert_eq!(report.steps, vec![Step::ReportRoot]);
}

#[test]
fn nested_tree_is_resolved_and_flattened_in_order() {
    let repo = memory_repo();
    let x = repo.blob(b"x content").unwrap();
    let y = repo.blob(b"y").unwrap();
    let inner = tree_of(&repo, &[("c", y, 0o100644)]);
    let outer = tree_of(&repo, &[("a", x, 0o100755), ("b", inner, 0o040000)]);
    let entries = resolve_tree(&repo, &id_of(outer), 16).unwrap();
    assert_eq!(entries.len(), 2);
    assert_eq!(entries[0].name, b"a".to_vec());
    assert_eq!(entries[0].target, Target::Blob { size: 9 });
    assert_eq!(entries[0].mode, 0o100755);
    let records = flatten(&entries, None).unwrap();
    assert_eq!(records.len(), 2);
    assert_eq!(records[0].path, b"a".to_vec());
    assert_eq!(records[0].id, id_of(x));
    assert_eq!(records[0].mode, 0o100755);
    assert_eq!(records[0].size, 9);
    assert_eq!(records[1].path, b"b/c".to_vec());
    assert_eq!(records[1].id, id_of(y));
    assert_eq!(records[1].mode, 0o100644);
    assert_eq!(records[1].size, 1);
}

#[test]
fn reconstruction_keeps_the_flattened_records() {
    let repo = memory_repo();
    let x = repo.blob(b"x content").unwrap();
    let y = repo.blob(b"y").unwrap();
    let inner = tree_of(&repo, &[("c", y, 0o100644)]);
    let outer = tree_of(&repo, &[("a", x, 0o100644), ("b", inner, 0o040000)]);
    let entries = resolve_tree(&repo, &id_of(outer), 16).unwrap();
    let rebuilt = reconstruct(&repo, &entries).unwrap();
    assert_eq!(rebuilt, id_of(outer));
    let again = resolve_tree(&repo, &rebuilt, 16).unwrap();
    assert_eq!(flatten(&again, None).unwrap(), flatten(&entries, None).unwrap());
}

#[test]
fn reconstruction_is_deterministic() {
    let repo = memory_repo();
    let x = repo.blob(b"one").unwrap();
    let y = repo.blob(b"two").unwrap();
    let inner = tree_of(&repo, &[("deep", y, 0o100644)]);
    let outer = tree_of(&repo, &[("dir", inner, 0o040000), ("file", x, 0o100644)]);
    let first = reconstruct_tree(&repo, &id_of(outer), 16).unwrap();
    let second = reconstruct_tree(&repo, &id_of(outer), 16).unwrap();
    assert_eq!(first, second);
}

#[test]
fn reconstruction_of_a_missing_tree_fails() {
    let repo = memory_repo();
    let missing = ObjectId::from_bytes([7u8; 20]);
    assert_eq!(reconstruct_tree(&repo, &missing, 16), Err(Failure::ObjectResolution));
}

#[test]
fn resolving_a_blob_as_a_tree_fails() {
    let repo = memory_repo();
    let x = repo.blob(b"x").unwrap();
    assert_eq!(resolve_tree(&repo, &id_of(x), 16), Err(Failure::ObjectResolution));
    assert_eq!(list_tree(&repo, &id_of(x)), Err(Failure::ObjectResolution));
}

#[test]
fn resolving_stops_at_the_depth_limit() {
    let repo = memory_repo();
    let x = repo.blob(b"x").unwrap();
    let level2 = tree_of(&repo, &[("f", x, 0o100644)]);
    let level1 = tree_of(&repo, &[("d2", level2, 0o040000)]);
    let root = tree_of(&repo, &[("d1", level1, 0o040000)]);
    assert_eq!(resolve_tree(&repo, &id_of(root), 1), Err(Failure::DepthLimit));
    assert!(resolve_tree(&repo, &id_of(root), 2).is_ok());
}

#[test]
fn diff_of_changed_blob_is_one_modified_delta() {
    let repo = memory_repo();
    let before = repo.blob(b"hello").unwrap();
    let after = repo.blob(b"hello world").unwrap();
    let old_tree = tree_of(&repo, &[("a", before, 0o100644)]);
    let new_tree = tree_of(&repo, &[("a", after, 0o100644)]);
    let config = DiffConfig { context_lines: 3, include_untracked: false, include_ignored: false };
    let deltas = diff_trees(&repo, &id_of(old_tree), &id_of(new_tree), &config).unwrap();
    assert_eq!(deltas.len(), 1);
    assert_eq!(deltas[0].path, b"a".to_vec());
    assert_eq!(deltas[0].kind, ChangeKind::Modified);
    assert_eq!(deltas[0].old_mode, Some(0o100644));
    assert_eq!(deltas[0].new_mode, Some(0o100644));
    assert_eq!(deltas[0].hunks.len(), 1);
    let lines = &deltas[0].hunks[0].lines;
    assert_eq!(lines.iter().filter(|l| l.origin == '-').count(), 1);
    assert_eq!(lines.iter().filter(|l| l.origin == '+').count(), 1);
    assert_eq!(lines.iter().filter(|l| l.origin == ' ').count(), 0);
    let deleted = lines.iter().find(|l| l.origin == '-').unwrap();
    let added = lines.iter().find(|l| l.origin == '+').unwrap();
    assert_eq!(deleted.content, b"hello".to_vec());
    assert_eq!(added.content, b"hello world".to_vec());
}

#[test]
fn diff_of_a_tree_against_itself_is_empty() {
    let repo = memory_repo();
    let x = repo.blob(b"hello").unwrap();
    let tree = tree_of(&repo, &[("a", x, 0o100644)]);
    let deltas = diff_trees(&repo, &id_of(tree), &id_of(tree), &DiffConfig::default()).unwrap();
    assert!(deltas.is_empty());
    assert!(print_diff(&repo, &id_of(tree), &id_of(tree), &DiffConfig::default()).unwrap().is_empty());
}

#[test]
fn diff_of_a_missing_tree_fails() {
    let repo = memory_repo();
    let x = repo.blob(b"hello").unwrap();
    let tree = tree_of(&repo, &[("a", x, 0o100644)]);
    let missing = ObjectId::from_bytes([9u8; 20]);
    let config = DiffConfig::default();
    assert_eq!(diff_trees(&repo, &missing, &id_of(tree), &config), Err(Failure::ObjectResolution));
    assert_eq!(diff_trees(&repo, &id_of(tree), &missing, &config), Err(Failure::ObjectResolution));
    assert_eq!(diff_trees(&repo, &missing, &missing, &config), Err(Failure::ObjectResolution));
    assert_eq!(diff_trees(&repo, &id_of(x), &id_of(tree), &config), Err(Failure::ObjectResolution));
}

#[test]
fn added_and_deleted_paths_are_told_apart() {
    let repo = memory_repo();
    let x = repo.blob(b"one\n").unwrap();
    let y = repo.blob(b"two\n").unwrap();
    let old_tree = tree_of(&repo, &[("gone", x, 0o100644)]);
    let new_tree = tree_of(&repo, &[("new", y, 0o100755)]);
    let deltas = diff_trees(&repo, &id_of(old_tree), &id_of(new_tree), &DiffConfig::default()).unwrap();
    assert_eq!(deltas.len(), 2);
    assert_eq!(deltas[0].path, b"gone".to_vec());
    assert_eq!(deltas[0].kind, ChangeKind::Deleted);
    assert_eq!(deltas[0].old_mode, Some(0o100644));
    assert_eq!(deltas[0].new_mode, None);
    assert_eq!(deltas[1].path, b"new".to_vec());
    assert_eq!(deltas[1].kind, ChangeKind::Added);
    assert_eq!(deltas[1].old_mode, None);
    assert_eq!(deltas[1].new_mode, Some(0o100755));
}

#[test]
fn printed_diff_has_prefixed_lines() {
    let repo = memory_repo();
    let before = repo.blob(b"keep\nold\n").unwrap();
    let after = repo.blob(b"keep\nnew\n").unwrap();
    let old_tree = tree_of(&repo, &[("a", before, 0o100644)]);
    let new_tree = tree_of(&repo, &[("a", after, 0o100644)]);
    let lines = print_diff(&repo, &id_of(old_tree), &id_of(new_tree), &DiffConfig::default()).unwrap();
    let expected: Vec<Vec<u8>> = vec![
        b"modified a\n".to_vec(),
        b"@@ -1,2 +1,2 @@\n".to_vec(),
        b" keep\n".to_vec(),
        b"-old\n".to_vec(),
        b"+new\n".to_vec(),
    ];
    assert_eq!(lines, expected);
}

#[test]
fn root_commit_is_reported_without_a_diff() {
    let repo = memory_repo();
    let x = repo.blob(b"hello").unwrap();
    let tree = tree_of(&repo, &[("a", x, 0o100644)]);
    let root = commit_of(&repo, tree, &[], "root");
    let commit = read_commit(&repo, &id_of(root)).unwrap();
    let report = show_commit(&repo, &commit, &DiffConfig::default(), 16).unwrap();
    assert_eq!(report.steps, vec![Step::ReportRoot]);
    assert!(report.deltas.is_empty());
    assert!(report.patch.is_empty());
    assert_eq!(report.baseline, None);
}

#[test]
fn ordinary_commit_is_diffed_against_its_parent() {
    let repo = memory_repo();
    let before = repo.blob(b"hello").unwrap();
    let after = repo.blob(b"hello world").unwrap();
    let old_tree = tree_of(&repo, &[("a", before, 0o100644)]);
    let new_tree = tree_of(&repo, &[("a", after, 0o100644)]);
    let parent = commit_of(&repo, old_tree, &[], "first");
    let child = commit_of(&repo, new_tree, &[parent], "second");
    let commit = read_commit(&repo, &id_of(child)).unwrap();
    assert_eq!(commit.parents, vec![id_of(parent)]);
    assert_eq!(commit.tree, id_of(new_tree));
    let report = show_commit(&repo, &commit, &DiffConfig::default(), 16).unwrap();
    assert_eq!(report.parent_trees, vec![id_of(old_tree)]);
    assert_eq!(report.steps, vec![Step::Diff { old: OldSide::Tree(id_of(old_tree)), new: id_of(new_tree) }]);
    assert_eq!(report.deltas.len(), 1);
    assert_eq!(report.deltas[0].kind, ChangeKind::Modified);
    assert_eq!(report.baseline, None);
    assert!(report.mismatches.is_empty());
    assert_eq!(report.patch[0], b"modified a\n".to_vec());
}

#[test]
fn merge_of_identical_parents_shows_no_mismatch() {
    let repo = memory_repo();
    let x = repo.blob(b"hello").unwrap();
    let y = repo.blob(b"other").unwrap();
    let inner = tree_of(&repo, &[("c", y, 0o100644)]);
    let tree = tree_of(&repo, &[("a", x, 0o100644), ("b", inner, 0o040000)]);
    let root = commit_of(&repo, tree, &[], "root");
    let left = commit_of(&repo, tree, &[root], "left");
    let right = commit_of(&repo, tree, &[root], "right");
    let merged = repo.blob(b"hello merged").unwrap();
    let merge_tree = tree_of(&repo, &[("a", merged, 0o100644), ("b", inner, 0o040000)]);
    let merge = commit_of(&repo, merge_tree, &[left, right], "merge");
    let commit = read_commit(&repo, &id_of(merge)).unwrap();
    let report = show_commit(&repo, &commit, &DiffConfig::default(), 16).unwrap();
    assert_eq!(report.parent_trees, vec![id_of(tree), id_of(tree)]);
    assert_eq!(
        report.steps,
        vec![
            Step::Reconstruct { tree: id_of(tree) },
            Step::SelfCheck { tree: id_of(tree) },
            Step::Diff { old: OldSide::Baseline, new: id_of(merge_tree) },
        ]
    );
    assert_eq!(report.baseline, Some(id_of(tree)));
    assert!(report.mismatches.is_empty());
    assert_eq!(report.deltas.len(), 1);
    assert_eq!(report.deltas[0].path, b"a".to_vec());
}

#[test]
fn octopus_merge_is_unsupported() {
    let repo = memory_repo();
    let tree = tree_of(&repo, &[]);
    let root = commit_of(&repo, tree, &[], "root");
    let a = commit_of(&repo, tree, &[root], "a");
    let b = commit_of(&repo, tree, &[root], "b");
    let c = commit_of(&repo, tree, &[root], "c");
    let octopus = commit_of(&repo, tree, &[a, b, c], "octopus");
    let commit = read_commit(&repo, &id_of(octopus)).unwrap();
    assert_eq!(commit.parents.len(), 3);
    assert_eq!(show_commit(&repo, &commit, &DiffConfig::default(), 16), Err(Failure::UnsupportedTopology));
}

#[test]
fn reading_a_missing_commit_fails() {
    let repo = memory_repo();
    assert_eq!(read_commit(&repo, &ObjectId::from_bytes([3u8; 20])), Err(Failure::ObjectResolution));
}

#[test]
fn tree_is_added_to_the_index() {
    let repo = memory_repo();
    let x = repo.blob(b"x content").unwrap();
    let y = repo.blob(b"y").unwrap();
    let inner = tree_of(&repo, &[("c", y, 0o100755)]);
    let outer = tree_of(&repo, &[("a", x, 0o100644), ("b", inner, 0o040000)]);
    let entries = resolve_tree(&repo, &id_of(outer), 16).unwrap();
    let mut index = git2::Index::new().unwrap();
    assert_eq!(add_tree_to_index(&mut index, &entries, None), Ok(()));
    assert_eq!(index.len(), 2);
    let first = index.get(0).unwrap();
    assert_eq!(first.path, b"a".to_vec());
    assert_eq!(first.id, x);
    assert_eq!(first.mode, 0o100644);
    assert_eq!(first.file_size, 9);
    let second = index.get(1).unwrap();
    assert_eq!(second.path, b"b/c".to_vec());
    assert_eq!(second.id, y);
    assert_eq!(second.mode, 0o100755);
    let base = b"under".to_vec();
    assert_eq!(add_tree_to_index(&mut index, &entries, Some(&base)), Ok(()));
    assert_eq!(index.len(), 4);
    assert_eq!(index.get(3).unwrap().path, b"under/b/c".to_vec());
}

#[test]
fn nothing_is_added_when_the_tree_cannot_be_prepared() {
    let blob = |name: &str| Entry {
        name: name.as_bytes().to_vec(),
        id: ObjectId::from_bytes([1; 20]),
        mode: 0o100644,
        target: Target::Blob { size: 1 },
    };
    let mut index = git2::Index::new().unwrap();
    let unordered = vec![blob("b"), blob("a")];
    assert_eq!(add_tree_to_index(&mut index, &unordered, None), Err(Failure::StagingWrite(StagingFault::OutOfOrder)));
    assert_eq!(index.len(), 0);
    let repo = memory_repo();
    assert_eq!(reconstruct(&repo, &unordered), Err(Failure::StagingWrite(StagingFault::OutOfOrder)));
    let other = vec![Entry { name: b"s".to_vec(), id: ObjectId::from_bytes([1; 20]), mode: 0o160000, target: Target::Other }];
    assert_eq!(reconstruct(&repo, &other), Err(Failure::UnsupportedObjectKind));
}

#[test]
fn store_refusal_is_a_store_failure() {
    let repo = memory_repo();
    let absent = vec![Entry {
        name: b"a".to_vec(),
        id: ObjectId::from_bytes([5; 20]),
        mode: 0o100644,
        target: Target::Blob { size: 1 },
    }];
    assert!(matches!(reconstruct(&repo, &absent), Err(Failure::Store(_))));
    let odd_mode = vec![Entry {
        name: b"a".to_vec(),
        id: ObjectId::from_bytes([5; 20]),
        mode: 0o040000,
        target: Target::Blob { size: 1 },
    }];
    assert!(matches!(reconstruct(&repo, &odd_mode), Err(Failure::Store(_))));
}

#[test]
fn submodule_entry_is_of_an_unsupported_kind() {
    let repo = memory_repo();
    let tree = tree_of(&repo, &[]);
    let commit = commit_of(&repo, tree, &[], "inner");
    let x = repo.blob(b"x").unwrap();
    let holder = tree_of(&repo, &[("file", x, 0o100644), ("module", commit, 0o160000)]);
    let entries = resolve_tree(&repo, &id_of(holder), 16).unwrap();
    assert_eq!(entries[1].target, Target::Other);
    assert_eq!(flatten(&entries, None), Err(Failure::UnsupportedObjectKind));
    assert_eq!(reconstruct_tree(&repo, &id_of(holder), 16), Err(Failure::UnsupportedObjectKind));
}

#[test]
fn invalid_text_in_a_diff_is_replaced() {
    let repo = memory_repo();
    let before = repo.blob(b"cafe\n").unwrap();
    let after = repo.blob(&[b'c', b'a', b'f', 0xe9, b'\n']).unwrap();
    let old_tree = tree_of(&repo, &[("a", before, 0o100644)]);
    let new_tree = tree_of(&repo, &[("a", after, 0o100644)]);
    let lines = print_diff(&repo, &id_of(old_tree), &id_of(new_tree), &DiffConfig::default()).unwrap();
    assert_eq!(lines[0], b"modified a\n".to_vec());
    assert!(lines.contains(&b"+[INVALID UTF-8]".to_vec()));
}

#[test]
fn context_lines_are_handed_to_the_store() {
    let repo = memory_repo();
    let before = repo.blob(b"1\n2\n3\n4\n5\nold\n").unwrap();
    let after = repo.blob(b"1\n2\n3\n4\n5\nnew\n").unwrap();
    let old_tree = tree_of(&repo, &[("a", before, 0o100644)]);
    let new_tree = tree_of(&repo, &[("a", after, 0o100644)]);
    let context = |n: u32| {
        let config = DiffConfig { context_lines: n, include_untracked: true, include_ignored: true };
        let deltas = diff_trees(&repo, &id_of(old_tree), &id_of(new_tree), &config).unwrap();
        assert!(deltas[0].hunks[0].is_consistent());
        deltas[0].hunks[0].lines.iter().filter(|l| l.origin == ' ').count()
    };
    assert_eq!(context(0), 0);
    assert_eq!(context(1), 1);
    assert_eq!(context(3), 3);
}

#[test]
fn the_answer_for_an_entry_decides_its_target() {
    let repo = memory_repo();
    let failed = || git2::Error::from_str("unreadable");
    assert!(matches!(descend(Ok(Found::Blob { size: 12 }), 3), Ok(Descent::Settled { target: Target::Blob { size: 12 } })));
    assert!(matches!(descend(Ok(Found::Blob { size: 12 }), 0), Ok(Descent::Settled { target: Target::Blob { size: 12 } })));
    assert!(matches!(descend(Ok(Found::Other), 3), Ok(Descent::Settled { target: Target::Other })));
    assert!(matches!(descend(Err(failed()), 3), Err(Failure::Store(_))));
    let tree = || repo.find_tree(tree_of(&repo, &[])).unwrap();
    assert!(matches!(descend(Ok(Found::Tree { tree: tree() }), 1), Ok(Descent::Enter { .. })));
    assert!(matches!(descend(Ok(Found::Tree { tree: tree() }), 0), Err(Failure::DepthLimit)));
}

#[test]
fn only_a_tree_is_taken_for_a_tree() {
    let repo = memory_repo();
    let failed = || git2::Error::from_str("missing");
    let tree = || repo.find_tree(tree_of(&repo, &[])).unwrap();
    assert_eq!(expect_tree(Ok(Found::Tree { tree: tree() })).unwrap().id(), tree().id());
    assert!(matches!(expect_tree(Ok(Found::Blob { size: 1 })), Err(Failure::ObjectResolution)));
    assert!(matches!(expect_tree(Ok(Found::Other)), Err(Failure::ObjectResolution)));
    assert!(matches!(expect_tree(Err(failed())), Err(Failure::ObjectResolution)));
    assert!(expect_trees(Ok(Found::Tree { tree: tree() }), Ok(Found::Tree { tree: tree() })).is_ok());
    assert!(matches!(expect_trees(Ok(Found::Tree { tree: tree() }), Ok(Found::Other)), Err(Failure::ObjectResolution)));
    assert!(matches!(expect_trees(Err(failed()), Ok(Found::Tree { tree: tree() })), Err(Failure::ObjectResolution)));
}

#[test]
fn an_empty_listing_is_resolved_without_the_store() {
    let repo = memory_repo();
    assert_eq!(resolve_entries(&repo, &Vec::new(), 0), Ok(Vec::new()));
}

#[test]
fn an_empty_tree_is_added_and_leaves_the_index_as_it_was() {
    let mut index = git2::Index::new().unwrap();
    assert_eq!(add_tree_to_index(&mut index, &Vec::new(), None), Ok(()));
    assert_eq!(index.len(), 0);
    let only_dirs = vec![Entry { name: b"d".to_vec(), id: ObjectId::from_bytes([1; 20]), mode: 0o040000, target: Target::Tree { entries: Vec::new() } }];
    assert_eq!(add_tree_to_index(&mut index, &only_dirs, None), Ok(()));
    assert_eq!(index.len(), 0);
}

#[test]
fn every_status_of_the_store_has_its_own_word() {
    assert_eq!(status_of(&git2::Delta::Unmodified), DeltaStatus::Unmodified);
    assert_eq!(status_of(&git2::Delta::Added), DeltaStatus::Added);
    assert_eq!(status_of(&git2::Delta::Deleted), DeltaStatus::Deleted);
    assert_eq!(status_of(&git2::Delta::Modified), DeltaStatus::Modified);
    assert_eq!(status_of(&git2::Delta::Renamed), DeltaStatus::Renamed);
    assert_eq!(status_of(&git2::Delta::Copied), DeltaStatus::Copied);
    assert_eq!(status_of(&git2::Delta::Ignored), DeltaStatus::Ignored);
    assert_eq!(status_of(&git2::Delta::Untracked), DeltaStatus::Untracked);
    assert_eq!(status_of(&git2::Delta::Typechange), DeltaStatus::Typechange);
    assert_eq!(status_of(&git2::Delta::Unreadable), DeltaStatus::Unreadable);
    assert_eq!(status_of(&git2::Delta::Conflicted), DeltaStatus::Conflicted);
}

#[test]
fn events_of_the_store_become_plain_events() {
    let range = Some(HunkRange { old_start: 1, old_lines: 2, new_start: 3, new_lines: 4 });
    let raw = StoreEvent {
        path: Some(b"dir/file".to_vec()),
        status: git2::Delta::Deleted,
        range,
        origin: '-',
        content: b"gone\n".to_vec(),
    };
    let plain = PatchEvent {
        path: Some(b"dir/file".to_vec()),
        status: DeltaStatus::Deleted,
        range,
        origin: '-',
        content: b"gone\n".to_vec(),
    };
    assert_eq!(plain_event(&raw), plain);
    let nameless = StoreEvent { path: None, status: git2::Delta::Added, range: None, origin: 'F', content: Vec::new() };
    let events = plain_events(&vec![raw, nameless]);
    assert_eq!(events.len(), 2);
    assert_eq!(events[0], plain);
    assert_eq!(events[1].path, None);
    assert_eq!(events[1].status, DeltaStatus::Added);
    assert_eq!(plain_events(&Vec::new()), Vec::new());
}

#[test]
fn modes_are_kept_for_the_sides_that_hold_the_path() {
    assert_eq!(fitting_modes(ChangeKind::Added, Some(0o040000), Some(0o100644)), (None, Some(0o100644)));
    assert_eq!(fitting_modes(ChangeKind::Deleted, Some(0o100644), Some(0o040000)), (Some(0o100644), None));
    assert_eq!(fitting_modes(ChangeKind::Modified, Some(0o100644), Some(0o100755)), (Some(0o100644), Some(0o100755)));
    assert_eq!(fitting_modes(ChangeKind::Modified, None, None), (None, None));
}

#[test]
fn only_the_commit_that_was_asked_for_is_taken() {
    let commit = |byte: u8| CommitInfo {
        id: ObjectId::from_bytes([byte; 20]),
        tree: ObjectId::from_bytes([2; 20]),
        parents: Vec::new(),
        summary: None,
    };
    let asked = ObjectId::from_bytes([1; 20]);
    assert_eq!(expect_commit(Ok(commit(1)), &asked), Ok(commit(1)));
    assert_eq!(expect_commit(Ok(commit(3)), &asked), Err(Failure::ObjectResolution));
    assert_eq!(expect_commit(Err(git2::Error::from_str("missing")), &asked), Err(Failure::ObjectResolution));
    assert_eq!(parent_tree(Ok(commit(1))), Ok(ObjectId::from_bytes([2; 20])));
    assert!(matches!(parent_tree(Err(git2::Error::from_str("missing"))), Err(Failure::Store(_))));
}

#[test]
fn the_store_is_asked_what_the_request_asks_for() {
    let repo = memory_repo();
    let before = repo.blob(b"old\n").unwrap();
    let after = repo.blob(b"new\n").unwrap();
    let old_tree = tree_of(&repo, &[("gone", before, 0o100644)]);
    let new_tree = tree_of(&repo, &[("here", after, 0o100644)]);
    let config = DiffConfig::default();
    assert_eq!(ask(&repo, &Request::Nothing, &config, 16), Answer::Nothing);
    assert_eq!(
        ask(&repo, &Request::Reconstruct { tree: id_of(old_tree) }, &config, 16),
        Answer::Rebuilt { baseline: Ok(id_of(old_tree)) }
    );
    let listed = ask(&repo, &Request::Listings { expected: id_of(old_tree), rebuilt: id_of(new_tree) }, &config, 16);
    match listed {
        Answer::Listed { expected: Ok(expected), rebuilt: Ok(rebuilt) } => {
            assert_eq!(expected[0].name, b"gone".to_vec());
            assert_eq!(rebuilt[0].name, b"here".to_vec());
        }
        other => panic!("unexpected answer {:?}", other),
    }
    match ask(&repo, &Request::Compare { old: id_of(old_tree), new: id_of(new_tree) }, &config, 16) {
        Answer::Compared { deltas: Ok(deltas) } => {
            assert_eq!(deltas.len(), 2);
            assert_eq!(deltas[0].path, b"gone".to_vec());
            assert_eq!(deltas[0].kind, ChangeKind::Deleted);
            assert_eq!(deltas[1].path, b"here".to_vec());
            assert_eq!(deltas[1].kind, ChangeKind::Added);
        }
        other => panic!("unexpected answer {:?}", other),
    }
    let missing = ObjectId::from_bytes([8; 20]);
    assert_eq!(
        ask(&repo, &Request::Compare { old: missing, new: id_of(new_tree) }, &config, 16),
        Answer::Compared { deltas: Err(Failure::ObjectResolution) }
    );
}
