use commit_diff::baseline::prepare;
use commit_diff::errors::{Failure, StagingFault};
use commit_diff::flatten::flatten;
use commit_diff::ids::ObjectId;
use commit_diff::staging::StagingRecord;
use commit_diff::tree::{Entry, Target};

fn id(byte: u8) -> ObjectId {
    ObjectId::from_bytes([byte; 20])
}

fn blob(name: &str, byte: u8, mode: u32, size: u64) -> Entry {
    Entry { name: name.as_bytes().to_vec(), id: id(byte), mode, target: Target::Blob { size } }
}

fn tree(name: &str, byte: u8, entries: Vec<Entry>) -> Entry {
    Entry { name: name.as_bytes().to_vec(), id: id(byte), mode: 0o040000, target: Target::Tree { entries } }
}

fn record(path: &str, byte: u8, mode: u32, size: u64) -> StagingRecord {
    StagingRecord { path: path.as_bytes().to_vec(), id: id(byte), mode, size }
}

#[test]
fn nested_tree_flattens_in_order() {
    let entries = vec![blob("a", 1, 0o100644, 5), tree("b", 2, vec![blob("c", 3, 0o100755, 7)])];
    let records = flatten(&entries, None).unwrap();
    assert_eq!(records, vec![record("a", 1, 0o100644, 5), record("b/c", 3, 0o100755, 7)]);
}

#[test]
fn empty_tree_flattens_to_nothing() {
    assert_eq!(flatten(&Vec::new(), None), Ok(Vec::new()));
    let base = b"base".to_vec();
    assert_eq!(flatten(&Vec::new(), Some(&base)), Ok(Vec::new()));
}

#[test]
fn empty_subtree_adds_nothing() {
    let entries = vec![tree("d", 1, Vec::new()), blob("e", 2, 0o100644, 1)];
    assert_eq!(flatten(&entries, None).unwrap(), vec![record("e", 2, 0o100644, 1)]);
}

#[test]
fn base_path_is_joined_at_every_level() {
    let entries = vec![tree("x", 1, vec![tree("y", 2, vec![blob("z", 3, 0o100644, 2)])]), blob("w", 4, 0o100644, 0)];
    let base = b"top/dir".to_vec();
    let records = flatten(&entries, Some(&base)).unwrap();
    assert_eq!(records, vec![record("top/dir/x/y/z", 3, 0o100644, 2), record("top/dir/w", 4, 0o100644, 0)]);
}

#[test]
fn subtree_content_comes_before_the_next_sibling() {
    let entries = vec![
        tree("d", 1, vec![blob("one", 2, 0o100644, 1), tree("in", 3, vec![blob("two", 4, 0o100644, 2)])]),
        blob("e", 5, 0o100644, 3),
    ];
    let paths: Vec<Vec<u8>> = flatten(&entries, None).unwrap().into_iter().map(|r| r.path).collect();
    assert_eq!(paths, vec![b"d/one".to_vec(), b"d/in/two".to_vec(), b"e".to_vec()]);
}

#[test]
fn mode_is_taken_as_it_stands() {
    let entries = vec![blob("odd", 1, 0o100664, 1), blob("link", 2, 0o120000, 4)];
    let records = flatten(&entries, None).unwrap();
    assert_eq!(records[0].mode, 0o100664);
    assert_eq!(records[1].mode, 0o120000);
}

#[test]
fn unsupported_kind_halts_the_whole_flatten() {
    let other = Entry { name: b"sub".to_vec(), id: id(9), mode: 0o160000, target: Target::Other };
    let entries = vec![blob("a", 1, 0o100644, 1), tree("d", 2, vec![other]), blob("z", 3, 0o100644, 1)];
    assert_eq!(flatten(&entries, None), Err(Failure::UnsupportedObjectKind));
    assert_eq!(prepare(&entries, None), Err(Failure::UnsupportedObjectKind));
}

#[test]
fn flattened_paths_are_complete_and_distinct() {
    let entries = vec![
        blob("a", 1, 0o100644, 1),
        tree("b", 2, vec![blob("a", 3, 0o100644, 1), tree("b", 4, vec![blob("a", 5, 0o100644, 1)])]),
        blob("c", 6, 0o100644, 1),
    ];
    let mut paths: Vec<Vec<u8>> = flatten(&entries, None).unwrap().into_iter().map(|r| r.path).collect();
    assert_eq!(paths, vec![b"a".to_vec(), b"b/a".to_vec(), b"b/b/a".to_vec(), b"c".to_vec()]);
    paths.sort();
    paths.dedup();
    assert_eq!(paths.len(), 4);
}

#[test]
fn prepare_accepts_a_tree_in_store_order() {
    let entries = vec![blob("a.txt", 1, 0o100644, 1), tree("a", 2, vec![blob("x", 3, 0o100644, 1)]), blob("a0", 4, 0o100644, 1)];
    let records = prepare(&entries, None).unwrap();
    assert_eq!(records, vec![record("a.txt", 1, 0o100644, 1), record("a/x", 3, 0o100644, 1), record("a0", 4, 0o100644, 1)]);
}

#[test]
fn prepare_refuses_a_tree_out_of_order() {
    let entries = vec![blob("b", 1, 0o100644, 1), blob("a", 2, 0o100644, 1)];
    assert_eq!(prepare(&entries, None), Err(Failure::StagingWrite(StagingFault::OutOfOrder)));
}

#[test]
fn prepare_refuses_two_entries_of_one_name() {
    let entries = vec![blob("a", 1, 0o100644, 1), blob("a", 2, 0o100644, 1)];
    assert_eq!(prepare(&entries, None), Err(Failure::StagingWrite(StagingFault::Duplicate)));
}

#[test]
fn prepare_refuses_an_empty_path() {
    let entries = vec![blob("", 1, 0o100644, 1)];
    assert_eq!(prepare(&entries, None), Err(Failure::StagingWrite(StagingFault::EmptyPath)));
}
