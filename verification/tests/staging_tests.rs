use commit_diff::errors::{Failure, StagingFault};
use commit_diff::ids::ObjectId;
use commit_diff::paths::{compare, is_segment, join, PathOrder};
use commit_diff::staging::{stage_all, StagingArea, StagingRecord};

fn record(path: &str) -> StagingRecord {
    StagingRecord { path: path.as_bytes().to_vec(), id: ObjectId::from_bytes([1; 20]), mode: 0o100644, size: 3 }
}

#[test]
fn fresh_area_is_empty() {
    assert_eq!(StagingArea::new().len(), 0);
    assert_eq!(StagingArea::new().into_records(), Vec::new());
}

#[test]
fn ascending_records_are_staged_in_order() {
    let mut area = StagingArea::new();
    assert_eq!(area.add(record("a")), Ok(()));
    assert_eq!(area.add(record("a/b")), Ok(()));
    assert_eq!(area.add(record("b")), Ok(()));
    assert_eq!(area.len(), 3);
    assert_eq!(area.into_records(), vec![record("a"), record("a/b"), record("b")]);
}

#[test]
fn empty_path_is_refused() {
    let mut area = StagingArea::new();
    assert_eq!(area.add(record("")), Err(Failure::StagingWrite(StagingFault::EmptyPath)));
    assert_eq!(area.len(), 0);
}

#[test]
fn duplicate_path_is_refused() {
    let mut area = StagingArea::new();
    area.add(record("a")).unwrap();
    assert_eq!(area.add(record("a")), Err(Failure::StagingWrite(StagingFault::Duplicate)));
    assert_eq!(area.len(), 1);
}

#[test]
fn path_out_of_order_is_refused() {
    let mut area = StagingArea::new();
    area.add(record("b")).unwrap();
    assert_eq!(area.add(record("a")), Err(Failure::StagingWrite(StagingFault::OutOfOrder)));
    assert_eq!(area.add(record("c")), Ok(()));
    assert_eq!(area.into_records(), vec![record("b"), record("c")]);
}

#[test]
fn stage_all_stops_at_the_first_fault() {
    assert!(stage_all(&vec![record("a"), record("b"), record("c")]).is_ok());
    let refused = stage_all(&vec![record("a"), record("c"), record("b"), record("")]);
    assert_eq!(refused.err(), Some(Failure::StagingWrite(StagingFault::OutOfOrder)));
    let refused = stage_all(&vec![record("a"), record(""), record("a")]);
    assert_eq!(refused.err(), Some(Failure::StagingWrite(StagingFault::EmptyPath)));
    assert_eq!(stage_all(&Vec::new()).unwrap().len(), 0);
}

#[test]
fn record_duplicate_is_equal() {
    let r = record("some/path");
    assert_eq!(r.duplicate(), r);
}

#[test]
fn paths_compare_byte_by_byte() {
    let cmp = |a: &str, b: &str| compare(&a.as_bytes().to_vec(), &b.as_bytes().to_vec());
    assert_eq!(cmp("a", "b"), PathOrder::Before);
    assert_eq!(cmp("b", "a"), PathOrder::After);
    assert_eq!(cmp("a", "a"), PathOrder::Same);
    assert_eq!(cmp("", ""), PathOrder::Same);
    assert_eq!(cmp("", "a"), PathOrder::Before);
    assert_eq!(cmp("a", "a/b"), PathOrder::Before);
    assert_eq!(cmp("a.txt", "a/b"), PathOrder::Before);
    assert_eq!(cmp("a/b", "a0"), PathOrder::Before);
    assert_eq!(cmp("ab", "a"), PathOrder::After);
    assert_eq!(compare(&vec![0xff], &vec![0x7f, 0x01]), PathOrder::After);
}

#[test]
fn join_puts_a_separator_after_the_base() {
    let base = b"dir/sub".to_vec();
    assert_eq!(join(Some(&base), &b"file".to_vec()), b"dir/sub/file".to_vec());
    assert_eq!(join(None, &b"file".to_vec()), b"file".to_vec());
    assert_eq!(join(Some(&Vec::new()), &b"file".to_vec()), b"/file".to_vec());
    assert_eq!(join(Some(&base), &Vec::new()), b"dir/sub/".to_vec());
}

#[test]
fn segments_hold_no_separator() {
    assert!(is_segment(&b"name".to_vec()));
    assert!(is_segment(&Vec::new()));
    assert!(!is_segment(&b"a/b".to_vec()));
    assert!(!is_segment(&b"/".to_vec()));
}
