use commit_diff::dispatch::{CommitInfo, Mismatch, MismatchKind, OldSide, Step};
use commit_diff::ids::ObjectId;
use commit_diff::inspect::Report;
use commit_diff::report::{
    baseline_line, hex_list, mismatch_line, report_lines, root_notice, summary_line, unsupported_notice,
};

fn id(byte: u8) -> ObjectId {
    ObjectId::from_bytes([byte; 20])
}

fn hex(byte: u8) -> String {
    format!("{:02x}", byte).repeat(20)
}

#[test]
fn notices_are_exact() {
    assert_eq!(root_notice(), b"root commit: there is no parent to compare with\n".to_vec());
    assert_eq!(unsupported_notice(), b"unsupported: the commit has more than two parents\n".to_vec());
}

#[test]
fn baseline_line_names_both_trees() {
    let expected = format!("baseline {} rebuilt from tree {}\n", hex(0xab), hex(0x01));
    assert_eq!(baseline_line(&id(0xab), &id(0x01)), expected.into_bytes());
}

#[test]
fn mismatch_lines_tell_position_and_kind() {
    let line = |position, kind| mismatch_line(&Mismatch { position, kind });
    assert_eq!(line(0, MismatchKind::Differs), b"self-check: entry 0 differs\n".to_vec());
    assert_eq!(line(12, MismatchKind::Missing), b"self-check: entry 12 is missing in the baseline\n".to_vec());
    assert_eq!(line(305, MismatchKind::Unexpected), b"self-check: entry 305 is only in the baseline\n".to_vec());
}

#[test]
fn identifiers_are_listed_with_separators() {
    assert_eq!(hex_list(&Vec::new()), Vec::<u8>::new());
    assert_eq!(hex_list(&vec![id(1)]), hex(1).into_bytes());
    let expected = format!("{}, {}, {}", hex(1), hex(0xfe), hex(3));
    assert_eq!(hex_list(&vec![id(1), id(0xfe), id(3)]), expected.into_bytes());
}

#[test]
fn summary_line_sums_up_the_commit() {
    let commit = CommitInfo { id: id(0x10), tree: id(0x20), parents: vec![id(0x30), id(0x40)], summary: Some(b"Merge it".to_vec()) };
    let expected = format!(
        "commit id: {}, summary: 'Merge it', parent.len: 2, parents: [{}, {}]\n",
        hex(0x10),
        hex(0x30),
        hex(0x40)
    );
    assert_eq!(summary_line(&commit), expected.into_bytes());
    let root = CommitInfo { id: id(0x10), tree: id(0x20), parents: Vec::new(), summary: None };
    let expected = format!("commit id: {}, summary: '', parent.len: 0, parents: []\n", hex(0x10));
    assert_eq!(summary_line(&root), expected.into_bytes());
    let odd = CommitInfo { id: id(0x10), tree: id(0x20), parents: Vec::new(), summary: Some(vec![0xff]) };
    let expected = format!("commit id: {}, summary: '[INVALID UTF-8]', parent.len: 0, parents: []\n", hex(0x10));
    assert_eq!(summary_line(&odd), expected.into_bytes());
}

#[test]
fn report_shows_each_step_in_order() {
    let report = Report {
        parent_trees: vec![id(2), id(3)],
        steps: vec![
            Step::Reconstruct { tree: id(2) },
            Step::SelfCheck { tree: id(2) },
            Step::Diff { old: OldSide::Baseline, new: id(1) },
        ],
        baseline: Some(id(9)),
        mismatches: vec![
            Mismatch { position: 1, kind: MismatchKind::Differs },
            Mismatch { position: 2, kind: MismatchKind::Missing },
        ],
        deltas: Vec::new(),
        patch: vec![b"modified a\n".to_vec(), b"@@ -1,1 +1,1 @@\n".to_vec(), b"-x\n".to_vec(), b"+y\n".to_vec()],
    };
    let expected: Vec<Vec<u8>> = vec![
        format!("baseline {} rebuilt from tree {}\n", hex(9), hex(2)).into_bytes(),
        b"self-check: entry 1 differs\n".to_vec(),
        b"self-check: entry 2 is missing in the baseline\n".to_vec(),
        b"modified a\n".to_vec(),
        b"@@ -1,1 +1,1 @@\n".to_vec(),
        b"-x\n".to_vec(),
        b"+y\n".to_vec(),
    ];
    assert_eq!(report_lines(&report), expected);
}

#[test]
fn report_of_a_root_commit_is_its_notice() {
    let report = Report {
        parent_trees: Vec::new(),
        steps: vec![Step::ReportRoot],
        baseline: None,
        mismatches: Vec::new(),
        deltas: Vec::new(),
        patch: Vec::new(),
    };
    assert_eq!(report_lines(&report), vec![root_notice()]);
}
