use commit_diff::patch::{
    group_events, kind_of, role_of, ChangeKind, DeltaStatus, FileDelta, Hunk, HunkRange, Line, PatchEvent, Role,
};
use commit_diff::render::{
    decimal_of, delta_header, hunk_header, placeholder, prefix_of, render_delta, render_hunk, render_line,
    render_patch, shown,
};

fn event(path: &str, origin: char, content: &str, range: Option<HunkRange>) -> PatchEvent {
    PatchEvent {
        path: Some(path.as_bytes().to_vec()),
        status: DeltaStatus::Modified,
        range,
        origin,
        content: content.as_bytes().to_vec(),
    }
}

fn range(old_start: u32, old_lines: u32, new_start: u32, new_lines: u32) -> HunkRange {
    HunkRange { old_start, old_lines, new_start, new_lines }
}

fn line(origin: char, content: &str) -> Line {
    Line { origin, content: content.as_bytes().to_vec() }
}

#[test]
fn prefix_follows_the_origin() {
    assert_eq!(prefix_of('+'), b'+');
    assert_eq!(prefix_of('-'), b'-');
    assert_eq!(prefix_of(' '), b' ');
    assert_eq!(prefix_of('@'), b'@');
}

#[test]
fn unknown_origin_falls_back_to_context() {
    for origin in ['=', '>', '<', 'F', 'H', 'B', 'x', '\0', 'é'] {
        assert_eq!(prefix_of(origin), b' ');
    }
}

#[test]
fn decimal_digits_are_exact() {
    assert_eq!(decimal_of(0), b"0".to_vec());
    assert_eq!(decimal_of(7), b"7".to_vec());
    assert_eq!(decimal_of(10), b"10".to_vec());
    assert_eq!(decimal_of(4096), b"4096".to_vec());
    assert_eq!(decimal_of(4294967295), b"4294967295".to_vec());
    assert_eq!(decimal_of(u64::MAX), b"18446744073709551615".to_vec());
}

#[test]
fn text_is_shown_and_other_bytes_are_replaced() {
    assert_eq!(placeholder(), b"[INVALID UTF-8]".to_vec());
    assert_eq!(shown(&b"plain\n".to_vec()), b"plain\n".to_vec());
    assert_eq!(shown(&"héllo ✓".as_bytes().to_vec()), "héllo ✓".as_bytes().to_vec());
    assert_eq!(shown(&Vec::new()), Vec::<u8>::new());
    assert_eq!(shown(&vec![0x66, 0xff, 0x6f]), b"[INVALID UTF-8]".to_vec());
    assert_eq!(shown(&vec![0xc3]), b"[INVALID UTF-8]".to_vec());
    assert_eq!(shown(&vec![0xed, 0xa0, 0x80]), b"[INVALID UTF-8]".to_vec());
}

#[test]
fn line_is_prefix_and_content() {
    assert_eq!(render_line(&line('+', "new\n")), b"+new\n".to_vec());
    assert_eq!(render_line(&line('-', "old\n")), b"-old\n".to_vec());
    assert_eq!(render_line(&line(' ', "same\n")), b" same\n".to_vec());
    assert_eq!(render_line(&line('=', "\n\\ No newline at end of file\n")), b" \n\\ No newline at end of file\n".to_vec());
    assert_eq!(render_line(&Line { origin: '+', content: vec![0x80] }), b"+[INVALID UTF-8]".to_vec());
}

#[test]
fn hunk_header_encodes_the_ranges() {
    assert_eq!(hunk_header(&range(1, 2, 1, 3)), b"@@ -1,2 +1,3 @@\n".to_vec());
    assert_eq!(hunk_header(&range(0, 0, 1, 1)), b"@@ -0,0 +1,1 @@\n".to_vec());
    assert_eq!(hunk_header(&range(120, 15, 4294967295, 0)), b"@@ -120,15 +4294967295,0 @@\n".to_vec());
}

#[test]
fn delta_header_names_kind_and_path() {
    let delta = |kind, path: &[u8]| FileDelta { path: path.to_vec(), kind, old_mode: None, new_mode: None, hunks: Vec::new() };
    assert_eq!(delta_header(&delta(ChangeKind::Added, b"dir/new")), b"added dir/new\n".to_vec());
    assert_eq!(delta_header(&delta(ChangeKind::Deleted, b"gone")), b"deleted gone\n".to_vec());
    assert_eq!(delta_header(&delta(ChangeKind::Modified, b"a")), b"modified a\n".to_vec());
    assert_eq!(delta_header(&delta(ChangeKind::Modified, &[0xff])), b"modified [INVALID UTF-8]\n".to_vec());
}

#[test]
fn hunk_renders_every_line_once_in_order() {
    let hunk = Hunk {
        range: range(3, 3, 3, 4),
        lines: vec![line(' ', "a\n"), line('-', "b\n"), line('+', "B\n"), line('+', "C\n"), line(' ', "d\n")],
    };
    assert!(hunk.is_consistent());
    let rendered = render_hunk(&hunk);
    let expected: Vec<Vec<u8>> = vec![
        b"@@ -3,3 +3,4 @@\n".to_vec(),
        b" a\n".to_vec(),
        b"-b\n".to_vec(),
        b"+B\n".to_vec(),
        b"+C\n".to_vec(),
        b" d\n".to_vec(),
    ];
    assert_eq!(rendered, expected);
    let context = hunk.lines.iter().filter(|l| l.origin == ' ').count();
    assert_eq!(rendered.len() - 1, 3 + 4 - context);
}

#[test]
fn hunk_consistency_is_checked_against_the_lines() {
    let lines = || vec![line(' ', "a\n"), line('-', "b\n"), line('+', "B\n")];
    assert!(Hunk { range: range(1, 2, 1, 2), lines: lines() }.is_consistent());
    assert!(!Hunk { range: range(1, 3, 1, 2), lines: lines() }.is_consistent());
    assert!(!Hunk { range: range(1, 2, 1, 1), lines: lines() }.is_consistent());
    assert!(Hunk { range: range(9, 0, 9, 0), lines: Vec::new() }.is_consistent());
    let mut marked = lines();
    marked.push(line('=', "\n"));
    assert!(!Hunk { range: range(1, 2, 1, 2), lines: marked }.is_consistent());
}

#[test]
fn patch_renders_deltas_in_order() {
    let deltas = vec![
        FileDelta {
            path: b"a".to_vec(),
            kind: ChangeKind::Modified,
            old_mode: Some(0o100644),
            new_mode: Some(0o100644),
            hunks: vec![
                Hunk { range: range(1, 1, 1, 1), lines: vec![line('-', "hello"), line('+', "hello world")] },
                Hunk { range: range(9, 0, 9, 1), lines: vec![line('+', "tail\n")] },
            ],
        },
        FileDelta { path: b"bin".to_vec(), kind: ChangeKind::Added, old_mode: None, new_mode: Some(0o100644), hunks: Vec::new() },
    ];
    let expected: Vec<Vec<u8>> = vec![
        b"modified a\n".to_vec(),
        b"@@ -1,1 +1,1 @@\n".to_vec(),
        b"-hello".to_vec(),
        b"+hello world".to_vec(),
        b"@@ -9,0 +9,1 @@\n".to_vec(),
        b"+tail\n".to_vec(),
        b"added bin\n".to_vec(),
    ];
    assert_eq!(render_patch(&deltas), expected);
    assert_eq!(render_delta(&deltas[1]), vec![b"added bin\n".to_vec()]);
    assert_eq!(render_patch(&Vec::new()), Vec::<Vec<u8>>::new());
}

#[test]
fn roles_follow_the_origin_sign() {
    assert_eq!(role_of('F'), Role::FileHeader);
    assert_eq!(role_of('H'), Role::HunkHeader);
    assert_eq!(role_of('@'), Role::HunkHeader);
    assert_eq!(role_of('B'), Role::BinaryNote);
    for origin in ['+', '-', ' ', '=', '>', '<', 'x'] {
        assert_eq!(role_of(origin), Role::Content);
    }
}

#[test]
fn kind_follows_the_status() {
    assert_eq!(kind_of(DeltaStatus::Added), Some(ChangeKind::Added));
    assert_eq!(kind_of(DeltaStatus::Copied), Some(ChangeKind::Added));
    assert_eq!(kind_of(DeltaStatus::Deleted), Some(ChangeKind::Deleted));
    assert_eq!(kind_of(DeltaStatus::Modified), Some(ChangeKind::Modified));
    assert_eq!(kind_of(DeltaStatus::Renamed), Some(ChangeKind::Modified));
    assert_eq!(kind_of(DeltaStatus::Typechange), Some(ChangeKind::Modified));
    assert_eq!(kind_of(DeltaStatus::Conflicted), Some(ChangeKind::Modified));
    assert_eq!(kind_of(DeltaStatus::Unmodified), None);
    assert_eq!(kind_of(DeltaStatus::Ignored), None);
    assert_eq!(kind_of(DeltaStatus::Untracked), None);
    assert_eq!(kind_of(DeltaStatus::Unreadable), None);
}

#[test]
fn events_are_gathered_into_deltas_hunks_and_lines() {
    let first = Some(range(1, 2, 1, 2));
    let second = Some(range(10, 1, 10, 0));
    let events = vec![
        event("a", 'F', "diff --git a/a b/a\n", None),
        event("a", 'H', "@@ -1,2 +1,2 @@\n", first),
        event("a", ' ', "keep\n", first),
        event("a", '-', "old\n", first),
        event("a", '+', "new\n", first),
        event("a", 'H', "@@ -10 +10,0 @@\n", second),
        event("a", '-', "last\n", second),
        event("b", 'F', "diff --git a/b b/b\n", None),
        event("b", 'B', "Binary files a/b and b/b differ\n", None),
        PatchEvent { path: Some(b"c".to_vec()), status: DeltaStatus::Added, range: None, origin: 'F', content: Vec::new() },
        PatchEvent { path: Some(b"c".to_vec()), status: DeltaStatus::Added, range: Some(range(0, 0, 1, 1)), origin: 'H', content: Vec::new() },
        PatchEvent { path: Some(b"c".to_vec()), status: DeltaStatus::Added, range: Some(range(0, 0, 1, 1)), origin: '+', content: b"c\n".to_vec() },
    ];
    let expected = vec![
        FileDelta {
            path: b"a".to_vec(),
            kind: ChangeKind::Modified,
            old_mode: None,
            new_mode: None,
            hunks: vec![
                Hunk { range: range(1, 2, 1, 2), lines: vec![line(' ', "keep\n"), line('-', "old\n"), line('+', "new\n")] },
                Hunk { range: range(10, 1, 10, 0), lines: vec![line('-', "last\n")] },
            ],
        },
        FileDelta { path: b"b".to_vec(), kind: ChangeKind::Modified, old_mode: None, new_mode: None, hunks: Vec::new() },
        FileDelta {
            path: b"c".to_vec(),
            kind: ChangeKind::Added,
            old_mode: None,
            new_mode: None,
            hunks: vec![Hunk { range: range(0, 0, 1, 1), lines: vec![line('+', "c\n")] }],
        },
    ];
    assert_eq!(group_events(&events), expected);
}

#[test]
fn missing_headers_are_made_up_for() {
    let events = vec![event("a", '+', "x\n", Some(range(1, 0, 1, 1))), event("a", '+', "y\n", None)];
    let expected = vec![FileDelta {
        path: b"a".to_vec(),
        kind: ChangeKind::Modified,
        old_mode: None,
        new_mode: None,
        hunks: vec![Hunk { range: range(1, 0, 1, 1), lines: vec![line('+', "x\n"), line('+', "y\n")] }],
    }];
    assert_eq!(group_events(&events), expected);
    let headless = vec![event("a", 'H', "", None)];
    assert_eq!(group_events(&headless)[0].hunks, vec![Hunk { range: range(0, 0, 0, 0), lines: Vec::new() }]);
}

#[test]
fn events_without_a_change_are_passed_over() {
    let mut unchanged = event("a", 'F', "", None);
    unchanged.status = DeltaStatus::Unmodified;
    let mut nameless = event("a", 'F', "", None);
    nameless.path = None;
    let deltas = group_events(&vec![unchanged, nameless]);
    assert_eq!(deltas.len(), 1);
    assert_eq!(deltas[0].path, Vec::<u8>::new());
    assert_eq!(group_events(&Vec::new()), Vec::new());
}
