//! What is found out about a commit, as lines of text.

use vstd::prelude::*;
use crate::bytes::{append_bytes, text_of};
use crate::dispatch::{CommitInfo, Mismatch, MismatchKind, Step};
use crate::ids::{hex_of, ObjectId};
use crate::inspect::Report;
use crate::render::{decimal, decimal_of, shown, shown_spec, text_view};

verus! {

/// The bytes of `root commit: there is no parent to compare with\n`.
pub const ROOT_NOTICE: [u8; 48] = [114, 111, 111, 116, 32, 99, 111, 109, 109, 105, 116, 58, 32, 116, 104, 101, 114, 101, 32, 105, 115, 32, 110, 111, 32, 112, 97, 114, 101, 110, 116, 32, 116, 111, 32, 99, 111, 109, 112, 97, 114, 101, 32, 119, 105, 116, 104, 10];

/// The bytes of `unsupported: the commit has more than two parents\n`.
pub const UNSUPPORTED_NOTICE: [u8; 50] = [117, 110, 115, 117, 112, 112, 111, 114, 116, 101, 100, 58, 32, 116, 104, 101, 32, 99, 111, 109, 109, 105, 116, 32, 104, 97, 115, 32, 109, 111, 114, 101, 32, 116, 104, 97, 110, 32, 116, 119, 111, 32, 112, 97, 114, 101, 110, 116, 115, 10];

/// The bytes of `baseline `.
pub const BASELINE_WORD: [u8; 9] = [98, 97, 115, 101, 108, 105, 110, 101, 32];

/// The bytes of ` rebuilt from tree `.
pub const REBUILT_FROM: [u8; 19] = [32, 114, 101, 98, 117, 105, 108, 116, 32, 102, 114, 111, 109, 32, 116, 114, 101, 101, 32];

/// The bytes of `self-check: entry `.
pub const SELF_CHECK_ENTRY: [u8; 18] = [115, 101, 108, 102, 45, 99, 104, 101, 99, 107, 58, 32, 101, 110, 116, 114, 121, 32];

/// The bytes of ` differs\n`.
pub const DIFFERS_WORD: [u8; 9] = [32, 100, 105, 102, 102, 101, 114, 115, 10];

/// The bytes of ` is missing in the baseline\n`.
pub const MISSING_WORD: [u8; 28] = [32, 105, 115, 32, 109, 105, 115, 115, 105, 110, 103, 32, 105, 110, 32, 116, 104, 101, 32, 98, 97, 115, 101, 108, 105, 110, 101, 10];

/// The bytes of ` is only in the baseline\n`.
pub const UNEXPECTED_WORD: [u8; 25] = [32, 105, 115, 32, 111, 110, 108, 121, 32, 105, 110, 32, 116, 104, 101, 32, 98, 97, 115, 101, 108, 105, 110, 101, 10];

/// The bytes of `commit id: `.
pub const COMMIT_ID_LABEL: [u8; 11] = [99, 111, 109, 109, 105, 116, 32, 105, 100, 58, 32];

/// The bytes of `, summary: '`.
pub const SUMMARY_LABEL: [u8; 12] = [44, 32, 115, 117, 109, 109, 97, 114, 121, 58, 32, 39];

/// The bytes of `', parent.len: `.
pub const PARENT_COUNT_LABEL: [u8; 15] = [39, 44, 32, 112, 97, 114, 101, 110, 116, 46, 108, 101, 110, 58, 32];

/// The bytes of `, parents: [`.
pub const PARENTS_LABEL: [u8; 12] = [44, 32, 112, 97, 114, 101, 110, 116, 115, 58, 32, 91];

/// The bytes of `, `.
pub const LIST_SEPARATOR: [u8; 2] = [44, 32];

/// The bytes of `]\n`.
pub const LIST_END: [u8; 2] = [93, 10];

/// The notice for a commit without parents.
pub fn root_notice() -> (text: Vec<u8>)
    ensures
        text@ == ROOT_NOTICE@,
{
    text_of(&ROOT_NOTICE)
}

/// The notice for a commit with more than two parents.
pub fn unsupported_notice() -> (text: Vec<u8>)
    ensures
        text@ == UNSUPPORTED_NOTICE@,
{
    text_of(&UNSUPPORTED_NOTICE)
}

/// The line that tells which baseline was rebuilt from which tree.
pub open spec fn baseline_line_spec(baseline: Seq<u8>, tree: Seq<u8>) -> Seq<u8> {
    BASELINE_WORD@ + hex_of(baseline) + REBUILT_FROM@ + hex_of(tree) + seq![10u8]
}

/// Writes the line that tells which baseline was rebuilt from which tree.
pub fn baseline_line(baseline: &ObjectId, tree: &ObjectId) -> (line: Vec<u8>)
    ensures
        line@ == baseline_line_spec(baseline@, tree@),
{
    let mut line = text_of(&BASELINE_WORD);
    let first = baseline.to_hex();
    append_bytes(&mut line, &first);
    let middle = text_of(&REBUILT_FROM);
    append_bytes(&mut line, &middle);
    let second = tree.to_hex();
    append_bytes(&mut line, &second);
    line.push(10);
    assert(line@ =~= baseline_line_spec(baseline@, tree@));
    line
}

/// The words for a kind of mismatch, with the line feed that ends the line.
pub open spec fn mismatch_word_spec(kind: MismatchKind) -> Seq<u8> {
    match kind {
        MismatchKind::Differs => DIFFERS_WORD@,
        MismatchKind::Missing => MISSING_WORD@,
        MismatchKind::Unexpected => UNEXPECTED_WORD@,
    }
}

/// The diagnostic line for one positional mismatch.
pub open spec fn mismatch_line_spec(mismatch: Mismatch) -> Seq<u8> {
    SELF_CHECK_ENTRY@ + decimal(mismatch.position as nat) + mismatch_word_spec(mismatch.kind)
}

/// Writes the diagnostic line for one positional mismatch.
pub fn mismatch_line(mismatch: &Mismatch) -> (line: Vec<u8>)
    ensures
        line@ == mismatch_line_spec(*mismatch),
{
    let mut line = text_of(&SELF_CHECK_ENTRY);
    let position = decimal_of(mismatch.position as u64);
    append_bytes(&mut line, &position);
    let word = match mismatch.kind {
        MismatchKind::Differs => text_of(&DIFFERS_WORD),
        MismatchKind::Missing => text_of(&MISSING_WORD),
        MismatchKind::Unexpected => text_of(&UNEXPECTED_WORD),
    };
    append_bytes(&mut line, &word);
    assert(line@ =~= mismatch_line_spec(*mismatch));
    line
}

/// The diagnostic lines for a sequence of mismatches, one for each, in order.
pub open spec fn mismatch_lines_spec(mismatches: Seq<Mismatch>) -> Seq<Seq<u8>> {
    mismatches.map_values(|m: Mismatch| mismatch_line_spec(m))
}

/// The identifiers in hexadecimal digits, separated by a comma and a blank.
pub open spec fn hex_list_spec(ids: Seq<ObjectId>) -> Seq<u8>
    decreases ids.len(),
{
    if ids.len() == 0 {
        Seq::empty()
    } else if ids.len() == 1 {
        hex_of(ids[0]@)
    } else {
        hex_list_spec(ids.drop_last()) + LIST_SEPARATOR@ + hex_of(ids.last()@)
    }
}

/// Writes the identifiers in hexadecimal digits, separated by a comma and a blank.
pub fn hex_list(ids: &Vec<ObjectId>) -> (text: Vec<u8>)
    ensures
        text@ == hex_list_spec(ids@),
{
    let mut text: Vec<u8> = Vec::new();
    let mut i: usize = 0;
    assert(ids@.take(0) =~= Seq::<ObjectId>::empty());
    while i < ids.len()
        invariant
            i <= ids.len(),
            text@ == hex_list_spec(ids@.take(i as int)),
        decreases ids.len() - i,
    {
        if i > 0 {
            let separator = text_of(&LIST_SEPARATOR);
            append_bytes(&mut text, &separator);
        }
        let digits = ids[i].to_hex();
        append_bytes(&mut text, &digits);
        proof {
            let next = ids@.take(i + 1);
            assert(next.drop_last() =~= ids@.take(i as int));
            assert(next.last() == ids@[i as int]);
            if i == 0 {
                assert(text@ =~= hex_of(ids@[0]@));
            }
        }
        i = i + 1;
    }
    assert(ids@.take(ids.len() as int) =~= ids@);
    text
}

/// The summary of a commit as it is shown: the text, or nothing where the
/// commit has none.
pub open spec fn summary_text_spec(summary: Option<Vec<u8>>) -> Seq<u8> {
    match summary {
        Some(text) => shown_spec(text@),
        None => Seq::empty(),
    }
}

/// The line that sums up a commit: its identifier, its summary, the number
/// of its parents and their identifiers.
pub open spec fn summary_line_spec(commit: CommitInfo) -> Seq<u8> {
    COMMIT_ID_LABEL@ + hex_of(commit.id@) + SUMMARY_LABEL@ + summary_text_spec(commit.summary)
        + PARENT_COUNT_LABEL@ + decimal(commit.parents@.len()) + PARENTS_LABEL@ + hex_list_spec(
        commit.parents@,
    ) + LIST_END@
}

/// Writes the line that sums up a commit.
pub fn summary_line(commit: &CommitInfo) -> (line: Vec<u8>)
    ensures
        line@ == summary_line_spec(*commit),
{
    let mut line = text_of(&COMMIT_ID_LABEL);
    let id = commit.id.to_hex();
    append_bytes(&mut line, &id);
    let label = text_of(&SUMMARY_LABEL);
    append_bytes(&mut line, &label);
    match &commit.summary {
        Some(text) => {
            let summary = shown(text);
            append_bytes(&mut line, &summary);
        },
        None => {},
    }
    let label = text_of(&PARENT_COUNT_LABEL);
    append_bytes(&mut line, &label);
    let count = decimal_of(commit.parents.len() as u64);
    append_bytes(&mut line, &count);
    let label = text_of(&PARENTS_LABEL);
    append_bytes(&mut line, &label);
    let parents = hex_list(&commit.parents);
    append_bytes(&mut line, &parents);
    let end = text_of(&LIST_END);
    append_bytes(&mut line, &end);
    assert(line@ =~= summary_line_spec(*commit));
    line
}

/// The lines that one step of a report is shown as.
pub open spec fn step_lines_spec(step: Step, report: Report) -> Seq<Seq<u8>> {
    match step {
        Step::ReportRoot => seq![ROOT_NOTICE@],
        Step::Reconstruct { tree } => match report.baseline {
            Some(baseline) => seq![baseline_line_spec(baseline@, tree@)],
            None => Seq::empty(),
        },
        Step::SelfCheck { .. } => mismatch_lines_spec(report.mismatches@),
        Step::Diff { .. } => text_view(report.patch@),
    }
}

/// The lines of the first `n` steps of a report, one step after the other.
pub open spec fn report_lines_upto(report: Report, n: nat) -> Seq<Seq<u8>>
    decreases n,
{
    if n == 0 || n > report.steps@.len() {
        Seq::empty()
    } else {
        report_lines_upto(report, (n - 1) as nat) + step_lines_spec(report.steps@[n - 1], report)
    }
}

/// The lines that a report is shown as: those of its steps, in their order.
pub open spec fn report_lines_spec(report: Report) -> Seq<Seq<u8>> {
    report_lines_upto(report, report.steps@.len())
}

fn append_lines(out: &mut Vec<Vec<u8>>, lines: &Vec<Vec<u8>>)
    ensures
        text_view(final(out)@) == text_view(old(out)@) + text_view(lines@),
{
    let mut i: usize = 0;
    assert(text_view(lines@).take(0) =~= Seq::<Seq<u8>>::empty());
    while i < lines.len()
        invariant
            i <= lines.len(),
            text_view(out@) == text_view(old(out)@) + text_view(lines@).take(i as int),
        decreases lines.len() - i,
    {
        let ghost before = text_view(out@);
        let mut line: Vec<u8> = Vec::new();
        append_bytes(&mut line, &lines[i]);
        out.push(line);
        assert(text_view(out@) =~= before.push(lines@[i as int]@));
        assert(text_view(lines@).take(i + 1) =~= text_view(lines@).take(i as int).push(lines@[i as int]@));
        i = i + 1;
    }
    assert(text_view(lines@).take(lines.len() as int) =~= text_view(lines@));
}

fn append_mismatch_lines(out: &mut Vec<Vec<u8>>, mismatches: &Vec<Mismatch>)
    ensures
        text_view(final(out)@) == text_view(old(out)@) + mismatch_lines_spec(mismatches@),
{
    let mut i: usize = 0;
    assert(mismatch_lines_spec(mismatches@).take(0) =~= Seq::<Seq<u8>>::empty());
    while i < mismatches.len()
        invariant
            i <= mismatches.len(),
            text_view(out@) == text_view(old(out)@) + mismatch_lines_spec(mismatches@).take(i as int),
        decreases mismatches.len() - i,
    {
        let ghost before = text_view(out@);
        out.push(mismatch_line(&mismatches[i]));
        assert(text_view(out@) =~= before.push(mismatch_line_spec(mismatches@[i as int])));
        assert(mismatch_lines_spec(mismatches@).take(i + 1) =~= mismatch_lines_spec(mismatches@).take(i as int).push(
            mismatch_line_spec(mismatches@[i as int]),
        ));
        i = i + 1;
    }
    assert(mismatch_lines_spec(mismatches@).take(mismatches.len() as int) =~= mismatch_lines_spec(mismatches@));
}

/// Writes a report as lines of text: for each step, in order, what it found.
///
/// A root commit gets its notice. A reconstruction gets a line that names
/// the baseline. A self-check gets one line for each mismatch. A difference
/// gets the rendered patch.
pub fn report_lines(report: &Report) -> (lines: Vec<Vec<u8>>)
    ensures
        text_view(lines@) == report_lines_spec(*report),
{
    let mut out: Vec<Vec<u8>> = Vec::new();
    let mut i: usize = 0;
    assert(text_view(out@) =~= Seq::<Seq<u8>>::empty());
    while i < report.steps.len()
        invariant
            i <= report.steps.len(),
            text_view(out@) == report_lines_upto(*report, i as nat),
        decreases report.steps.len() - i,
    {
        let ghost before = text_view(out@);
        match &report.steps[i] {
            Step::ReportRoot => {
                out.push(text_of(&ROOT_NOTICE));
                assert(text_view(out@) =~= before + seq![ROOT_NOTICE@]);
            },
            Step::Reconstruct { tree } => match &report.baseline {
                Some(baseline) => {
                    out.push(baseline_line(baseline, tree));
                    assert(text_view(out@) =~= before + seq![baseline_line_spec(baseline@, tree@)]);
                },
                None => {
                    assert(before + Seq::<Seq<u8>>::empty() =~= before);
                },
            },
            Step::SelfCheck { .. } => {
                append_mismatch_lines(&mut out, &report.mismatches);
            },
            Step::Diff { .. } => {
                append_lines(&mut out, &report.patch);
            },
        }
        i = i + 1;
    }
    out
}

} // verus!
