//! The patch renderer: deltas, hunks and lines as prefixed output lines.

use vstd::prelude::*;
use vstd::utf8::{
    is_leading_byte_width_1, partial_valid_utf8, partial_valid_utf8_extend_ascii_block, valid_utf8, valid_utf8_concat,
};
use crate::bytes::{append_bytes, copy_bytes};
use crate::patch::{classified_lines_add_up, consistent, count_origin, ChangeKind, FileDelta, DeltaView, Hunk, HunkRange, HunkView, Line, LineView, deltas_view, hunks_view, lines_view};

verus! {

/// The bytes of a sequence of output lines.
pub open spec fn text_view(lines: Seq<Vec<u8>>) -> Seq<Seq<u8>> {
    lines.map_values(|l: Vec<u8>| l@)
}

/// The sign that is put before a line of the given origin: `+` for an
/// addition, `-` for a deletion, `@` for a hunk header, and a blank for
/// context and for every other origin.
pub open spec fn prefix_spec(origin: char) -> u8 {
    if origin == '+' {
        43
    } else if origin == '-' {
        45
    } else if origin == '@' {
        64
    } else {
        32
    }
}

/// Classifies a line by its origin and gives the sign to put before it.
pub fn prefix_of(origin: char) -> (sign: u8)
    ensures
        sign == prefix_spec(origin),
{
    if origin == '+' {
        43
    } else if origin == '-' {
        45
    } else if origin == '@' {
        64
    } else {
        32
    }
}

/// The marker shown in place of bytes that are not text: `[INVALID UTF-8]`.
pub open spec fn placeholder_spec() -> Seq<u8> {
    seq![91, 73, 78, 86, 65, 76, 73, 68, 32, 85, 84, 70, 45, 56, 93]
}

/// The marker shown in place of bytes that are not text.
pub fn placeholder() -> (marker: Vec<u8>)
    ensures
        marker@ == placeholder_spec(),
{
    let marker: Vec<u8> = vec![91, 73, 78, 86, 65, 76, 73, 68, 32, 85, 84, 70, 45, 56, 93];
    assert(marker@ =~= placeholder_spec());
    marker
}

/// What is shown for `content`: the bytes themselves where they are valid
/// UTF-8, the marker where they are not.
pub open spec fn shown_spec(content: Seq<u8>) -> Seq<u8> {
    if valid_utf8(content) {
        content
    } else {
        placeholder_spec()
    }
}

/// `std::str::from_utf8`, asked only whether it succeeds: it does exactly on
/// byte sequences that are valid UTF-8.
#[verifier::external_body]
fn is_utf8(bytes: &[u8]) -> (ok: bool)
    ensures
        ok == valid_utf8(bytes@),
{
    std::str::from_utf8(bytes).is_ok()
}

/// The bytes to show for `content`.
pub fn shown(content: &Vec<u8>) -> (text: Vec<u8>)
    ensures
        text@ == shown_spec(content@),
{
    if is_utf8(content.as_slice()) {
        copy_bytes(content)
    } else {
        placeholder()
    }
}

/// The decimal digits of `n`, most significant first.
pub open spec fn decimal(n: nat) -> Seq<u8>
    decreases n,
{
    if n < 10 {
        seq![(48 + n) as u8]
    } else {
        decimal(n / 10).push((48 + n % 10) as u8)
    }
}

/// Writes `n` in decimal digits.
pub fn decimal_of(n: u64) -> (digits: Vec<u8>)
    ensures
        digits@ == decimal(n as nat),
    decreases n,
{
    if n < 10 {
        let digits: Vec<u8> = vec![48 + n as u8];
        assert(digits@ =~= decimal(n as nat));
        digits
    } else {
        let mut digits = decimal_of(n / 10);
        digits.push(48 + (n % 10) as u8);
        digits
    }
}

/// One rendered line: the sign of its origin, then what is shown of its content.
pub open spec fn render_line_spec(line: LineView) -> Seq<u8> {
    seq![prefix_spec(line.origin)] + shown_spec(line.content)
}

/// The header of a hunk: the hunk-header sign, then the old and the new
/// range as `@ -start,count +start,count @@` and a line feed.
pub open spec fn hunk_header_spec(range: HunkRange) -> Seq<u8> {
    seq![prefix_spec('@'), 64, 32, 45] + decimal(range.old_start as nat) + seq![44u8] + decimal(
        range.old_lines as nat,
    ) + seq![32u8, 43] + decimal(range.new_start as nat) + seq![44u8] + decimal(range.new_lines as nat)
        + seq![32u8, 64, 64, 10]
}

/// The word for a kind of change: `added`, `deleted` or `modified`.
pub open spec fn kind_word_spec(kind: ChangeKind) -> Seq<u8> {
    match kind {
        ChangeKind::Added => seq![97, 100, 100, 101, 100],
        ChangeKind::Deleted => seq![100, 101, 108, 101, 116, 101, 100],
        ChangeKind::Modified => seq![109, 111, 100, 105, 102, 105, 101, 100],
    }
}

/// The header of a delta: the word for its kind of change, a blank, what is
/// shown of its path, and a line feed.
pub open spec fn delta_header_spec(delta: DeltaView) -> Seq<u8> {
    kind_word_spec(delta.kind) + seq![32u8] + shown_spec(delta.path) + seq![10u8]
}

/// The rendered lines of a sequence of hunk lines, one for each, in order.
pub open spec fn render_lines_spec(lines: Seq<LineView>) -> Seq<Seq<u8>> {
    lines.map_values(|l: LineView| render_line_spec(l))
}

/// A rendered hunk: its header, then its lines.
pub open spec fn render_hunk_spec(hunk: HunkView) -> Seq<Seq<u8>> {
    seq![hunk_header_spec(hunk.range)] + render_lines_spec(hunk.lines)
}

/// The rendered hunks of a delta, one after the other.
pub open spec fn render_hunks_spec(hunks: Seq<HunkView>) -> Seq<Seq<u8>>
    decreases hunks.len(),
{
    if hunks.len() == 0 {
        Seq::empty()
    } else {
        render_hunks_spec(hunks.drop_last()) + render_hunk_spec(hunks.last())
    }
}

/// A rendered delta: its header, then its hunks.
pub open spec fn render_delta_spec(delta: DeltaView) -> Seq<Seq<u8>> {
    seq![delta_header_spec(delta)] + render_hunks_spec(delta.hunks)
}

/// The rendered patch: every delta in order.
pub open spec fn render_spec(deltas: Seq<DeltaView>) -> Seq<Seq<u8>>
    decreases deltas.len(),
{
    if deltas.len() == 0 {
        Seq::empty()
    } else {
        render_spec(deltas.drop_last()) + render_delta_spec(deltas.last())
    }
}

/// The line count of a hunk: a hunk whose ranges agree with its lines is
/// rendered as its header and as many lines as the old and the new range
/// span together, the context lines counted once. Each line of the hunk is
/// rendered exactly once, in its place.
pub proof fn hunk_line_count(hunk: HunkView)
    requires
        consistent(hunk),
    ensures
        render_hunk_spec(hunk).len() == 1 + hunk.range.old_lines + hunk.range.new_lines - count_origin(
            hunk.lines,
            ' ',
        ),
        render_hunk_spec(hunk)[0] == hunk_header_spec(hunk.range),
        forall|i: int|
            0 <= i < hunk.lines.len() ==> #[trigger] render_hunk_spec(hunk)[1 + i] == render_line_spec(hunk.lines[i]),
{
    classified_lines_add_up(hunk.lines);
}

/// Renders one line of a hunk.
pub fn render_line(line: &Line) -> (text: Vec<u8>)
    ensures
        text@ == render_line_spec(line@),
{
    let mut text: Vec<u8> = Vec::new();
    text.push(prefix_of(line.origin));
    let body = shown(&line.content);
    append_bytes(&mut text, &body);
    assert(text@ =~= render_line_spec(line@));
    text
}

/// Renders the header line of a hunk.
pub fn hunk_header(range: &HunkRange) -> (text: Vec<u8>)
    ensures
        text@ == hunk_header_spec(*range),
{
    let mut text: Vec<u8> = Vec::new();
    text.push(prefix_of('@'));
    text.push(64);
    text.push(32);
    text.push(45);
    let old_start = decimal_of(range.old_start as u64);
    append_bytes(&mut text, &old_start);
    text.push(44);
    let old_lines = decimal_of(range.old_lines as u64);
    append_bytes(&mut text, &old_lines);
    text.push(32);
    text.push(43);
    let new_start = decimal_of(range.new_start as u64);
    append_bytes(&mut text, &new_start);
    text.push(44);
    let new_lines = decimal_of(range.new_lines as u64);
    append_bytes(&mut text, &new_lines);
    text.push(32);
    text.push(64);
    text.push(64);
    text.push(10);
    assert(text@ =~= hunk_header_spec(*range));
    text
}

/// Renders the header line of a delta.
pub fn delta_header(delta: &FileDelta) -> (text: Vec<u8>)
    ensures
        text@ == delta_header_spec(delta@),
{
    let mut text: Vec<u8> = match delta.kind {
        ChangeKind::Added => vec![97, 100, 100, 101, 100],
        ChangeKind::Deleted => vec![100, 101, 108, 101, 116, 101, 100],
        ChangeKind::Modified => vec![109, 111, 100, 105, 102, 105, 101, 100],
    };
    assert(text@ =~= kind_word_spec(delta.kind));
    text.push(32);
    let path = shown(&delta.path);
    append_bytes(&mut text, &path);
    text.push(10);
    assert(text@ =~= delta_header_spec(delta@));
    text
}

fn render_hunk_into(hunk: &Hunk, out: &mut Vec<Vec<u8>>)
    ensures
        text_view(final(out)@) == text_view(old(out)@) + render_hunk_spec(hunk@),
{
    let ghost before = text_view(out@);
    out.push(hunk_header(&hunk.range));
    let mut i: usize = 0;
    assert(text_view(out@) =~= before + seq![hunk_header_spec(hunk.range)] + render_lines_spec(
        lines_view(hunk.lines@).take(0),
    ));
    while i < hunk.lines.len()
        invariant
            i <= hunk.lines.len(),
            text_view(out@) == before + seq![hunk_header_spec(hunk.range)] + render_lines_spec(
                lines_view(hunk.lines@).take(i as int),
            ),
        decreases hunk.lines.len() - i,
    {
        let ghost so_far = text_view(out@);
        out.push(render_line(&hunk.lines[i]));
        assert(text_view(out@) =~= so_far.push(render_line_spec(hunk.lines@[i as int]@)));
        assert(render_lines_spec(lines_view(hunk.lines@).take(i + 1)) =~= render_lines_spec(
            lines_view(hunk.lines@).take(i as int),
        ).push(render_line_spec(hunk.lines@[i as int]@)));
        i = i + 1;
    }
    assert(lines_view(hunk.lines@).take(hunk.lines.len() as int) =~= lines_view(hunk.lines@));
    assert(text_view(out@) =~= before + render_hunk_spec(hunk@));
}

/// Renders a hunk: its header line, then one line for each of its lines, in
/// their order.
pub fn render_hunk(hunk: &Hunk) -> (lines: Vec<Vec<u8>>)
    ensures
        text_view(lines@) == render_hunk_spec(hunk@),
        lines@.len() == 1 + hunk.lines@.len(),
        forall|i: int| 0 <= i < hunk.lines@.len() ==> (#[trigger] lines@[1 + i])@ == render_line_spec(hunk.lines@[i]@),
{
    let mut out: Vec<Vec<u8>> = Vec::new();
    assert(text_view(out@) =~= Seq::<Seq<u8>>::empty());
    render_hunk_into(hunk, &mut out);
    assert(text_view(out@) =~= render_hunk_spec(hunk@));
    assert forall|i: int| 0 <= i < hunk.lines@.len() implies (#[trigger] out@[1 + i])@ == render_line_spec(
        hunk.lines@[i]@,
    ) by {
        assert(text_view(out@)[1 + i] == out@[1 + i]@);
        assert(render_hunk_spec(hunk@)[1 + i] == render_lines_spec(hunk@.lines)[i]);
    }
    out
}

fn render_delta_into(delta: &FileDelta, out: &mut Vec<Vec<u8>>)
    ensures
        text_view(final(out)@) == text_view(old(out)@) + render_delta_spec(delta@),
{
    let ghost before = text_view(out@);
    out.push(delta_header(delta));
    let mut i: usize = 0;
    assert(hunks_view(delta.hunks@).take(0) =~= Seq::<HunkView>::empty());
    assert(text_view(out@) =~= before + seq![delta_header_spec(delta@)] + render_hunks_spec(
        hunks_view(delta.hunks@).take(0),
    ));
    while i < delta.hunks.len()
        invariant
            i <= delta.hunks.len(),
            text_view(out@) == before + seq![delta_header_spec(delta@)] + render_hunks_spec(
                hunks_view(delta.hunks@).take(i as int),
            ),
        decreases delta.hunks.len() - i,
    {
        let ghost so_far = text_view(out@);
        render_hunk_into(&delta.hunks[i], out);
        proof {
            let all = hunks_view(delta.hunks@);
            assert(all.take(i + 1).drop_last() =~= all.take(i as int));
            assert(all.take(i + 1).last() == delta.hunks@[i as int]@);
            assert(text_view(out@) =~= before + seq![delta_header_spec(delta@)] + render_hunks_spec(all.take(i + 1)));
        }
        i = i + 1;
    }
    assert(hunks_view(delta.hunks@).take(delta.hunks.len() as int) =~= hunks_view(delta.hunks@));
    assert(text_view(out@) =~= before + render_delta_spec(delta@));
}

/// Renders a delta: its header line, then its hunks.
pub fn render_delta(delta: &FileDelta) -> (lines: Vec<Vec<u8>>)
    ensures
        text_view(lines@) == render_delta_spec(delta@),
{
    let mut out: Vec<Vec<u8>> = Vec::new();
    assert(text_view(out@) =~= Seq::<Seq<u8>>::empty());
    render_delta_into(delta, &mut out);
    assert(text_view(out@) =~= render_delta_spec(delta@));
    out
}

/// Renders a patch: for each delta in order its header line, then for each
/// of its hunks the hunk's header line and one line for each line of the hunk.
pub fn render_patch(deltas: &Vec<FileDelta>) -> (lines: Vec<Vec<u8>>)
    ensures
        text_view(lines@) == render_spec(deltas_view(deltas@)),
        all_text(text_view(lines@)),
{
    let mut out: Vec<Vec<u8>> = Vec::new();
    let ghost all = deltas_view(deltas@);
    let mut i: usize = 0;
    assert(all.take(0) =~= Seq::<DeltaView>::empty());
    assert(text_view(out@) =~= Seq::<Seq<u8>>::empty());
    while i < deltas.len()
        invariant
            i <= deltas.len(),
            all == deltas_view(deltas@),
            text_view(out@) == render_spec(all.take(i as int)),
        decreases deltas.len() - i,
    {
        render_delta_into(&deltas[i], &mut out);
        proof {
            assert(all.take(i + 1).drop_last() =~= all.take(i as int));
            assert(all.take(i + 1).last() == deltas@[i as int]@);
        }
        i = i + 1;
    }
    assert(all.take(deltas.len() as int) =~= all);
    proof {
        rendered_patch_is_text(all);
    }
    out
}

/// Every byte is below 128.
pub open spec fn is_ascii(bytes: Seq<u8>) -> bool {
    forall|i: int| 0 <= i < bytes.len() ==> #[trigger] bytes[i] < 128
}

/// Bytes below 128 are text.
pub proof fn ascii_is_text(bytes: Seq<u8>)
    requires
        is_ascii(bytes),
    ensures
        valid_utf8(bytes),
{
    assert(bytes.subrange(0, 0) =~= Seq::<u8>::empty());
    assert(partial_valid_utf8(bytes, 0));
    assert forall|i: int| 0 <= i < bytes.len() implies #[trigger] is_leading_byte_width_1(bytes[i]) by {
        assert(bytes[i] < 128);
    }
    partial_valid_utf8_extend_ascii_block(bytes, 0, bytes.len() as int);
    assert(bytes.subrange(0, bytes.len() as int) =~= bytes);
}

/// Decimal digits are bytes below 128.
pub proof fn decimal_is_ascii(n: nat)
    ensures
        is_ascii(decimal(n)),
    decreases n,
{
    if n >= 10 {
        decimal_is_ascii(n / 10);
    }
}

/// What is shown for any content is text.
pub proof fn shown_is_text(content: Seq<u8>)
    ensures
        valid_utf8(shown_spec(content)),
{
    if !valid_utf8(content) {
        ascii_is_text(placeholder_spec());
    }
}

/// A rendered line is text, whatever bytes the line holds.
pub proof fn rendered_line_is_text(line: LineView)
    ensures
        valid_utf8(render_line_spec(line)),
{
    shown_is_text(line.content);
    ascii_is_text(seq![prefix_spec(line.origin)]);
    valid_utf8_concat(seq![prefix_spec(line.origin)], shown_spec(line.content));
}

/// A hunk header is text.
pub proof fn hunk_header_is_text(range: HunkRange)
    ensures
        valid_utf8(hunk_header_spec(range)),
{
    decimal_is_ascii(range.old_start as nat);
    decimal_is_ascii(range.old_lines as nat);
    decimal_is_ascii(range.new_start as nat);
    decimal_is_ascii(range.new_lines as nat);
    ascii_is_text(hunk_header_spec(range));
}

/// A delta header is text, whatever bytes the path holds.
pub proof fn delta_header_is_text(delta: DeltaView)
    ensures
        valid_utf8(delta_header_spec(delta)),
{
    let lead = kind_word_spec(delta.kind) + seq![32u8];
    ascii_is_text(lead);
    shown_is_text(delta.path);
    ascii_is_text(seq![10u8]);
    valid_utf8_concat(lead, shown_spec(delta.path));
    valid_utf8_concat(lead + shown_spec(delta.path), seq![10u8]);
}

/// Every line is text.
pub open spec fn all_text(lines: Seq<Seq<u8>>) -> bool {
    forall|i: int| 0 <= i < lines.len() ==> valid_utf8(#[trigger] lines[i])
}

proof fn rendered_hunks_are_text(hunks: Seq<HunkView>)
    ensures
        all_text(render_hunks_spec(hunks)),
    decreases hunks.len(),
{
    if hunks.len() > 0 {
        rendered_hunks_are_text(hunks.drop_last());
        let hunk = hunks.last();
        hunk_header_is_text(hunk.range);
        assert forall|i: int| 0 <= i < render_hunk_spec(hunk).len() implies valid_utf8(
            #[trigger] render_hunk_spec(hunk)[i],
        ) by {
            if i > 0 {
                rendered_line_is_text(hunk.lines[i - 1]);
            }
        }
    }
}

/// A rendered patch is text: every line of it is valid UTF-8, whatever
/// bytes the paths and the lines of the deltas hold.
pub proof fn rendered_patch_is_text(deltas: Seq<DeltaView>)
    ensures
        all_text(render_spec(deltas)),
    decreases deltas.len(),
{
    if deltas.len() > 0 {
        rendered_patch_is_text(deltas.drop_last());
        let delta = deltas.last();
        delta_header_is_text(delta);
        rendered_hunks_are_text(delta.hunks);
        assert forall|i: int| 0 <= i < render_delta_spec(delta).len() implies valid_utf8(
            #[trigger] render_delta_spec(delta)[i],
        ) by {
            if i > 0 {
                assert(render_delta_spec(delta)[i] == render_hunks_spec(delta.hunks)[i - 1]);
            }
        }
    }
}

} // verus!
