//! Deltas, hunks and lines, and how the store's stream of patch events is
//! gathered into them.

use vstd::prelude::*;
use crate::bytes::copy_bytes;

verus! {

/// How the store describes the state of one path of a difference.
#[derive(Clone, Copy, Debug, PartialEq, Eq, Structural)]
pub enum DeltaStatus {
    Unmodified,
    Added,
    Deleted,
    Modified,
    Renamed,
    Copied,
    Ignored,
    Untracked,
    Typechange,
    Unreadable,
    Conflicted,
}

/// The kind of change that a delta reports for its path.
#[derive(Clone, Copy, Debug, PartialEq, Eq, Structural)]
pub enum ChangeKind {
    Added,
    Deleted,
    Modified,
}

/// The line ranges of a hunk: where it starts and how many lines it spans,
/// on the old side and on the new side.
#[derive(Clone, Copy, Debug, PartialEq, Eq, Structural)]
pub struct HunkRange {
    pub old_start: u32,
    pub old_lines: u32,
    pub new_start: u32,
    pub new_lines: u32,
}

/// One line of a hunk: where it comes from, and its bytes.
#[derive(Debug, PartialEq, Eq)]
pub struct Line {
    pub origin: char,
    pub content: Vec<u8>,
}

/// A contiguous region of change within one file.
#[derive(Debug, PartialEq, Eq)]
pub struct Hunk {
    pub range: HunkRange,
    pub lines: Vec<Line>,
}

/// The change of one path between two trees. A delta without hunks stands
/// for a change whose content cannot be shown line by line.
#[derive(Debug, PartialEq, Eq)]
pub struct FileDelta {
    pub path: Vec<u8>,
    pub kind: ChangeKind,
    pub old_mode: Option<u32>,
    pub new_mode: Option<u32>,
    pub hunks: Vec<Hunk>,
}

/// One callback of the store while it prints a difference as a patch.
#[derive(Debug, PartialEq, Eq)]
pub struct PatchEvent {
    pub path: Option<Vec<u8>>,
    pub status: DeltaStatus,
    pub range: Option<HunkRange>,
    pub origin: char,
    pub content: Vec<u8>,
}

/// The mathematical value of a line.
pub struct LineView {
    pub origin: char,
    pub content: Seq<u8>,
}

/// The mathematical value of a hunk.
pub struct HunkView {
    pub range: HunkRange,
    pub lines: Seq<LineView>,
}

/// The mathematical value of a delta.
pub struct DeltaView {
    pub path: Seq<u8>,
    pub kind: ChangeKind,
    pub old_mode: Option<u32>,
    pub new_mode: Option<u32>,
    pub hunks: Seq<HunkView>,
}

/// The mathematical value of a patch event.
pub struct EventView {
    pub path: Option<Seq<u8>>,
    pub status: DeltaStatus,
    pub range: Option<HunkRange>,
    pub origin: char,
    pub content: Seq<u8>,
}

impl View for Line {
    type V = LineView;

    open spec fn view(&self) -> LineView {
        LineView { origin: self.origin, content: self.content@ }
    }
}

/// The values of a sequence of lines, in the same order.
pub open spec fn lines_view(lines: Seq<Line>) -> Seq<LineView> {
    lines.map_values(|l: Line| l@)
}

impl View for Hunk {
    type V = HunkView;

    open spec fn view(&self) -> HunkView {
        HunkView { range: self.range, lines: lines_view(self.lines@) }
    }
}

/// The values of a sequence of hunks, in the same order.
pub open spec fn hunks_view(hunks: Seq<Hunk>) -> Seq<HunkView> {
    hunks.map_values(|h: Hunk| h@)
}

impl View for FileDelta {
    type V = DeltaView;

    open spec fn view(&self) -> DeltaView {
        DeltaView {
            path: self.path@,
            kind: self.kind,
            old_mode: self.old_mode,
            new_mode: self.new_mode,
            hunks: hunks_view(self.hunks@),
        }
    }
}

/// The values of a sequence of deltas, in the same order.
pub open spec fn deltas_view(deltas: Seq<FileDelta>) -> Seq<DeltaView> {
    deltas.map_values(|d: FileDelta| d@)
}

impl View for PatchEvent {
    type V = EventView;

    open spec fn view(&self) -> EventView {
        EventView {
            path: match self.path {
                Some(p) => Some(p@),
                None => None,
            },
            status: self.status,
            range: self.range,
            origin: self.origin,
            content: self.content@,
        }
    }
}

/// The values of a sequence of patch events, in the same order.
pub open spec fn events_view(events: Seq<PatchEvent>) -> Seq<EventView> {
    events.map_values(|e: PatchEvent| e@)
}

/// How many of the lines have the given origin.
pub open spec fn count_origin(lines: Seq<LineView>, origin: char) -> nat
    decreases lines.len(),
{
    if lines.len() == 0 {
        0
    } else {
        count_origin(lines.drop_last(), origin) + if lines.last().origin == origin {
            1nat
        } else {
            0nat
        }
    }
}

/// Every line is context, an addition or a deletion.
pub open spec fn classified(lines: Seq<LineView>) -> bool {
    forall|i: int|
        0 <= i < lines.len() ==> {
            let origin = (#[trigger] lines[i]).origin;
            origin == ' ' || origin == '+' || origin == '-'
        }
}

/// The ranges of the hunk agree with its lines: the old side spans the
/// context and the deleted lines, the new side the context and the added ones.
pub open spec fn consistent(hunk: HunkView) -> bool {
    &&& classified(hunk.lines)
    &&& hunk.range.old_lines == count_origin(hunk.lines, ' ') + count_origin(hunk.lines, '-')
    &&& hunk.range.new_lines == count_origin(hunk.lines, ' ') + count_origin(hunk.lines, '+')
}

/// Lines of one origin are no more than all lines.
pub proof fn count_origin_bounded(lines: Seq<LineView>, origin: char)
    ensures
        count_origin(lines, origin) <= lines.len(),
    decreases lines.len(),
{
    if lines.len() > 0 {
        count_origin_bounded(lines.drop_last(), origin);
    }
}

/// Classified lines are the context lines, the additions and the deletions.
pub proof fn classified_lines_add_up(lines: Seq<LineView>)
    requires
        classified(lines),
    ensures
        lines.len() == count_origin(lines, ' ') + count_origin(lines, '+') + count_origin(lines, '-'),
    decreases lines.len(),
{
    if lines.len() > 0 {
        let init = lines.drop_last();
        assert forall|i: int| 0 <= i < init.len() implies {
            let origin = (#[trigger] init[i]).origin;
            origin == ' ' || origin == '+' || origin == '-'
        } by {
            assert(init[i] == lines[i]);
        }
        classified_lines_add_up(init);
        assert(lines[lines.len() - 1] == lines.last());
    }
}

impl Hunk {
    /// Tells whether the ranges of the hunk agree with its lines.
    pub fn is_consistent(&self) -> (ok: bool)
        ensures
            ok == consistent(self@),
    {
        let ghost all = lines_view(self.lines@);
        let mut context: usize = 0;
        let mut added: usize = 0;
        let mut deleted: usize = 0;
        let mut i: usize = 0;
        assert(all.take(0) =~= Seq::<LineView>::empty());
        while i < self.lines.len()
            invariant
                i <= self.lines.len(),
                all == lines_view(self.lines@),
                classified(all.take(i as int)),
                context == count_origin(all.take(i as int), ' '),
                added == count_origin(all.take(i as int), '+'),
                deleted == count_origin(all.take(i as int), '-'),
            decreases self.lines.len() - i,
        {
            let origin = self.lines[i].origin;
            proof {
                assert(all.take(i + 1).drop_last() =~= all.take(i as int));
                assert(all.take(i + 1).last() == all[i as int]);
                count_origin_bounded(all.take(i as int), ' ');
                count_origin_bounded(all.take(i as int), '+');
                count_origin_bounded(all.take(i as int), '-');
            }
            if origin == ' ' {
                context = context + 1;
            } else if origin == '+' {
                added = added + 1;
            } else if origin == '-' {
                deleted = deleted + 1;
            } else {
                assert(all[i as int].origin == origin);
                assert(!classified(all));
                return false;
            }
            assert forall|j: int| 0 <= j < all.take(i + 1).len() implies {
                let o = (#[trigger] all.take(i + 1)[j]).origin;
                o == ' ' || o == '+' || o == '-'
            } by {
                if j < i {
                    assert(all.take(i as int)[j] == all.take(i + 1)[j]);
                }
            }
            i = i + 1;
        }
        assert(all.take(self.lines.len() as int) =~= all);
        proof {
            classified_lines_add_up(all);
        }
        self.range.old_lines as usize == context + deleted && self.range.new_lines as usize == context + added
    }
}

/// What an event of the patch stream announces.
#[derive(Clone, Copy, Debug, PartialEq, Eq, Structural)]
pub enum Role {
    /// The header of a file: a new delta begins.
    FileHeader,
    /// The header of a hunk: a new hunk begins.
    HunkHeader,
    /// The note that a file is binary: its delta gets no hunks.
    BinaryNote,
    /// A line of the hunk at hand.
    Content,
}

/// The role that the store's origin sign gives to an event.
pub open spec fn role_spec(origin: char) -> Role {
    if origin == 'F' {
        Role::FileHeader
    } else if origin == 'H' || origin == '@' {
        Role::HunkHeader
    } else if origin == 'B' {
        Role::BinaryNote
    } else {
        Role::Content
    }
}

/// Tells what an event with this origin sign announces.
pub fn role_of(origin: char) -> (role: Role)
    ensures
        role == role_spec(origin),
{
    if origin == 'F' {
        Role::FileHeader
    } else if origin == 'H' || origin == '@' {
        Role::HunkHeader
    } else if origin == 'B' {
        Role::BinaryNote
    } else {
        Role::Content
    }
}

/// The kind of change that a status stands for, or none where the status
/// says that the path does not differ between two trees.
///
/// A path that was renamed, changed its type or is in conflict counts as
/// modified, a copy as added. A path that is unmodified, ignored, untracked
/// or unreadable is no change.
pub open spec fn kind_spec(status: DeltaStatus) -> Option<ChangeKind> {
    match status {
        DeltaStatus::Added => Some(ChangeKind::Added),
        DeltaStatus::Copied => Some(ChangeKind::Added),
        DeltaStatus::Deleted => Some(ChangeKind::Deleted),
        DeltaStatus::Modified => Some(ChangeKind::Modified),
        DeltaStatus::Renamed => Some(ChangeKind::Modified),
        DeltaStatus::Typechange => Some(ChangeKind::Modified),
        DeltaStatus::Conflicted => Some(ChangeKind::Modified),
        DeltaStatus::Unmodified => None,
        DeltaStatus::Ignored => None,
        DeltaStatus::Untracked => None,
        DeltaStatus::Unreadable => None,
    }
}

/// Tells the kind of change that the store's status of a path stands for.
pub fn kind_of(status: DeltaStatus) -> (kind: Option<ChangeKind>)
    ensures
        kind == kind_spec(status),
{
    match status {
        DeltaStatus::Added => Some(ChangeKind::Added),
        DeltaStatus::Copied => Some(ChangeKind::Added),
        DeltaStatus::Deleted => Some(ChangeKind::Deleted),
        DeltaStatus::Modified => Some(ChangeKind::Modified),
        DeltaStatus::Renamed => Some(ChangeKind::Modified),
        DeltaStatus::Typechange => Some(ChangeKind::Modified),
        DeltaStatus::Conflicted => Some(ChangeKind::Modified),
        DeltaStatus::Unmodified => None,
        DeltaStatus::Ignored => None,
        DeltaStatus::Untracked => None,
        DeltaStatus::Unreadable => None,
    }
}

/// The range that all of zero lines span.
pub open spec fn empty_range() -> HunkRange {
    HunkRange { old_start: 0, old_lines: 0, new_start: 0, new_lines: 0 }
}

/// The delta that an event opens: its path, the kind of its change, no
/// modes yet and no hunks.
pub open spec fn delta_opened_by(event: EventView, kind: ChangeKind) -> DeltaView {
    DeltaView {
        path: match event.path {
            Some(p) => p,
            None => Seq::empty(),
        },
        kind,
        old_mode: None,
        new_mode: None,
        hunks: Seq::empty(),
    }
}

/// The hunk that an event opens: its range, and no lines.
pub open spec fn hunk_opened_by(event: EventView) -> HunkView {
    HunkView {
        range: match event.range {
            Some(r) => r,
            None => empty_range(),
        },
        lines: Seq::empty(),
    }
}

/// The deltas with one more delta opened by the event, if there is none yet.
pub open spec fn with_delta(deltas: Seq<DeltaView>, event: EventView, kind: ChangeKind) -> Seq<DeltaView> {
    if deltas.len() == 0 {
        deltas.push(delta_opened_by(event, kind))
    } else {
        deltas
    }
}

/// The deltas with `hunk` appended to the last of them.
pub open spec fn with_hunk(deltas: Seq<DeltaView>, hunk: HunkView) -> Seq<DeltaView>
    recommends
        deltas.len() > 0,
{
    let last = deltas.last();
    deltas.drop_last().push(DeltaView { hunks: last.hunks.push(hunk), ..last })
}

/// The deltas with a hunk opened by the event in the last of them, if that
/// one has none yet.
pub open spec fn with_open_hunk(deltas: Seq<DeltaView>, event: EventView) -> Seq<DeltaView>
    recommends
        deltas.len() > 0,
{
    if deltas.last().hunks.len() == 0 {
        with_hunk(deltas, hunk_opened_by(event))
    } else {
        deltas
    }
}

/// The deltas with `line` appended to the last hunk of the last of them.
pub open spec fn with_line(deltas: Seq<DeltaView>, line: LineView) -> Seq<DeltaView>
    recommends
        deltas.len() > 0,
        deltas.last().hunks.len() > 0,
{
    let last = deltas.last();
    let hunk = last.hunks.last();
    deltas.drop_last().push(
        DeltaView {
            hunks: last.hunks.drop_last().push(HunkView { lines: hunk.lines.push(line), ..hunk }),
            ..last
        },
    )
}

/// The deltas after one more event of the patch stream.
///
/// An event whose status reports no change is passed over. A file header
/// opens a delta. A hunk header opens a hunk in the last delta. A binary
/// note adds nothing to its delta. Any other event is a line of the last
/// hunk. Where the stream left out a header, the event opens what is missing.
pub open spec fn absorb(deltas: Seq<DeltaView>, event: EventView) -> Seq<DeltaView> {
    match kind_spec(event.status) {
        None => deltas,
        Some(kind) => match role_spec(event.origin) {
            Role::FileHeader => deltas.push(delta_opened_by(event, kind)),
            Role::BinaryNote => with_delta(deltas, event, kind),
            Role::HunkHeader => with_hunk(with_delta(deltas, event, kind), hunk_opened_by(event)),
            Role::Content => with_line(
                with_open_hunk(with_delta(deltas, event, kind), event),
                LineView { origin: event.origin, content: event.content },
            ),
        },
    }
}

/// The deltas that a stream of patch events describes.
pub open spec fn grouped(events: Seq<EventView>) -> Seq<DeltaView>
    decreases events.len(),
{
    if events.len() == 0 {
        Seq::empty()
    } else {
        absorb(grouped(events.drop_last()), events.last())
    }
}

fn open_delta(deltas: &mut Vec<FileDelta>, event: &PatchEvent, kind: ChangeKind)
    ensures
        deltas_view(final(deltas)@) == deltas_view(old(deltas)@).push(delta_opened_by(event@, kind)),
        final(deltas)@.len() == old(deltas)@.len() + 1,
{
    let path = match &event.path {
        Some(p) => copy_bytes(p),
        None => Vec::new(),
    };
    let delta = FileDelta { path, kind, old_mode: None, new_mode: None, hunks: Vec::new() };
    assert(delta@.hunks =~= Seq::<HunkView>::empty());
    assert(delta@ == delta_opened_by(event@, kind));
    deltas.push(delta);
    assert(deltas_view(deltas@) =~= deltas_view(old(deltas)@).push(delta_opened_by(event@, kind)));
}

fn ensure_delta(deltas: &mut Vec<FileDelta>, event: &PatchEvent, kind: ChangeKind)
    ensures
        deltas_view(final(deltas)@) == with_delta(deltas_view(old(deltas)@), event@, kind),
        final(deltas)@.len() > 0,
{
    if deltas.len() == 0 {
        open_delta(deltas, event, kind);
    }
}

fn push_hunk(deltas: &mut Vec<FileDelta>, hunk: Hunk)
    requires
        old(deltas)@.len() > 0,
    ensures
        deltas_view(final(deltas)@) == with_hunk(deltas_view(old(deltas)@), hunk@),
        final(deltas)@.len() == old(deltas)@.len(),
        final(deltas)@.last().hunks@.len() > 0,
{
    let ghost before = deltas_view(deltas@);
    match deltas.pop() {
        Some(mut last) => {
            let ghost last_view = last@;
            assert(last_view == before.last());
            assert(deltas_view(deltas@) =~= before.drop_last());
            let ghost hunks_before = hunks_view(last.hunks@);
            last.hunks.push(hunk);
            assert(hunks_view(last.hunks@) =~= hunks_before.push(hunk@));
            deltas.push(last);
            assert(deltas_view(deltas@) =~= with_hunk(before, hunk@));
        },
        None => {},
    }
}

fn ensure_hunk(deltas: &mut Vec<FileDelta>, event: &PatchEvent)
    requires
        old(deltas)@.len() > 0,
    ensures
        deltas_view(final(deltas)@) == with_open_hunk(deltas_view(old(deltas)@), event@),
        final(deltas)@.len() == old(deltas)@.len(),
        final(deltas)@.last().hunks@.len() > 0,
{
    let n = deltas.len();
    assert(deltas_view(deltas@).last() == deltas@[n - 1]@);
    if deltas[n - 1].hunks.len() == 0 {
        let range = match event.range {
            Some(r) => r,
            None => HunkRange { old_start: 0, old_lines: 0, new_start: 0, new_lines: 0 },
        };
        let hunk = Hunk { range, lines: Vec::new() };
        assert(hunk@.lines =~= Seq::<LineView>::empty());
        assert(hunk@ == hunk_opened_by(event@));
        push_hunk(deltas, hunk);
    }
}

fn push_line(deltas: &mut Vec<FileDelta>, line: Line)
    requires
        old(deltas)@.len() > 0,
        old(deltas)@.last().hunks@.len() > 0,
    ensures
        deltas_view(final(deltas)@) == with_line(deltas_view(old(deltas)@), line@),
{
    let ghost before = deltas_view(deltas@);
    assert(before.last() == deltas@.last()@);
    match deltas.pop() {
        Some(mut last) => {
            assert(deltas_view(deltas@) =~= before.drop_last());
            let ghost hunks_before = hunks_view(last.hunks@);
            assert(hunks_before.last() == last.hunks@.last()@);
            match last.hunks.pop() {
                Some(mut hunk) => {
                    assert(hunks_view(last.hunks@) =~= hunks_before.drop_last());
                    let ghost lines_before = lines_view(hunk.lines@);
                    hunk.lines.push(line);
                    assert(lines_view(hunk.lines@) =~= lines_before.push(line@));
                    last.hunks.push(hunk);
                    assert(hunks_view(last.hunks@) =~= hunks_before.drop_last().push(hunk@));
                },
                None => {},
            }
            deltas.push(last);
            assert(deltas_view(deltas@) =~= with_line(before, line@));
        },
        None => {},
    }
}

/// Takes one more event of the patch stream into the deltas gathered so far.
pub fn absorb_event(deltas: &mut Vec<FileDelta>, event: &PatchEvent)
    ensures
        deltas_view(final(deltas)@) == absorb(deltas_view(old(deltas)@), event@),
{
    match kind_of(event.status) {
        None => {},
        Some(kind) => match role_of(event.origin) {
            Role::FileHeader => {
                open_delta(deltas, event, kind);
            },
            Role::BinaryNote => {
                ensure_delta(deltas, event, kind);
            },
            Role::HunkHeader => {
                ensure_delta(deltas, event, kind);
                let range = match event.range {
                    Some(r) => r,
                    None => HunkRange { old_start: 0, old_lines: 0, new_start: 0, new_lines: 0 },
                };
                let hunk = Hunk { range, lines: Vec::new() };
                assert(hunk@.lines =~= Seq::<LineView>::empty());
                assert(hunk@ == hunk_opened_by(event@));
                push_hunk(deltas, hunk);
            },
            Role::Content => {
                ensure_delta(deltas, event, kind);
                ensure_hunk(deltas, event);
                let line = Line { origin: event.origin, content: copy_bytes(&event.content) };
                push_line(deltas, line);
            },
        },
    }
}

/// Gathers the store's patch events into deltas, hunks and lines, in the
/// order in which the store gave them.
pub fn group_events(events: &Vec<PatchEvent>) -> (deltas: Vec<FileDelta>)
    ensures
        deltas_view(deltas@) == grouped(events_view(events@)),
{
    let mut deltas: Vec<FileDelta> = Vec::new();
    let ghost all = events_view(events@);
    let mut i: usize = 0;
    assert(all.take(0) =~= Seq::<EventView>::empty());
    assert(deltas_view(deltas@) =~= Seq::<DeltaView>::empty());
    while i < events.len()
        invariant
            i <= events.len(),
            all == events_view(events@),
            deltas_view(deltas@) == grouped(all.take(i as int)),
        decreases events.len() - i,
    {
        absorb_event(&mut deltas, &events[i]);
        proof {
            assert(all.take(i + 1).drop_last() =~= all.take(i as int));
            assert(all.take(i + 1).last() == events@[i as int]@);
        }
        i = i + 1;
    }
    assert(all.take(events.len() as int) =~= all);
    deltas
}

} // verus!
