//! The tree differencer: which options are handed to the store, and how
//! what it finds becomes deltas.

use vstd::prelude::*;
use crate::errors::Failure;
use crate::ids::ObjectId;
use crate::patch::{
    deltas_view, events_view, group_events, grouped, ChangeKind, DeltaStatus, DeltaView, EventView, FileDelta,
    PatchEvent,
};
use crate::render::{all_text, render_patch, render_spec, text_view};
use crate::resolve::expect_trees;
use crate::bytes::copy_bytes;
use crate::store::{
    diff_tree_to_tree, entry_mode_at, find_object, patch_events, store_failure, StoreEvent,
};

verus! {

/// The number of unchanged lines kept around each change, unless the caller
/// asks for another.
pub const DEFAULT_CONTEXT_LINES: u32 = 3;

/// What a caller may ask of the tree differencer.
#[derive(Clone, Copy, Debug, PartialEq, Eq, Structural)]
pub struct DiffConfig {
    /// Unchanged lines kept around each change.
    pub context_lines: u32,
    /// Whether untracked files are to be considered. Between two trees there
    /// are none: the setting is carried and never acted on.
    pub include_untracked: bool,
    /// Whether ignored files are to be considered. Between two trees there
    /// are none: the setting is carried and never acted on.
    pub include_ignored: bool,
}

impl Default for DiffConfig {
    fn default() -> (config: DiffConfig)
        ensures
            config == (DiffConfig {
                context_lines: DEFAULT_CONTEXT_LINES,
                include_untracked: false,
                include_ignored: false,
            }),
    {
        DiffConfig { context_lines: DEFAULT_CONTEXT_LINES, include_untracked: false, include_ignored: false }
    }
}

/// What the store is asked for.
#[derive(Clone, Copy, Debug, PartialEq, Eq, Structural)]
pub struct StoreOptions {
    pub context_lines: u32,
    pub include_untracked: bool,
    pub include_ignored: bool,
    pub include_unmodified: bool,
}

/// The options that are handed to the store for a configuration: its
/// context lines, and never untracked, ignored or unmodified paths.
pub open spec fn effective_spec(config: DiffConfig) -> StoreOptions {
    StoreOptions {
        context_lines: config.context_lines,
        include_untracked: false,
        include_ignored: false,
        include_unmodified: false,
    }
}

/// Works out the options that are handed to the store.
pub fn effective(config: &DiffConfig) -> (options: StoreOptions)
    ensures
        options == effective_spec(*config),
{
    StoreOptions {
        context_lines: config.context_lines,
        include_untracked: false,
        include_ignored: false,
        include_unmodified: false,
    }
}

/// The status of the store in the library's own words, variant for variant.
pub open spec fn status_spec(status: git2::Delta) -> DeltaStatus {
    match status {
        git2::Delta::Unmodified => DeltaStatus::Unmodified,
        git2::Delta::Added => DeltaStatus::Added,
        git2::Delta::Deleted => DeltaStatus::Deleted,
        git2::Delta::Modified => DeltaStatus::Modified,
        git2::Delta::Renamed => DeltaStatus::Renamed,
        git2::Delta::Copied => DeltaStatus::Copied,
        git2::Delta::Ignored => DeltaStatus::Ignored,
        git2::Delta::Untracked => DeltaStatus::Untracked,
        git2::Delta::Typechange => DeltaStatus::Typechange,
        git2::Delta::Unreadable => DeltaStatus::Unreadable,
        git2::Delta::Conflicted => DeltaStatus::Conflicted,
    }
}

/// Puts the status of the store into the library's own words.
pub fn status_of(status: &git2::Delta) -> (plain: DeltaStatus)
    ensures
        plain == status_spec(*status),
{
    match status {
        git2::Delta::Unmodified => DeltaStatus::Unmodified,
        git2::Delta::Added => DeltaStatus::Added,
        git2::Delta::Deleted => DeltaStatus::Deleted,
        git2::Delta::Modified => DeltaStatus::Modified,
        git2::Delta::Renamed => DeltaStatus::Renamed,
        git2::Delta::Copied => DeltaStatus::Copied,
        git2::Delta::Ignored => DeltaStatus::Ignored,
        git2::Delta::Untracked => DeltaStatus::Untracked,
        git2::Delta::Typechange => DeltaStatus::Typechange,
        git2::Delta::Unreadable => DeltaStatus::Unreadable,
        git2::Delta::Conflicted => DeltaStatus::Conflicted,
    }
}

/// The plain event stands for the store's: same path, status, range,
/// origin and content.
pub open spec fn stands_for(plain: PatchEvent, raw: StoreEvent) -> bool {
    &&& plain.status == status_spec(raw.status)
    &&& plain@.path == match raw.path {
        Some(p) => Some(p@),
        None => None,
    }
    &&& plain.range == raw.range
    &&& plain.origin == raw.origin
    &&& plain.content@ == raw.content@
}

/// Turns one event of the store into plain values.
pub fn plain_event(raw: &StoreEvent) -> (plain: PatchEvent)
    ensures
        stands_for(plain, *raw),
{
    let path = match &raw.path {
        Some(p) => Some(copy_bytes(p)),
        None => None,
    };
    PatchEvent {
        path,
        status: status_of(&raw.status),
        range: raw.range,
        origin: raw.origin,
        content: copy_bytes(&raw.content),
    }
}

/// Turns the events of the store into plain values, one for one, in order.
pub fn plain_events(raw: &Vec<StoreEvent>) -> (plain: Vec<PatchEvent>)
    ensures
        plain@.len() == raw@.len(),
        forall|i: int| 0 <= i < raw@.len() ==> stands_for(#[trigger] plain@[i], raw@[i]),
{
    let mut plain: Vec<PatchEvent> = Vec::new();
    let mut i: usize = 0;
    while i < raw.len()
        invariant
            i <= raw.len(),
            plain@.len() == i,
            forall|j: int| 0 <= j < i ==> stands_for(#[trigger] plain@[j], raw@[j]),
        decreases raw.len() - i,
    {
        plain.push(plain_event(&raw[i]));
        i = i + 1;
    }
    plain
}

/// A delta holds no mode for a side on which its path does not exist: none
/// on the old side where the path was added, none on the new side where it
/// was deleted.
pub open spec fn modes_fit_kind(delta: DeltaView) -> bool {
    &&& delta.kind is Added ==> delta.old_mode is None
    &&& delta.kind is Deleted ==> delta.new_mode is None
}

/// The deltas are what the events of the store's patch are gathered into,
/// but for their modes, and the modes fit the kinds.
pub open spec fn gathered_from(events: Seq<EventView>, deltas: Seq<DeltaView>) -> bool {
    &&& deltas.len() == grouped(events).len()
    &&& forall|i: int|
        0 <= i < deltas.len() ==> {
            &&& (#[trigger] deltas[i]).path == grouped(events)[i].path
            &&& deltas[i].kind == grouped(events)[i].kind
            &&& deltas[i].hunks == grouped(events)[i].hunks
            &&& modes_fit_kind(deltas[i])
        }
}

/// The deltas are the same but for their modes.
pub open spec fn same_but_modes(before: Seq<FileDelta>, after: Seq<FileDelta>) -> bool {
    &&& after.len() == before.len()
    &&& forall|i: int|
        0 <= i < before.len() ==> {
            &&& (#[trigger] after[i])@.path == before[i]@.path
            &&& after[i]@.kind == before[i]@.kind
            &&& after[i]@.hunks == before[i]@.hunks
        }
}

/// The modes that a delta of the given kind holds, of the modes that the
/// store found for its path in the old and in the new tree: none on the old
/// side of a path that was added, none on the new side of one that was
/// deleted, and else what the store found.
pub open spec fn fitting_modes_spec(kind: ChangeKind, old_found: Option<u32>, new_found: Option<u32>) -> (
    Option<u32>,
    Option<u32>,
) {
    match kind {
        ChangeKind::Added => (None, new_found),
        ChangeKind::Deleted => (old_found, None),
        ChangeKind::Modified => (old_found, new_found),
    }
}

/// Picks the modes that a delta holds from what the store found for its path.
pub fn fitting_modes(kind: ChangeKind, old_found: Option<u32>, new_found: Option<u32>) -> (modes: (
    Option<u32>,
    Option<u32>,
))
    ensures
        modes == fitting_modes_spec(kind, old_found, new_found),
{
    match kind {
        ChangeKind::Added => (None, new_found),
        ChangeKind::Deleted => (old_found, None),
        ChangeKind::Modified => (old_found, new_found),
    }
}

fn fill_modes(deltas: &mut Vec<FileDelta>, old_tree: &git2::Tree<'_>, new_tree: &git2::Tree<'_>)
    ensures
        same_but_modes(old(deltas)@, final(deltas)@),
        forall|i: int| 0 <= i < final(deltas)@.len() ==> modes_fit_kind((#[trigger] final(deltas)@[i])@),
{
    let mut i: usize = 0;
    while i < deltas.len()
        invariant
            i <= deltas.len(),
            same_but_modes(old(deltas)@, deltas@),
            forall|j: int| 0 <= j < i ==> modes_fit_kind((#[trigger] deltas@[j])@),
        decreases deltas.len() - i,
    {
        let old_found = entry_mode_at(old_tree, &deltas[i].path);
        let new_found = entry_mode_at(new_tree, &deltas[i].path);
        let (old_mode, new_mode) = fitting_modes(deltas[i].kind, old_found, new_found);
        deltas[i].old_mode = old_mode;
        deltas[i].new_mode = new_mode;
        i = i + 1;
    }
}

/// Compares two trees of the store and gives one delta for each path that
/// differs, in the store's order, each with the modes that the two trees
/// hold for its path.
///
/// Fails with `ObjectResolution` when one of the identifiers does not name
/// a tree, and with `Store` when the store fails to compare. Two equal
/// identifiers name the same tree, in which no path differs: the result is
/// then empty, and the store is not asked to compare.
///
/// Which events the store reports is the store's to say. Whatever they are,
/// the deltas are what those events are gathered into: their paths, kinds,
/// hunks and lines are those of the grouping, and the modes fit the kinds.
pub fn diff_trees(repo: &git2::Repository, old_tree: &ObjectId, new_tree: &ObjectId, config: &DiffConfig) -> (outcome:
    Result<Vec<FileDelta>, Failure>)
    ensures
        outcome matches Err(e) ==> e is ObjectResolution || e is Store,
        outcome matches Ok(deltas) ==> (old_tree@ == new_tree@ ==> deltas@.len() == 0),
        outcome matches Ok(deltas) ==> forall|i: int|
            0 <= i < deltas@.len() ==> modes_fit_kind((#[trigger] deltas@[i])@),
        outcome is Ok ==> exists|events: Seq<EventView>| #[trigger]
            gathered_from(events, deltas_view(outcome->Ok_0@)),
{
    let old_found = find_object(repo, old_tree);
    let new_found = find_object(repo, new_tree);
    let (old, new) = match expect_trees(old_found, new_found) {
        Ok(trees) => trees,
        Err(e) => {
            return Err(e);
        },
    };
    if old_tree.same_as(new_tree) {
        let unchanged: Result<Vec<FileDelta>, Failure> = Ok(Vec::new());
        proof {
            let no_events = Seq::<EventView>::empty();
            assert(deltas_view(unchanged->Ok_0@) =~= grouped(no_events));
            assert(gathered_from(no_events, deltas_view(unchanged->Ok_0@)));
        }
        return unchanged;
    }
    let options = effective(config);
    let diff = match diff_tree_to_tree(
        repo,
        &old,
        &new,
        options.context_lines,
        options.include_untracked,
        options.include_ignored,
        options.include_unmodified,
    ) {
        Ok(diff) => diff,
        Err(e) => {
            return Err(store_failure(&e));
        },
    };
    let events = match patch_events(&diff) {
        Ok(events) => plain_events(&events),
        Err(e) => {
            return Err(store_failure(&e));
        },
    };
    let mut deltas = group_events(&events);
    let ghost grouping = deltas@;
    fill_modes(&mut deltas, &old, &new);
    proof {
        assert forall|i: int| 0 <= i < grouping.len() implies {
            &&& (#[trigger] deltas_view(deltas@)[i]).path == deltas_view(grouping)[i].path
            &&& deltas_view(deltas@)[i].kind == deltas_view(grouping)[i].kind
            &&& deltas_view(deltas@)[i].hunks == deltas_view(grouping)[i].hunks
            &&& modes_fit_kind(deltas_view(deltas@)[i])
        } by {
            assert(deltas_view(deltas@)[i] == deltas@[i]@);
            assert(deltas_view(grouping)[i] == grouping[i]@);
        }
    }
    let outcome: Result<Vec<FileDelta>, Failure> = Ok(deltas);
    assert(gathered_from(events_view(events@), deltas_view(outcome->Ok_0@)));
    outcome
}

/// Compares two trees and renders what differs as patch lines.
///
/// The lines are the rendering of the deltas that the store's events are
/// gathered into, and every one of them is text.
pub fn print_diff(repo: &git2::Repository, from_tree: &ObjectId, to_tree: &ObjectId, config: &DiffConfig) -> (outcome:
    Result<Vec<Vec<u8>>, Failure>)
    ensures
        outcome matches Err(e) ==> e is ObjectResolution || e is Store,
        outcome matches Ok(lines) ==> (from_tree@ == to_tree@ ==> lines@.len() == 0),
        outcome matches Ok(lines) ==> all_text(text_view(lines@)),
        outcome matches Ok(lines) ==> exists|events: Seq<EventView>, deltas: Seq<DeltaView>|
            #![trigger gathered_from(events, deltas)]
            gathered_from(events, deltas) && text_view(lines@) == render_spec(deltas),
{
    match diff_trees(repo, from_tree, to_tree, config) {
        Ok(deltas) => {
            let lines = render_patch(&deltas);
            proof {
                let events = choose|events: Seq<EventView>| gathered_from(events, deltas_view(deltas@));
                assert(gathered_from(events, deltas_view(deltas@)));
                if from_tree@ == to_tree@ {
                    assert(deltas_view(deltas@) =~= Seq::empty());
                    assert(text_view(lines@).len() == 0);
                }
            }
            Ok(lines)
        },
        Err(e) => Err(e),
    }
}

} // verus!
