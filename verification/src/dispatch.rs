//! The commit dispatcher: what is done for a commit, decided by the number
//! of its parents.

use vstd::prelude::*;
use crate::bytes::bytes_equal;
use crate::errors::Failure;
use crate::ids::ObjectId;
use crate::patch::FileDelta;
use crate::tree::TreeEntry;

verus! {

/// A commit as read from the store.
#[derive(Clone, Debug, PartialEq, Eq)]
pub struct CommitInfo {
    pub id: ObjectId,
    pub tree: ObjectId,
    pub parents: Vec<ObjectId>,
    pub summary: Option<Vec<u8>>,
}

/// The shape of a commit's ancestry that the dispatcher handles.
#[derive(Clone, Copy, Debug, PartialEq, Eq, Structural)]
pub enum Topology {
    /// No parent.
    Root,
    /// One parent.
    Ordinary,
    /// Two parents.
    Merge,
}

/// The shape that a number of parents stands for; more than two stand for none.
pub open spec fn topology_spec(parents: nat) -> Result<Topology, Failure> {
    if parents == 0 {
        Ok(Topology::Root)
    } else if parents == 1 {
        Ok(Topology::Ordinary)
    } else if parents == 2 {
        Ok(Topology::Merge)
    } else {
        Err(Failure::UnsupportedTopology)
    }
}

/// Classifies a commit by the number of its parents.
pub fn classify(parents: usize) -> (outcome: Result<Topology, Failure>)
    ensures
        outcome == topology_spec(parents as nat),
{
    if parents == 0 {
        Ok(Topology::Root)
    } else if parents == 1 {
        Ok(Topology::Ordinary)
    } else if parents == 2 {
        Ok(Topology::Merge)
    } else {
        Err(Failure::UnsupportedTopology)
    }
}

/// The old side of a difference.
#[derive(Clone, Copy, Debug, PartialEq, Eq)]
pub enum OldSide {
    /// A tree that is already in the store.
    Tree(ObjectId),
    /// The baseline that the reconstruction before it wrote.
    Baseline,
}

/// One thing that the dispatcher has done for a commit.
#[derive(Clone, Copy, Debug, PartialEq, Eq)]
pub enum Step {
    /// Report that the commit has no parent; nothing is compared.
    ReportRoot,
    /// Run the baseline reconstructor on a tree.
    Reconstruct { tree: ObjectId },
    /// Compare the entries of the baseline with those of the tree it was made from.
    SelfCheck { tree: ObjectId },
    /// Run the tree differencer on two trees and render what it gives.
    Diff { old: OldSide, new: ObjectId },
}

/// The steps for a commit with the given tree and the given trees of its
/// parents, in the order in which they are taken.
pub open spec fn plan_spec(commit_tree: ObjectId, parent_trees: Seq<ObjectId>) -> Result<Seq<Step>, Failure> {
    match topology_spec(parent_trees.len()) {
        Ok(Topology::Root) => Ok(seq![Step::ReportRoot]),
        Ok(Topology::Ordinary) => Ok(seq![Step::Diff { old: OldSide::Tree(parent_trees[0]), new: commit_tree }]),
        Ok(Topology::Merge) => Ok(
            seq![
                Step::Reconstruct { tree: parent_trees[0] },
                Step::SelfCheck { tree: parent_trees[0] },
                Step::Diff { old: OldSide::Baseline, new: commit_tree },
            ],
        ),
        Err(e) => Err(e),
    }
}

/// Decides what is done for a commit.
pub fn plan(commit_tree: ObjectId, parent_trees: &Vec<ObjectId>) -> (outcome: Result<Vec<Step>, Failure>)
    ensures
        outcome matches Ok(steps) ==> Ok::<Seq<Step>, Failure>(steps@) == plan_spec(commit_tree, parent_trees@),
        outcome matches Err(e) ==> Err::<Seq<Step>, Failure>(e) == plan_spec(commit_tree, parent_trees@),
{
    match classify(parent_trees.len()) {
        Ok(Topology::Root) => {
            let steps: Vec<Step> = vec![Step::ReportRoot];
            assert(steps@ =~= seq![Step::ReportRoot]);
            Ok(steps)
        },
        Ok(Topology::Ordinary) => {
            let steps: Vec<Step> = vec![Step::Diff { old: OldSide::Tree(parent_trees[0]), new: commit_tree }];
            assert(steps@ =~= seq![Step::Diff { old: OldSide::Tree(parent_trees@[0]), new: commit_tree }]);
            Ok(steps)
        },
        Ok(Topology::Merge) => {
            let first = parent_trees[0];
            let steps: Vec<Step> = vec![
                Step::Reconstruct { tree: first },
                Step::SelfCheck { tree: first },
                Step::Diff { old: OldSide::Baseline, new: commit_tree },
            ];
            assert(steps@ =~= seq![
                Step::Reconstruct { tree: first },
                Step::SelfCheck { tree: first },
                Step::Diff { old: OldSide::Baseline, new: commit_tree },
            ]);
            Ok(steps)
        },
        Err(e) => Err(e),
    }
}

/// Dispatch routing. A commit without parents never reaches the tree
/// differencer. A commit with one parent reaches it exactly once, with the
/// tree of that parent and its own tree. A commit with two parents runs the
/// baseline reconstructor before every run of the tree differencer. A commit
/// with more parents reaches neither.
pub proof fn dispatch_routing(commit_tree: ObjectId, parent_trees: Seq<ObjectId>)
    ensures
        parent_trees.len() == 0 ==> plan_spec(commit_tree, parent_trees) is Ok && forall|i: int|
            0 <= i < plan_spec(commit_tree, parent_trees)->Ok_0.len() ==> !(#[trigger] plan_spec(
                commit_tree,
                parent_trees,
            )->Ok_0[i] is Diff),
        parent_trees.len() == 1 ==> plan_spec(commit_tree, parent_trees) == Ok::<Seq<Step>, Failure>(
            seq![Step::Diff { old: OldSide::Tree(parent_trees[0]), new: commit_tree }],
        ),
        parent_trees.len() == 2 ==> plan_spec(commit_tree, parent_trees) is Ok && forall|i: int|
            0 <= i < plan_spec(commit_tree, parent_trees)->Ok_0.len() && (#[trigger] plan_spec(
                commit_tree,
                parent_trees,
            )->Ok_0[i]) is Diff ==> exists|j: int|
                0 <= j < i && (#[trigger] plan_spec(commit_tree, parent_trees)->Ok_0[j]) is Reconstruct,
        parent_trees.len() > 2 ==> plan_spec(commit_tree, parent_trees) == Err::<Seq<Step>, Failure>(
            Failure::UnsupportedTopology,
        ),
{
    if parent_trees.len() == 2 {
        let steps = plan_spec(commit_tree, parent_trees)->Ok_0;
        assert(steps[0] is Reconstruct);
    }
}

/// How the entries at one position of two trees fail to match.
#[derive(Clone, Copy, Debug, PartialEq, Eq, Structural)]
pub enum MismatchKind {
    /// Both trees have an entry there, and name, identifier or mode differ.
    Differs,
    /// Only the expected tree has an entry there.
    Missing,
    /// Only the rebuilt tree has an entry there.
    Unexpected,
}

/// A position at which two trees do not match.
#[derive(Clone, Copy, Debug, PartialEq, Eq, Structural)]
pub struct Mismatch {
    pub position: usize,
    pub kind: MismatchKind,
}

/// The two entries have the same name, identifier and mode.
pub open spec fn same_entry(a: TreeEntry, b: TreeEntry) -> bool {
    a.name@ == b.name@ && a.id@ == b.id@ && a.mode == b.mode
}

/// How position `i` fails to match, if it does.
pub open spec fn mismatch_at(expected: Seq<TreeEntry>, rebuilt: Seq<TreeEntry>, i: int) -> Option<MismatchKind> {
    if 0 <= i < expected.len() && i < rebuilt.len() {
        if same_entry(expected[i], rebuilt[i]) {
            None
        } else {
            Some(MismatchKind::Differs)
        }
    } else if 0 <= i < expected.len() {
        Some(MismatchKind::Missing)
    } else if 0 <= i < rebuilt.len() {
        Some(MismatchKind::Unexpected)
    } else {
        None
    }
}

/// The mismatches at the positions below `n`, in ascending order.
pub open spec fn mismatches_below(expected: Seq<TreeEntry>, rebuilt: Seq<TreeEntry>, n: nat) -> Seq<Mismatch>
    decreases n,
{
    if n == 0 {
        Seq::empty()
    } else {
        let before = mismatches_below(expected, rebuilt, (n - 1) as nat);
        match mismatch_at(expected, rebuilt, n - 1) {
            Some(kind) => before.push(Mismatch { position: (n - 1) as usize, kind }),
            None => before,
        }
    }
}

/// All positional mismatches of two trees: the entries are paired by their
/// position, not by their names.
pub open spec fn mismatches(expected: Seq<TreeEntry>, rebuilt: Seq<TreeEntry>) -> Seq<Mismatch> {
    mismatches_below(
        expected,
        rebuilt,
        if expected.len() < rebuilt.len() {
            rebuilt.len()
        } else {
            expected.len()
        },
    )
}

proof fn none_below(expected: Seq<TreeEntry>, rebuilt: Seq<TreeEntry>, n: nat)
    ensures
        mismatches_below(expected, rebuilt, n).len() == 0 <==> forall|i: int|
            0 <= i < n ==> mismatch_at(expected, rebuilt, i) is None,
    decreases n,
{
    if n > 0 {
        none_below(expected, rebuilt, (n - 1) as nat);
        if mismatches_below(expected, rebuilt, n).len() == 0 {
            assert(mismatch_at(expected, rebuilt, n - 1) is None);
        }
    }
}

/// The self-check finds nothing exactly when the two trees have the same
/// number of entries and agree at every position.
pub proof fn self_check_finds_nothing(expected: Seq<TreeEntry>, rebuilt: Seq<TreeEntry>)
    ensures
        mismatches(expected, rebuilt) == Seq::<Mismatch>::empty() <==> expected.len() == rebuilt.len() && forall|
            i: int,
        | 0 <= i < expected.len() ==> same_entry(#[trigger] expected[i], rebuilt[i]),
{
    let n = if expected.len() < rebuilt.len() { rebuilt.len() } else { expected.len() };
    none_below(expected, rebuilt, n);
    let found = mismatches(expected, rebuilt);
    assert(found.len() == 0 <==> found =~= Seq::<Mismatch>::empty());
    if found.len() == 0 {
        if expected.len() != rebuilt.len() {
            assert(mismatch_at(expected, rebuilt, n - 1) is Some);
        }
        assert forall|i: int| 0 <= i < expected.len() implies same_entry(#[trigger] expected[i], rebuilt[i]) by {
            assert(mismatch_at(expected, rebuilt, i) is None);
        }
    }
}

/// A tree has no positional mismatch with itself.
pub proof fn self_check_of_same_tree(entries: Seq<TreeEntry>)
    ensures
        mismatches(entries, entries) == Seq::<Mismatch>::empty(),
{
    self_check_finds_nothing(entries, entries);
}

/// Tells whether two entries have the same name, identifier and mode.
pub fn entries_match(a: &TreeEntry, b: &TreeEntry) -> (same: bool)
    ensures
        same == same_entry(*a, *b),
{
    bytes_equal(&a.name, &b.name) && a.id.same_as(&b.id) && a.mode == b.mode
}

/// Compares two trees entry by entry in lockstep and lists every position at
/// which they do not match. A mismatch is a diagnostic, not a failure.
pub fn self_check(expected: &Vec<TreeEntry>, rebuilt: &Vec<TreeEntry>) -> (found: Vec<Mismatch>)
    ensures
        found@ == mismatches(expected@, rebuilt@),
{
    let n = if expected.len() < rebuilt.len() { rebuilt.len() } else { expected.len() };
    let mut found: Vec<Mismatch> = Vec::new();
    let mut i: usize = 0;
    while i < n
        invariant
            i <= n,
            n == if expected.len() < rebuilt.len() { rebuilt.len() } else { expected.len() },
            found@ == mismatches_below(expected@, rebuilt@, i as nat),
        decreases n - i,
    {
        if i < expected.len() && i < rebuilt.len() {
            if !entries_match(&expected[i], &rebuilt[i]) {
                found.push(Mismatch { position: i, kind: MismatchKind::Differs });
            }
        } else if i < expected.len() {
            found.push(Mismatch { position: i, kind: MismatchKind::Missing });
        } else {
            found.push(Mismatch { position: i, kind: MismatchKind::Unexpected });
        }
        i = i + 1;
    }
    found
}

/// What has been found out about a commit so far.
#[derive(Debug, PartialEq, Eq)]
pub struct Progress {
    /// The tree that the baseline reconstructor wrote, once it has run.
    pub baseline: Option<ObjectId>,
    /// What the self-check found, once it has run.
    pub mismatches: Vec<Mismatch>,
    /// What the tree differencer found, once it has run.
    pub deltas: Vec<FileDelta>,
}

/// What a step asks of the store.
#[derive(Clone, Copy, Debug, PartialEq, Eq)]
pub enum Request {
    /// Nothing.
    Nothing,
    /// To read a tree and rebuild it as a baseline.
    Reconstruct { tree: ObjectId },
    /// To list the entries of the tree that was rebuilt and of the baseline.
    Listings { expected: ObjectId, rebuilt: ObjectId },
    /// To compare two trees, the old one first.
    Compare { old: ObjectId, new: ObjectId },
}

/// What the store answered to a request. A failure is part of the answer.
#[derive(Debug, PartialEq, Eq)]
pub enum Answer {
    /// Nothing was asked.
    Nothing,
    /// The baseline that was written.
    Rebuilt { baseline: Result<ObjectId, Failure> },
    /// The two listings.
    Listed { expected: Result<Vec<TreeEntry>, Failure>, rebuilt: Result<Vec<TreeEntry>, Failure> },
    /// The deltas between the two trees.
    Compared { deltas: Result<Vec<FileDelta>, Failure> },
}

/// What a step asks of the store, given the baseline written so far.
///
/// A difference against the baseline compares the baseline as the old side
/// with the step's new side. A step that needs a baseline where none was
/// written fails with `ObjectResolution`.
pub open spec fn request_spec(step: Step, baseline: Option<ObjectId>) -> Result<Request, Failure> {
    match step {
        Step::ReportRoot => Ok(Request::Nothing),
        Step::Reconstruct { tree } => Ok(Request::Reconstruct { tree }),
        Step::SelfCheck { tree } => match baseline {
            Some(rebuilt) => Ok(Request::Listings { expected: tree, rebuilt }),
            None => Err(Failure::ObjectResolution),
        },
        Step::Diff { old: OldSide::Tree(old), new } => Ok(Request::Compare { old, new }),
        Step::Diff { old: OldSide::Baseline, new } => match baseline {
            Some(old) => Ok(Request::Compare { old, new }),
            None => Err(Failure::ObjectResolution),
        },
    }
}

/// Works out what a step asks of the store.
pub fn request(step: &Step, baseline: &Option<ObjectId>) -> (outcome: Result<Request, Failure>)
    ensures
        outcome == request_spec(*step, *baseline),
{
    match step {
        Step::ReportRoot => Ok(Request::Nothing),
        Step::Reconstruct { tree } => Ok(Request::Reconstruct { tree: *tree }),
        Step::SelfCheck { tree } => match baseline {
            Some(rebuilt) => Ok(Request::Listings { expected: *tree, rebuilt: *rebuilt }),
            None => Err(Failure::ObjectResolution),
        },
        Step::Diff { old: OldSide::Tree(old), new } => Ok(Request::Compare { old: *old, new: *new }),
        Step::Diff { old: OldSide::Baseline, new } => match baseline {
            Some(old) => Ok(Request::Compare { old: *old, new: *new }),
            None => Err(Failure::ObjectResolution),
        },
    }
}

/// What the store's answer makes of the progress.
///
/// A failure in the answer ends the work with that failure; of two failed
/// listings the failure is that of the expected tree. A baseline is taken
/// down. Two listings are checked against one another, and whatever the
/// check finds is taken down: a mismatch is no failure. Deltas are taken
/// down. Everything else stays as it was.
pub open spec fn settled(progress: Progress, answer: Answer, outcome: Result<Progress, Failure>) -> bool {
    match answer {
        Answer::Nothing => outcome == Ok::<Progress, Failure>(progress),
        Answer::Rebuilt { baseline: Ok(id) } => outcome == Ok::<Progress, Failure>(
            Progress { baseline: Some(id), mismatches: progress.mismatches, deltas: progress.deltas },
        ),
        Answer::Rebuilt { baseline: Err(e) } => outcome == Err::<Progress, Failure>(e),
        Answer::Listed { expected: Err(e), .. } => outcome == Err::<Progress, Failure>(e),
        Answer::Listed { expected: Ok(_), rebuilt: Err(e) } => outcome == Err::<Progress, Failure>(e),
        Answer::Listed { expected: Ok(expected), rebuilt: Ok(rebuilt) } => {
            &&& outcome matches Ok(next)
            &&& next.baseline == progress.baseline
            &&& next.deltas == progress.deltas
            &&& next.mismatches@ == mismatches(expected@, rebuilt@)
        },
        Answer::Compared { deltas: Ok(found) } => outcome == Ok::<Progress, Failure>(
            Progress { baseline: progress.baseline, mismatches: progress.mismatches, deltas: found },
        ),
        Answer::Compared { deltas: Err(e) } => outcome == Err::<Progress, Failure>(e),
    }
}

/// Takes the store's answer into the progress, or ends the work with the
/// failure that the answer holds.
pub fn settle(progress: Progress, answer: Answer) -> (outcome: Result<Progress, Failure>)
    ensures
        settled(progress, answer, outcome),
{
    match answer {
        Answer::Nothing => Ok(progress),
        Answer::Rebuilt { baseline: Ok(id) } => Ok(
            Progress { baseline: Some(id), mismatches: progress.mismatches, deltas: progress.deltas },
        ),
        Answer::Rebuilt { baseline: Err(e) } => Err(e),
        Answer::Listed { expected: Err(e), .. } => Err(e),
        Answer::Listed { expected: Ok(_), rebuilt: Err(e) } => Err(e),
        Answer::Listed { expected: Ok(expected), rebuilt: Ok(rebuilt) } => {
            let found = self_check(&expected, &rebuilt);
            Ok(Progress { baseline: progress.baseline, mismatches: found, deltas: progress.deltas })
        },
        Answer::Compared { deltas: Ok(found) } => Ok(
            Progress { baseline: progress.baseline, mismatches: progress.mismatches, deltas: found },
        ),
        Answer::Compared { deltas: Err(e) } => Err(e),
    }
}

/// What is asked of the store follows the plan. A commit without parents
/// asks nothing. A commit with one parent asks once, for the comparison of
/// the parent's tree with its own. A commit with two parents asks for the
/// reconstruction of the first parent's tree, then for the listings of that
/// tree and of the baseline, then for the comparison of the baseline with
/// its own tree.
pub proof fn requests_follow_the_plan(commit_tree: ObjectId, parent_trees: Seq<ObjectId>, baseline: ObjectId)
    requires
        parent_trees.len() <= 2,
    ensures
        plan_spec(commit_tree, parent_trees) matches Ok(steps) && {
            &&& parent_trees.len() == 0 ==> steps.len() == 1 && request_spec(steps[0], None) == Ok::<
                Request,
                Failure,
            >(Request::Nothing)
            &&& parent_trees.len() == 1 ==> steps.len() == 1 && request_spec(steps[0], None) == Ok::<
                Request,
                Failure,
            >(Request::Compare { old: parent_trees[0], new: commit_tree })
            &&& parent_trees.len() == 2 ==> {
                &&& steps.len() == 3
                &&& request_spec(steps[0], None) == Ok::<Request, Failure>(
                    Request::Reconstruct { tree: parent_trees[0] },
                )
                &&& request_spec(steps[1], Some(baseline)) == Ok::<Request, Failure>(
                    Request::Listings { expected: parent_trees[0], rebuilt: baseline },
                )
                &&& request_spec(steps[2], Some(baseline)) == Ok::<Request, Failure>(
                    Request::Compare { old: baseline, new: commit_tree },
                )
            }
        },
{
}

} // verus!
