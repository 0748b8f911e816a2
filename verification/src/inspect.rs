//! Showing a commit: the dispatcher's plan carried out against the store.

use vstd::prelude::*;
use crate::baseline::{rebuilt_from_store, reconstruct_tree};
use crate::differ::{diff_trees, gathered_from, DiffConfig};
use crate::dispatch::{
    mismatches, plan, plan_spec, request, request_spec, settle, settled, Answer, CommitInfo, Mismatch, Progress,
    Request, Step,
};
use crate::errors::Failure;
use crate::ids::ObjectId;
use crate::patch::{deltas_view, grouped, DeltaView, EventView, FileDelta};
use crate::render::{render_patch, render_spec, text_view};
use crate::resolve::list_tree;
use crate::store::{find_commit, store_failure};
use crate::tree::TreeEntry;

verus! {

/// What was found out about a commit.
#[derive(Debug, PartialEq, Eq)]
pub struct Report {
    /// The trees of the commit's parents, in the order of the parents.
    pub parent_trees: Vec<ObjectId>,
    /// What was done, in the order in which it was done.
    pub steps: Vec<Step>,
    /// The tree that the baseline reconstructor wrote, if it ran.
    pub baseline: Option<ObjectId>,
    /// The positions at which the baseline does not match the tree it was
    /// made from.
    pub mismatches: Vec<Mismatch>,
    /// The deltas that the tree differencer found.
    pub deltas: Vec<FileDelta>,
    /// The deltas rendered as patch lines.
    pub patch: Vec<Vec<u8>>,
}

/// The commit that the store's answer holds, where it carries the
/// identifier that was asked for; `ObjectResolution` where the store failed
/// or answered with a commit under another identifier.
pub open spec fn commit_spec(found: Result<CommitInfo, git2::Error>, id: ObjectId) -> Result<CommitInfo, Failure> {
    match found {
        Ok(commit) => if commit.id@ == id@ {
            Ok(commit)
        } else {
            Err(Failure::ObjectResolution)
        },
        Err(_) => Err(Failure::ObjectResolution),
    }
}

/// Takes the commit out of the store's answer for an identifier.
pub fn expect_commit(found: Result<CommitInfo, git2::Error>, id: &ObjectId) -> (outcome: Result<CommitInfo, Failure>)
    ensures
        outcome == commit_spec(found, *id),
{
    match found {
        Ok(commit) => {
            if commit.id.same_as(id) {
                Ok(commit)
            } else {
                Err(Failure::ObjectResolution)
            }
        },
        Err(_) => Err(Failure::ObjectResolution),
    }
}

/// Reads the commit that `id` names. What is handed back is that commit:
/// it carries the identifier that was asked for.
///
/// Fails with `ObjectResolution` when the identifier does not name a commit
/// that the store can read, or when the store hands back a commit under
/// another identifier.
pub fn read_commit(repo: &git2::Repository, id: &ObjectId) -> (outcome: Result<CommitInfo, Failure>)
    ensures
        outcome matches Ok(commit) ==> commit.id@ == id@,
        outcome matches Err(e) ==> e is ObjectResolution,
{
    expect_commit(find_commit(repo, id), id)
}

/// The tree of a parent as the store's answer for the parent holds it, or
/// a `Store` failure where the store failed.
pub open spec fn parent_tree_spec(found: Result<CommitInfo, git2::Error>, outcome: Result<ObjectId, Failure>) -> bool {
    match found {
        Ok(parent) => outcome == Ok::<ObjectId, Failure>(parent.tree),
        Err(_) => outcome matches Err(e) && e is Store,
    }
}

/// Takes the tree of a parent out of the store's answer for the parent.
pub fn parent_tree(found: Result<CommitInfo, git2::Error>) -> (outcome: Result<ObjectId, Failure>)
    ensures
        parent_tree_spec(found, outcome),
{
    match found {
        Ok(parent) => Ok(parent.tree),
        Err(e) => Err(store_failure(&e)),
    }
}

/// Reads the tree of every parent, in the order of the parents.
pub fn parent_trees(repo: &git2::Repository, parents: &Vec<ObjectId>) -> (outcome: Result<Vec<ObjectId>, Failure>)
    ensures
        outcome matches Ok(trees) ==> trees@.len() == parents@.len(),
        outcome matches Err(e) ==> e is Store,
        parents@.len() == 0 ==> outcome is Ok,
{
    let mut trees: Vec<ObjectId> = Vec::new();
    let mut i: usize = 0;
    while i < parents.len()
        invariant
            i <= parents.len(),
            trees@.len() == i,
        decreases parents.len() - i,
    {
        match parent_tree(find_commit(repo, &parents[i])) {
            Ok(tree) => {
                trees.push(tree);
            },
            Err(e) => {
                return Err(e);
            },
        }
        i = i + 1;
    }
    Ok(trees)
}

/// The mismatches are what the self-check finds on some two listings.
pub open spec fn checked(found: Seq<Mismatch>) -> bool {
    exists|expected: Seq<TreeEntry>, rebuilt: Seq<TreeEntry>| found == #[trigger] mismatches(expected, rebuilt)
}

/// The deltas are what some events of the store are gathered into.
pub open spec fn gathered(deltas: Seq<DeltaView>) -> bool {
    exists|events: Seq<EventView>| #[trigger] gathered_from(events, deltas)
}

/// The answer is one to the request: of its kind, and what the library's
/// calls into the store promise of it.
pub open spec fn answers(request: Request, depth_limit: usize, answer: Answer) -> bool {
    match request {
        Request::Nothing => answer is Nothing,
        Request::Reconstruct { .. } => answer matches Answer::Rebuilt { baseline } && rebuilt_from_store(
            depth_limit,
            baseline,
        ),
        Request::Listings { .. } => answer matches Answer::Listed { expected, rebuilt } && (expected matches Err(e)
            ==> e is ObjectResolution || e is Store) && (rebuilt matches Err(e) ==> e is ObjectResolution
            || e is Store),
        Request::Compare { old, new } => answer matches Answer::Compared { deltas } && (deltas matches Err(e)
            ==> e is ObjectResolution || e is Store) && (deltas matches Ok(found) ==> gathered(
            deltas_view(found@),
        ) && (old@ == new@ ==> found@.len() == 0)),
    }
}

/// Asks the store what a request asks for, and hands back its answer,
/// failures included.
pub fn ask(repo: &git2::Repository, request: &Request, config: &DiffConfig, depth_limit: usize) -> (answer: Answer)
    ensures
        answers(*request, depth_limit, answer),
{
    match request {
        Request::Nothing => Answer::Nothing,
        Request::Reconstruct { tree } => Answer::Rebuilt { baseline: reconstruct_tree(repo, tree, depth_limit) },
        Request::Listings { expected, rebuilt } => {
            let expected = list_tree(repo, expected);
            let rebuilt = list_tree(repo, rebuilt);
            Answer::Listed { expected, rebuilt }
        },
        Request::Compare { old, new } => Answer::Compared { deltas: diff_trees(repo, old, new, config) },
    }
}

/// What one step of the plan may make of the progress: what `settle` makes
/// of it with an answer to the step's request.
pub open spec fn stepped(
    step: Step,
    depth_limit: usize,
    progress: Progress,
    outcome: Result<Progress, Failure>,
) -> bool {
    match request_spec(step, progress.baseline) {
        Err(e) => outcome == Err::<Progress, Failure>(e),
        Ok(request) => exists|answer: Answer|
            answers(request, depth_limit, answer) && #[trigger] settled(progress, answer, outcome),
    }
}

/// Takes one step of the plan: works out what the step asks of the store,
/// asks, and takes the answer into the progress. A failure in the answer
/// ends the work with that failure.
pub fn run_step(
    repo: &git2::Repository,
    step: &Step,
    config: &DiffConfig,
    depth_limit: usize,
    progress: Progress,
) -> (outcome: Result<Progress, Failure>)
    ensures
        stepped(*step, depth_limit, progress, outcome),
{
    let wanted = match request(step, &progress.baseline) {
        Ok(wanted) => wanted,
        Err(e) => {
            return Err(e);
        },
    };
    let answer = ask(repo, &wanted, config, depth_limit);
    let outcome = settle(progress, answer);
    assert(settled(progress, answer, outcome));
    outcome
}

/// What holds of the progress throughout: the baseline, where there is
/// one, was rebuilt from the store; the mismatches are those of a
/// self-check; the deltas were gathered from events of the store.
pub open spec fn sound(depth_limit: usize, progress: Progress) -> bool {
    &&& progress.baseline matches Some(b) ==> rebuilt_from_store(depth_limit, Ok::<ObjectId, Failure>(b))
    &&& checked(progress.mismatches@)
    &&& gathered(deltas_view(progress.deltas@))
}

/// A step keeps the progress sound, changes only what it is about, and
/// never fails for want of a supported topology.
pub proof fn step_keeps_sound(step: Step, depth_limit: usize, progress: Progress, outcome: Result<Progress, Failure>)
    requires
        sound(depth_limit, progress),
        stepped(step, depth_limit, progress, outcome),
    ensures
        outcome matches Err(e) ==> !(e is UnsupportedTopology),
        step is ReportRoot ==> outcome == Ok::<Progress, Failure>(progress),
        outcome matches Ok(next) ==> {
            &&& sound(depth_limit, next)
            &&& step is Reconstruct ==> next.baseline is Some
            &&& !(step is Reconstruct) ==> next.baseline == progress.baseline
            &&& !(step is SelfCheck) ==> next.mismatches == progress.mismatches
            &&& !(step is Diff) ==> next.deltas == progress.deltas
        },
{
    match request_spec(step, progress.baseline) {
        Err(_) => {},
        Ok(request) => {
            let answer = choose|answer: Answer|
                answers(request, depth_limit, answer) && #[trigger] settled(progress, answer, outcome);
            match answer {
                Answer::Listed { expected: Ok(expected), rebuilt: Ok(rebuilt) } => {
                    assert(outcome->Ok_0.mismatches@ == mismatches(expected@, rebuilt@));
                },
                _ => {},
            }
        },
    }
}

/// Shows how a commit changed its tree: decides by the number of parents
/// what is to be done, and does it.
///
/// A commit without parents is reported as a root commit and nothing is
/// compared. A commit with one parent has the parent's tree compared with
/// its own. A commit with two parents has the first parent's tree rebuilt
/// as a baseline, the baseline checked against that tree position by
/// position, and the baseline compared with the commit's own tree. A commit
/// with more parents fails with `UnsupportedTopology` before the store is
/// touched. A failure of the store ends the work on the commit; a mismatch
/// that the self-check finds does not.
pub fn show_commit(repo: &git2::Repository, commit: &CommitInfo, config: &DiffConfig, depth_limit: usize) -> (outcome:
    Result<Report, Failure>)
    ensures
        commit.parents@.len() > 2 <==> outcome == Err::<Report, Failure>(Failure::UnsupportedTopology),
        commit.parents@.len() == 0 ==> outcome is Ok,
        outcome matches Ok(report) ==> {
            &&& report.parent_trees@.len() == commit.parents@.len()
            &&& Ok::<Seq<Step>, Failure>(report.steps@) == plan_spec(commit.tree, report.parent_trees@)
            &&& text_view(report.patch@) == render_spec(deltas_view(report.deltas@))
            &&& report.baseline matches Some(b) ==> rebuilt_from_store(depth_limit, Ok::<ObjectId, Failure>(b))
            &&& checked(report.mismatches@)
            &&& gathered(deltas_view(report.deltas@))
            &&& commit.parents@.len() == 2 ==> report.baseline is Some
            &&& commit.parents@.len() != 2 ==> report.baseline is None && report.mismatches@.len() == 0
            &&& commit.parents@.len() == 0 ==> report.deltas@.len() == 0 && report.patch@.len() == 0
        },
{
    if commit.parents.len() > 2 {
        return Err(Failure::UnsupportedTopology);
    }
    let trees = match parent_trees(repo, &commit.parents) {
        Ok(trees) => trees,
        Err(e) => {
            return Err(e);
        },
    };
    let steps = match plan(commit.tree, &trees) {
        Ok(steps) => steps,
        Err(e) => {
            return Err(e);
        },
    };
    let mut progress = Progress { baseline: None, mismatches: Vec::new(), deltas: Vec::new() };
    proof {
        let nothing = Seq::<TreeEntry>::empty();
        assert(progress.mismatches@ =~= mismatches(nothing, nothing));
        let no_events = Seq::<EventView>::empty();
        assert(deltas_view(progress.deltas@) =~= grouped(no_events));
        assert(gathered_from(no_events, deltas_view(progress.deltas@)));
    }
    let mut i: usize = 0;
    while i < steps.len()
        invariant
            i <= steps.len(),
            trees@.len() == commit.parents@.len(),
            commit.parents@.len() <= 2,
            Ok::<Seq<Step>, Failure>(steps@) == plan_spec(commit.tree, trees@),
            sound(depth_limit, progress),
            commit.parents@.len() == 2 && i > 0 ==> progress.baseline is Some,
            commit.parents@.len() != 2 ==> progress.baseline is None && progress.mismatches@.len() == 0,
            commit.parents@.len() == 0 ==> progress.deltas@.len() == 0,
        decreases steps.len() - i,
    {
        let ghost before = progress;
        let outcome = run_step(repo, &steps[i], config, depth_limit, progress);
        proof {
            step_keeps_sound(steps@[i as int], depth_limit, before, outcome);
        }
        progress = match outcome {
            Ok(next) => next,
            Err(e) => {
                return Err(e);
            },
        };
        i = i + 1;
    }
    let patch = render_patch(&progress.deltas);
    proof {
        if commit.parents@.len() == 0 {
            assert(deltas_view(progress.deltas@) =~= Seq::<DeltaView>::empty());
            assert(text_view(patch@).len() == 0);
        }
    }
    Ok(
        Report {
            parent_trees: trees,
            steps,
            baseline: progress.baseline,
            mismatches: progress.mismatches,
            deltas: progress.deltas,
            patch,
        },
    )
}

} // verus!
