//! What an operation on a workspace asks its surroundings to do, one step at a
//! time, and which of these steps change the workspace.
use vstd::prelude::*;
use crate::json::{Json, JsonV};

verus! {

/// The marker files that keep a change out of the queue, or let it pass.
#[derive(Debug, Clone, Copy, PartialEq, Eq, Structural)]
pub enum MarkerScope {
    /// `.perma-stuck.json`
    PermaStuck,
    /// `.needs-spec-revision.json`
    NeedsRevision,
    /// Either of these two.
    EitherBlocking,
    /// `.ignore-for-queue.json`
    IgnoreForQueue,
}

/// One thing to do next. All steps act on the workspace of one repository.
#[derive(Debug)]
pub enum Step {
    /// Clone the repository where it is absent, and fetch it where it is not.
    EnsureInitialized,
    /// Refresh the tracking ref of a branch.
    Fetch { remote: String, branch: String },
    /// See where a unit of work stands.
    Locate,
    /// Cancel a pass in flight and take the busy marker, if it can be had.
    Preempt,
    /// Cancel a pass in flight and take the busy marker, whoever holds it.
    ForcePreempt,
    Checkout { branch: String },
    ResetHard { branch: String },
    /// Make the branch anew at the commit that is checked out, and switch to it.
    RecreateBranch { branch: String },
    Move { from: String, to: String },
    /// Find the commits and units that a rollback covers, seen from a ref.
    ResolvePlan { reference: String },
    /// Put the rolled-back files in place and commit them.
    PrepareTree,
    /// Find the one change of that name, or that begins so, which carries a marker.
    ResolveChange { change: String, scope: MarkerScope },
    /// See which markers a change carries.
    ReadMarkers { change: String },
    /// Write the marker that lets the queue pass a blocked change.
    WriteMarker { change: String, marked_by: String },
    /// Remove a marker, which must be there.
    RemoveMarker { change: String, marker: MarkerScope },
    /// Remove a marker if it is there.
    RemoveMarkerIfPresent { change: String, marker: MarkerScope },
    AddAll,
    Commit { message: String },
    Push { branch: String, remote: String },
    /// Work out the address of the pushed branch and the command that opens a
    /// pull request from it into the given branch.
    Link { branch: String, into: String },
    OpenPr { head: String, base: String, title: String, body: String },
    /// Update the open pull request of the branch, or open one.
    OpenOrUpdatePr { head: String, base: String, title: String },
    /// Answer the request. Nothing comes after it.
    Reply(Json),
}

/// Whether a step changes the files, the branches or the remote of a workspace.
pub open spec fn mutates(step: Step) -> bool {
    match step {
        Step::Checkout { .. } | Step::ResetHard { .. } | Step::RecreateBranch { .. } | Step::Move {
            ..
        } | Step::PrepareTree | Step::WriteMarker { .. } | Step::RemoveMarker { .. }
        | Step::RemoveMarkerIfPresent { .. } | Step::AddAll | Step::Commit { .. } | Step::Push { .. } => true,
        _ => false,
    }
}

/// Whether a step takes the busy marker away from a pass in flight.
pub open spec fn preempts(step: Step) -> bool {
    step is Preempt || step is ForcePreempt
}

pub open spec fn is_reply(step: Step, reply: JsonV) -> bool {
    step matches Step::Reply(j) && j@ == reply
}

pub open spec fn is_checkout(step: Step, name: Seq<char>) -> bool {
    step matches Step::Checkout { branch } && branch@ == name
}

pub open spec fn is_reset(step: Step, name: Seq<char>) -> bool {
    step matches Step::ResetHard { branch } && branch@ == name
}

pub open spec fn is_recreate(step: Step, name: Seq<char>) -> bool {
    step matches Step::RecreateBranch { branch } && branch@ == name
}

pub open spec fn is_move(step: Step, source: Seq<char>, target: Seq<char>) -> bool {
    step matches Step::Move { from, to } && from@ == source && to@ == target
}

pub open spec fn is_commit(step: Step, text: Seq<char>) -> bool {
    step matches Step::Commit { message } && message@ == text
}

pub open spec fn is_push(step: Step, name: Seq<char>, target: Seq<char>) -> bool {
    step matches Step::Push { branch, remote } && branch@ == name && remote@ == target
}

pub open spec fn is_link(step: Step, name: Seq<char>, target: Seq<char>) -> bool {
    step matches Step::Link { branch, into } && branch@ == name && into@ == target
}

pub open spec fn is_open_pr(
    step: Step,
    from: Seq<char>,
    into: Seq<char>,
    heading: Seq<char>,
    text: Seq<char>,
) -> bool {
    step matches Step::OpenPr { head, base, title, body } && head@ == from && base@ == into
        && title@ == heading && body@ == text
}

pub open spec fn is_update_pr(
    step: Step,
    from: Seq<char>,
    into: Seq<char>,
    heading: Seq<char>,
) -> bool {
    step matches Step::OpenOrUpdatePr { head, base, title } && head@ == from && base@ == into
        && title@ == heading
}

/// What came of taking the busy marker.
#[derive(Debug)]
pub enum Acquired {
    /// It is held now; the change whose pass was cancelled, where there was one.
    Held { preempted: Option<String> },
    /// Another holder kept it.
    Busy(String),
    /// It could not be taken for another reason.
    Internal(String),
}

/// Where a pushed branch can be seen, and how a pull request is opened from it.
#[derive(Debug)]
pub struct BranchLink {
    pub branch_url: String,
    pub suggested_command: String,
}

/// What came of a step.
#[derive(Debug)]
pub enum Event<P> {
    /// It was done, or failed with a message.
    Outcome(Result<(), String>),
    /// What `Locate` or `ResolvePlan` found.
    Facts(P),
    Marker(Acquired),
    Linked(Result<BranchLink, String>),
    Opened(Result<String, String>),
}

} // verus!
