//! Rolling the code of a repository back while the changes and issues that were
//! archived on the way become active again. A dry run only reports what would
//! be done.
use vstd::pervasive::unreached;
use vstd::prelude::*;
use crate::control_socket::request::{
    flag_or, missing_field, optional_flag, push_remote, push_remote_name, require, Fork, Found,
    RepositoryConfig,
};
use crate::control_socket::steps::{
    is_checkout, is_link, is_push, is_recreate, is_reply, is_reset, is_update_pr, mutates, preempts,
    Acquired, BranchLink, Event, Step,
};
use crate::json::{
    a_refusal_says_why, lemma_get_empty, lemma_get_with, obj, refusal, refuse, str_array, Fields,
    Json, JsonV, ObjV,
};
use crate::text::{cat2, cat4, cat5, dec, number_text, opt_text, texts};

verus! {

/// How far back to go.
#[derive(Debug)]
pub enum RollbackDepth {
    /// By this many commits.
    Count(u64),
    /// To this commit.
    Sha(String),
}

pub open spec fn both_depths() -> Seq<char> {
    "provide EITHER `count` OR `sha`, not both"@
}

pub open spec fn no_depth() -> Seq<char> {
    "missing rollback depth: provide `count` (last N commits) OR `sha` (target commit)"@
}

/// Reads how far back to go: exactly one of `count` and `sha` must be given.
pub fn parse_rollback_depth(parsed: &Json) -> (r: Result<RollbackDepth, String>)
    ensures
        match (parsed@.u64_at("count"@), parsed@.str_at("sha"@)) {
            (Some(_), Some(_)) => r matches Err(e) && e@ == both_depths(),
            (Some(n), None) => r == Ok::<RollbackDepth, String>(RollbackDepth::Count(n)),
            (None, Some(s)) => r matches Ok(RollbackDepth::Sha(t)) && t@ == s,
            (None, None) => r matches Err(e) && e@ == no_depth(),
        },
{
    let count = parsed.get_u64("count");
    let sha = parsed.get_str("sha");
    match (count, sha) {
        (Some(_), Some(_)) => Err("provide EITHER `count` OR `sha`, not both".to_owned()),
        (Some(n), None) => Ok(RollbackDepth::Count(n)),
        (None, Some(s)) => Ok(RollbackDepth::Sha(s)),
        (None, None) => Err(
            "missing rollback depth: provide `count` (last N commits) OR `sha` (target commit)".to_owned(),
        ),
    }
}

/// What a request for a rollback asks for.
#[derive(Debug)]
pub struct RollbackRequest {
    pub url: String,
    pub depth: RollbackDepth,
    pub dry_run: bool,
}

/// Whether the request gives exactly one depth.
pub open spec fn has_one_depth(v: JsonV) -> bool {
    v.u64_at("count"@) is Some != v.str_at("sha"@) is Some
}

impl RollbackRequest {
    /// Reads the request, or refuses it. A request that does not say otherwise
    /// is a dry run.
    pub fn read(parsed: &Json) -> (r: Result<RollbackRequest, Json>)
        ensures
            match r {
                Ok(q) => {
                    &&& parsed@.str_at("url"@) == Some(q.url@)
                    &&& q.dry_run == flag_or(parsed@, "dry_run"@, true)
                    &&& has_one_depth(parsed@)
                    &&& match q.depth {
                        RollbackDepth::Count(n) => parsed@.u64_at("count"@) == Some(n),
                        RollbackDepth::Sha(s) => parsed@.str_at("sha"@) == Some(s@),
                    }
                },
                Err(e) => if parsed@.str_at("url"@) is None {
                    e@ == refusal(missing_field("url"@))
                } else {
                    &&& !has_one_depth(parsed@)
                    &&& e@ == refusal(
                        if parsed@.u64_at("count"@) is Some {
                            both_depths()
                        } else {
                            no_depth()
                        },
                    )
                },
            },
    {
        let url = match require(parsed, "url") {
            Ok(s) => s,
            Err(e) => return Err(e),
        };
        let depth = match parse_rollback_depth(parsed) {
            Ok(d) => d,
            Err(e) => return Err(refuse(e.as_str())),
        };
        let dry_run = optional_flag(parsed, "dry_run", true);
        Ok(RollbackRequest { url, depth, dry_run })
    }
}

/// What a rollback covers.
#[derive(Debug)]
pub struct RollbackPlan {
    /// The text that describes the plan.
    pub preview: String,
    /// Whether no unit is archived in the range.
    pub code_only: bool,
    pub commit_count: u64,
    /// Slugs of the changes that become active again.
    pub changes: Vec<String>,
    /// Slugs of the issues that become active again.
    pub issues: Vec<String>,
    /// Whether a unit to become active is active already.
    pub has_collisions: bool,
}

/// How far an operation has come: what it is waiting for.
#[derive(Debug, Clone, Copy, PartialEq, Eq, Structural)]
pub enum RollbackStage {
    DryInitializing,
    DryFetching,
    DryResolving,
    Preempting,
    Initializing,
    CheckingOut,
    Resetting,
    Resolving,
    Recreating,
    Preparing,
    Pushing,
    Linking,
    Opening,
    Finished,
}

/// One rollback.
#[derive(Debug)]
pub struct RollbackRun {
    pub depth: RollbackDepth,
    pub repo: RepositoryConfig,
    pub fork_url: Option<String>,
    pub stage: RollbackStage,
    /// The plan, once it is known.
    pub plan: Option<RollbackPlan>,
    /// The change whose pass was cancelled for this rollback.
    pub preempted: Option<String>,
}

/// The fields about a plan that every reply carries.
pub open spec fn plan_fields(o: ObjV, plan: RollbackPlan) -> ObjV {
    o.flag("code_only"@, plan.code_only).number("commit_count"@, plan.commit_count).texts(
        "changes"@,
        texts(plan.changes@),
    ).texts("issues"@, texts(plan.issues@))
}

/// The reply to a dry run.
pub open spec fn dry_reply(url: Seq<char>, plan: RollbackPlan) -> JsonV {
    plan_fields(
        obj().flag("ok"@, true).flag("dry_run"@, true).text("url"@, url).text(
            "preview"@,
            plan.preview@,
        ),
        plan,
    ).flag("has_collisions"@, plan.has_collisions).done()
}

/// The title of the pull request.
pub open spec fn rollback_title(plan: RollbackPlan) -> Seq<char> {
    "rollback: restore code ("@ + dec(plan.commit_count as nat) + " commit(s))"@ + (
    if plan.code_only {
        " — code-only"@
    } else {
        " + unarchive "@ + dec(plan.changes@.len()) + " change(s) / "@ + dec(plan.issues@.len())
            + " issue(s)"@
    })
}

impl RollbackRun {
    pub open spec fn at(self, stage: RollbackStage) -> RollbackRun {
        RollbackRun { stage, ..self }
    }

    pub open spec fn forked(self) -> bool {
        self.fork_url is Some
    }

    pub open spec fn pr_base(self) -> Seq<char> {
        match self.repo.upstream_branch {
            Some(b) => b@,
            None => self.repo.base_branch@,
        }
    }

    /// Whether this is a dry run.
    pub open spec fn dry(self) -> bool {
        self.stage is DryInitializing || self.stage is DryFetching || self.stage is DryResolving
    }

    /// Whether the plan is known wherever the stage needs it.
    pub open spec fn wf(self) -> bool {
        match self.stage {
            RollbackStage::Recreating | RollbackStage::Preparing | RollbackStage::Pushing
            | RollbackStage::Linking | RollbackStage::Opening => self.plan is Some,
            _ => true,
        }
    }

    /// Whether the busy marker is held while the operation waits.
    pub open spec fn holds_marker(self) -> bool {
        !self.dry() && !(self.stage is Preempting) && !(self.stage is Finished)
    }

    /// Whether an event answers what the operation waits for.
    pub open spec fn expects(self, event: Event<Result<RollbackPlan, String>>) -> bool {
        match self.stage {
            RollbackStage::DryResolving | RollbackStage::Resolving => event is Facts,
            RollbackStage::Preempting => event is Marker,
            RollbackStage::Linking => event is Linked,
            RollbackStage::Opening => event is Opened,
            RollbackStage::Finished => false,
            _ => event is Outcome,
        }
    }

    /// The reply after the branch was pushed and no pull request was wanted.
    pub open spec fn pushed_reply(self, link: BranchLink) -> JsonV {
        let plan = self.plan->0;
        plan_fields(
            obj().flag("ok"@, true).flag("dry_run"@, false).text(
                "outcome"@,
                "branch_pushed_no_pr"@,
            ).text("url"@, self.repo.url@).text("branch_url"@, link.branch_url@).text(
                "suggested_command"@,
                link.suggested_command@,
            ),
            plan,
        ).text("preview"@, plan.preview@).opt("preempted_change"@, opt_text(self.preempted)).done()
    }

    /// The reply after the pull request was opened or updated.
    pub open spec fn opened_reply(self, pr_url: Seq<char>) -> JsonV {
        plan_fields(
            obj().flag("ok"@, true).flag("dry_run"@, false).text("outcome"@, "pr_opened"@).text(
                "url"@,
                self.repo.url@,
            ).text("pr_url"@, pr_url),
            self.plan->0,
        ).opt("preempted_change"@, opt_text(self.preempted)).done()
    }
}

/// The rollback fails: it ends with a refusal.
pub open spec fn gives_up(
    before: RollbackRun,
    after: RollbackRun,
    step: Step,
    why: Seq<char>,
) -> bool {
    after == before.at(RollbackStage::Finished) && is_reply(step, refusal(why))
}

/// What follows an event: the stage after it, and the step to take.
pub open spec fn rollback_follows(
    before: RollbackRun,
    event: Event<Result<RollbackPlan, String>>,
    after: RollbackRun,
    step: Step,
) -> bool {
    let repo = before.repo;
    match (before.stage, event) {
        (RollbackStage::DryInitializing, Event::Outcome(Ok(_))) => after == before.at(
            RollbackStage::DryFetching,
        ) && (step matches Step::Fetch { remote, branch } && remote@ == "origin"@ && branch@
            == repo.base_branch@),
        (RollbackStage::DryInitializing, Event::Outcome(Err(e))) => gives_up(
            before,
            after,
            step,
            "workspace init failed: "@ + e@,
        ),
        // A failed fetch leaves the tracking ref as it was: it is used as it is.
        (RollbackStage::DryFetching, Event::Outcome(_)) => after == before.at(
            RollbackStage::DryResolving,
        ) && (step matches Step::ResolvePlan { reference } && reference@ == "origin/"@
            + repo.base_branch@),
        (RollbackStage::DryResolving, Event::Facts(Ok(plan))) => after == before.at(
            RollbackStage::Finished,
        ) && is_reply(step, dry_reply(repo.url@, plan)),
        (RollbackStage::DryResolving, Event::Facts(Err(e))) => gives_up(before, after, step, e@),
        (RollbackStage::Preempting, Event::Marker(Acquired::Held { preempted })) => after == (
        RollbackRun { stage: RollbackStage::Initializing, preempted, ..before })
            && step is EnsureInitialized,
        (RollbackStage::Preempting, Event::Marker(Acquired::Busy(e))) => gives_up(
            before,
            after,
            step,
            e@,
        ),
        (RollbackStage::Preempting, Event::Marker(Acquired::Internal(e))) => gives_up(
            before,
            after,
            step,
            "rollback preempt failed: "@ + e@,
        ),
        (RollbackStage::Initializing, Event::Outcome(Ok(_))) => after == before.at(
            RollbackStage::CheckingOut,
        ) && is_checkout(step, repo.base_branch@),
        (RollbackStage::Initializing, Event::Outcome(Err(e))) => gives_up(
            before,
            after,
            step,
            "workspace init failed: "@ + e@,
        ),
        (RollbackStage::CheckingOut, Event::Outcome(Ok(_))) => after == before.at(
            RollbackStage::Resetting,
        ) && is_reset(step, repo.base_branch@),
        (RollbackStage::CheckingOut, Event::Outcome(Err(e))) => gives_up(
            before,
            after,
            step,
            "checkout base branch failed: "@ + e@,
        ),
        // A clone that is up to date has nothing to reset to: either way it goes on.
        (RollbackStage::Resetting, Event::Outcome(_)) => after == before.at(
            RollbackStage::Resolving,
        ) && (step matches Step::ResolvePlan { reference } && reference@ == repo.base_branch@),
        (RollbackStage::Resolving, Event::Facts(Ok(plan))) => after == (RollbackRun {
            stage: RollbackStage::Recreating,
            plan: Some(plan),
            ..before
        }) && is_recreate(step, repo.agent_branch@),
        (RollbackStage::Resolving, Event::Facts(Err(e))) => gives_up(before, after, step, e@),
        (RollbackStage::Recreating, Event::Outcome(Ok(_))) => after == before.at(
            RollbackStage::Preparing,
        ) && step is PrepareTree,
        (RollbackStage::Recreating, Event::Outcome(Err(e))) => gives_up(
            before,
            after,
            step,
            "recreating agent branch failed: "@ + e@,
        ),
        (RollbackStage::Preparing, Event::Outcome(Ok(_))) => after == before.at(
            RollbackStage::Pushing,
        ) && is_push(step, repo.agent_branch@, push_remote(before.forked())),
        (RollbackStage::Preparing, Event::Outcome(Err(e))) => gives_up(
            before,
            after,
            step,
            "preparing rolled-back tree: "@ + e@,
        ),
        (RollbackStage::Pushing, Event::Outcome(Ok(_))) => if repo.auto_submit_pr {
            after == before.at(RollbackStage::Opening) && is_update_pr(
                step,
                repo.agent_branch@,
                repo.base_branch@,
                rollback_title(before.plan->0),
            )
        } else {
            after == before.at(RollbackStage::Linking) && is_link(
                step,
                repo.agent_branch@,
                before.pr_base(),
            )
        },
        (RollbackStage::Pushing, Event::Outcome(Err(e))) => gives_up(
            before,
            after,
            step,
            "pushing rolled-back branch failed: "@ + e@,
        ),
        (RollbackStage::Linking, Event::Linked(Ok(link))) => after == before.at(
            RollbackStage::Finished,
        ) && is_reply(step, before.pushed_reply(link)),
        (RollbackStage::Linking, Event::Linked(Err(e))) => gives_up(
            before,
            after,
            step,
            "parsing repo url: "@ + e@,
        ),
        (RollbackStage::Opening, Event::Opened(Ok(pr_url))) => after == before.at(
            RollbackStage::Finished,
        ) && is_reply(step, before.opened_reply(pr_url@)),
        (RollbackStage::Opening, Event::Opened(Err(e))) => gives_up(
            before,
            after,
            step,
            "opening rollback PR: "@ + e@,
        ),
        _ => false,
    }
}

/// A run of a rollback: it begins with a dry run being initialized or with the
/// busy marker being taken, and each event is answered by the step that follows.
pub open spec fn is_rollback_run(
    runs: Seq<RollbackRun>,
    events: Seq<Event<Result<RollbackPlan, String>>>,
    steps: Seq<Step>,
) -> bool {
    &&& runs.len() == events.len() + 1
    &&& steps.len() == events.len()
    &&& runs[0].stage is DryInitializing || runs[0].stage is Preempting
    &&& forall|i: int|
        0 <= i < events.len() ==> rollback_follows(
            #[trigger] runs[i],
            events[i],
            runs[i + 1],
            steps[i],
        )
}

/// Whether an event says that the busy marker was taken.
pub open spec fn is_held(event: Event<Result<RollbackPlan, String>>) -> bool {
    event matches Event::Marker(Acquired::Held { .. })
}

proof fn lemma_rollback_run(
    runs: Seq<RollbackRun>,
    events: Seq<Event<Result<RollbackPlan, String>>>,
    steps: Seq<Step>,
    i: int,
)
    requires
        is_rollback_run(runs, events, steps),
        0 <= i < runs.len(),
    ensures
        runs[i].repo == runs[0].repo,
        runs[i].fork_url == runs[0].fork_url,
        runs[0].dry() ==> runs[i].dry() || runs[i].stage is Finished,
        !runs[0].dry() ==> !runs[i].dry(),
        runs[i].holds_marker() ==> exists|j: int| 0 <= j < i && is_held(#[trigger] events[j]),
    decreases i,
{
    if i > 0 {
        lemma_rollback_run(runs, events, steps, i - 1);
        assert(rollback_follows(runs[i - 1], events[i - 1], runs[i - 1 + 1], steps[i - 1]));
        if runs[i].holds_marker() {
            if runs[i - 1].holds_marker() {
                let j = choose|j: int| 0 <= j < i - 1 && is_held(#[trigger] events[j]);
                assert(0 <= j < i && is_held(events[j]));
            } else {
                assert(is_held(events[i - 1]));
            }
        }
    }
}

/// A dry run is read-only: no step of it changes the workspace or takes the
/// busy marker from a pass in flight, and none opens a pull request.
pub proof fn dry_run_is_read_only(
    runs: Seq<RollbackRun>,
    events: Seq<Event<Result<RollbackPlan, String>>>,
    steps: Seq<Step>,
    i: int,
)
    requires
        is_rollback_run(runs, events, steps),
        runs[0].dry(),
        0 <= i < steps.len(),
    ensures
        !mutates(steps[i]),
        !preempts(steps[i]),
        !(steps[i] is OpenPr),
        !(steps[i] is OpenOrUpdatePr),
{
    lemma_rollback_run(runs, events, steps, i);
    assert(rollback_follows(runs[i], events[i], runs[i + 1], steps[i]));
}

/// A rollback that is carried out changes the workspace only after it has taken
/// the busy marker, and pushes no branch but the agent branch.
pub proof fn rollback_changes_only_under_the_marker(
    runs: Seq<RollbackRun>,
    events: Seq<Event<Result<RollbackPlan, String>>>,
    steps: Seq<Step>,
    i: int,
)
    requires
        is_rollback_run(runs, events, steps),
        0 <= i < steps.len(),
    ensures
        mutates(steps[i]) ==> exists|j: int| 0 <= j <= i && is_held(#[trigger] events[j]),
        steps[i] is Push ==> is_push(
            steps[i],
            runs[0].repo.agent_branch@,
            push_remote(runs[0].forked()),
        ),
{
    lemma_rollback_run(runs, events, steps, i);
    lemma_rollback_run(runs, events, steps, i + 1);
    assert(rollback_follows(runs[i], events[i], runs[i + 1], steps[i]));
}

impl RollbackStage {
    /// How many events lead to the stage; it is never reached otherwise.
    spec fn reached_after(self) -> int {
        match self {
            RollbackStage::DryInitializing | RollbackStage::Preempting => 0,
            RollbackStage::DryFetching | RollbackStage::Initializing => 1,
            RollbackStage::DryResolving | RollbackStage::CheckingOut => 2,
            RollbackStage::Resetting => 3,
            RollbackStage::Resolving => 4,
            RollbackStage::Recreating => 5,
            RollbackStage::Preparing => 6,
            RollbackStage::Pushing => 7,
            RollbackStage::Linking | RollbackStage::Opening => 8,
            RollbackStage::Finished => 0,
        }
    }
}

/// What one event changes: the stage goes on by one or to the end, and what the run
/// is about stays.
proof fn lemma_one_step(
    before: RollbackRun,
    event: Event<Result<RollbackPlan, String>>,
    after: RollbackRun,
    step: Step,
)
    requires
        rollback_follows(before, event, after, step),
    ensures
        before.stage !is Finished,
        after.stage !is Finished ==> after.stage.reached_after() == before.stage.reached_after()
            + 1,
        after.stage is Finished <==> step is Reply,
        after.stage is Linking ==> !before.repo.auto_submit_pr,
        after.stage is Opening ==> before.repo.auto_submit_pr,
        before.stage is Resolving && after.stage !is Finished ==> (event matches Event::Facts(
            Ok(plan),
        ) && after.plan == Some(plan)),
        !(before.stage is Resolving) || after.stage is Finished ==> after.plan == before.plan,
        before.stage is Preempting && after.stage !is Finished ==> (event matches Event::Marker(
            Acquired::Held { preempted },
        ) && after.preempted == preempted),
        !(before.stage is Preempting) || after.stage is Finished ==> after.preempted
            == before.preempted,
        event matches Event::Outcome(Err(_)) && after.stage !is Finished ==> before.stage
            is DryFetching || before.stage is Resetting,
{
}

proof fn lemma_rollback_at(
    runs: Seq<RollbackRun>,
    events: Seq<Event<Result<RollbackPlan, String>>>,
    steps: Seq<Step>,
    i: int,
)
    requires
        is_rollback_run(runs, events, steps),
        0 <= i < steps.len(),
    ensures
        runs[i].stage !is Finished,
        runs[i].stage.reached_after() == i,
        runs[i].repo == runs[0].repo,
        runs[i].fork_url == runs[0].fork_url,
        runs[0].dry() <==> runs[i].dry(),
        rollback_follows(runs[i], events[i], runs[i + 1], steps[i]),
        steps[i] is Reply ==> i + 1 == steps.len(),
        !runs[0].dry() && i >= 1 ==> (events[0] matches Event::Marker(
            Acquired::Held { preempted },
        ) && runs[i].preempted == preempted),
        !runs[0].dry() && i >= 5 ==> (events[4] matches Event::Facts(Ok(plan)) && runs[i].plan
            == Some(plan)),
        i == 8 ==> (runs[i].stage is Opening <==> runs[0].repo.auto_submit_pr),
        0 < i && i != 4 && !runs[0].dry() ==> !(events[i - 1] matches Event::Outcome(Err(_))),
    decreases i,
{
    lemma_rollback_run(runs, events, steps, i);
    let at_i = runs[i];
    lemma_one_step(runs[i], events[i], runs[i + 1], steps[i]);
    if i + 1 < steps.len() {
        let next = runs[i + 1];
        lemma_one_step(runs[i + 1], events[i + 1], runs[i + 1 + 1], steps[i + 1]);
    }
    if i > 0 {
        lemma_rollback_at(runs, events, steps, i - 1);
        let prev = runs[i - 1];
        lemma_one_step(runs[i - 1], events[i - 1], runs[i - 1 + 1], steps[i - 1]);
    }
}

/// The order in which a rollback is carried out. The base branch is checked out and
/// brought up to date, the plan is resolved on it, the agent branch is made anew, the
/// rolled-back tree is prepared there, and that branch is pushed; then a pull request
/// is opened where that is wanted, and otherwise the branch is linked. Nothing of it
/// is left out, whatever the plan holds.
pub proof fn a_rollback_leaves_nothing_out(
    runs: Seq<RollbackRun>,
    events: Seq<Event<Result<RollbackPlan, String>>>,
    steps: Seq<Step>,
    i: int,
)
    requires
        is_rollback_run(runs, events, steps),
        runs[0].stage is Preempting,
        0 <= i < steps.len(),
    ensures
        i <= 8,
        !(steps[i] is Reply) ==> {
            let repo = runs[0].repo;
            &&& i < 8
            &&& i == 0 ==> steps[i] is EnsureInitialized
            &&& i == 1 ==> (steps[i] matches Step::Checkout { branch } && branch@
                == repo.base_branch@)
            &&& i == 2 ==> (steps[i] matches Step::ResetHard { branch } && branch@
                == repo.base_branch@)
            &&& i == 3 ==> (steps[i] matches Step::ResolvePlan { reference } && reference@
                == repo.base_branch@)
            &&& i == 4 ==> (steps[i] matches Step::RecreateBranch { branch } && branch@
                == repo.agent_branch@)
            &&& i == 5 ==> steps[i] is PrepareTree
            &&& i == 6 ==> (steps[i] matches Step::Push { branch, remote } && branch@
                == repo.agent_branch@ && remote@ == if runs[0].fork_url is Some {
                "fork"@
            } else {
                "origin"@
            })
            &&& i == 7 && repo.auto_submit_pr ==> (steps[i] matches Step::OpenOrUpdatePr {
                head,
                base,
                title,
            } && head@ == repo.agent_branch@ && base@ == repo.base_branch@)
            &&& i == 7 && !repo.auto_submit_pr ==> (steps[i] matches Step::Link { branch, into }
                && branch@ == repo.agent_branch@ && into@ == (match repo.upstream_branch {
                Some(b) => b@,
                None => repo.base_branch@,
            }))
        },
{
    lemma_rollback_at(runs, events, steps, i);
}

/// The names of the fields tell them apart.
proof fn lemma_field_names()
    ensures
        "ok"@.len() == 2,
        "url"@.len() == 3,
        "issues"@.len() == 6,
        "pr_url"@.len() == 6,
        "issues"@ != "pr_url"@,
        "dry_run"@.len() == 7,
        "preview"@.len() == 7,
        "changes"@.len() == 7,
        "outcome"@.len() == 7,
        "dry_run"@ != "preview"@,
        "dry_run"@ != "changes"@,
        "dry_run"@ != "outcome"@,
        "preview"@ != "changes"@,
        "preview"@ != "outcome"@,
        "changes"@ != "outcome"@,
        "code_only"@.len() == 9,
        "branch_url"@.len() == 10,
        "commit_count"@.len() == 12,
        "has_collisions"@.len() == 14,
        "preempted_change"@.len() == 16,
        "suggested_command"@.len() == 17,
{
    reveal_strlit("ok");
    reveal_strlit("dry_run");
    reveal_strlit("url");
    reveal_strlit("preview");
    reveal_strlit("code_only");
    reveal_strlit("commit_count");
    reveal_strlit("changes");
    reveal_strlit("issues");
    reveal_strlit("has_collisions");
    reveal_strlit("outcome");
    reveal_strlit("branch_url");
    reveal_strlit("suggested_command");
    reveal_strlit("preempted_change");
    reveal_strlit("pr_url");
    assert("issues"@[0] != "pr_url"@[0]);
    assert("dry_run"@[0] != "preview"@[0]);
    assert("dry_run"@[0] != "changes"@[0]);
    assert("dry_run"@[0] != "outcome"@[0]);
    assert("preview"@[0] != "changes"@[0]);
    assert("preview"@[0] != "outcome"@[0]);
    assert("changes"@[0] != "outcome"@[0]);
}

/// What is pushed was prepared: a rollback pushes, and reports that it was carried
/// out, only after the rolled-back tree was prepared, and well, on the agent branch
/// that was made anew for it.
pub proof fn what_is_pushed_was_prepared(
    runs: Seq<RollbackRun>,
    events: Seq<Event<Result<RollbackPlan, String>>>,
    steps: Seq<Step>,
    i: int,
)
    requires
        is_rollback_run(runs, events, steps),
        0 <= i < steps.len(),
        steps[i] is Push || steps[i] is OpenOrUpdatePr || steps[i] is Link || (
        steps[i] matches Step::Reply(reply) && reply@.bool_at("ok"@) == Some(true)
            && reply@.bool_at("dry_run"@) == Some(false)),
    ensures
        exists|j: int, k: int|
            0 <= j < k < i && (#[trigger] steps[j] matches Step::RecreateBranch { branch }
                && branch@ == runs[0].repo.agent_branch@) && (events[j + 1] matches Event::Outcome(
                Ok(_),
            )) && #[trigger] steps[k] is PrepareTree && (events[k + 1] matches Event::Outcome(
                Ok(_),
            )),
        steps[i] is Reply ==> exists|j: int|
            0 <= j < i && #[trigger] steps[j] is Push && (events[j + 1] matches Event::Outcome(
                Ok(_),
            )),
        forall|j: int| 0 <= j < i ==> !(#[trigger] steps[j] is Reply),
{
    broadcast use {lemma_get_with, lemma_get_empty};

    lemma_field_names();
    lemma_rollback_at(runs, events, steps, i);
    if let Event::Facts(Ok(plan)) = events[i] {
        lemma_dry_reply(runs[0].repo.url@, plan);
    }
    assert forall|why: Seq<char>| (#[trigger] refusal(why)).bool_at("ok"@) == Some(false) by {
        a_refusal_says_why(why);
    }
    assert(!runs[0].dry());
    assert(i >= 6);
    assert forall|j: int| 0 <= j < i implies !(#[trigger] steps[j] is Reply) by {
        lemma_rollback_at(runs, events, steps, j);
    }
    a_rollback_leaves_nothing_out(runs, events, steps, 4);
    a_rollback_leaves_nothing_out(runs, events, steps, 5);
    lemma_rollback_at(runs, events, steps, 5);
    lemma_rollback_at(runs, events, steps, 6);
    assert(steps[4] is RecreateBranch && steps[5] is PrepareTree);
    if steps[i] is Reply {
        assert(i == 8);
        a_rollback_leaves_nothing_out(runs, events, steps, 6);
        lemma_rollback_at(runs, events, steps, 7);
        assert(steps[6] is Push);
    }
}

/// What a dry run is told: what the plan covers, as it was resolved, and nothing of
/// what was carried out.
proof fn lemma_dry_reply(url: Seq<char>, plan: RollbackPlan)
    ensures
        ({
            let r = dry_reply(url, plan);
            &&& r.bool_at("ok"@) == Some(true)
            &&& r.bool_at("dry_run"@) == Some(true)
            &&& r.str_at("url"@) == Some(url)
            &&& r.str_at("preview"@) == Some(plan.preview@)
            &&& r.bool_at("code_only"@) == Some(plan.code_only)
            &&& r.u64_at("commit_count"@) == Some(plan.commit_count)
            &&& r.get("changes"@) == Some(str_array(texts(plan.changes@)))
            &&& r.get("issues"@) == Some(str_array(texts(plan.issues@)))
            &&& r.bool_at("has_collisions"@) == Some(plan.has_collisions)
            &&& r.get("outcome"@) is None
        }),
{
    broadcast use {lemma_get_with, lemma_get_empty};

    lemma_field_names();
}

/// Whether a reply tells of a rollback that was carried out with this plan.
proof fn lemma_carried_out(run: RollbackRun, link: BranchLink, pr_url: Seq<char>)
    ensures
        forall|r: JsonV|
            r == run.pushed_reply(link) || r == run.opened_reply(pr_url) ==> {
                let plan = run.plan->0;
                &&& #[trigger] r.bool_at("ok"@) == Some(true)
                &&& r.bool_at("dry_run"@) == Some(false)
                &&& r.str_at("url"@) == Some(run.repo.url@)
                &&& r.bool_at("code_only"@) == Some(plan.code_only)
                &&& r.u64_at("commit_count"@) == Some(plan.commit_count)
                &&& r.get("changes"@) == Some(str_array(texts(plan.changes@)))
                &&& r.get("issues"@) == Some(str_array(texts(plan.issues@)))
                &&& r.get("preempted_change"@) == Some(
                    match run.preempted {
                        Some(change) => JsonV::Str(change@),
                        None => JsonV::Null,
                    },
                )
            },
        run.pushed_reply(link).str_at("outcome"@) == Some("branch_pushed_no_pr"@),
        run.pushed_reply(link).str_at("branch_url"@) == Some(link.branch_url@),
        run.pushed_reply(link).str_at("suggested_command"@) == Some(link.suggested_command@),
        run.pushed_reply(link).str_at("preview"@) == Some(run.plan->0.preview@),
        run.opened_reply(pr_url).str_at("outcome"@) == Some("pr_opened"@),
        run.opened_reply(pr_url).str_at("pr_url"@) == Some(pr_url),
{
    broadcast use {lemma_get_with, lemma_get_empty};

    lemma_field_names();
    let pushed = run.pushed_reply(link);
    let opened = run.opened_reply(pr_url);
    assert(pushed.bool_at("ok"@) == Some(true));
    assert(opened.bool_at("ok"@) == Some(true));
}

/// What is reported of a rollback: the plan that was resolved on the base branch, the
/// pass that was cancelled for it, and the pull request exactly where one was wanted.
pub proof fn a_rollback_reports_what_it_did(
    runs: Seq<RollbackRun>,
    events: Seq<Event<Result<RollbackPlan, String>>>,
    steps: Seq<Step>,
    i: int,
    reply: JsonV,
)
    requires
        is_rollback_run(runs, events, steps),
        runs[0].stage is Preempting,
        0 <= i < steps.len(),
        steps[i] matches Step::Reply(j) && j@ == reply,
        reply.bool_at("ok"@) == Some(true),
    ensures
        i == 8,
        reply.bool_at("dry_run"@) == Some(false),
        reply.str_at("url"@) == Some(runs[0].repo.url@),
        events[4] matches Event::Facts(Ok(plan)) && {
            &&& reply.bool_at("code_only"@) == Some(plan.code_only)
            &&& reply.u64_at("commit_count"@) == Some(plan.commit_count)
            &&& reply.get("changes"@) == Some(str_array(texts(plan.changes@)))
            &&& reply.get("issues"@) == Some(str_array(texts(plan.issues@)))
            &&& !runs[0].repo.auto_submit_pr ==> reply.str_at("preview"@) == Some(plan.preview@)
        },
        events[0] matches Event::Marker(Acquired::Held { preempted }) && reply.get(
            "preempted_change"@,
        ) == Some(
            match preempted {
                Some(change) => JsonV::Str(change@),
                None => JsonV::Null,
            },
        ),
        if runs[0].repo.auto_submit_pr {
            &&& events[8] matches Event::Opened(Ok(pr_url))
            &&& reply.str_at("outcome"@) == Some("pr_opened"@)
            &&& reply.str_at("pr_url"@) == Some(pr_url@)
        } else {
            &&& events[8] matches Event::Linked(Ok(link))
            &&& reply.str_at("outcome"@) == Some("branch_pushed_no_pr"@)
            &&& reply.str_at("branch_url"@) == Some(link.branch_url@)
            &&& reply.str_at("suggested_command"@) == Some(link.suggested_command@)
        },
{
    lemma_rollback_at(runs, events, steps, i);
    assert forall|why: Seq<char>| (#[trigger] refusal(why)).bool_at("ok"@) == Some(false) by {
        a_refusal_says_why(why);
    }
    match events[i] {
        Event::Linked(Ok(link)) => {
            lemma_carried_out(runs[i], link, Seq::empty());
        },
        Event::Opened(Ok(pr_url)) => {
            lemma_carried_out(
                runs[i],
                BranchLink { branch_url: pr_url, suggested_command: pr_url },
                pr_url@,
            );
        },
        _ => {},
    }
    assert(reply.bool_at("ok"@) == Some(true));
}

/// The title of the pull request tells how many commits are taken back, and how many
/// changes and issues become active again with them.
pub proof fn the_title_counts_what_is_rolled_back(
    runs: Seq<RollbackRun>,
    events: Seq<Event<Result<RollbackPlan, String>>>,
    steps: Seq<Step>,
    i: int,
)
    requires
        is_rollback_run(runs, events, steps),
        0 <= i < steps.len(),
        steps[i] is OpenOrUpdatePr,
    ensures
        i == 7,
        events[4] matches Event::Facts(Ok(plan)) && (steps[i] matches Step::OpenOrUpdatePr {
            head,
            base,
            title,
        } && title@ == "rollback: restore code ("@ + dec(plan.commit_count as nat)
            + " commit(s))"@ + if plan.code_only {
            " — code-only"@
        } else {
            " + unarchive "@ + dec(plan.changes@.len()) + " change(s) / "@ + dec(
                plan.issues@.len(),
            ) + " issue(s)"@
        }),
{
    lemma_rollback_at(runs, events, steps, i);
}

/// What a dry run does: it looks at the base branch as the remote has it, and tells
/// what a rollback would cover.
pub proof fn a_dry_run_tells_the_plan(
    runs: Seq<RollbackRun>,
    events: Seq<Event<Result<RollbackPlan, String>>>,
    steps: Seq<Step>,
    i: int,
)
    requires
        is_rollback_run(runs, events, steps),
        runs[0].stage is DryInitializing,
        0 <= i < steps.len(),
    ensures
        i <= 2,
        !(steps[i] is Reply) ==> {
            let base = runs[0].repo.base_branch@;
            &&& i < 2
            &&& i == 0 ==> (steps[i] matches Step::Fetch { remote, branch } && remote@
                == "origin"@ && branch@ == base)
            &&& i == 1 ==> (steps[i] matches Step::ResolvePlan { reference } && reference@
                == "origin/"@ + base)
        },
        steps[i] matches Step::Reply(reply) && reply@.bool_at("ok"@) == Some(true) ==> i == 2
            && (events[2] matches Event::Facts(Ok(plan)) && {
            let r = steps[i]->Reply_0@;
            &&& r.bool_at("dry_run"@) == Some(true)
            &&& r.str_at("url"@) == Some(runs[0].repo.url@)
            &&& r.str_at("preview"@) == Some(plan.preview@)
            &&& r.bool_at("code_only"@) == Some(plan.code_only)
            &&& r.u64_at("commit_count"@) == Some(plan.commit_count)
            &&& r.get("changes"@) == Some(str_array(texts(plan.changes@)))
            &&& r.get("issues"@) == Some(str_array(texts(plan.issues@)))
            &&& r.bool_at("has_collisions"@) == Some(plan.has_collisions)
        }),
{
    lemma_rollback_at(runs, events, steps, i);
    assert forall|why: Seq<char>| (#[trigger] refusal(why)).bool_at("ok"@) == Some(false) by {
        a_refusal_says_why(why);
    }
    if let Event::Facts(Ok(plan)) = events[i] {
        lemma_dry_reply(runs[0].repo.url@, plan);
    }
}

/// A rollback is refused exactly where a step of it failed, at once, and is told of
/// that failure. Two failures are no reason to refuse it: the tracking ref that a dry
/// run refreshes and the reset of the base branch are used as they are.
pub proof fn a_failed_rollback_says_what_failed(
    runs: Seq<RollbackRun>,
    events: Seq<Event<Result<RollbackPlan, String>>>,
    steps: Seq<Step>,
    i: int,
)
    requires
        is_rollback_run(runs, events, steps),
        0 <= i < steps.len(),
    ensures
        ({
            let dry = runs[0].stage is DryInitializing;
            let failure = match events[i] {
                Event::Outcome(Err(e)) => if i == (if dry {
                    1int
                } else {
                    3
                }) {
                    None
                } else if i == (if dry {
                    0int
                } else {
                    1
                }) {
                    Some("workspace init failed: "@ + e@)
                } else if i == 2 {
                    Some("checkout base branch failed: "@ + e@)
                } else if i == 5 {
                    Some("recreating agent branch failed: "@ + e@)
                } else if i == 6 {
                    Some("preparing rolled-back tree: "@ + e@)
                } else {
                    Some("pushing rolled-back branch failed: "@ + e@)
                },
                Event::Facts(Err(e)) => Some(e@),
                Event::Marker(Acquired::Busy(e)) => Some(e@),
                Event::Marker(Acquired::Internal(e)) => Some("rollback preempt failed: "@ + e@),
                Event::Linked(Err(e)) => Some("parsing repo url: "@ + e@),
                Event::Opened(Err(e)) => Some("opening rollback PR: "@ + e@),
                _ => None,
            };
            &&& failure matches Some(why) ==> (steps[i] matches Step::Reply(reply)
                && reply@.bool_at("ok"@) == Some(false) && reply@.str_at("error"@) == Some(why))
            &&& failure is None && steps[i] is Reply ==> (steps[i] matches Step::Reply(reply)
                && reply@.bool_at("ok"@) == Some(true)) && i == (if dry {
                2int
            } else {
                8
            })
            &&& steps[i] is Reply ==> i + 1 == steps.len()
        }),
{
    lemma_rollback_at(runs, events, steps, i);
    assert forall|why: Seq<char>|
        (#[trigger] refusal(why)).bool_at("ok"@) == Some(false) && refusal(why).str_at("error"@)
            == Some(why) by {
        a_refusal_says_why(why);
    }
    match events[i] {
        Event::Linked(Ok(link)) => {
            lemma_carried_out(runs[i], link, Seq::empty());
            assert(runs[i].pushed_reply(link).bool_at("ok"@) == Some(true));
        },
        Event::Opened(Ok(pr_url)) => {
            lemma_carried_out(
                runs[i],
                BranchLink { branch_url: pr_url, suggested_command: pr_url },
                pr_url@,
            );
            assert(runs[i].opened_reply(pr_url@).bool_at("ok"@) == Some(true));
        },
        Event::Facts(Ok(plan)) => {
            lemma_dry_reply(runs[0].repo.url@, plan);
        },
        _ => {},
    }
}

/// How a rollback begins: a request that says `dry_run: false` takes the busy marker
/// whoever holds it, and any other only looks; both are about the repository that was
/// found, and go to its fork where there is one.
pub proof fn a_rollback_begins_as_asked(
    parsed: Json,
    request: RollbackRequest,
    repo: RepositoryConfig,
    fork: Fork,
    run: RollbackRun,
    step: Step,
)
    requires
        call_ensures(RollbackRequest::read, (&parsed,), Ok::<RollbackRequest, Json>(request)),
        call_ensures(
            RollbackRun::start,
            (request, Ok::<RepositoryConfig, String>(repo), fork),
            Ok::<(RollbackRun, Step), Json>((run, step)),
        ),
    ensures
        parsed@.str_at("url"@) == Some(request.url@),
        parsed@.bool_at("dry_run"@) == Some(false) ==> run.stage is Preempting
            && step is ForcePreempt,
        parsed@.bool_at("dry_run"@) != Some(false) ==> run.stage is DryInitializing
            && step is EnsureInitialized,
        run.repo == repo,
        fork matches Fork::Url(u) ==> run.fork_url == Some(u),
        fork is Unset ==> run.fork_url is None,
        fork !is Invalid,
        match run.depth {
            RollbackDepth::Count(n) => parsed@.u64_at("count"@) == Some(n) && parsed@.str_at(
                "sha"@,
            ) is None,
            RollbackDepth::Sha(s) => parsed@.str_at("sha"@) == Some(s@) && parsed@.u64_at(
                "count"@,
            ) is None,
        },
{
}

/// The fields about a plan that every reply carries.
fn put_plan(fields: Fields, plan: &RollbackPlan) -> (r: Fields)
    ensures
        r@ == plan_fields(fields@, *plan),
{
    fields.flag("code_only", plan.code_only).number("commit_count", plan.commit_count).texts(
        "changes",
        &plan.changes,
    ).texts("issues", &plan.issues)
}

fn title_of(plan: &RollbackPlan) -> (r: String)
    ensures
        r@ == rollback_title(*plan),
{
    let count = number_text(plan.commit_count);
    if plan.code_only {
        cat4("rollback: restore code (", count.as_str(), " commit(s))", " — code-only")
    } else {
        let changes = number_text(plan.changes.len() as u64);
        let issues = number_text(plan.issues.len() as u64);
        let units = cat5(
            " + unarchive ",
            changes.as_str(),
            " change(s) / ",
            issues.as_str(),
            " issue(s)",
        );
        cat4("rollback: restore code (", count.as_str(), " commit(s))", units.as_str())
    }
}

impl RollbackRun {
    /// Begins a rollback and says what to do first: a dry run looks at the
    /// workspace as it is, any other takes the busy marker. It is refused where
    /// the repository is unknown or the address of its fork cannot be derived.
    pub fn start(request: RollbackRequest, found: Found, fork: Fork) -> (r: Result<
        (RollbackRun, Step),
        Json,
    >)
        ensures
            match found {
                Err(e) => r matches Err(j) && j@ == refusal(e@),
                Ok(repo) => match fork {
                    Fork::Invalid(e) => r matches Err(j) && j@ == refusal(
                        "deriving fork url: "@ + e@,
                    ),
                    _ => {
                        &&& r matches Ok((run, step))
                        &&& run.depth == request.depth
                        &&& run.repo == repo
                        &&& run.plan is None
                        &&& run.preempted is None
                        &&& run.fork_url == fork.url()
                        &&& if request.dry_run {
                            run.stage is DryInitializing && step is EnsureInitialized
                        } else {
                            run.stage is Preempting && step is ForcePreempt
                        }
                    },
                },
            },
    {
        let repo = match found {
            Ok(repo) => repo,
            Err(e) => return Err(refuse(e.as_str())),
        };
        let fork_url = match fork {
            Fork::Unset => None,
            Fork::Url(u) => Some(u),
            Fork::Invalid(e) => return Err(refuse(cat2("deriving fork url: ", e.as_str()).as_str())),
        };
        let (stage, step) = if request.dry_run {
            (RollbackStage::DryInitializing, Step::EnsureInitialized)
        } else {
            (RollbackStage::Preempting, Step::ForcePreempt)
        };
        let run = RollbackRun {
            depth: request.depth,
            repo,
            fork_url,
            stage,
            plan: None,
            preempted: None,
        };
        Ok((run, step))
    }

    fn fail(&mut self, why: String) -> (step: Step)
        ensures
            gives_up(*old(self), *final(self), step, why@),
    {
        self.stage = RollbackStage::Finished;
        Step::Reply(refuse(why.as_str()))
    }

    fn after_push(&mut self) -> (step: Step)
        requires
            old(self).stage is Pushing,
            old(self).plan is Some,
        ensures
            rollback_follows(*old(self), Event::Outcome(Ok(())), *final(self), step),
    {
        if self.repo.auto_submit_pr {
            self.stage = RollbackStage::Opening;
            let title = match &self.plan {
                Some(plan) => title_of(plan),
                None => unreached(),
            };
            Step::OpenOrUpdatePr {
                head: self.repo.agent_branch.clone(),
                base: self.repo.base_branch.clone(),
                title,
            }
        } else {
            self.stage = RollbackStage::Linking;
            let into = match &self.repo.upstream_branch {
                Some(b) => b.clone(),
                None => self.repo.base_branch.clone(),
            };
            Step::Link { branch: self.repo.agent_branch.clone(), into }
        }
    }

    fn reply_pushed(&self, link: &BranchLink) -> (r: Json)
        requires
            self.plan is Some,
        ensures
            r@ == self.pushed_reply(*link),
    {
        let plan = match &self.plan {
            Some(plan) => plan,
            None => unreached(),
        };
        let head = Fields::new().flag("ok", true).flag("dry_run", false).text(
            "outcome",
            "branch_pushed_no_pr",
        ).text("url", self.repo.url.as_str()).text("branch_url", link.branch_url.as_str()).text(
            "suggested_command",
            link.suggested_command.as_str(),
        );
        put_plan(head, plan).text("preview", plan.preview.as_str()).opt(
            "preempted_change",
            &self.preempted,
        ).finish()
    }

    fn reply_opened(&self, pr_url: &str) -> (r: Json)
        requires
            self.plan is Some,
        ensures
            r@ == self.opened_reply(pr_url@),
    {
        let plan = match &self.plan {
            Some(plan) => plan,
            None => unreached(),
        };
        let head = Fields::new().flag("ok", true).flag("dry_run", false).text(
            "outcome",
            "pr_opened",
        ).text("url", self.repo.url.as_str()).text("pr_url", pr_url);
        put_plan(head, plan).opt("preempted_change", &self.preempted).finish()
    }

    /// Takes what came of the last step and says what to do next.
    pub fn advance(&mut self, event: Event<Result<RollbackPlan, String>>) -> (step: Step)
        requires
            old(self).wf(),
            old(self).expects(event),
        ensures
            final(self).wf(),
            rollback_follows(*old(self), event, *final(self), step),
    {
        match (self.stage, event) {
            (RollbackStage::DryInitializing, Event::Outcome(Ok(_))) => {
                self.stage = RollbackStage::DryFetching;
                Step::Fetch {
                    remote: "origin".to_owned(),
                    branch: self.repo.base_branch.clone(),
                }
            },
            (RollbackStage::DryInitializing, Event::Outcome(Err(e))) => {
                self.fail(cat2("workspace init failed: ", e.as_str()))
            },
            (RollbackStage::DryFetching, Event::Outcome(_)) => {
                self.stage = RollbackStage::DryResolving;
                Step::ResolvePlan { reference: cat2("origin/", self.repo.base_branch.as_str()) }
            },
            (RollbackStage::DryResolving, Event::Facts(Ok(plan))) => {
                let head = Fields::new().flag("ok", true).flag("dry_run", true).text(
                    "url",
                    self.repo.url.as_str(),
                ).text("preview", plan.preview.as_str());
                let reply = put_plan(head, &plan).flag(
                    "has_collisions",
                    plan.has_collisions,
                ).finish();
                self.stage = RollbackStage::Finished;
                Step::Reply(reply)
            },
            (RollbackStage::DryResolving, Event::Facts(Err(e))) => self.fail(e),
            (RollbackStage::Preempting, Event::Marker(Acquired::Held { preempted })) => {
                self.stage = RollbackStage::Initializing;
                self.preempted = preempted;
                Step::EnsureInitialized
            },
            (RollbackStage::Preempting, Event::Marker(Acquired::Busy(e))) => self.fail(e),
            (RollbackStage::Preempting, Event::Marker(Acquired::Internal(e))) => {
                self.fail(cat2("rollback preempt failed: ", e.as_str()))
            },
            (RollbackStage::Initializing, Event::Outcome(Ok(_))) => {
                self.stage = RollbackStage::CheckingOut;
                Step::Checkout { branch: self.repo.base_branch.clone() }
            },
            (RollbackStage::Initializing, Event::Outcome(Err(e))) => {
                self.fail(cat2("workspace init failed: ", e.as_str()))
            },
            (RollbackStage::CheckingOut, Event::Outcome(Ok(_))) => {
                self.stage = RollbackStage::Resetting;
                Step::ResetHard { branch: self.repo.base_branch.clone() }
            },
            (RollbackStage::CheckingOut, Event::Outcome(Err(e))) => {
                self.fail(cat2("checkout base branch failed: ", e.as_str()))
            },
            (RollbackStage::Resetting, Event::Outcome(_)) => {
                self.stage = RollbackStage::Resolving;
                Step::ResolvePlan { reference: self.repo.base_branch.clone() }
            },
            (RollbackStage::Resolving, Event::Facts(Ok(plan))) => {
                self.stage = RollbackStage::Recreating;
                self.plan = Some(plan);
                Step::RecreateBranch { branch: self.repo.agent_branch.clone() }
            },
            (RollbackStage::Resolving, Event::Facts(Err(e))) => self.fail(e),
            (RollbackStage::Recreating, Event::Outcome(Ok(_))) => {
                self.stage = RollbackStage::Preparing;
                Step::PrepareTree
            },
            (RollbackStage::Recreating, Event::Outcome(Err(e))) => {
                self.fail(cat2("recreating agent branch failed: ", e.as_str()))
            },
            (RollbackStage::Preparing, Event::Outcome(Ok(_))) => {
                self.stage = RollbackStage::Pushing;
                Step::Push {
                    branch: self.repo.agent_branch.clone(),
                    remote: push_remote_name(self.fork_url.is_some()),
                }
            },
            (RollbackStage::Preparing, Event::Outcome(Err(e))) => {
                self.fail(cat2("preparing rolled-back tree: ", e.as_str()))
            },
            (RollbackStage::Pushing, Event::Outcome(Ok(_))) => self.after_push(),
            (RollbackStage::Pushing, Event::Outcome(Err(e))) => {
                self.fail(cat2("pushing rolled-back branch failed: ", e.as_str()))
            },
            (RollbackStage::Linking, Event::Linked(Ok(link))) => {
                let reply = self.reply_pushed(&link);
                self.stage = RollbackStage::Finished;
                Step::Reply(reply)
            },
            (RollbackStage::Linking, Event::Linked(Err(e))) => {
                self.fail(cat2("parsing repo url: ", e.as_str()))
            },
            (RollbackStage::Opening, Event::Opened(Ok(pr_url))) => {
                let reply = self.reply_opened(pr_url.as_str());
                self.stage = RollbackStage::Finished;
                Step::Reply(reply)
            },
            (RollbackStage::Opening, Event::Opened(Err(e))) => {
                self.fail(cat2("opening rollback PR: ", e.as_str()))
            },
            _ => unreached(),
        }
    }
}

/// A request for a rollback is taken where it names the repository and gives exactly one depth,
/// and is a dry run unless it says otherwise; it is refused with what it lacks.
pub proof fn exactly_one_depth_is_given(
    parsed: Json,
    depth: Result<RollbackDepth, String>,
    r: Result<RollbackRequest, Json>,
)
    requires
        call_ensures(parse_rollback_depth, (&parsed,), depth),
        call_ensures(RollbackRequest::read, (&parsed,), r),
    ensures
        ({
            let url = parsed@.str_at("url"@);
            let count = parsed@.u64_at("count"@);
            let sha = parsed@.str_at("sha"@);
            let why = if count is Some && sha is Some {
                "provide EITHER `count` OR `sha`, not both"@
            } else {
                "missing rollback depth: provide `count` (last N commits) OR `sha` (target commit)"@
            };
            &&& depth is Ok <==> count is Some != sha is Some
            &&& (depth matches Ok(RollbackDepth::Count(n)) ==> count == Some(n))
            &&& (depth matches Ok(RollbackDepth::Sha(s)) ==> sha == Some(s@))
            &&& (depth matches Err(e) ==> e@ == why)
            &&& r is Ok <==> url is Some && count is Some != sha is Some
            &&& (r matches Ok(q) ==> url == Some(q.url@) && (q.depth matches RollbackDepth::Count(n)
                ==> count == Some(n)) && (q.depth matches RollbackDepth::Sha(s) ==> sha == Some(s@))
                && q.dry_run == (parsed@.bool_at("dry_run"@) != Some(false)))
            &&& (r matches Err(j)
                ==> j@.bool_at("ok"@) == Some(false) && j@.str_at("error"@) == Some(
                if url is None {
                    "missing `"@ + "url"@ + "` field"@
                } else {
                    why
                },
            ))
        }),
{
    assert forall|why: Seq<char>| (#[trigger] refusal(why)).bool_at("ok"@) == Some(false)
        && refusal(why).str_at("error"@) == Some(why) by {
        a_refusal_says_why(why);
    }
}

/// A rollback does not begin where the repository is not known or the address of the fork could
/// not be derived, and it is told which.
pub proof fn an_unknown_repository_is_not_rolled_back(
    request: RollbackRequest,
    found: Found,
    fork: Fork,
    r: Result<(RollbackRun, Step), Json>,
)
    requires
        call_ensures(RollbackRun::start, (request, found, fork), r),
    ensures
        r matches Err(j) ==> j@.bool_at("ok"@) == Some(false) && j@.str_at("error"@) == Some(
            match (found, fork) {
                (Err(e), _) => e@,
                (Ok(_), Fork::Invalid(e)) => "deriving fork url: "@ + e@,
                _ => ""@,
            },
        ) && (found is Err || fork is Invalid),
        found is Err ==> r is Err,
{
    assert forall|why: Seq<char>| (#[trigger] refusal(why)).bool_at("ok"@) == Some(false)
        && refusal(why).str_at("error"@) == Some(why) by {
        a_refusal_says_why(why);
    }
}

/// What is done of a rollback with an event is what follows from where it stands.
pub proof fn a_rollback_goes_step_by_step(
    run: Ghost<&mut RollbackRun>,
    event: Event<Result<RollbackPlan, String>>,
    step: Step,
)
    requires
        (*run@).wf(),
        (*run@).expects(event),
        call_ensures(RollbackRun::advance, (run@, event), step),
    ensures
        rollback_follows(*run@, event, *final(run@), step),
{
}

} // verus!
