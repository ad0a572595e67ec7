//! What runs a change: the events that it reports, its logs, what it leaves
//! undone, and how it ends.
use vstd::prelude::*;
use crate::json::Json;

pub mod acceptance_scan;
pub mod event_log;
pub mod json_event;

verus! {

/// What the triage of an audit is given.
#[derive(Debug, Clone, PartialEq, Eq)]
pub struct TriageContext {
    pub findings: String,
    pub audit_type: String,
    pub repo_url: String,
    pub canonical_specs_index: String,
}

/// What the writer of a changelog is given.
#[derive(Debug, Clone, PartialEq, Eq)]
pub struct ChangelogContext {
    pub changelog_json: String,
    pub repo_url: String,
    /// What the operator wants changed; empty on a first run.
    pub revision_text: String,
}

/// What the draft of a capability that exists in code alone is given.
#[derive(Debug, Clone, PartialEq, Eq)]
pub struct BrownfieldDraftContext {
    pub capability_name: String,
    pub rendered_prompt: String,
}

/// What a scout is given.
#[derive(Debug, Clone, PartialEq, Eq)]
pub struct ScoutContext {
    pub rendered_prompt: String,
}

/// What the work on an issue is given.
#[derive(Debug, Clone, PartialEq, Eq)]
pub struct IssueContext {
    pub slug: String,
    pub rendered_prompt: String,
}

/// What the triage of a reported issue is given.
#[derive(Debug, Clone, PartialEq, Eq)]
pub struct IssueReportTriageContext {
    pub rendered_prompt: String,
}

/// What the triage of a request from a chat is given.
#[derive(Debug, Clone, PartialEq, Eq)]
pub struct ChatTriageContext {
    pub request_text: String,
    pub repo_url: String,
    pub canonical_specs_index: String,
}

/// A task that cannot be done in the sandbox of the agent.
#[derive(Debug, Clone, PartialEq)]
pub struct UnimplementableTask {
    pub task_id: String,
    pub task_text: String,
    pub reason: String,
}

/// What a session that waits for an answer is resumed with.
#[derive(Debug, Clone, PartialEq)]
pub struct ResumeHandle(pub Json);

/// How a run ended.
#[derive(Debug, Clone, PartialEq)]
#[allow(inconsistent_fields)]
pub enum ExecutorOutcome {
    /// The change is done.
    Completed { final_answer: Option<String> },
    /// The agent has a question.
    AskUser { question: String, resume_handle: ResumeHandle },
    /// It failed.
    Failed { reason: String },
    /// It could not begin: something that it needs is not there.
    PreconditionUnmet { reason: String },
    /// Some of the tasks cannot be done by the agent.
    SpecNeedsRevision {
        unimplementable_tasks: Vec<UnimplementableTask>,
        revision_suggestion: String,
    },
    /// The agent wants to go on in another iteration.
    IterationRequested {
        completed_tasks: Vec<String>,
        remaining_tasks: Vec<String>,
        reason: String,
        iteration_number: u32,
    },
    /// It was stopped together with the daemon. This is no failure.
    Aborted { reason: String },
}

/// A way of running that a backend need not support.
#[derive(Debug, Clone, Copy, PartialEq, Eq, Structural)]
pub enum OptionalMode {
    Triage,
    ChatTriage,
    BrownfieldDraft,
    Scout,
    Changelog,
    Issue,
    IssueTriage,
}

/// How a run ends that the backend does not support.
pub fn not_supported(mode: OptionalMode) -> (r: ExecutorOutcome)
    ensures
        r matches ExecutorOutcome::Failed { reason } && reason@ == match mode {
            OptionalMode::Triage => "triage mode not supported by this executor backend"@,
            OptionalMode::ChatTriage => "chat-triage mode not supported by this executor backend"@,
            OptionalMode::BrownfieldDraft => "brownfield-draft mode not supported by this executor backend"@,
            OptionalMode::Scout => "scout mode not supported by this executor backend"@,
            OptionalMode::Changelog => "changelog stylist not supported by this executor backend"@,
            OptionalMode::Issue => "issue mode not supported by this executor backend"@,
            OptionalMode::IssueTriage => "issue-triage mode not supported by this executor backend"@,
        },
{
    let reason = match mode {
        OptionalMode::Triage => "triage mode not supported by this executor backend",
        OptionalMode::ChatTriage => "chat-triage mode not supported by this executor backend",
        OptionalMode::BrownfieldDraft => "brownfield-draft mode not supported by this executor backend",
        OptionalMode::Scout => "scout mode not supported by this executor backend",
        OptionalMode::Changelog => "changelog stylist not supported by this executor backend",
        OptionalMode::Issue => "issue mode not supported by this executor backend",
        OptionalMode::IssueTriage => "issue-triage mode not supported by this executor backend",
    };
    ExecutorOutcome::Failed { reason: reason.to_owned() }
}

/// A run that the backend does not support fails, and says which way of running it was.
pub proof fn an_unsupported_run_says_which(mode: OptionalMode, r: ExecutorOutcome)
    requires
        call_ensures(not_supported, (mode,), r),
    ensures
        ({
            let tail = " not supported by this executor backend"@;
            let way = match mode {
                OptionalMode::Triage => "triage mode"@,
                OptionalMode::ChatTriage => "chat-triage mode"@,
                OptionalMode::BrownfieldDraft => "brownfield-draft mode"@,
                OptionalMode::Scout => "scout mode"@,
                OptionalMode::Changelog => "changelog stylist"@,
                OptionalMode::Issue => "issue mode"@,
                OptionalMode::IssueTriage => "issue-triage mode"@,
            };
            r matches ExecutorOutcome::Failed { reason } && reason@ == way + tail
        }),
{
    reveal_strlit(" not supported by this executor backend");
    reveal_strlit("triage mode");
    reveal_strlit("triage mode not supported by this executor backend");
    assert("triage mode not supported by this executor backend"@ =~= "triage mode"@
        + " not supported by this executor backend"@);
    reveal_strlit("chat-triage mode");
    reveal_strlit("chat-triage mode not supported by this executor backend");
    assert("chat-triage mode not supported by this executor backend"@ =~= "chat-triage mode"@
        + " not supported by this executor backend"@);
    reveal_strlit("brownfield-draft mode");
    reveal_strlit("brownfield-draft mode not supported by this executor backend");
    assert("brownfield-draft mode not supported by this executor backend"@ =~= "brownfield-draft mode"@
        + " not supported by this executor backend"@);
    reveal_strlit("scout mode");
    reveal_strlit("scout mode not supported by this executor backend");
    assert("scout mode not supported by this executor backend"@ =~= "scout mode"@
        + " not supported by this executor backend"@);
    reveal_strlit("changelog stylist");
    reveal_strlit("changelog stylist not supported by this executor backend");
    assert("changelog stylist not supported by this executor backend"@ =~= "changelog stylist"@
        + " not supported by this executor backend"@);
    reveal_strlit("issue mode");
    reveal_strlit("issue mode not supported by this executor backend");
    assert("issue mode not supported by this executor backend"@ =~= "issue mode"@
        + " not supported by this executor backend"@);
    reveal_strlit("issue-triage mode");
    reveal_strlit("issue-triage mode not supported by this executor backend");
    assert("issue-triage mode not supported by this executor backend"@ =~= "issue-triage mode"@
        + " not supported by this executor backend"@);
}

} // verus!
