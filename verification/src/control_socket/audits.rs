//! Audits, candidates for issues, and the rebuild of the canonical
//! specifications: requests that put something on the agenda of a repository.
use vstd::prelude::*;
use crate::control_socket::enqueue::{
    enqueue_request, holds_once, lemma_queued, not_live, not_live_text,
};
use crate::control_socket::request::{
    flag_or, missing_field, optional_flag, require, Found, RepositoryConfig,
};
use crate::json::{
    a_refusal_says_why, lemma_get_empty, lemma_get_with, obj, refusal, refuse, Fields, Json, JsonV,
};
use crate::text::{cat2, cat3, cat4, opt_text, same_text};

verus! {

/// The thread that an audit reported in.
#[derive(Debug)]
pub struct AuditThread {
    pub repo_url: String,
    pub audit_type: String,
}

/// Queues the triage of what an audit reported in a thread. A thread that waits
/// already is not queued twice.
pub fn handle_trigger_audit_action(
    parsed: &Json,
    thread: Result<Option<AuditThread>, String>,
    found: Found,
    live: bool,
    queue: &mut Vec<String>,
) -> (r: Json)
    ensures
        match parsed@.str_at("thread_ts"@) {
            None => r@ == refusal(missing_field("thread_ts"@)) && final(queue)@ == old(queue)@,
            Some(ts) => match (thread, found) {
                (Err(e), _) => r@ == refusal("reading audit-thread state: "@ + e@) && final(queue)@
                    == old(queue)@,
                (Ok(None), _) => r@ == refusal(
                    "no audit-thread state for thread_ts `"@ + ts
                        + "` (the chatops dispatcher should have caught this earlier)"@,
                ) && final(queue)@ == old(queue)@,
                (Ok(Some(_)), Err(e)) => r@ == refusal(e@) && final(queue)@ == old(queue)@,
                (Ok(Some(t)), Ok(repo)) => if live {
                    &&& r@ == obj().flag("ok"@, true).text("thread_ts"@, ts).text(
                        "url"@,
                        t.repo_url@,
                    ).text("audit_type"@, t.audit_type@).number(
                        "poll_interval_sec"@,
                        repo.poll_interval_sec,
                    ).done()
                    &&& holds_once(
                        old(queue)@,
                        final(queue)@,
                        |q: String| q@ == ts,
                        |q: String| q@ == ts,
                    )
                } else {
                    r@ == refusal(not_live(t.repo_url@)) && final(queue)@ == old(queue)@
                },
            },
        },
{
    let thread_ts = match require(parsed, "thread_ts") {
        Ok(s) => s,
        Err(e) => return e,
    };
    let audit = match thread {
        Ok(Some(t)) => t,
        Ok(None) => {
            let why = cat3(
                "no audit-thread state for thread_ts `",
                thread_ts.as_str(),
                "` (the chatops dispatcher should have caught this earlier)",
            );
            return refuse(why.as_str());
        },
        Err(e) => return refuse(cat2("reading audit-thread state: ", e.as_str()).as_str()),
    };
    let is_dup = |q: &String| -> (b: bool)
        ensures
            b == (q@ == thread_ts@),
        { same_text(q.as_str(), thread_ts.as_str()) };
    let entry = thread_ts.clone();
    let repo = match enqueue_request(
        found,
        audit.repo_url.as_str(),
        Ok(entry),
        live,
        queue,
        is_dup,
    ) {
        Ok(repo) => repo,
        Err(j) => return j,
    };
    proof {
        lemma_queued(old(queue)@, queue@);
    }
    Fields::new().flag("ok", true).text("thread_ts", thread_ts.as_str()).text(
        "url",
        audit.repo_url.as_str(),
    ).text("audit_type", audit.audit_type.as_str()).number(
        "poll_interval_sec",
        repo.poll_interval_sec,
    ).finish()
}

/// The conversation that a request came from.
#[derive(Debug)]
pub struct ChatOrigin {
    pub channel: String,
    pub thread_ts: Option<String>,
}

/// An audit that waits for the next pass.
#[derive(Debug)]
pub struct QueuedAudit {
    pub audit_type: String,
    pub origin: Option<ChatOrigin>,
}

/// The text of a field that is a string and not empty.
pub open spec fn filled(v: JsonV, key: Seq<char>) -> Option<Seq<char>> {
    match v.str_at(key) {
        Some(s) if s.len() > 0 => Some(s),
        _ => None,
    }
}

fn get_filled(parsed: &Json, key: &str) -> (r: Option<String>)
    ensures
        opt_text(r) == filled(parsed@, key@),
{
    match parsed.get_str(key) {
        Some(s) => {
            if s.as_str().is_empty() {
                None
            } else {
                Some(s)
            }
        },
        None => None,
    }
}

/// Whether an origin says what the request says of its conversation.
pub open spec fn is_origin(origin: Option<ChatOrigin>, v: JsonV) -> bool {
    match filled(v, "channel"@) {
        None => origin is None,
        Some(c) => origin matches Some(o) && o.channel@ == c && opt_text(o.thread_ts) == filled(
            v,
            "thread_ts"@,
        ),
    }
}

fn read_origin(parsed: &Json) -> (r: Option<ChatOrigin>)
    ensures
        is_origin(r, parsed@),
{
    match get_filled(parsed, "channel") {
        Some(channel) => Some(ChatOrigin { channel, thread_ts: get_filled(parsed, "thread_ts") }),
        None => None,
    }
}

/// What a request for an audit names its repository by: its address goes before
/// the path of its workspace.
#[derive(Debug)]
pub enum AuditTarget {
    Url(String),
    Workspace(String),
}

/// A request for an audit.
#[derive(Debug)]
pub struct AuditRequest {
    pub audit_type: String,
    pub target: AuditTarget,
}

impl AuditRequest {
    /// Reads the request, or refuses it.
    pub fn read(parsed: &Json) -> (r: Result<AuditRequest, Json>)
        ensures
            match parsed@.str_at("audit_type"@) {
                None => r matches Err(j) && j@ == refusal(missing_field("audit_type"@)),
                Some(kind) => match (parsed@.str_at("url"@), parsed@.str_at("workspace"@)) {
                    (Some(url), _) => r matches Ok(q) && q.audit_type@ == kind && (
                    q.target matches AuditTarget::Url(u) && u@ == url),
                    (None, Some(ws)) => r matches Ok(q) && q.audit_type@ == kind && (
                    q.target matches AuditTarget::Workspace(w) && w@ == ws),
                    (None, None) => r matches Err(j) && j@ == refusal(
                        "missing `url` or `workspace` field"@,
                    ),
                },
            },
    {
        let audit_type = match require(parsed, "audit_type") {
            Ok(s) => s,
            Err(e) => return Err(e),
        };
        if let Some(url) = parsed.get_str("url") {
            return Ok(AuditRequest { audit_type, target: AuditTarget::Url(url) });
        }
        match parsed.get_str("workspace") {
            Some(ws) => Ok(AuditRequest { audit_type, target: AuditTarget::Workspace(ws) }),
            None => Err(refuse("missing `url` or `workspace` field")),
        }
    }
}

/// The address of the repository that is meant, where it can be told:
/// `by_workspace` is the address whose workspace has the path.
pub open spec fn audit_url(target: AuditTarget, by_workspace: Option<String>) -> Option<Seq<char>> {
    match target {
        AuditTarget::Url(u) => Some(u@),
        AuditTarget::Workspace(_) => opt_text(by_workspace),
    }
}

/// Says which repository an audit is for. A path that is no workspace is refused
/// with a list of the workspaces that there are.
pub fn resolve_audit_url(
    target: &AuditTarget,
    by_workspace: &Option<String>,
    managed: &str,
) -> (r: Result<String, Json>)
    ensures
        match audit_url(*target, *by_workspace) {
            Some(url) => r matches Ok(u) && u@ == url,
            None => target matches AuditTarget::Workspace(ws) && r matches Err(j) && j@ == refusal(
                "no managed repository found for workspace path `"@ + ws@
                    + "`; the daemon is managing: "@ + managed@,
            ),
        },
{
    match target {
        AuditTarget::Url(u) => Ok(u.clone()),
        AuditTarget::Workspace(ws) => match by_workspace {
            Some(u) => Ok(u.clone()),
            None => {
                let why = cat4(
                    "no managed repository found for workspace path `",
                    ws.as_str(),
                    "`; the daemon is managing: ",
                    managed,
                );
                Err(refuse(why.as_str()))
            },
        },
    }
}

/// Queues an audit for the next pass over a repository. An audit of a kind that
/// waits already is not queued twice; the request is answered all the same.
pub fn handle_queue_audit(
    parsed: &Json,
    request: &AuditRequest,
    url: &str,
    found: Found,
    live: bool,
    queue: &mut Vec<QueuedAudit>,
) -> (r: Json)
    ensures
        match found {
            Err(e) => r@ == refusal(e@) && final(queue)@ == old(queue)@,
            Ok(repo) => if live {
                &&& r@ == obj().flag("ok"@, true).text("url"@, url@).text(
                    "audit_type"@,
                    request.audit_type@,
                ).number("poll_interval_sec"@, repo.poll_interval_sec).done()
                &&& holds_once(
                    old(queue)@,
                    final(queue)@,
                    |q: QueuedAudit| q.audit_type@ == request.audit_type@,
                    |q: QueuedAudit|
                        q.audit_type@ == request.audit_type@ && is_origin(q.origin, parsed@),
                )
            } else {
                r@ == refusal(not_live(url@)) && final(queue)@ == old(queue)@
            },
        },
{
    let is_dup = |q: &QueuedAudit| -> (b: bool)
        ensures
            b == (q.audit_type@ == request.audit_type@),
        { same_text(q.audit_type.as_str(), request.audit_type.as_str()) };
    let entry = QueuedAudit {
        audit_type: request.audit_type.clone(),
        origin: read_origin(parsed),
    };
    let repo = match enqueue_request(found, url, Ok(entry), live, queue, is_dup) {
        Ok(repo) => repo,
        Err(j) => return j,
    };
    proof {
        lemma_queued(old(queue)@, queue@);
    }
    Fields::new().flag("ok", true).text("url", url).text(
        "audit_type",
        request.audit_type.as_str(),
    ).number("poll_interval_sec", repo.poll_interval_sec).finish()
}

/// A request to make an issue of a candidate.
#[derive(Debug)]
pub struct PromoteRequest {
    pub url: String,
    pub candidate_id: String,
}

/// The first of four required fields that a request lacks.
pub open spec fn promote_lacks(v: JsonV) -> Option<Seq<char>> {
    if v.str_at("url"@) is None {
        Some("url"@)
    } else if v.str_at("candidate_id"@) is None {
        Some("candidate_id"@)
    } else if v.str_at("channel"@) is None {
        Some("channel"@)
    } else if v.str_at("thread_ts"@) is None {
        Some("thread_ts"@)
    } else {
        None
    }
}

impl PromoteRequest {
    /// Reads the request, or refuses it. It must say which thread it comes from,
    /// though nothing else depends on that.
    pub fn read(parsed: &Json) -> (r: Result<PromoteRequest, Json>)
        ensures
            match promote_lacks(parsed@) {
                Some(key) => r matches Err(j) && j@ == refusal(missing_field(key)),
                None => r matches Ok(q) && parsed@.str_at("url"@) == Some(q.url@) && parsed@.str_at(
                    "candidate_id"@,
                ) == Some(q.candidate_id@),
            },
    {
        let url = match require(parsed, "url") {
            Ok(s) => s,
            Err(e) => return Err(e),
        };
        let candidate_id = match require(parsed, "candidate_id") {
            Ok(s) => s,
            Err(e) => return Err(e),
        };
        if let Err(e) = require(parsed, "channel") {
            return Err(e);
        }
        if let Err(e) = require(parsed, "thread_ts") {
            return Err(e);
        }
        Ok(PromoteRequest { url, candidate_id })
    }
}

/// Whether an issue was made of a candidate.
#[derive(Debug, Clone, Copy, PartialEq, Eq, Structural)]
pub enum CandidateStatus {
    Posted,
    Promoted,
}

/// A candidate for an issue.
#[derive(Debug)]
pub struct Candidate {
    pub slug: String,
    pub status: CandidateStatus,
}

/// What is to be done with a candidate.
#[derive(Debug)]
pub enum Promotion {
    /// Make an issue of it.
    Promote(Candidate),
    /// Answer the request; there is nothing to do.
    Reply(Json),
}

/// Says what is to be done with a candidate. An issue is made of it once: where
/// that has happened, the request is answered and nothing is written.
pub fn plan_promotion(
    request: &PromoteRequest,
    found: Found,
    candidate: Result<Option<Candidate>, String>,
) -> (r: Promotion)
    ensures
        match (found, candidate) {
            (Err(e), _) => r matches Promotion::Reply(j) && j@ == refusal(e@),
            (Ok(_), Err(e)) => r matches Promotion::Reply(j) && j@ == refusal(
                "reading issue candidate: "@ + e@,
            ),
            (Ok(_), Ok(None)) => r matches Promotion::Reply(j) && j@ == refusal(
                "no issue candidate `"@ + request.candidate_id@ + "` recorded"@,
            ),
            (Ok(_), Ok(Some(c))) => match c.status {
                CandidateStatus::Posted => r == Promotion::Promote(c),
                CandidateStatus::Promoted => r matches Promotion::Reply(j) && j@ == obj().flag(
                    "ok"@,
                    true,
                ).flag("already_promoted"@, true).text("slug"@, c.slug@).done(),
            },
        },
{
    if let Err(e) = &found {
        return Promotion::Reply(refuse(e.as_str()));
    }
    match candidate {
        Err(e) => Promotion::Reply(
            refuse(cat2("reading issue candidate: ", e.as_str()).as_str()),
        ),
        Ok(None) => {
            let why = cat3("no issue candidate `", request.candidate_id.as_str(), "` recorded");
            Promotion::Reply(refuse(why.as_str()))
        },
        Ok(Some(c)) => match c.status {
            CandidateStatus::Posted => Promotion::Promote(c),
            CandidateStatus::Promoted => Promotion::Reply(
                Fields::new().flag("ok", true).flag("already_promoted", true).text(
                    "slug",
                    c.slug.as_str(),
                ).finish(),
            ),
        },
    }
}

/// Answers a request for which an issue was made of a candidate.
pub fn handle_promote_issue_candidate(candidate: &Candidate, written: Result<String, String>) -> (r:
    Json)
    ensures
        match written {
            Ok(path) => r@ == obj().flag("ok"@, true).text("slug"@, candidate.slug@).text(
                "path"@,
                path@,
            ).done(),
            Err(e) => r@ == refusal(e@),
        },
{
    match written {
        Ok(path) => Fields::new().flag("ok", true).text("slug", candidate.slug.as_str()).text(
            "path",
            path.as_str(),
        ).finish(),
        Err(e) => refuse(e.as_str()),
    }
}

/// A request to rebuild the canonical specifications.
#[derive(Debug)]
pub struct RebuildRequest {
    pub url: String,
    /// Whether a session in flight is stopped for it.
    pub immediate: bool,
}

impl RebuildRequest {
    /// Reads the request, or refuses it.
    pub fn read(parsed: &Json) -> (r: Result<RebuildRequest, Json>)
        ensures
            match parsed@.str_at("url"@) {
                Some(url) => r matches Ok(q) && q.url@ == url && q.immediate == flag_or(
                    parsed@,
                    "immediate"@,
                    false,
                ),
                None => r matches Err(j) && j@ == refusal(missing_field("url"@)),
            },
    {
        let url = match require(parsed, "url") {
            Ok(s) => s,
            Err(e) => return Err(e),
        };
        Ok(RebuildRequest { url, immediate: optional_flag(parsed, "immediate", false) })
    }
}

/// How a request for a rebuild goes on.
#[derive(Debug)]
pub enum Rebuild {
    /// Stop the session in flight and rebuild in the workspace of the repository.
    Now(RepositoryConfig),
    /// Answer the request. Nothing comes after it.
    Reply(Json),
}

/// Says how a request for a rebuild goes on. Where it can wait, the rebuild is
/// scheduled for the next pass over the repository.
pub fn plan_rebuild(request: &RebuildRequest, found: Found, live: bool, pending: &mut bool) -> (r:
    Rebuild)
    ensures
        match found {
            Err(e) => {
                &&& *final(pending) == *old(pending)
                &&& r matches Rebuild::Reply(j)
                &&& j@ == refusal(e@)
            },
            Ok(repo) => if request.immediate {
                r == Rebuild::Now(repo) && *final(pending) == *old(pending)
            } else if live {
                &&& *final(pending)
                &&& r matches Rebuild::Reply(j)
                &&& j@ == obj().flag("ok"@, true).text("url"@, request.url@).flag(
                    "immediate"@,
                    false,
                ).flag("scheduled"@, true).number("poll_interval_sec"@, repo.poll_interval_sec).done()
            } else {
                &&& *final(pending) == *old(pending)
                &&& r matches Rebuild::Reply(j)
                &&& j@ == refusal(not_live(request.url@))
            },
        },
{
    let repo = match found {
        Ok(repo) => repo,
        Err(e) => return Rebuild::Reply(refuse(e.as_str())),
    };
    if request.immediate {
        return Rebuild::Now(repo);
    }
    if !live {
        return Rebuild::Reply(refuse(not_live_text(request.url.as_str()).as_str()));
    }
    *pending = true;
    Rebuild::Reply(
        Fields::new().flag("ok", true).text("url", request.url.as_str()).flag(
            "immediate",
            false,
        ).flag("scheduled", true).number("poll_interval_sec", repo.poll_interval_sec).finish(),
    )
}

/// Answers a request for a rebuild at once: `coordinated` tells whether the
/// session in flight made way, and `report` what the rebuild came to.
pub fn handle_rebuild_specs(
    request: &RebuildRequest,
    coordinated: Result<(), String>,
    report: Result<Json, String>,
) -> (r: Json)
    ensures
        match (coordinated, report) {
            (Err(e), _) => r@ == refusal("--immediate coordination failed: "@ + e@),
            (Ok(_), Err(e)) => r@ == refusal("rebuild failed: "@ + e@),
            (Ok(_), Ok(report)) => r@ == obj().flag("ok"@, true).text("url"@, request.url@).flag(
                "immediate"@,
                true,
            ).with("report"@, report@).done(),
        },
{
    match coordinated {
        Ok(_) => {},
        Err(e) => return refuse(
            cat2("--immediate coordination failed: ", e.as_str()).as_str(),
        ),
    }
    match report {
        Ok(report) => Fields::new().flag("ok", true).text("url", request.url.as_str()).flag(
            "immediate",
            true,
        ).with("report", report).finish(),
        Err(e) => refuse(cat2("rebuild failed: ", e.as_str()).as_str()),
    }
}

/// The names of the fields tell them apart.
proof fn lemma_field_names()
    ensures
        "ok"@.len() == 2,
        "url"@.len() == 3,
        "slug"@.len() == 4,
        "path"@.len() == 4,
        "slug"@ != "path"@,
        "error"@.len() == 5,
        "report"@.len() == 6,
        "thread_ts"@.len() == 9,
        "immediate"@.len() == 9,
        "scheduled"@.len() == 9,
        "thread_ts"@ != "immediate"@,
        "thread_ts"@ != "scheduled"@,
        "immediate"@ != "scheduled"@,
        "audit_type"@.len() == 10,
        "already_promoted"@.len() == 16,
        "poll_interval_sec"@.len() == 17,
{
    reveal_strlit("ok");
    reveal_strlit("thread_ts");
    reveal_strlit("url");
    reveal_strlit("audit_type");
    reveal_strlit("poll_interval_sec");
    reveal_strlit("error");
    reveal_strlit("already_promoted");
    reveal_strlit("slug");
    reveal_strlit("path");
    reveal_strlit("immediate");
    reveal_strlit("scheduled");
    reveal_strlit("report");
    assert("slug"@[0] != "path"@[0]);
    assert("thread_ts"@[0] != "immediate"@[0]);
    assert("thread_ts"@[0] != "scheduled"@[0]);
    assert("immediate"@[0] != "scheduled"@[0]);
}

/// The triage of a thread waits exactly where the request names the thread, an audit
/// reported in it, and its repository is known and has a pass to wait for; it waits once,
/// behind those that wait already.
pub proof fn a_triage_waits_once(
    parsed: Json,
    thread: Result<Option<AuditThread>, String>,
    found: Found,
    live: bool,
    queue: Ghost<&mut Vec<String>>,
    r: Json,
)
    requires
        call_ensures(handle_trigger_audit_action, (&parsed, thread, found, live, queue@), r),
    ensures
        r@.bool_at("ok"@) == Some(
            parsed@.str_at("thread_ts"@) is Some && (thread matches Ok(Some(_))) && found is Ok
                && live,
        ),
        r@.bool_at("ok"@) == Some(false) ==> (*final(queue@))@ == (*queue@)@,
        r@.bool_at("ok"@) == Some(false) ==> r@.str_at("error"@) == Some(
            match parsed@.str_at("thread_ts"@) {
                None => "missing `"@ + "thread_ts"@ + "` field"@,
                Some(ts) => match thread {
                    Err(e) => "reading audit-thread state: "@ + e@,
                    Ok(None) => "no audit-thread state for thread_ts `"@ + ts
                        + "` (the chatops dispatcher should have caught this earlier)"@,
                    Ok(Some(t)) => match found {
                        Err(e) => e@,
                        Ok(_) => "no live polling task for `"@ + t.repo_url@
                            + "` (daemon may not have spawned it yet)"@,
                    },
                },
            },
        ),
        r@.bool_at("ok"@) == Some(true) ==> {
            let before = (*queue@)@;
            let after = (*final(queue@))@;
            let t = thread->Ok_0->0;
            &&& r@.str_at("thread_ts"@) == parsed@.str_at("thread_ts"@)
            &&& r@.str_at("url"@) == Some(t.repo_url@)
            &&& r@.str_at("audit_type"@) == Some(t.audit_type@)
            &&& r@.u64_at("poll_interval_sec"@) == Some(found->Ok_0.poll_interval_sec)
            &&& (exists|i: int|
                0 <= i < before.len() && Some((#[trigger] before[i])@) == parsed@.str_at(
                    "thread_ts"@,
                )) ==> after == before
            &&& (forall|i: int|
                0 <= i < before.len() ==> Some((#[trigger] before[i])@) != parsed@.str_at(
                    "thread_ts"@,
                )) ==> after.len() == before.len() + 1 && after.drop_last() == before && Some(
                after.last()@,
            ) == parsed@.str_at("thread_ts"@)
        },
{
    broadcast use {lemma_get_with, lemma_get_empty};

    lemma_field_names();
    assert forall|why: Seq<char>|
        (#[trigger] refusal(why)).bool_at("ok"@) == Some(false) && refusal(why).str_at("error"@)
            == Some(why) by {
        a_refusal_says_why(why);
    }
    let before = (*queue@)@;
    let after = (*final(queue@))@;
}

/// An audit waits exactly where its repository is known and has a pass to wait for; once
/// for each type, behind those that wait already, with the conversation that it came from
/// where a channel is named: the channel, and the thread where one is named too.
pub proof fn an_audit_waits_once(
    parsed: Json,
    request: AuditRequest,
    url: &str,
    found: Found,
    live: bool,
    queue: Ghost<&mut Vec<QueuedAudit>>,
    r: Json,
)
    requires
        call_ensures(handle_queue_audit, (&parsed, &request, url, found, live, queue@), r),
    ensures
        r@.bool_at("ok"@) == Some(found is Ok && live),
        r@.bool_at("ok"@) == Some(false) ==> (*final(queue@))@ == (*queue@)@ && r@.str_at(
            "error"@,
        ) == Some(
            match found {
                Err(e) => e@,
                Ok(_) => "no live polling task for `"@ + url@
                    + "` (daemon may not have spawned it yet)"@,
            },
        ),
        r@.bool_at("ok"@) == Some(true) ==> {
            let before = (*queue@)@;
            let after = (*final(queue@))@;
            let channel = parsed@.str_at("channel"@);
            let ts = parsed@.str_at("thread_ts"@);
            &&& r@.str_at("url"@) == Some(url@)
            &&& r@.str_at("audit_type"@) == Some(request.audit_type@)
            &&& r@.u64_at("poll_interval_sec"@) == Some(found->Ok_0.poll_interval_sec)
            &&& (exists|i: int|
                0 <= i < before.len() && (#[trigger] before[i]).audit_type@
                    == request.audit_type@) ==> after == before
            &&& (forall|i: int|
                0 <= i < before.len() ==> (#[trigger] before[i]).audit_type@
                    != request.audit_type@) ==> {
                &&& after.len() == before.len() + 1
                &&& after.drop_last() == before
                &&& after.last().audit_type@ == request.audit_type@
                &&& after.last().origin is Some <==> channel is Some && channel->0.len() > 0
                &&& after.last().origin matches Some(o) ==> {
                    &&& Some(o.channel@) == channel
                    &&& match o.thread_ts {
                        Some(t) => Some(t@) == ts && t@.len() > 0,
                        None => ts is None || ts->0.len() == 0,
                    }
                }
            }
        },
{
    broadcast use {lemma_get_with, lemma_get_empty};

    lemma_field_names();
    assert forall|why: Seq<char>|
        (#[trigger] refusal(why)).bool_at("ok"@) == Some(false) && refusal(why).str_at("error"@)
            == Some(why) by {
        a_refusal_says_why(why);
    }
    let before = (*queue@)@;
    let after = (*final(queue@))@;
}

/// What a request for an audit names: its type, and its repository by its address, or else
/// by the path of its workspace; the address goes first, and one of them must be there.
pub proof fn an_address_goes_before_a_path(
    parsed: Json,
    request: AuditRequest,
    by_workspace: Option<String>,
    managed: &str,
    r: Result<String, Json>,
)
    requires
        call_ensures(AuditRequest::read, (&parsed,), Ok::<AuditRequest, Json>(request)),
        call_ensures(resolve_audit_url, (&request.target, &by_workspace, managed), r),
    ensures
        parsed@.str_at("audit_type"@) == Some(request.audit_type@),
        parsed@.str_at("url"@) matches Some(url) ==> (r matches Ok(u) && u@ == url),
        parsed@.str_at("url"@) is None ==> parsed@.str_at("workspace"@) is Some
            && match by_workspace {
            Some(url) => r matches Ok(u) && u@ == url@,
            None => r matches Err(j) && j@.str_at("error"@) == Some(
                "no managed repository found for workspace path `"@ + parsed@.str_at(
                    "workspace"@,
                )->0 + "`; the daemon is managing: "@ + managed@,
            ),
        },
{
    broadcast use {lemma_get_with, lemma_get_empty};

    lemma_field_names();
    assert forall|why: Seq<char>|
        (#[trigger] refusal(why)).bool_at("ok"@) == Some(false) && refusal(why).str_at("error"@)
            == Some(why) by {
        a_refusal_says_why(why);
    }
}

/// Why a request for an audit is refused: it lacks its type, or both names of a repository.
pub proof fn an_audit_needs_a_type_and_a_target(parsed: Json, r: Result<AuditRequest, Json>)
    requires
        call_ensures(AuditRequest::read, (&parsed,), r),
    ensures
        r is Ok <==> parsed@.str_at("audit_type"@) is Some && (parsed@.str_at("url"@) is Some
            || parsed@.str_at("workspace"@) is Some),
        r matches Err(j) ==> j@.bool_at("ok"@) == Some(false) && j@.str_at("error"@) == Some(
            if parsed@.str_at("audit_type"@) is None {
                "missing `"@ + "audit_type"@ + "` field"@
            } else {
                "missing `url` or `workspace` field"@
            },
        ),
{
    broadcast use {lemma_get_with, lemma_get_empty};

    lemma_field_names();
    assert forall|why: Seq<char>|
        (#[trigger] refusal(why)).bool_at("ok"@) == Some(false) && refusal(why).str_at("error"@)
            == Some(why) by {
        a_refusal_says_why(why);
    }
}

/// An issue is made of a candidate once: where the repository is known, the candidate is
/// recorded and no issue was made of it; a candidate of which one was made is answered with
/// its slug, and nothing else is done.
pub proof fn a_candidate_is_promoted_once(
    request: PromoteRequest,
    found: Found,
    candidate: Result<Option<Candidate>, String>,
    r: Promotion,
)
    requires
        call_ensures(plan_promotion, (&request, found, candidate), r),
    ensures
        r is Promote <==> found is Ok && (candidate matches Ok(Some(c)) && c.status is Posted),
        r matches Promotion::Promote(c) ==> candidate == Ok::<Option<Candidate>, String>(Some(c)),
        r matches Promotion::Reply(j) ==> match (found, candidate) {
            (Err(e), _) => j@.bool_at("ok"@) == Some(false) && j@.str_at("error"@) == Some(e@),
            (Ok(_), Err(e)) => j@.bool_at("ok"@) == Some(false) && j@.str_at("error"@) == Some(
                "reading issue candidate: "@ + e@,
            ),
            (Ok(_), Ok(None)) => j@.bool_at("ok"@) == Some(false) && j@.str_at("error"@) == Some(
                "no issue candidate `"@ + request.candidate_id@ + "` recorded"@,
            ),
            (Ok(_), Ok(Some(c))) => j@.bool_at("ok"@) == Some(true) && j@.bool_at(
                "already_promoted"@,
            ) == Some(true) && j@.str_at("slug"@) == Some(c.slug@),
        },
{
    broadcast use {lemma_get_with, lemma_get_empty};

    lemma_field_names();
    assert forall|why: Seq<char>|
        (#[trigger] refusal(why)).bool_at("ok"@) == Some(false) && refusal(why).str_at("error"@)
            == Some(why) by {
        a_refusal_says_why(why);
    }
}

/// What a request to promote must say, and what is answered once the issue is written.
pub proof fn a_promotion_tells_where_the_issue_is(
    parsed: Json,
    r: Result<PromoteRequest, Json>,
    candidate: Candidate,
    written: Result<String, String>,
    reply: Json,
)
    requires
        call_ensures(PromoteRequest::read, (&parsed,), r),
        call_ensures(handle_promote_issue_candidate, (&candidate, written), reply),
    ensures
        r is Ok <==> parsed@.str_at("url"@) is Some && parsed@.str_at("candidate_id"@) is Some
            && parsed@.str_at("channel"@) is Some && parsed@.str_at("thread_ts"@) is Some,
        r matches Ok(q) ==> parsed@.str_at("url"@) == Some(q.url@) && parsed@.str_at(
            "candidate_id"@,
        ) == Some(q.candidate_id@),
        r matches Err(j) ==> j@.bool_at("ok"@) == Some(false) && j@.str_at("error"@) == Some(
            "missing `"@ + (if parsed@.str_at("url"@) is None {
                "url"@
            } else if parsed@.str_at("candidate_id"@) is None {
                "candidate_id"@
            } else if parsed@.str_at("channel"@) is None {
                "channel"@
            } else {
                "thread_ts"@
            }) + "` field"@,
        ),
        match written {
            Ok(path) => reply@.bool_at("ok"@) == Some(true) && reply@.str_at("slug"@) == Some(
                candidate.slug@,
            ) && reply@.str_at("path"@) == Some(path@),
            Err(e) => reply@.bool_at("ok"@) == Some(false) && reply@.str_at("error"@) == Some(e@),
        },
{
    broadcast use {lemma_get_with, lemma_get_empty};

    lemma_field_names();
    assert forall|why: Seq<char>|
        (#[trigger] refusal(why)).bool_at("ok"@) == Some(false) && refusal(why).str_at("error"@)
            == Some(why) by {
        a_refusal_says_why(why);
    }
}

/// A rebuild is made at once exactly where that is asked for, and otherwise scheduled where
/// the repository has a pass to wait for; nothing but that schedules one.
pub proof fn a_rebuild_waits_unless_asked(
    parsed: Json,
    request: RebuildRequest,
    found: Found,
    live: bool,
    pending: Ghost<&mut bool>,
    r: Rebuild,
)
    requires
        call_ensures(RebuildRequest::read, (&parsed,), Ok::<RebuildRequest, Json>(request)),
        call_ensures(plan_rebuild, (&request, found, live, pending@), r),
    ensures
        parsed@.str_at("url"@) == Some(request.url@),
        r is Now <==> found is Ok && parsed@.bool_at("immediate"@) == Some(true),
        r matches Rebuild::Now(repo) ==> found == Ok::<RepositoryConfig, String>(repo),
        *final(pending@) == (*pending@ || (found is Ok && live && parsed@.bool_at("immediate"@)
            != Some(true))),
        r matches Rebuild::Reply(j) ==> match found {
            Err(e) => j@.bool_at("ok"@) == Some(false) && j@.str_at("error"@) == Some(e@),
            Ok(repo) => if live {
                &&& j@.bool_at("ok"@) == Some(true)
                &&& j@.str_at("url"@) == Some(request.url@)
                &&& j@.bool_at("immediate"@) == Some(false)
                &&& j@.bool_at("scheduled"@) == Some(true)
                &&& j@.u64_at("poll_interval_sec"@) == Some(repo.poll_interval_sec)
            } else {
                j@.bool_at("ok"@) == Some(false) && j@.str_at("error"@) == Some(
                    "no live polling task for `"@ + request.url@
                        + "` (daemon may not have spawned it yet)"@,
                )
            },
        },
{
    broadcast use {lemma_get_with, lemma_get_empty};

    lemma_field_names();
    assert forall|why: Seq<char>|
        (#[trigger] refusal(why)).bool_at("ok"@) == Some(false) && refusal(why).str_at("error"@)
            == Some(why) by {
        a_refusal_says_why(why);
    }
}

/// What is answered to a rebuild at once: what it came to, where the session in flight made
/// way and it succeeded, and otherwise the first of these that failed.
pub proof fn a_rebuild_tells_what_it_came_to(
    request: RebuildRequest,
    coordinated: Result<(), String>,
    report: Result<Json, String>,
    r: Json,
)
    requires
        call_ensures(handle_rebuild_specs, (&request, coordinated, report), r),
    ensures
        r@.bool_at("ok"@) == Some(coordinated is Ok && report is Ok),
        coordinated matches Err(e) ==> r@.str_at("error"@) == Some(
            "--immediate coordination failed: "@ + e@,
        ),
        coordinated is Ok ==> (report matches Err(e) ==> r@.str_at("error"@) == Some(
            "rebuild failed: "@ + e@,
        )),
        r@.bool_at("ok"@) == Some(true) ==> r@.str_at("url"@) == Some(request.url@) && r@.bool_at(
            "immediate"@,
        ) == Some(true) && r@.get("report"@) == Some(report->Ok_0@),
{
    broadcast use {lemma_get_with, lemma_get_empty};

    lemma_field_names();
    assert forall|why: Seq<char>|
        (#[trigger] refusal(why)).bool_at("ok"@) == Some(false) && refusal(why).str_at("error"@)
            == Some(why) by {
        a_refusal_says_why(why);
    }
}

} // verus!
