use autocoder::control_socket::audits::{
    handle_promote_issue_candidate, handle_queue_audit, handle_rebuild_specs,
    handle_trigger_audit_action, plan_promotion, plan_rebuild, resolve_audit_url, AuditRequest,
    AuditThread, Candidate, CandidateStatus, Promotion, PromoteRequest, QueuedAudit, Rebuild,
    RebuildRequest,
};
use autocoder::control_socket::request::{Found, RepositoryConfig};
use autocoder::json::{Fields, Json};

const URL: &str = "git@github.com:owner/repo.git";

fn found() -> Found {
    Ok(RepositoryConfig {
        url: URL.to_string(),
        workspace: "/ws".to_string(),
        base_branch: "main".to_string(),
        agent_branch: "agent-q".to_string(),
        upstream_branch: None,
        poll_interval_sec: 60,
        auto_submit_pr: true,
    })
}

fn nowhere() -> Found {
    Err("no repository configured".to_string())
}

fn request(fields: &[(&str, &str)]) -> Json {
    let mut f = Fields::new();
    for (k, v) in fields {
        f = f.text(k, v);
    }
    f.finish()
}

fn text(reply: &Json, key: &str) -> String {
    reply.get_str(key).unwrap_or_else(|| panic!("no `{key}` in {reply:?}"))
}

/// Queues an audit that is asked for by the address of a repository.
fn queue_audit(parsed: &Json, found: Found, live: bool, queue: &mut Vec<QueuedAudit>) -> Json {
    let request = match AuditRequest::read(parsed) {
        Ok(q) => q,
        Err(e) => return e,
    };
    let url = match resolve_audit_url(&request.target, &None, "none") {
        Ok(u) => u,
        Err(e) => return e,
    };
    handle_queue_audit(parsed, &request, &url, found, live, queue)
}

#[test]
fn queue_audit_appends_to_pending_audit_runs() {
    let mut q = Vec::new();
    let req = request(&[("url", URL), ("audit_type", "security_bug_audit")]);
    let resp = queue_audit(&req, found(), true, &mut q);
    assert_eq!(resp.get_bool("ok"), Some(true));
    assert_eq!(text(&resp, "audit_type"), "security_bug_audit");
    assert_eq!(text(&resp, "url"), URL);
    assert_eq!(resp.get_u64("poll_interval_sec"), Some(60));
    assert_eq!(q.len(), 1);
    assert_eq!(q[0].audit_type, "security_bug_audit");
    assert!(q[0].origin.is_none());
}

#[test]
fn queue_audit_is_deduplicated_per_repo() {
    let mut q = Vec::new();
    let req = request(&[("url", URL), ("audit_type", "security_bug_audit")]);
    for _ in 0..2 {
        assert_eq!(queue_audit(&req, found(), true, &mut q).get_bool("ok"), Some(true));
    }
    assert_eq!(q.len(), 1, "duplicate audit_type must collapse to one entry");
}

#[test]
fn queue_audit_distinct_types_both_recorded() {
    let mut q = Vec::new();
    for at in ["security_bug_audit", "drift_audit"] {
        let req = request(&[("url", URL), ("audit_type", at)]);
        assert_eq!(queue_audit(&req, found(), true, &mut q).get_bool("ok"), Some(true));
    }
    assert!(q.iter().any(|a| a.audit_type == "security_bug_audit"));
    assert!(q.iter().any(|a| a.audit_type == "drift_audit"));
    assert_eq!(q.len(), 2);
}

#[test]
fn queue_audit_unknown_url_returns_error() {
    let mut q = Vec::new();
    let req = request(&[
        ("url", "git@github.com:owner/UNKNOWN.git"),
        ("audit_type", "security_bug_audit"),
    ]);
    let resp = queue_audit(&req, nowhere(), true, &mut q);
    assert_eq!(resp.get_bool("ok"), Some(false));
    assert!(text(&resp, "error").contains("no repository configured"));
    let idle = queue_audit(&req, found(), false, &mut q);
    assert!(text(&idle, "error").starts_with("no live polling task for"));
    assert!(q.is_empty());
}

#[test]
fn queue_audit_missing_audit_type_field_returns_error() {
    let mut q = Vec::new();
    let resp = queue_audit(&request(&[("url", URL)]), found(), true, &mut q);
    assert_eq!(resp.get_bool("ok"), Some(false));
    assert_eq!(text(&resp, "error"), "missing `audit_type` field");
    let nowhere = queue_audit(&request(&[("audit_type", "a")]), found(), true, &mut q);
    assert_eq!(text(&nowhere, "error"), "missing `url` or `workspace` field");
}

#[test]
fn an_audit_is_found_by_its_workspace() {
    let parsed = request(&[("audit_type", "a"), ("workspace", "/ws")]);
    let request = AuditRequest::read(&parsed).unwrap();
    let known = resolve_audit_url(&request.target, &Some(URL.to_string()), "x").unwrap();
    assert_eq!(known, URL);
    let unknown = resolve_audit_url(&request.target, &None, "/a, /b").unwrap_err();
    assert_eq!(
        text(&unknown, "error"),
        "no managed repository found for workspace path `/ws`; the daemon is managing: /a, /b"
    );
}

#[test]
fn an_audit_remembers_who_asked() {
    for (channel, ts, thread) in [("C", "1.2", Some("1.2")), ("C", "", None)] {
        let mut q = Vec::new();
        let req = request(&[
            ("url", URL),
            ("audit_type", "a"),
            ("channel", channel),
            ("thread_ts", ts),
        ]);
        queue_audit(&req, found(), true, &mut q);
        let origin = q[0].origin.as_ref().unwrap();
        assert_eq!(origin.channel, "C");
        assert_eq!(origin.thread_ts.as_deref(), thread);
    }
    let mut q = Vec::new();
    let req = request(&[("url", URL), ("audit_type", "a"), ("channel", ""), ("thread_ts", "1")]);
    queue_audit(&req, found(), true, &mut q);
    assert!(q[0].origin.is_none());
}

#[test]
fn a_triage_waits_once() {
    let mut q = Vec::new();
    let req = request(&[("thread_ts", "7.7")]);
    let thread =
        || Ok(Some(AuditThread { repo_url: URL.into(), audit_type: "drift_audit".into() }));
    for _ in 0..2 {
        let resp = handle_trigger_audit_action(&req, thread(), found(), true, &mut q);
        assert_eq!(resp.get_bool("ok"), Some(true));
        assert_eq!(text(&resp, "thread_ts"), "7.7");
        assert_eq!(text(&resp, "url"), URL);
        assert_eq!(text(&resp, "audit_type"), "drift_audit");
        assert_eq!(resp.get_u64("poll_interval_sec"), Some(60));
    }
    assert_eq!(q, vec!["7.7".to_string()]);
}

#[test]
fn a_triage_that_cannot_wait_is_refused() {
    let mut q = Vec::new();
    let req = request(&[("thread_ts", "7.7")]);
    let thread = || Ok(Some(AuditThread { repo_url: URL.into(), audit_type: "a".into() }));
    let resp = handle_trigger_audit_action(&Json::Null, Ok(None), found(), true, &mut q);
    assert_eq!(text(&resp, "error"), "missing `thread_ts` field");
    let resp = handle_trigger_audit_action(&req, Ok(None), found(), true, &mut q);
    assert_eq!(
        text(&resp, "error"),
        "no audit-thread state for thread_ts `7.7` (the chatops dispatcher should have caught this earlier)"
    );
    let resp = handle_trigger_audit_action(&req, Err("io".into()), found(), true, &mut q);
    assert_eq!(text(&resp, "error"), "reading audit-thread state: io");
    let resp = handle_trigger_audit_action(&req, thread(), nowhere(), true, &mut q);
    assert_eq!(text(&resp, "error"), "no repository configured");
    let resp = handle_trigger_audit_action(&req, thread(), found(), false, &mut q);
    assert!(text(&resp, "error").starts_with("no live polling task for"));
    assert!(q.is_empty());
}

fn promote(id: &str) -> PromoteRequest {
    PromoteRequest::read(&request(&[
        ("url", URL),
        ("candidate_id", id),
        ("channel", "C_OPS"),
        ("thread_ts", "1755.cand"),
    ]))
    .unwrap()
}

#[test]
fn promote_issue_candidate_writes_queues_and_is_idempotent() {
    let posted = Candidate { slug: "drop-newline".into(), status: CandidateStatus::Posted };
    let candidate = match plan_promotion(&promote("owner-myrepo-7"), found(), Ok(Some(posted))) {
        Promotion::Promote(c) => c,
        other => panic!("{other:?}"),
    };
    let resp = handle_promote_issue_candidate(&candidate, Ok("/ws/issues/drop-newline".into()));
    assert_eq!(resp.get_bool("ok"), Some(true));
    assert_eq!(text(&resp, "slug"), "drop-newline");
    assert_eq!(text(&resp, "path"), "/ws/issues/drop-newline");

    let promoted = Candidate { slug: "drop-newline".into(), status: CandidateStatus::Promoted };
    match plan_promotion(&promote("owner-myrepo-7"), found(), Ok(Some(promoted))) {
        Promotion::Reply(resp2) => {
            assert_eq!(resp2.get_bool("ok"), Some(true));
            assert_eq!(resp2.get_bool("already_promoted"), Some(true));
            assert_eq!(text(&resp2, "slug"), "drop-newline");
        }
        other => panic!("{other:?}"),
    }

    match plan_promotion(&promote("owner-myrepo-999"), found(), Ok(None)) {
        Promotion::Reply(resp3) => {
            assert_eq!(resp3.get_bool("ok"), Some(false));
            assert_eq!(
                text(&resp3, "error"),
                "no issue candidate `owner-myrepo-999` recorded"
            );
        }
        other => panic!("{other:?}"),
    }
}

#[test]
fn promotions_that_fail_say_why() {
    for (state, why) in [
        (nowhere(), "no repository configured"),
        (found(), "reading issue candidate: io"),
    ] {
        match plan_promotion(&promote("x"), state, Err("io".into())) {
            Promotion::Reply(j) => assert_eq!(text(&j, "error"), why),
            other => panic!("{other:?}"),
        }
    }
    let c = Candidate { slug: "s".into(), status: CandidateStatus::Posted };
    let failed = handle_promote_issue_candidate(&c, Err("exists".into()));
    assert_eq!(text(&failed, "error"), "exists");
    for (fields, why) in [
        (vec![], "url"),
        (vec![("url", "u")], "candidate_id"),
        (vec![("url", "u"), ("candidate_id", "c")], "channel"),
        (vec![("url", "u"), ("candidate_id", "c"), ("channel", "h")], "thread_ts"),
    ] {
        let e = PromoteRequest::read(&request(&fields)).unwrap_err();
        assert_eq!(text(&e, "error"), format!("missing `{why}` field"));
    }
}

#[test]
fn a_rebuild_waits_or_runs_now() {
    let later = RebuildRequest::read(&request(&[("url", URL)])).unwrap();
    let mut pending = false;
    match plan_rebuild(&later, found(), true, &mut pending) {
        Rebuild::Reply(j) => {
            assert_eq!(j.get_bool("ok"), Some(true));
            assert_eq!(j.get_bool("immediate"), Some(false));
            assert_eq!(j.get_bool("scheduled"), Some(true));
            assert_eq!(j.get_u64("poll_interval_sec"), Some(60));
        }
        other => panic!("{other:?}"),
    }
    assert!(pending);

    let now = RebuildRequest::read(
        &Fields::new().text("url", URL).flag("immediate", true).finish(),
    )
    .unwrap();
    let mut pending = false;
    assert!(matches!(
        plan_rebuild(&now, found(), false, &mut pending),
        Rebuild::Now(repo) if repo.workspace == "/ws"
    ));
    assert!(!pending);
    let done = handle_rebuild_specs(&now, Ok(()), Ok(Json::Uint(4)));
    assert_eq!(done.get_bool("immediate"), Some(true));
    assert_eq!(done.get_u64("report"), Some(4));
    assert_eq!(
        text(&handle_rebuild_specs(&now, Err("busy".into()), Ok(Json::Null)), "error"),
        "--immediate coordination failed: busy"
    );
    assert_eq!(
        text(&handle_rebuild_specs(&now, Ok(()), Err("io".into())), "error"),
        "rebuild failed: io"
    );
}

#[test]
fn rebuilds_that_cannot_begin_are_refused() {
    let later = RebuildRequest::read(&request(&[("url", URL)])).unwrap();
    let mut pending = false;
    for (state, live, why) in [
        (nowhere(), true, "no repository configured"),
        (found(), false, "no live polling task for"),
    ] {
        match plan_rebuild(&later, state, live, &mut pending) {
            Rebuild::Reply(j) => assert!(text(&j, "error").starts_with(why)),
            other => panic!("{other:?}"),
        }
    }
    assert!(!pending);
    let e = RebuildRequest::read(&Json::Null).unwrap_err();
    assert_eq!(text(&e, "error"), "missing `url` field");
}
