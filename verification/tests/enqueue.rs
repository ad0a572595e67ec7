use autocoder::clock::Timestamp;
use autocoder::control_socket::enqueue::{
    handle_queue_brownfield_batch_request, handle_queue_brownfield_request,
    handle_queue_brownfield_survey_request, handle_queue_changelog_request,
    handle_queue_clear_scout, handle_queue_clear_survey, handle_queue_proposal_request,
    handle_queue_scout_request, handle_queue_spec_it_request, handle_queue_sync_upstream_request,
    handle_revision_advise, handle_revision_execute, BrownfieldRequest, ChangelogRequest,
    ProposalRequest,
};
use autocoder::control_socket::request::{Found, RepositoryConfig};
use autocoder::json::{Fields, Json};
use std::collections::VecDeque;

const URL: &str = "git@github.com:owner/repo.git";
const NOW: Timestamp = Timestamp { seconds: 9, nanos: 1 };

fn found() -> Found {
    Ok(RepositoryConfig {
        url: URL.to_string(),
        workspace: "/ws".to_string(),
        base_branch: "main".to_string(),
        agent_branch: "agent-q".to_string(),
        upstream_branch: None,
        poll_interval_sec: 60,
        auto_submit_pr: true,
    })
}

fn nowhere() -> Found {
    Err("no repository configured".to_string())
}

fn request(fields: &[(&str, &str)]) -> Json {
    let mut f = Fields::new();
    for (k, v) in fields {
        f = f.text(k, v);
    }
    f.finish()
}

fn text(reply: &Json, key: &str) -> String {
    reply.get_str(key).unwrap_or_else(|| panic!("no `{key}` in {reply:?}"))
}

fn proposal(id: &str) -> ProposalRequest {
    ProposalRequest {
        request_id: id.to_string(),
        channel: "C1".to_string(),
        thread_ts: "1.1".to_string(),
        operator_user: "U1".to_string(),
        request_text: "do a thing".to_string(),
        submitted_at: NOW,
    }
}

#[test]
fn revision_advise_action_queues_request() {
    let mut q = VecDeque::new();
    let req = request(&[
        ("url", URL),
        ("change", "a03-x"),
        ("channel", "C1"),
        ("thread_ts", "9.9"),
        ("reply_text", "align to canon?"),
    ]);
    let resp = handle_revision_advise(&req, found(), true, &mut q, NOW);
    assert_eq!(resp.get_bool("ok"), Some(true));
    assert_eq!(text(&resp, "change"), "a03-x");
    assert_eq!(q.len(), 1, "advise queue should have one entry");
    assert_eq!(q[0].change_slug, "a03-x");
    assert_eq!(q[0].reply_text, "align to canon?");
    assert_eq!(q[0].thread_ts, "9.9");
    assert_eq!(q[0].submitted_at, NOW);
    handle_revision_advise(&req, found(), true, &mut q, NOW);
    assert_eq!(q.len(), 1);
    let other = request(&[
        ("url", URL),
        ("change", "a03-x"),
        ("channel", "C1"),
        ("thread_ts", "9.9"),
    ]);
    handle_revision_advise(&other, found(), true, &mut q, NOW);
    assert_eq!(q.len(), 2, "another text is another request");
    assert_eq!(q[1].reply_text, "");
}

#[test]
fn revision_execute_action_queues_request_deduped() {
    let mut q = VecDeque::new();
    let req =
        request(&[("url", URL), ("change", "a03-x"), ("channel", "C1"), ("thread_ts", "9.9")]);
    let resp = handle_revision_execute(&req, found(), true, &mut q, NOW);
    assert_eq!(resp.get_bool("ok"), Some(true));
    let resp2 = handle_revision_execute(&req, found(), true, &mut q, NOW);
    assert_eq!(resp2.get_bool("ok"), Some(true));
    assert_eq!(q.len(), 1, "execute queue should de-dupe on change_slug");
    assert_eq!(q[0].change_slug, "a03-x");
}

#[test]
fn revision_execute_unknown_repo_is_refused() {
    let mut q = VecDeque::new();
    let req = request(&[
        ("url", "git@github.com:owner/nope.git"),
        ("change", "a03-x"),
        ("channel", "C1"),
        ("thread_ts", "9.9"),
    ]);
    let resp = handle_revision_execute(&req, nowhere(), true, &mut q, NOW);
    assert_eq!(resp.get_bool("ok"), Some(false));
    assert!(q.is_empty());
}

#[test]
fn queue_proposal_request_loads_state_enqueues_and_dedupes() {
    let mut q = Vec::new();
    let req = request(&[("url", URL), ("request_id", "req-1")]);
    let resp =
        handle_queue_proposal_request(&req, found(), Ok(Some(proposal("req-1"))), true, &mut q);
    assert_eq!(resp.get_bool("ok"), Some(true));
    assert_eq!(text(&resp, "url"), URL);
    assert_eq!(text(&resp, "request_id"), "req-1");
    assert_eq!(resp.get_u64("poll_interval_sec"), Some(60));
    let resp2 =
        handle_queue_proposal_request(&req, found(), Ok(Some(proposal("req-1"))), true, &mut q);
    assert_eq!(resp2.get_bool("ok"), Some(true));
    assert_eq!(q.len(), 1, "proposal queue should de-dupe on request_id");
    assert_eq!(q[0].request_id, "req-1");
    assert_eq!(q[0].request_text, "do a thing");
}

#[test]
fn queue_proposal_request_missing_state_is_error() {
    let mut q = Vec::new();
    let req = request(&[("url", URL), ("request_id", "ghost")]);
    let resp = handle_queue_proposal_request(&req, found(), Ok(None), true, &mut q);
    assert_eq!(resp.get_bool("ok"), Some(false));
    assert_eq!(
        text(&resp, "error"),
        "no proposal-request state file found for request_id `ghost` under repo `git@github.com:owner/repo.git`"
    );
    let unread = handle_queue_proposal_request(&req, found(), Err("io".into()), true, &mut q);
    assert_eq!(text(&unread, "error"), "reading proposal-request state: io");
    assert!(q.is_empty(), "nothing should be queued");
}

#[test]
fn refusals_come_in_order() {
    let mut q = Vec::new();
    let full = request(&[("url", URL), ("request_id", "r")]);
    let resp = handle_queue_proposal_request(&Json::Null, nowhere(), Ok(None), false, &mut q);
    assert_eq!(text(&resp, "error"), "missing `url` field");
    let bare = request(&[("url", URL)]);
    let resp = handle_queue_proposal_request(&bare, nowhere(), Ok(None), false, &mut q);
    assert_eq!(text(&resp, "error"), "missing `request_id` field");
    let resp = handle_queue_proposal_request(&full, nowhere(), Ok(None), false, &mut q);
    assert_eq!(text(&resp, "error"), "no repository configured");
    let resp = handle_queue_proposal_request(&full, found(), Ok(None), false, &mut q);
    assert!(text(&resp, "error").starts_with("no proposal-request state file found"));
    let resp = handle_queue_proposal_request(&full, found(), Ok(Some(proposal("r"))), false, &mut q);
    assert_eq!(
        text(&resp, "error"),
        "no live polling task for `git@github.com:owner/repo.git` (daemon may not have spawned it yet)"
    );
    assert!(q.is_empty());
}

#[test]
fn changelog_and_brownfield_requests_wait_once() {
    let req = request(&[("url", URL), ("request_id", "r")]);
    let changelog = || ChangelogRequest {
        request_id: "r".into(),
        repo_url: URL.into(),
        raw_args: "v1..v2".into(),
        channel: "C".into(),
        lifecycle_thread_ts: "1".into(),
        submitted_at: NOW,
    };
    let mut q = Vec::new();
    for _ in 0..2 {
        let resp =
            handle_queue_changelog_request(&req, found(), Ok(Some(changelog())), true, &mut q);
        assert_eq!(text(&resp, "request_id"), "r");
    }
    assert_eq!(q.len(), 1);
    assert_eq!(q[0].raw_args, "v1..v2");
    let none = handle_queue_changelog_request(&req, found(), Ok(None), true, &mut q);
    assert!(text(&none, "error").starts_with("no changelog-request state file found"));

    let brownfield = || BrownfieldRequest {
        request_id: "r".into(),
        repo_url: URL.into(),
        capability_name: "auth".into(),
        guidance: None,
        channel: "C".into(),
        thread_ts: "1".into(),
        submitted_at: NOW,
    };
    let mut q = VecDeque::new();
    for _ in 0..2 {
        let resp =
            handle_queue_brownfield_request(&req, found(), Ok(Some(brownfield())), true, &mut q);
        assert_eq!(text(&resp, "request_id"), "r");
    }
    assert_eq!(q.len(), 1);
    let none = handle_queue_brownfield_request(&req, found(), Ok(None), true, &mut q);
    assert_eq!(
        text(&none, "error"),
        "no brownfield-request state file found for request_id `r` under workspace `/ws`"
    );
}

#[test]
fn queue_scout_request_enqueues_and_dedupes() {
    let mut q = VecDeque::new();
    let req = request(&[
        ("url", URL),
        ("request_id", "s-1"),
        ("channel", "C1"),
        ("thread_ts", "2.2"),
        ("guidance", "look here"),
    ]);
    let resp = handle_queue_scout_request(&req, found(), true, &mut q, NOW);
    assert_eq!(resp.get_bool("ok"), Some(true));
    assert_eq!(text(&resp, "request_id"), "s-1");
    assert_eq!(resp.get_u64("poll_interval_sec"), Some(60));
    handle_queue_scout_request(&req, found(), true, &mut q, NOW);
    assert_eq!(q.len(), 1, "scout queue should de-dupe on request_id");
    assert_eq!(q[0].request_id, "s-1");
    assert_eq!(q[0].guidance.as_deref(), Some("look here"));
}

#[test]
fn queue_scout_request_unknown_repo_is_refused() {
    let mut q = VecDeque::new();
    let req = request(&[
        ("url", "git@github.com:owner/nope.git"),
        ("request_id", "s-1"),
        ("channel", "C1"),
        ("thread_ts", "2.2"),
    ]);
    let resp = handle_queue_scout_request(&req, nowhere(), true, &mut q, NOW);
    assert_eq!(resp.get_bool("ok"), Some(false));
    assert!(q.is_empty());
}

#[test]
fn queue_spec_it_request_enqueues_without_dedup() {
    let mut q = VecDeque::new();
    let req = Fields::new()
        .text("url", URL)
        .text("scout_request_id", "s-1")
        .number("item_id", 2)
        .text("channel", "C1")
        .text("thread_ts", "3.3")
        .finish();
    let resp = handle_queue_spec_it_request(&req, found(), true, &mut q, NOW);
    assert_eq!(resp.get_bool("ok"), Some(true));
    assert_eq!(text(&resp, "url"), URL);
    assert!(resp.get("request_id").is_none());
    assert_eq!(resp.get_u64("poll_interval_sec"), Some(60));
    handle_queue_spec_it_request(&req, found(), true, &mut q, NOW);
    assert_eq!(q.len(), 2, "spec_it requests are not de-duplicated");
    assert_eq!(q[0].item_id, 2);
    assert_eq!(q[0].scout_request_id, "s-1");
    let unnumbered = request(&[("url", URL), ("scout_request_id", "s"), ("item_id", "2")]);
    let resp = handle_queue_spec_it_request(&unnumbered, found(), true, &mut q, NOW);
    assert_eq!(text(&resp, "error"), "missing `item_id` field");
}

#[test]
fn queue_brownfield_batch_request_enqueues_and_dedupes() {
    let mut q = VecDeque::new();
    let req = request(&[
        ("url", URL),
        ("survey_request_id", "sv-1"),
        ("channel", "C1"),
        ("thread_ts", "4.4"),
    ]);
    let resp = handle_queue_brownfield_batch_request(&req, found(), true, &mut q, NOW);
    assert_eq!(resp.get_bool("ok"), Some(true));
    assert_eq!(text(&resp, "survey_request_id"), "sv-1");
    assert_eq!(resp.get_u64("poll_interval_sec"), Some(60));
    handle_queue_brownfield_batch_request(&req, found(), true, &mut q, NOW);
    assert_eq!(q.len(), 1, "batch queue should de-dupe on survey_request_id");
    assert_eq!(q[0].survey_request_id, "sv-1");
}

#[test]
fn surveys_and_syncs_wait_once() {
    let req = request(&[("url", URL), ("request_id", "r"), ("channel", "C"), ("thread_ts", "1")]);
    let mut surveys = VecDeque::new();
    let mut syncs = VecDeque::new();
    for _ in 0..2 {
        handle_queue_brownfield_survey_request(&req, found(), true, &mut surveys, NOW);
        handle_queue_sync_upstream_request(&req, found(), true, &mut syncs, NOW);
    }
    assert_eq!((surveys.len(), syncs.len()), (1, 1));
    assert_eq!(surveys[0].guidance, None);
    let bare = request(&[("url", URL), ("request_id", "r2"), ("channel", "C")]);
    handle_queue_sync_upstream_request(&bare, found(), true, &mut syncs, NOW);
    assert_eq!(syncs[1].thread_ts, "", "a sync may come from no thread");
    let refused = handle_queue_brownfield_survey_request(&bare, found(), true, &mut surveys, NOW);
    assert_eq!(text(&refused, "error"), "missing `thread_ts` field");
}

#[test]
fn cleared_state_is_counted() {
    let req = request(&[("url", URL)]);
    let resp = handle_queue_clear_scout(&req, found(), Ok(3));
    assert_eq!(resp.get_bool("ok"), Some(true));
    assert_eq!(resp.get_u64("cleared"), Some(3));
    let resp = handle_queue_clear_scout(&req, found(), Err("denied".into()));
    assert_eq!(text(&resp, "error"), "clearing scout state: denied");
    let resp = handle_queue_clear_survey(&req, found(), Err("denied".into()));
    assert_eq!(text(&resp, "error"), "clearing brownfield-survey state: denied");
    assert_eq!(
        text(&handle_queue_clear_survey(&req, nowhere(), Ok(1)), "error"),
        "no repository configured"
    );
    assert_eq!(
        text(&handle_queue_clear_scout(&Json::Null, found(), Ok(1)), "error"),
        "missing `url` field"
    );
}
