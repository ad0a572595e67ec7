use autocoder::clock::Timestamp;
use autocoder::control_socket::request::RepositoryConfig;
use autocoder::control_socket::status::{
    build_repo_status, handle_repo_status, handle_repo_status_all, latest_pr_query,
    list_live_repositories, read_perma_marker, read_revision_marker, truncate, AlertFact,
    AlertFacts, MarkedChange, MarkedChanges, StatusFacts, StatusResult, WorkspaceFacts,
};
use autocoder::failure_state::FailureEntry;
use autocoder::json::{Fields, Json};

const URL: &str = "git@github.com:owner/myrepo.git";
/// The beginning of 2026.
const NEW_YEAR: Timestamp = Timestamp { seconds: 1_767_225_600, nanos: 0 };
const NOW: Timestamp = Timestamp { seconds: 2_000_000_000, nanos: 7 };

fn repo(url: &str) -> RepositoryConfig {
    RepositoryConfig {
        url: url.to_string(),
        workspace: "/ws".to_string(),
        base_branch: "main".to_string(),
        agent_branch: "agent-q".to_string(),
        upstream_branch: None,
        poll_interval_sec: 60,
        auto_submit_pr: false,
    }
}

fn at(seconds: i64) -> Timestamp {
    Timestamp { seconds, nanos: 0 }
}

fn alert(name: &str, seconds: i64) -> AlertFact {
    AlertFact { name: name.into(), last_alerted_at: at(seconds) }
}

fn failure(reason: &str, seconds: i64) -> FailureEntry {
    FailureEntry { count: 1, last_reason: reason.into(), last_failed_at: at(seconds) }
}

fn workspace() -> WorkspaceFacts<u8> {
    WorkspaceFacts {
        last_commit_base: Ok(Some(1)),
        last_commit_agent: Ok(None),
        marked: Ok(MarkedChanges {
            perma_stuck: vec![MarkedChange {
                change: "a06-foo".into(),
                marker_text: r#"{"change":"a06-foo","consecutive_failures":2,"last_reason":"x","marked_stuck_at":"2026-01-01T00:00:00Z","operator_action":"x"}"#.into(),
                has_ignore_for_queue: true,
            }],
            needs_revision: vec![MarkedChange {
                change: "a07-bar".into(),
                marker_text: r#"{"change":"a07-bar","marked_at":"2026-01-01T00:00:00Z","unimplementable_tasks":[],"revision_suggestion":"x","operator_action":"x"}"#.into(),
                has_ignore_for_queue: false,
            }],
        }),
        alerts: AlertFacts {
            categories: vec![alert("push_failed", 1)],
            perma_stuck: vec![alert("a06-foo", 2)],
            spec_revision: vec![alert("a07-bar", 3)],
        },
        pending: Ok(vec!["a08-ready".into()]),
        waiting: Ok(vec!["a09-waiting".into()]),
        failures: Ok(vec![failure("old", 100), failure("new", 300), failure("mid", 200)]),
    }
}

fn facts(workspace: Option<WorkspaceFacts<u8>>) -> StatusFacts<&'static str, u8, u64> {
    StatusFacts { currently_busy: Some("busy"), latest_pr: Some(12), workspace }
}

fn text(reply: &Json, key: &str) -> String {
    reply.get_str(key).unwrap_or_else(|| panic!("no `{key}` in {reply:?}"))
}

#[test]
fn repo_status_assembles_marker_alert_and_queue_snapshot() {
    let s = build_repo_status(&repo(URL), facts(Some(workspace())), NOW).unwrap();
    assert_eq!(s.url, URL);
    assert_eq!((s.base_branch.as_str(), s.agent_branch.as_str()), ("main", "agent-q"));
    assert_eq!((s.currently_busy, s.latest_pr), (Some("busy"), Some(12)));
    assert_eq!((s.last_commit_base, s.last_commit_agent), (Some(1), None));
    assert_eq!(s.perma_stuck_changes.len(), 1);
    let stuck = &s.perma_stuck_changes[0];
    assert_eq!(stuck.change, "a06-foo");
    assert_eq!(stuck.marked_at, NEW_YEAR);
    assert_eq!(stuck.detail, "consecutive_failures: 2");
    assert!(stuck.has_ignore_for_queue);
    assert_eq!(s.revision_marked_changes.len(), 1);
    let revision = &s.revision_marked_changes[0];
    assert_eq!(revision.change, "a07-bar");
    assert_eq!(revision.marked_at, NEW_YEAR);
    assert_eq!(revision.detail, "");
    assert!(!revision.has_ignore_for_queue);
    let labels: Vec<(&str, i64, u64)> = s
        .throttled_alerts
        .iter()
        .map(|a| (a.label.as_str(), a.last_fired_at.seconds, a.throttle_window_hours))
        .collect();
    assert_eq!(
        labels,
        vec![("push_failed", 1, 24), ("perma_stuck:a06-foo", 2, 24), ("spec_revision:a07-bar", 3, 24)]
    );
    assert_eq!(s.pending_changes, vec!["a08-ready".to_string()]);
    assert_eq!(s.waiting_changes, vec!["a09-waiting".to_string()]);
    let last = s.last_iteration.unwrap();
    assert_eq!(last.finished_at, at(300));
    assert_eq!(last.outcome_summary, "last failure: new");
    assert_eq!(last.next_iteration_estimate, Some(at(360)));
    assert_eq!(last.poll_interval_sec, 60);
}

#[test]
fn repo_status_handles_missing_workspace_gracefully() {
    let s = build_repo_status(&repo(URL), facts(None), NOW).unwrap();
    assert!(s.perma_stuck_changes.is_empty());
    assert!(s.pending_changes.is_empty());
    assert!(s.last_iteration.is_none());
    assert_eq!((s.currently_busy, s.latest_pr), (Some("busy"), Some(12)));
}

#[test]
fn what_cannot_be_read_is_left_out() {
    let mut w = workspace();
    w.last_commit_base = Err("git".into());
    w.pending = Err("io".into());
    w.failures = Err("io".into());
    let s = build_repo_status(&repo(URL), facts(Some(w)), NOW).unwrap();
    assert_eq!(s.last_commit_base, None);
    assert!(s.pending_changes.is_empty());
    assert!(s.last_iteration.is_none());
    assert_eq!(s.waiting_changes.len(), 1);

    let mut healthy = workspace();
    healthy.failures = Ok(vec![]);
    let s = build_repo_status(&repo(URL), facts(Some(healthy)), NOW).unwrap();
    assert!(s.last_iteration.is_none());

    let mut unlisted = workspace();
    unlisted.marked = Err("reading markers".into());
    let e = build_repo_status(&repo(URL), facts(Some(unlisted)), NOW).unwrap_err();
    assert_eq!(e, "reading markers");
}

#[test]
fn an_unread_marker_counts_from_now() {
    for marker in ["", "{", "{}", r#"{"marked_stuck_at":"soon","marked_at":5}"#] {
        assert_eq!(read_perma_marker(marker, NOW), (NOW, String::new()));
        assert_eq!(read_revision_marker(marker, NOW), NOW);
    }
    let zero = read_perma_marker(r#"{"consecutive_failures":0}"#, NOW);
    assert_eq!(zero.1, "");
    let offset = read_revision_marker(r#"{"marked_at":"2026-01-01T02:00:00+02:00"}"#, NOW);
    assert_eq!(offset, NEW_YEAR);
}

#[test]
fn long_reasons_are_cut_short() {
    assert_eq!(truncate("äöü", 3), "äöü");
    assert_eq!(truncate("äöü", 2), "äö…");
    assert_eq!(truncate("", 0), "");
    let mut w = workspace();
    w.failures = Ok(vec![failure(&"x".repeat(81), 1)]);
    let s = build_repo_status(&repo(URL), facts(Some(w)), NOW).unwrap();
    assert_eq!(
        s.last_iteration.unwrap().outcome_summary,
        format!("last failure: {}…", "x".repeat(80))
    );
}

#[test]
fn repo_status_all_aggregates_one_round_trip_per_repo() {
    let resp = handle_repo_status_all(&vec![
        StatusResult {
            url: "git@github.com:owner/aaa.git".into(),
            status: Ok(Fields::new().text("url", "a").finish()),
        },
        StatusResult {
            url: "git@github.com:owner/bbb.git".into(),
            status: Ok(Fields::new().text("url", "b").finish()),
        },
        StatusResult { url: "broken".into(), status: Err("io".into()) },
    ]);
    assert_eq!(resp.get_bool("ok"), Some(true));
    let results = resp.get_array("results").unwrap();
    assert_eq!(results.len(), 3);
    assert_eq!(text(&results[0], "url"), "git@github.com:owner/aaa.git");
    assert_eq!(text(&results[1], "url"), "git@github.com:owner/bbb.git");
    for entry in &results[..2] {
        assert_eq!(entry.get_bool("ok"), Some(true));
        assert!(entry.get("status").is_some());
    }
    assert_eq!(results[2].get_bool("ok"), Some(false));
    assert_eq!(text(&results[2], "error"), "io");
}

#[test]
fn only_repositories_with_a_task_are_told_of() {
    let urls = vec!["b".to_string(), "gone".to_string(), "a".to_string()];
    let repos = vec![repo("a"), repo("idle"), repo("b"), repo("a")];
    assert_eq!(list_live_repositories(&urls, &repos), vec![2, 0]);
}

#[test]
fn a_status_is_asked_of_one_repository() {
    let parsed = Fields::new().text("url", URL).finish();
    let body = Fields::new().text("url", URL).finish();
    let resp = handle_repo_status(&parsed, Ok(repo(URL)), Ok(body));
    assert_eq!(resp.get_bool("ok"), Some(true));
    assert_eq!(text(resp.get("status").unwrap(), "url"), URL);
    let refused = |parsed: &Json, found, status| text(&handle_repo_status(parsed, found, status), "error");
    assert_eq!(refused(&Json::Null, Ok(repo(URL)), Ok(Json::Null)), "missing `url` field");
    assert_eq!(refused(&parsed, Err("no repo".into()), Ok(Json::Null)), "no repo");
    assert_eq!(refused(&parsed, Ok(repo(URL)), Err("io".into())), "io");
}

#[test]
fn status_shows_latest_pr_in_fork_pr_mode() {
    let r = repo("git@github.com:owner/repo.git");
    let q = latest_pr_query(&r, &Some("fork-acc".to_string())).unwrap();
    assert_eq!((q.owner.as_str(), q.repo.as_str()), ("owner", "repo"));
    assert_eq!((q.head_owner.as_str(), q.head_branch.as_str()), ("fork-acc", "agent-q"));
    let own = latest_pr_query(&r, &None).unwrap();
    assert_eq!(own.head_owner, "owner");
    assert!(latest_pr_query(&repo("nonsense"), &None).is_none());
}
