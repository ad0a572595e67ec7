use autocoder::control_socket::request::{Fork, RepositoryConfig};
use autocoder::control_socket::rollback::{
    parse_rollback_depth, RollbackDepth, RollbackPlan, RollbackRequest, RollbackRun,
};
use autocoder::control_socket::steps::{Acquired, BranchLink, Event, Step};
use autocoder::json::{Fields, Json};

const URL: &str = "git@github.com:owner/repo.git";

fn repo(auto_submit_pr: bool) -> RepositoryConfig {
    RepositoryConfig {
        url: URL.to_string(),
        workspace: "/ws".to_string(),
        base_branch: "main".to_string(),
        agent_branch: "agent-q".to_string(),
        upstream_branch: Some("trunk".to_string()),
        poll_interval_sec: 60,
        auto_submit_pr,
    }
}

fn plan(code_only: bool) -> RollbackPlan {
    let (changes, issues) = if code_only {
        (vec![], vec![])
    } else {
        (vec!["feature-a".to_string()], vec!["fix-thing".to_string()])
    };
    RollbackPlan {
        preview: "feature-a, fix-thing".to_string(),
        code_only,
        commit_count: 2,
        changes,
        issues,
        has_collisions: true,
    }
}

fn request(dry_run: bool) -> RollbackRequest {
    let parsed = Fields::new()
        .text("url", URL)
        .number("count", 2)
        .flag("dry_run", dry_run)
        .finish();
    RollbackRequest::read(&parsed).unwrap()
}

fn text(reply: &Json, key: &str) -> String {
    reply.get_str(key).unwrap_or_else(|| panic!("no `{key}` in {reply:?}"))
}

/// Runs a rollback to its reply. The step that begins with `stop` fails.
fn drive(dry_run: bool, auto_submit_pr: bool, code_only: bool, stop: &str) -> (Vec<String>, Json) {
    let (mut run, mut step) =
        RollbackRun::start(request(dry_run), Ok(repo(auto_submit_pr)), Fork::Unset).unwrap();
    let mut steps = Vec::new();
    loop {
        let name = format!("{step:?}");
        let fails = !stop.is_empty() && name.starts_with(stop);
        steps.push(name);
        let failed = || "e".to_string();
        let event = match step {
            Step::Reply(reply) => {
                steps.pop();
                return (steps, reply);
            }
            Step::ForcePreempt => {
                Event::Marker(Acquired::Held { preempted: Some("feature-a".to_string()) })
            }
            Step::ResolvePlan { .. } => {
                Event::Facts(if fails { Err(failed()) } else { Ok(plan(code_only)) })
            }
            Step::Link { .. } => Event::Linked(if fails {
                Err(failed())
            } else {
                Ok(BranchLink { branch_url: "b".to_string(), suggested_command: "c".to_string() })
            }),
            Step::OpenOrUpdatePr { .. } => Event::Opened(if fails {
                Err(failed())
            } else {
                Ok("https://github.com/owner/repo/pull/42".to_string())
            }),
            _ => Event::Outcome(if fails { Err(failed()) } else { Ok(()) }),
        };
        step = run.advance(event);
    }
}

#[test]
fn rollback_dry_run_acquires_no_marker() {
    let (steps, reply) = drive(true, true, false, "EnsureInitialized");
    assert_eq!(steps, vec!["EnsureInitialized"]);
    assert_eq!(text(&reply, "error"), "workspace init failed: e");
}

#[test]
fn rollback_dry_run_is_read_only_and_returns_plan() {
    for stop in ["", "Fetch"] {
        let (steps, resp) = drive(true, true, false, stop);
        assert_eq!(
            steps,
            vec![
                "EnsureInitialized",
                "Fetch { remote: \"origin\", branch: \"main\" }",
                "ResolvePlan { reference: \"origin/main\" }",
            ]
        );
        assert_eq!(resp.get_bool("ok"), Some(true));
        assert_eq!(resp.get_bool("dry_run"), Some(true));
        assert_eq!(resp.get_u64("commit_count"), Some(2));
        assert_eq!(resp.get_bool("code_only"), Some(false));
        assert_eq!(resp.get_bool("has_collisions"), Some(true));
        assert_eq!(resp.get_array("changes").unwrap(), &vec![Json::Str("feature-a".into())]);
        assert_eq!(resp.get_array("issues").unwrap(), &vec![Json::Str("fix-thing".into())]);
        let preview = text(&resp, "preview");
        assert!(preview.contains("feature-a"), "preview names the change: {preview}");
        assert!(preview.contains("fix-thing"), "preview names the issue: {preview}");
    }
}

#[test]
fn rollback_confirmed_end_to_end_forceful_reconcile_reuse_pr_no_target() {
    let (steps, resp) = drive(false, true, false, "ResetHard");
    assert_eq!(resp.get_bool("ok"), Some(true));
    assert_eq!(text(&resp, "outcome"), "pr_opened");
    assert_eq!(text(&resp, "pr_url"), "https://github.com/owner/repo/pull/42");
    assert_eq!(text(&resp, "preempted_change"), "feature-a");
    assert_eq!(
        steps,
        vec![
            "ForcePreempt",
            "EnsureInitialized",
            "Checkout { branch: \"main\" }",
            "ResetHard { branch: \"main\" }",
            "ResolvePlan { reference: \"main\" }",
            "RecreateBranch { branch: \"agent-q\" }",
            "PrepareTree",
            "Push { branch: \"agent-q\", remote: \"origin\" }",
            "OpenOrUpdatePr { head: \"agent-q\", base: \"main\", title: \"rollback: restore code (2 commit(s)) + unarchive 1 change(s) / 1 issue(s)\" }",
        ]
    );
}

#[test]
fn a_rollback_without_a_pull_request_links_the_branch() {
    let (steps, resp) = drive(false, false, true, "");
    assert_eq!(steps.last().unwrap(), "Link { branch: \"agent-q\", into: \"trunk\" }");
    assert_eq!(text(&resp, "outcome"), "branch_pushed_no_pr");
    assert_eq!(text(&resp, "branch_url"), "b");
    assert_eq!(text(&resp, "suggested_command"), "c");
    assert_eq!(resp.get_bool("code_only"), Some(true));
    let (steps, _) = drive(false, true, true, "");
    assert!(steps
        .last()
        .unwrap()
        .contains("rollback: restore code (2 commit(s)) — code-only"));
}

#[test]
fn each_failure_of_a_rollback_is_named() {
    for (dry, pr, stop, why) in [
        (true, true, "ResolvePlan", "e"),
        (false, true, "EnsureInitialized", "workspace init failed: e"),
        (false, true, "Checkout", "checkout base branch failed: e"),
        (false, true, "ResolvePlan", "e"),
        (false, true, "RecreateBranch", "recreating agent branch failed: e"),
        (false, true, "PrepareTree", "preparing rolled-back tree: e"),
        (false, true, "Push", "pushing rolled-back branch failed: e"),
        (false, true, "OpenOrUpdatePr", "opening rollback PR: e"),
        (false, false, "Link", "parsing repo url: e"),
    ] {
        let (_, reply) = drive(dry, pr, false, stop);
        assert_eq!(reply.get_bool("ok"), Some(false));
        assert_eq!(text(&reply, "error"), why);
    }
    for (marker, why) in [
        (Acquired::Busy("held".to_string()), "held"),
        (Acquired::Internal("io".to_string()), "rollback preempt failed: io"),
    ] {
        let (mut run, _) =
            RollbackRun::start(request(false), Ok(repo(true)), Fork::Unset).unwrap();
        match run.advance(Event::Marker(marker)) {
            Step::Reply(reply) => assert_eq!(text(&reply, "error"), why),
            other => panic!("{other:?}"),
        }
    }
}

#[test]
fn rollbacks_that_cannot_begin_are_refused() {
    let unknown = RollbackRun::start(request(true), Err("no such repo".into()), Fork::Unset);
    assert_eq!(text(&unknown.unwrap_err(), "error"), "no such repo");
    let fork = RollbackRun::start(request(true), Ok(repo(true)), Fork::Invalid("bad".into()));
    assert_eq!(text(&fork.unwrap_err(), "error"), "deriving fork url: bad");
}

#[test]
fn exactly_one_depth_is_given() {
    let read = |fields: Fields| RollbackRequest::read(&fields.text("url", URL).finish());
    assert_eq!(
        text(&read(Fields::new().number("count", 1).text("sha", "abc")).unwrap_err(), "error"),
        "provide EITHER `count` OR `sha`, not both"
    );
    assert_eq!(
        text(&read(Fields::new()).unwrap_err(), "error"),
        "missing rollback depth: provide `count` (last N commits) OR `sha` (target commit)"
    );
    let by_sha = read(Fields::new().text("sha", "abc")).unwrap();
    assert!(by_sha.dry_run, "a request is a dry run unless it says otherwise");
    assert!(matches!(by_sha.depth, RollbackDepth::Sha(s) if s == "abc"));
    assert!(matches!(
        parse_rollback_depth(&Fields::new().number("count", 3).finish()),
        Ok(RollbackDepth::Count(3))
    ));
    let no_url = RollbackRequest::read(&Fields::new().number("count", 1).finish());
    assert_eq!(text(&no_url.unwrap_err(), "error"), "missing `url` field");
}

#[test]
fn a_fork_is_where_the_branch_goes() {
    let (mut run, mut step) =
        RollbackRun::start(request(false), Ok(repo(true)), Fork::Url("f".into())).unwrap();
    loop {
        let event = match step {
            Step::ForcePreempt => Event::Marker(Acquired::Held { preempted: None }),
            Step::ResolvePlan { .. } => Event::Facts(Ok(plan(true))),
            Step::Push { remote, .. } => {
                assert_eq!(remote, "fork");
                break;
            }
            _ => Event::Outcome(Ok(())),
        };
        step = run.advance(event);
    }
}
