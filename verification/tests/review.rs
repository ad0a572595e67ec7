use autocoder::control_socket::request::{Found, RepositoryConfig};
use autocoder::control_socket::review::{
    ReviewEnd, ReviewEvent, ReviewReport, ReviewRequest, ReviewRun, ReviewStep, ReviewWords,
    ReviewerKind,
};
use autocoder::json::{Fields, Json};

fn found() -> Found {
    Ok(RepositoryConfig {
        url: "git@github.com:owner/repo.git".to_string(),
        workspace: "/ws".to_string(),
        base_branch: "main".to_string(),
        agent_branch: "agent-q".to_string(),
        upstream_branch: None,
        poll_interval_sec: 60,
        auto_submit_pr: true,
    })
}

fn text(reply: &Json, key: &str) -> String {
    reply.get_str(key).unwrap_or_else(|| panic!("no `{key}` in {reply:?}"))
}

fn report() -> ReviewReport {
    ReviewReport {
        verdict: "approve".into(),
        markdown: "fine".into(),
        sessions: 2,
        chunk_labels: vec!["src".into()],
        attribution: Json::Null,
    }
}

/// What happens during a review.
struct Scene {
    parsed: Result<Option<u64>, String>,
    found: Found,
    is_dir: bool,
    kind: ReviewerKind,
    surface: Result<(), String>,
    ended: Result<ReviewEnd, String>,
    commented: Result<(), String>,
}

fn scene() -> Scene {
    Scene {
        parsed: Ok(None),
        found: found(),
        is_dir: true,
        kind: ReviewerKind::Agentic,
        surface: Ok(()),
        ended: Ok(ReviewEnd::Reviewed(report())),
        commented: Ok(()),
    }
}

fn review(scene: Scene) -> (Vec<String>, Json) {
    let words = ReviewWords {
        key: "critic".into(),
        comment_title: "On-demand look".into(),
        verdict_label: "Finding".into(),
    };
    let (mut run, mut step) = ReviewRun::start(words);
    let mut found = Some(scene.found);
    let mut ended = Some(scene.ended);
    let mut steps = Vec::new();
    loop {
        steps.push(format!("{step:?}"));
        let event = match step {
            ReviewStep::Reply(reply) => {
                steps.pop();
                return (steps, reply);
            }
            ReviewStep::ParseTarget => ReviewEvent::Parsed(scene.parsed.clone()),
            ReviewStep::FindRepo => ReviewEvent::Found(found.take().unwrap()),
            ReviewStep::CheckWorkspace { .. } => ReviewEvent::IsDir(scene.is_dir),
            ReviewStep::CheckReviewer => ReviewEvent::Reviewer(scene.kind),
            ReviewStep::ResolveSurface { .. } => ReviewEvent::Surface(scene.surface.clone()),
            ReviewStep::RunReview => ReviewEvent::Ended(ended.take().unwrap()),
            ReviewStep::PostComment { .. } => ReviewEvent::Commented(scene.commented.clone()),
        };
        (run, step) = run.advance(event);
    }
}

#[test]
fn review_target_rejects_malformed_target() {
    let (steps, resp) = review(Scene {
        parsed: Err("`notanumber` is not a valid PR number".into()),
        ..scene()
    });
    assert_eq!(resp.get_bool("ok"), Some(false));
    assert!(text(&resp, "error").contains("not a valid PR number"));
    assert_eq!(steps, vec!["ParseTarget"]);
}

#[test]
fn review_target_unknown_repo_errors() {
    let (_, resp) = review(Scene {
        found: Err("no configured repository matches".into()),
        ..scene()
    });
    assert_eq!(resp.get_bool("ok"), Some(false));
    assert!(text(&resp, "error").contains("no configured repository"));
}

#[test]
fn a_review_gives_its_verdict() {
    let (steps, resp) = review(scene());
    assert_eq!(resp.get_bool("ok"), Some(true));
    assert_eq!(text(&resp, "verdict"), "approve");
    assert_eq!(text(&resp, "body"), "fine");
    assert_eq!(resp.get_u64("sessions"), Some(2));
    assert_eq!(resp.get_array("chunks").unwrap(), &vec![Json::Str("src".into())]);
    assert_eq!(resp.get("attribution"), Some(&Json::Null));
    assert_eq!(
        steps,
        vec![
            "ParseTarget",
            "FindRepo",
            "CheckWorkspace { path: \"/ws\" }",
            "CheckReviewer",
            "ResolveSurface { base_branch: \"main\", remote: \"origin\" }",
            "RunReview",
        ]
    );
}

#[test]
fn the_verdict_on_a_pull_request_is_posted_as_a_comment() {
    for commented in [Ok(()), Err("forbidden".to_string())] {
        let (steps, resp) = review(Scene { parsed: Ok(Some(12)), commented, ..scene() });
        assert_eq!(resp.get_bool("ok"), Some(true), "the verdict stands");
        assert_eq!(text(&resp, "verdict"), "approve");
        assert_eq!(
            steps.last().unwrap(),
            "PostComment { pr_number: 12, body: \"## On-demand look\\n\\n**Finding: approve**\\n\\nfine\" }"
        );
    }
}

#[test]
fn a_session_without_a_verdict_is_no_approval() {
    let (_, resp) = review(Scene {
        parsed: Ok(Some(1)),
        ended: Ok(ReviewEnd::Discarded { reason: "no submission".into() }),
        ..scene()
    });
    assert_eq!(resp.get_bool("ok"), Some(false));
    assert_eq!(resp.get_bool("discarded"), Some(true));
    assert_eq!(text(&resp, "error"), "no submission");
}

#[test]
fn each_failure_of_a_review_is_named() {
    for (s, why) in [
        (
            Scene { is_dir: false, ..scene() },
            "workspace /ws does not exist yet; the daemon must clone the repo before an on-demand review can run",
        ),
        (
            Scene { kind: ReviewerKind::Disabled, ..scene() },
            "critic is not configured/enabled; on-demand review requires an agentic critic (set critic.enabled and critic.kind: agentic)",
        ),
        (
            Scene { kind: ReviewerKind::Oneshot, ..scene() },
            "on-demand review requires the agentic critic transport, but the critic resolved to `oneshot` (its CLI may be unavailable on this host). Install the critic CLI or set critic.kind: agentic.",
        ),
        (
            Scene { surface: Err("no such commit".into()), ..scene() },
            "resolving review target: no such commit",
        ),
        (Scene { ended: Err("timeout".into()), ..scene() }, "on-demand review failed: timeout"),
    ] {
        let (_, resp) = review(s);
        assert_eq!(resp.get_bool("ok"), Some(false));
        assert_eq!(text(&resp, "error"), why);
    }
}

#[test]
fn a_review_names_its_target() {
    let target = Json::Array(vec![Json::Str("pr".into()), Json::Uint(7), Json::Str("8".into())]);
    let q = ReviewRequest::read(&Fields::new().text("url", "u").with("target", target).finish())
        .unwrap();
    assert_eq!(q.url, "u");
    assert_eq!(q.target, vec!["pr".to_string(), "8".to_string()]);
    let none = ReviewRequest::read(&Fields::new().text("url", "u").finish()).unwrap_err();
    assert_eq!(text(&none, "error"), "missing `target` field (array of tokens)");
    assert_eq!(
        text(&ReviewRequest::read(&Json::Null).unwrap_err(), "error"),
        "missing `url` field"
    );
}
