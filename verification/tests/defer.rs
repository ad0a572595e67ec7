use autocoder::control_socket::defer::{
    locate_for_defer, locate_for_undefer, DeferKind, DeferLocate, DeferRequest, DeferRun, Forms,
    Places,
};
use autocoder::control_socket::request::{Fork, RepositoryConfig};
use autocoder::control_socket::steps::{Acquired, BranchLink, Event, Step};
use autocoder::json::{Fields, Json};

const URL: &str = "git@github.com:owner/repo.git";
const NONE: Forms = Forms { change: false, issue_file: false, issue_dir: false };
const CHANGE: Forms = Forms { change: true, issue_file: false, issue_dir: false };
const FILE: Forms = Forms { change: false, issue_file: true, issue_dir: false };
const DIR: Forms = Forms { change: false, issue_file: false, issue_dir: true };

fn lane(lane: Forms) -> Places {
    Places { lane, deferred: NONE }
}

fn deferred(deferred: Forms) -> Places {
    Places { lane: NONE, deferred }
}

fn repo(auto_submit_pr: bool) -> RepositoryConfig {
    RepositoryConfig {
        url: URL.to_string(),
        workspace: "/ws".to_string(),
        base_branch: "main".to_string(),
        agent_branch: "agent-q".to_string(),
        upstream_branch: None,
        poll_interval_sec: 60,
        auto_submit_pr,
    }
}

fn request(slug: &str) -> DeferRequest {
    let parsed = Fields::new().text("url", URL).text("slug", slug).finish();
    DeferRequest::read(&parsed).unwrap()
}

/// A workspace that does what it is told, with what it was told.
struct Workspace {
    places: Places,
    marker: Option<Acquired>,
    reset: Result<(), String>,
    link: Option<Result<BranchLink, String>>,
    opened: Option<Result<String, String>>,
    steps: Vec<String>,
}

impl Workspace {
    fn new(places: Places) -> Self {
        Self {
            places,
            marker: Some(Acquired::Held { preempted: None }),
            reset: Ok(()),
            link: Some(Ok(BranchLink {
                branch_url: "https://h/owner/repo/tree/agent-q".to_string(),
                suggested_command: "gh pr create".to_string(),
            })),
            opened: Some(Err("no forge".to_string())),
            steps: Vec::new(),
        }
    }

    fn drive(&mut self, mut run: DeferRun) -> Json {
        let mut step = run.advance(Event::Outcome(Ok(())));
        loop {
            let name = format!("{step:?}");
            self.steps.push(name.split(' ').next().unwrap().to_string());
            let event = match step {
                Step::Reply(reply) => return reply,
                Step::Locate => Event::Facts(self.places),
                Step::Preempt => Event::Marker(self.marker.take().unwrap()),
                Step::ResetHard { .. } => Event::Outcome(self.reset.clone()),
                Step::Link { .. } => Event::Linked(self.link.take().unwrap()),
                Step::OpenPr { .. } => Event::Opened(self.opened.take().unwrap()),
                Step::Move { from, to } => {
                    self.steps.push(format!("{from} -> {to}"));
                    Event::Outcome(Ok(()))
                }
                _ => Event::Outcome(Ok(())),
            };
            step = run.advance(event);
        }
    }

    fn defer(&mut self, slug: &str, auto_submit_pr: bool) -> Json {
        let run = DeferRun::start(request(slug), true, Ok(repo(auto_submit_pr)), Fork::Unset);
        self.drive(run.unwrap().0)
    }

    fn undefer(&mut self, slug: &str) -> Json {
        let run = DeferRun::start(request(slug), false, Ok(repo(false)), Fork::Unset);
        self.drive(run.unwrap().0)
    }
}

fn text(reply: &Json, key: &str) -> String {
    reply.get_str(key).unwrap_or_else(|| panic!("no `{key}` in {reply:?}"))
}

#[test]
fn detection_defer_classifies_each_form_and_edges() {
    assert!(matches!(
        locate_for_defer(&lane(CHANGE), "/ws", "only-change"),
        DeferLocate::NeedsMove(DeferKind::Change)
    ));
    assert!(matches!(
        locate_for_defer(&lane(FILE), "/ws", "only-file"),
        DeferLocate::NeedsMove(DeferKind::IssueFile)
    ));
    assert!(matches!(
        locate_for_defer(&lane(DIR), "/ws", "only-dir"),
        DeferLocate::NeedsMove(DeferKind::IssueDir)
    ));
    assert!(matches!(locate_for_defer(&lane(NONE), "/ws", "nonesuch"), DeferLocate::NotFound));
    let dup = lane(Forms { change: true, issue_file: true, issue_dir: false });
    match locate_for_defer(&dup, "/ws", "dup") {
        DeferLocate::Ambiguous(names) => assert_eq!(
            names,
            "/ws/openspec/changes/dup (change) AND /ws/issues/dup.md (issue)"
        ),
        other => panic!("{other:?}"),
    }
}

#[test]
fn detection_undefer_classifies_each_form_and_edges() {
    assert!(matches!(
        locate_for_undefer(&deferred(CHANGE), "/ws", "dc"),
        DeferLocate::NeedsMove(DeferKind::Change)
    ));
    assert!(matches!(
        locate_for_undefer(&deferred(FILE), "/ws", "df"),
        DeferLocate::NeedsMove(DeferKind::IssueFile)
    ));
    assert!(matches!(
        locate_for_undefer(&deferred(DIR), "/ws", "dd"),
        DeferLocate::NeedsMove(DeferKind::IssueDir)
    ));
    assert!(matches!(locate_for_undefer(&deferred(NONE), "/ws", "nope"), DeferLocate::NotFound));
    let dup = deferred(Forms { change: false, issue_file: true, issue_dir: true });
    match locate_for_undefer(&dup, "/ws", "dup") {
        DeferLocate::Ambiguous(names) => assert_eq!(
            names,
            "/ws/deferred-issues/dup.md (issue) AND /ws/deferred-issues/dup (issue)"
        ),
        other => panic!("{other:?}"),
    }
}

#[test]
fn detection_idempotency_already_done() {
    assert!(matches!(
        locate_for_defer(&deferred(CHANGE), "/ws", "c01"),
        DeferLocate::AlreadyDone(DeferKind::Change)
    ));
    assert!(matches!(
        locate_for_undefer(&lane(DIR), "/ws", "i01"),
        DeferLocate::AlreadyDone(DeferKind::IssueDir)
    ));
}

#[test]
fn defer_change_moves_to_deferred_no_pr() {
    let mut ws = Workspace::new(lane(CHANGE));
    let resp = ws.defer("c01-foo", false);
    assert_eq!(resp.get_bool("ok"), Some(true));
    assert_eq!(text(&resp, "outcome"), "deferred");
    assert_eq!(text(&resp, "mechanism"), "branch_pushed_no_pr");
    assert_eq!(text(&resp, "branch"), "agent-q");
    assert_eq!(text(&resp, "kind"), "change");
    assert_eq!(text(&resp, "slug"), "c01-foo");
    assert_eq!(text(&resp, "url"), URL);
    assert_eq!(text(&resp, "branch_url"), "https://h/owner/repo/tree/agent-q");
    assert_eq!(text(&resp, "suggested_command"), "gh pr create");
    assert_eq!(resp.get("preempted_change"), Some(&Json::Null));
    assert_eq!(
        ws.steps,
        vec![
            "Locate",
            "Preempt",
            "EnsureInitialized",
            "Checkout",
            "ResetHard",
            "Locate",
            "RecreateBranch",
            "Move",
            "/ws/openspec/changes/c01-foo -> /ws/deferred-changes/c01-foo",
            "AddAll",
            "Commit",
            "Push",
            "Link",
            "Reply(Object([(\"ok\","
        ]
    );
}

#[test]
fn undefer_returns_unit_to_lane() {
    let mut ws = Workspace::new(deferred(CHANGE));
    let resp = ws.undefer("c01-foo");
    assert_eq!(resp.get_bool("ok"), Some(true));
    assert_eq!(text(&resp, "outcome"), "resumed");
    assert_eq!(text(&resp, "mechanism"), "branch_pushed_no_pr");
    assert!(ws
        .steps
        .contains(&"/ws/deferred-changes/c01-foo -> /ws/openspec/changes/c01-foo".to_string()));
}

#[test]
fn defer_single_file_issue_preserves_form() {
    let mut ws = Workspace::new(lane(FILE));
    let resp = ws.defer("i01-bar", false);
    assert_eq!(resp.get_bool("ok"), Some(true));
    assert_eq!(text(&resp, "kind"), "issue");
    assert!(ws
        .steps
        .contains(&"/ws/issues/i01-bar.md -> /ws/deferred-issues/i01-bar.md".to_string()));
}

#[test]
fn defer_already_deferred_is_noop_success() {
    let mut ws = Workspace::new(deferred(CHANGE));
    let resp = ws.defer("c01-foo", false);
    assert_eq!(resp.get_bool("ok"), Some(true));
    assert_eq!(text(&resp, "outcome"), "already_deferred");
    assert!(resp.get("mechanism").is_none(), "no-op performs no move");
    assert_eq!(text(&Workspace::new(lane(FILE)).undefer("x"), "outcome"), "already_active");
}

#[test]
fn defer_with_auto_submit_pr_takes_pr_path() {
    let mut ws = Workspace::new(lane(CHANGE));
    let resp = ws.defer("c01-foo", true);
    assert_eq!(resp.get_bool("ok"), Some(false));
    assert_eq!(text(&resp, "error"), "opening defer PR: no forge");
    assert!(resp.get("mechanism").is_none());

    let mut ws = Workspace::new(lane(CHANGE));
    ws.opened = Some(Ok("https://h/pr/7".to_string()));
    let resp = ws.defer("c01-foo", true);
    assert_eq!(text(&resp, "mechanism"), "pr_opened");
    assert_eq!(text(&resp, "pr_url"), "https://h/pr/7");
}

#[test]
fn the_pull_request_says_what_moved() {
    let (mut run, _) =
        DeferRun::start(request("i01/"), true, Ok(repo(true)), Fork::Url("f".into())).unwrap();
    let mut seen = Vec::new();
    let mut step = run.advance(Event::Outcome(Ok(())));
    loop {
        let event = match step {
            Step::Locate => Event::Facts(lane(DIR)),
            Step::Preempt => Event::Marker(Acquired::Held { preempted: Some("c9".into()) }),
            Step::Checkout { branch } | Step::ResetHard { branch } => {
                assert_eq!(branch, "main");
                Event::Outcome(Ok(()))
            }
            Step::RecreateBranch { branch } => {
                assert_eq!(branch, "agent-q");
                Event::Outcome(Ok(()))
            }
            Step::Commit { message } => {
                seen.push(message);
                Event::Outcome(Ok(()))
            }
            Step::Push { branch, remote } => {
                seen.push(branch);
                seen.push(remote);
                Event::Outcome(Ok(()))
            }
            Step::OpenPr { head, base, title, body } => {
                seen.push(head);
                seen.push(base);
                seen.push(title);
                seen.push(body);
                Event::Opened(Ok("u".into()))
            }
            Step::Reply(reply) => {
                assert_eq!(text(&reply, "preempted_change"), "c9");
                break;
            }
            _ => Event::Outcome(Ok(())),
        };
        step = run.advance(event);
    }
    assert_eq!(
        seen,
        vec![
            "chore: defer i01/",
            "agent-q",
            "fork",
            "agent-q",
            "main",
            "defer: set aside issue `i01/`",
            "Deferred issue `i01/`.\n\nMoved `issues/i01` → `deferred-issues/i01`.\n\nThis rides the agent-branch + PR flow (no base-branch commit). The unit is preserved byte-for-byte, including any markers; `undefer` is the exact inverse.",
        ]
    );
}

#[test]
fn an_absolute_slug_is_told_from_the_workspace() {
    for (slug, told) in [("/ws/extra/x/", "extra/x"), ("/elsewhere/x/", "/elsewhere/x/")] {
        let (mut run, _) =
            DeferRun::start(request(slug), true, Ok(repo(true)), Fork::Unset).unwrap();
        let mut step = run.advance(Event::Outcome(Ok(())));
        loop {
            let event = match step {
                Step::Locate => Event::Facts(lane(CHANGE)),
                Step::Preempt => Event::Marker(Acquired::Held { preempted: None }),
                Step::OpenPr { body, .. } => {
                    assert!(body.contains(&format!("Moved `{told}` → `{told}`.")), "{body}");
                    break;
                }
                _ => Event::Outcome(Ok(())),
            };
            step = run.advance(event);
        }
    }
}

#[test]
fn defer_not_found_is_error() {
    let mut ws = Workspace::new(lane(NONE));
    let resp = ws.defer("nonesuch", false);
    assert_eq!(resp.get_bool("ok"), Some(false));
    assert_eq!(
        text(&resp, "error"),
        "no change or issue `nonesuch` on git@github.com:owner/repo.git"
    );
    assert_eq!(
        text(&Workspace::new(lane(NONE)).undefer("x"), "error"),
        "no deferred change or issue `x` on git@github.com:owner/repo.git"
    );
    let both = Forms { change: true, issue_file: true, issue_dir: false };
    assert_eq!(
        text(&Workspace::new(lane(both)).defer("x", false), "error"),
        "ambiguous slug `x` on git@github.com:owner/repo.git: it names more than one unit (/ws/openspec/changes/x (change) AND /ws/issues/x.md (issue)); resolve the collision before deferring"
    );
    assert!(text(&Workspace::new(deferred(both)).undefer("x"), "error")
        .ends_with("resolve the collision before undeferring"));
}

#[test]
fn defer_preempts_and_serializes_against_pass() {
    let mut ws = Workspace::new(lane(CHANGE));
    ws.marker = Some(Acquired::Busy("workspace busy: a pass is in flight".into()));
    let resp = ws.defer("c01-foo", false);
    assert_eq!(resp.get_bool("ok"), Some(false));
    assert!(text(&resp, "error").to_lowercase().contains("busy"));
    assert_eq!(ws.steps.len(), 3, "no move occurs while a pass holds the workspace");

    let mut ws = Workspace::new(lane(CHANGE));
    ws.marker = Some(Acquired::Internal("io".into()));
    assert_eq!(text(&ws.defer("c01-foo", false), "error"), "defer preempt failed: io");
}

#[test]
fn defer_preempts_recoverable_pass_then_moves() {
    let mut ws = Workspace::new(lane(CHANGE));
    ws.marker = Some(Acquired::Held { preempted: Some("c01-foo".into()) });
    ws.reset = Err("nothing to reset to".into());
    let resp = ws.defer("c01-foo", false);
    assert_eq!(resp.get_bool("ok"), Some(true));
    assert_eq!(text(&resp, "outcome"), "deferred");
    assert_eq!(text(&resp, "preempted_change"), "c01-foo");
}

#[test]
fn defer_already_deferred_does_not_preempt_in_flight_pass() {
    let mut ws = Workspace::new(deferred(CHANGE));
    ws.marker = None;
    let resp = ws.defer("c01-foo", false);
    assert_eq!(resp.get_bool("ok"), Some(true));
    assert_eq!(text(&resp, "outcome"), "already_deferred");
    assert!(resp.get("mechanism").is_none());
    assert_eq!(resp.get("preempted_change"), Some(&Json::Null));
    assert_eq!(ws.steps.len(), 2, "a look and a reply: {:?}", ws.steps);
}

#[test]
fn each_failure_of_a_move_is_named() {
    for (stop, why) in [
        ("EnsureInitialized", "workspace init failed: e"),
        ("Checkout", "checkout base branch failed: e"),
        ("RecreateBranch", "recreating agent branch failed: e"),
        ("Move", "e"),
        ("AddAll", "staging the move failed: e"),
        ("Commit", "committing the move failed: e"),
        ("Push", "pushing undefer branch failed: e"),
        ("Link", "parsing repo url: e"),
    ] {
        let (mut run, _) =
            DeferRun::start(request("s"), false, Ok(repo(false)), Fork::Unset).unwrap();
        let mut step = run.advance(Event::Outcome(Ok(())));
        loop {
            let fails = format!("{step:?}").starts_with(stop);
            let event = match step {
                Step::Reply(reply) => {
                    assert_eq!(text(&reply, "error"), why);
                    break;
                }
                Step::Locate => Event::Facts(deferred(DIR)),
                Step::Preempt => Event::Marker(Acquired::Held { preempted: None }),
                Step::Link { .. } => Event::Linked(Err("e".into())),
                _ if fails => Event::Outcome(Err("e".into())),
                _ => Event::Outcome(Ok(())),
            };
            step = run.advance(event);
        }
    }
    let (mut run, first) = DeferRun::start(request("s"), true, Ok(repo(false)), Fork::Unset).unwrap();
    assert!(matches!(first, Step::EnsureInitialized));
    match run.advance(Event::Outcome(Err("e".into()))) {
        Step::Reply(reply) => assert_eq!(text(&reply, "error"), "workspace init failed: e"),
        other => panic!("{other:?}"),
    }
}

#[test]
fn moves_that_cannot_begin_are_refused() {
    let unknown = DeferRun::start(request("s"), true, Err("no such repo".into()), Fork::Unset);
    assert_eq!(text(&unknown.unwrap_err(), "error"), "no such repo");
    let fork = DeferRun::start(request("s"), true, Ok(repo(false)), Fork::Invalid("bad".into()));
    assert_eq!(text(&fork.unwrap_err(), "error"), "deriving fork url: bad");
    let no_url = DeferRequest::read(&Fields::new().text("slug", "s").finish()).unwrap_err();
    assert_eq!(text(&no_url, "error"), "missing `url` field");
    let no_slug = DeferRequest::read(&Fields::new().text("url", "u").finish()).unwrap_err();
    assert_eq!(text(&no_slug, "error"), "missing `slug` field");
}
