use autocoder::control_socket::history::{
    handle_provenance_lookup, handle_recent_commits_log, handle_survival_analysis,
    ready_for_log, ready_for_provenance, ready_for_survival, CommitLine, LogRequest,
    ProvenanceRequest, SurvivalReport, SurvivalRequest, SurvivalTarget,
};
use autocoder::control_socket::request::RepositoryConfig;
use autocoder::json::{Fields, Json};

fn repo() -> RepositoryConfig {
    RepositoryConfig {
        url: "u".to_string(),
        workspace: "/ws".to_string(),
        base_branch: "main".to_string(),
        agent_branch: "agent-q".to_string(),
        upstream_branch: None,
        poll_interval_sec: 60,
        auto_submit_pr: true,
    }
}

fn text(reply: &Json, key: &str) -> String {
    reply.get_str(key).unwrap_or_else(|| panic!("no `{key}` in {reply:?}"))
}

fn with_url() -> Fields {
    Fields::new().text("url", "u")
}

#[test]
fn a_log_has_at_least_one_commit() {
    let count = |f: Fields| LogRequest::read(&f.finish()).unwrap().count;
    assert_eq!(count(with_url()), 20);
    assert_eq!(count(with_url().number("count", 0)), 1);
    assert_eq!(count(with_url().number("count", 7)), 7);
    assert_eq!(count(with_url().text("count", "7")), 20);
    let e = LogRequest::read(&Json::Null).unwrap_err();
    assert_eq!(text(&e, "error"), "missing `url` field");
}

#[test]
fn a_log_lists_its_commits() {
    let line = |sha: &str| CommitLine {
        short_sha: sha.into(),
        subject: "s".into(),
        date: "d".into(),
    };
    let resp = handle_recent_commits_log(&repo(), Ok(vec![line("abc"), line("def")]));
    assert_eq!(resp.get_bool("ok"), Some(true));
    assert_eq!(text(&resp, "url"), "u");
    assert_eq!(text(&resp, "base_branch"), "main");
    let commits = resp.get_array("commits").unwrap();
    assert_eq!(commits.len(), 2);
    assert_eq!(text(&commits[0], "short_sha"), "abc");
    assert_eq!(text(&commits[1], "short_sha"), "def");
    assert_eq!(text(&commits[1], "subject"), "s");
    assert_eq!(text(&commits[1], "date"), "d");
    let failed = handle_recent_commits_log(&repo(), Err("git".into()));
    assert_eq!(text(&failed, "error"), "reading commit log: git");
}

#[test]
fn the_past_is_read_in_a_workspace() {
    let head = "workspace /ws does not exist yet; the daemon must clone the repo before ";
    for (refused, purpose) in [
        (ready_for_log(Ok(repo()), false), "its log can be read"),
        (ready_for_survival(Ok(repo()), false), "survival analysis can run"),
        (ready_for_provenance(Ok(repo()), false), "provenance can be read"),
    ] {
        assert_eq!(text(&refused.unwrap_err(), "error"), format!("{head}{purpose}"));
    }
    assert_eq!(text(&ready_for_log(Err("no repo".into()), true).unwrap_err(), "error"), "no repo");
    assert_eq!(ready_for_survival(Ok(repo()), true).unwrap().url, "u");
}

#[test]
fn survival_is_asked_of_one_target() {
    let read = |f: Fields| SurvivalRequest::read(&f.finish());
    let pr = read(with_url().number("pr", 5).text("commit", "abc").flag("detect_moves", true));
    let pr = pr.unwrap();
    assert!(matches!(pr.target, SurvivalTarget::Pr { number: 5 }));
    assert!(pr.detect_moves);
    let commit = read(with_url().text("commit", "abc")).unwrap();
    assert!(matches!(commit.target, SurvivalTarget::Commit { sha } if sha == "abc"));
    assert!(!commit.detect_moves);
    for f in [with_url(), with_url().text("commit", " \t"), with_url().text("pr", "5")] {
        assert_eq!(
            text(&read(f).unwrap_err(), "error"),
            "missing target: provide exactly one of `pr` (number) or `commit` (sha)"
        );
    }
    let resp = handle_survival_analysis(
        &repo(),
        Ok(SurvivalReport {
            text: "r".into(),
            review_focus_paths: vec!["a.rs".into()],
            surviving_lines: 9,
        }),
    );
    assert_eq!(text(&resp, "report"), "r");
    assert_eq!(resp.get_u64("surviving_lines"), Some(9));
    assert_eq!(resp.get_array("review_focus_paths").unwrap(), &vec![Json::Str("a.rs".into())]);
    let failed = handle_survival_analysis(&repo(), Err("git".into()));
    assert_eq!(text(&failed, "error"), "survival analysis failed: git");
}

#[test]
fn lines_are_counted_from_one() {
    let read = |start: Option<u64>, end: Option<u64>| {
        let mut f = with_url().text("path", "p");
        if let Some(n) = start {
            f = f.number("start", n);
        }
        if let Some(n) = end {
            f = f.number("end", n);
        }
        ProvenanceRequest::read(&f.finish())
    };
    for (start, end) in [(None, None), (Some(0), Some(3)), (Some(3), Some(2)), (Some(1), Some(0))] {
        assert_eq!(
            text(&read(start, end).unwrap_err(), "error"),
            "line range invalid: start/end must be >= 1 and start <= end"
        );
    }
    let one = read(Some(4), None).unwrap();
    assert_eq!((one.start, one.end), (4, 4));
    let some = read(Some(4), Some(9)).unwrap();
    assert_eq!((some.start, some.end, some.path.as_str()), (4, 9, "p"));
    let no_path = ProvenanceRequest::read(&with_url().finish()).unwrap_err();
    assert_eq!(text(&no_path, "error"), "missing `path` field");
    assert_eq!(text(&handle_provenance_lookup(&repo(), Ok("t".into())), "report"), "t");
    assert_eq!(
        text(&handle_provenance_lookup(&repo(), Err("git".into())), "error"),
        "provenance lookup failed: git"
    );
}
