use autocoder::control_socket::markers::{
    sweep_marker_clear, sweep_targets, ClearEvent, ClearRequest, ClearRun, ExcludedChanges,
    IgnoreEvent, IgnoreRequest, IgnoreRun, Removal, RepoSweep, SweepMarkerKind, SweptChange,
};
use autocoder::control_socket::request::RepositoryConfig;
use autocoder::control_socket::steps::{MarkerScope, Step};
use autocoder::json::{Fields, Json};

const URL: &str = "git@github.com:owner/myrepo.git";

fn repo(url: &str) -> RepositoryConfig {
    RepositoryConfig {
        url: url.to_string(),
        workspace: "/ws".to_string(),
        base_branch: "main".to_string(),
        agent_branch: "agent-q".to_string(),
        upstream_branch: None,
        poll_interval_sec: 60,
        auto_submit_pr: false,
    }
}

fn text(reply: &Json, key: &str) -> String {
    reply.get_str(key).unwrap_or_else(|| panic!("no `{key}` in {reply:?}"))
}

fn request(url: &str, change: &str) -> Json {
    Fields::new().text("url", url).text("change", change).finish()
}

fn start(kind: SweepMarkerKind, change: &str) -> (ClearRun, Step) {
    ClearRun::start(kind, URL.to_string(), change.to_string(), Ok(repo(URL))).unwrap()
}

/// Clears a marker where the lookup answers `found` and the second marker was
/// there or not.
fn clear(
    kind: SweepMarkerKind,
    change: &str,
    found: Result<&str, &str>,
    ignored: bool,
) -> (Vec<String>, Json) {
    let (mut run, mut step) = start(kind, change);
    let mut steps = Vec::new();
    loop {
        steps.push(format!("{step:?}"));
        let event = match step {
            Step::Reply(reply) => {
                steps.pop();
                return (steps, reply);
            }
            Step::ResolveChange { .. } => {
                ClearEvent::Resolved(found.map(|s| s.to_string()).map_err(|e| e.to_string()))
            }
            Step::RemoveMarker { .. } => ClearEvent::Removed(Ok(())),
            Step::RemoveMarkerIfPresent { .. } => ClearEvent::RemovedIgnore(Ok(ignored)),
            other => panic!("{other:?}"),
        };
        step = run.advance(event);
    }
}

#[test]
fn clear_perma_stuck_removes_marker_and_returns_ok() {
    let (steps, resp) = clear(SweepMarkerKind::PermaStuck, "a06-foo", Ok("a06-foo"), true);
    assert_eq!(resp.get_bool("ok"), Some(true));
    assert_eq!(text(&resp, "change"), "a06-foo");
    assert_eq!(text(&resp, "url"), URL);
    assert_eq!(resp.get_bool("removed_ignore_for_queue"), Some(true));
    assert_eq!(
        steps,
        vec![
            "ResolveChange { change: \"a06-foo\", scope: PermaStuck }",
            "RemoveMarker { change: \"a06-foo\", marker: PermaStuck }",
            "RemoveMarkerIfPresent { change: \"a06-foo\", marker: IgnoreForQueue }",
        ]
    );
}

#[test]
fn clear_perma_stuck_errors_when_marker_absent() {
    let (steps, resp) = clear(
        SweepMarkerKind::PermaStuck,
        "a06-foo",
        Err("no change `a06-foo` with .perma-stuck.json"),
        false,
    );
    assert_eq!(resp.get_bool("ok"), Some(false));
    assert!(text(&resp, "error").contains(".perma-stuck.json"));
    assert_eq!(steps.len(), 1);
}

#[test]
fn clear_revision_removes_marker_and_returns_ok() {
    let (steps, resp) = clear(SweepMarkerKind::Revision, "a07-bar", Ok("a07-bar"), false);
    assert_eq!(resp.get_bool("ok"), Some(true));
    assert_eq!(resp.get("removed_ignore_for_queue"), None);
    assert_eq!(
        steps,
        vec![
            "ResolveChange { change: \"a07-bar\", scope: NeedsRevision }",
            "RemoveMarker { change: \"a07-bar\", marker: NeedsRevision }",
        ]
    );
}

#[test]
fn clear_revision_errors_when_marker_absent() {
    let (mut run, _) = start(SweepMarkerKind::Revision, "a07-bar");
    run.advance(ClearEvent::Resolved(Ok("a07-bar".to_string())));
    match run.advance(ClearEvent::Removed(Err("gone".to_string()))) {
        Step::Reply(resp) => {
            assert_eq!(resp.get_bool("ok"), Some(false));
            assert_eq!(text(&resp, "error"), "gone");
        }
        other => panic!("{other:?}"),
    }
}

#[test]
fn a_second_marker_that_stays_is_an_error() {
    let (mut run, _) = start(SweepMarkerKind::PermaStuck, "a");
    run.advance(ClearEvent::Resolved(Ok("a".to_string())));
    run.advance(ClearEvent::Removed(Ok(())));
    match run.advance(ClearEvent::RemovedIgnore(Err("denied".to_string()))) {
        Step::Reply(resp) => assert_eq!(
            text(&resp, "error"),
            "removed perma-stuck but failed to remove .ignore-for-queue.json: denied"
        ),
        other => panic!("{other:?}"),
    }
}

fn swept(change: &str, removal: Result<bool, &str>) -> SweptChange {
    SweptChange { change: change.to_string(), removal: removal.map_err(|e| e.to_string()) }
}

fn cleared(entry: &Json) -> Vec<String> {
    entry
        .get_array("cleared")
        .unwrap()
        .iter()
        .map(|v| match v {
            Json::Str(s) => s.clone(),
            other => panic!("{other:?}"),
        })
        .collect()
}

#[test]
fn clear_perma_stuck_wildcard_clears_all_in_one_repo() {
    let sweeps = vec![RepoSweep {
        url: URL.to_string(),
        listing: Ok(vec![swept("a07-bar", Ok(false)), swept("a06-foo", Ok(true))]),
    }];
    let resp = sweep_marker_clear(&sweeps);
    assert_eq!(resp.get_bool("ok"), Some(true));
    let results = resp.get_array("results").unwrap();
    assert_eq!(results.len(), 1, "one repo in the config");
    assert_eq!(cleared(&results[0]), vec!["a06-foo", "a07-bar"]);
    assert_eq!(results[0].get_bool("removed_ignore_for_queue"), Some(true));
    assert_eq!(results[0].get("error"), None);
}

#[test]
fn clear_perma_stuck_wildcard_empty_repo_reports_nothing_to_clear() {
    let resp = sweep_marker_clear(&vec![RepoSweep { url: URL.to_string(), listing: Ok(vec![]) }]);
    assert_eq!(resp.get_bool("ok"), Some(true));
    let results = resp.get_array("results").unwrap();
    assert_eq!(results.len(), 1);
    assert!(cleared(&results[0]).is_empty());
    assert_eq!(results[0].get_bool("removed_ignore_for_queue"), Some(false));
}

#[test]
fn clear_revision_fleet_wildcard_sweeps_every_repo() {
    let all = vec![repo("a"), repo("b")];
    let targets = sweep_targets("*", all, Err("no repository".to_string())).unwrap();
    assert_eq!(targets.len(), 2, "both repos enumerated");
    let resp = sweep_marker_clear(&vec![
        RepoSweep { url: "a".to_string(), listing: Ok(vec![swept("a06-foo", Ok(false))]) },
        RepoSweep {
            url: "b".to_string(),
            listing: Ok(vec![swept("a07-bar", Ok(false)), swept("a08-baz", Ok(false))]),
        },
    ]);
    assert_eq!(resp.get_bool("ok"), Some(true));
    let results = resp.get_array("results").unwrap();
    assert_eq!(results.len(), 2);
    assert_eq!(cleared(&results[0]), vec!["a06-foo"]);
    assert_eq!(cleared(&results[1]), vec!["a07-bar", "a08-baz"]);
}

#[test]
fn a_sweep_names_every_failure() {
    let resp = sweep_marker_clear(&vec![
        RepoSweep { url: "a".to_string(), listing: Err("no dir".to_string()) },
        RepoSweep {
            url: "b".to_string(),
            listing: Ok(vec![
                swept("x", Err("denied")),
                swept("y", Ok(false)),
                swept("z", Err("busy")),
            ]),
        },
    ]);
    let results = resp.get_array("results").unwrap();
    assert_eq!(text(&results[0], "error"), "could not read markers: no dir");
    assert_eq!(results[0].get("cleared"), None);
    assert_eq!(cleared(&results[1]), vec!["y"]);
    assert_eq!(text(&results[1], "error"), "x: denied; z: busy");
}

#[test]
fn clear_perma_stuck_wildcard_bypasses_resolve_change_prefix() {
    assert!(matches!(
        ClearRequest::read(&request(URL, "*")),
        Ok(ClearRequest::Sweep { url }) if url == URL
    ));
    assert!(matches!(
        ClearRequest::read(&request(URL, "a*")),
        Ok(ClearRequest::One { url, change }) if url == URL && change == "a*"
    ));
}

#[test]
fn a_sweep_of_one_repository_needs_it() {
    let one = sweep_targets(URL, vec![repo("a"), repo("b")], Ok(repo(URL))).unwrap();
    assert_eq!(one.len(), 1);
    assert_eq!(one[0].url, URL);
    let none = sweep_targets(URL, vec![], Err("no repository configured".to_string()));
    assert_eq!(text(&none.unwrap_err(), "error"), "no repository configured");
}

#[test]
fn clear_perma_stuck_resolves_prefix_to_canonical_slug() {
    let (steps, resp) = clear(
        SweepMarkerKind::PermaStuck,
        "a37",
        Ok("a37-unify-llm-provider-config"),
        false,
    );
    assert_eq!(resp.get_bool("ok"), Some(true));
    assert_eq!(text(&resp, "change"), "a37-unify-llm-provider-config");
    assert_eq!(resp.get_bool("removed_ignore_for_queue"), Some(false));
    assert!(steps[1].contains("a37-unify-llm-provider-config"));
}

#[test]
fn clear_revision_resolves_prefix_to_canonical_slug() {
    let (_, resp) = clear(SweepMarkerKind::Revision, "a37", Ok("a37-foo"), false);
    assert_eq!(resp.get_bool("ok"), Some(true));
    assert_eq!(text(&resp, "change"), "a37-foo");
}

#[test]
fn clear_perma_stuck_multi_match_lists_candidates() {
    let told = "`a3` matches a37-foo, a38-bar; use a longer prefix";
    let (steps, resp) = clear(SweepMarkerKind::PermaStuck, "a3", Err(told), false);
    assert_eq!(resp.get_bool("ok"), Some(false));
    assert_eq!(text(&resp, "error"), told);
    assert_eq!(steps.len(), 1, "neither marker was removed");
}

#[test]
fn unknown_url_returns_error_for_marker_clear() {
    let resp = ClearRun::start(
        SweepMarkerKind::PermaStuck,
        "git@github.com:owner/UNKNOWN.git".to_string(),
        "x".to_string(),
        Err("no repository configured with that url".to_string()),
    )
    .unwrap_err();
    assert_eq!(resp.get_bool("ok"), Some(false));
    assert!(text(&resp, "error").contains("no repository configured"));
    for (json, why) in [
        (Fields::new().text("change", "x").finish(), "missing `url` field"),
        (Fields::new().text("url", "x").finish(), "missing `change` field"),
    ] {
        assert_eq!(text(&ClearRequest::read(&json).unwrap_err(), "error"), why);
        assert_eq!(text(&IgnoreRequest::read(&json).unwrap_err(), "error"), why);
        assert_eq!(text(&IgnoreRequest::read_clear(&json).unwrap_err(), "error"), why);
    }
}

/// Stamps or lifts the marker of `a37`; the step that begins with `stop` fails.
fn ignore(stamp: bool, markers: (bool, bool, bool), stop: &str) -> (Vec<String>, Json) {
    let json = Fields::new().text("url", URL).text("change", "a37").text("marked_by", "U1").finish();
    let request = if stamp {
        IgnoreRequest::read(&json).unwrap()
    } else {
        IgnoreRequest::read_clear(&json).unwrap()
    };
    let (mut run, mut step) = IgnoreRun::start(stamp, request, Ok(repo(URL)), true).unwrap();
    let mut steps = Vec::new();
    loop {
        let name = format!("{step:?}");
        let fails = !stop.is_empty() && name.starts_with(stop);
        steps.push(name);
        let event = match step {
            Step::Reply(reply) => {
                steps.pop();
                return (steps, reply);
            }
            Step::ResolveChange { .. } => IgnoreEvent::Resolved(if fails {
                Err("e".to_string())
            } else {
                Ok("a37-foo".to_string())
            }),
            Step::ReadMarkers { .. } => IgnoreEvent::Markers {
                perma_stuck: markers.0,
                needs_revision: markers.1,
                ignore_for_queue: markers.2,
            },
            _ => IgnoreEvent::Outcome(if fails { Err("e".to_string()) } else { Ok(()) }),
        };
        step = run.advance(event);
    }
}

#[test]
fn stamping_commits_and_pushes_the_marker() {
    let (steps, resp) = ignore(true, (true, false, false), "");
    assert_eq!(resp.get_bool("ok"), Some(true));
    assert_eq!(text(&resp, "change"), "a37-foo");
    assert_eq!(resp.get("underlying_marker"), None);
    assert_eq!(
        steps,
        vec![
            "ResolveChange { change: \"a37\", scope: EitherBlocking }",
            "ReadMarkers { change: \"a37-foo\" }",
            "WriteMarker { change: \"a37-foo\", marked_by: \"U1\" }",
            "AddAll",
            "Commit { message: \"chore: ignore-for-queue on a37-foo (operator U1)\" }",
            "Push { branch: \"agent-q\", remote: \"fork\" }",
        ]
    );
}

#[test]
fn stamping_twice_is_refused() {
    let (steps, resp) = ignore(true, (true, false, true), "");
    assert_eq!(text(&resp, "error"), "a37-foo already has .ignore-for-queue.json. No change.");
    assert_eq!(steps.len(), 2);
}

#[test]
fn lifting_says_what_blocks_again() {
    for (markers, name) in [
        ((true, true, true), ".perma-stuck.json"),
        ((false, true, false), ".needs-spec-revision.json"),
        ((false, false, false), "the underlying marker"),
    ] {
        let (steps, resp) = ignore(false, markers, "");
        assert_eq!(resp.get_bool("ok"), Some(true));
        assert_eq!(text(&resp, "underlying_marker"), name);
        assert_eq!(
            steps,
            vec![
                "ResolveChange { change: \"a37\", scope: IgnoreForQueue }",
                "RemoveMarker { change: \"a37-foo\", marker: IgnoreForQueue }",
                "ReadMarkers { change: \"a37-foo\" }",
                "AddAll",
                "Commit { message: \"chore: clear ignore-for-queue on a37-foo\" }",
                "Push { branch: \"agent-q\", remote: \"fork\" }",
            ]
        );
    }
}

#[test]
fn each_failure_of_a_stamp_is_named() {
    for (stamp, stop, why) in [
        (true, "ResolveChange", "e"),
        (true, "WriteMarker", "writing marker: e"),
        (true, "AddAll", "git add failed after writing marker: e"),
        (true, "Commit", "git commit failed after writing marker: e"),
        (true, "Push", "git push failed after commit: e"),
        (false, "ResolveChange", "e"),
        (false, "RemoveMarker", "e"),
        (false, "AddAll", "git add failed after removing marker: e"),
        (false, "Commit", "git commit failed after removing marker: e"),
    ] {
        let (_, resp) = ignore(stamp, (true, false, false), stop);
        assert_eq!(resp.get_bool("ok"), Some(false));
        assert_eq!(text(&resp, "error"), why);
    }
    let unknown = IgnoreRequest::read(&request(URL, "a")).unwrap();
    assert_eq!(unknown.marked_by, "operator");
    let refused = IgnoreRun::start(true, unknown, Err("no repo".to_string()), false).unwrap_err();
    assert_eq!(text(&refused, "error"), "no repo");
}

#[test]
fn clear_ignore_for_queue_no_match_returns_scope_named_error() {
    let request = IgnoreRequest::read_clear(&request(URL, "a37")).unwrap();
    let (mut run, step) = IgnoreRun::start(false, request, Ok(repo(URL)), false).unwrap();
    assert!(matches!(
        step,
        Step::ResolveChange { change, scope: MarkerScope::IgnoreForQueue } if change == "a37"
    ));
    let told = "no change `a37` carries .ignore-for-queue.json".to_string();
    match run.advance(IgnoreEvent::Resolved(Err(told.clone()))) {
        Step::Reply(resp) => {
            assert_eq!(resp.get_bool("ok"), Some(false));
            assert_eq!(text(&resp, "error"), told);
        }
        other => panic!("{other:?}"),
    }
}

#[test]
fn a_kind_lists_its_own_changes() {
    let excluded = || {
        Ok(ExcludedChanges {
            perma_stuck: vec!["a".to_string()],
            needs_revision: vec!["b".to_string(), "c".to_string()],
        })
    };
    assert_eq!(
        SweepMarkerKind::PermaStuck.list_marked(excluded()),
        Ok(vec!["a".to_string()])
    );
    assert_eq!(
        SweepMarkerKind::Revision.list_marked(excluded()),
        Ok(vec!["b".to_string(), "c".to_string()])
    );
    assert_eq!(
        SweepMarkerKind::Revision.list_marked(Err("unreadable".to_string())),
        Err("unreadable".to_string())
    );
}

#[test]
fn only_a_stuck_change_loses_the_ignore_marker_too() {
    match SweepMarkerKind::PermaStuck.remove_from(Ok(())) {
        Removal::RemoveIgnore => {}
        other => panic!("{other:?}"),
    }
    match SweepMarkerKind::Revision.remove_from(Ok(())) {
        Removal::Settled(removed) => assert_eq!(removed, Ok(false)),
        other => panic!("{other:?}"),
    }
    for kind in [SweepMarkerKind::PermaStuck, SweepMarkerKind::Revision] {
        match kind.remove_from(Err("gone".to_string())) {
            Removal::Settled(removed) => assert_eq!(removed, Err("gone".to_string())),
            other => panic!("{other:?}"),
        }
    }
}
