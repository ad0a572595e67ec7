use autocoder::e2e_replay::{
    changed_paths, run_e2e_verification, wants_replay, E2eOutcome, E2eVerification, OverlayEnd,
    ReplayEvent, ReplayOutcome, ReplayRun, ReplayStep, SuiteReport,
};

fn begin() -> ReplayRun {
    let (run, step) =
        ReplayRun::start("/ws".to_string(), "abc".to_string(), "/cache/replays".to_string());
    match step {
        ReplayStep::ListChanged { range } => assert_eq!(range, "abc..HEAD"),
        other => panic!("{other:?}"),
    }
    run
}

fn tests_found(tests: &[&str]) -> (ReplayRun, ReplayStep) {
    let mut run = begin();
    let step = run.advance(ReplayEvent::Listed(Ok("tests/e2e/a.ts\n\n  impl.txt \n".to_string())));
    match step {
        ReplayStep::SelectTests { changed } => {
            assert_eq!(changed, vec!["tests/e2e/a.ts".to_string(), "impl.txt".to_string()])
        }
        other => panic!("{other:?}"),
    }
    let step = run.advance(ReplayEvent::Selected(tests.iter().map(|t| t.to_string()).collect()));
    (run, step)
}

fn added(tests: &[&str]) -> (ReplayRun, ReplayStep) {
    let (mut run, step) = tests_found(tests);
    match step {
        ReplayStep::CreateScratchRoot { path } => assert_eq!(path, "/cache/replays"),
        other => panic!("{other:?}"),
    }
    match run.advance(ReplayEvent::Rooted(Ok(()))) {
        ReplayStep::ClearScratch { path } => assert_eq!(path, "/cache/replays/replay-abc"),
        other => panic!("{other:?}"),
    }
    match run.advance(ReplayEvent::Cleared) {
        ReplayStep::AddWorktree { path, base } => {
            assert_eq!(path, "/cache/replays/replay-abc");
            assert_eq!(base, "abc");
        }
        other => panic!("{other:?}"),
    }
    let step = run.advance(ReplayEvent::Added(Ok(())));
    (run, step)
}

fn overlaid(tests: &[&str]) -> (ReplayRun, ReplayStep) {
    let (mut run, mut step) = added(tests);
    for test in tests {
        match &step {
            ReplayStep::Overlay { from, to } => {
                assert_eq!(from, &format!("/ws/{test}"));
                assert_eq!(to, &format!("/cache/replays/replay-abc/{test}"));
            }
            other => panic!("{other:?}"),
        }
        step = run.advance(ReplayEvent::Overlaid(OverlayEnd::Copied));
    }
    (run, step)
}

fn replay(tests: &[&str], end: E2eOutcome) -> ReplayOutcome {
    let (mut run, step) = overlaid(tests);
    assert!(matches!(step, ReplayStep::StartApp { .. }), "{step:?}");
    let step = run.advance(ReplayEvent::Started(Ok(())));
    assert!(matches!(step, ReplayStep::RunSuite { .. }), "{step:?}");
    let step = run.advance(ReplayEvent::Ran(end));
    assert!(matches!(step, ReplayStep::StopApp), "{step:?}");
    let step = run.advance(ReplayEvent::Stopped);
    taken_away(&mut run, step)
}

/// The tree is taken away before the replay ends.
fn taken_away(run: &mut ReplayRun, step: ReplayStep) -> ReplayOutcome {
    match step {
        ReplayStep::RemoveWorktree { path } => assert_eq!(path, "/cache/replays/replay-abc"),
        other => panic!("{other:?}"),
    }
    match run.advance(ReplayEvent::Removed(Ok(()))) {
        ReplayStep::Finish(outcome) => outcome,
        other => panic!("{other:?}"),
    }
}

fn finished(step: ReplayStep) -> ReplayOutcome {
    match step {
        ReplayStep::Finish(outcome) => outcome,
        other => panic!("{other:?}"),
    }
}

fn could_not(reason: &str) -> ReplayOutcome {
    ReplayOutcome::CouldNotRun { reason: reason.to_string() }
}

#[test]
fn a_genuine_test_replays_red_against_base() {
    let outcome = replay(&["tests/e2e/a.ts"], E2eOutcome::Failed);
    assert!(matches!(outcome, ReplayOutcome::Red { .. }), "got {outcome:?}");
    assert!(!outcome.drafts_pr(), "a red replay is the healthy result");
    assert_eq!(
        outcome.render_pr_section(),
        "\nVacuous-test replay: 1 new end-to-end test file(s) were replayed against the base commit and failed there, as expected.\n"
    );
    let slow = replay(&["tests/e2e/a.ts"], E2eOutcome::TimedOut);
    assert!(matches!(slow, ReplayOutcome::Red { .. }), "got {slow:?}");
}

#[test]
fn a_vacuous_test_replays_green_and_drafts_the_pr() {
    let outcome = replay(&["tests/e2e/feature.spec.ts"], E2eOutcome::Passed);
    match &outcome {
        ReplayOutcome::GreenAgainstBase { tests } => {
            assert_eq!(tests, &vec!["tests/e2e/feature.spec.ts".to_string()]);
        }
        other => panic!("expected green-against-base, got {other:?}"),
    }
    assert!(outcome.drafts_pr());
    let section = outcome.render_pr_section();
    assert!(section.contains("feature.spec.ts"), "names the offending test");
    assert!(section.contains("draft"));
}

#[test]
fn offending_tests_are_listed() {
    let section = replay(&["a", "b"], E2eOutcome::Passed).render_pr_section();
    assert!(section.ends_with("This PR is a draft.\n\n- `a`\n- `b`\n"), "{section}");
}

#[test]
fn only_a_draft_is_called_one() {
    let sentence = "This PR is a draft";
    for (outcome, drafts) in [
        (replay(&["a"], E2eOutcome::Passed), true),
        (replay(&["a"], E2eOutcome::Failed), false),
        (ReplayOutcome::Skipped { reason: "no tests".to_string() }, false),
        (could_not("no tree"), false),
    ] {
        assert_eq!(outcome.drafts_pr(), drafts);
        assert_eq!(outcome.render_pr_section().contains(sentence), drafts, "{outcome:?}");
    }
    let skipped = ReplayOutcome::Skipped { reason: "no tests".to_string() };
    assert!(skipped.render_pr_section().contains("(no tests)"));
    assert!(could_not("no tree").render_pr_section().contains("(no tree)"));
}

#[test]
fn no_e2e_test_change_skips_the_replay() {
    let (_, step) = tests_found(&[]);
    let outcome = finished(step);
    assert!(matches!(outcome, ReplayOutcome::Skipped { .. }), "got {outcome:?}");
    assert!(!outcome.drafts_pr());
    assert!(outcome.render_pr_section().contains("not run"));
    assert_eq!(
        outcome.render_pr_section(),
        "\nVacuous-test replay: not run (the pass changed no end-to-end test file).\n"
    );
}

#[test]
fn a_bad_base_reports_rather_than_claiming_a_result() {
    let mut run = begin();
    let outcome = finished(run.advance(ReplayEvent::Listed(Err("bad revision".to_string()))));
    assert_eq!(outcome, could_not("could not list changed paths: bad revision"));
    assert!(!outcome.drafts_pr());
    assert_eq!(
        outcome.render_pr_section(),
        "\nVacuous-test replay: could NOT run (could not list changed paths: bad revision); the new tests were not checked against the base commit.\n"
    );
}

#[test]
fn failures_before_the_tree_is_there_end_the_replay_at_once() {
    let (mut run, _) = tests_found(&["a"]);
    assert_eq!(
        finished(run.advance(ReplayEvent::Rooted(Err("denied".to_string())))),
        could_not("could not create the replay scratch root: denied")
    );
    let (mut run, _) = tests_found(&["a"]);
    run.advance(ReplayEvent::Rooted(Ok(())));
    run.advance(ReplayEvent::Cleared);
    assert_eq!(
        finished(run.advance(ReplayEvent::Added(Err("locked".to_string())))),
        could_not("could not create the replay worktree: locked")
    );
}

#[test]
fn failures_with_the_tree_there_take_it_away() {
    let (mut run, _) = added(&["a", "b"]);
    let step = run.advance(ReplayEvent::Overlaid(OverlayEnd::NoDirectory {
        parent: "/x".to_string(),
        error: "denied".to_string(),
    }));
    assert_eq!(
        taken_away(&mut run, step),
        could_not("could not create /x in the replay worktree: denied")
    );
    let (mut run, _) = added(&["a", "b"]);
    run.advance(ReplayEvent::Overlaid(OverlayEnd::Absent));
    let step =
        run.advance(ReplayEvent::Overlaid(OverlayEnd::NotCopied { error: "full".to_string() }));
    assert_eq!(taken_away(&mut run, step), could_not("could not overlay b: full"));
    let (mut run, _) = overlaid(&["a"]);
    let step = run.advance(ReplayEvent::Started(Err("no port".to_string())));
    assert_eq!(
        taken_away(&mut run, step),
        could_not("the application did not start from the base tree: no port")
    );
    assert_eq!(
        replay(&["a"], E2eOutcome::NotRun { reason: "gone".to_string() }),
        could_not("the suite did not run against the base tree: gone")
    );
}

#[test]
fn a_tree_that_cannot_be_removed_is_forgotten() {
    let (mut run, _) = overlaid(&["a"]);
    run.advance(ReplayEvent::Started(Err("no".to_string())));
    let step = run.advance(ReplayEvent::Removed(Err("busy".to_string())));
    match step {
        ReplayStep::PruneWorktrees { path } => assert_eq!(path, "/cache/replays/replay-abc"),
        other => panic!("{other:?}"),
    }
    assert!(!finished(run.advance(ReplayEvent::Pruned)).drafts_pr());
}

#[test]
fn changed_paths_are_trimmed_lines() {
    assert_eq!(changed_paths(" a \r\n\n\tb\n"), vec!["a".to_string(), "b".to_string()]);
    assert!(changed_paths("").is_empty());
}

fn suite(outcome: E2eOutcome, drafts_pr: bool) -> SuiteReport {
    SuiteReport { outcome, section: "## End-to-end verification\n".to_string(), drafts_pr }
}

#[test]
fn verification_combines_a_passing_suite_with_a_red_replay() {
    let s = suite(E2eOutcome::Passed, false);
    assert!(wants_replay(&s));
    let v = run_e2e_verification(&s, &Some(replay(&["a"], E2eOutcome::Failed)));
    assert!(!v.drafts_pr, "passing suite + red replay is the healthy path");
    assert!(v.section.contains("## End-to-end verification"));
    assert!(v.section.contains("failed there, as expected"));
}

#[test]
fn verification_drafts_when_the_replay_is_green_against_base() {
    let s = suite(E2eOutcome::Passed, false);
    let v = run_e2e_verification(&s, &Some(replay(&["a"], E2eOutcome::Passed)));
    assert!(v.drafts_pr, "a vacuous test drafts the PR even though the suite passed");
    assert!(v.section.contains("Vacuous-test replay FAILED"));
}

#[test]
fn a_failing_suite_drafts_and_skips_the_replay_as_uninformative() {
    let s = suite(E2eOutcome::Failed, true);
    assert!(!wants_replay(&s));
    let v = run_e2e_verification(&s, &None);
    assert!(v.drafts_pr, "a failing suite drafts");
    assert!(v.section.contains("would not be informative"), "{}", v.section);
}

#[test]
fn not_run_renders_a_section_without_drafting() {
    let section = "## End-to-end verification\n\nThe suite did NOT run: no application was started for this pass\n";
    let v = E2eVerification::not_run(section.to_string());
    assert!(!v.drafts_pr);
    assert_eq!(v.section, section);
    assert!(v.section.contains("## End-to-end verification"));
    assert!(v.section.contains("did NOT run"));
}
