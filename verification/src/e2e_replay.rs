//! The replay of new end-to-end tests against the tree before the change. A test
//! that passes there does not show that the change works.
//!
//! Only the tests are laid over the old tree, never the implementation; and all
//! of it happens in a tree of its own, which is taken away at the end.
use vstd::pervasive::unreached;
use vstd::prelude::*;
use crate::path::{join_path, joined};
use crate::text::{
    cat2, cat3, cat4, dec, find, is_blank, join, join_texts, lemma_find, lemma_texts_empty,
    lemma_texts_push, digit, lines, lines_of, number_text, texts, trim, trim_text,
};

verus! {

/// What a replay showed.
#[derive(Debug, Clone, PartialEq, Eq)]
#[allow(inconsistent_fields)]
pub enum ReplayOutcome {
    /// The tests fail without the change, as they should.
    Red { tests: Vec<String> },
    /// The tests pass without the change.
    GreenAgainstBase { tests: Vec<String> },
    /// There was no test to replay.
    Skipped { reason: String },
    /// The tests could not be replayed.
    CouldNotRun { reason: String },
}

/// The names of tests as a list in a pull request.
pub open spec fn listed(tests: Seq<Seq<char>>) -> Seq<Seq<char>> {
    Seq::new(tests.len(), |i: int| "- `"@ + tests[i] + "`"@)
}

fn list_tests(tests: &Vec<String>) -> (r: Vec<String>)
    ensures
        texts(r@) == listed(texts(tests@)),
{
    let mut out: Vec<String> = Vec::new();
    let mut i: usize = 0;
    let ghost all = listed(texts(tests@));
    proof {
        lemma_texts_empty();
        assert(all.take(0) =~= Seq::<Seq<char>>::empty());
    }
    while i < tests.len()
        invariant
            i <= tests@.len(),
            all == listed(texts(tests@)),
            texts(out@) == all.take(i as int),
        decreases tests@.len() - i,
    {
        let item = cat3("- `", tests[i].as_str(), "`");
        proof {
            lemma_texts_push(out@, item);
            assert(all.take(i + 1) =~= all.take(i as int).push(all[i as int]));
        }
        out.push(item);
        i += 1;
    }
    proof {
        assert(all.take(all.len() as int) =~= all);
    }
    out
}

impl ReplayOutcome {
    /// Whether the tests pass without the change.
    pub open spec fn drafts(self) -> bool {
        self is GreenAgainstBase
    }

    /// Whether the pull request is to be a draft: the tests say nothing of the
    /// change, and somebody has to look at them.
    pub fn drafts_pr(&self) -> (r: bool)
        ensures
            r == self.drafts(),
    {
        match self {
            ReplayOutcome::GreenAgainstBase { .. } => true,
            _ => false,
        }
    }

    /// What a pull request says of the replay.
    pub open spec fn section(self) -> Seq<char> {
        match self {
            ReplayOutcome::Red { tests } => "\nVacuous-test replay: "@ + dec(tests@.len())
                + " new end-to-end test file(s) were replayed against the base commit and failed there, as expected.\n"@,
            ReplayOutcome::GreenAgainstBase { tests } => "\n**Vacuous-test replay FAILED.** These end-to-end tests PASS against the base commit, so they do not demonstrate that this change works — they are either vacuous or the behavior already existed. This PR is a draft.\n\n"@
                + join(listed(texts(tests@)), "\n"@) + "\n"@,
            ReplayOutcome::Skipped { reason } => "\nVacuous-test replay: not run ("@ + reason@
                + ").\n"@,
            ReplayOutcome::CouldNotRun { reason } => "\nVacuous-test replay: could NOT run ("@
                + reason@ + "); the new tests were not checked against the base commit.\n"@,
        }
    }

    /// Writes what a pull request says of the replay.
    pub fn render_pr_section(&self) -> (r: String)
        ensures
            r@ == self.section(),
    {
        match self {
            ReplayOutcome::Red { tests } => cat3(
                "\nVacuous-test replay: ",
                number_text(tests.len() as u64).as_str(),
                " new end-to-end test file(s) were replayed against the base commit and failed there, as expected.\n",
            ),
            ReplayOutcome::GreenAgainstBase { tests } => cat3(
                "\n**Vacuous-test replay FAILED.** These end-to-end tests PASS against the base commit, so they do not demonstrate that this change works — they are either vacuous or the behavior already existed. This PR is a draft.\n\n",
                join_texts(&list_tests(tests), "\n").as_str(),
                "\n",
            ),
            ReplayOutcome::Skipped { reason } => cat3(
                "\nVacuous-test replay: not run (",
                reason.as_str(),
                ").\n",
            ),
            ReplayOutcome::CouldNotRun { reason } => cat3(
                "\nVacuous-test replay: could NOT run (",
                reason.as_str(),
                "); the new tests were not checked against the base commit.\n",
            ),
        }
    }
}

pub open spec fn draft_sentence() -> Seq<char> {
    "This PR is a draft"@
}

/// No text without a capital T holds the sentence on drafts.
proof fn lemma_no_draft_sentence(s: Seq<char>)
    requires
        forall|i: int| 0 <= i < s.len() ==> #[trigger] s[i] != 'T',
    ensures
        find(s, draft_sentence()) is None,
{
    reveal_strlit("This PR is a draft");
    lemma_find(s, draft_sentence());
    if let Some(k) = find(s, draft_sentence()) {
        assert(s.subrange(k, k + draft_sentence().len())[0] == s[k]);
    }
}

/// A text holds what was put into it.
proof fn lemma_held(before: Seq<char>, part: Seq<char>, after: Seq<char>)
    ensures
        find(before + part + after, part) is Some,
{
    let s = before + part + after;
    lemma_find(s, part);
    let rest = s.subrange(before.len() as int, s.len() as int);
    assert(rest.subrange(0, part.len() as int) =~= part);
    assert(part.is_prefix_of(rest));
}

/// A reason in brackets holds the sentence on drafts no more than by itself, where
/// neither what goes before nor what follows lends it a beginning.
proof fn lemma_bracketed(before: Seq<char>, reason: Seq<char>, after: Seq<char>)
    requires
        before.len() > 0,
        before.last() == '(',
        forall|i: int| 0 <= i < before.len() ==> #[trigger] before[i] != 'h',
        after.len() > 0,
        after[0] == ')',
        forall|i: int| 0 <= i < after.len() ==> #[trigger] after[i] != 'T',
        find(reason, draft_sentence()) is None,
    ensures
        find(before + reason + after, draft_sentence()) is None,
{
    reveal_strlit("This PR is a draft");
    let p = draft_sentence();
    let s = before + reason + after;
    let n = before.len() as int;
    let m = n + reason.len();
    lemma_find(s, p);
    lemma_find(reason, p);
    if let Some(k) = find(s, p) {
        let found = s.subrange(k, k + p.len());
        assert(found == p);
        assert(found[0] == s[k]);
        assert(found[1] == s[k + 1]);
        if k < n {
            if k + 1 < n {
                assert(s[k + 1] == before[k + 1]);
            } else {
                assert(s[k] == before.last());
            }
        } else if k + p.len() <= m {
            let rest = reason.subrange(k - n, reason.len() as int);
            assert(rest.subrange(0, p.len() as int) =~= found);
            assert(p.is_prefix_of(rest));
        } else if k < m {
            assert(found[m - k] == s[m]);
            assert(s[m] == after[0]);
        } else {
            assert(s[k] == after[k - m]);
        }
    }
}

/// The section says that the pull request is a draft exactly where the outcome makes
/// it one; the reason of an outcome does not say so by itself. The tests that pass
/// without the change are listed in it, in their order, and where nothing was
/// replayed it gives the reason.
pub proof fn the_section_says_whether_it_drafts(outcome: ReplayOutcome)
    requires
        outcome matches ReplayOutcome::Skipped { reason } ==> find(reason@, draft_sentence()) is None,
        outcome matches ReplayOutcome::CouldNotRun { reason } ==> find(reason@, draft_sentence())
            is None,
    ensures
        find(outcome.section(), draft_sentence()) is Some <==> outcome.drafts(),
        outcome matches ReplayOutcome::GreenAgainstBase { tests } ==> find(
            outcome.section(),
            join(listed(texts(tests@)), "\n"@),
        ) is Some,
        outcome matches ReplayOutcome::Skipped { reason } ==> find(outcome.section(), reason@)
            is Some,
        outcome matches ReplayOutcome::CouldNotRun { reason } ==> find(outcome.section(), reason@)
            is Some,
{
    match outcome {
        ReplayOutcome::Red { tests } => {
            lemma_red_section(tests@.len());
        },
        ReplayOutcome::GreenAgainstBase { tests } => {
            lemma_held(green_head(), join(listed(texts(tests@)), "\n"@), "\n"@);
            lemma_green_section(join(listed(texts(tests@)), "\n"@) + "\n"@);
            assert(outcome.section() =~= green_head() + (join(listed(texts(tests@)), "\n"@)
                + "\n"@));
        },
        ReplayOutcome::Skipped { reason } => {
            reveal_strlit("\nVacuous-test replay: not run (");
            reveal_strlit(").\n");
            lemma_bracketed("\nVacuous-test replay: not run ("@, reason@, ").\n"@);
            lemma_held("\nVacuous-test replay: not run ("@, reason@, ").\n"@);
        },
        ReplayOutcome::CouldNotRun { reason } => {
            reveal_strlit("\nVacuous-test replay: could NOT run (");
            reveal_strlit("); the new tests were not checked against the base commit.\n");
            lemma_bracketed(
                "\nVacuous-test replay: could NOT run ("@,
                reason@,
                "); the new tests were not checked against the base commit.\n"@,
            );
            lemma_held(
                "\nVacuous-test replay: could NOT run ("@,
                reason@,
                "); the new tests were not checked against the base commit.\n"@,
            );
        },
    }
}

proof fn lemma_digits_only(n: nat)
    ensures
        forall|i: int| 0 <= i < dec(n).len() ==> #[trigger] dec(n)[i] != 'T',
    decreases n,
{
    if n >= 10 {
        lemma_digits_only(n / 10);
        assert(dec(n) == dec(n / 10).push(digit((n % 10) as int)));
    } else {
        assert(dec(n) == seq![digit(n as int)]);
    }
}

proof fn lemma_red_section(n: nat)
    ensures
        find(
            "\nVacuous-test replay: "@ + dec(n)
                + " new end-to-end test file(s) were replayed against the base commit and failed there, as expected.\n"@,
            draft_sentence(),
        ) is None,
{
    let a = "\nVacuous-test replay: "@;
    let c =
        " new end-to-end test file(s) were replayed against the base commit and failed there, as expected.\n"@;
    reveal_strlit("\nVacuous-test replay: ");
    reveal_strlit(
        " new end-to-end test file(s) were replayed against the base commit and failed there, as expected.\n",
    );
    assert(forall|i: int| 0 <= i < a.len() ==> #[trigger] a[i] != 'T');
    assert(forall|i: int| 0 <= i < c.len() ==> #[trigger] c[i] != 'T');
    lemma_digits_only(n);
    let s = a + dec(n) + c;
    assert forall|i: int| 0 <= i < s.len() implies #[trigger] s[i] != 'T' by {
        if i < a.len() {
            assert(s[i] == a[i]);
        } else if i < a.len() + dec(n).len() {
            assert(s[i] == dec(n)[i - a.len()]);
        } else {
            assert(s[i] == c[i - a.len() - dec(n).len()]);
        }
    }
    lemma_no_draft_sentence(s);
}

spec fn green_head() -> Seq<char> {
    "\n**Vacuous-test replay FAILED.** These end-to-end tests PASS against the base commit, so they do not demonstrate that this change works — they are either vacuous or the behavior already existed. This PR is a draft.\n\n"@
}

proof fn lemma_green_section(rest: Seq<char>)
    ensures
        find(green_head() + rest, draft_sentence()) is Some,
{
    reveal_strlit("This PR is a draft");
    reveal_strlit(
        "\n**Vacuous-test replay FAILED.** These end-to-end tests PASS against the base commit, so they do not demonstrate that this change works — they are either vacuous or the behavior already existed. This PR is a draft.\n\n",
    );
    let s = green_head() + rest;
    let p = draft_sentence();
    lemma_find(s, p);
    let k = green_head().len() - 21;
    let tail = s.subrange(k, s.len() as int);
    assert(tail.subrange(0, p.len() as int) =~= p);
    assert(p.is_prefix_of(tail));
}

/// The lines that say something, without the white space around them.
pub open spec fn filled_lines(rows: Seq<Seq<char>>) -> Seq<Seq<char>>
    decreases rows.len(),
{
    if rows.len() == 0 {
        Seq::empty()
    } else {
        let before = filled_lines(rows.drop_last());
        if is_blank(rows.last()) {
            before
        } else {
            before.push(trim(rows.last()))
        }
    }
}

/// The paths in what git lists, one to a line.
pub fn changed_paths(listing: &str) -> (r: Vec<String>)
    ensures
        texts(r@) == filled_lines(lines(listing@)),
{
    let rows = lines_of(listing);
    let ghost all = lines(listing@);
    let mut out: Vec<String> = Vec::new();
    let mut i: usize = 0;
    proof {
        lemma_texts_empty();
    }
    while i < rows.len()
        invariant
            i <= rows@.len(),
            all == texts(rows@),
            texts(out@) == filled_lines(all.take(i as int)),
        decreases rows@.len() - i,
    {
        proof {
            assert(all.take(i + 1).drop_last() =~= all.take(i as int));
            assert(all.take(i + 1).last() == rows@[i as int]@);
        }
        let path = trim_text(rows[i].as_str());
        if !path.as_str().is_empty() {
            proof {
                lemma_texts_push(out@, path);
            }
            out.push(path);
        }
        i += 1;
    }
    proof {
        assert(all.take(all.len() as int) =~= all);
    }
    out
}

/// How a run of the end-to-end suite ended.
#[derive(Debug, PartialEq, Eq)]
pub enum E2eOutcome {
    Passed,
    Failed,
    TimedOut,
    NotRun { reason: String },
}

/// How one test was laid over the old tree.
#[derive(Debug)]
#[allow(inconsistent_fields)]
pub enum OverlayEnd {
    Copied,
    /// The change removed the test.
    Absent,
    NoDirectory { parent: String, error: String },
    NotCopied { error: String },
}

/// One thing to do next.
#[derive(Debug)]
pub enum ReplayStep {
    /// List the paths that the given range of commits changed.
    ListChanged { range: String },
    /// Pick the end-to-end tests.
    SelectTests { changed: Vec<String> },
    CreateScratchRoot { path: String },
    /// Take away what an interrupted replay left.
    ClearScratch { path: String },
    /// Check the old tree out.
    AddWorktree { path: String, base: String },
    /// Lay one test over it.
    Overlay { from: String, to: String },
    StartApp { dir: String },
    RunSuite { dir: String },
    StopApp,
    RemoveWorktree { path: String },
    /// Forget the tree where it could not be taken away.
    PruneWorktrees { path: String },
    Finish(ReplayOutcome),
}

/// What came of a step.
#[derive(Debug)]
pub enum ReplayEvent {
    Listed(Result<String, String>),
    Selected(Vec<String>),
    Rooted(Result<(), String>),
    Cleared,
    Added(Result<(), String>),
    Overlaid(OverlayEnd),
    Started(Result<(), String>),
    Ran(E2eOutcome),
    Stopped,
    Removed(Result<(), String>),
    Pruned,
}

#[derive(Debug)]
#[allow(inconsistent_fields)]
pub enum ReplayStage {
    Listing,
    Selecting,
    Rooting { tests: Vec<String> },
    Clearing { tests: Vec<String> },
    Adding { tests: Vec<String> },
    Overlaying { tests: Vec<String>, next: usize },
    Starting { tests: Vec<String> },
    Running { tests: Vec<String> },
    Stopping { outcome: ReplayOutcome },
    Removing { outcome: ReplayOutcome },
    Pruning { outcome: ReplayOutcome },
    Finished,
}

/// One replay.
#[derive(Debug)]
pub struct ReplayRun {
    pub workspace: String,
    /// The commit before the change.
    pub base: String,
    /// Where trees of replays are put.
    pub scratch_root: String,
    pub stage: ReplayStage,
}

/// Where the old tree is checked out.
pub open spec fn scratch_place(root: Seq<char>, base: Seq<char>) -> Seq<char> {
    joined(root, "replay-"@ + base)
}

impl ReplayRun {
    pub open spec fn scratch(self) -> Seq<char> {
        scratch_place(self.scratch_root@, self.base@)
    }

    /// Whether the old tree is checked out.
    pub open spec fn has_worktree(self) -> bool {
        match self.stage {
            ReplayStage::Overlaying { .. } => true,
            ReplayStage::Starting { .. } => true,
            ReplayStage::Running { .. } => true,
            ReplayStage::Stopping { .. } => true,
            ReplayStage::Removing { .. } => true,
            ReplayStage::Pruning { .. } => true,
            _ => false,
        }
    }

    /// Whether the application runs.
    pub open spec fn has_app(self) -> bool {
        self.stage is Running || self.stage is Stopping
    }

    pub open spec fn wf(self) -> bool {
        match self.stage {
            ReplayStage::Rooting { tests } => tests@.len() > 0,
            ReplayStage::Clearing { tests } => tests@.len() > 0,
            ReplayStage::Adding { tests } => tests@.len() > 0,
            ReplayStage::Overlaying { tests, next } => next < tests@.len(),
            _ => true,
        }
    }

    pub open spec fn expects(self, event: ReplayEvent) -> bool {
        match self.stage {
            ReplayStage::Listing => event is Listed,
            ReplayStage::Selecting => event is Selected,
            ReplayStage::Rooting { .. } => event is Rooted,
            ReplayStage::Clearing { .. } => event is Cleared,
            ReplayStage::Adding { .. } => event is Added,
            ReplayStage::Overlaying { .. } => event is Overlaid,
            ReplayStage::Starting { .. } => event is Started,
            ReplayStage::Running { .. } => event is Ran,
            ReplayStage::Stopping { .. } => event is Stopped,
            ReplayStage::Removing { .. } => event is Removed,
            ReplayStage::Pruning { .. } => event is Pruned,
            ReplayStage::Finished => false,
        }
    }

    /// Whether another state differs in its stage alone.
    pub open spec fn same_job(self, other: ReplayRun) -> bool {
        self.workspace@ == other.workspace@ && self.base@ == other.base@ && self.scratch_root@
            == other.scratch_root@
    }
}

/// The replay ends for a reason that keeps it from showing anything. The old
/// tree is taken away first, where it is checked out.
pub open spec fn gives_up(
    before: ReplayRun,
    after: ReplayRun,
    step: ReplayStep,
    why: Seq<char>,
) -> bool {
    &&& before.same_job(after)
    &&& if before.has_worktree() {
        &&& after.stage matches ReplayStage::Removing {
            outcome: ReplayOutcome::CouldNotRun { reason },
        }
        &&& reason@ == why
        &&& step matches ReplayStep::RemoveWorktree { path }
        &&& path@ == before.scratch()
    } else {
        &&& after.stage is Finished
        &&& step matches ReplayStep::Finish(ReplayOutcome::CouldNotRun { reason })
        &&& reason@ == why
    }
}

/// Whether a step lays a test over the old tree.
pub open spec fn overlays(run: ReplayRun, test: Seq<char>, step: ReplayStep) -> bool {
    &&& step matches ReplayStep::Overlay { from, to }
    &&& from@ == joined(run.workspace@, test)
    &&& to@ == joined(run.scratch(), test)
}

/// What a run of the suite against the old tree shows.
pub open spec fn shown(tests: Vec<String>, end: E2eOutcome, outcome: ReplayOutcome) -> bool {
    match end {
        E2eOutcome::Passed => outcome == (ReplayOutcome::GreenAgainstBase { tests }),
        E2eOutcome::Failed => outcome == (ReplayOutcome::Red { tests }),
        E2eOutcome::TimedOut => outcome == (ReplayOutcome::Red { tests }),
        E2eOutcome::NotRun { reason } => outcome matches ReplayOutcome::CouldNotRun { reason: why }
            && why@ == "the suite did not run against the base tree: "@ + reason@,
    }
}

/// What follows an event: the stage after it, and the step to take.
pub open spec fn replay_follows(
    before: ReplayRun,
    event: ReplayEvent,
    after: ReplayRun,
    step: ReplayStep,
) -> bool {
    &&& before.same_job(after)
    &&& match (before.stage, event) {
        (ReplayStage::Listing, ReplayEvent::Listed(Ok(listing))) => {
            &&& after.stage is Selecting
            &&& step matches ReplayStep::SelectTests { changed }
            &&& texts(changed@) == filled_lines(lines(listing@))
        },
        (ReplayStage::Listing, ReplayEvent::Listed(Err(e))) => gives_up(
            before,
            after,
            step,
            "could not list changed paths: "@ + e@,
        ),
        (ReplayStage::Selecting, ReplayEvent::Selected(tests)) => if tests@.len() == 0 {
            &&& after.stage is Finished
            &&& step matches ReplayStep::Finish(ReplayOutcome::Skipped { reason })
            &&& reason@ == "the pass changed no end-to-end test file"@
        } else {
            &&& after.stage == (ReplayStage::Rooting { tests })
            &&& step matches ReplayStep::CreateScratchRoot { path }
            &&& path@ == before.scratch_root@
        },
        (ReplayStage::Rooting { tests }, ReplayEvent::Rooted(Ok(_))) => {
            &&& after.stage == (ReplayStage::Clearing { tests })
            &&& step matches ReplayStep::ClearScratch { path }
            &&& path@ == before.scratch()
        },
        (ReplayStage::Rooting { .. }, ReplayEvent::Rooted(Err(e))) => gives_up(
            before,
            after,
            step,
            "could not create the replay scratch root: "@ + e@,
        ),
        (ReplayStage::Clearing { tests }, ReplayEvent::Cleared) => {
            &&& after.stage == (ReplayStage::Adding { tests })
            &&& step matches ReplayStep::AddWorktree { path, base }
            &&& path@ == before.scratch()
            &&& base@ == before.base@
        },
        (ReplayStage::Adding { tests }, ReplayEvent::Added(Ok(_))) => {
            &&& after.stage == (ReplayStage::Overlaying { tests, next: 0 })
            &&& overlays(before, tests@[0]@, step)
        },
        (ReplayStage::Adding { .. }, ReplayEvent::Added(Err(e))) => gives_up(
            before,
            after,
            step,
            "could not create the replay worktree: "@ + e@,
        ),
        (ReplayStage::Overlaying { tests, next }, ReplayEvent::Overlaid(end)) => match end {
            OverlayEnd::NoDirectory { parent, error } => gives_up(
                before,
                after,
                step,
                "could not create "@ + parent@ + " in the replay worktree: "@ + error@,
            ),
            OverlayEnd::NotCopied { error } => gives_up(
                before,
                after,
                step,
                "could not overlay "@ + tests@[next as int]@ + ": "@ + error@,
            ),
            _ => if next + 1 < tests@.len() {
                &&& after.stage matches ReplayStage::Overlaying { tests: t, next: n }
                &&& t == tests
                &&& n == next + 1
                &&& overlays(before, tests@[next + 1]@, step)
            } else {
                &&& after.stage == (ReplayStage::Starting { tests })
                &&& step matches ReplayStep::StartApp { dir }
                &&& dir@ == before.scratch()
            },
        },
        (ReplayStage::Starting { tests }, ReplayEvent::Started(Ok(_))) => {
            &&& after.stage == (ReplayStage::Running { tests })
            &&& step matches ReplayStep::RunSuite { dir }
            &&& dir@ == before.scratch()
        },
        (ReplayStage::Starting { .. }, ReplayEvent::Started(Err(e))) => gives_up(
            before,
            after,
            step,
            "the application did not start from the base tree: "@ + e@,
        ),
        (ReplayStage::Running { tests }, ReplayEvent::Ran(end)) => {
            &&& after.stage matches ReplayStage::Stopping { outcome }
            &&& shown(tests, end, outcome)
            &&& step is StopApp
        },
        (ReplayStage::Stopping { outcome }, ReplayEvent::Stopped) => {
            &&& after.stage == (ReplayStage::Removing { outcome })
            &&& step matches ReplayStep::RemoveWorktree { path }
            &&& path@ == before.scratch()
        },
        (ReplayStage::Removing { outcome }, ReplayEvent::Removed(Ok(_))) => {
            &&& after.stage is Finished
            &&& step == ReplayStep::Finish(outcome)
        },
        (ReplayStage::Removing { outcome }, ReplayEvent::Removed(Err(_))) => {
            &&& after.stage == (ReplayStage::Pruning { outcome })
            &&& step matches ReplayStep::PruneWorktrees { path }
            &&& path@ == before.scratch()
        },
        (ReplayStage::Pruning { outcome }, ReplayEvent::Pruned) => {
            &&& after.stage is Finished
            &&& step == ReplayStep::Finish(outcome)
        },
        _ => false,
    }
}

impl ReplayRun {
    /// Begins a replay: what the change touched is listed first.
    pub fn start(workspace: String, base: String, scratch_root: String) -> (r: (
        ReplayRun,
        ReplayStep,
    ))
        ensures
            r.0.wf(),
            r.0.stage is Listing,
            r.0.workspace == workspace,
            r.0.base == base,
            r.0.scratch_root == scratch_root,
            r.1 matches ReplayStep::ListChanged { range } && range@ == base@ + "..HEAD"@,
    {
        let range = cat2(base.as_str(), "..HEAD");
        (
            ReplayRun { workspace, base, scratch_root, stage: ReplayStage::Listing },
            ReplayStep::ListChanged { range },
        )
    }

    fn scratch_path(&self) -> (r: String)
        ensures
            r@ == self.scratch(),
    {
        join_path(self.scratch_root.as_str(), cat2("replay-", self.base.as_str()).as_str())
    }

    fn overlay(&self, test: &str) -> (r: ReplayStep)
        ensures
            overlays(*self, test@, r),
    {
        let scratch = self.scratch_path();
        ReplayStep::Overlay {
            from: join_path(self.workspace.as_str(), test),
            to: join_path(scratch.as_str(), test),
        }
    }

    /// Ends the replay with nothing shown.
    fn end(&mut self, reason: String) -> (r: ReplayStep)
        requires
            old(self).stage is Finished,
        ensures
            final(self).stage is Finished,
            old(self).same_job(*final(self)),
            r matches ReplayStep::Finish(ReplayOutcome::CouldNotRun { reason: why }) && why@
                == reason@,
    {
        ReplayStep::Finish(ReplayOutcome::CouldNotRun { reason })
    }

    /// Takes the old tree away and ends the replay then with nothing shown.
    fn undo(&mut self, reason: String) -> (r: ReplayStep)
        ensures
            final(self).stage matches ReplayStage::Removing {
                outcome: ReplayOutcome::CouldNotRun { reason: why },
            } && why@ == reason@,
            old(self).same_job(*final(self)),
            r matches ReplayStep::RemoveWorktree { path } && path@ == old(self).scratch(),
    {
        let path = self.scratch_path();
        self.stage = ReplayStage::Removing { outcome: ReplayOutcome::CouldNotRun { reason } };
        ReplayStep::RemoveWorktree { path }
    }

    /// Takes what came of the last step and says what to do next.
    pub fn advance(&mut self, event: ReplayEvent) -> (step: ReplayStep)
        requires
            old(self).wf(),
            old(self).expects(event),
        ensures
            final(self).wf(),
            replay_follows(*old(self), event, *final(self), step),
    {
        let mut stage = ReplayStage::Finished;
        std::mem::swap(&mut stage, &mut self.stage);
        match (stage, event) {
            (ReplayStage::Listing, ReplayEvent::Listed(Ok(listing))) => {
                self.stage = ReplayStage::Selecting;
                ReplayStep::SelectTests { changed: changed_paths(listing.as_str()) }
            },
            (ReplayStage::Listing, ReplayEvent::Listed(Err(e))) => self.end(
                cat2("could not list changed paths: ", e.as_str()),
            ),
            (ReplayStage::Selecting, ReplayEvent::Selected(tests)) => {
                if tests.len() == 0 {
                    ReplayStep::Finish(
                        ReplayOutcome::Skipped {
                            reason: "the pass changed no end-to-end test file".to_owned(),
                        },
                    )
                } else {
                    self.stage = ReplayStage::Rooting { tests };
                    ReplayStep::CreateScratchRoot { path: self.scratch_root.clone() }
                }
            },
            (ReplayStage::Rooting { tests }, ReplayEvent::Rooted(Ok(_))) => {
                self.stage = ReplayStage::Clearing { tests };
                ReplayStep::ClearScratch { path: self.scratch_path() }
            },
            (ReplayStage::Rooting { .. }, ReplayEvent::Rooted(Err(e))) => self.end(
                cat2("could not create the replay scratch root: ", e.as_str()),
            ),
            (ReplayStage::Clearing { tests }, ReplayEvent::Cleared) => {
                self.stage = ReplayStage::Adding { tests };
                ReplayStep::AddWorktree { path: self.scratch_path(), base: self.base.clone() }
            },
            (ReplayStage::Adding { tests }, ReplayEvent::Added(Ok(_))) => {
                let step = self.overlay(tests[0].as_str());
                self.stage = ReplayStage::Overlaying { tests, next: 0 };
                step
            },
            (ReplayStage::Adding { .. }, ReplayEvent::Added(Err(e))) => self.end(
                cat2("could not create the replay worktree: ", e.as_str()),
            ),
            (ReplayStage::Overlaying { tests, next }, ReplayEvent::Overlaid(end)) => {
                match end {
                    OverlayEnd::NoDirectory { parent, error } => self.undo(
                        cat4(
                            "could not create ",
                            parent.as_str(),
                            " in the replay worktree: ",
                            error.as_str(),
                        ),
                    ),
                    OverlayEnd::NotCopied { error } => self.undo(
                        cat4(
                            "could not overlay ",
                            tests[next].as_str(),
                            ": ",
                            error.as_str(),
                        ),
                    ),
                    OverlayEnd::Copied | OverlayEnd::Absent => {
                        if tests.len() - next > 1 {
                            let step = self.overlay(tests[next + 1].as_str());
                            self.stage = ReplayStage::Overlaying { tests, next: next + 1 };
                            step
                        } else {
                            self.stage = ReplayStage::Starting { tests };
                            ReplayStep::StartApp { dir: self.scratch_path() }
                        }
                    },
                }
            },
            (ReplayStage::Starting { tests }, ReplayEvent::Started(Ok(_))) => {
                self.stage = ReplayStage::Running { tests };
                ReplayStep::RunSuite { dir: self.scratch_path() }
            },
            (ReplayStage::Starting { .. }, ReplayEvent::Started(Err(e))) => self.undo(
                cat2("the application did not start from the base tree: ", e.as_str()),
            ),
            (ReplayStage::Running { tests }, ReplayEvent::Ran(end)) => {
                let outcome = match end {
                    E2eOutcome::Passed => ReplayOutcome::GreenAgainstBase { tests },
                    E2eOutcome::Failed => ReplayOutcome::Red { tests },
                    E2eOutcome::TimedOut => ReplayOutcome::Red { tests },
                    E2eOutcome::NotRun { reason } => ReplayOutcome::CouldNotRun {
                        reason: cat2(
                            "the suite did not run against the base tree: ",
                            reason.as_str(),
                        ),
                    },
                };
                self.stage = ReplayStage::Stopping { outcome };
                ReplayStep::StopApp
            },
            (ReplayStage::Stopping { outcome }, ReplayEvent::Stopped) => {
                self.stage = ReplayStage::Removing { outcome };
                ReplayStep::RemoveWorktree { path: self.scratch_path() }
            },
            (ReplayStage::Removing { outcome }, ReplayEvent::Removed(Ok(_))) => {
                ReplayStep::Finish(outcome)
            },
            (ReplayStage::Removing { outcome }, ReplayEvent::Removed(Err(_))) => {
                self.stage = ReplayStage::Pruning { outcome };
                ReplayStep::PruneWorktrees { path: self.scratch_path() }
            },
            (ReplayStage::Pruning { outcome }, ReplayEvent::Pruned) => {
                ReplayStep::Finish(outcome)
            },
            _ => unreached(),
        }
    }
}

/// The tree of a replay never stays behind: once it is checked out, nothing ends
/// the replay before a step has taken it away, and the application has been
/// stopped by then.
pub proof fn the_tree_is_always_taken_away(
    before: ReplayRun,
    event: ReplayEvent,
    after: ReplayRun,
    step: ReplayStep,
)
    requires
        replay_follows(before, event, after, step),
    ensures
        step is Finish ==> !after.has_worktree() && !after.has_app(),
        before.has_worktree() && !after.has_worktree() ==> (before.stage is Removing && (
        event matches ReplayEvent::Removed(Ok(_)))) || before.stage is Pruning,
        after.stage is Removing ==> step is RemoveWorktree,
        before.has_app() && !after.has_app() ==> before.stage is Stopping,
        after.stage is Stopping ==> step is StopApp,
{
}

/// Nothing but a test is laid over the old tree.
pub proof fn only_tests_are_laid_over(
    before: ReplayRun,
    event: ReplayEvent,
    after: ReplayRun,
    step: ReplayStep,
)
    requires
        before.wf(),
        replay_follows(before, event, after, step),
        step is Overlay,
    ensures
        after.stage matches ReplayStage::Overlaying { tests, next } && next < tests@.len()
            && overlays(after, tests@[next as int]@, step),
{
}

/// A replay makes the pull request a draft only where the suite ran against the
/// old tree and passed there: one that could not run is no evidence.
pub proof fn only_a_green_run_drafts(
    before: ReplayRun,
    event: ReplayEvent,
    after: ReplayRun,
    step: ReplayStep,
)
    requires
        replay_follows(before, event, after, step),
        after.stage matches ReplayStage::Stopping { outcome } && outcome is GreenAgainstBase,
    ensures
        event == ReplayEvent::Ran(E2eOutcome::Passed),
{
}

/// A run of a replay: it begins with what the change touched being listed, and each
/// event is answered by the step that follows it.
pub open spec fn is_replay_run(
    runs: Seq<ReplayRun>,
    events: Seq<ReplayEvent>,
    steps: Seq<ReplayStep>,
) -> bool {
    &&& runs.len() == events.len() + 1
    &&& steps.len() == events.len()
    &&& runs[0].stage is Listing
    &&& forall|i: int|
        0 <= i < events.len() ==> replay_follows(
            runs[i],
            events[i],
            runs[i + 1],
            #[trigger] steps[i],
        )
}

/// What an event says that keeps the tests from showing anything; `test` is the one
/// that was to be laid over the old tree.
pub open spec fn why_nothing_is_shown(event: ReplayEvent, test: Seq<char>) -> Option<Seq<char>> {
    match event {
        ReplayEvent::Listed(Err(e)) => Some("could not list changed paths: "@ + e@),
        ReplayEvent::Rooted(Err(e)) => Some("could not create the replay scratch root: "@ + e@),
        ReplayEvent::Added(Err(e)) => Some("could not create the replay worktree: "@ + e@),
        ReplayEvent::Overlaid(OverlayEnd::NoDirectory { parent, error }) => Some(
            "could not create "@ + parent@ + " in the replay worktree: "@ + error@,
        ),
        ReplayEvent::Overlaid(OverlayEnd::NotCopied { error }) => Some(
            "could not overlay "@ + test + ": "@ + error@,
        ),
        ReplayEvent::Started(Err(e)) => Some(
            "the application did not start from the base tree: "@ + e@,
        ),
        ReplayEvent::Ran(E2eOutcome::NotRun { reason }) => Some(
            "the suite did not run against the base tree: "@ + reason@,
        ),
        _ => None,
    }
}

/// The test that an event is about, where it is about one.
pub open spec fn test_at(events: Seq<ReplayEvent>, i: int) -> Seq<char> {
    match events[1] {
        ReplayEvent::Selected(tests) => tests@[i - 5]@,
        _ => Seq::empty(),
    }
}

/// Whether the base commit was checked out in a tree of its own, and the first tests of
/// those that were selected were laid over it, each from its place in the workspace to
/// the same place in that tree.
pub open spec fn tests_are_laid_over(
    run: ReplayRun,
    events: Seq<ReplayEvent>,
    steps: Seq<ReplayStep>,
    tests: Vec<String>,
    count: int,
) -> bool {
    let tree = joined(run.scratch_root@, "replay-"@ + run.base@);
    &&& events[1] == ReplayEvent::Selected(tests)
    &&& steps[3] matches ReplayStep::AddWorktree { path, base } && path@ == tree && base@
        == run.base@
    &&& events[4] matches ReplayEvent::Added(Ok(_))
    &&& forall|k: int|
        0 <= k < count ==> (#[trigger] steps[4 + k] matches ReplayStep::Overlay { from, to }
            && from@ == joined(run.workspace@, tests@[k]@) && to@ == joined(tree, tests@[k]@))
}

/// Whether the application was started from that tree, with all the tests laid over it,
/// and the suite was run there.
pub open spec fn suite_ran_on_the_base(
    run: ReplayRun,
    events: Seq<ReplayEvent>,
    steps: Seq<ReplayStep>,
    tests: Vec<String>,
) -> bool {
    let tree = joined(run.scratch_root@, "replay-"@ + run.base@);
    let n = tests@.len() as int;
    &&& n > 0
    &&& tests_are_laid_over(run, events, steps, tests, n)
    &&& steps[4 + n] matches ReplayStep::StartApp { dir } && dir@ == tree
    &&& events[5 + n] matches ReplayEvent::Started(Ok(_))
    &&& steps[5 + n] matches ReplayStep::RunSuite { dir } && dir@ == tree
}

/// What an outcome rests on.
pub open spec fn rests_on(
    run: ReplayRun,
    events: Seq<ReplayEvent>,
    steps: Seq<ReplayStep>,
    outcome: ReplayOutcome,
    i: int,
) -> bool {
    match outcome {
        ReplayOutcome::GreenAgainstBase { tests } => {
            &&& suite_ran_on_the_base(run, events, steps, tests)
            &&& events[6int + tests@.len()] == ReplayEvent::Ran(E2eOutcome::Passed)
            &&& 6 + tests@.len() < i
        },
        ReplayOutcome::Red { tests } => {
            &&& suite_ran_on_the_base(run, events, steps, tests)
            &&& events[6int + tests@.len()] == ReplayEvent::Ran(E2eOutcome::Failed) || events[6int
                + tests@.len()] == ReplayEvent::Ran(E2eOutcome::TimedOut)
            &&& 6 + tests@.len() < i
        },
        ReplayOutcome::Skipped { reason } => {
            &&& events[1] matches ReplayEvent::Selected(tests) && tests@.len() == 0
            &&& reason@ == "the pass changed no end-to-end test file"@
        },
        ReplayOutcome::CouldNotRun { reason } => exists|j: int|
            0 <= j < i && why_nothing_is_shown(#[trigger] events[j], test_at(events, j)) == Some(
                reason@,
            ),
    }
}

proof fn lemma_replay_at(
    runs: Seq<ReplayRun>,
    events: Seq<ReplayEvent>,
    steps: Seq<ReplayStep>,
    i: int,
)
    requires
        is_replay_run(runs, events, steps),
        0 <= i < runs.len(),
    ensures
        runs[0].same_job(runs[i]),
        match runs[i].stage {
            ReplayStage::Listing => i == 0,
            ReplayStage::Selecting => i == 1,
            ReplayStage::Rooting { tests } => i == 2 && events[1] == ReplayEvent::Selected(tests)
                && tests@.len() > 0,
            ReplayStage::Clearing { tests } => i == 3 && events[1] == ReplayEvent::Selected(tests)
                && tests@.len() > 0,
            ReplayStage::Adding { tests } => i == 4 && events[1] == ReplayEvent::Selected(tests)
                && tests@.len() > 0 && (steps[3] matches ReplayStep::AddWorktree { path, base }
                && path@ == joined(runs[0].scratch_root@, "replay-"@ + runs[0].base@) && base@
                == runs[0].base@),
            ReplayStage::Overlaying { tests, next } => i == 5 + next && next < tests@.len()
                && tests_are_laid_over(runs[0], events, steps, tests, next + 1),
            ReplayStage::Starting { tests } => i == 5 + tests@.len() && tests@.len() > 0
                && tests_are_laid_over(runs[0], events, steps, tests, tests@.len() as int) && (
            steps[i - 1] matches ReplayStep::StartApp { dir } && dir@ == joined(
                runs[0].scratch_root@,
                "replay-"@ + runs[0].base@,
            )),
            ReplayStage::Running { tests } => i == 6 + tests@.len() && suite_ran_on_the_base(
                runs[0],
                events,
                steps,
                tests,
            ),
            ReplayStage::Stopping { outcome } => steps[i - 1] is StopApp && rests_on(
                runs[0],
                events,
                steps,
                outcome,
                i,
            ) && i >= 5,
            ReplayStage::Removing { outcome } => (steps[i - 1] matches ReplayStep::RemoveWorktree {
                path,
            } && path@ == joined(runs[0].scratch_root@, "replay-"@ + runs[0].base@)) && rests_on(
                runs[0],
                events,
                steps,
                outcome,
                i,
            ) && i >= 5 && (steps[3] is AddWorktree && (events[4] matches ReplayEvent::Added(
                Ok(_),
            ))),
            ReplayStage::Pruning { outcome } => rests_on(runs[0], events, steps, outcome, i) && i
                >= 6 && steps[i - 2] is RemoveWorktree && steps[3] is AddWorktree && (
            events[4] matches ReplayEvent::Added(Ok(_))),
            ReplayStage::Finished => (steps[i - 1] matches ReplayStep::Finish(outcome) && rests_on(
                runs[0],
                events,
                steps,
                outcome,
                i,
            )),
        },
        runs[i].stage is Stopping ==> steps[3] is AddWorktree && (
        events[4] matches ReplayEvent::Added(Ok(_))),
        forall|j: int|
            0 <= j < i && (match runs[i].stage {
                ReplayStage::Stopping { outcome } => outcome !is CouldNotRun,
                ReplayStage::Removing { outcome } => outcome !is CouldNotRun,
                ReplayStage::Pruning { outcome } => outcome !is CouldNotRun,
                ReplayStage::Finished => !(steps[i - 1] matches ReplayStep::Finish(
                    ReplayOutcome::CouldNotRun { .. },
                )),
                _ => true,
            }) ==> why_nothing_is_shown(#[trigger] events[j], test_at(events, j)) is None,
    decreases i,
{
    if i > 0 {
        lemma_replay_at(runs, events, steps, i - 1);
        let step = steps[i - 1];
        assert(replay_follows(runs[i - 1], events[i - 1], runs[i - 1 + 1], steps[i - 1]));
        let why = why_nothing_is_shown(events[i - 1], test_at(events, i - 1));
        if why is Some {
            assert(why_nothing_is_shown(events[i - 1], test_at(events, i - 1)) == why);
        }
    }
}

/// What a replay runs, it runs on the base commit: wherever the application is started
/// and the suite is run, that is in the tree where the base commit was checked out, and
/// only after every test that was selected was laid over it.
pub proof fn the_suite_runs_on_the_base_tree(
    runs: Seq<ReplayRun>,
    events: Seq<ReplayEvent>,
    steps: Seq<ReplayStep>,
    i: int,
    at: Seq<char>,
)
    requires
        is_replay_run(runs, events, steps),
        0 <= i < steps.len(),
        (steps[i] matches ReplayStep::StartApp { dir } && dir@ == at) || (
        steps[i] matches ReplayStep::RunSuite { dir } && dir@ == at),
    ensures
        at == joined(runs[0].scratch_root@, "replay-"@ + runs[0].base@),
        exists|j: int|
            0 <= j < i && (#[trigger] steps[j] matches ReplayStep::AddWorktree { path, base }
                && path@ == at && base@ == runs[0].base@) && (
            events[j + 1] matches ReplayEvent::Added(Ok(_))),
        runs[0].workspace@ != joined(runs[0].scratch_root@, "replay-"@ + runs[0].base@) ==> at
            != runs[0].workspace@,
        events[1] matches ReplayEvent::Selected(tests) && i >= 4 + tests@.len() && (forall|k: int|
            0 <= k < tests@.len() ==> (#[trigger] steps[4 + k] matches ReplayStep::Overlay {
                from,
                to,
            } && from@ == joined(runs[0].workspace@, tests@[k]@) && to@ == joined(at, tests@[k]@))),
{
    lemma_replay_at(runs, events, steps, i + 1);
    lemma_replay_at(runs, events, steps, i);
    assert(replay_follows(runs[i], events[i], runs[i + 1], steps[i]));
    assert(steps[3] is AddWorktree);
}

/// What a replay shows rests on what was run: the tests are green or red against the
/// base exactly as the suite ended on the base tree with all of them laid over it,
/// nothing is shown where there was no test, and whatever else kept them from being
/// run is told, and nothing but that.
pub proof fn a_replay_shows_what_was_run(
    runs: Seq<ReplayRun>,
    events: Seq<ReplayEvent>,
    steps: Seq<ReplayStep>,
    i: int,
    outcome: ReplayOutcome,
)
    requires
        is_replay_run(runs, events, steps),
        0 <= i < steps.len(),
        steps[i] == ReplayStep::Finish(outcome),
    ensures
        rests_on(runs[0], events, steps, outcome, i + 1),
        outcome !is CouldNotRun ==> forall|j: int|
            0 <= j <= i ==> why_nothing_is_shown(#[trigger] events[j], test_at(events, j)) is None,
        i + 1 == steps.len(),
{
    lemma_replay_at(runs, events, steps, i + 1);
    assert(replay_follows(runs[i], events[i], runs[i + 1], steps[i]));
    if i + 1 < steps.len() {
        let next = steps[i + 1];
        assert(replay_follows(runs[i + 1], events[i + 1], runs[i + 1 + 1], steps[i + 1]));
    }
}

/// The old tree does not stay behind: a replay that had it checked out ends only after
/// it was removed, or, where that failed, was forgotten; and an application that was
/// started is stopped before.
pub proof fn nothing_stays_behind(
    runs: Seq<ReplayRun>,
    events: Seq<ReplayEvent>,
    steps: Seq<ReplayStep>,
    i: int,
    j: int,
)
    requires
        is_replay_run(runs, events, steps),
        0 <= j < i < steps.len(),
        steps[i] is Finish,
        steps[j] is AddWorktree,
        events[j + 1] matches ReplayEvent::Added(Ok(_)),
    ensures
        exists|k: int|
            j < k < i && (#[trigger] steps[k] matches ReplayStep::RemoveWorktree { path } && path@
                == joined(runs[0].scratch_root@, "replay-"@ + runs[0].base@)) && (
            (events[k + 1] matches ReplayEvent::Removed(Ok(_))) || (steps[k
                + 1] matches ReplayStep::PruneWorktrees { path } && path@ == joined(
                runs[0].scratch_root@,
                "replay-"@ + runs[0].base@,
            ))),
        forall|k: int|
            0 <= k < i && #[trigger] steps[k] is RunSuite ==> k + 1 < i && steps[k + 1] is StopApp,
{
    lemma_replay_at(runs, events, steps, i + 1);
    lemma_replay_at(runs, events, steps, i);
    assert(replay_follows(runs[i], events[i], runs[i + 1], steps[i]));
    lemma_replay_at(runs, events, steps, j + 1);
    assert(replay_follows(runs[j], events[j], runs[j + 1], steps[j]));
    let s = steps[j + 1];
    assert(replay_follows(runs[j + 1], events[j + 1], runs[j + 1 + 1], steps[j + 1]));
    assert(j == 3);
    lemma_replay_at(runs, events, steps, i - 1);
    let t = steps[i - 1];
    assert(replay_follows(runs[i - 1], events[i - 1], runs[i - 1 + 1], steps[i - 1]));
    if runs[i].stage is Removing {
        assert(steps[i - 1] is RemoveWorktree);
    } else {
        assert(runs[i].stage is Pruning) by {
            if i < 5 {
                assert(runs[4].stage is Adding);
            }
        }
        assert(steps[i - 2] is RemoveWorktree);
        lemma_replay_at(runs, events, steps, i - 1);
    }
    assert forall|k: int| 0 <= k < i && #[trigger] steps[k] is RunSuite implies k + 1 < i
        && steps[k + 1] is StopApp by {
        lemma_replay_at(runs, events, steps, k);
        assert(replay_follows(runs[k], events[k], runs[k + 1], steps[k]));
        let u = steps[k + 1];
        assert(replay_follows(runs[k + 1], events[k + 1], runs[k + 1 + 1], steps[k + 1]));
    }
}

/// The order in which a replay goes on: what changed since the base is listed, the tests
/// are selected of it, and a tree for the base is made in a cleared place. Each path is
/// what it was said to be.
pub proof fn a_replay_begins_on_a_clear_place(
    runs: Seq<ReplayRun>,
    events: Seq<ReplayEvent>,
    steps: Seq<ReplayStep>,
    i: int,
)
    requires
        is_replay_run(runs, events, steps),
        0 <= i < steps.len(),
        i <= 3,
        !(steps[i] is Finish),
    ensures
        i == 0 ==> (events[0] matches ReplayEvent::Listed(Ok(listing)) && (
        steps[0] matches ReplayStep::SelectTests { changed } && texts(changed@) == filled_lines(
            lines(listing@),
        ))),
        i == 1 ==> (steps[1] matches ReplayStep::CreateScratchRoot { path } && path@
            == runs[0].scratch_root@),
        i == 2 ==> (steps[2] matches ReplayStep::ClearScratch { path } && path@ == joined(
            runs[0].scratch_root@,
            "replay-"@ + runs[0].base@,
        )),
        i == 3 ==> (steps[3] matches ReplayStep::AddWorktree { path, base } && path@ == joined(
            runs[0].scratch_root@,
            "replay-"@ + runs[0].base@,
        ) && base@ == runs[0].base@),
{
    lemma_replay_at(runs, events, steps, i + 1);
    lemma_replay_at(runs, events, steps, i);
    assert(replay_follows(runs[i], events[i], runs[i + 1], steps[i]));
}

/// The paths in a listing are its lines, in their order, each without the white space
/// around it; a line of white space alone gives none, and the listing of two parts is
/// that of the one and of the other.
pub proof fn each_line_gives_its_path(rows: Seq<Seq<char>>, more: Seq<Seq<char>>)
    ensures
        filled_lines(Seq::<Seq<char>>::empty()) == Seq::<Seq<char>>::empty(),
        rows.len() == 1 ==> filled_lines(rows) == if trim(rows[0]).len() == 0 {
            Seq::<Seq<char>>::empty()
        } else {
            seq![trim(rows[0])]
        },
        filled_lines(rows + more) == filled_lines(rows) + filled_lines(more),
    decreases more.len(),
{
    if rows.len() == 1 {
        assert(rows.drop_last() =~= Seq::<Seq<char>>::empty());
        assert(filled_lines(rows.drop_last()) =~= Seq::<Seq<char>>::empty());
        assert(filled_lines(rows) =~= if trim(rows[0]).len() == 0 {
            Seq::<Seq<char>>::empty()
        } else {
            seq![trim(rows[0])]
        });
    }
    if more.len() == 0 {
        assert(rows + more =~= rows);
        assert(filled_lines(rows) + filled_lines(more) =~= filled_lines(rows));
    } else {
        each_line_gives_its_path(rows, more.drop_last());
        assert((rows + more).drop_last() =~= rows + more.drop_last());
        assert((rows + more).last() == more.last());
        assert(filled_lines(rows + more) =~= filled_lines(rows) + filled_lines(more));
    }
}

/// A replay starts with what changed since the base, in the places that it was given.
pub proof fn a_replay_begins_as_asked(
    workspace: String,
    base: String,
    scratch_root: String,
    r: (ReplayRun, ReplayStep),
)
    requires
        call_ensures(ReplayRun::start, (workspace, base, scratch_root), r),
    ensures
        r.0.stage is Listing,
        r.0.workspace@ == workspace@,
        r.0.base@ == base@,
        r.0.scratch_root@ == scratch_root@,
        r.1 matches ReplayStep::ListChanged { range } && range@ == base@ + "..HEAD"@,
{
}

/// What a pull request says of end-to-end tests, and whether it is to be a draft.
#[derive(Debug, Clone, PartialEq, Eq)]
pub struct E2eVerification {
    pub section: String,
    pub drafts_pr: bool,
}

impl E2eVerification {
    /// What is said where the suite did not run: the section that tells so. It is
    /// said aloud, and the pull request is no draft for it.
    pub fn not_run(section: String) -> (r: E2eVerification)
        ensures
            r.section@ == section@,
            !r.drafts_pr,
    {
        E2eVerification { section, drafts_pr: false }
    }
}

/// A run of the suite with the change: how it ended, what is said of it, and
/// whether it makes the pull request a draft.
#[derive(Debug)]
pub struct SuiteReport {
    pub outcome: E2eOutcome,
    pub section: String,
    pub drafts_pr: bool,
}

/// Whether the tests are to be replayed: only tests that pass with the change
/// can be asked whether they pass without it.
pub fn wants_replay(suite: &SuiteReport) -> (r: bool)
    ensures
        r == (suite.outcome is Passed),
{
    match suite.outcome {
        E2eOutcome::Passed => true,
        _ => false,
    }
}

pub open spec fn uninformative_text() -> Seq<char> {
    "\nVacuous-test replay: not run (the suite did not pass against this change, so replaying it against the base commit would not be informative).\n"@
}

/// What is said of the suite and of the replay, where there was one.
pub fn run_e2e_verification(suite: &SuiteReport, replay: &Option<ReplayOutcome>) -> (r:
    E2eVerification)
    requires
        replay is Some <==> suite.outcome is Passed,
    ensures
        match replay {
            Some(outcome) => r.section@ == suite.section@ + outcome.section() && r.drafts_pr == (
            suite.drafts_pr || outcome.drafts()),
            None => r.section@ == suite.section@ + uninformative_text() && r.drafts_pr
                == suite.drafts_pr,
        },
{
    match replay {
        Some(outcome) => E2eVerification {
            section: cat2(suite.section.as_str(), outcome.render_pr_section().as_str()),
            drafts_pr: suite.drafts_pr || outcome.drafts_pr(),
        },
        None => E2eVerification {
            section: cat2(
                suite.section.as_str(),
                "\nVacuous-test replay: not run (the suite did not pass against this change, so replaying it against the base commit would not be informative).\n",
            ),
            drafts_pr: suite.drafts_pr,
        },
    }
}

/// A pull request is made a draft exactly where the suite says so or a replay was green
/// against the base; what is said of it begins with what is said of the suite, and
/// goes on with what the replay says, where the suite passed.
pub proof fn a_vacuous_test_drafts(
    suite: SuiteReport,
    replay: Option<ReplayOutcome>,
    r: E2eVerification,
)
    requires
        replay is Some <==> suite.outcome is Passed,
        call_ensures(run_e2e_verification, (&suite, &replay), r),
    ensures
        r.drafts_pr <==> suite.drafts_pr || replay matches Some(
            ReplayOutcome::GreenAgainstBase { .. },
        ),
        suite.section@.is_prefix_of(r.section@),
        suite.outcome is Passed ==> r.section@ == suite.section@ + replay->0.section(),
        !(suite.outcome is Passed) ==> r.section@.len() > suite.section@.len() && find(
            r.section@,
            "the suite did not pass against this change"@,
        ) is Some,
{
    let said = if replay is Some {
        replay->0.section()
    } else {
        uninformative_text()
    };
    assert((suite.section@ + said).subrange(0, suite.section@.len() as int) =~= suite.section@);
    if replay is None {
        reveal_strlit("the suite did not pass against this change");
        reveal_strlit(
            "\nVacuous-test replay: not run (the suite did not pass against this change, so replaying it against the base commit would not be informative).\n",
        );
        let whole = uninformative_text();
        let part = "the suite did not pass against this change"@;
        assert(whole.len() > 0);
        assert(whole.subrange(31, 31int + part.len()) =~= part);
        let a = suite.section@ + whole.subrange(0, 31);
        let b = whole.subrange(31int + part.len(), whole.len() as int);
        assert(suite.section@ + whole =~= a + part + b);
        lemma_held(a, part, b);
    }
}

/// A replay is wanted exactly where the suite passed, and where the suite did not run nothing is
/// made a draft.
pub proof fn only_a_suite_that_passed_is_replayed(
    suite: SuiteReport,
    wanted: bool,
    section: String,
    r: E2eVerification,
)
    requires
        call_ensures(wants_replay, (&suite,), wanted),
        call_ensures(E2eVerification::not_run, (section,), r),
    ensures
        wanted <==> suite.outcome is Passed,
        r.section@ == section@ && !r.drafts_pr,
{
}

/// What a pull request says of a replay: how many tests failed as they should, which ones pass
/// without the change, or why nothing was replayed.
pub proof fn the_section_tells_the_outcome(outcome: ReplayOutcome, r: String, drafts: bool)
    requires
        call_ensures(ReplayOutcome::render_pr_section, (&outcome,), r),
        call_ensures(ReplayOutcome::drafts_pr, (&outcome,), drafts),
    ensures
        drafts <==> outcome is GreenAgainstBase,
        outcome matches ReplayOutcome::Red { tests } ==> r@ == "\nVacuous-test replay: "@ + dec(
            tests@.len(),
        )
            + " new end-to-end test file(s) were replayed against the base commit and failed there, as expected.\n"@,
        outcome matches ReplayOutcome::GreenAgainstBase { tests } ==> {
            let list = Seq::new(tests@.len(), |i: int| "- `"@ + tests@[i]@ + "`"@);
            r@
                == "\n**Vacuous-test replay FAILED.** These end-to-end tests PASS against the base commit, so they do not demonstrate that this change works — they are either vacuous or the behavior already existed. This PR is a draft.\n\n"@
                + join(list, "\n"@) + "\n"@
        },
        outcome matches ReplayOutcome::Skipped { reason } ==> r@
            == "\nVacuous-test replay: not run ("@ + reason@ + ").\n"@,
        outcome matches ReplayOutcome::CouldNotRun { reason } ==> r@
            == "\nVacuous-test replay: could NOT run ("@ + reason@
            + "); the new tests were not checked against the base commit.\n"@,
{
    if let ReplayOutcome::GreenAgainstBase { tests } = outcome {
        let list = Seq::new(tests@.len(), |i: int| "- `"@ + tests@[i]@ + "`"@);
        assert(listed(texts(tests@)) =~= list);
    }
}

/// What is done of a replay with an event is what follows from where it stands.
pub proof fn a_replay_goes_step_by_step(
    run: Ghost<&mut ReplayRun>,
    event: ReplayEvent,
    step: ReplayStep,
)
    requires
        (*run@).wf(),
        (*run@).expects(event),
        call_ensures(ReplayRun::advance, (run@, event), step),
    ensures
        replay_follows(*run@, event, *final(run@), step),
{
}

/// The paths that a change touched are those that its listing gives, line by line.
pub proof fn the_listing_gives_the_paths(listing: &str, r: Vec<String>)
    requires
        call_ensures(changed_paths, (listing,), r),
    ensures
        texts(r@) == filled_lines(lines(listing@)),
{
}

} // verus!
