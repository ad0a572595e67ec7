//! A review on demand. It is advisory: it opens no revision and changes no
//! code; and a session that gives no verdict is reported as a failure, never as
//! an approval.
use vstd::pervasive::unreached;
use vstd::prelude::*;
use crate::control_socket::request::{
    missing_field, no_workspace_text, require, Found, RepositoryConfig,
};
use crate::json::{
    a_refusal_says_why, lemma_get_empty, lemma_get_with, obj, refusal, refuse, str_array, trees,
    Fields, Json, JsonV,
};
use crate::text::{cat2, cat4, cat5, lemma_texts_empty, lemma_texts_push, texts};

verus! {

/// What a request for a review names: a repository, and the words that say what
/// to look at.
#[derive(Debug)]
pub struct ReviewRequest {
    pub url: String,
    pub target: Vec<String>,
}

/// The items of a list that are strings.
pub open spec fn strings(items: Seq<JsonV>) -> Seq<Seq<char>>
    decreases items.len(),
{
    if items.len() == 0 {
        Seq::empty()
    } else {
        let before = strings(items.drop_last());
        match items.last().as_str() {
            Some(s) => before.push(s),
            None => before,
        }
    }
}

fn string_items(items: &Vec<Json>) -> (r: Vec<String>)
    ensures
        texts(r@) == strings(trees(items@)),
{
    let mut out: Vec<String> = Vec::new();
    let ghost all = trees(items@);
    let mut i: usize = 0;
    proof {
        lemma_texts_empty();
    }
    while i < items.len()
        invariant
            i <= items@.len(),
            all == trees(items@),
            texts(out@) == strings(all.take(i as int)),
        decreases items@.len() - i,
    {
        proof {
            assert(all.take(i + 1).drop_last() =~= all.take(i as int));
            assert(all.take(i + 1).last() == items@[i as int]@);
        }
        if let Json::Str(s) = &items[i] {
            let own = s.clone();
            proof {
                lemma_texts_push(out@, own);
            }
            out.push(own);
        }
        i += 1;
    }
    proof {
        assert(all.take(all.len() as int) =~= all);
    }
    out
}

impl ReviewRequest {
    /// Reads the request, or refuses it.
    pub fn read(parsed: &Json) -> (r: Result<ReviewRequest, Json>)
        ensures
            match (parsed@.str_at("url"@), parsed@.array_at("target"@)) {
                (None, _) => r matches Err(j) && j@ == refusal(missing_field("url"@)),
                (Some(_), None) => r matches Err(j) && j@ == refusal(
                    "missing `target` field (array of tokens)"@,
                ),
                (Some(url), Some(items)) => r matches Ok(q) && q.url@ == url && texts(q.target@)
                    == strings(items),
            },
    {
        let url = match require(parsed, "url") {
            Ok(s) => s,
            Err(e) => return Err(e),
        };
        match parsed.get_array("target") {
            Some(items) => Ok(ReviewRequest { url, target: string_items(items) }),
            None => Err(refuse("missing `target` field (array of tokens)")),
        }
    }
}

/// How the configuration has changes reviewed.
#[derive(Debug, Clone, Copy, PartialEq, Eq, Structural)]
pub enum ReviewerKind {
    Disabled,
    Oneshot,
    Agentic,
}

/// A verdict with its reasons.
#[derive(Debug)]
pub struct ReviewReport {
    pub verdict: String,
    pub markdown: String,
    pub sessions: u64,
    pub chunk_labels: Vec<String>,
    pub attribution: Json,
}

/// How a review session ended.
#[derive(Debug)]
pub enum ReviewEnd {
    Reviewed(ReviewReport),
    /// It gave no verdict that counts.
    Discarded { reason: String },
}

/// One thing to do next.
#[derive(Debug)]
pub enum ReviewStep {
    /// Work out what the words name.
    ParseTarget,
    /// Look the repository up.
    FindRepo,
    CheckWorkspace { path: String },
    CheckReviewer,
    /// Find what to look at in the local clone.
    ResolveSurface { base_branch: String, remote: String },
    RunReview,
    PostComment { pr_number: u64, body: String },
    /// Answer the request. Nothing comes after it.
    Reply(Json),
}

/// What came of a step.
#[derive(Debug)]
pub enum ReviewEvent {
    /// The number of the pull request, where the words name one.
    Parsed(Result<Option<u64>, String>),
    Found(Found),
    IsDir(bool),
    Reviewer(ReviewerKind),
    Surface(Result<(), String>),
    Ended(Result<ReviewEnd, String>),
    Commented(Result<(), String>),
}

#[derive(Debug)]
pub enum ReviewStage {
    Parsing,
    Finding,
    CheckingWorkspace(RepositoryConfig),
    CheckingReviewer(RepositoryConfig),
    Resolving,
    Reviewing,
    Commenting(ReviewReport),
    Finished,
}

/// How reviews are called where the daemon speaks of them.
#[derive(Debug)]
pub struct ReviewWords {
    /// The key of the section on reviews in the configuration file.
    pub key: String,
    /// The title of a comment on a pull request.
    pub comment_title: String,
    /// What the verdict is called in that comment.
    pub verdict_label: String,
}

/// One review.
#[derive(Debug)]
pub struct ReviewRun {
    pub words: ReviewWords,
    pub pr_number: Option<u64>,
    pub stage: ReviewStage,
}

pub open spec fn disabled_text(key: Seq<char>) -> Seq<char> {
    key + " is not configured/enabled; on-demand review requires an agentic "@ + key + " (set "@
        + key + ".enabled and "@ + key + ".kind: agentic)"@
}

pub open spec fn oneshot_text(key: Seq<char>) -> Seq<char> {
    "on-demand review requires the agentic "@ + key + " transport, but the "@ + key
        + " resolved to `oneshot` (its CLI may be unavailable on this host). Install the "@ + key
        + " CLI or set "@ + key + ".kind: agentic."@
}

fn disabled_message(key: &str) -> (r: String)
    ensures
        r@ == disabled_text(key@),
{
    let head = cat4(
        key,
        " is not configured/enabled; on-demand review requires an agentic ",
        key,
        " (set ",
    );
    cat5(head.as_str(), key, ".enabled and ", key, ".kind: agentic)")
}

fn oneshot_message(key: &str) -> (r: String)
    ensures
        r@ == oneshot_text(key@),
{
    let head = cat5(
        "on-demand review requires the agentic ",
        key,
        " transport, but the ",
        key,
        " resolved to `oneshot` (its CLI may be unavailable on this host). Install the ",
    );
    cat5(head.as_str(), key, " CLI or set ", key, ".kind: agentic.")
}

/// The reply that carries a verdict.
pub open spec fn verdict_reply(report: ReviewReport) -> JsonV {
    obj().flag("ok"@, true).text("verdict"@, report.verdict@).text("body"@, report.markdown@).number(
        "sessions"@,
        report.sessions,
    ).texts("chunks"@, texts(report.chunk_labels@)).with(
        "attribution"@,
        report.attribution@,
    ).done()
}

/// The reply where a session gave no verdict.
pub open spec fn discarded_reply(reason: Seq<char>) -> JsonV {
    obj().flag("ok"@, false).flag("discarded"@, true).text("error"@, reason).done()
}

/// The comment on a pull request that was reviewed.
pub open spec fn comment_body(words: ReviewWords, report: ReviewReport) -> Seq<char> {
    "## "@ + words.comment_title@ + "\n\n**"@ + words.verdict_label@ + ": "@ + report.verdict@
        + "**\n\n"@ + report.markdown@
}

fn comment(words: &ReviewWords, report: &ReviewReport) -> (r: String)
    ensures
        r@ == comment_body(*words, *report),
{
    let head = cat5(
        "## ",
        words.comment_title.as_str(),
        "\n\n**",
        words.verdict_label.as_str(),
        ": ",
    );
    cat4(head.as_str(), report.verdict.as_str(), "**\n\n", report.markdown.as_str())
}

impl ReviewRun {
    pub open spec fn expects(self, event: ReviewEvent) -> bool {
        match self.stage {
            ReviewStage::Parsing => event is Parsed,
            ReviewStage::Finding => event is Found,
            ReviewStage::CheckingWorkspace(_) => event is IsDir,
            ReviewStage::CheckingReviewer(_) => event is Reviewer,
            ReviewStage::Resolving => event is Surface,
            ReviewStage::Reviewing => event is Ended,
            ReviewStage::Commenting(_) => event is Commented,
            ReviewStage::Finished => false,
        }
    }
}

pub open spec fn review_ends(
    before: ReviewRun,
    after: ReviewRun,
    step: ReviewStep,
    reply: JsonV,
) -> bool {
    &&& after == (ReviewRun { stage: ReviewStage::Finished, ..before })
    &&& step matches ReviewStep::Reply(j)
    &&& j@ == reply
}

/// What follows an event: the stage after it, and the step to take.
pub open spec fn review_follows(
    before: ReviewRun,
    event: ReviewEvent,
    after: ReviewRun,
    step: ReviewStep,
) -> bool {
    match (before.stage, event) {
        (ReviewStage::Parsing, ReviewEvent::Parsed(Ok(number))) => after == (ReviewRun {
            pr_number: number,
            stage: ReviewStage::Finding,
            ..before
        }) && step is FindRepo,
        (ReviewStage::Parsing, ReviewEvent::Parsed(Err(e))) => review_ends(
            before,
            after,
            step,
            refusal(e@),
        ),
        (ReviewStage::Finding, ReviewEvent::Found(Ok(repo))) => {
            &&& after == (ReviewRun { stage: ReviewStage::CheckingWorkspace(repo), ..before })
            &&& step matches ReviewStep::CheckWorkspace { path }
            &&& path@ == repo.workspace@
        },
        (ReviewStage::Finding, ReviewEvent::Found(Err(e))) => review_ends(
            before,
            after,
            step,
            refusal(e@),
        ),
        (ReviewStage::CheckingWorkspace(repo), ReviewEvent::IsDir(there)) => if there {
            after == (ReviewRun { stage: ReviewStage::CheckingReviewer(repo), ..before })
                && step is CheckReviewer
        } else {
            review_ends(
                before,
                after,
                step,
                refusal(
                    no_workspace_text(repo.workspace@, "an on-demand review can run"@),
                ),
            )
        },
        (ReviewStage::CheckingReviewer(repo), ReviewEvent::Reviewer(kind)) => match kind {
            ReviewerKind::Disabled => review_ends(
                before,
                after,
                step,
                refusal(disabled_text(before.words.key@)),
            ),
            ReviewerKind::Oneshot => review_ends(
                before,
                after,
                step,
                refusal(oneshot_text(before.words.key@)),
            ),
            ReviewerKind::Agentic => {
                &&& after == (ReviewRun { stage: ReviewStage::Resolving, ..before })
                &&& step matches ReviewStep::ResolveSurface { base_branch, remote }
                &&& base_branch@ == repo.base_branch@
                &&& remote@ == "origin"@
            },
        },
        (ReviewStage::Resolving, ReviewEvent::Surface(Ok(_))) => after == (ReviewRun {
            stage: ReviewStage::Reviewing,
            ..before
        }) && step is RunReview,
        (ReviewStage::Resolving, ReviewEvent::Surface(Err(e))) => review_ends(
            before,
            after,
            step,
            refusal("resolving review target: "@ + e@),
        ),
        (ReviewStage::Reviewing, ReviewEvent::Ended(Ok(ReviewEnd::Reviewed(report)))) => match before.pr_number {
            Some(number) => {
                &&& after == (ReviewRun { stage: ReviewStage::Commenting(report), ..before })
                &&& step matches ReviewStep::PostComment { pr_number, body }
                &&& pr_number == number
                &&& body@ == comment_body(before.words, report)
            },
            None => review_ends(before, after, step, verdict_reply(report)),
        },
        (
            ReviewStage::Reviewing,
            ReviewEvent::Ended(Ok(ReviewEnd::Discarded { reason })),
        ) => review_ends(before, after, step, discarded_reply(reason@)),
        (ReviewStage::Reviewing, ReviewEvent::Ended(Err(e))) => review_ends(
            before,
            after,
            step,
            refusal("on-demand review failed: "@ + e@),
        ),
        // The verdict stands whether the comment could be posted or not.
        (ReviewStage::Commenting(report), ReviewEvent::Commented(_)) => review_ends(
            before,
            after,
            step,
            verdict_reply(report),
        ),
        _ => false,
    }
}

fn answer(report: &ReviewReport) -> (r: Json)
    ensures
        r@ == verdict_reply(*report),
{
    Fields::new().flag("ok", true).text("verdict", report.verdict.as_str()).text(
        "body",
        report.markdown.as_str(),
    ).number("sessions", report.sessions).texts("chunks", &report.chunk_labels).with(
        "attribution",
        report.attribution.copy(),
    ).finish()
}

impl ReviewRun {
    /// Begins a review: what the words of the request name is worked out first.
    pub fn start(words: ReviewWords) -> (r: (ReviewRun, ReviewStep))
        ensures
            r.0 == (ReviewRun { words, pr_number: None, stage: ReviewStage::Parsing }),
            r.1 is ParseTarget,
    {
        (
            ReviewRun { words, pr_number: None, stage: ReviewStage::Parsing },
            ReviewStep::ParseTarget,
        )
    }

    fn end(self, reply: Json) -> (r: (ReviewRun, ReviewStep))
        ensures
            review_ends(self, r.0, r.1, reply@),
    {
        (
            ReviewRun { words: self.words, pr_number: self.pr_number, stage: ReviewStage::Finished },
            ReviewStep::Reply(reply),
        )
    }

    /// Takes what came of the last step and says what to do next.
    pub fn advance(self, event: ReviewEvent) -> (r: (ReviewRun, ReviewStep))
        requires
            self.expects(event),
        ensures
            review_follows(self, event, r.0, r.1),
    {
        let words = self.words;
        let pr_number = self.pr_number;
        match (self.stage, event) {
            (ReviewStage::Parsing, ReviewEvent::Parsed(Ok(number))) => {
                (
                    ReviewRun { words, pr_number: number, stage: ReviewStage::Finding },
                    ReviewStep::FindRepo,
                )
            },
            (ReviewStage::Parsing, ReviewEvent::Parsed(Err(e))) => {
                ReviewRun { words, pr_number, stage: ReviewStage::Finished }.end(refuse(e.as_str()))
            },
            (ReviewStage::Finding, ReviewEvent::Found(Ok(repo))) => {
                let path = repo.workspace.clone();
                (
                    ReviewRun { words, pr_number, stage: ReviewStage::CheckingWorkspace(repo) },
                    ReviewStep::CheckWorkspace { path },
                )
            },
            (ReviewStage::Finding, ReviewEvent::Found(Err(e))) => {
                ReviewRun { words, pr_number, stage: ReviewStage::Finished }.end(refuse(e.as_str()))
            },
            (ReviewStage::CheckingWorkspace(repo), ReviewEvent::IsDir(there)) => {
                if there {
                    (
                        ReviewRun { words, pr_number, stage: ReviewStage::CheckingReviewer(repo) },
                        ReviewStep::CheckReviewer,
                    )
                } else {
                    let why = cat4(
                        "workspace ",
                        repo.workspace.as_str(),
                        " does not exist yet; the daemon must clone the repo before ",
                        "an on-demand review can run",
                    );
                    ReviewRun { words, pr_number, stage: ReviewStage::Finished }.end(
                        refuse(why.as_str()),
                    )
                }
            },
            (ReviewStage::CheckingReviewer(repo), ReviewEvent::Reviewer(kind)) => {
                match kind {
                    ReviewerKind::Disabled => {
                        let why = disabled_message(words.key.as_str());
                        ReviewRun { words, pr_number, stage: ReviewStage::Finished }.end(
                            refuse(why.as_str()),
                        )
                    },
                    ReviewerKind::Oneshot => {
                        let why = oneshot_message(words.key.as_str());
                        ReviewRun { words, pr_number, stage: ReviewStage::Finished }.end(
                            refuse(why.as_str()),
                        )
                    },
                    ReviewerKind::Agentic => {
                        (
                            ReviewRun { words, pr_number, stage: ReviewStage::Resolving },
                            ReviewStep::ResolveSurface {
                                base_branch: repo.base_branch.clone(),
                                remote: "origin".to_owned(),
                            },
                        )
                    },
                }
            },
            (ReviewStage::Resolving, ReviewEvent::Surface(Ok(_))) => {
                (ReviewRun { words, pr_number, stage: ReviewStage::Reviewing }, ReviewStep::RunReview)
            },
            (ReviewStage::Resolving, ReviewEvent::Surface(Err(e))) => {
                let why = cat2("resolving review target: ", e.as_str());
                ReviewRun { words, pr_number, stage: ReviewStage::Finished }.end(refuse(why.as_str()))
            },
            (ReviewStage::Reviewing, ReviewEvent::Ended(Ok(ReviewEnd::Reviewed(report)))) => {
                match pr_number {
                    Some(number) => {
                        let body = comment(&words, &report);
                        (
                            ReviewRun { words, pr_number, stage: ReviewStage::Commenting(report) },
                            ReviewStep::PostComment { pr_number: number, body },
                        )
                    },
                    None => {
                        let reply = answer(&report);
                        ReviewRun { words, pr_number, stage: ReviewStage::Finished }.end(reply)
                    },
                }
            },
            (
                ReviewStage::Reviewing,
                ReviewEvent::Ended(Ok(ReviewEnd::Discarded { reason })),
            ) => {
                let reply = Fields::new().flag("ok", false).flag("discarded", true).text(
                    "error",
                    reason.as_str(),
                ).finish();
                ReviewRun { words, pr_number, stage: ReviewStage::Finished }.end(reply)
            },
            (ReviewStage::Reviewing, ReviewEvent::Ended(Err(e))) => {
                let why = cat2("on-demand review failed: ", e.as_str());
                ReviewRun { words, pr_number, stage: ReviewStage::Finished }.end(refuse(why.as_str()))
            },
            (ReviewStage::Commenting(report), ReviewEvent::Commented(_)) => {
                let reply = answer(&report);
                ReviewRun { words, pr_number, stage: ReviewStage::Finished }.end(reply)
            },
            _ => unreached(),
        }
    }
}

/// A review fails closed: a reply with `ok` set carries the verdict of a session
/// that gave one, and no other.
pub proof fn review_fails_closed(
    before: ReviewRun,
    event: ReviewEvent,
    after: ReviewRun,
    step: ReviewStep,
)
    requires
        review_follows(before, event, after, step),
        step matches ReviewStep::Reply(j) && j@.bool_at("ok"@) == Some(true),
    ensures
        ({
            ||| event matches ReviewEvent::Ended(Ok(ReviewEnd::Reviewed(report)))
                && step->Reply_0@ == verdict_reply(report)
            ||| before.stage matches ReviewStage::Commenting(report) && step->Reply_0@
                == verdict_reply(report)
        }),
{
    let j = step->Reply_0@;
    lemma_ok_of_refusals(j);
}

proof fn lemma_ok_of_refusals(j: JsonV)
    ensures
        forall|why: Seq<char>| #[trigger] refusal(why) == j ==> j.bool_at("ok"@) == Some(false),
        forall|why: Seq<char>| #[trigger]
            discarded_reply(why) == j ==> j.bool_at("ok"@) == Some(false),
{
    assert forall|why: Seq<char>| #[trigger] refusal(why) == j implies j.bool_at("ok"@) == Some(
        false,
    ) by {
        assert(j matches JsonV::Obj(f) && f[0] == ("ok"@, JsonV::Bool(false)));
    }
    assert forall|why: Seq<char>| #[trigger] discarded_reply(why) == j implies j.bool_at("ok"@)
        == Some(false) by {
        assert(j matches JsonV::Obj(f) && f[0] == ("ok"@, JsonV::Bool(false)));
    }
}

/// The words of a request are its strings, in order; nothing else is a word, and those of
/// a list in two parts are those of the one and of the other.
pub proof fn strings_are_the_words(items: Seq<JsonV>, more: Seq<JsonV>)
    ensures
        strings(Seq::<JsonV>::empty()) == Seq::<Seq<char>>::empty(),
        items.len() == 1 ==> strings(items) == match items[0] {
            JsonV::Str(s) => seq![s],
            _ => Seq::empty(),
        },
        strings(items + more) == strings(items) + strings(more),
    decreases more.len(),
{
    if items.len() == 1 {
        assert(items.drop_last() =~= Seq::<JsonV>::empty());
        assert(strings(items.drop_last()) =~= Seq::<Seq<char>>::empty());
        assert(strings(items) =~= match items[0] {
            JsonV::Str(s) => seq![s],
            _ => Seq::empty(),
        });
    }
    if more.len() == 0 {
        assert(items + more =~= items);
        assert(strings(items) + strings(more) =~= strings(items));
    } else {
        strings_are_the_words(items, more.drop_last());
        assert((items + more).drop_last() =~= items + more.drop_last());
        assert((items + more).last() == more.last());
        assert(strings(items + more) =~= strings(items) + strings(more));
    }
}

/// A run of a review: it begins with the words of the request being read, and each event
/// is answered by the step that follows it.
pub open spec fn is_review_run(
    runs: Seq<ReviewRun>,
    events: Seq<ReviewEvent>,
    steps: Seq<ReviewStep>,
) -> bool {
    &&& runs.len() == events.len() + 1
    &&& steps.len() == events.len()
    &&& runs[0].stage is Parsing
    &&& runs[0].pr_number is None
    &&& forall|i: int|
        0 <= i < events.len() ==> review_follows(
            runs[i],
            events[i],
            runs[i + 1],
            #[trigger] steps[i],
        )
}

/// The names of the fields tell them apart.
proof fn lemma_field_names()
    ensures
        "ok"@.len() == 2,
        "body"@.len() == 4,
        "error"@.len() == 5,
        "chunks"@.len() == 6,
        "verdict"@.len() == 7,
        "sessions"@.len() == 8,
        "discarded"@.len() == 9,
        "attribution"@.len() == 11,
{
    reveal_strlit("ok");
    reveal_strlit("verdict");
    reveal_strlit("body");
    reveal_strlit("sessions");
    reveal_strlit("chunks");
    reveal_strlit("attribution");
    reveal_strlit("discarded");
    reveal_strlit("error");
}

proof fn lemma_review_at(
    runs: Seq<ReviewRun>,
    events: Seq<ReviewEvent>,
    steps: Seq<ReviewStep>,
    i: int,
)
    requires
        is_review_run(runs, events, steps),
        0 <= i < steps.len(),
    ensures
        i <= 6,
        review_follows(runs[i], events[i], runs[i + 1], steps[i]),
        runs[i].words == runs[0].words,
        i == 0 ==> runs[i].stage is Parsing,
        i == 1 ==> runs[i].stage is Finding,
        i >= 1 ==> events[0] == ReviewEvent::Parsed(Ok(runs[i].pr_number)),
        i == 2 ==> (runs[i].stage matches ReviewStage::CheckingWorkspace(repo) && events[1]
            == ReviewEvent::Found(Ok(repo))),
        i == 3 ==> (runs[i].stage matches ReviewStage::CheckingReviewer(repo) && events[1]
            == ReviewEvent::Found(Ok(repo))),
        i >= 3 ==> events[2] == ReviewEvent::IsDir(true),
        i == 4 ==> runs[i].stage is Resolving,
        i >= 4 ==> events[3] == ReviewEvent::Reviewer(ReviewerKind::Agentic),
        i == 5 ==> runs[i].stage is Reviewing,
        i >= 5 ==> (events[4] matches ReviewEvent::Surface(Ok(_))),
        i == 6 ==> (runs[i].stage matches ReviewStage::Commenting(report) && events[5]
            == ReviewEvent::Ended(Ok(ReviewEnd::Reviewed(report))) && runs[i].pr_number is Some),
    decreases i,
{
    let here = steps[i];
    assert(review_follows(runs[i], events[i], runs[i + 1], steps[i]));
    if i > 0 {
        lemma_review_at(runs, events, steps, i - 1);
        let prev = steps[i - 1];
        assert(review_follows(runs[i - 1], events[i - 1], runs[i - 1 + 1], steps[i - 1]));
    }
}

/// The order of a review: its target is read, the repository is found and its clone is
/// there, and only an agent of its own looks at it; what it looks at is resolved against
/// the base branch of the remote. The verdict is posted exactly where the words name a
/// pull request, and there alone.
pub proof fn a_review_goes_in_order(
    runs: Seq<ReviewRun>,
    events: Seq<ReviewEvent>,
    steps: Seq<ReviewStep>,
    i: int,
)
    requires
        is_review_run(runs, events, steps),
        0 <= i < steps.len(),
        !(steps[i] is Reply),
    ensures
        i <= 5,
        i == 0 ==> steps[i] is FindRepo,
        i == 1 ==> (events[1] matches ReviewEvent::Found(Ok(repo)) && (
        steps[i] matches ReviewStep::CheckWorkspace { path } && path@ == repo.workspace@)),
        i == 2 ==> steps[i] is CheckReviewer,
        i == 3 ==> events[3] == ReviewEvent::Reviewer(ReviewerKind::Agentic) && (
        events[1] matches ReviewEvent::Found(Ok(repo)) && (
        steps[i] matches ReviewStep::ResolveSurface { base_branch, remote } && base_branch@
            == repo.base_branch@ && remote@ == "origin"@)),
        i == 4 ==> steps[i] is RunReview,
        i == 5 ==> (events[0] matches ReviewEvent::Parsed(Ok(Some(number))) && (
        events[5] matches ReviewEvent::Ended(Ok(ReviewEnd::Reviewed(report))) && (
        steps[i] matches ReviewStep::PostComment { pr_number, body } && pr_number == number && body@
            == "## "@ + runs[0].words.comment_title@ + "\n\n**"@ + runs[0].words.verdict_label@
            + ": "@ + report.verdict@ + "**\n\n"@ + report.markdown@))),
{
    lemma_review_at(runs, events, steps, i);
}

/// What is answered to a review: its verdict with its reasons, as the session gave it,
/// whether or not it could be posted; that it was discarded; or the first thing that kept
/// it from being held. Where the words name a pull request, the verdict is posted before
/// it is answered.
pub proof fn a_review_answers_what_came_of_it(
    runs: Seq<ReviewRun>,
    events: Seq<ReviewEvent>,
    steps: Seq<ReviewStep>,
    i: int,
    reply: JsonV,
)
    requires
        is_review_run(runs, events, steps),
        0 <= i < steps.len(),
        steps[i] matches ReviewStep::Reply(j) && j@ == reply,
    ensures
        i + 1 == steps.len(),
        ({
            let key = runs[0].words.key@;
            let failure = match events[i] {
                ReviewEvent::Parsed(Err(e)) => Some(e@),
                ReviewEvent::Found(Err(e)) => Some(e@),
                ReviewEvent::IsDir(false) => match events[1] {
                    ReviewEvent::Found(Ok(repo)) => Some(
                        "workspace "@ + repo.workspace@
                            + " does not exist yet; the daemon must clone the repo before "@
                            + "an on-demand review can run"@,
                    ),
                    _ => None,
                },
                ReviewEvent::Reviewer(ReviewerKind::Disabled) => Some(
                    key + " is not configured/enabled; on-demand review requires an agentic "@
                        + key + " (set "@ + key + ".enabled and "@ + key + ".kind: agentic)"@,
                ),
                ReviewEvent::Reviewer(ReviewerKind::Oneshot) => Some(
                    "on-demand review requires the agentic "@ + key + " transport, but the "@
                        + key
                        + " resolved to `oneshot` (its CLI may be unavailable on this host). Install the "@
                        + key + " CLI or set "@ + key + ".kind: agentic."@,
                ),
                ReviewEvent::Surface(Err(e)) => Some("resolving review target: "@ + e@),
                ReviewEvent::Ended(Err(e)) => Some("on-demand review failed: "@ + e@),
                ReviewEvent::Ended(Ok(ReviewEnd::Discarded { reason })) => Some(reason@),
                _ => None,
            };
            &&& failure matches Some(why) ==> reply.bool_at("ok"@) == Some(false) && reply.str_at(
                "error"@,
            ) == Some(why)
            &&& failure is None ==> {
                &&& i == 5 || i == 6
                &&& events[5] matches ReviewEvent::Ended(Ok(ReviewEnd::Reviewed(report)))
                &&& reply.bool_at("ok"@) == Some(true)
                &&& reply.str_at("verdict"@) == Some(report.verdict@)
                &&& reply.str_at("body"@) == Some(report.markdown@)
                &&& reply.u64_at("sessions"@) == Some(report.sessions)
                &&& reply.get("chunks"@) == Some(str_array(texts(report.chunk_labels@)))
                &&& reply.get("attribution"@) == Some(report.attribution@)
                &&& i == 6 <==> !(events[0] matches ReviewEvent::Parsed(Ok(None)))
                &&& i == 6 ==> steps[5] is PostComment
            }
            &&& reply.bool_at("discarded"@) == Some(true) <==> events[i] matches ReviewEvent::Ended(
                Ok(ReviewEnd::Discarded { .. }),
            )
        }),
{
    broadcast use {lemma_get_with, lemma_get_empty};

    lemma_field_names();
    lemma_review_at(runs, events, steps, i);
    if i + 1 < steps.len() {
        lemma_review_at(runs, events, steps, i + 1);
    }
    assert forall|why: Seq<char>|
        (#[trigger] refusal(why)).bool_at("ok"@) == Some(false) && refusal(why).str_at("error"@)
            == Some(why) && refusal(why).bool_at("discarded"@) is None by {
        a_refusal_says_why(why);
    }
    if i == 6 {
        lemma_review_at(runs, events, steps, 5);
    }
}

/// A request for a review is taken where it names the repository and gives a list; of the list the
/// texts count. It is refused with what it lacks.
pub proof fn a_review_needs_a_repository_and_a_target(parsed: Json, r: Result<ReviewRequest, Json>)
    requires
        call_ensures(ReviewRequest::read, (&parsed,), r),
    ensures
        r is Ok <==> parsed@.str_at("url"@) is Some && parsed@.array_at("target"@) is Some,
        r matches Ok(q) ==> parsed@.str_at("url"@) == Some(q.url@) && texts(q.target@) == strings(
            parsed@.array_at("target"@)->0,
        ),
        r matches Err(j) ==> j@.bool_at("ok"@) == Some(false) && j@.str_at("error"@) == Some(
            if parsed@.str_at("url"@) is None {
                "missing `"@ + "url"@ + "` field"@
            } else {
                "missing `target` field (array of tokens)"@
            },
        ),
{
    assert forall|why: Seq<char>| (#[trigger] refusal(why)).bool_at("ok"@) == Some(false)
        && refusal(why).str_at("error"@) == Some(why) by {
        a_refusal_says_why(why);
    }
}

/// A review begins with its words, and what is done of it with an event is what follows from
/// where it stands.
pub proof fn a_review_goes_step_by_step(
    words: ReviewWords,
    first: (ReviewRun, ReviewStep),
    run: ReviewRun,
    event: ReviewEvent,
    r: (ReviewRun, ReviewStep),
)
    requires
        call_ensures(ReviewRun::start, (words,), first),
        run.expects(event),
        call_ensures(ReviewRun::advance, (run, event), r),
    ensures
        first.0.words == words && first.0.pr_number is None && first.0.stage is Parsing,
        first.1 is ParseTarget,
        review_follows(run, event, r.0, r.1),
{
}

} // verus!
