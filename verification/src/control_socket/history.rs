//! Questions about the past of a repository: its last commits, what survives of
//! a change, and where a line comes from. All of them only read.
use vstd::prelude::*;
use crate::control_socket::request::{
    flag_or, missing_field, no_workspace_text, optional_flag, require, require_workspace, Found,
    RepositoryConfig,
};
use crate::json::{
    a_refusal_says_why, array_of, lemma_get_empty, lemma_get_with, obj, refusal, refuse, str_array,
    trees, Fields, Json, JsonV,
};
use crate::text::{blank, cat2, is_blank, texts, trim};

verus! {

/// A question about the last commits.
#[derive(Debug)]
pub struct LogRequest {
    pub url: String,
    /// How many commits to list.
    pub count: u64,
}

/// How many commits to list: at least one, and twenty where nothing is said.
pub open spec fn log_count(v: JsonV) -> u64 {
    match v.u64_at("count"@) {
        Some(0) => 1,
        Some(n) => n,
        None => 20,
    }
}

impl LogRequest {
    /// Reads the request, or refuses it.
    pub fn read(parsed: &Json) -> (r: Result<LogRequest, Json>)
        ensures
            match parsed@.str_at("url"@) {
                Some(url) => r matches Ok(q) && q.url@ == url && q.count == log_count(parsed@),
                None => r matches Err(j) && j@ == refusal(missing_field("url"@)),
            },
    {
        let url = match require(parsed, "url") {
            Ok(s) => s,
            Err(e) => return Err(e),
        };
        let count: u64 = match parsed.get_u64("count") {
            Some(n) => {
                if n == 0 {
                    1
                } else {
                    n
                }
            },
            None => 20,
        };
        Ok(LogRequest { url, count })
    }
}

/// Whether a repository is the one that was found, with its workspace there; or
/// the refusal that says which of the two is missing.
pub open spec fn is_ready(
    found: Found,
    is_dir: bool,
    purpose: Seq<char>,
    r: Result<RepositoryConfig, Json>,
) -> bool {
    match found {
        Err(e) => r matches Err(j) && j@ == refusal(e@),
        Ok(repo) => if is_dir {
            r == Ok::<RepositoryConfig, Json>(repo)
        } else {
            r matches Err(j) && j@ == refusal(no_workspace_text(repo.workspace@, purpose))
        },
    }
}

/// The repository whose last commits are asked for, or the refusal.
pub fn ready_for_log(found: Found, is_dir: bool) -> (r: Result<RepositoryConfig, Json>)
    ensures
        is_ready(found, is_dir, "its log can be read"@, r),
{
    require_workspace(found, is_dir, "its log can be read")
}

/// A commit in a listing.
#[derive(Debug)]
pub struct CommitLine {
    pub short_sha: String,
    pub subject: String,
    pub date: String,
}

pub open spec fn commit_tree(c: CommitLine) -> JsonV {
    obj().text("short_sha"@, c.short_sha@).text("subject"@, c.subject@).text(
        "date"@,
        c.date@,
    ).done()
}

/// Answers the question about the last commits.
pub fn handle_recent_commits_log(
    repo: &RepositoryConfig,
    commits: Result<Vec<CommitLine>, String>,
) -> (r: Json)
    ensures
        match commits {
            Ok(list) => r@ == obj().flag("ok"@, true).text("url"@, repo.url@).text(
                "base_branch"@,
                repo.base_branch@,
            ).with(
                "commits"@,
                JsonV::Arr(Seq::new(list@.len(), |i: int| commit_tree(list@[i]))),
            ).done(),
            Err(e) => r@ == refusal("reading commit log: "@ + e@),
        },
{
    let list = match commits {
        Ok(list) => list,
        Err(e) => return refuse(cat2("reading commit log: ", e.as_str()).as_str()),
    };
    let mut items: Vec<Json> = Vec::new();
    let mut i: usize = 0;
    while i < list.len()
        invariant
            i <= list@.len(),
            items@.len() == i,
            forall|k: int| 0 <= k < i ==> (#[trigger] items@[k])@ == commit_tree(list@[k]),
        decreases list@.len() - i,
    {
        let item = Fields::new().text("short_sha", list[i].short_sha.as_str()).text(
            "subject",
            list[i].subject.as_str(),
        ).text("date", list[i].date.as_str()).finish();
        items.push(item);
        i += 1;
    }
    proof {
        assert(trees(items@) =~= Seq::new(list@.len(), |i: int| commit_tree(list@[i])));
    }
    Fields::new().flag("ok", true).text("url", repo.url.as_str()).text(
        "base_branch",
        repo.base_branch.as_str(),
    ).with("commits", array_of(items)).finish()
}

/// What the survival of is asked for.
#[derive(Debug)]
pub enum SurvivalTarget {
    Pr { number: u64 },
    Commit { sha: String },
}

/// A question about what survives of a pull request or a commit.
#[derive(Debug)]
pub struct SurvivalRequest {
    pub url: String,
    pub target: SurvivalTarget,
    pub detect_moves: bool,
}

pub open spec fn no_target_text() -> Seq<char> {
    "missing target: provide exactly one of `pr` (number) or `commit` (sha)"@
}

impl SurvivalRequest {
    /// Reads the request, or refuses it. A pull request goes before a commit, and
    /// a commit must not be blank.
    pub fn read(parsed: &Json) -> (r: Result<SurvivalRequest, Json>)
        ensures
            match parsed@.str_at("url"@) {
                None => r matches Err(j) && j@ == refusal(missing_field("url"@)),
                Some(url) => match (parsed@.u64_at("pr"@), parsed@.str_at("commit"@)) {
                    (Some(n), _) => r matches Ok(q) && q.url@ == url && q.target
                        == (SurvivalTarget::Pr { number: n }) && q.detect_moves == flag_or(
                        parsed@,
                        "detect_moves"@,
                        false,
                    ),
                    (None, Some(s)) if !is_blank(s) => r matches Ok(q) && q.url@ == url && (
                    q.target matches SurvivalTarget::Commit { sha } && sha@ == s)
                        && q.detect_moves == flag_or(parsed@, "detect_moves"@, false),
                    _ => r matches Err(j) && j@ == refusal(no_target_text()),
                },
            },
    {
        let url = match require(parsed, "url") {
            Ok(s) => s,
            Err(e) => return Err(e),
        };
        let detect_moves = optional_flag(parsed, "detect_moves", false);
        if let Some(number) = parsed.get_u64("pr") {
            return Ok(
                SurvivalRequest { url, target: SurvivalTarget::Pr { number }, detect_moves },
            );
        }
        if let Some(sha) = parsed.get_str("commit") {
            if !blank(sha.as_str()) {
                return Ok(
                    SurvivalRequest { url, target: SurvivalTarget::Commit { sha }, detect_moves },
                );
            }
        }
        Err(refuse("missing target: provide exactly one of `pr` (number) or `commit` (sha)"))
    }
}

/// The repository in which survival is asked for, or the refusal.
pub fn ready_for_survival(found: Found, is_dir: bool) -> (r: Result<RepositoryConfig, Json>)
    ensures
        is_ready(found, is_dir, "survival analysis can run"@, r),
{
    require_workspace(found, is_dir, "survival analysis can run")
}

/// What survives: the report, the files worth a look, and how many lines.
#[derive(Debug)]
pub struct SurvivalReport {
    pub text: String,
    pub review_focus_paths: Vec<String>,
    pub surviving_lines: u64,
}

/// Answers the question about what survives.
pub fn handle_survival_analysis(
    repo: &RepositoryConfig,
    report: Result<SurvivalReport, String>,
) -> (r: Json)
    ensures
        match report {
            Ok(s) => r@ == obj().flag("ok"@, true).text("url"@, repo.url@).text(
                "report"@,
                s.text@,
            ).texts("review_focus_paths"@, texts(s.review_focus_paths@)).number(
                "surviving_lines"@,
                s.surviving_lines,
            ).done(),
            Err(e) => r@ == refusal("survival analysis failed: "@ + e@),
        },
{
    match report {
        Ok(s) => Fields::new().flag("ok", true).text("url", repo.url.as_str()).text(
            "report",
            s.text.as_str(),
        ).texts("review_focus_paths", &s.review_focus_paths).number(
            "surviving_lines",
            s.surviving_lines,
        ).finish(),
        Err(e) => refuse(cat2("survival analysis failed: ", e.as_str()).as_str()),
    }
}

/// A question about where lines come from.
#[derive(Debug)]
pub struct ProvenanceRequest {
    pub url: String,
    pub path: String,
    /// The first and the last line, counted from one.
    pub start: u64,
    pub end: u64,
    pub detect_moves: bool,
}

/// The lines that are asked for: a missing last line is the first.
pub open spec fn line_range(v: JsonV) -> (u64, u64) {
    let start = match v.u64_at("start"@) {
        Some(n) => n,
        None => 0,
    };
    let end = match v.u64_at("end"@) {
        Some(n) => n,
        None => start,
    };
    (start, end)
}

pub open spec fn is_line_range(range: (u64, u64)) -> bool {
    1 <= range.0 <= range.1
}

impl ProvenanceRequest {
    /// Reads the request, or refuses it.
    pub fn read(parsed: &Json) -> (r: Result<ProvenanceRequest, Json>)
        ensures
            match (parsed@.str_at("url"@), parsed@.str_at("path"@)) {
                (None, _) => r matches Err(j) && j@ == refusal(missing_field("url"@)),
                (Some(_), None) => r matches Err(j) && j@ == refusal(missing_field("path"@)),
                (Some(url), Some(path)) => if is_line_range(line_range(parsed@)) {
                    r matches Ok(q) && q.url@ == url && q.path@ == path && (q.start, q.end)
                        == line_range(parsed@) && q.detect_moves == flag_or(
                        parsed@,
                        "detect_moves"@,
                        false,
                    )
                } else {
                    r matches Err(j) && j@ == refusal(
                        "line range invalid: start/end must be >= 1 and start <= end"@,
                    )
                },
            },
    {
        let url = match require(parsed, "url") {
            Ok(s) => s,
            Err(e) => return Err(e),
        };
        let path = match require(parsed, "path") {
            Ok(s) => s,
            Err(e) => return Err(e),
        };
        let start: u64 = match parsed.get_u64("start") {
            Some(n) => n,
            None => 0,
        };
        let end: u64 = match parsed.get_u64("end") {
            Some(n) => n,
            None => start,
        };
        if start == 0 || end == 0 || start > end {
            return Err(refuse("line range invalid: start/end must be >= 1 and start <= end"));
        }
        let detect_moves = optional_flag(parsed, "detect_moves", false);
        Ok(ProvenanceRequest { url, path, start, end, detect_moves })
    }
}

/// The repository whose lines are asked about, or the refusal.
pub fn ready_for_provenance(found: Found, is_dir: bool) -> (r: Result<RepositoryConfig, Json>)
    ensures
        is_ready(found, is_dir, "provenance can be read"@, r),
{
    require_workspace(found, is_dir, "provenance can be read")
}

/// Answers the question about where lines come from.
pub fn handle_provenance_lookup(repo: &RepositoryConfig, report: Result<String, String>) -> (r: Json)
    ensures
        match report {
            Ok(text) => r@ == obj().flag("ok"@, true).text("url"@, repo.url@).text(
                "report"@,
                text@,
            ).done(),
            Err(e) => r@ == refusal("provenance lookup failed: "@ + e@),
        },
{
    match report {
        Ok(text) => Fields::new().flag("ok", true).text("url", repo.url.as_str()).text(
            "report",
            text.as_str(),
        ).finish(),
        Err(e) => refuse(cat2("provenance lookup failed: ", e.as_str()).as_str()),
    }
}

/// The names of the fields tell them apart.
proof fn lemma_field_names()
    ensures
        "ok"@.len() == 2,
        "url"@.len() == 3,
        "date"@.len() == 4,
        "error"@.len() == 5,
        "report"@.len() == 6,
        "commits"@.len() == 7,
        "subject"@.len() == 7,
        "commits"@ != "subject"@,
        "short_sha"@.len() == 9,
        "base_branch"@.len() == 11,
        "surviving_lines"@.len() == 15,
        "review_focus_paths"@.len() == 18,
{
    reveal_strlit("ok");
    reveal_strlit("url");
    reveal_strlit("error");
    reveal_strlit("base_branch");
    reveal_strlit("commits");
    reveal_strlit("short_sha");
    reveal_strlit("subject");
    reveal_strlit("date");
    reveal_strlit("report");
    reveal_strlit("review_focus_paths");
    reveal_strlit("surviving_lines");
    assert("commits"@[0] != "subject"@[0]);
}

/// How many commits are listed: as many as are asked for, but at least one, and twenty
/// where no number is given. Nothing but the address is required.
pub proof fn a_log_lists_as_many_as_asked(parsed: Json, r: Result<LogRequest, Json>)
    requires
        call_ensures(LogRequest::read, (&parsed,), r),
    ensures
        r is Ok <==> parsed@.str_at("url"@) is Some,
        r matches Ok(q) ==> parsed@.str_at("url"@) == Some(q.url@) && q.count >= 1,
        r matches Ok(q) ==> (parsed@.u64_at("count"@) matches Some(n) ==> (n >= 1 ==> q.count
            == n)),
        r matches Ok(q) ==> (parsed@.u64_at("count"@) == Some(0u64) ==> q.count == 1),
        r matches Ok(q) ==> (parsed@.u64_at("count"@) is None ==> q.count == 20),
        r matches Err(j) ==> j@.bool_at("ok"@) == Some(false) && j@.str_at("error"@) == Some(
            "missing `"@ + "url"@ + "` field"@,
        ),
{
    broadcast use {lemma_get_with, lemma_get_empty};

    lemma_field_names();
    assert forall|why: Seq<char>|
        (#[trigger] refusal(why)).bool_at("ok"@) == Some(false) && refusal(why).str_at("error"@)
            == Some(why) by {
        a_refusal_says_why(why);
    }
}

/// The commits are told as they were listed, in their order, with the branch that they are
/// on.
pub proof fn a_log_tells_every_commit(
    repo: RepositoryConfig,
    commits: Result<Vec<CommitLine>, String>,
    r: Json,
    i: int,
)
    requires
        call_ensures(handle_recent_commits_log, (&repo, commits), r),
    ensures
        r@.bool_at("ok"@) == Some(commits is Ok),
        commits matches Err(e) ==> r@.str_at("error"@) == Some("reading commit log: "@ + e@),
        commits matches Ok(list) ==> {
            &&& r@.str_at("url"@) == Some(repo.url@)
            &&& r@.str_at("base_branch"@) == Some(repo.base_branch@)
            &&& r@.array_at("commits"@) matches Some(items)
            &&& items.len() == list@.len()
            &&& 0 <= i < items.len() ==> items[i].str_at("short_sha"@) == Some(
                list@[i].short_sha@,
            ) && items[i].str_at("subject"@) == Some(list@[i].subject@) && items[i].str_at("date"@)
                == Some(list@[i].date@)
        },
{
    broadcast use {lemma_get_with, lemma_get_empty};

    lemma_field_names();
    assert forall|why: Seq<char>|
        (#[trigger] refusal(why)).bool_at("ok"@) == Some(false) && refusal(why).str_at("error"@)
            == Some(why) by {
        a_refusal_says_why(why);
    }
}

/// What survival is asked for: a pull request where a number is given, and otherwise a commit
/// that is more than white space; without either the question is refused.
pub proof fn a_pull_request_goes_before_a_commit(parsed: Json, r: Result<SurvivalRequest, Json>)
    requires
        call_ensures(SurvivalRequest::read, (&parsed,), r),
    ensures
        r is Ok <==> parsed@.str_at("url"@) is Some && (parsed@.u64_at("pr"@) is Some || (
        parsed@.str_at("commit"@) matches Some(s) && trim(s).len() > 0)),
        r matches Ok(q) ==> {
            &&& parsed@.str_at("url"@) == Some(q.url@)
            &&& q.detect_moves == (parsed@.bool_at("detect_moves"@) == Some(true))
            &&& match parsed@.u64_at("pr"@) {
                Some(n) => q.target == (SurvivalTarget::Pr { number: n }),
                None => q.target matches SurvivalTarget::Commit { sha } && parsed@.str_at(
                    "commit"@,
                ) == Some(sha@),
            }
        },
        r matches Err(j) ==> j@.bool_at("ok"@) == Some(false) && j@.str_at("error"@) == Some(
            if parsed@.str_at("url"@) is None {
                "missing `"@ + "url"@ + "` field"@
            } else {
                "missing target: provide exactly one of `pr` (number) or `commit` (sha)"@
            },
        ),
{
    broadcast use {lemma_get_with, lemma_get_empty};

    lemma_field_names();
    assert forall|why: Seq<char>|
        (#[trigger] refusal(why)).bool_at("ok"@) == Some(false) && refusal(why).str_at("error"@)
            == Some(why) by {
        a_refusal_says_why(why);
    }
}

/// What is told of survival: the report, the files worth a look and how many lines survive.
pub proof fn survival_is_told_as_it_was_found(
    repo: RepositoryConfig,
    report: Result<SurvivalReport, String>,
    r: Json,
)
    requires
        call_ensures(handle_survival_analysis, (&repo, report), r),
    ensures
        r@.bool_at("ok"@) == Some(report is Ok),
        match report {
            Ok(s) => r@.str_at("url"@) == Some(repo.url@) && r@.str_at("report"@) == Some(s.text@)
                && r@.get("review_focus_paths"@) == Some(
                str_array(texts(s.review_focus_paths@)),
            ) && r@.u64_at("surviving_lines"@) == Some(s.surviving_lines),
            Err(e) => r@.str_at("error"@) == Some("survival analysis failed: "@ + e@),
        },
{
    broadcast use {lemma_get_with, lemma_get_empty};

    lemma_field_names();
    assert forall|why: Seq<char>|
        (#[trigger] refusal(why)).bool_at("ok"@) == Some(false) && refusal(why).str_at("error"@)
            == Some(why) by {
        a_refusal_says_why(why);
    }
}

/// Which lines are asked about: from the first to the last, where the first is at least one
/// and not behind the last; a last line that is not given is the first, and a first line
/// must be given.
pub proof fn lines_are_counted_from_one(parsed: Json, r: Result<ProvenanceRequest, Json>)
    requires
        call_ensures(ProvenanceRequest::read, (&parsed,), r),
    ensures
        r is Ok <==> parsed@.str_at("url"@) is Some && parsed@.str_at("path"@) is Some && (
        parsed@.u64_at("start"@) matches Some(s) && s >= 1 && (parsed@.u64_at("end"@) matches Some(
            e,
        ) ==> s <= e)),
        r matches Ok(q) ==> {
            &&& parsed@.str_at("url"@) == Some(q.url@)
            &&& parsed@.str_at("path"@) == Some(q.path@)
            &&& parsed@.u64_at("start"@) == Some(q.start)
            &&& parsed@.u64_at("end"@) == Some(q.end) || (parsed@.u64_at("end"@) is None && q.end
                == q.start)
            &&& q.detect_moves == (parsed@.bool_at("detect_moves"@) == Some(true))
        },
        r matches Err(j) ==> j@.bool_at("ok"@) == Some(false) && j@.str_at("error"@) == Some(
            if parsed@.str_at("url"@) is None {
                "missing `"@ + "url"@ + "` field"@
            } else if parsed@.str_at("path"@) is None {
                "missing `"@ + "path"@ + "` field"@
            } else {
                "line range invalid: start/end must be >= 1 and start <= end"@
            },
        ),
{
    broadcast use {lemma_get_with, lemma_get_empty};

    lemma_field_names();
    assert forall|why: Seq<char>|
        (#[trigger] refusal(why)).bool_at("ok"@) == Some(false) && refusal(why).str_at("error"@)
            == Some(why) by {
        a_refusal_says_why(why);
    }
}

/// Where lines come from is told as it was found.
pub proof fn provenance_is_told_as_it_was_found(
    repo: RepositoryConfig,
    report: Result<String, String>,
    r: Json,
)
    requires
        call_ensures(handle_provenance_lookup, (&repo, report), r),
    ensures
        r@.bool_at("ok"@) == Some(report is Ok),
        match report {
            Ok(text) => r@.str_at("url"@) == Some(repo.url@) && r@.str_at("report"@) == Some(
                text@,
            ),
            Err(e) => r@.str_at("error"@) == Some("provenance lookup failed: "@ + e@),
        },
{
    broadcast use {lemma_get_with, lemma_get_empty};

    lemma_field_names();
    assert forall|why: Seq<char>|
        (#[trigger] refusal(why)).bool_at("ok"@) == Some(false) && refusal(why).str_at("error"@)
            == Some(why) by {
        a_refusal_says_why(why);
    }
}

/// A question is answered only in a clone that is there, of a repository that is known; the
/// refusal names what is missing and what it was for.
pub proof fn a_question_needs_a_clone(
    found: Found,
    is_dir: bool,
    log: Result<RepositoryConfig, Json>,
    survival: Result<RepositoryConfig, Json>,
    provenance: Result<RepositoryConfig, Json>,
)
    requires
        call_ensures(ready_for_log, (found, is_dir), log),
        call_ensures(ready_for_survival, (found, is_dir), survival),
        call_ensures(ready_for_provenance, (found, is_dir), provenance),
    ensures
        found matches Ok(repo) ==> (is_dir ==> {
            &&& log == Ok::<RepositoryConfig, Json>(repo)
            &&& survival == Ok::<RepositoryConfig, Json>(repo)
            &&& provenance == Ok::<RepositoryConfig, Json>(repo)
        }),
        found matches Err(e) ==> {
            &&& log matches Err(j) && j@.str_at("error"@) == Some(e@)
            &&& survival matches Err(j) && j@.str_at("error"@) == Some(e@)
            &&& provenance matches Err(j) && j@.str_at("error"@) == Some(e@)
        },
        found matches Ok(repo) ==> (!is_dir ==> {
            let head = "workspace "@ + repo.workspace@
                + " does not exist yet; the daemon must clone the repo before "@;
            &&& log matches Err(j) && j@.str_at("error"@) == Some(head + "its log can be read"@)
            &&& survival matches Err(j) && j@.str_at("error"@) == Some(
                head + "survival analysis can run"@,
            )
            &&& provenance matches Err(j) && j@.str_at("error"@) == Some(
                head + "provenance can be read"@,
            )
        }),
{
    broadcast use {lemma_get_with, lemma_get_empty};

    lemma_field_names();
    assert forall|why: Seq<char>|
        (#[trigger] refusal(why)).bool_at("ok"@) == Some(false) && refusal(why).str_at("error"@)
            == Some(why) by {
        a_refusal_says_why(why);
    }
}

} // verus!
