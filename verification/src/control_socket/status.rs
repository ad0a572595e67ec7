//! The status of a repository, put together from what its workspace, its queue
//! and its forge say. What cannot be read is left out; the rest is reported.
use vstd::prelude::*;
use crate::clock::{as_signed, parse_utc, signed, utc_time, Timestamp};
use crate::control_socket::request::{missing_field, require, Found, RepositoryConfig};
use crate::failure_state::FailureEntry;
use crate::forge::{github_parts, GithubForge};
use crate::json::{
    a_refusal_says_why, array_of, json_text, lemma_get_empty, lemma_get_with, obj, parse_json,
    refusal, refuse, trees, Fields, Json, JsonV,
};
use crate::text::{cat2, chars_of, dec, number_text, same_text, text_of};

verus! {

/// A change that a marker keeps out of the queue.
#[derive(Debug)]
pub struct MarkerEntry {
    pub change: String,
    pub marked_at: Timestamp,
    pub detail: String,
    /// Whether the queue passes the change by.
    pub has_ignore_for_queue: bool,
}

/// An alert that is not repeated for a while.
#[derive(Debug)]
pub struct ThrottledAlertEntry {
    pub label: String,
    pub last_fired_at: Timestamp,
    pub throttle_window_hours: u64,
}

/// The last pass over a repository, as far as it left a trace.
#[derive(Debug)]
pub struct LastIteration {
    pub finished_at: Timestamp,
    pub outcome_summary: String,
    pub next_iteration_estimate: Option<Timestamp>,
    pub poll_interval_sec: u64,
}

/// The status of a repository. `B` says what it is busy with, `C` is the summary
/// of a commit and `P` that of a pull request; all three pass through unread.
#[derive(Debug)]
pub struct RepoStatusResponse<B, C, P> {
    pub url: String,
    pub base_branch: String,
    pub agent_branch: String,
    pub currently_busy: Option<B>,
    pub last_commit_base: Option<C>,
    pub last_commit_agent: Option<C>,
    pub latest_pr: Option<P>,
    pub perma_stuck_changes: Vec<MarkerEntry>,
    pub revision_marked_changes: Vec<MarkerEntry>,
    pub throttled_alerts: Vec<ThrottledAlertEntry>,
    pub pending_changes: Vec<String>,
    pub waiting_changes: Vec<String>,
    pub last_iteration: Option<LastIteration>,
}

/// A change with a marker: the text of the marker file, which is empty where the
/// file could not be read.
#[derive(Debug)]
pub struct MarkedChange {
    pub change: String,
    pub marker_text: String,
    pub has_ignore_for_queue: bool,
}

/// The changes that markers keep out of the queue.
#[derive(Debug)]
pub struct MarkedChanges {
    pub perma_stuck: Vec<MarkedChange>,
    pub needs_revision: Vec<MarkedChange>,
}

/// An alert: its category or its change, and when it was last raised.
#[derive(Debug)]
pub struct AlertFact {
    pub name: String,
    pub last_alerted_at: Timestamp,
}

/// The alerts that were raised.
#[derive(Debug)]
pub struct AlertFacts {
    pub categories: Vec<AlertFact>,
    pub perma_stuck: Vec<AlertFact>,
    pub spec_revision: Vec<AlertFact>,
}

/// What a workspace says.
#[derive(Debug)]
pub struct WorkspaceFacts<C> {
    pub last_commit_base: Result<Option<C>, String>,
    pub last_commit_agent: Result<Option<C>, String>,
    pub marked: Result<MarkedChanges, String>,
    pub alerts: AlertFacts,
    pub pending: Result<Vec<String>, String>,
    pub waiting: Result<Vec<String>, String>,
    pub failures: Result<Vec<FailureEntry>, String>,
}

/// What is known of a repository. The workspace may not be there yet.
#[derive(Debug)]
pub struct StatusFacts<B, C, P> {
    pub currently_busy: Option<B>,
    pub latest_pr: Option<P>,
    pub workspace: Option<WorkspaceFacts<C>>,
}

/// The first `n` characters of `s`, with an ellipsis where there are more.
pub open spec fn shortened(s: Seq<char>, n: nat) -> Seq<char> {
    if s.len() <= n {
        s
    } else {
        s.subrange(0, n as int) + "…"@
    }
}

/// The first `n` characters of `s`, with an ellipsis where there are more.
pub fn truncate(s: &str, n: usize) -> (r: String)
    ensures
        r@ == shortened(s@, n as nat),
{
    let v = chars_of(s);
    if v.len() <= n {
        s.to_owned()
    } else {
        cat2(text_of(&v, 0, n).as_str(), "…")
    }
}

/// What a text holds as JSON; nothing where it is none.
pub open spec fn json_or_null(text: Seq<char>) -> JsonV {
    match json_text(text) {
        Some(v) => v,
        None => JsonV::Null,
    }
}

fn parse_or_null(text: &str) -> (r: Json)
    ensures
        r@ == json_or_null(text@),
{
    match parse_json(text) {
        Ok(j) => j,
        Err(_) => Json::Null,
    }
}

/// The moment that a field holds, or `now` where it holds none.
pub open spec fn time_at(v: JsonV, key: Seq<char>, now: Timestamp) -> Timestamp {
    match v.str_at(key) {
        Some(s) => match utc_time(s) {
            Some(t) => t,
            None => now,
        },
        None => now,
    }
}

/// The moment that a field holds, or `now` where it holds none.
pub fn marker_time(marker: &Json, key: &str, now: Timestamp) -> (r: Timestamp)
    ensures
        r == time_at(marker@, key@, now),
{
    match marker.get_str(key) {
        Some(s) => match parse_utc(s.as_str()) {
            Some(t) => t,
            None => now,
        },
        None => now,
    }
}

/// What a marker says of the failures that led to it.
pub open spec fn perma_detail(v: JsonV) -> Seq<char> {
    match v.u64_at("consecutive_failures"@) {
        Some(n) if n > 0 => "consecutive_failures: "@ + dec(n as nat),
        _ => Seq::empty(),
    }
}

/// What a marker says of the failures that led to it.
pub fn perma_marker_detail(marker: &Json) -> (r: String)
    ensures
        r@ == perma_detail(marker@),
{
    match marker.get_u64("consecutive_failures") {
        Some(n) => {
            if n > 0 {
                cat2("consecutive_failures: ", number_text(n).as_str())
            } else {
                String::new()
            }
        },
        None => String::new(),
    }
}

/// Reads the marker of a change that failed too often: when it was set, and
/// after how many failures.
pub fn read_perma_marker(text: &str, now: Timestamp) -> (r: (Timestamp, String))
    ensures
        r.0 == time_at(json_or_null(text@), "marked_stuck_at"@, now),
        r.1@ == perma_detail(json_or_null(text@)),
{
    let marker = parse_or_null(text);
    (marker_time(&marker, "marked_stuck_at", now), perma_marker_detail(&marker))
}

/// Reads the marker of a change whose specification needs work: when it was set.
pub fn read_revision_marker(text: &str, now: Timestamp) -> (r: Timestamp)
    ensures
        r == time_at(json_or_null(text@), "marked_at"@, now),
{
    let marker = parse_or_null(text);
    marker_time(&marker, "marked_at", now)
}

/// What is reported of a change that failed too often.
pub open spec fn reports_perma(entry: MarkerEntry, marked: MarkedChange, now: Timestamp) -> bool {
    &&& entry.change == marked.change
    &&& entry.marked_at == time_at(json_or_null(marked.marker_text@), "marked_stuck_at"@, now)
    &&& entry.detail@ == perma_detail(json_or_null(marked.marker_text@))
    &&& entry.has_ignore_for_queue == marked.has_ignore_for_queue
}

/// What is reported of a change whose specification needs work.
pub open spec fn reports_revision(
    entry: MarkerEntry,
    marked: MarkedChange,
    now: Timestamp,
) -> bool {
    &&& entry.change == marked.change
    &&& entry.marked_at == time_at(json_or_null(marked.marker_text@), "marked_at"@, now)
    &&& entry.detail@.len() == 0
    &&& entry.has_ignore_for_queue == marked.has_ignore_for_queue
}

fn list_perma(marked: &Vec<MarkedChange>, now: Timestamp) -> (r: Vec<MarkerEntry>)
    ensures
        r@.len() == marked@.len(),
        forall|i: int| 0 <= i < r@.len() ==> reports_perma(#[trigger] r@[i], marked@[i], now),
{
    let mut out: Vec<MarkerEntry> = Vec::new();
    let mut i: usize = 0;
    while i < marked.len()
        invariant
            i <= marked@.len(),
            out@.len() == i,
            forall|k: int| 0 <= k < i ==> reports_perma(#[trigger] out@[k], marked@[k], now),
        decreases marked@.len() - i,
    {
        let (marked_at, detail) = read_perma_marker(marked[i].marker_text.as_str(), now);
        out.push(
            MarkerEntry {
                change: marked[i].change.clone(),
                marked_at,
                detail,
                has_ignore_for_queue: marked[i].has_ignore_for_queue,
            },
        );
        i += 1;
    }
    out
}

fn list_revision(marked: &Vec<MarkedChange>, now: Timestamp) -> (r: Vec<MarkerEntry>)
    ensures
        r@.len() == marked@.len(),
        forall|i: int| 0 <= i < r@.len() ==> reports_revision(#[trigger] r@[i], marked@[i], now),
{
    let mut out: Vec<MarkerEntry> = Vec::new();
    let mut i: usize = 0;
    while i < marked.len()
        invariant
            i <= marked@.len(),
            out@.len() == i,
            forall|k: int| 0 <= k < i ==> reports_revision(#[trigger] out@[k], marked@[k], now),
        decreases marked@.len() - i,
    {
        let marked_at = read_revision_marker(marked[i].marker_text.as_str(), now);
        out.push(
            MarkerEntry {
                change: marked[i].change.clone(),
                marked_at,
                detail: String::new(),
                has_ignore_for_queue: marked[i].has_ignore_for_queue,
            },
        );
        i += 1;
    }
    out
}

/// What is reported of an alert whose label begins with `prefix`.
pub open spec fn reports_alert(
    entry: ThrottledAlertEntry,
    prefix: Seq<char>,
    alert: AlertFact,
) -> bool {
    &&& entry.label@ == prefix + alert.name@
    &&& entry.last_fired_at == alert.last_alerted_at
    &&& entry.throttle_window_hours == 24
}

/// The alerts, by category first, then those about changes that failed too
/// often, then those about specifications that need work.
pub open spec fn reports_alerts(entries: Seq<ThrottledAlertEntry>, alerts: AlertFacts) -> bool {
    let a = alerts.categories@;
    let b = alerts.perma_stuck@;
    let c = alerts.spec_revision@;
    &&& entries.len() == a.len() + b.len() + c.len()
    &&& forall|i: int|
        0 <= i < a.len() ==> reports_alert(#[trigger] entries[i], Seq::empty(), a[i])
    &&& forall|i: int|
        a.len() <= i < a.len() + b.len() ==> reports_alert(
            #[trigger] entries[i],
            "perma_stuck:"@,
            b[i - a.len()],
        )
    &&& forall|i: int|
        a.len() + b.len() <= i < entries.len() ==> reports_alert(
            #[trigger] entries[i],
            "spec_revision:"@,
            c[i - a.len() - b.len()],
        )
}

fn add_alerts(out: &mut Vec<ThrottledAlertEntry>, prefix: &str, alerts: &Vec<AlertFact>)
    ensures
        final(out)@.len() == old(out)@.len() + alerts@.len(),
        forall|i: int| 0 <= i < old(out)@.len() ==> final(out)@[i] == old(out)@[i],
        forall|i: int|
            old(out)@.len() <= i < final(out)@.len() ==> reports_alert(
                #[trigger] final(out)@[i],
                prefix@,
                alerts@[i - old(out)@.len()],
            ),
{
    let mut i: usize = 0;
    let ghost base = out@.len();
    while i < alerts.len()
        invariant
            i <= alerts@.len(),
            base == old(out)@.len(),
            out@.len() == base + i,
            forall|k: int| 0 <= k < base ==> out@[k] == old(out)@[k],
            forall|k: int|
                base <= k < out@.len() ==> reports_alert(
                    #[trigger] out@[k],
                    prefix@,
                    alerts@[k - base],
                ),
        decreases alerts@.len() - i,
    {
        out.push(
            ThrottledAlertEntry {
                label: cat2(prefix, alerts[i].name.as_str()),
                last_fired_at: alerts[i].last_alerted_at,
                throttle_window_hours: 24,
            },
        );
        i += 1;
    }
}

fn list_alerts(alerts: &AlertFacts) -> (r: Vec<ThrottledAlertEntry>)
    ensures
        reports_alerts(r@, *alerts),
{
    let mut out: Vec<ThrottledAlertEntry> = Vec::new();
    add_alerts(&mut out, "", &alerts.categories);
    proof {
        reveal_strlit("");
        assert(""@ =~= Seq::<char>::empty());
    }
    let ghost one = out@;
    add_alerts(&mut out, "perma_stuck:", &alerts.perma_stuck);
    let ghost two = out@;
    proof {
        assert forall|i: int| 0 <= i < one.len() implies two[i] == one[i] by {}
    }
    add_alerts(&mut out, "spec_revision:", &alerts.spec_revision);
    proof {
        assert forall|i: int| 0 <= i < two.len() implies out@[i] == two[i] by {}
    }
    out
}

/// Whether `i` is the last of the latest failures.
pub open spec fn is_latest(failures: Seq<FailureEntry>, i: int) -> bool {
    &&& 0 <= i < failures.len()
    &&& forall|j: int|
        0 <= j < failures.len() ==> (#[trigger] failures[j]).last_failed_at.le(
            failures[i].last_failed_at,
        )
    &&& forall|j: int|
        i < j < failures.len() ==> !failures[i].last_failed_at.le(
            (#[trigger] failures[j]).last_failed_at,
        )
}

/// Whether the moment of the next pass after the latest failure can be told.
pub open spec fn next_is_known(failures: Seq<FailureEntry>, poll_interval_sec: u64) -> bool {
    forall|i: int| #[trigger]
        is_latest(failures, i) ==> failures[i].last_failed_at.can_shift(signed(poll_interval_sec))
}

/// The last trace that a failure left: nothing where there was no failure.
pub open spec fn reports_iteration(
    last: Option<LastIteration>,
    failures: Seq<FailureEntry>,
    poll_interval_sec: u64,
) -> bool {
    match last {
        None => failures.len() == 0,
        Some(it) => exists|i: int| #[trigger]
            is_latest(failures, i) && {
                &&& it.finished_at == failures[i].last_failed_at
                &&& it.outcome_summary@ == "last failure: "@ + shortened(
                    failures[i].last_reason@,
                    80,
                )
                &&& it.next_iteration_estimate matches Some(t) && (t.seconds as int, t.nanos as int)
                    == failures[i].last_failed_at.shifted(signed(poll_interval_sec))
                &&& it.poll_interval_sec == poll_interval_sec
            },
    }
}

fn find_latest(failures: &Vec<FailureEntry>) -> (r: usize)
    requires
        failures@.len() > 0,
    ensures
        is_latest(failures@, r as int),
{
    let mut best: usize = 0;
    let mut i: usize = 1;
    while i < failures.len()
        invariant
            best < i <= failures@.len(),
            forall|j: int|
                0 <= j < i ==> (#[trigger] failures@[j]).last_failed_at.le(
                    failures@[best as int].last_failed_at,
                ),
            forall|j: int|
                best < j < i ==> !failures@[best as int].last_failed_at.le(
                    (#[trigger] failures@[j]).last_failed_at,
                ),
        decreases failures@.len() - i,
    {
        if failures[best].last_failed_at.at_most(&failures[i].last_failed_at) {
            best = i;
        }
        i += 1;
    }
    best
}

fn last_iteration(failures: &Vec<FailureEntry>, poll_interval_sec: u64) -> (r: Option<LastIteration>)
    requires
        next_is_known(failures@, poll_interval_sec),
    ensures
        reports_iteration(r, failures@, poll_interval_sec),
{
    if failures.len() == 0 {
        return None;
    }
    let best: usize = find_latest(failures);
    let latest = &failures[best];
    let short = truncate(latest.last_reason.as_str(), 80);
    let r = LastIteration {
        finished_at: latest.last_failed_at,
        outcome_summary: cat2("last failure: ", short.as_str()),
        next_iteration_estimate: Some(latest.last_failed_at.plus_seconds(as_signed(poll_interval_sec))),
        poll_interval_sec,
    };
    proof {
        assert(is_latest(failures@, best as int));
    }
    Some(r)
}

/// What a lookup found, or nothing where it failed.
pub open spec fn or_nothing<C>(found: Result<Option<C>, String>) -> Option<C> {
    match found {
        Ok(c) => c,
        Err(_) => None,
    }
}

/// A list, or an empty one where it could not be read.
pub open spec fn is_list(list: Vec<String>, found: Result<Vec<String>, String>) -> bool {
    match found {
        Ok(v) => list == v,
        Err(_) => list@.len() == 0,
    }
}

/// What the status holds of a workspace that is there.
pub open spec fn reports_workspace<B, C, P>(
    r: RepoStatusResponse<B, C, P>,
    facts: WorkspaceFacts<C>,
    poll_interval_sec: u64,
    now: Timestamp,
) -> bool {
    &&& facts.marked matches Ok(marked)
    &&& r.last_commit_base == or_nothing(facts.last_commit_base)
    &&& r.last_commit_agent == or_nothing(facts.last_commit_agent)
    &&& r.perma_stuck_changes@.len() == marked.perma_stuck@.len()
    &&& forall|i: int|
        0 <= i < r.perma_stuck_changes@.len() ==> reports_perma(
            #[trigger] r.perma_stuck_changes@[i],
            marked.perma_stuck@[i],
            now,
        )
    &&& r.revision_marked_changes@.len() == marked.needs_revision@.len()
    &&& forall|i: int|
        0 <= i < r.revision_marked_changes@.len() ==> reports_revision(
            #[trigger] r.revision_marked_changes@[i],
            marked.needs_revision@[i],
            now,
        )
    &&& reports_alerts(r.throttled_alerts@, facts.alerts)
    &&& is_list(r.pending_changes, facts.pending)
    &&& is_list(r.waiting_changes, facts.waiting)
    &&& match facts.failures {
        Ok(failures) => reports_iteration(r.last_iteration, failures@, poll_interval_sec),
        Err(_) => r.last_iteration is None,
    }
}

/// What the status holds where there is no workspace yet.
pub open spec fn reports_no_workspace<B, C, P>(r: RepoStatusResponse<B, C, P>) -> bool {
    &&& r.last_commit_base is None
    &&& r.last_commit_agent is None
    &&& r.perma_stuck_changes@.len() == 0
    &&& r.revision_marked_changes@.len() == 0
    &&& r.throttled_alerts@.len() == 0
    &&& r.pending_changes@.len() == 0
    &&& r.waiting_changes@.len() == 0
    &&& r.last_iteration is None
}

/// Whether the moment of the next pass can be told.
pub open spec fn in_range<C>(workspace: Option<WorkspaceFacts<C>>, poll_interval_sec: u64) -> bool {
    workspace matches Some(w) ==> (w.failures matches Ok(failures) ==> next_is_known(
        failures@,
        poll_interval_sec,
    ))
}

/// Puts the status of a repository together. It fails only where the marked
/// changes of a workspace could not be listed; a lookup of a commit, a list or
/// the failures that could not be read leaves its field empty, and without a
/// workspace all that a workspace would say is empty.
pub fn build_repo_status<B, C, P>(
    repo: &RepositoryConfig,
    facts: StatusFacts<B, C, P>,
    now: Timestamp,
) -> (r: Result<RepoStatusResponse<B, C, P>, String>)
    requires
        in_range(facts.workspace, repo.poll_interval_sec),
    ensures
        match r {
            Ok(s) => {
                &&& s.url == repo.url
                &&& s.base_branch == repo.base_branch
                &&& s.agent_branch == repo.agent_branch
                &&& s.currently_busy == facts.currently_busy
                &&& s.latest_pr == facts.latest_pr
                &&& match facts.workspace {
                    Some(w) => reports_workspace(s, w, repo.poll_interval_sec, now),
                    None => reports_no_workspace(s),
                }
            },
            Err(e) => facts.workspace matches Some(w) && w.marked == Err::<MarkedChanges, String>(e),
        },
{
    let mut resp = RepoStatusResponse {
        url: repo.url.clone(),
        base_branch: repo.base_branch.clone(),
        agent_branch: repo.agent_branch.clone(),
        currently_busy: facts.currently_busy,
        last_commit_base: None,
        last_commit_agent: None,
        latest_pr: facts.latest_pr,
        perma_stuck_changes: Vec::new(),
        revision_marked_changes: Vec::new(),
        throttled_alerts: Vec::new(),
        pending_changes: Vec::new(),
        waiting_changes: Vec::new(),
        last_iteration: None,
    };
    let workspace = match facts.workspace {
        Some(w) => w,
        None => return Ok(resp),
    };
    if let Ok(c) = workspace.last_commit_base {
        resp.last_commit_base = c;
    }
    if let Ok(c) = workspace.last_commit_agent {
        resp.last_commit_agent = c;
    }
    let marked = match workspace.marked {
        Ok(m) => m,
        Err(e) => return Err(e),
    };
    resp.perma_stuck_changes = list_perma(&marked.perma_stuck, now);
    resp.revision_marked_changes = list_revision(&marked.needs_revision, now);
    resp.throttled_alerts = list_alerts(&workspace.alerts);
    if let Ok(v) = workspace.pending {
        resp.pending_changes = v;
    }
    if let Ok(v) = workspace.waiting {
        resp.waiting_changes = v;
    }
    if let Ok(failures) = &workspace.failures {
        resp.last_iteration = last_iteration(failures, repo.poll_interval_sec);
    }
    Ok(resp)
}

/// Answers the question about the status of one repository. `status` is the
/// status as it is sent, or why there is none.
pub fn handle_repo_status(parsed: &Json, found: Found, status: Result<Json, String>) -> (r: Json)
    ensures
        match (parsed@.str_at("url"@), found, status) {
            (None, _, _) => r@ == refusal(missing_field("url"@)),
            (Some(_), Err(e), _) => r@ == refusal(e@),
            (Some(_), Ok(_), Err(e)) => r@ == refusal(e@),
            (Some(_), Ok(_), Ok(body)) => r@ == obj().flag("ok"@, true).with(
                "status"@,
                body@,
            ).done(),
        },
{
    if let Err(e) = require(parsed, "url") {
        return e;
    }
    match (found, status) {
        (Err(e), _) => refuse(e.as_str()),
        (Ok(_), Err(e)) => refuse(e.as_str()),
        (Ok(_), Ok(body)) => Fields::new().flag("ok", true).with("status", body).finish(),
    }
}

/// The first repository with an address.
pub open spec fn configured(repos: Seq<RepositoryConfig>, url: Seq<char>) -> Option<int>
    decreases repos.len(),
{
    if repos.len() == 0 {
        None
    } else {
        match configured(repos.drop_last(), url) {
            Some(i) => Some(i),
            None => if repos.last().url@ == url {
                Some(repos.len() - 1)
            } else {
                None
            },
        }
    }
}

/// The repositories that have a polling task and are configured, in the order of
/// the tasks.
pub open spec fn live_repositories(urls: Seq<String>, repos: Seq<RepositoryConfig>) -> Seq<int>
    decreases urls.len(),
{
    if urls.len() == 0 {
        Seq::empty()
    } else {
        let before = live_repositories(urls.drop_last(), repos);
        match configured(repos, urls.last()@) {
            Some(i) => before.push(i),
            None => before,
        }
    }
}

pub open spec fn places(v: Seq<usize>) -> Seq<int> {
    Seq::new(v.len(), |i: int| v[i] as int)
}

fn find_configured(repos: &Vec<RepositoryConfig>, url: &str) -> (r: Option<usize>)
    ensures
        match r {
            Some(i) => configured(repos@, url@) == Some(i as int),
            None => configured(repos@, url@) is None,
        },
{
    let mut i: usize = 0;
    while i < repos.len()
        invariant
            i <= repos@.len(),
            configured(repos@.take(i as int), url@) is None,
        decreases repos@.len() - i,
    {
        proof {
            assert(repos@.take(i + 1).drop_last() =~= repos@.take(i as int));
        }
        if same_text(repos[i].url.as_str(), url) {
            proof {
                lemma_configured_stays(repos@, url@, i + 1);
            }
            return Some(i);
        }
        i += 1;
    }
    proof {
        assert(repos@.take(repos@.len() as int) =~= repos@);
    }
    None
}

proof fn lemma_configured_stays(repos: Seq<RepositoryConfig>, url: Seq<char>, n: int)
    requires
        0 <= n <= repos.len(),
        configured(repos.take(n), url) is Some,
    ensures
        configured(repos, url) == configured(repos.take(n), url),
    decreases repos.len(),
{
    if n == repos.len() {
        assert(repos.take(n) =~= repos);
    } else {
        assert(repos.drop_last().take(n) =~= repos.take(n));
        lemma_configured_stays(repos.drop_last(), url, n);
    }
}

/// Which repositories the status of all tells of: those that have a polling task
/// and are configured. The result holds their places in `repos`.
pub fn list_live_repositories(urls: &Vec<String>, repos: &Vec<RepositoryConfig>) -> (r: Vec<usize>)
    ensures
        places(r@) == live_repositories(urls@, repos@),
{
    let mut out: Vec<usize> = Vec::new();
    let mut i: usize = 0;
    proof {
        assert(places(out@) =~= live_repositories(urls@.take(0), repos@));
    }
    while i < urls.len()
        invariant
            i <= urls@.len(),
            places(out@) == live_repositories(urls@.take(i as int), repos@),
        decreases urls@.len() - i,
    {
        proof {
            assert(urls@.take(i + 1).drop_last() =~= urls@.take(i as int));
        }
        if let Some(k) = find_configured(repos, urls[i].as_str()) {
            proof {
                assert(places(out@.push(k)) =~= places(out@).push(k as int));
            }
            out.push(k);
        }
        i += 1;
    }
    proof {
        assert(urls@.take(urls@.len() as int) =~= urls@);
    }
    out
}

/// The status of one repository among others.
#[derive(Debug)]
pub struct StatusResult {
    pub url: String,
    pub status: Result<Json, String>,
}

/// The status of one repository among others, as it is sent.
pub open spec fn status_entry(result: StatusResult) -> JsonV {
    match result.status {
        Ok(body) => obj().text("url"@, result.url@).flag("ok"@, true).with(
            "status"@,
            body@,
        ).done(),
        Err(e) => obj().text("url"@, result.url@).flag("ok"@, false).text("error"@, e@).done(),
    }
}

pub open spec fn status_entries(results: Seq<StatusResult>) -> Seq<JsonV> {
    Seq::new(results.len(), |i: int| status_entry(results[i]))
}

/// Answers the question about the status of all repositories. That of one which
/// could not be had is told in its place, and keeps no other from being told.
pub fn handle_repo_status_all(results: &Vec<StatusResult>) -> (r: Json)
    ensures
        r@ == obj().flag("ok"@, true).with(
            "results"@,
            JsonV::Arr(status_entries(results@)),
        ).done(),
{
    let mut items: Vec<Json> = Vec::new();
    let mut i: usize = 0;
    while i < results.len()
        invariant
            i <= results@.len(),
            items@.len() == i,
            forall|k: int| 0 <= k < i ==> (#[trigger] items@[k])@ == status_entry(results@[k]),
        decreases results@.len() - i,
    {
        let head = Fields::new().text("url", results[i].url.as_str());
        let item = match &results[i].status {
            Ok(body) => head.flag("ok", true).with("status", body.copy()).finish(),
            Err(e) => head.flag("ok", false).text("error", e.as_str()).finish(),
        };
        items.push(item);
        i += 1;
    }
    proof {
        assert(trees(items@) =~= status_entries(results@));
    }
    Fields::new().flag("ok", true).with("results", array_of(items)).finish()
}

/// What is asked of GitHub for the last pull request of a repository.
#[derive(Debug)]
pub struct LatestPrQuery {
    pub owner: String,
    pub repo: String,
    pub head_owner: String,
    pub head_branch: String,
}

/// What is asked of GitHub for the last pull request of a repository; nothing
/// where its address cannot be read. With a fork, the branch is that of the
/// owner of the fork.
pub fn latest_pr_query(repo: &RepositoryConfig, fork_owner: &Option<String>) -> (r: Option<
    LatestPrQuery,
>)
    ensures
        match github_parts(repo.url@) {
            Some((owner, name)) => {
                &&& r matches Some(q)
                &&& q.owner@ == owner
                &&& q.repo@ == name
                &&& q.head_owner@ == match fork_owner {
                    Some(f) => f@,
                    None => owner,
                }
                &&& q.head_branch@ == repo.agent_branch@
            },
            None => r is None,
        },
{
    match GithubForge::new().parse_repo(repo.url.as_str()) {
        Ok((owner, name)) => {
            let head_owner = match fork_owner {
                Some(f) => f.clone(),
                None => owner.clone(),
            };
            Some(
                LatestPrQuery {
                    owner,
                    repo: name,
                    head_owner,
                    head_branch: repo.agent_branch.clone(),
                },
            )
        },
        Err(_) => None,
    }
}

/// The names of the fields tell them apart.
proof fn lemma_field_names()
    ensures
        "ok"@.len() == 2,
        "url"@.len() == 3,
        "error"@.len() == 5,
        "status"@.len() == 6,
        "results"@.len() == 7,
{
    reveal_strlit("ok");
    reveal_strlit("error");
    reveal_strlit("status");
    reveal_strlit("results");
    reveal_strlit("url");
}

/// A text that fits stays as it is; of a longer one the beginning is kept, as much as fits,
/// and an ellipsis says that there is more.
pub proof fn a_long_text_is_cut(s: Seq<char>, n: nat)
    ensures
        s.len() <= n ==> shortened(s, n) == s,
        s.len() > n ==> shortened(s, n).len() == n + 1 && shortened(s, n).last() == '…'
            && shortened(s, n).drop_last() == s.take(n as int),
{
    reveal_strlit("…");
    if s.len() > n {
        assert(shortened(s, n).drop_last() =~= s.take(n as int));
    }
}

/// The status is that of the repository that it was asked of, and fails only where the marked
/// changes of its workspace could not be listed. What cannot be read otherwise is left out,
/// and keeps nothing else from being told; without a workspace nothing is told of one.
pub proof fn the_status_tells_what_can_be_read<B, C, P>(
    repo: RepositoryConfig,
    facts: StatusFacts<B, C, P>,
    now: Timestamp,
    r: Result<RepoStatusResponse<B, C, P>, String>,
)
    requires
        call_ensures(build_repo_status::<B, C, P>, (&repo, facts, now), r),
    ensures
        r is Err <==> (facts.workspace matches Some(w) && w.marked is Err),
        r matches Err(e) ==> (facts.workspace matches Some(w) && w.marked == Err::<
            MarkedChanges,
            String,
        >(e)),
        r matches Ok(s) ==> {
            &&& s.url@ == repo.url@
            &&& s.base_branch@ == repo.base_branch@
            &&& s.agent_branch@ == repo.agent_branch@
            &&& s.currently_busy == facts.currently_busy
            &&& s.latest_pr == facts.latest_pr
            &&& facts.workspace is None ==> {
                &&& s.last_commit_base is None
                &&& s.last_commit_agent is None
                &&& s.perma_stuck_changes@.len() == 0
                &&& s.revision_marked_changes@.len() == 0
                &&& s.throttled_alerts@.len() == 0
                &&& s.pending_changes@.len() == 0
                &&& s.waiting_changes@.len() == 0
                &&& s.last_iteration is None
            }
            &&& facts.workspace matches Some(w) ==> {
                &&& s.last_commit_base == if w.last_commit_base is Ok {
                    w.last_commit_base->Ok_0
                } else {
                    None
                }
                &&& s.last_commit_agent == if w.last_commit_agent is Ok {
                    w.last_commit_agent->Ok_0
                } else {
                    None
                }
                &&& s.pending_changes@ == if w.pending is Ok {
                    w.pending->Ok_0@
                } else {
                    Seq::empty()
                }
                &&& s.waiting_changes@ == if w.waiting is Ok {
                    w.waiting->Ok_0@
                } else {
                    Seq::empty()
                }
                &&& s.perma_stuck_changes@.len() == w.marked->Ok_0.perma_stuck@.len()
                &&& s.revision_marked_changes@.len() == w.marked->Ok_0.needs_revision@.len()
                &&& s.throttled_alerts@.len() == w.alerts.categories@.len()
                    + w.alerts.perma_stuck@.len() + w.alerts.spec_revision@.len()
                &&& s.last_iteration is Some <==> (w.failures matches Ok(f) && f@.len() > 0)
            }
        },
{
    if let Ok(s) = r {
        if let Some(w) = facts.workspace {
            if w.pending is Err {
                assert(s.pending_changes@ =~= Seq::empty());
            }
            if w.waiting is Err {
                assert(s.waiting_changes@ =~= Seq::empty());
            }
            if let Ok(failures) = w.failures {
                if failures@.len() == 0 {
                    assert(forall|i: int| !is_latest(failures@, i));
                }
            }
        }
    }
}

/// What is told of each marked change, in their order: its name, whether the queue passes it,
/// and when it was marked, which is now where the marker does not say; of one that failed too
/// often also how often, where the marker says so.
pub proof fn a_marked_change_is_told_by_its_marker<B, C, P>(
    repo: RepositoryConfig,
    facts: StatusFacts<B, C, P>,
    now: Timestamp,
    s: RepoStatusResponse<B, C, P>,
    w: WorkspaceFacts<C>,
    marked: MarkedChanges,
    i: int,
)
    requires
        call_ensures(
            build_repo_status::<B, C, P>,
            (&repo, facts, now),
            Ok::<RepoStatusResponse<B, C, P>, String>(s),
        ),
        facts.workspace == Some(w),
        w.marked == Ok::<MarkedChanges, String>(marked),
        0 <= i,
    ensures
        i < marked.perma_stuck@.len() ==> {
            let entry = s.perma_stuck_changes@[i];
            let marker = json_text(marked.perma_stuck@[i].marker_text@);
            &&& entry.change@ == marked.perma_stuck@[i].change@
            &&& entry.has_ignore_for_queue == marked.perma_stuck@[i].has_ignore_for_queue
            &&& entry.marked_at == match marker {
                Some(v) => match v.str_at("marked_stuck_at"@) {
                    Some(text) => match utc_time(text) {
                        Some(t) => t,
                        None => now,
                    },
                    None => now,
                },
                None => now,
            }
            &&& entry.detail@ == match marker {
                Some(v) => match v.u64_at("consecutive_failures"@) {
                    Some(n) => if n == 0 {
                        Seq::empty()
                    } else {
                        "consecutive_failures: "@ + dec(n as nat)
                    },
                    None => Seq::empty(),
                },
                None => Seq::empty(),
            }
        },
        i < marked.needs_revision@.len() ==> {
            let entry = s.revision_marked_changes@[i];
            let marker = json_text(marked.needs_revision@[i].marker_text@);
            &&& entry.change@ == marked.needs_revision@[i].change@
            &&& entry.has_ignore_for_queue == marked.needs_revision@[i].has_ignore_for_queue
            &&& entry.detail@.len() == 0
            &&& entry.marked_at == match marker {
                Some(v) => match v.str_at("marked_at"@) {
                    Some(text) => match utc_time(text) {
                        Some(t) => t,
                        None => now,
                    },
                    None => now,
                },
                None => now,
            }
        },
{
    if i < marked.perma_stuck@.len() {
        assert(reports_perma(s.perma_stuck_changes@[i], marked.perma_stuck@[i], now));
        assert(s.perma_stuck_changes@[i].detail@ =~= perma_detail(
            json_or_null(marked.perma_stuck@[i].marker_text@),
        ));
    }
    if i < marked.needs_revision@.len() {
        assert(reports_revision(s.revision_marked_changes@[i], marked.needs_revision@[i], now));
    }
}

/// Every alert that was raised is told, in its order, with the moment at which it was raised
/// last: first those by category, then those about stuck changes, then those about
/// specifications that need work, each under a label that tells them apart. None is repeated
/// for a day.
pub proof fn every_alert_is_told<B, C, P>(
    repo: RepositoryConfig,
    facts: StatusFacts<B, C, P>,
    now: Timestamp,
    s: RepoStatusResponse<B, C, P>,
    w: WorkspaceFacts<C>,
    i: int,
)
    requires
        call_ensures(
            build_repo_status::<B, C, P>,
            (&repo, facts, now),
            Ok::<RepoStatusResponse<B, C, P>, String>(s),
        ),
        facts.workspace == Some(w),
        0 <= i < s.throttled_alerts@.len(),
    ensures
        ({
            let a = w.alerts.categories@;
            let b = w.alerts.perma_stuck@;
            let c = w.alerts.spec_revision@;
            let entry = s.throttled_alerts@[i];
            &&& entry.throttle_window_hours == 24
            &&& i < a.len() ==> entry.label@ == a[i].name@ && entry.last_fired_at
                == a[i].last_alerted_at
            &&& a.len() <= i < a.len() + b.len() ==> entry.label@ == "perma_stuck:"@ + b[i
                - a.len()].name@ && entry.last_fired_at == b[i - a.len()].last_alerted_at
            &&& a.len() + b.len() <= i ==> entry.label@ == "spec_revision:"@ + c[i - a.len()
                - b.len()].name@ && entry.last_fired_at == c[i - a.len()
                - b.len()].last_alerted_at
        }),
{
    let a = w.alerts.categories@;
    let entry = s.throttled_alerts@[i];
    if i < a.len() {
        assert(reports_alert(entry, Seq::empty(), a[i]));
        assert(Seq::<char>::empty() + a[i].name@ =~= a[i].name@);
    }
}

/// The last trace is that of the latest failure: when it was, the beginning of its reason,
/// and when the next pass is due, one interval later.
pub proof fn the_latest_failure_is_told<B, C, P>(
    repo: RepositoryConfig,
    facts: StatusFacts<B, C, P>,
    now: Timestamp,
    s: RepoStatusResponse<B, C, P>,
    w: WorkspaceFacts<C>,
    failures: Vec<FailureEntry>,
    last: LastIteration,
)
    requires
        call_ensures(
            build_repo_status::<B, C, P>,
            (&repo, facts, now),
            Ok::<RepoStatusResponse<B, C, P>, String>(s),
        ),
        facts.workspace == Some(w),
        w.failures == Ok::<Vec<FailureEntry>, String>(failures),
        s.last_iteration == Some(last),
    ensures
        last.poll_interval_sec == repo.poll_interval_sec,
        forall|j: int|
            0 <= j < failures@.len() ==> (#[trigger] failures@[j]).last_failed_at.seconds
                <= last.finished_at.seconds,
        forall|j: int|
            0 <= j < failures@.len() && (#[trigger] failures@[j]).last_failed_at.seconds
                == last.finished_at.seconds ==> failures@[j].last_failed_at.nanos
                <= last.finished_at.nanos,
        exists|i: int|
            0 <= i < failures@.len() && (#[trigger] failures@[i]).last_failed_at
                == last.finished_at && (failures@[i].last_reason@.len() <= 80
                ==> last.outcome_summary@ == "last failure: "@ + failures@[i].last_reason@) && (
            failures@[i].last_reason@.len() > 80 ==> last.outcome_summary@ == "last failure: "@ + (
            failures@[i].last_reason@.take(80) + "…"@)) && (forall|j: int|
                i < j < failures@.len() ==> (#[trigger] failures@[j]).last_failed_at
                    != last.finished_at),
        last.next_iteration_estimate is Some,
        repo.poll_interval_sec <= i64::MAX ==> last.next_iteration_estimate->0.seconds
            == last.finished_at.seconds + repo.poll_interval_sec,
        last.finished_at.nanos < 1_000_000_000 ==> last.next_iteration_estimate->0.nanos
            == last.finished_at.nanos,
{
    let i = choose|i: int| #[trigger]
        is_latest(failures@, i) && last.finished_at == failures@[i].last_failed_at
            && last.outcome_summary@ == "last failure: "@ + shortened(
            failures@[i].last_reason@,
            80,
        ) && (last.next_iteration_estimate matches Some(t) && (t.seconds as int, t.nanos as int)
            == failures@[i].last_failed_at.shifted(signed(repo.poll_interval_sec)))
            && last.poll_interval_sec == repo.poll_interval_sec;
    assert(is_latest(failures@, i));
    assert(failures@[i].last_failed_at == last.finished_at);
    if failures@[i].last_reason@.len() > 80 {
        assert(failures@[i].last_reason@.subrange(0, 80) =~= failures@[i].last_reason@.take(80));
    }
}

/// The status of one repository is sent as it is, where its address is named and known and
/// there is one; otherwise the first of these that is missing is told.
pub proof fn one_status_is_sent_as_it_is(
    parsed: Json,
    found: Found,
    status: Result<Json, String>,
    r: Json,
)
    requires
        call_ensures(handle_repo_status, (&parsed, found, status), r),
    ensures
        r@.bool_at("ok"@) == Some(parsed@.str_at("url"@) is Some && found is Ok && status is Ok),
        r@.bool_at("ok"@) == Some(true) ==> r@.get("status"@) == Some(status->Ok_0@),
        r@.bool_at("ok"@) == Some(false) ==> r@.str_at("error"@) == Some(
            if parsed@.str_at("url"@) is None {
                "missing `"@ + "url"@ + "` field"@
            } else if found is Err {
                found->Err_0@
            } else {
                status->Err_0@
            },
        ),
{
    broadcast use {lemma_get_with, lemma_get_empty};

    lemma_field_names();
    assert forall|why: Seq<char>|
        (#[trigger] refusal(why)).bool_at("ok"@) == Some(false) && refusal(why).str_at("error"@)
            == Some(why) by {
        a_refusal_says_why(why);
    }
}

/// The status of all is told repository by repository, in order, that of each as it is; one
/// that could not be had is told in its place with the reason.
pub proof fn every_status_has_its_place(results: Vec<StatusResult>, r: Json, i: int)
    requires
        call_ensures(handle_repo_status_all, (&results,), r),
        0 <= i < results@.len(),
    ensures
        r@.bool_at("ok"@) == Some(true),
        r@.array_at("results"@) matches Some(items) && {
            &&& items.len() == results@.len()
            &&& items[i].str_at("url"@) == Some(results@[i].url@)
            &&& items[i].bool_at("ok"@) == Some(results@[i].status is Ok)
            &&& match results@[i].status {
                Ok(body) => items[i].get("status"@) == Some(body@) && items[i].get("error"@)
                    is None,
                Err(e) => items[i].str_at("error"@) == Some(e@) && items[i].get("status"@) is None,
            }
        },
{
    broadcast use {lemma_get_with, lemma_get_empty};

    lemma_field_names();
    assert forall|why: Seq<char>|
        (#[trigger] refusal(why)).bool_at("ok"@) == Some(false) && refusal(why).str_at("error"@)
            == Some(why) by {
        a_refusal_says_why(why);
    }
}

proof fn lemma_configured(repos: Seq<RepositoryConfig>, url: Seq<char>)
    ensures
        match configured(repos, url) {
            Some(i) => 0 <= i < repos.len() && repos[i].url@ == url && forall|j: int|
                0 <= j < i ==> (#[trigger] repos[j]).url@ != url,
            None => forall|j: int| 0 <= j < repos.len() ==> (#[trigger] repos[j]).url@ != url,
        },
    decreases repos.len(),
{
    if repos.len() > 0 {
        let init = repos.drop_last();
        lemma_configured(init, url);
        assert(forall|j: int| 0 <= j < init.len() ==> #[trigger] repos[j] == init[j]);
    }
}

/// The repositories of which the status of all tells are those that have a task and are
/// configured: an address gives the first repository that has it, one without gives none,
/// and those of a list in two parts are those of the one and then of the other.
pub proof fn a_task_leads_to_its_repository(
    urls: Seq<String>,
    more: Seq<String>,
    repos: Seq<RepositoryConfig>,
)
    ensures
        live_repositories(Seq::empty(), repos) == Seq::<int>::empty(),
        urls.len() == 1 ==> if exists|i: int|
            0 <= i < repos.len() && (#[trigger] repos[i]).url@ == urls[0]@ {
            let live = live_repositories(urls, repos);
            &&& live.len() == 1
            &&& 0 <= live[0] < repos.len()
            &&& repos[live[0]].url@ == urls[0]@
            &&& forall|j: int| 0 <= j < live[0] ==> (#[trigger] repos[j]).url@ != urls[0]@
        } else {
            live_repositories(urls, repos).len() == 0
        },
        live_repositories(urls + more, repos) == live_repositories(urls, repos)
            + live_repositories(more, repos),
    decreases more.len(),
{
    if urls.len() == 1 {
        lemma_configured(repos, urls[0]@);
        assert(urls.drop_last() =~= Seq::<String>::empty());
        assert(live_repositories(urls.drop_last(), repos) =~= Seq::<int>::empty());
    }
    if more.len() == 0 {
        assert(urls + more =~= urls);
        assert(live_repositories(urls, repos) + live_repositories(more, repos)
            =~= live_repositories(urls, repos));
    } else {
        a_task_leads_to_its_repository(urls, more.drop_last(), repos);
        assert((urls + more).drop_last() =~= urls + more.drop_last());
        assert((urls + more).last() == more.last());
        assert(live_repositories(urls + more, repos) =~= live_repositories(urls, repos)
            + live_repositories(more, repos));
    }
}

/// What is asked of GitHub for the last pull request: that of the repository at the address,
/// from the agent branch of the fork where there is one, and of the repository itself
/// otherwise.
pub proof fn the_last_pull_request_is_asked_by_its_head(
    repo: RepositoryConfig,
    fork_owner: Option<String>,
    r: Option<LatestPrQuery>,
)
    requires
        call_ensures(latest_pr_query, (&repo, &fork_owner), r),
    ensures
        r is Some <==> github_parts(repo.url@) is Some,
        r matches Some(q) ==> github_parts(repo.url@) == Some((q.owner@, q.repo@))
            && q.head_branch@ == repo.agent_branch@ && q.head_owner@ == if fork_owner is Some {
            fork_owner->0@
        } else {
            q.owner@
        },
{
}

/// What a marker tells: the moment of its field, or now, and after how many failures it was set.
pub proof fn a_marker_tells_moment_and_count(
    text: &str,
    now: Timestamp,
    perma: (Timestamp, String),
    revision: Timestamp,
    n: usize,
    cut: String,
    urls: Vec<String>,
    repos: Vec<RepositoryConfig>,
    live: Vec<usize>,
)
    requires
        call_ensures(read_perma_marker, (text, now), perma),
        call_ensures(read_revision_marker, (text, now), revision),
        call_ensures(truncate, (text, n), cut),
        call_ensures(list_live_repositories, (&urls, &repos), live),
    ensures
        json_text(text@) is None ==> perma.0 == now && perma.1@.len() == 0 && revision == now,
        json_text(text@) matches Some(v) ==> {
            &&& perma.0 == match v.str_at("marked_stuck_at"@) {
                Some(s) => match utc_time(s) {
                    Some(t) => t,
                    None => now,
                },
                None => now,
            }
            &&& revision == match v.str_at("marked_at"@) {
                Some(s) => match utc_time(s) {
                    Some(t) => t,
                    None => now,
                },
                None => now,
            }
            &&& (v.u64_at("consecutive_failures"@) matches Some(k) && k > 0) ==> perma.1@
                == "consecutive_failures: "@ + dec(v.u64_at("consecutive_failures"@)->0 as nat)
            &&& !(v.u64_at("consecutive_failures"@) matches Some(k) && k > 0) ==> perma.1@.len()
                == 0
        },
        cut@ == shortened(text@, n as nat),
        live@.len() == live_repositories(urls@, repos@).len(),
        forall|i: int|
            0 <= i < live@.len() ==> #[trigger] live@[i] as int == live_repositories(
                urls@,
                repos@,
            )[i],
{
    assert(places(live@).len() == live@.len());
    assert forall|i: int| 0 <= i < live@.len() implies #[trigger] live@[i] as int
        == live_repositories(urls@, repos@)[i] by {
        assert(places(live@)[i] == live@[i] as int);
    }
}

} // verus!
