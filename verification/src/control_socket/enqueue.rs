//! Requests that wait for the next pass over a repository. Each kind has a queue
//! of its own; a request that waits already is not queued twice.
use std::collections::VecDeque;
use vstd::prelude::*;
use crate::clock::Timestamp;
use crate::control_socket::request::{missing_field, require, Found, RepositoryConfig};
use crate::json::{
    a_refusal_says_why, lemma_get_empty, lemma_get_with, obj, refusal, refuse, Fields, Json, JsonV,
};
use crate::text::{cat3, cat4, cat5, opt_text, same_text};

verus! {

/// A queue of requests, in the order of their arrival.
pub trait PendingQueue<T> {
    spec fn items(&self) -> Seq<T>;

    /// Whether a request that waits satisfies `pred`.
    fn has_matching<F: Fn(&T) -> bool>(&self, pred: F) -> (r: bool)
        requires
            forall|t: &T| #[trigger] pred.requires((t,)),
        ensures
            r ==> exists|i: int|
                0 <= i < self.items().len() && pred.ensures((&(#[trigger] self.items()[i]),), true),
            !r ==> forall|i: int|
                0 <= i < self.items().len() ==> pred.ensures(
                    (&(#[trigger] self.items()[i]),),
                    false,
                ),
    ;

    /// Appends a request.
    fn enqueue(&mut self, item: T)
        ensures
            final(self).items() == old(self).items().push(item),
    ;
}

impl<T> PendingQueue<T> for Vec<T> {
    open spec fn items(&self) -> Seq<T> {
        self@
    }

    fn has_matching<F: Fn(&T) -> bool>(&self, pred: F) -> (r: bool) {
        let mut i: usize = 0;
        while i < self.len()
            invariant
                i <= self@.len(),
                forall|t: &T| #[trigger] pred.requires((t,)),
                forall|k: int| 0 <= k < i ==> pred.ensures((&(#[trigger] self.items()[k]),), false),
            decreases self@.len() - i,
        {
            if pred(&self[i]) {
                proof {
                    assert(pred.ensures((&self.items()[i as int],), true));
                }
                return true;
            }
            i += 1;
        }
        false
    }

    fn enqueue(&mut self, item: T) {
        self.push(item);
    }
}

impl<T> PendingQueue<T> for VecDeque<T> {
    open spec fn items(&self) -> Seq<T> {
        self@
    }

    fn has_matching<F: Fn(&T) -> bool>(&self, pred: F) -> (r: bool) {
        let mut i: usize = 0;
        while i < self.len()
            invariant
                i <= self@.len(),
                forall|t: &T| #[trigger] pred.requires((t,)),
                forall|k: int| 0 <= k < i ==> pred.ensures((&(#[trigger] self.items()[k]),), false),
            decreases self@.len() - i,
        {
            if pred(&self[i]) {
                proof {
                    assert(pred.ensures((&self.items()[i as int],), true));
                }
                return true;
            }
            i += 1;
        }
        false
    }

    fn enqueue(&mut self, item: T) {
        self.push_back(item);
    }
}

/// What a request is told whose repository has no pass to wait for.
pub open spec fn not_live(url: Seq<char>) -> Seq<char> {
    "no live polling task for `"@ + url + "` (daemon may not have spawned it yet)"@
}

/// The message for a repository that has no pass to wait for.
pub fn not_live_text(url: &str) -> (r: String)
    ensures
        r@ == not_live(url@),
{
    cat3("no live polling task for `", url, "` (daemon may not have spawned it yet)")
}

/// Whether a request was turned away before it came to the queue, and with what
/// reply: an unknown repository first, then a record that could not be made,
/// then a repository without a pass.
pub open spec fn turned_away<T>(
    found: Found,
    record: Result<T, Json>,
    live: bool,
    url: Seq<char>,
) -> Option<JsonV> {
    match (found, record) {
        (Err(e), _) => Some(refusal(e@)),
        (Ok(_), Err(j)) => Some(j@),
        (Ok(_), Ok(_)) => if live {
            None
        } else {
            Some(refusal(not_live(url)))
        },
    }
}

/// Queues a request unless `is_dup` finds it in the queue. Gives the repository,
/// or the reply to a request that is turned away; the queue is then left alone.
pub(crate) fn enqueue_request<Q: PendingQueue<T>, T, F: Fn(&T) -> bool>(
    found: Found,
    url: &str,
    record: Result<T, Json>,
    live: bool,
    queue: &mut Q,
    is_dup: F,
) -> (r: Result<RepositoryConfig, Json>)
    requires
        forall|t: &T| #[trigger] is_dup.requires((t,)),
    ensures
        match turned_away(found, record, live, url@) {
            Some(reply) => r matches Err(j) && j@ == reply && final(queue).items() == old(
                queue,
            ).items(),
            None => {
                &&& r == Ok::<RepositoryConfig, Json>(found->Ok_0)
                &&& {
                    ||| final(queue).items() == old(queue).items() && exists|i: int|
                        0 <= i < old(queue).items().len() && is_dup.ensures(
                            (&(#[trigger] old(queue).items()[i]),),
                            true,
                        )
                    ||| final(queue).items() == old(queue).items().push(record->Ok_0) && forall|
                        i: int,
                    |
                        0 <= i < old(queue).items().len() ==> is_dup.ensures(
                            (&(#[trigger] old(queue).items()[i]),),
                            false,
                        )
                }
            },
        },
{
    let repo = match found {
        Ok(repo) => repo,
        Err(e) => return Err(refuse(e.as_str())),
    };
    let item = match record {
        Ok(item) => item,
        Err(reply) => return Err(reply),
    };
    if !live {
        return Err(refuse(not_live_text(url).as_str()));
    }
    if !queue.has_matching(is_dup) {
        queue.enqueue(item);
    }
    Ok(repo)
}

/// The reply to a request that waits now, with the name that it is known by.
pub open spec fn queued_reply(
    url: Seq<char>,
    key: Seq<char>,
    id: Seq<char>,
    poll_interval_sec: u64,
) -> JsonV {
    obj().flag("ok"@, true).text("url"@, url).text(key, id).number(
        "poll_interval_sec"@,
        poll_interval_sec,
    ).done()
}

fn queued(url: &str, key: &str, id: &str, poll_interval_sec: u64) -> (r: Json)
    ensures
        r@ == queued_reply(url@, key@, id@, poll_interval_sec),
{
    Fields::new().flag("ok", true).text("url", url).text(key, id).number(
        "poll_interval_sec",
        poll_interval_sec,
    ).finish()
}

/// The refusal of a request that lacks one of its required strings; it names the
/// first that is missing.
pub open spec fn lacks(v: JsonV, keys: Seq<Seq<char>>) -> Option<JsonV>
    decreases keys.len(),
{
    if keys.len() == 0 {
        None
    } else {
        match lacks(v, keys.drop_last()) {
            Some(j) => Some(j),
            None => if v.str_at(keys.last()) is None {
                Some(refusal(missing_field(keys.last())))
            } else {
                None
            },
        }
    }
}

/// The keys of a list, one after the other.
pub open spec fn keys2(a: Seq<char>, b: Seq<char>) -> Seq<Seq<char>> {
    Seq::empty().push(a).push(b)
}

pub open spec fn keys3(a: Seq<char>, b: Seq<char>, c: Seq<char>) -> Seq<Seq<char>> {
    keys2(a, b).push(c)
}

pub open spec fn keys4(a: Seq<char>, b: Seq<char>, c: Seq<char>, d: Seq<char>) -> Seq<Seq<char>> {
    keys3(a, b, c).push(d)
}

proof fn lemma_lacks(v: JsonV, a: Seq<char>, b: Seq<char>, c: Seq<char>, d: Seq<char>)
    ensures
        lacks(v, keys2(a, b)) == (if v.str_at(a) is None {
            Some(refusal(missing_field(a)))
        } else if v.str_at(b) is None {
            Some(refusal(missing_field(b)))
        } else {
            None
        }),
        lacks(v, keys3(a, b, c)) == (match lacks(v, keys2(a, b)) {
            Some(j) => Some(j),
            None => if v.str_at(c) is None {
                Some(refusal(missing_field(c)))
            } else {
                None
            },
        }),
        lacks(v, keys4(a, b, c, d)) == (match lacks(v, keys3(a, b, c)) {
            Some(j) => Some(j),
            None => if v.str_at(d) is None {
                Some(refusal(missing_field(d)))
            } else {
                None
            },
        }),
{
    let one: Seq<Seq<char>> = Seq::empty().push(a);
    reveal_with_fuel(lacks, 3);
    assert(one.drop_last() =~= Seq::<Seq<char>>::empty());
    assert(keys2(a, b).drop_last() =~= one);
    assert(keys3(a, b, c).drop_last() =~= keys2(a, b));
    assert(keys4(a, b, c, d).drop_last() =~= keys3(a, b, c));
}

fn read2(parsed: &Json, a: &str, b: &str) -> (r: Result<(String, String), Json>)
    ensures
        match lacks(parsed@, keys2(a@, b@)) {
            Some(j) => r matches Err(e) && e@ == j,
            None => r matches Ok(p) && parsed@.str_at(a@) == Some(p.0@) && parsed@.str_at(b@)
                == Some(p.1@),
        },
{
    proof {
        lemma_lacks(parsed@, a@, b@, a@, a@);
    }
    let x = match require(parsed, a) {
        Ok(s) => s,
        Err(e) => return Err(e),
    };
    match require(parsed, b) {
        Ok(y) => Ok((x, y)),
        Err(e) => Err(e),
    }
}

fn read3(parsed: &Json, a: &str, b: &str, c: &str) -> (r: Result<(String, String, String), Json>)
    ensures
        match lacks(parsed@, keys3(a@, b@, c@)) {
            Some(j) => r matches Err(e) && e@ == j,
            None => r matches Ok(p) && parsed@.str_at(a@) == Some(p.0@) && parsed@.str_at(b@)
                == Some(p.1@) && parsed@.str_at(c@) == Some(p.2@),
        },
{
    proof {
        lemma_lacks(parsed@, a@, b@, c@, a@);
    }
    let (x, y) = match read2(parsed, a, b) {
        Ok(p) => p,
        Err(e) => return Err(e),
    };
    match require(parsed, c) {
        Ok(z) => Ok((x, y, z)),
        Err(e) => Err(e),
    }
}

fn read4(parsed: &Json, a: &str, b: &str, c: &str, d: &str) -> (r: Result<
    (String, String, String, String),
    Json,
>)
    ensures
        match lacks(parsed@, keys4(a@, b@, c@, d@)) {
            Some(j) => r matches Err(e) && e@ == j,
            None => r matches Ok(p) && parsed@.str_at(a@) == Some(p.0@) && parsed@.str_at(b@)
                == Some(p.1@) && parsed@.str_at(c@) == Some(p.2@) && parsed@.str_at(d@) == Some(
                p.3@,
            ),
        },
{
    proof {
        lemma_lacks(parsed@, a@, b@, c@, d@);
    }
    let (x, y, z) = match read3(parsed, a, b, c) {
        Ok(p) => p,
        Err(e) => return Err(e),
    };
    match require(parsed, d) {
        Ok(w) => Ok((x, y, z, w)),
        Err(e) => Err(e),
    }
}

pub(crate) proof fn lemma_queued<T>(before: Seq<T>, after: Seq<T>)
    ensures
        after.len() > 0 && after == before.push(after.last()) ==> after.drop_last() == before,
{
    if after.len() > 0 && after == before.push(after.last()) {
        assert(after.drop_last() =~= before);
    }
}

/// Whether a queue came to hold one more request, or held it already.
pub open spec fn holds_once<T>(
    before: Seq<T>,
    after: Seq<T>,
    same: spec_fn(T) -> bool,
    fresh: spec_fn(T) -> bool,
) -> bool {
    if exists|i: int| 0 <= i < before.len() && same(#[trigger] before[i]) {
        after == before
    } else {
        &&& after.len() == before.len() + 1
        &&& after.drop_last() == before
        &&& fresh(after.last())
    }
}

/// What a lookup of the record that a request refers to gave: the record, none,
/// or why it could not be read.
pub type Recorded<T> = Result<Option<T>, String>;

/// The reply where a record is missing or could not be read.
pub open spec fn record_refusal<T>(
    recorded: Recorded<T>,
    kind: Seq<char>,
    request_id: Seq<char>,
    place: Seq<char>,
    name: Seq<char>,
) -> Option<JsonV> {
    match recorded {
        Ok(Some(_)) => None,
        Ok(None) => Some(
            refusal(
                "no "@ + kind + "-request state file found for request_id `"@ + request_id + "` "@
                    + place + " `"@ + name + "`"@,
            ),
        ),
        Err(e) => Some(refusal("reading "@ + kind + "-request state: "@ + e@)),
    }
}

fn take_record<T>(
    recorded: Recorded<T>,
    kind: &str,
    request_id: &str,
    place: &str,
    name: &str,
) -> (r: Result<T, Json>)
    ensures
        match record_refusal(recorded, kind@, request_id@, place@, name@) {
            Some(j) => r matches Err(e) && e@ == j,
            None => r == Ok::<T, Json>(recorded->Ok_0->0),
        },
{
    match recorded {
        Ok(Some(t)) => Ok(t),
        Ok(None) => {
            let head = cat5(
                "no ",
                kind,
                "-request state file found for request_id `",
                request_id,
                "` ",
            );
            let why = cat5(head.as_str(), place, " `", name, "`");
            Err(refuse(why.as_str()))
        },
        Err(e) => {
            let why = cat4("reading ", kind, "-request state: ", e.as_str());
            Err(refuse(why.as_str()))
        },
    }
}

/// A proposal request that waits.
#[derive(Debug)]
pub struct ProposalRequest {
    pub request_id: String,
    pub channel: String,
    pub thread_ts: String,
    pub operator_user: String,
    pub request_text: String,
    pub submitted_at: Timestamp,
}

/// Queues a proposal request, whose record was written when it was made. It waits
/// once, however often it is delivered.
pub fn handle_queue_proposal_request(
    parsed: &Json,
    found: Found,
    recorded: Recorded<ProposalRequest>,
    live: bool,
    queue: &mut Vec<ProposalRequest>,
) -> (r: Json)
    ensures
        match lacks(parsed@, keys2("url"@, "request_id"@)) {
            Some(j) => r@ == j && final(queue)@ == old(queue)@,
            None => {
                let url = parsed@.str_at("url"@)->0;
                let id = parsed@.str_at("request_id"@)->0;
                match (found, record_refusal(
                    recorded,
                    "proposal"@,
                    id,
                    "under repo"@,
                    url,
                )) {
                    (Err(e), _) => r@ == refusal(e@) && final(queue)@ == old(queue)@,
                    (Ok(_), Some(j)) => r@ == j && final(queue)@ == old(queue)@,
                    (Ok(repo), None) => if live {
                        &&& r@ == queued_reply(url, "request_id"@, id, repo.poll_interval_sec)
                        &&& holds_once(
                            old(queue)@,
                            final(queue)@,
                            |q: ProposalRequest| q.request_id@ == id,
                            |q: ProposalRequest| q == recorded->Ok_0->0,
                        )
                    } else {
                        r@ == refusal(not_live(url)) && final(queue)@ == old(queue)@
                    },
                }
            },
        },
{
    let (url, request_id) = match read2(parsed, "url", "request_id") {
        Ok(p) => p,
        Err(e) => return e,
    };
    let record = take_record(recorded, "proposal", request_id.as_str(), "under repo", url.as_str());
    let is_dup = |q: &ProposalRequest| -> (b: bool)
        ensures
            b == (q.request_id@ == request_id@),
        { same_text(q.request_id.as_str(), request_id.as_str()) };
    match enqueue_request(found, url.as_str(), record, live, queue, is_dup) {
        Ok(repo) => {
            proof {
                lemma_queued(old(queue)@, queue@);
            }
            queued(url.as_str(), "request_id", request_id.as_str(), repo.poll_interval_sec)
        },
        Err(j) => j,
    }
}

/// A changelog request that waits.
#[derive(Debug)]
pub struct ChangelogRequest {
    pub request_id: String,
    pub repo_url: String,
    pub raw_args: String,
    pub channel: String,
    pub lifecycle_thread_ts: String,
    pub submitted_at: Timestamp,
}

/// Queues a changelog request, whose record was written when it was made. It waits
/// once, however often it is delivered.
pub fn handle_queue_changelog_request(
    parsed: &Json,
    found: Found,
    recorded: Recorded<ChangelogRequest>,
    live: bool,
    queue: &mut Vec<ChangelogRequest>,
) -> (r: Json)
    ensures
        match lacks(parsed@, keys2("url"@, "request_id"@)) {
            Some(j) => r@ == j && final(queue)@ == old(queue)@,
            None => {
                let url = parsed@.str_at("url"@)->0;
                let id = parsed@.str_at("request_id"@)->0;
                match (found, record_refusal(
                    recorded,
                    "changelog"@,
                    id,
                    "under repo"@,
                    url,
                )) {
                    (Err(e), _) => r@ == refusal(e@) && final(queue)@ == old(queue)@,
                    (Ok(_), Some(j)) => r@ == j && final(queue)@ == old(queue)@,
                    (Ok(repo), None) => if live {
                        &&& r@ == queued_reply(url, "request_id"@, id, repo.poll_interval_sec)
                        &&& holds_once(
                            old(queue)@,
                            final(queue)@,
                            |q: ChangelogRequest| q.request_id@ == id,
                            |q: ChangelogRequest| q == recorded->Ok_0->0,
                        )
                    } else {
                        r@ == refusal(not_live(url)) && final(queue)@ == old(queue)@
                    },
                }
            },
        },
{
    let (url, request_id) = match read2(parsed, "url", "request_id") {
        Ok(p) => p,
        Err(e) => return e,
    };
    let record = take_record(recorded, "changelog", request_id.as_str(), "under repo", url.as_str());
    let is_dup = |q: &ChangelogRequest| -> (b: bool)
        ensures
            b == (q.request_id@ == request_id@),
        { same_text(q.request_id.as_str(), request_id.as_str()) };
    match enqueue_request(found, url.as_str(), record, live, queue, is_dup) {
        Ok(repo) => {
            proof {
                lemma_queued(old(queue)@, queue@);
            }
            queued(url.as_str(), "request_id", request_id.as_str(), repo.poll_interval_sec)
        },
        Err(j) => j,
    }
}

/// A brownfield request that waits.
#[derive(Debug)]
pub struct BrownfieldRequest {
    pub request_id: String,
    pub repo_url: String,
    pub capability_name: String,
    pub guidance: Option<String>,
    pub channel: String,
    pub thread_ts: String,
    pub submitted_at: Timestamp,
}

/// Queues a brownfield request, whose record was written when it was made. It waits
/// once, however often it is delivered.
pub fn handle_queue_brownfield_request(
    parsed: &Json,
    found: Found,
    recorded: Recorded<BrownfieldRequest>,
    live: bool,
    queue: &mut VecDeque<BrownfieldRequest>,
) -> (r: Json)
    ensures
        match lacks(parsed@, keys2("url"@, "request_id"@)) {
            Some(j) => r@ == j && final(queue)@ == old(queue)@,
            None => {
                let url = parsed@.str_at("url"@)->0;
                let id = parsed@.str_at("request_id"@)->0;
                match (found, record_refusal(
                    recorded,
                    "brownfield"@,
                    id,
                    "under workspace"@,
                    match found {
                        Ok(repo) => repo.workspace@,
                        Err(_) => Seq::empty(),
                    },
                )) {
                    (Err(e), _) => r@ == refusal(e@) && final(queue)@ == old(queue)@,
                    (Ok(_), Some(j)) => r@ == j && final(queue)@ == old(queue)@,
                    (Ok(repo), None) => if live {
                        &&& r@ == queued_reply(url, "request_id"@, id, repo.poll_interval_sec)
                        &&& holds_once(
                            old(queue)@,
                            final(queue)@,
                            |q: BrownfieldRequest| q.request_id@ == id,
                            |q: BrownfieldRequest| q == recorded->Ok_0->0,
                        )
                    } else {
                        r@ == refusal(not_live(url)) && final(queue)@ == old(queue)@
                    },
                }
            },
        },
{
    let (url, request_id) = match read2(parsed, "url", "request_id") {
        Ok(p) => p,
        Err(e) => return e,
    };
    let place = match &found {
        Ok(repo) => repo.workspace.clone(),
        Err(_) => String::new(),
    };
    let record = take_record(recorded, "brownfield", request_id.as_str(), "under workspace", place.as_str());
    let is_dup = |q: &BrownfieldRequest| -> (b: bool)
        ensures
            b == (q.request_id@ == request_id@),
        { same_text(q.request_id.as_str(), request_id.as_str()) };
    match enqueue_request(found, url.as_str(), record, live, queue, is_dup) {
        Ok(repo) => {
            proof {
                lemma_queued(old(queue)@, queue@);
            }
            queued(url.as_str(), "request_id", request_id.as_str(), repo.poll_interval_sec)
        },
        Err(j) => j,
    }
}

/// A request to scout a repository for work.
#[derive(Debug)]
pub struct ScoutRequest {
    pub request_id: String,
    pub repo_url: String,
    pub guidance: Option<String>,
    pub channel: String,
    pub thread_ts: String,
    pub submitted_at: Timestamp,
}

/// Whether a record says what the request says.
pub open spec fn is_scout(q: ScoutRequest, v: JsonV, now: Timestamp) -> bool {
    &&& v.str_at("request_id"@) == Some(q.request_id@)
    &&& v.str_at("url"@) == Some(q.repo_url@)
    &&& opt_text(q.guidance) == v.str_at("guidance"@)
    &&& v.str_at("channel"@) == Some(q.channel@)
    &&& v.str_at("thread_ts"@) == Some(q.thread_ts@)
    &&& q.submitted_at == now
}

/// Queues the request. It waits once, however often it is delivered.
pub fn handle_queue_scout_request(
    parsed: &Json,
    found: Found,
    live: bool,
    queue: &mut VecDeque<ScoutRequest>,
    now: Timestamp,
) -> (r: Json)
    ensures
        match lacks(parsed@, keys4("url"@, "request_id"@, "channel"@, "thread_ts"@)) {
            Some(j) => r@ == j && final(queue)@ == old(queue)@,
            None => {
                let url = parsed@.str_at("url"@)->0;
                let id = parsed@.str_at("request_id"@)->0;
                match found {
                    Err(e) => r@ == refusal(e@) && final(queue)@ == old(queue)@,
                    Ok(repo) => if live {
                        &&& r@ == queued_reply(url, "request_id"@, id, repo.poll_interval_sec)
                        &&& holds_once(
                            old(queue)@,
                            final(queue)@,
                            |q: ScoutRequest| q.request_id@ == id,
                            |q: ScoutRequest| is_scout(q, parsed@, now),
                        )
                    } else {
                        r@ == refusal(not_live(url)) && final(queue)@ == old(queue)@
                    },
                }
            },
        },
{
    let (url, request_id, channel, thread_ts) = match read4(parsed, "url", "request_id", "channel", "thread_ts") {
        Ok(p) => p,
        Err(e) => return e,
    };
    let guidance = parsed.get_str("guidance");
    let record = ScoutRequest {
        request_id: request_id.clone(),
        repo_url: url.clone(),
        guidance,
        channel,
        thread_ts,
        submitted_at: now,
    };
    let is_dup = |q: &ScoutRequest| -> (b: bool)
        ensures
            b == (q.request_id@ == request_id@),
        { same_text(q.request_id.as_str(), request_id.as_str()) };
    match enqueue_request(found, url.as_str(), Ok(record), live, queue, is_dup) {
        Ok(repo) => {
            proof {
                lemma_queued(old(queue)@, queue@);
            }
            queued(url.as_str(), "request_id", request_id.as_str(), repo.poll_interval_sec)
        },
        Err(j) => j,
    }
}

/// A request to bring a fork up to its upstream.
#[derive(Debug)]
pub struct SyncUpstreamRequest {
    pub request_id: String,
    pub repo_url: String,
    pub channel: String,
    pub thread_ts: String,
    pub submitted_at: Timestamp,
}

/// Whether a record says what the request says.
pub open spec fn is_sync(q: SyncUpstreamRequest, v: JsonV, now: Timestamp) -> bool {
    &&& v.str_at("request_id"@) == Some(q.request_id@)
    &&& v.str_at("url"@) == Some(q.repo_url@)
    &&& v.str_at("channel"@) == Some(q.channel@)
    &&& q.thread_ts@ == v.str_or_empty("thread_ts"@)
    &&& q.submitted_at == now
}

/// Queues the request. It waits once, however often it is delivered.
pub fn handle_queue_sync_upstream_request(
    parsed: &Json,
    found: Found,
    live: bool,
    queue: &mut VecDeque<SyncUpstreamRequest>,
    now: Timestamp,
) -> (r: Json)
    ensures
        match lacks(parsed@, keys3("url"@, "request_id"@, "channel"@)) {
            Some(j) => r@ == j && final(queue)@ == old(queue)@,
            None => {
                let url = parsed@.str_at("url"@)->0;
                let id = parsed@.str_at("request_id"@)->0;
                match found {
                    Err(e) => r@ == refusal(e@) && final(queue)@ == old(queue)@,
                    Ok(repo) => if live {
                        &&& r@ == queued_reply(url, "request_id"@, id, repo.poll_interval_sec)
                        &&& holds_once(
                            old(queue)@,
                            final(queue)@,
                            |q: SyncUpstreamRequest| q.request_id@ == id,
                            |q: SyncUpstreamRequest| is_sync(q, parsed@, now),
                        )
                    } else {
                        r@ == refusal(not_live(url)) && final(queue)@ == old(queue)@
                    },
                }
            },
        },
{
    let (url, request_id, channel) = match read3(parsed, "url", "request_id", "channel") {
        Ok(p) => p,
        Err(e) => return e,
    };
    let thread_ts = parsed.get_str_or_empty("thread_ts");
    let record = SyncUpstreamRequest {
        request_id: request_id.clone(),
        repo_url: url.clone(),
        channel,
        thread_ts: thread_ts.clone(),
        submitted_at: now,
    };
    let is_dup = |q: &SyncUpstreamRequest| -> (b: bool)
        ensures
            b == (q.request_id@ == request_id@),
        { same_text(q.request_id.as_str(), request_id.as_str()) };
    match enqueue_request(found, url.as_str(), Ok(record), live, queue, is_dup) {
        Ok(repo) => {
            proof {
                lemma_queued(old(queue)@, queue@);
            }
            queued(url.as_str(), "request_id", request_id.as_str(), repo.poll_interval_sec)
        },
        Err(j) => j,
    }
}

/// A request to survey what a repository does.
#[derive(Debug)]
pub struct BrownfieldSurveyRequest {
    pub request_id: String,
    pub repo_url: String,
    pub guidance: Option<String>,
    pub channel: String,
    pub thread_ts: String,
    pub submitted_at: Timestamp,
}

/// Whether a record says what the request says.
pub open spec fn is_survey(q: BrownfieldSurveyRequest, v: JsonV, now: Timestamp) -> bool {
    &&& v.str_at("request_id"@) == Some(q.request_id@)
    &&& v.str_at("url"@) == Some(q.repo_url@)
    &&& opt_text(q.guidance) == v.str_at("guidance"@)
    &&& v.str_at("channel"@) == Some(q.channel@)
    &&& v.str_at("thread_ts"@) == Some(q.thread_ts@)
    &&& q.submitted_at == now
}

/// Queues the request. It waits once, however often it is delivered.
pub fn handle_queue_brownfield_survey_request(
    parsed: &Json,
    found: Found,
    live: bool,
    queue: &mut VecDeque<BrownfieldSurveyRequest>,
    now: Timestamp,
) -> (r: Json)
    ensures
        match lacks(parsed@, keys4("url"@, "request_id"@, "channel"@, "thread_ts"@)) {
            Some(j) => r@ == j && final(queue)@ == old(queue)@,
            None => {
                let url = parsed@.str_at("url"@)->0;
                let id = parsed@.str_at("request_id"@)->0;
                match found {
                    Err(e) => r@ == refusal(e@) && final(queue)@ == old(queue)@,
                    Ok(repo) => if live {
                        &&& r@ == queued_reply(url, "request_id"@, id, repo.poll_interval_sec)
                        &&& holds_once(
                            old(queue)@,
                            final(queue)@,
                            |q: BrownfieldSurveyRequest| q.request_id@ == id,
                            |q: BrownfieldSurveyRequest| is_survey(q, parsed@, now),
                        )
                    } else {
                        r@ == refusal(not_live(url)) && final(queue)@ == old(queue)@
                    },
                }
            },
        },
{
    let (url, request_id, channel, thread_ts) = match read4(parsed, "url", "request_id", "channel", "thread_ts") {
        Ok(p) => p,
        Err(e) => return e,
    };
    let guidance = parsed.get_str("guidance");
    let record = BrownfieldSurveyRequest {
        request_id: request_id.clone(),
        repo_url: url.clone(),
        guidance,
        channel,
        thread_ts,
        submitted_at: now,
    };
    let is_dup = |q: &BrownfieldSurveyRequest| -> (b: bool)
        ensures
            b == (q.request_id@ == request_id@),
        { same_text(q.request_id.as_str(), request_id.as_str()) };
    match enqueue_request(found, url.as_str(), Ok(record), live, queue, is_dup) {
        Ok(repo) => {
            proof {
                lemma_queued(old(queue)@, queue@);
            }
            queued(url.as_str(), "request_id", request_id.as_str(), repo.poll_interval_sec)
        },
        Err(j) => j,
    }
}

/// A request to work off a survey.
#[derive(Debug)]
pub struct BrownfieldBatchRequest {
    pub repo_url: String,
    pub survey_request_id: String,
    pub channel: String,
    pub thread_ts: String,
    pub submitted_at: Timestamp,
}

/// Whether a record says what the request says.
pub open spec fn is_batch(q: BrownfieldBatchRequest, v: JsonV, now: Timestamp) -> bool {
    &&& v.str_at("url"@) == Some(q.repo_url@)
    &&& v.str_at("survey_request_id"@) == Some(q.survey_request_id@)
    &&& v.str_at("channel"@) == Some(q.channel@)
    &&& v.str_at("thread_ts"@) == Some(q.thread_ts@)
    &&& q.submitted_at == now
}

/// Queues the request. It waits once, however often it is delivered.
pub fn handle_queue_brownfield_batch_request(
    parsed: &Json,
    found: Found,
    live: bool,
    queue: &mut VecDeque<BrownfieldBatchRequest>,
    now: Timestamp,
) -> (r: Json)
    ensures
        match lacks(parsed@, keys4("url"@, "survey_request_id"@, "channel"@, "thread_ts"@)) {
            Some(j) => r@ == j && final(queue)@ == old(queue)@,
            None => {
                let url = parsed@.str_at("url"@)->0;
                let id = parsed@.str_at("survey_request_id"@)->0;
                match found {
                    Err(e) => r@ == refusal(e@) && final(queue)@ == old(queue)@,
                    Ok(repo) => if live {
                        &&& r@ == queued_reply(url, "survey_request_id"@, id, repo.poll_interval_sec)
                        &&& holds_once(
                            old(queue)@,
                            final(queue)@,
                            |q: BrownfieldBatchRequest| q.survey_request_id@ == id,
                            |q: BrownfieldBatchRequest| is_batch(q, parsed@, now),
                        )
                    } else {
                        r@ == refusal(not_live(url)) && final(queue)@ == old(queue)@
                    },
                }
            },
        },
{
    let (url, survey_request_id, channel, thread_ts) = match read4(parsed, "url", "survey_request_id", "channel", "thread_ts") {
        Ok(p) => p,
        Err(e) => return e,
    };
    let record = BrownfieldBatchRequest {
        repo_url: url.clone(),
        survey_request_id: survey_request_id.clone(),
        channel,
        thread_ts,
        submitted_at: now,
    };
    let is_dup = |q: &BrownfieldBatchRequest| -> (b: bool)
        ensures
            b == (q.survey_request_id@ == survey_request_id@),
        { same_text(q.survey_request_id.as_str(), survey_request_id.as_str()) };
    match enqueue_request(found, url.as_str(), Ok(record), live, queue, is_dup) {
        Ok(repo) => {
            proof {
                lemma_queued(old(queue)@, queue@);
            }
            queued(url.as_str(), "survey_request_id", survey_request_id.as_str(), repo.poll_interval_sec)
        },
        Err(j) => j,
    }
}

/// A request for advice on the revision of a change.
#[derive(Debug)]
pub struct RevisionAdviseRequest {
    pub repo_url: String,
    pub change_slug: String,
    pub channel: String,
    pub thread_ts: String,
    pub reply_text: String,
    pub submitted_at: Timestamp,
}

/// Whether a record says what the request says.
pub open spec fn is_advise(q: RevisionAdviseRequest, v: JsonV, now: Timestamp) -> bool {
    &&& v.str_at("url"@) == Some(q.repo_url@)
    &&& v.str_at("change"@) == Some(q.change_slug@)
    &&& v.str_at("channel"@) == Some(q.channel@)
    &&& v.str_at("thread_ts"@) == Some(q.thread_ts@)
    &&& q.reply_text@ == v.str_or_empty("reply_text"@)
    &&& q.submitted_at == now
}

/// Queues the request. It waits once for each change and text.
pub fn handle_revision_advise(
    parsed: &Json,
    found: Found,
    live: bool,
    queue: &mut VecDeque<RevisionAdviseRequest>,
    now: Timestamp,
) -> (r: Json)
    ensures
        match lacks(parsed@, keys4("url"@, "change"@, "channel"@, "thread_ts"@)) {
            Some(j) => r@ == j && final(queue)@ == old(queue)@,
            None => {
                let url = parsed@.str_at("url"@)->0;
                let id = parsed@.str_at("change"@)->0;
                match found {
                    Err(e) => r@ == refusal(e@) && final(queue)@ == old(queue)@,
                    Ok(repo) => if live {
                        &&& r@ == queued_reply(url, "change"@, id, repo.poll_interval_sec)
                        &&& holds_once(
                            old(queue)@,
                            final(queue)@,
                            |q: RevisionAdviseRequest| q.change_slug@ == id && q.reply_text@ == parsed@.str_or_empty("reply_text"@),
                            |q: RevisionAdviseRequest| is_advise(q, parsed@, now),
                        )
                    } else {
                        r@ == refusal(not_live(url)) && final(queue)@ == old(queue)@
                    },
                }
            },
        },
{
    let (url, change, channel, thread_ts) = match read4(parsed, "url", "change", "channel", "thread_ts") {
        Ok(p) => p,
        Err(e) => return e,
    };
    let reply_text = parsed.get_str_or_empty("reply_text");
    let record = RevisionAdviseRequest {
        repo_url: url.clone(),
        change_slug: change.clone(),
        channel,
        thread_ts,
        reply_text: reply_text.clone(),
        submitted_at: now,
    };
    let is_dup = |q: &RevisionAdviseRequest| -> (b: bool)
        ensures
            b == (q.change_slug@ == change@ && q.reply_text@ == reply_text@),
        { same_text(q.change_slug.as_str(), change.as_str()) && same_text(
                q.reply_text.as_str(),
                reply_text.as_str(),
            ) };
    match enqueue_request(found, url.as_str(), Ok(record), live, queue, is_dup) {
        Ok(repo) => {
            proof {
                lemma_queued(old(queue)@, queue@);
            }
            queued(url.as_str(), "change", change.as_str(), repo.poll_interval_sec)
        },
        Err(j) => j,
    }
}

/// A request to revise a change.
#[derive(Debug)]
pub struct RevisionExecuteRequest {
    pub repo_url: String,
    pub change_slug: String,
    pub channel: String,
    pub thread_ts: String,
    pub submitted_at: Timestamp,
}

/// Whether a record says what the request says.
pub open spec fn is_execute(q: RevisionExecuteRequest, v: JsonV, now: Timestamp) -> bool {
    &&& v.str_at("url"@) == Some(q.repo_url@)
    &&& v.str_at("change"@) == Some(q.change_slug@)
    &&& v.str_at("channel"@) == Some(q.channel@)
    &&& v.str_at("thread_ts"@) == Some(q.thread_ts@)
    &&& q.submitted_at == now
}

/// Queues the request. It waits once for each change.
pub fn handle_revision_execute(
    parsed: &Json,
    found: Found,
    live: bool,
    queue: &mut VecDeque<RevisionExecuteRequest>,
    now: Timestamp,
) -> (r: Json)
    ensures
        match lacks(parsed@, keys4("url"@, "change"@, "channel"@, "thread_ts"@)) {
            Some(j) => r@ == j && final(queue)@ == old(queue)@,
            None => {
                let url = parsed@.str_at("url"@)->0;
                let id = parsed@.str_at("change"@)->0;
                match found {
                    Err(e) => r@ == refusal(e@) && final(queue)@ == old(queue)@,
                    Ok(repo) => if live {
                        &&& r@ == queued_reply(url, "change"@, id, repo.poll_interval_sec)
                        &&& holds_once(
                            old(queue)@,
                            final(queue)@,
                            |q: RevisionExecuteRequest| q.change_slug@ == id,
                            |q: RevisionExecuteRequest| is_execute(q, parsed@, now),
                        )
                    } else {
                        r@ == refusal(not_live(url)) && final(queue)@ == old(queue)@
                    },
                }
            },
        },
{
    let (url, change, channel, thread_ts) = match read4(parsed, "url", "change", "channel", "thread_ts") {
        Ok(p) => p,
        Err(e) => return e,
    };
    let record = RevisionExecuteRequest {
        repo_url: url.clone(),
        change_slug: change.clone(),
        channel,
        thread_ts,
        submitted_at: now,
    };
    let is_dup = |q: &RevisionExecuteRequest| -> (b: bool)
        ensures
            b == (q.change_slug@ == change@),
        { same_text(q.change_slug.as_str(), change.as_str()) };
    match enqueue_request(found, url.as_str(), Ok(record), live, queue, is_dup) {
        Ok(repo) => {
            proof {
                lemma_queued(old(queue)@, queue@);
            }
            queued(url.as_str(), "change", change.as_str(), repo.poll_interval_sec)
        },
        Err(j) => j,
    }
}

/// A request to turn a scouted item into a specification.
#[derive(Debug)]
pub struct SpecItRequest {
    pub repo_url: String,
    pub scout_request_id: String,
    pub item_id: u64,
    pub guidance: Option<String>,
    pub channel: String,
    pub thread_ts: String,
    pub submitted_at: Timestamp,
}

/// Whether a record says what the request says.
pub open spec fn is_spec_it(q: SpecItRequest, v: JsonV, now: Timestamp) -> bool {
    &&& v.str_at("url"@) == Some(q.repo_url@)
    &&& v.str_at("scout_request_id"@) == Some(q.scout_request_id@)
    &&& v.u64_at("item_id"@) == Some(q.item_id)
    &&& opt_text(q.guidance) == v.str_at("guidance"@)
    &&& v.str_at("channel"@) == Some(q.channel@)
    &&& v.str_at("thread_ts"@) == Some(q.thread_ts@)
    &&& q.submitted_at == now
}

/// The refusal of a request to turn an item into a specification that lacks a
/// field; it names the first that is missing.
pub open spec fn spec_it_lacks(v: JsonV) -> Option<JsonV> {
    match lacks(v, keys2("url"@, "scout_request_id"@)) {
        Some(j) => Some(j),
        None => if v.u64_at("item_id"@) is None {
            Some(refusal("missing `item_id` field"@))
        } else {
            lacks(v, keys2("channel"@, "thread_ts"@))
        },
    }
}

/// Queues the request. Each selection waits, also one that was made before.
pub fn handle_queue_spec_it_request(
    parsed: &Json,
    found: Found,
    live: bool,
    queue: &mut VecDeque<SpecItRequest>,
    now: Timestamp,
) -> (r: Json)
    ensures
        match spec_it_lacks(parsed@) {
            Some(j) => r@ == j && final(queue)@ == old(queue)@,
            None => {
                let url = parsed@.str_at("url"@)->0;
                match found {
                    Err(e) => r@ == refusal(e@) && final(queue)@ == old(queue)@,
                    Ok(repo) => if live {
                        &&& r@ == obj().flag("ok"@, true).text("url"@, url).number(
                            "poll_interval_sec"@,
                            repo.poll_interval_sec,
                        ).done()
                        &&& final(queue)@.len() == old(queue)@.len() + 1
                        &&& final(queue)@.drop_last() == old(queue)@
                        &&& is_spec_it(final(queue)@.last(), parsed@, now)
                    } else {
                        r@ == refusal(not_live(url)) && final(queue)@ == old(queue)@
                    },
                }
            },
        },
{
    let (url, scout_request_id) = match read2(parsed, "url", "scout_request_id") {
        Ok(p) => p,
        Err(e) => return e,
    };
    let item_id: u64 = match parsed.get_u64("item_id") {
        Some(n) => n,
        None => return refuse("missing `item_id` field"),
    };
    let (channel, thread_ts) = match read2(parsed, "channel", "thread_ts") {
        Ok(p) => p,
        Err(e) => return e,
    };
    let guidance = parsed.get_str("guidance");
    let record = SpecItRequest {
        repo_url: url.clone(),
        scout_request_id,
        item_id,
        guidance,
        channel,
        thread_ts,
        submitted_at: now,
    };
    let never = |_q: &SpecItRequest| -> (b: bool)
        ensures
            !b,
        { false };
    match enqueue_request(found, url.as_str(), Ok(record), live, queue, never) {
        Ok(repo) => {
            proof {
                lemma_queued(old(queue)@, queue@);
            }
            Fields::new().flag("ok", true).text("url", url.as_str()).number(
                "poll_interval_sec",
                repo.poll_interval_sec,
            ).finish()
        },
        Err(j) => j,
    }
}

/// What is told of stored state that was cleared: how many files went, or why
/// they could not be cleared.
pub open spec fn cleared_reply(
    v: JsonV,
    found: Found,
    kind: Seq<char>,
    cleared: Result<u64, String>,
) -> JsonV {
    match v.str_at("url"@) {
        None => refusal(missing_field("url"@)),
        Some(url) => match (found, cleared) {
            (Err(e), _) => refusal(e@),
            (Ok(_), Err(e)) => refusal("clearing "@ + kind + " state: "@ + e@),
            (Ok(_), Ok(n)) => obj().flag("ok"@, true).text("url"@, url).number(
                "cleared"@,
                n,
            ).done(),
        },
    }
}

/// Reports that the stored state of a kind was cleared.
fn clear_state_files(
    parsed: &Json,
    found: Found,
    kind: &str,
    cleared: Result<u64, String>,
) -> (r: Json)
    ensures
        r@ == cleared_reply(parsed@, found, kind@, cleared),
{
    let url = match require(parsed, "url") {
        Ok(s) => s,
        Err(e) => return e,
    };
    if let Err(e) = &found {
        return refuse(e.as_str());
    }
    match cleared {
        Ok(n) => Fields::new().flag("ok", true).text("url", url.as_str()).number(
            "cleared",
            n,
        ).finish(),
        Err(e) => refuse(cat4("clearing ", kind, " state: ", e.as_str()).as_str()),
    }
}

/// Reports that the scout runs of a repository were cleared.
pub fn handle_queue_clear_scout(parsed: &Json, found: Found, cleared: Result<u64, String>) -> (r: Json)
    ensures
        r@ == cleared_reply(parsed@, found, "scout"@, cleared),
{
    clear_state_files(parsed, found, "scout", cleared)
}

/// Reports that the surveys of a repository were cleared.
pub fn handle_queue_clear_survey(parsed: &Json, found: Found, cleared: Result<u64, String>) -> (r: Json)
    ensures
        r@ == cleared_reply(parsed@, found, "brownfield-survey"@, cleared),
{
    clear_state_files(parsed, found, "brownfield-survey", cleared)
}

/// Whether no two requests of a queue go by the same name.
pub open spec fn all_distinct<T>(queue: Seq<T>, key: spec_fn(T) -> Seq<char>) -> bool {
    forall|i: int, j: int|
        0 <= i < j < queue.len() ==> key(#[trigger] queue[i]) != key(#[trigger] queue[j])
}

/// A queue in which every request waits once stays so, and keeps the order of
/// arrival: what was there stays in front, as it was.
pub proof fn requests_wait_once<T>(
    before: Seq<T>,
    after: Seq<T>,
    key: spec_fn(T) -> Seq<char>,
    id: Seq<char>,
    fresh: spec_fn(T) -> bool,
)
    requires
        all_distinct(before, key),
        holds_once(before, after, |q: T| key(q) == id, fresh),
        forall|q: T| #[trigger] fresh(q) ==> key(q) == id,
    ensures
        all_distinct(after, key),
        before.is_prefix_of(after),
        exists|i: int| 0 <= i < after.len() && key(#[trigger] after[i]) == id,
{
    let same = |q: T| key(q) == id;
    if exists|i: int| 0 <= i < before.len() && same(#[trigger] before[i]) {
        let i = choose|i: int| 0 <= i < before.len() && same(#[trigger] before[i]);
        assert(key(after[i]) == id);
        assert(before =~= after.subrange(0, before.len() as int));
    } else {
        assert forall|i: int| 0 <= i < before.len() implies after[i] == before[i] by {
            assert(after.drop_last()[i] == after[i]);
        }
        assert(key(after[after.len() - 1]) == id);
        assert forall|i: int, j: int| 0 <= i < j < after.len() implies key(#[trigger] after[i])
            != key(#[trigger] after[j]) by {
            assert(after[i] == before[i]);
            if j < before.len() {
                assert(after[j] == before[j]);
                assert(key(before[i]) != key(before[j]));
            } else {
                assert(!same(before[i]));
            }
        }
        assert(before =~= after.subrange(0, before.len() as int));
    }
}

/// The names of the fields tell them apart.
proof fn lemma_field_names()
    ensures
        "ok"@.len() == 2,
        "url"@.len() == 3,
        "error"@.len() == 5,
        "change"@.len() == 6,
        "cleared"@.len() == 7,
        "request_id"@.len() == 10,
        "survey_request_id"@.len() == 17,
        "poll_interval_sec"@.len() == 17,
        "survey_request_id"@ != "poll_interval_sec"@,
{
    reveal_strlit("ok");
    reveal_strlit("url");
    reveal_strlit("request_id");
    reveal_strlit("survey_request_id");
    reveal_strlit("change");
    reveal_strlit("poll_interval_sec");
    reveal_strlit("error");
    reveal_strlit("cleared");
    assert("survey_request_id"@[0] != "poll_interval_sec"@[0]);
}

/// A proposal request waits exactly where it is complete and recorded, its repository is
/// known and has a pass to wait for; it waits once, behind those that wait already, with
/// all that it says.
pub proof fn a_proposal_waits_once(
    parsed: Json,
    found: Found,
    recorded: Recorded<ProposalRequest>,
    live: bool,
    queue: Ghost<&mut Vec<ProposalRequest>>,
    r: Json,
)
    requires
        call_ensures(handle_queue_proposal_request, (&parsed, found, recorded, live, queue@), r),
    ensures
        r@.bool_at("ok"@) == Some(parsed@.str_at("url"@) is Some
            && parsed@.str_at("request_id"@) is Some && found is Ok
            && (recorded matches Ok(Some(_))) && live),
        r@.bool_at("ok"@) == Some(false) ==> (*final(queue@))@ == (*queue@)@,
        parsed@.str_at("url"@) is None
            ==> r@.str_at("error"@) == Some("missing `"@ + "url"@ + "` field"@),
        parsed@.str_at("url"@) is Some && parsed@.str_at("request_id"@) is None
            ==> r@.str_at("error"@) == Some("missing `"@ + "request_id"@ + "` field"@),
        parsed@.str_at("url"@) is Some && parsed@.str_at("request_id"@) is Some
            ==> (found matches Err(e) ==> r@.str_at("error"@) == Some(e@)),
        parsed@.str_at("url"@) is Some && parsed@.str_at("request_id"@) is Some && found is Ok
            ==> (recorded matches Err(e) ==> r@.str_at("error"@) == Some(
            "reading "@ + "proposal"@ + "-request state: "@ + e@,
        )),
        parsed@.str_at("url"@) is Some && parsed@.str_at("request_id"@) is Some && found is Ok
            && (recorded matches Ok(None)) ==> r@.str_at("error"@) == Some(
            "no "@ + "proposal"@ + "-request state file found for request_id `"@
                + parsed@.str_at("request_id"@)->0
                + "` "@ + "under repo"@ + " `"@ + parsed@.str_at("url"@)->0 + "`"@,
        ),
        parsed@.str_at("url"@) is Some && parsed@.str_at("request_id"@) is Some && found is Ok
            && (recorded matches Ok(Some(_))) && !live ==> r@.str_at("error"@) == Some(
            "no live polling task for `"@ + parsed@.str_at("url"@)->0
                + "` (daemon may not have spawned it yet)"@,
        ),
        r@.bool_at("ok"@) == Some(true) ==> {
            let before = (*queue@)@;
            let after = (*final(queue@))@;
            &&& r@.str_at("url"@) == parsed@.str_at("url"@)
            &&& r@.u64_at("poll_interval_sec"@) == Some(found->Ok_0.poll_interval_sec)
            &&& r@.str_at("request_id"@) == parsed@.str_at("request_id"@)
            &&& (exists|i: int| 0 <= i < before.len()
                && Some((#[trigger] before[i]).request_id@) == parsed@.str_at("request_id"@))
                ==> after == before
            &&& (forall|i: int| 0 <= i < before.len()
                ==> !(Some((#[trigger] before[i]).request_id@) == parsed@.str_at("request_id"@)))
                ==> {
                &&& after.len() == before.len() + 1
                &&& after.drop_last() == before
                &&& after.last() == recorded->Ok_0->0
            }
        },
{
    broadcast use {lemma_get_with, lemma_get_empty};

    lemma_field_names();
    assert forall|why: Seq<char>|
        (#[trigger] refusal(why)).bool_at("ok"@) == Some(false) && refusal(why).str_at("error"@)
            == Some(why) by {
        a_refusal_says_why(why);
    }
    lemma_lacks(parsed@, "url"@, "request_id"@, "url"@, "url"@);
    let before = (*queue@)@;
    let after = (*final(queue@))@;
}

/// A changelog request waits exactly where it is complete and recorded, its repository is
/// known and has a pass to wait for; it waits once, behind those that wait already, with
/// all that it says.
pub proof fn a_changelog_waits_once(
    parsed: Json,
    found: Found,
    recorded: Recorded<ChangelogRequest>,
    live: bool,
    queue: Ghost<&mut Vec<ChangelogRequest>>,
    r: Json,
)
    requires
        call_ensures(handle_queue_changelog_request, (&parsed, found, recorded, live, queue@), r),
    ensures
        r@.bool_at("ok"@) == Some(parsed@.str_at("url"@) is Some
            && parsed@.str_at("request_id"@) is Some && found is Ok
            && (recorded matches Ok(Some(_))) && live),
        r@.bool_at("ok"@) == Some(false) ==> (*final(queue@))@ == (*queue@)@,
        parsed@.str_at("url"@) is None
            ==> r@.str_at("error"@) == Some("missing `"@ + "url"@ + "` field"@),
        parsed@.str_at("url"@) is Some && parsed@.str_at("request_id"@) is None
            ==> r@.str_at("error"@) == Some("missing `"@ + "request_id"@ + "` field"@),
        parsed@.str_at("url"@) is Some && parsed@.str_at("request_id"@) is Some
            ==> (found matches Err(e) ==> r@.str_at("error"@) == Some(e@)),
        parsed@.str_at("url"@) is Some && parsed@.str_at("request_id"@) is Some && found is Ok
            ==> (recorded matches Err(e) ==> r@.str_at("error"@) == Some(
            "reading "@ + "changelog"@ + "-request state: "@ + e@,
        )),
        parsed@.str_at("url"@) is Some && parsed@.str_at("request_id"@) is Some && found is Ok
            && (recorded matches Ok(None)) ==> r@.str_at("error"@) == Some(
            "no "@ + "changelog"@ + "-request state file found for request_id `"@
                + parsed@.str_at("request_id"@)->0
                + "` "@ + "under repo"@ + " `"@ + parsed@.str_at("url"@)->0 + "`"@,
        ),
        parsed@.str_at("url"@) is Some && parsed@.str_at("request_id"@) is Some && found is Ok
            && (recorded matches Ok(Some(_))) && !live ==> r@.str_at("error"@) == Some(
            "no live polling task for `"@ + parsed@.str_at("url"@)->0
                + "` (daemon may not have spawned it yet)"@,
        ),
        r@.bool_at("ok"@) == Some(true) ==> {
            let before = (*queue@)@;
            let after = (*final(queue@))@;
            &&& r@.str_at("url"@) == parsed@.str_at("url"@)
            &&& r@.u64_at("poll_interval_sec"@) == Some(found->Ok_0.poll_interval_sec)
            &&& r@.str_at("request_id"@) == parsed@.str_at("request_id"@)
            &&& (exists|i: int| 0 <= i < before.len()
                && Some((#[trigger] before[i]).request_id@) == parsed@.str_at("request_id"@))
                ==> after == before
            &&& (forall|i: int| 0 <= i < before.len()
                ==> !(Some((#[trigger] before[i]).request_id@) == parsed@.str_at("request_id"@)))
                ==> {
                &&& after.len() == before.len() + 1
                &&& after.drop_last() == before
                &&& after.last() == recorded->Ok_0->0
            }
        },
{
    broadcast use {lemma_get_with, lemma_get_empty};

    lemma_field_names();
    assert forall|why: Seq<char>|
        (#[trigger] refusal(why)).bool_at("ok"@) == Some(false) && refusal(why).str_at("error"@)
            == Some(why) by {
        a_refusal_says_why(why);
    }
    lemma_lacks(parsed@, "url"@, "request_id"@, "url"@, "url"@);
    let before = (*queue@)@;
    let after = (*final(queue@))@;
}

/// A brownfield request waits exactly where it is complete and recorded, its repository is
/// known and has a pass to wait for; it waits once, behind those that wait already, with
/// all that it says.
pub proof fn a_brownfield_request_waits_once(
    parsed: Json,
    found: Found,
    recorded: Recorded<BrownfieldRequest>,
    live: bool,
    queue: Ghost<&mut VecDeque<BrownfieldRequest>>,
    r: Json,
)
    requires
        call_ensures(handle_queue_brownfield_request, (&parsed, found, recorded, live, queue@), r),
    ensures
        r@.bool_at("ok"@) == Some(parsed@.str_at("url"@) is Some
            && parsed@.str_at("request_id"@) is Some && found is Ok
            && (recorded matches Ok(Some(_))) && live),
        r@.bool_at("ok"@) == Some(false) ==> (*final(queue@))@ == (*queue@)@,
        parsed@.str_at("url"@) is None
            ==> r@.str_at("error"@) == Some("missing `"@ + "url"@ + "` field"@),
        parsed@.str_at("url"@) is Some && parsed@.str_at("request_id"@) is None
            ==> r@.str_at("error"@) == Some("missing `"@ + "request_id"@ + "` field"@),
        parsed@.str_at("url"@) is Some && parsed@.str_at("request_id"@) is Some
            ==> (found matches Err(e) ==> r@.str_at("error"@) == Some(e@)),
        parsed@.str_at("url"@) is Some && parsed@.str_at("request_id"@) is Some && found is Ok
            ==> (recorded matches Err(e) ==> r@.str_at("error"@) == Some(
            "reading "@ + "brownfield"@ + "-request state: "@ + e@,
        )),
        parsed@.str_at("url"@) is Some && parsed@.str_at("request_id"@) is Some && found is Ok
            && (recorded matches Ok(None)) ==> r@.str_at("error"@) == Some(
            "no "@ + "brownfield"@ + "-request state file found for request_id `"@
                + parsed@.str_at("request_id"@)->0
                + "` "@ + "under workspace"@ + " `"@ + found->Ok_0.workspace@ + "`"@,
        ),
        parsed@.str_at("url"@) is Some && parsed@.str_at("request_id"@) is Some && found is Ok
            && (recorded matches Ok(Some(_))) && !live ==> r@.str_at("error"@) == Some(
            "no live polling task for `"@ + parsed@.str_at("url"@)->0
                + "` (daemon may not have spawned it yet)"@,
        ),
        r@.bool_at("ok"@) == Some(true) ==> {
            let before = (*queue@)@;
            let after = (*final(queue@))@;
            &&& r@.str_at("url"@) == parsed@.str_at("url"@)
            &&& r@.u64_at("poll_interval_sec"@) == Some(found->Ok_0.poll_interval_sec)
            &&& r@.str_at("request_id"@) == parsed@.str_at("request_id"@)
            &&& (exists|i: int| 0 <= i < before.len()
                && Some((#[trigger] before[i]).request_id@) == parsed@.str_at("request_id"@))
                ==> after == before
            &&& (forall|i: int| 0 <= i < before.len()
                ==> !(Some((#[trigger] before[i]).request_id@) == parsed@.str_at("request_id"@)))
                ==> {
                &&& after.len() == before.len() + 1
                &&& after.drop_last() == before
                &&& after.last() == recorded->Ok_0->0
            }
        },
{
    broadcast use {lemma_get_with, lemma_get_empty};

    lemma_field_names();
    assert forall|why: Seq<char>|
        (#[trigger] refusal(why)).bool_at("ok"@) == Some(false) && refusal(why).str_at("error"@)
            == Some(why) by {
        a_refusal_says_why(why);
    }
    lemma_lacks(parsed@, "url"@, "request_id"@, "url"@, "url"@);
    let before = (*queue@)@;
    let after = (*final(queue@))@;
}

/// A scout request waits exactly where it is complete, its repository is known and has a pass
/// to wait for; it waits once, behind those that wait already, with all that it says.
pub proof fn a_scout_waits_once(
    parsed: Json,
    found: Found,
    live: bool,
    queue: Ghost<&mut VecDeque<ScoutRequest>>,
    now: Timestamp,
    r: Json,
)
    requires
        call_ensures(handle_queue_scout_request, (&parsed, found, live, queue@, now), r),
    ensures
        r@.bool_at("ok"@) == Some(parsed@.str_at("url"@) is Some
            && parsed@.str_at("request_id"@) is Some && parsed@.str_at("channel"@) is Some
            && parsed@.str_at("thread_ts"@) is Some && found is Ok && live),
        r@.bool_at("ok"@) == Some(false) ==> (*final(queue@))@ == (*queue@)@,
        parsed@.str_at("url"@) is None
            ==> r@.str_at("error"@) == Some("missing `"@ + "url"@ + "` field"@),
        parsed@.str_at("url"@) is Some && parsed@.str_at("request_id"@) is None
            ==> r@.str_at("error"@) == Some("missing `"@ + "request_id"@ + "` field"@),
        parsed@.str_at("url"@) is Some && parsed@.str_at("request_id"@) is Some
            && parsed@.str_at("channel"@) is None
            ==> r@.str_at("error"@) == Some("missing `"@ + "channel"@ + "` field"@),
        parsed@.str_at("url"@) is Some && parsed@.str_at("request_id"@) is Some
            && parsed@.str_at("channel"@) is Some
            && parsed@.str_at("thread_ts"@) is None
            ==> r@.str_at("error"@) == Some("missing `"@ + "thread_ts"@ + "` field"@),
        parsed@.str_at("url"@) is Some && parsed@.str_at("request_id"@) is Some
            && parsed@.str_at("channel"@) is Some
            && parsed@.str_at("thread_ts"@) is Some ==> (found matches Err(e)
            ==> r@.str_at("error"@) == Some(e@)),
        parsed@.str_at("url"@) is Some && parsed@.str_at("request_id"@) is Some
            && parsed@.str_at("channel"@) is Some && parsed@.str_at("thread_ts"@) is Some
            && found is Ok && !live ==> r@.str_at("error"@) == Some(
            "no live polling task for `"@ + parsed@.str_at("url"@)->0
                + "` (daemon may not have spawned it yet)"@,
        ),
        r@.bool_at("ok"@) == Some(true) ==> {
            let before = (*queue@)@;
            let after = (*final(queue@))@;
            &&& r@.str_at("url"@) == parsed@.str_at("url"@)
            &&& r@.u64_at("poll_interval_sec"@) == Some(found->Ok_0.poll_interval_sec)
            &&& r@.str_at("request_id"@) == parsed@.str_at("request_id"@)
            &&& (exists|i: int| 0 <= i < before.len()
                && Some((#[trigger] before[i]).request_id@) == parsed@.str_at("request_id"@))
                ==> after == before
            &&& (forall|i: int| 0 <= i < before.len()
                ==> !(Some((#[trigger] before[i]).request_id@) == parsed@.str_at("request_id"@)))
                ==> {
                &&& after.len() == before.len() + 1
                &&& after.drop_last() == before
                &&& parsed@.str_at("request_id"@) == Some(after.last().request_id@)
                &&& parsed@.str_at("url"@) == Some(after.last().repo_url@)
                &&& match after.last().guidance {
                    Some(s) => parsed@.str_at("guidance"@) == Some(s@),
                    None => parsed@.str_at("guidance"@) is None,
                }
                &&& parsed@.str_at("channel"@) == Some(after.last().channel@)
                &&& parsed@.str_at("thread_ts"@) == Some(after.last().thread_ts@)
                &&& after.last().submitted_at == now
            }
        },
{
    broadcast use {lemma_get_with, lemma_get_empty};

    lemma_field_names();
    assert forall|why: Seq<char>|
        (#[trigger] refusal(why)).bool_at("ok"@) == Some(false) && refusal(why).str_at("error"@)
            == Some(why) by {
        a_refusal_says_why(why);
    }
    lemma_lacks(parsed@, "url"@, "request_id"@, "channel"@, "thread_ts"@);
    let before = (*queue@)@;
    let after = (*final(queue@))@;
}

/// A synchronization request waits exactly where it is complete, its repository is known
/// and has a pass to wait for; it waits once, behind those that wait already, with all that
/// it says.
pub proof fn a_sync_waits_once(
    parsed: Json,
    found: Found,
    live: bool,
    queue: Ghost<&mut VecDeque<SyncUpstreamRequest>>,
    now: Timestamp,
    r: Json,
)
    requires
        call_ensures(handle_queue_sync_upstream_request, (&parsed, found, live, queue@, now), r),
    ensures
        r@.bool_at("ok"@) == Some(parsed@.str_at("url"@) is Some
            && parsed@.str_at("request_id"@) is Some && parsed@.str_at("channel"@) is Some
            && found is Ok && live),
        r@.bool_at("ok"@) == Some(false) ==> (*final(queue@))@ == (*queue@)@,
        parsed@.str_at("url"@) is None
            ==> r@.str_at("error"@) == Some("missing `"@ + "url"@ + "` field"@),
        parsed@.str_at("url"@) is Some && parsed@.str_at("request_id"@) is None
            ==> r@.str_at("error"@) == Some("missing `"@ + "request_id"@ + "` field"@),
        parsed@.str_at("url"@) is Some && parsed@.str_at("request_id"@) is Some
            && parsed@.str_at("channel"@) is None
            ==> r@.str_at("error"@) == Some("missing `"@ + "channel"@ + "` field"@),
        parsed@.str_at("url"@) is Some && parsed@.str_at("request_id"@) is Some
            && parsed@.str_at("channel"@) is Some ==> (found matches Err(e)
            ==> r@.str_at("error"@) == Some(e@)),
        parsed@.str_at("url"@) is Some && parsed@.str_at("request_id"@) is Some
            && parsed@.str_at("channel"@) is Some && found is Ok
            && !live ==> r@.str_at("error"@) == Some(
            "no live polling task for `"@ + parsed@.str_at("url"@)->0
                + "` (daemon may not have spawned it yet)"@,
        ),
        r@.bool_at("ok"@) == Some(true) ==> {
            let before = (*queue@)@;
            let after = (*final(queue@))@;
            &&& r@.str_at("url"@) == parsed@.str_at("url"@)
            &&& r@.u64_at("poll_interval_sec"@) == Some(found->Ok_0.poll_interval_sec)
            &&& r@.str_at("request_id"@) == parsed@.str_at("request_id"@)
            &&& (exists|i: int| 0 <= i < before.len()
                && Some((#[trigger] before[i]).request_id@) == parsed@.str_at("request_id"@))
                ==> after == before
            &&& (forall|i: int| 0 <= i < before.len()
                ==> !(Some((#[trigger] before[i]).request_id@) == parsed@.str_at("request_id"@)))
                ==> {
                &&& after.len() == before.len() + 1
                &&& after.drop_last() == before
                &&& parsed@.str_at("request_id"@) == Some(after.last().request_id@)
                &&& parsed@.str_at("url"@) == Some(after.last().repo_url@)
                &&& parsed@.str_at("channel"@) == Some(after.last().channel@)
                &&& after.last().thread_ts@ == match parsed@.str_at("thread_ts"@) {
                    Some(s) => s,
                    None => Seq::empty(),
                }
                &&& after.last().submitted_at == now
            }
        },
{
    broadcast use {lemma_get_with, lemma_get_empty};

    lemma_field_names();
    assert forall|why: Seq<char>|
        (#[trigger] refusal(why)).bool_at("ok"@) == Some(false) && refusal(why).str_at("error"@)
            == Some(why) by {
        a_refusal_says_why(why);
    }
    lemma_lacks(parsed@, "url"@, "request_id"@, "channel"@, "url"@);
    let before = (*queue@)@;
    let after = (*final(queue@))@;
}

/// A survey request waits exactly where it is complete, its repository is known and has a pass
/// to wait for; it waits once, behind those that wait already, with all that it says.
pub proof fn a_survey_waits_once(
    parsed: Json,
    found: Found,
    live: bool,
    queue: Ghost<&mut VecDeque<BrownfieldSurveyRequest>>,
    now: Timestamp,
    r: Json,
)
    requires
        call_ensures(
            handle_queue_brownfield_survey_request,
            (&parsed, found, live, queue@, now),
            r,
        ),
    ensures
        r@.bool_at("ok"@) == Some(parsed@.str_at("url"@) is Some
            && parsed@.str_at("request_id"@) is Some && parsed@.str_at("channel"@) is Some
            && parsed@.str_at("thread_ts"@) is Some && found is Ok && live),
        r@.bool_at("ok"@) == Some(false) ==> (*final(queue@))@ == (*queue@)@,
        parsed@.str_at("url"@) is None
            ==> r@.str_at("error"@) == Some("missing `"@ + "url"@ + "` field"@),
        parsed@.str_at("url"@) is Some && parsed@.str_at("request_id"@) is None
            ==> r@.str_at("error"@) == Some("missing `"@ + "request_id"@ + "` field"@),
        parsed@.str_at("url"@) is Some && parsed@.str_at("request_id"@) is Some
            && parsed@.str_at("channel"@) is None
            ==> r@.str_at("error"@) == Some("missing `"@ + "channel"@ + "` field"@),
        parsed@.str_at("url"@) is Some && parsed@.str_at("request_id"@) is Some
            && parsed@.str_at("channel"@) is Some
            && parsed@.str_at("thread_ts"@) is None
            ==> r@.str_at("error"@) == Some("missing `"@ + "thread_ts"@ + "` field"@),
        parsed@.str_at("url"@) is Some && parsed@.str_at("request_id"@) is Some
            && parsed@.str_at("channel"@) is Some
            && parsed@.str_at("thread_ts"@) is Some ==> (found matches Err(e)
            ==> r@.str_at("error"@) == Some(e@)),
        parsed@.str_at("url"@) is Some && parsed@.str_at("request_id"@) is Some
            && parsed@.str_at("channel"@) is Some && parsed@.str_at("thread_ts"@) is Some
            && found is Ok && !live ==> r@.str_at("error"@) == Some(
            "no live polling task for `"@ + parsed@.str_at("url"@)->0
                + "` (daemon may not have spawned it yet)"@,
        ),
        r@.bool_at("ok"@) == Some(true) ==> {
            let before = (*queue@)@;
            let after = (*final(queue@))@;
            &&& r@.str_at("url"@) == parsed@.str_at("url"@)
            &&& r@.u64_at("poll_interval_sec"@) == Some(found->Ok_0.poll_interval_sec)
            &&& r@.str_at("request_id"@) == parsed@.str_at("request_id"@)
            &&& (exists|i: int| 0 <= i < before.len()
                && Some((#[trigger] before[i]).request_id@) == parsed@.str_at("request_id"@))
                ==> after == before
            &&& (forall|i: int| 0 <= i < before.len()
                ==> !(Some((#[trigger] before[i]).request_id@) == parsed@.str_at("request_id"@)))
                ==> {
                &&& after.len() == before.len() + 1
                &&& after.drop_last() == before
                &&& parsed@.str_at("request_id"@) == Some(after.last().request_id@)
                &&& parsed@.str_at("url"@) == Some(after.last().repo_url@)
                &&& match after.last().guidance {
                    Some(s) => parsed@.str_at("guidance"@) == Some(s@),
                    None => parsed@.str_at("guidance"@) is None,
                }
                &&& parsed@.str_at("channel"@) == Some(after.last().channel@)
                &&& parsed@.str_at("thread_ts"@) == Some(after.last().thread_ts@)
                &&& after.last().submitted_at == now
            }
        },
{
    broadcast use {lemma_get_with, lemma_get_empty};

    lemma_field_names();
    assert forall|why: Seq<char>|
        (#[trigger] refusal(why)).bool_at("ok"@) == Some(false) && refusal(why).str_at("error"@)
            == Some(why) by {
        a_refusal_says_why(why);
    }
    lemma_lacks(parsed@, "url"@, "request_id"@, "channel"@, "thread_ts"@);
    let before = (*queue@)@;
    let after = (*final(queue@))@;
}

/// A batch request waits exactly where it is complete, its repository is known and has a pass
/// to wait for; it waits once, behind those that wait already, with all that it says.
pub proof fn a_batch_waits_once(
    parsed: Json,
    found: Found,
    live: bool,
    queue: Ghost<&mut VecDeque<BrownfieldBatchRequest>>,
    now: Timestamp,
    r: Json,
)
    requires
        call_ensures(handle_queue_brownfield_batch_request, (&parsed, found, live, queue@, now), r),
    ensures
        r@.bool_at("ok"@) == Some(parsed@.str_at("url"@) is Some
            && parsed@.str_at("survey_request_id"@) is Some && parsed@.str_at("channel"@) is Some
            && parsed@.str_at("thread_ts"@) is Some && found is Ok && live),
        r@.bool_at("ok"@) == Some(false) ==> (*final(queue@))@ == (*queue@)@,
        parsed@.str_at("url"@) is None
            ==> r@.str_at("error"@) == Some("missing `"@ + "url"@ + "` field"@),
        parsed@.str_at("url"@) is Some && parsed@.str_at("survey_request_id"@) is None
            ==> r@.str_at("error"@) == Some("missing `"@ + "survey_request_id"@ + "` field"@),
        parsed@.str_at("url"@) is Some && parsed@.str_at("survey_request_id"@) is Some
            && parsed@.str_at("channel"@) is None
            ==> r@.str_at("error"@) == Some("missing `"@ + "channel"@ + "` field"@),
        parsed@.str_at("url"@) is Some && parsed@.str_at("survey_request_id"@) is Some
            && parsed@.str_at("channel"@) is Some
            && parsed@.str_at("thread_ts"@) is None
            ==> r@.str_at("error"@) == Some("missing `"@ + "thread_ts"@ + "` field"@),
        parsed@.str_at("url"@) is Some && parsed@.str_at("survey_request_id"@) is Some
            && parsed@.str_at("channel"@) is Some
            && parsed@.str_at("thread_ts"@) is Some ==> (found matches Err(e)
            ==> r@.str_at("error"@) == Some(e@)),
        parsed@.str_at("url"@) is Some && parsed@.str_at("survey_request_id"@) is Some
            && parsed@.str_at("channel"@) is Some && parsed@.str_at("thread_ts"@) is Some
            && found is Ok && !live ==> r@.str_at("error"@) == Some(
            "no live polling task for `"@ + parsed@.str_at("url"@)->0
                + "` (daemon may not have spawned it yet)"@,
        ),
        r@.bool_at("ok"@) == Some(true) ==> {
            let before = (*queue@)@;
            let after = (*final(queue@))@;
            &&& r@.str_at("url"@) == parsed@.str_at("url"@)
            &&& r@.u64_at("poll_interval_sec"@) == Some(found->Ok_0.poll_interval_sec)
            &&& r@.str_at("survey_request_id"@) == parsed@.str_at("survey_request_id"@)
            &&& (exists|i: int| 0 <= i < before.len()
                && Some((#[trigger] before[i]).survey_request_id@)
                == parsed@.str_at("survey_request_id"@)) ==> after == before
            &&& (forall|i: int| 0 <= i < before.len()
                ==> !(Some((#[trigger] before[i]).survey_request_id@)
                == parsed@.str_at("survey_request_id"@))) ==> {
                &&& after.len() == before.len() + 1
                &&& after.drop_last() == before
                &&& parsed@.str_at("url"@) == Some(after.last().repo_url@)
                &&& parsed@.str_at("survey_request_id"@) == Some(after.last().survey_request_id@)
                &&& parsed@.str_at("channel"@) == Some(after.last().channel@)
                &&& parsed@.str_at("thread_ts"@) == Some(after.last().thread_ts@)
                &&& after.last().submitted_at == now
            }
        },
{
    broadcast use {lemma_get_with, lemma_get_empty};

    lemma_field_names();
    assert forall|why: Seq<char>|
        (#[trigger] refusal(why)).bool_at("ok"@) == Some(false) && refusal(why).str_at("error"@)
            == Some(why) by {
        a_refusal_says_why(why);
    }
    lemma_lacks(parsed@, "url"@, "survey_request_id"@, "channel"@, "thread_ts"@);
    let before = (*queue@)@;
    let after = (*final(queue@))@;
}

/// A request for advice waits once for each change and text, exactly where it is complete,
/// its repository is known and has a pass to wait for; behind those that wait already,
/// with all that it says.
pub proof fn advice_waits_once(
    parsed: Json,
    found: Found,
    live: bool,
    queue: Ghost<&mut VecDeque<RevisionAdviseRequest>>,
    now: Timestamp,
    r: Json,
)
    requires
        call_ensures(handle_revision_advise, (&parsed, found, live, queue@, now), r),
    ensures
        r@.bool_at("ok"@) == Some(parsed@.str_at("url"@) is Some
            && parsed@.str_at("change"@) is Some && parsed@.str_at("channel"@) is Some
            && parsed@.str_at("thread_ts"@) is Some && found is Ok && live),
        r@.bool_at("ok"@) == Some(false) ==> (*final(queue@))@ == (*queue@)@,
        parsed@.str_at("url"@) is None
            ==> r@.str_at("error"@) == Some("missing `"@ + "url"@ + "` field"@),
        parsed@.str_at("url"@) is Some && parsed@.str_at("change"@) is None
            ==> r@.str_at("error"@) == Some("missing `"@ + "change"@ + "` field"@),
        parsed@.str_at("url"@) is Some && parsed@.str_at("change"@) is Some
            && parsed@.str_at("channel"@) is None
            ==> r@.str_at("error"@) == Some("missing `"@ + "channel"@ + "` field"@),
        parsed@.str_at("url"@) is Some && parsed@.str_at("change"@) is Some
            && parsed@.str_at("channel"@) is Some
            && parsed@.str_at("thread_ts"@) is None
            ==> r@.str_at("error"@) == Some("missing `"@ + "thread_ts"@ + "` field"@),
        parsed@.str_at("url"@) is Some && parsed@.str_at("change"@) is Some
            && parsed@.str_at("channel"@) is Some
            && parsed@.str_at("thread_ts"@) is Some ==> (found matches Err(e)
            ==> r@.str_at("error"@) == Some(e@)),
        parsed@.str_at("url"@) is Some && parsed@.str_at("change"@) is Some
            && parsed@.str_at("channel"@) is Some && parsed@.str_at("thread_ts"@) is Some
            && found is Ok && !live ==> r@.str_at("error"@) == Some(
            "no live polling task for `"@ + parsed@.str_at("url"@)->0
                + "` (daemon may not have spawned it yet)"@,
        ),
        r@.bool_at("ok"@) == Some(true) ==> {
            let before = (*queue@)@;
            let after = (*final(queue@))@;
            &&& r@.str_at("url"@) == parsed@.str_at("url"@)
            &&& r@.u64_at("poll_interval_sec"@) == Some(found->Ok_0.poll_interval_sec)
            &&& r@.str_at("change"@) == parsed@.str_at("change"@)
            &&& (exists|i: int| 0 <= i < before.len()
                && Some((#[trigger] before[i]).change_slug@) == parsed@.str_at("change"@)
                && before[i].reply_text@ == (match parsed@.str_at("reply_text"@) {
                    Some(s) => s,
                    None => Seq::empty(),
                })) ==> after == before
            &&& (forall|i: int| 0 <= i < before.len()
                ==> !(Some((#[trigger] before[i]).change_slug@) == parsed@.str_at("change"@)
                && before[i].reply_text@ == (match parsed@.str_at("reply_text"@) {
                    Some(s) => s,
                    None => Seq::empty(),
                }))) ==> {
                &&& after.len() == before.len() + 1
                &&& after.drop_last() == before
                &&& parsed@.str_at("url"@) == Some(after.last().repo_url@)
                &&& parsed@.str_at("change"@) == Some(after.last().change_slug@)
                &&& parsed@.str_at("channel"@) == Some(after.last().channel@)
                &&& parsed@.str_at("thread_ts"@) == Some(after.last().thread_ts@)
                &&& after.last().reply_text@ == match parsed@.str_at("reply_text"@) {
                    Some(s) => s,
                    None => Seq::empty(),
                }
                &&& after.last().submitted_at == now
            }
        },
{
    broadcast use {lemma_get_with, lemma_get_empty};

    lemma_field_names();
    assert forall|why: Seq<char>|
        (#[trigger] refusal(why)).bool_at("ok"@) == Some(false) && refusal(why).str_at("error"@)
            == Some(why) by {
        a_refusal_says_why(why);
    }
    lemma_lacks(parsed@, "url"@, "change"@, "channel"@, "thread_ts"@);
    let before = (*queue@)@;
    let after = (*final(queue@))@;
}

/// A request for a revision waits once for each change, exactly where it is complete, its
/// repository is known and has a pass to wait for; behind those that wait already, with
/// all that it says.
pub proof fn a_revision_waits_once(
    parsed: Json,
    found: Found,
    live: bool,
    queue: Ghost<&mut VecDeque<RevisionExecuteRequest>>,
    now: Timestamp,
    r: Json,
)
    requires
        call_ensures(handle_revision_execute, (&parsed, found, live, queue@, now), r),
    ensures
        r@.bool_at("ok"@) == Some(parsed@.str_at("url"@) is Some
            && parsed@.str_at("change"@) is Some && parsed@.str_at("channel"@) is Some
            && parsed@.str_at("thread_ts"@) is Some && found is Ok && live),
        r@.bool_at("ok"@) == Some(false) ==> (*final(queue@))@ == (*queue@)@,
        parsed@.str_at("url"@) is None
            ==> r@.str_at("error"@) == Some("missing `"@ + "url"@ + "` field"@),
        parsed@.str_at("url"@) is Some && parsed@.str_at("change"@) is None
            ==> r@.str_at("error"@) == Some("missing `"@ + "change"@ + "` field"@),
        parsed@.str_at("url"@) is Some && parsed@.str_at("change"@) is Some
            && parsed@.str_at("channel"@) is None
            ==> r@.str_at("error"@) == Some("missing `"@ + "channel"@ + "` field"@),
        parsed@.str_at("url"@) is Some && parsed@.str_at("change"@) is Some
            && parsed@.str_at("channel"@) is Some
            && parsed@.str_at("thread_ts"@) is None
            ==> r@.str_at("error"@) == Some("missing `"@ + "thread_ts"@ + "` field"@),
        parsed@.str_at("url"@) is Some && parsed@.str_at("change"@) is Some
            && parsed@.str_at("channel"@) is Some
            && parsed@.str_at("thread_ts"@) is Some ==> (found matches Err(e)
            ==> r@.str_at("error"@) == Some(e@)),
        parsed@.str_at("url"@) is Some && parsed@.str_at("change"@) is Some
            && parsed@.str_at("channel"@) is Some && parsed@.str_at("thread_ts"@) is Some
            && found is Ok && !live ==> r@.str_at("error"@) == Some(
            "no live polling task for `"@ + parsed@.str_at("url"@)->0
                + "` (daemon may not have spawned it yet)"@,
        ),
        r@.bool_at("ok"@) == Some(true) ==> {
            let before = (*queue@)@;
            let after = (*final(queue@))@;
            &&& r@.str_at("url"@) == parsed@.str_at("url"@)
            &&& r@.u64_at("poll_interval_sec"@) == Some(found->Ok_0.poll_interval_sec)
            &&& r@.str_at("change"@) == parsed@.str_at("change"@)
            &&& (exists|i: int| 0 <= i < before.len()
                && Some((#[trigger] before[i]).change_slug@) == parsed@.str_at("change"@))
                ==> after == before
            &&& (forall|i: int| 0 <= i < before.len()
                ==> !(Some((#[trigger] before[i]).change_slug@) == parsed@.str_at("change"@))) ==> {
                &&& after.len() == before.len() + 1
                &&& after.drop_last() == before
                &&& parsed@.str_at("url"@) == Some(after.last().repo_url@)
                &&& parsed@.str_at("change"@) == Some(after.last().change_slug@)
                &&& parsed@.str_at("channel"@) == Some(after.last().channel@)
                &&& parsed@.str_at("thread_ts"@) == Some(after.last().thread_ts@)
                &&& after.last().submitted_at == now
            }
        },
{
    broadcast use {lemma_get_with, lemma_get_empty};

    lemma_field_names();
    assert forall|why: Seq<char>|
        (#[trigger] refusal(why)).bool_at("ok"@) == Some(false) && refusal(why).str_at("error"@)
            == Some(why) by {
        a_refusal_says_why(why);
    }
    lemma_lacks(parsed@, "url"@, "change"@, "channel"@, "thread_ts"@);
    let before = (*queue@)@;
    let after = (*final(queue@))@;
}

/// A selection waits however often it is made, exactly where it is complete, its repository
/// is known and has a pass to wait for; behind those that wait already, with all that it
/// says.
pub proof fn every_selection_waits(
    parsed: Json,
    found: Found,
    live: bool,
    queue: Ghost<&mut VecDeque<SpecItRequest>>,
    now: Timestamp,
    r: Json,
)
    requires
        call_ensures(handle_queue_spec_it_request, (&parsed, found, live, queue@, now), r),
    ensures
        r@.bool_at("ok"@) == Some(parsed@.str_at("url"@) is Some
            && parsed@.str_at("scout_request_id"@) is Some && parsed@.str_at("channel"@) is Some
            && parsed@.str_at("thread_ts"@) is Some && parsed@.u64_at("item_id"@) is Some
            && found is Ok && live),
        r@.bool_at("ok"@) == Some(false) ==> (*final(queue@))@ == (*queue@)@,
        parsed@.str_at("url"@) is None
            ==> r@.str_at("error"@) == Some("missing `"@ + "url"@ + "` field"@),
        parsed@.str_at("url"@) is Some && parsed@.str_at("scout_request_id"@) is None
            ==> r@.str_at("error"@) == Some("missing `"@ + "scout_request_id"@ + "` field"@),
        parsed@.str_at("url"@) is Some && parsed@.str_at("scout_request_id"@) is Some
            && parsed@.u64_at("item_id"@) is None
            ==> r@.str_at("error"@) == Some("missing `item_id` field"@),
        parsed@.str_at("url"@) is Some && parsed@.str_at("scout_request_id"@) is Some
            && parsed@.u64_at("item_id"@) is Some
            && parsed@.str_at("channel"@) is None
            ==> r@.str_at("error"@) == Some("missing `"@ + "channel"@ + "` field"@),
        parsed@.str_at("url"@) is Some && parsed@.str_at("scout_request_id"@) is Some
            && parsed@.u64_at("item_id"@) is Some && parsed@.str_at("channel"@) is Some
            && parsed@.str_at("thread_ts"@) is None
            ==> r@.str_at("error"@) == Some("missing `"@ + "thread_ts"@ + "` field"@),
        parsed@.str_at("url"@) is Some && parsed@.str_at("scout_request_id"@) is Some
            && parsed@.str_at("channel"@) is Some && parsed@.str_at("thread_ts"@) is Some
            && parsed@.u64_at("item_id"@) is Some ==> (found matches Err(e)
            ==> r@.str_at("error"@) == Some(e@)),
        parsed@.str_at("url"@) is Some && parsed@.str_at("scout_request_id"@) is Some
            && parsed@.str_at("channel"@) is Some && parsed@.str_at("thread_ts"@) is Some
            && parsed@.u64_at("item_id"@) is Some && found is Ok
            && !live ==> r@.str_at("error"@) == Some(
            "no live polling task for `"@ + parsed@.str_at("url"@)->0
                + "` (daemon may not have spawned it yet)"@,
        ),
        r@.bool_at("ok"@) == Some(true) ==> {
            let before = (*queue@)@;
            let after = (*final(queue@))@;
            &&& r@.str_at("url"@) == parsed@.str_at("url"@)
            &&& r@.u64_at("poll_interval_sec"@) == Some(found->Ok_0.poll_interval_sec)
            &&& {
                &&& after.len() == before.len() + 1
                &&& after.drop_last() == before
                &&& parsed@.str_at("url"@) == Some(after.last().repo_url@)
                &&& parsed@.str_at("scout_request_id"@) == Some(after.last().scout_request_id@)
                &&& parsed@.u64_at("item_id"@) == Some(after.last().item_id)
                &&& match after.last().guidance {
                    Some(s) => parsed@.str_at("guidance"@) == Some(s@),
                    None => parsed@.str_at("guidance"@) is None,
                }
                &&& parsed@.str_at("channel"@) == Some(after.last().channel@)
                &&& parsed@.str_at("thread_ts"@) == Some(after.last().thread_ts@)
                &&& after.last().submitted_at == now
            }
        },
{
    broadcast use {lemma_get_with, lemma_get_empty};

    lemma_field_names();
    assert forall|why: Seq<char>|
        (#[trigger] refusal(why)).bool_at("ok"@) == Some(false) && refusal(why).str_at("error"@)
            == Some(why) by {
        a_refusal_says_why(why);
    }
    lemma_lacks(parsed@, "url"@, "scout_request_id"@, "url"@, "url"@);
    lemma_lacks(parsed@, "channel"@, "thread_ts"@, "url"@, "url"@);
}

/// What is told of stored state that was cleared: how many files went of which repository,
/// exactly where it is named and known and they could be cleared, and what stood in the way
/// otherwise.
pub proof fn what_was_cleared_is_counted(
    parsed: Json,
    found: Found,
    cleared: Result<u64, String>,
    scout: Json,
    survey: Json,
)
    requires
        call_ensures(handle_queue_clear_scout, (&parsed, found, cleared), scout),
        call_ensures(handle_queue_clear_survey, (&parsed, found, cleared), survey),
    ensures
        forall|r: JsonV|
            r == scout@ || r == survey@ ==> {
                &&& #[trigger] r.bool_at("ok"@) == Some(
                    parsed@.str_at("url"@) is Some && found is Ok && cleared is Ok,
                )
                &&& r.bool_at("ok"@) == Some(true) ==> r.str_at("url"@) == parsed@.str_at("url"@)
                    && r.u64_at("cleared"@) == Some(cleared->Ok_0)
                &&& parsed@.str_at("url"@) is None ==> r.str_at("error"@) == Some(
                    "missing `"@ + "url"@ + "` field"@,
                )
                &&& parsed@.str_at("url"@) is Some ==> (found matches Err(e) ==> r.str_at("error"@)
                    == Some(e@))
            },
        parsed@.str_at("url"@) is Some && found is Ok ==> (cleared matches Err(e) ==> {
            &&& scout@.str_at("error"@) == Some("clearing "@ + "scout"@ + " state: "@ + e@)
            &&& survey@.str_at("error"@) == Some(
                "clearing "@ + "brownfield-survey"@ + " state: "@ + e@,
            )
        }),
{
    broadcast use {lemma_get_with, lemma_get_empty};

    lemma_field_names();
    assert forall|why: Seq<char>|
        (#[trigger] refusal(why)).bool_at("ok"@) == Some(false) && refusal(why).str_at("error"@)
            == Some(why) by {
        a_refusal_says_why(why);
    }
}

/// A repository that nothing polls is told by its address.
pub proof fn what_is_not_polled_is_told(url: &str, r: String)
    requires
        call_ensures(not_live_text, (url,), r),
    ensures
        r@ == "no live polling task for `"@ + url@ + "` (daemon may not have spawned it yet)"@,
{
}

} // verus!
