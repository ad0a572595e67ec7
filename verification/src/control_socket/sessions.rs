//! What sessions hand over to the daemon and ask of it: outcomes and
//! submissions, kept until they are taken, and questions to the canonical
//! specifications.
use vstd::prelude::*;
use crate::control_socket::request::{missing_field, require};
use crate::json::{
    a_refusal_says_why, array_of, lemma_get_empty, lemma_get_with, obj, refusal, refuse, trees,
    Fields, Json, JsonV,
};
use crate::text::{cat2, cat3, cat4, same_text};

verus! {

/// A question to the canonical specifications.
#[derive(Debug)]
pub struct SpecQuery {
    pub workspace_basename: String,
    pub query: String,
    /// How many answers are wanted at most.
    pub top_k: Option<u64>,
}

pub open spec fn query_refusal(key: Seq<char>) -> JsonV {
    refusal("missing required field: "@ + key + " ("@ + missing_field(key) + ")"@)
}

fn refuse_query(key: &str) -> (r: Json)
    ensures
        r@ == query_refusal(key@),
{
    let detail = cat3("missing `", key, "` field");
    let head = cat4("missing required field: ", key, " (", detail.as_str());
    refuse(cat2(head.as_str(), ")").as_str())
}

impl SpecQuery {
    /// Reads the question, or refuses it.
    pub fn read(parsed: &Json) -> (r: Result<SpecQuery, Json>)
        ensures
            match (parsed@.str_at("workspace_basename"@), parsed@.str_at("query"@)) {
                (None, _) => r matches Err(j) && j@ == query_refusal("workspace_basename"@),
                (Some(_), None) => r matches Err(j) && j@ == query_refusal("query"@),
                (Some(name), Some(query)) => r matches Ok(q) && q.workspace_basename@ == name
                    && q.query@ == query && q.top_k == parsed@.u64_at("top_k"@),
            },
    {
        let workspace_basename = match parsed.get_str("workspace_basename") {
            Some(s) => s,
            None => return Err(refuse_query("workspace_basename")),
        };
        match parsed.get_str("query") {
            Some(query) => Ok(
                SpecQuery { workspace_basename, query, top_k: parsed.get_u64("top_k") },
            ),
            None => Err(refuse_query("query")),
        }
    }
}

/// What came of a question.
#[derive(Debug)]
pub enum SpecAnswer {
    /// The index is switched off.
    Inactive,
    /// There is no index for the workspace.
    NoStore,
    Failed(String),
    Hits(Vec<Json>),
}

/// An answer without hits, and a hint why.
pub open spec fn no_hits(hint: Seq<char>) -> JsonV {
    obj().flag("ok"@, true).with("hits"@, JsonV::Arr(Seq::empty())).text(
        "error_hint"@,
        hint,
    ).done()
}

fn answer_without_hits(hint: &str) -> (r: Json)
    ensures
        r@ == no_hits(hint@),
{
    let none: Vec<Json> = Vec::new();
    proof {
        assert(trees(none@) =~= Seq::<JsonV>::empty());
    }
    Fields::new().flag("ok", true).with("hits", array_of(none)).text("error_hint", hint).finish()
}

/// The reply to a question. It fails open: whatever went wrong, the reply is `ok`
/// without hits.
pub open spec fn spec_reply(answer: SpecAnswer) -> JsonV {
    match answer {
        SpecAnswer::Inactive => no_hits("rag disabled in config"@),
        SpecAnswer::NoStore => no_hits("rag init failed; see daemon log"@),
        SpecAnswer::Failed(e) => no_hits("query failed: "@ + e@),
        SpecAnswer::Hits(hits) => obj().flag("ok"@, true).with(
            "hits"@,
            JsonV::Arr(trees(hits@)),
        ).done(),
    }
}

/// Answers a question to the canonical specifications.
pub fn handle_query_canonical_specs(answer: SpecAnswer) -> (r: Json)
    ensures
        r@ == spec_reply(answer),
{
    match answer {
        SpecAnswer::Inactive => answer_without_hits("rag disabled in config"),
        SpecAnswer::NoStore => answer_without_hits("rag init failed; see daemon log"),
        SpecAnswer::Failed(e) => answer_without_hits(cat2("query failed: ", e.as_str()).as_str()),
        SpecAnswer::Hits(hits) => Fields::new().flag("ok", true).with(
            "hits",
            array_of(hits),
        ).finish(),
    }
}

/// A question that could be read never fails: its reply is `ok`.
pub proof fn spec_query_fails_open(answer: SpecAnswer)
    ensures
        spec_reply(answer).bool_at("ok"@) == Some(true),
{
    assert(spec_reply(answer) matches JsonV::Obj(f) && f[0] == ("ok"@, JsonV::Bool(true)));
}

/// Values that sessions left, each under a workspace and a change.
#[derive(Debug)]
pub struct Deposits {
    entries: Vec<(String, String, Json)>,
}

/// The value under a workspace and a change.
pub open spec fn deposit_of(
    entries: Seq<(String, String, Json)>,
    workspace: Seq<char>,
    change: Seq<char>,
) -> Option<JsonV>
    decreases entries.len(),
{
    if entries.len() == 0 {
        None
    } else if entries.last().0@ == workspace && entries.last().1@ == change {
        Some(entries.last().2@)
    } else {
        deposit_of(entries.drop_last(), workspace, change)
    }
}

proof fn lemma_without(
    entries: Seq<(String, String, Json)>,
    i: int,
    workspace: Seq<char>,
    change: Seq<char>,
)
    requires
        0 <= i < entries.len(),
        entries[i].0@ != workspace || entries[i].1@ != change,
    ensures
        deposit_of(entries.remove(i), workspace, change) == deposit_of(entries, workspace, change),
    decreases entries.len(),
{
    let after = entries.remove(i);
    if i == entries.len() - 1 {
        assert(after =~= entries.drop_last());
    } else {
        assert(after.drop_last() =~= entries.drop_last().remove(i));
        assert(after.last() == entries.last());
        if entries.last().0@ != workspace || entries.last().1@ != change {
            lemma_without(entries.drop_last(), i, workspace, change);
        }
    }
}

proof fn lemma_absent(entries: Seq<(String, String, Json)>, workspace: Seq<char>, change: Seq<char>)
    requires
        forall|i: int|
            0 <= i < entries.len() ==> (#[trigger] entries[i]).0@ != workspace || entries[i].1@
                != change,
    ensures
        deposit_of(entries, workspace, change) is None,
    decreases entries.len(),
{
    if entries.len() > 0 {
        assert(entries[entries.len() - 1].0@ != workspace || entries[entries.len() - 1].1@
            != change);
        let init = entries.drop_last();
        assert forall|i: int| 0 <= i < init.len() implies (#[trigger] init[i]).0@ != workspace
            || init[i].1@ != change by {
            assert(entries[i].0@ != workspace || entries[i].1@ != change);
        }
        lemma_absent(init, workspace, change);
    }
}

proof fn lemma_only(
    entries: Seq<(String, String, Json)>,
    i: int,
    workspace: Seq<char>,
    change: Seq<char>,
)
    requires
        0 <= i < entries.len(),
        entries[i].0@ == workspace,
        entries[i].1@ == change,
        forall|j: int|
            i < j < entries.len() ==> (#[trigger] entries[j]).0@ != workspace || entries[j].1@
                != change,
    ensures
        deposit_of(entries, workspace, change) == Some(entries[i].2@),
    decreases entries.len(),
{
    if i < entries.len() - 1 {
        assert(entries[entries.len() - 1].0@ != workspace || entries[entries.len() - 1].1@
            != change);
        let init = entries.drop_last();
        assert forall|j: int| i < j < init.len() implies (#[trigger] init[j]).0@ != workspace
            || init[j].1@ != change by {
            assert(entries[j].0@ != workspace || entries[j].1@ != change);
        }
        lemma_only(init, i, workspace, change);
    }
}

pub open spec fn opt_tree(o: Option<Json>) -> Option<JsonV> {
    match o {
        Some(j) => Some(j@),
        None => None,
    }
}

/// Whether all values but that under a workspace and a change stayed.
pub open spec fn others_stay(
    before: Deposits,
    after: Deposits,
    workspace: Seq<char>,
    change: Seq<char>,
) -> bool {
    forall|w: Seq<char>, c: Seq<char>|
        w != workspace || c != change ==> #[trigger] after.at(w, c) == before.at(w, c)
}

/// Whether a value was left: it stands under its names, and nothing else changed.
pub open spec fn leaves(
    before: Deposits,
    workspace: Seq<char>,
    change: Seq<char>,
    value: JsonV,
    after: Deposits,
) -> bool {
    &&& after.at(workspace, change) == Some(value)
    &&& others_stay(before, after, workspace, change)
}

/// Whether a value was taken: what stood under the names is given, nothing stands
/// there any more, and nothing else changed.
pub open spec fn takes(
    before: Deposits,
    workspace: Seq<char>,
    change: Seq<char>,
    taken: Option<JsonV>,
    after: Deposits,
) -> bool {
    &&& taken == before.at(workspace, change)
    &&& after.at(workspace, change) is None
    &&& others_stay(before, after, workspace, change)
}

/// What is left is taken once: after it was left it is given, and given no
/// second time.
pub proof fn a_deposit_is_taken_once(
    start: Deposits,
    workspace: Seq<char>,
    change: Seq<char>,
    value: JsonV,
    left: Deposits,
    first: Option<JsonV>,
    emptied: Deposits,
    second: Option<JsonV>,
    end: Deposits,
)
    requires
        leaves(start, workspace, change, value, left),
        takes(left, workspace, change, first, emptied),
        takes(emptied, workspace, change, second, end),
    ensures
        first == Some(value),
        second is None,
{
}

/// Of two values that are left under the same names, the later one is taken.
pub proof fn the_last_deposit_counts(
    start: Deposits,
    workspace: Seq<char>,
    change: Seq<char>,
    early: JsonV,
    between: Deposits,
    late: JsonV,
    left: Deposits,
    taken: Option<JsonV>,
    end: Deposits,
)
    requires
        leaves(start, workspace, change, early, between),
        leaves(between, workspace, change, late, left),
        takes(left, workspace, change, taken, end),
    ensures
        taken == Some(late),
{
}

/// What is left under other names is not disturbed.
pub proof fn deposits_do_not_collide(
    start: Deposits,
    workspace: Seq<char>,
    change: Seq<char>,
    value: JsonV,
    left: Deposits,
    other_workspace: Seq<char>,
    other_change: Seq<char>,
    taken: Option<JsonV>,
    end: Deposits,
)
    requires
        leaves(start, workspace, change, value, left),
        takes(left, other_workspace, other_change, taken, end),
        workspace != other_workspace || change != other_change,
    ensures
        taken == start.at(other_workspace, other_change),
        end.at(workspace, change) == Some(value),
{
}

impl Deposits {
    /// The value under a workspace and a change.
    pub closed spec fn at(&self, workspace: Seq<char>, change: Seq<char>) -> Option<JsonV> {
        deposit_of(self.entries@, workspace, change)
    }

    /// Whether nothing is left twice under the same names.
    pub closed spec fn wf(&self) -> bool {
        forall|i: int, j: int|
            0 <= i < j < self.entries@.len() ==> (#[trigger] self.entries@[i]).0@ != (
            #[trigger] self.entries@[j]).0@ || self.entries@[i].1@ != self.entries@[j].1@
    }

    /// Nothing is left yet.
    pub fn new() -> (r: Deposits)
        ensures
            r.wf(),
            forall|w: Seq<char>, c: Seq<char>| #[trigger] r.at(w, c) is None,
    {
        Deposits { entries: Vec::new() }
    }

    /// Takes the value under a workspace and a change away.
    pub fn consume(&mut self, workspace: &str, change: &str) -> (r: Option<Json>)
        requires
            old(self).wf(),
        ensures
            final(self).wf(),
            takes(*old(self), workspace@, change@, opt_tree(r), *final(self)),
    {
        let mut i: usize = 0;
        let ghost before = self.entries@;
        while i < self.entries.len()
            invariant
                i <= self.entries@.len(),
                self.entries@ == before,
                *self == *old(self),
                old(self).wf(),
                forall|k: int|
                    0 <= k < i ==> (#[trigger] before[k]).0@ != workspace@ || before[k].1@
                        != change@,
            decreases self.entries@.len() - i,
        {
            if same_text(self.entries[i].0.as_str(), workspace) && same_text(
                self.entries[i].1.as_str(),
                change,
            ) {
                let (_, _, value) = self.entries.remove(i);
                proof {
                    let after = self.entries@;
                    assert(after == before.remove(i as int));
                    assert forall|j: int| i < j < before.len() implies (#[trigger] before[j]).0@
                        != workspace@ || before[j].1@ != change@ by {
                        assert(before[i as int].0@ != before[j].0@ || before[i as int].1@
                            != before[j].1@);
                    }
                    lemma_only(before, i as int, workspace@, change@);
                    assert forall|j: int| 0 <= j < after.len() implies (#[trigger] after[j]).0@
                        != workspace@ || after[j].1@ != change@ by {
                        let k = if j < i {
                            j
                        } else {
                            j + 1
                        };
                        assert(after[j] == before[k]);
                        assert(before[k].0@ != workspace@ || before[k].1@ != change@);
                    }
                    lemma_absent(after, workspace@, change@);
                    assert forall|w: Seq<char>, c: Seq<char>|
                        w != workspace@ || c != change@ implies #[trigger] deposit_of(after, w, c)
                        == deposit_of(before, w, c) by {
                        lemma_without(before, i as int, w, c);
                    }
                    assert forall|w: Seq<char>, c: Seq<char>|
                        w != workspace@ || c != change@ implies #[trigger] self.at(w, c) == old(
                        self,
                    ).at(w, c) by {
                        assert(deposit_of(after, w, c) == deposit_of(before, w, c));
                    }
                    assert forall|j: int, k: int| 0 <= j < k < after.len() implies (
                    #[trigger] after[j]).0@ != (#[trigger] after[k]).0@ || after[j].1@
                        != after[k].1@ by {
                        let p = if j < i {
                            j
                        } else {
                            j + 1
                        };
                        let q = if k < i {
                            k
                        } else {
                            k + 1
                        };
                        assert(before[p].0@ != before[q].0@ || before[p].1@ != before[q].1@);
                    }
                }
                return Some(value);
            }
            i += 1;
        }
        proof {
            lemma_absent(before, workspace@, change@);
        }
        None
    }

    /// Leaves a value under a workspace and a change. It takes the place of one
    /// that was left there before.
    pub fn record(&mut self, workspace: &str, change: &str, value: Json)
        requires
            old(self).wf(),
        ensures
            final(self).wf(),
            leaves(*old(self), workspace@, change@, value@, *final(self)),
    {
        let gone = self.consume(workspace, change);
        let ghost cleared = *self;
        let ghost mid = self.entries@;
        let w = workspace.to_owned();
        let c = change.to_owned();
        self.entries.push((w, c, value));
        proof {
            let after = self.entries@;
            assert(after.drop_last() =~= mid);
            assert forall|i: int| 0 <= i < mid.len() implies (#[trigger] mid[i]).0@ != workspace@
                || mid[i].1@ != change@ by {
                if mid[i].0@ == workspace@ && mid[i].1@ == change@ {
                    assert forall|j: int| i < j < mid.len() implies (#[trigger] mid[j]).0@
                        != workspace@ || mid[j].1@ != change@ by {
                        assert(mid[i].0@ != mid[j].0@ || mid[i].1@ != mid[j].1@);
                    }
                    lemma_only(mid, i, workspace@, change@);
                    assert(cleared.at(workspace@, change@) is None);
                }
            }
            assert forall|i: int, j: int| 0 <= i < j < after.len() implies (#[trigger] after[i]).0@
                != (#[trigger] after[j]).0@ || after[i].1@ != after[j].1@ by {
                assert(after[i] == mid[i]);
                if j < mid.len() {
                    assert(after[j] == mid[j]);
                    assert(mid[i].0@ != mid[j].0@ || mid[i].1@ != mid[j].1@);
                } else {
                    assert(mid[i].0@ != workspace@ || mid[i].1@ != change@);
                }
            }
            assert forall|w: Seq<char>, c: Seq<char>|
                w != workspace@ || c != change@ implies #[trigger] self.at(w, c) == old(self).at(
                w,
                c,
            ) by {
                assert(self.at(w, c) == cleared.at(w, c));
            }
        }
    }
}

/// What a session names a value by: its workspace, its change, and the field
/// that holds it.
pub open spec fn session_lacks(v: JsonV, third: Option<Seq<char>>) -> Option<Seq<char>> {
    if v.str_at("workspace_basename"@) is None {
        Some("workspace_basename"@)
    } else if v.str_at("change"@) is None {
        Some("change"@)
    } else {
        match third {
            Some(key) => if v.str_at(key) is None {
                Some(key)
            } else {
                None
            },
            None => None,
        }
    }
}

fn read_session(parsed: &Json) -> (r: Result<(String, String), Json>)
    ensures
        match session_lacks(parsed@, None) {
            Some(key) => r matches Err(j) && j@ == refusal(missing_field(key)),
            None => r matches Ok(p) && parsed@.str_at("workspace_basename"@) == Some(p.0@)
                && parsed@.str_at("change"@) == Some(p.1@),
        },
{
    let workspace = match require(parsed, "workspace_basename") {
        Ok(s) => s,
        Err(e) => return Err(e),
    };
    match require(parsed, "change") {
        Ok(change) => Ok((workspace, change)),
        Err(e) => Err(e),
    }
}

/// Whether an outcome is of a type that is known.
pub open spec fn known_outcome(tag: Seq<char>) -> bool {
    tag == "success"@ || tag == "spec_needs_revision"@ || tag == "iteration_request"@
}

/// Why an outcome is not taken, before its fields are looked at.
pub open spec fn outcome_refusal(v: JsonV) -> Option<JsonV> {
    match session_lacks(v, None) {
        Some(key) => Some(refusal(missing_field(key))),
        None => match v.get("outcome"@) {
            None => Some(refusal("missing `outcome` field"@)),
            Some(outcome) => match outcome.str_at("type"@) {
                None => Some(
                    refusal("outcome is missing required string `type` discriminator"@),
                ),
                Some(tag) => if known_outcome(tag) {
                    None
                } else {
                    Some(refusal("unknown outcome variant tag `"@ + tag + "`"@))
                },
            },
        },
    }
}

pub open spec fn ok_reply() -> JsonV {
    obj().flag("ok"@, true).done()
}

/// Takes the outcome that a session reports. `shape` is the outcome with the
/// fields of its type, or why it does not have them.
pub fn handle_record_outcome(parsed: &Json, shape: Result<Json, String>, store: &mut Deposits) -> (r:
    Json)
    requires
        old(store).wf(),
    ensures
        final(store).wf(),
        match (outcome_refusal(parsed@), shape) {
            (Some(j), _) => r@ == j && *final(store) == *old(store),
            (None, Err(e)) => r@ == refusal("malformed outcome payload: "@ + e@) && *final(store)
                == *old(store),
            (None, Ok(outcome)) => {
                let w = parsed@.str_at("workspace_basename"@)->0;
                let c = parsed@.str_at("change"@)->0;
                &&& r@ == ok_reply()
                &&& leaves(*old(store), w, c, outcome@, *final(store))
            },
        },
{
    let (workspace, change) = match read_session(parsed) {
        Ok(p) => p,
        Err(e) => return e,
    };
    let outcome = match parsed.get("outcome") {
        Some(j) => j,
        None => return refuse("missing `outcome` field"),
    };
    let tag = match outcome.get_str("type") {
        Some(t) => t,
        None => return refuse("outcome is missing required string `type` discriminator"),
    };
    if !same_text(tag.as_str(), "success") && !same_text(tag.as_str(), "spec_needs_revision")
        && !same_text(tag.as_str(), "iteration_request") {
        return refuse(cat3("unknown outcome variant tag `", tag.as_str(), "`").as_str());
    }
    let value = match shape {
        Ok(v) => v,
        Err(e) => return refuse(cat2("malformed outcome payload: ", e.as_str()).as_str()),
    };
    store.record(workspace.as_str(), change.as_str(), value);
    Fields::new().flag("ok", true).finish()
}

/// The reply that hands a value over, or null where there is none.
pub open spec fn handed_over(key: Seq<char>, value: Option<JsonV>) -> JsonV {
    obj().flag("ok"@, true).with(
        key,
        match value {
            Some(v) => v,
            None => JsonV::Null,
        },
    ).done()
}

fn consume_as(parsed: &Json, key: &str, store: &mut Deposits) -> (r: Json)
    requires
        old(store).wf(),
    ensures
        final(store).wf(),
        match session_lacks(parsed@, None) {
            Some(k) => r@ == refusal(missing_field(k)) && *final(store) == *old(store),
            None => {
                let w = parsed@.str_at("workspace_basename"@)->0;
                let c = parsed@.str_at("change"@)->0;
                &&& r@ == handed_over(key@, old(store).at(w, c))
                &&& takes(*old(store), w, c, old(store).at(w, c), *final(store))
            },
        },
{
    let (workspace, change) = match read_session(parsed) {
        Ok(p) => p,
        Err(e) => return e,
    };
    let value = match store.consume(workspace.as_str(), change.as_str()) {
        Some(j) => j,
        None => Json::Null,
    };
    Fields::new().flag("ok", true).with(key, value).finish()
}

/// Hands the outcome of a session over. It is gone from the store then; where
/// there is none, the reply says so.
pub fn handle_consume_outcome(parsed: &Json, store: &mut Deposits) -> (r: Json)
    requires
        old(store).wf(),
    ensures
        final(store).wf(),
        match session_lacks(parsed@, None) {
            Some(k) => r@ == refusal(missing_field(k)) && *final(store) == *old(store),
            None => {
                let w = parsed@.str_at("workspace_basename"@)->0;
                let c = parsed@.str_at("change"@)->0;
                &&& r@ == handed_over("outcome"@, old(store).at(w, c))
                &&& takes(*old(store), w, c, old(store).at(w, c), *final(store))
            },
        },
{
    consume_as(parsed, "outcome", store)
}

/// Takes what a session submits for its role. `schema` tells whether it is what
/// the role asks for.
pub fn handle_record_submission(parsed: &Json, schema: Result<(), String>, store: &mut Deposits) -> (r:
    Json)
    requires
        old(store).wf(),
    ensures
        final(store).wf(),
        match (session_lacks(parsed@, Some("role"@)), parsed@.get("payload"@), schema) {
            (Some(k), _, _) => r@ == refusal(missing_field(k)) && *final(store) == *old(store),
            (None, None, _) => r@ == refusal("missing `payload` field"@) && *final(store) == *old(
                store,
            ),
            (None, Some(_), Err(e)) => r@ == refusal(e@) && *final(store) == *old(store),
            (None, Some(payload), Ok(_)) => {
                let w = parsed@.str_at("workspace_basename"@)->0;
                let c = parsed@.str_at("change"@)->0;
                &&& r@ == ok_reply()
                &&& leaves(*old(store), w, c, payload, *final(store))
            },
        },
{
    let (workspace, change) = match read_session(parsed) {
        Ok(p) => p,
        Err(e) => return e,
    };
    if let Err(e) = require(parsed, "role") {
        return e;
    }
    let payload = match parsed.get("payload") {
        Some(j) => j,
        None => return refuse("missing `payload` field"),
    };
    match schema {
        Ok(_) => {},
        Err(e) => return refuse(e.as_str()),
    }
    store.record(workspace.as_str(), change.as_str(), payload.copy());
    Fields::new().flag("ok", true).finish()
}

/// Hands a submission over. It is gone from the store then; where there is none,
/// the reply says so.
pub fn handle_consume_submission(parsed: &Json, store: &mut Deposits) -> (r: Json)
    requires
        old(store).wf(),
    ensures
        final(store).wf(),
        match session_lacks(parsed@, None) {
            Some(k) => r@ == refusal(missing_field(k)) && *final(store) == *old(store),
            None => {
                let w = parsed@.str_at("workspace_basename"@)->0;
                let c = parsed@.str_at("change"@)->0;
                &&& r@ == handed_over("submission"@, old(store).at(w, c))
                &&& takes(*old(store), w, c, old(store).at(w, c), *final(store))
            },
        },
{
    consume_as(parsed, "submission", store)
}

/// The names of the fields tell them apart.
proof fn lemma_field_names()
    ensures
        "ok"@.len() == 2,
        "hits"@.len() == 4,
        "error"@.len() == 5,
        "outcome"@.len() == 7,
        "error_hint"@.len() == 10,
        "submission"@.len() == 10,
        "error_hint"@ != "submission"@,
{
    reveal_strlit("ok");
    reveal_strlit("error");
    reveal_strlit("hits");
    reveal_strlit("error_hint");
    reveal_strlit("outcome");
    reveal_strlit("submission");
    assert("error_hint"@[0] != "submission"@[0]);
}

/// What a question must say, and what is asked: the name of the workspace and the words, in
/// that order, and how many answers are wanted where that is said.
pub proof fn a_question_names_its_workspace(parsed: Json, r: Result<SpecQuery, Json>)
    requires
        call_ensures(SpecQuery::read, (&parsed,), r),
    ensures
        r is Ok <==> parsed@.str_at("workspace_basename"@) is Some && parsed@.str_at("query"@)
            is Some,
        r matches Ok(q) ==> parsed@.str_at("workspace_basename"@) == Some(q.workspace_basename@)
            && parsed@.str_at("query"@) == Some(q.query@) && q.top_k == parsed@.u64_at("top_k"@),
        r matches Err(j) ==> {
            let key = if parsed@.str_at("workspace_basename"@) is None {
                "workspace_basename"@
            } else {
                "query"@
            };
            &&& j@.bool_at("ok"@) == Some(false)
            &&& j@.str_at("error"@) == Some(
                "missing required field: "@ + key + " ("@ + ("missing `"@ + key + "` field"@)
                    + ")"@,
            )
        },
{
    broadcast use {lemma_get_with, lemma_get_empty};

    lemma_field_names();
    assert forall|why: Seq<char>|
        (#[trigger] refusal(why)).bool_at("ok"@) == Some(false) && refusal(why).str_at("error"@)
            == Some(why) by {
        a_refusal_says_why(why);
    }
}

/// What is answered to a question: the hits as they were found, without a hint; or none, and
/// a hint that says why.
pub proof fn an_answer_gives_hits_or_a_hint(answer: SpecAnswer, r: Json)
    requires
        call_ensures(handle_query_canonical_specs, (answer,), r),
    ensures
        r@.bool_at("ok"@) == Some(true),
        answer matches SpecAnswer::Hits(hits) ==> r@.array_at("hits"@) == Some(trees(hits@))
            && r@.get("error_hint"@) is None,
        answer !is Hits ==> (r@.array_at("hits"@) matches Some(a) && a.len() == 0) && r@.str_at(
            "error_hint"@,
        ) == Some(
            match answer {
                SpecAnswer::Inactive => "rag disabled in config"@,
                SpecAnswer::NoStore => "rag init failed; see daemon log"@,
                SpecAnswer::Failed(e) => "query failed: "@ + e@,
                SpecAnswer::Hits(_) => Seq::empty(),
            },
        ),
{
    broadcast use {lemma_get_with, lemma_get_empty};

    lemma_field_names();
    assert forall|why: Seq<char>|
        (#[trigger] refusal(why)).bool_at("ok"@) == Some(false) && refusal(why).str_at("error"@)
            == Some(why) by {
        a_refusal_says_why(why);
    }
}

/// An outcome is kept exactly where the session, the change and a known type are named and
/// its fields are those of the type; it is kept as it has them, under those names, and what
/// other sessions left stays.
pub proof fn an_outcome_is_kept_where_it_is_whole(
    parsed: Json,
    shape: Result<Json, String>,
    store: Ghost<&mut Deposits>,
    r: Json,
)
    requires
        call_ensures(handle_record_outcome, (&parsed, shape, store@), r),
    ensures
        ({
            let workspace = parsed@.str_at("workspace_basename"@);
            let change = parsed@.str_at("change"@);
            let kind = match parsed@.get("outcome"@) {
                Some(outcome) => outcome.str_at("type"@),
                None => None,
            };
            let known = kind == Some("success"@) || kind == Some("spec_needs_revision"@) || kind
                == Some("iteration_request"@);
            let before = *store@;
            let after = *final(store@);
            &&& r@.bool_at("ok"@) == Some(
                workspace is Some && change is Some && known && shape is Ok,
            )
            &&& r@.bool_at("ok"@) == Some(true) ==> {
                &&& after.at(workspace->0, change->0) == Some(shape->Ok_0@)
                &&& forall|w: Seq<char>, c: Seq<char>|
                    w != workspace->0 || c != change->0 ==> #[trigger] after.at(w, c)
                        == before.at(w, c)
            }
            &&& r@.bool_at("ok"@) == Some(false) ==> {
                &&& after == before
                &&& r@.str_at("error"@) == Some(
                    if workspace is None {
                        "missing `"@ + "workspace_basename"@ + "` field"@
                    } else if change is None {
                        "missing `"@ + "change"@ + "` field"@
                    } else if parsed@.get("outcome"@) is None {
                        "missing `outcome` field"@
                    } else if kind is None {
                        "outcome is missing required string `type` discriminator"@
                    } else if !known {
                        "unknown outcome variant tag `"@ + kind->0 + "`"@
                    } else {
                        "malformed outcome payload: "@ + shape->Err_0@
                    },
                )
            }
        }),
{
    broadcast use {lemma_get_with, lemma_get_empty};

    lemma_field_names();
    assert forall|why: Seq<char>|
        (#[trigger] refusal(why)).bool_at("ok"@) == Some(false) && refusal(why).str_at("error"@)
            == Some(why) by {
        a_refusal_says_why(why);
    }
}

/// A submission is kept exactly where the session, the change and the role are named, there
/// is one, and it is what the role asks for; it is kept as it is, under those names, and what
/// other sessions left stays.
pub proof fn a_submission_is_kept_where_it_fits(
    parsed: Json,
    schema: Result<(), String>,
    store: Ghost<&mut Deposits>,
    r: Json,
)
    requires
        call_ensures(handle_record_submission, (&parsed, schema, store@), r),
    ensures
        ({
            let workspace = parsed@.str_at("workspace_basename"@);
            let change = parsed@.str_at("change"@);
            let role = parsed@.str_at("role"@);
            let payload = parsed@.get("payload"@);
            let before = *store@;
            let after = *final(store@);
            &&& r@.bool_at("ok"@) == Some(
                workspace is Some && change is Some && role is Some && payload is Some && schema
                    is Ok,
            )
            &&& r@.bool_at("ok"@) == Some(true) ==> {
                &&& after.at(workspace->0, change->0) == payload
                &&& forall|w: Seq<char>, c: Seq<char>|
                    w != workspace->0 || c != change->0 ==> #[trigger] after.at(w, c)
                        == before.at(w, c)
            }
            &&& r@.bool_at("ok"@) == Some(false) ==> {
                &&& after == before
                &&& r@.str_at("error"@) == Some(
                    if workspace is None {
                        "missing `"@ + "workspace_basename"@ + "` field"@
                    } else if change is None {
                        "missing `"@ + "change"@ + "` field"@
                    } else if role is None {
                        "missing `"@ + "role"@ + "` field"@
                    } else if payload is None {
                        "missing `payload` field"@
                    } else {
                        schema->Err_0@
                    },
                )
            }
        }),
{
    broadcast use {lemma_get_with, lemma_get_empty};

    lemma_field_names();
    assert forall|why: Seq<char>|
        (#[trigger] refusal(why)).bool_at("ok"@) == Some(false) && refusal(why).str_at("error"@)
            == Some(why) by {
        a_refusal_says_why(why);
    }
}

/// What was kept is handed over once: it is given under its name, as it was left, it is gone
/// then, and what other sessions left stays; where nothing was left, null is given.
pub proof fn what_was_kept_is_handed_over(
    parsed: Json,
    store: Ghost<&mut Deposits>,
    r: Json,
    other: Ghost<&mut Deposits>,
    s: Json,
)
    requires
        call_ensures(handle_consume_outcome, (&parsed, store@), r),
        call_ensures(handle_consume_submission, (&parsed, other@), s),
    ensures
        ({
            let workspace = parsed@.str_at("workspace_basename"@);
            let change = parsed@.str_at("change"@);
            let named = workspace is Some && change is Some;
            let missing = if workspace is None {
                "missing `"@ + "workspace_basename"@ + "` field"@
            } else {
                "missing `"@ + "change"@ + "` field"@
            };
            &&& r@.bool_at("ok"@) == Some(named)
            &&& s@.bool_at("ok"@) == Some(named)
            &&& !named ==> {
                &&& *final(store@) == *store@
                &&& *final(other@) == *other@
                &&& r@.str_at("error"@) == Some(missing)
                &&& s@.str_at("error"@) == Some(missing)
            }
            &&& named ==> {
                &&& r@.get("outcome"@) == Some(
                    match (*store@).at(workspace->0, change->0) {
                        Some(v) => v,
                        None => JsonV::Null,
                    },
                )
                &&& s@.get("submission"@) == Some(
                    match (*other@).at(workspace->0, change->0) {
                        Some(v) => v,
                        None => JsonV::Null,
                    },
                )
                &&& (*final(store@)).at(workspace->0, change->0) is None
                &&& (*final(other@)).at(workspace->0, change->0) is None
                &&& forall|w: Seq<char>, c: Seq<char>|
                    w != workspace->0 || c != change->0 ==> #[trigger] (*final(store@)).at(w, c)
                        == (*store@).at(w, c)
                &&& forall|w: Seq<char>, c: Seq<char>|
                    w != workspace->0 || c != change->0 ==> #[trigger] (*final(other@)).at(w, c)
                        == (*other@).at(w, c)
            }
        }),
{
    broadcast use {lemma_get_with, lemma_get_empty};

    lemma_field_names();
    assert forall|why: Seq<char>|
        (#[trigger] refusal(why)).bool_at("ok"@) == Some(false) && refusal(why).str_at("error"@)
            == Some(why) by {
        a_refusal_says_why(why);
    }
}

/// What is left under two names is taken from there, once; nothing is there in the beginning, and
/// what is left under other names stays.
pub proof fn a_store_keeps_what_is_left(
    fresh: Deposits,
    a: Ghost<&mut Deposits>,
    b: Ghost<&mut Deposits>,
    workspace: &str,
    change: &str,
    value: Json,
    r: Option<Json>,
    w: Seq<char>,
    c: Seq<char>,
)
    requires
        call_ensures(Deposits::new, (), fresh),
        (*a@).wf(),
        (*b@).wf(),
        call_ensures(Deposits::record, (a@, workspace, change, value), ()),
        call_ensures(Deposits::consume, (b@, workspace, change), r),
    ensures
        fresh.at(w, c) is None,
        (*final(a@)).at(workspace@, change@) == Some(value@),
        (*final(b@)).at(workspace@, change@) is None,
        r is Some <==> (*b@).at(workspace@, change@) is Some,
        r matches Some(v) ==> (*b@).at(workspace@, change@) == Some(v@),
        w != workspace@ || c != change@ ==> (*final(a@)).at(w, c) == (*a@).at(w, c),
        w != workspace@ || c != change@ ==> (*final(b@)).at(w, c) == (*b@).at(w, c),
{
}

} // verus!
