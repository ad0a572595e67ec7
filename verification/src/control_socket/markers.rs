//! Markers on changes: clearing those that block the queue, one change or all
//! of them, and stamping or lifting the marker that lets the queue pass a
//! blocked change.
use vstd::pervasive::unreached;
use vstd::prelude::*;
use crate::control_socket::request::{
    missing_field, optional_str, push_remote, push_remote_name, require, str_or, Found,
    RepositoryConfig,
};
use crate::control_socket::steps::{is_commit, is_push, is_reply, mutates, MarkerScope, Step};
use crate::json::{
    a_refusal_says_why, array_of, lemma_get_empty, lemma_get_with, obj, refusal, refuse, str_array,
    trees, Fields, Json, JsonV,
};
use crate::text::{
    cat2, cat3, cat4, cat5, join, join_texts, lemma_texts_empty, lemma_texts_push, same_text,
    sort_texts, sorted, texts,
};

verus! {

/// The `change` and the `url` that stand for all of them.
pub open spec fn wildcard() -> Seq<char> {
    "*"@
}

/// Which marker a request clears.
#[derive(Debug, Clone, Copy, PartialEq, Eq, Structural)]
pub enum SweepMarkerKind {
    /// `.perma-stuck.json`, and `.ignore-for-queue.json` with it.
    PermaStuck,
    /// `.needs-spec-revision.json`
    Revision,
}

impl SweepMarkerKind {
    pub open spec fn marker(self) -> MarkerScope {
        match self {
            SweepMarkerKind::PermaStuck => MarkerScope::PermaStuck,
            SweepMarkerKind::Revision => MarkerScope::NeedsRevision,
        }
    }

    /// The marker that a request of this kind clears.
    pub fn scope(&self) -> (r: MarkerScope)
        ensures
            r == self.marker(),
    {
        match self {
            SweepMarkerKind::PermaStuck => MarkerScope::PermaStuck,
            SweepMarkerKind::Revision => MarkerScope::NeedsRevision,
        }
    }

    /// The changes with the marker of this kind, out of those with each marker.
    pub fn list_marked(&self, excluded: Result<ExcludedChanges, String>) -> (r: Result<
        Vec<String>,
        String,
    >)
        ensures
            match excluded {
                Err(e) => r == Err::<Vec<String>, String>(e),
                Ok(x) => r == Ok::<Vec<String>, String>(
                    match self {
                        SweepMarkerKind::PermaStuck => x.perma_stuck,
                        SweepMarkerKind::Revision => x.needs_revision,
                    },
                ),
            },
    {
        match excluded {
            Err(e) => Err(e),
            Ok(x) => match self {
                SweepMarkerKind::PermaStuck => Ok(x.perma_stuck),
                SweepMarkerKind::Revision => Ok(x.needs_revision),
            },
        }
    }

    /// Says how the clearing of one change goes on after its marker was removed,
    /// or could not be: the marker that lets the queue pass a stuck change goes
    /// with the one that blocks it.
    pub fn remove_from(&self, removed: Result<(), String>) -> (r: Removal)
        ensures
            match (removed, *self) {
                (Err(e), _) => r == Removal::Settled(Err::<bool, String>(e)),
                (Ok(_), SweepMarkerKind::PermaStuck) => r is RemoveIgnore,
                (Ok(_), SweepMarkerKind::Revision) => r == Removal::Settled(
                    Ok::<bool, String>(false),
                ),
            },
    {
        match removed {
            Err(e) => Removal::Settled(Err(e)),
            Ok(_) => match self {
                SweepMarkerKind::PermaStuck => Removal::RemoveIgnore,
                SweepMarkerKind::Revision => Removal::Settled(Ok(false)),
            },
        }
    }
}

/// The changes that markers keep out of the queue, by marker.
#[derive(Debug)]
pub struct ExcludedChanges {
    pub perma_stuck: Vec<String>,
    pub needs_revision: Vec<String>,
}

/// How the clearing of one change goes on.
#[derive(Debug)]
pub enum Removal {
    /// It is over: whether a second marker went with the first, or what failed.
    Settled(Result<bool, String>),
    /// Remove `.ignore-for-queue.json` if it is there; what comes of that settles it.
    RemoveIgnore,
}

/// What a request to clear a marker names.
#[derive(Debug)]
pub enum ClearRequest {
    /// Every change that carries the marker, in one repository or in all.
    Sweep { url: String },
    /// One change, by its name or the beginning of it.
    One { url: String, change: String },
}

/// What a request must hold: `url` and `change`, else the refusal names the
/// first of them that is missing.
pub open spec fn names_change(v: JsonV) -> Result<(Seq<char>, Seq<char>), JsonV> {
    match (v.str_at("url"@), v.str_at("change"@)) {
        (None, _) => Err(refusal(missing_field("url"@))),
        (Some(_), None) => Err(refusal(missing_field("change"@))),
        (Some(url), Some(change)) => Ok((url, change)),
    }
}

fn read_change(parsed: &Json) -> (r: Result<(String, String), Json>)
    ensures
        match names_change(parsed@) {
            Ok((url, change)) => r matches Ok(p) && p.0@ == url && p.1@ == change,
            Err(e) => r matches Err(j) && j@ == e,
        },
{
    let url = match require(parsed, "url") {
        Ok(s) => s,
        Err(e) => return Err(e),
    };
    match require(parsed, "change") {
        Ok(change) => Ok((url, change)),
        Err(e) => Err(e),
    }
}

impl ClearRequest {
    /// Reads the request, or refuses it. A change named `*` asks for a sweep and
    /// is never looked up as the beginning of a name.
    pub fn read(parsed: &Json) -> (r: Result<ClearRequest, Json>)
        ensures
            match names_change(parsed@) {
                Ok((url, change)) => if change == wildcard() {
                    r matches Ok(ClearRequest::Sweep { url: u }) && u@ == url
                } else {
                    r matches Ok(ClearRequest::One { url: u, change: c }) && u@ == url && c@
                        == change
                },
                Err(e) => r matches Err(j) && j@ == e,
            },
    {
        match read_change(parsed) {
            Ok((url, change)) => {
                if same_text(change.as_str(), "*") {
                    Ok(ClearRequest::Sweep { url })
                } else {
                    Ok(ClearRequest::One { url, change })
                }
            },
            Err(e) => Err(e),
        }
    }
}

/// The repositories of a sweep: all of them where the address is `*`, else the
/// one that answers to it.
pub fn sweep_targets(url: &str, all: Vec<RepositoryConfig>, found: Found) -> (r: Result<
    Vec<RepositoryConfig>,
    Json,
>)
    ensures
        if url@ == wildcard() {
            r == Ok::<Vec<RepositoryConfig>, Json>(all)
        } else {
            match found {
                Ok(repo) => r matches Ok(v) && v@ == seq![repo],
                Err(e) => r matches Err(j) && j@ == refusal(e@),
            }
        },
{
    if same_text(url, "*") {
        return Ok(all);
    }
    match found {
        Ok(repo) => {
            let mut one: Vec<RepositoryConfig> = Vec::new();
            one.push(repo);
            Ok(one)
        },
        Err(e) => Err(refuse(e.as_str())),
    }
}

/// What became of one change in a sweep: whether a second marker went with the
/// first, or why the marker could not be removed.
#[derive(Debug)]
pub struct SweptChange {
    pub change: String,
    pub removal: Result<bool, String>,
}

/// What became of one repository in a sweep.
#[derive(Debug)]
pub struct RepoSweep {
    pub url: String,
    /// The changes that carried the marker, or why they could not be listed.
    pub listing: Result<Vec<SweptChange>, String>,
}

/// The changes whose marker was removed.
pub open spec fn cleared_changes(list: Seq<SweptChange>) -> Seq<Seq<char>>
    decreases list.len(),
{
    if list.len() == 0 {
        Seq::empty()
    } else {
        let before = cleared_changes(list.drop_last());
        if list.last().removal is Ok {
            before.push(list.last().change@)
        } else {
            before
        }
    }
}

/// Whether a second marker went with any of them.
pub open spec fn removed_any_ignore(list: Seq<SweptChange>) -> bool {
    exists|i: int| 0 <= i < list.len() && (#[trigger] list[i]).removal == Ok::<bool, String>(true)
}

/// The failures, each with its change.
pub open spec fn sweep_errors(list: Seq<SweptChange>) -> Seq<Seq<char>>
    decreases list.len(),
{
    if list.len() == 0 {
        Seq::empty()
    } else {
        let before = sweep_errors(list.drop_last());
        match list.last().removal {
            Ok(_) => before,
            Err(e) => before.push(list.last().change@ + ": "@ + e@),
        }
    }
}

/// What a sweep reports of one repository: what was cleared, and every failure.
pub open spec fn sweep_entry(sweep: RepoSweep) -> JsonV {
    match sweep.listing {
        Err(e) => obj().text("url"@, sweep.url@).text(
            "error"@,
            "could not read markers: "@ + e@,
        ).done(),
        Ok(list) => {
            let base = obj().text("url"@, sweep.url@).texts(
                "cleared"@,
                sorted(cleared_changes(list@)),
            ).flag("removed_ignore_for_queue"@, removed_any_ignore(list@));
            if sweep_errors(list@).len() == 0 {
                base.done()
            } else {
                base.text("error"@, join(sweep_errors(list@), "; "@)).done()
            }
        },
    }
}

/// The reply to a sweep: one entry for each repository, in order.
pub open spec fn sweep_reply(sweeps: Seq<RepoSweep>) -> JsonV {
    obj().flag("ok"@, true).with(
        "results"@,
        JsonV::Arr(Seq::new(sweeps.len(), |i: int| sweep_entry(sweeps[i]))),
    ).done()
}

fn report_repo(sweep: &RepoSweep) -> (r: Json)
    ensures
        r@ == sweep_entry(*sweep),
{
    let list = match &sweep.listing {
        Ok(list) => list,
        Err(e) => {
            let why = cat2("could not read markers: ", e.as_str());
            return Fields::new().text("url", sweep.url.as_str()).text(
                "error",
                why.as_str(),
            ).finish();
        },
    };
    let mut cleared: Vec<String> = Vec::new();
    let mut removed_ignore: bool = false;
    let mut errors: Vec<String> = Vec::new();
    let mut i: usize = 0;
    proof {
        lemma_texts_empty();
    }
    while i < list.len()
        invariant
            i <= list@.len(),
            texts(cleared@) == cleared_changes(list@.take(i as int)),
            texts(errors@) == sweep_errors(list@.take(i as int)),
            removed_ignore == removed_any_ignore(list@.take(i as int)),
        decreases list@.len() - i,
    {
        let ghost now = list@.take(i + 1);
        let ghost past = list@.take(i as int);
        proof {
            assert(now.drop_last() =~= past);
            assert(now.last() == list@[i as int]);
            assert forall|k: int| 0 <= k < past.len() implies now[k] == past[k] by {}
            if removed_any_ignore(past) {
                let k = choose|k: int|
                    0 <= k < past.len() && (#[trigger] past[k]).removal == Ok::<bool, String>(true);
                assert(now[k].removal == Ok::<bool, String>(true));
            }
        }
        match &list[i].removal {
            Ok(also_ignore) => {
                removed_ignore = removed_ignore || *also_ignore;
                let name = list[i].change.clone();
                proof {
                    lemma_texts_push(cleared@, name);
                    if *also_ignore {
                        assert(now[i as int].removal == Ok::<bool, String>(true));
                    }
                }
                cleared.push(name);
            },
            Err(e) => {
                let why = cat3(list[i].change.as_str(), ": ", e.as_str());
                proof {
                    lemma_texts_push(errors@, why);
                }
                errors.push(why);
            },
        }
        i += 1;
    }
    proof {
        assert(list@.take(list@.len() as int) =~= list@);
    }
    let in_order = sort_texts(&cleared);
    let base = Fields::new().text("url", sweep.url.as_str()).texts("cleared", &in_order).flag(
        "removed_ignore_for_queue",
        removed_ignore,
    );
    if errors.len() == 0 {
        base.finish()
    } else {
        let why = join_texts(&errors, "; ");
        base.text("error", why.as_str()).finish()
    }
}

/// Reports a sweep: every repository has its entry, whatever failed in it or in
/// another.
pub fn sweep_marker_clear(sweeps: &Vec<RepoSweep>) -> (r: Json)
    ensures
        r@ == sweep_reply(sweeps@),
{
    let mut results: Vec<Json> = Vec::new();
    let mut i: usize = 0;
    while i < sweeps.len()
        invariant
            i <= sweeps@.len(),
            results@.len() == i,
            forall|k: int| 0 <= k < i ==> (#[trigger] results@[k])@ == sweep_entry(sweeps@[k]),
        decreases sweeps@.len() - i,
    {
        results.push(report_repo(&sweeps[i]));
        i += 1;
    }
    proof {
        assert(trees(results@) =~= Seq::new(
            sweeps@.len(),
            |i: int| sweep_entry(sweeps@[i]),
        ));
    }
    Fields::new().flag("ok", true).with("results", array_of(results)).finish()
}

/// A sweep loses nothing: each change that carried the marker is either among
/// the cleared or has a failure of its own.
pub proof fn sweep_accounts_for_every_change(list: Seq<SweptChange>)
    ensures
        cleared_changes(list).len() + sweep_errors(list).len() == list.len(),
        forall|i: int|
            0 <= i < list.len() && (#[trigger] list[i]).removal is Ok ==> cleared_changes(
                list,
            ).contains(list[i].change@),
    decreases list.len(),
{
    if list.len() > 0 {
        let past = list.drop_last();
        sweep_accounts_for_every_change(past);
        assert forall|i: int|
            0 <= i < list.len() && (#[trigger] list[i]).removal is Ok implies cleared_changes(
            list,
        ).contains(list[i].change@) by {
            let done = cleared_changes(list);
            if i < past.len() {
                assert(past[i] == list[i]);
                let k = cleared_changes(past).index_of(list[i].change@);
                assert(done[k] == list[i].change@);
            } else {
                assert(done[done.len() - 1] == list[i].change@);
            }
        }
    }
}

/// What came of a step that clears a marker.
#[derive(Debug)]
pub enum ClearEvent {
    /// The full name of the change, or what the operator is told instead.
    Resolved(Result<String, String>),
    Removed(Result<(), String>),
    /// Whether the second marker was there, too.
    RemovedIgnore(Result<bool, String>),
}

#[derive(Debug, Clone, Copy, PartialEq, Eq, Structural)]
pub enum ClearStage {
    Resolving,
    Removing,
    RemovingIgnore,
    Finished,
}

/// The clearing of the marker of one change.
#[derive(Debug)]
pub struct ClearRun {
    pub kind: SweepMarkerKind,
    pub url: String,
    /// The change as it was asked for, and its full name once that is known.
    pub change: String,
    pub stage: ClearStage,
}

impl ClearRun {
    pub open spec fn expects(self, event: ClearEvent) -> bool {
        match self.stage {
            ClearStage::Resolving => event is Resolved,
            ClearStage::Removing => event is Removed,
            ClearStage::RemovingIgnore => event is RemovedIgnore,
            ClearStage::Finished => false,
        }
    }
}

pub open spec fn clear_ends(before: ClearRun, after: ClearRun, step: Step, reply: JsonV) -> bool {
    after == (ClearRun { stage: ClearStage::Finished, ..before }) && is_reply(step, reply)
}

/// What follows an event: the stage after it, and the step to take.
pub open spec fn clear_follows(
    before: ClearRun,
    event: ClearEvent,
    after: ClearRun,
    step: Step,
) -> bool {
    match (before.stage, event) {
        (ClearStage::Resolving, ClearEvent::Resolved(Ok(name))) => {
            &&& after == (ClearRun { stage: ClearStage::Removing, change: name, ..before })
            &&& step matches Step::RemoveMarker { change, marker }
            &&& change@ == name@
            &&& marker == before.kind.marker()
        },
        (ClearStage::Resolving, ClearEvent::Resolved(Err(e))) => clear_ends(
            before,
            after,
            step,
            refusal(e@),
        ),
        (ClearStage::Removing, ClearEvent::Removed(Ok(_))) => match before.kind {
            SweepMarkerKind::PermaStuck => {
                &&& after == (ClearRun { stage: ClearStage::RemovingIgnore, ..before })
                &&& step matches Step::RemoveMarkerIfPresent { change, marker }
                &&& change@ == before.change@
                &&& marker is IgnoreForQueue
            },
            SweepMarkerKind::Revision => clear_ends(
                before,
                after,
                step,
                obj().flag("ok"@, true).text("change"@, before.change@).text(
                    "url"@,
                    before.url@,
                ).done(),
            ),
        },
        (ClearStage::Removing, ClearEvent::Removed(Err(e))) => clear_ends(
            before,
            after,
            step,
            refusal(e@),
        ),
        (ClearStage::RemovingIgnore, ClearEvent::RemovedIgnore(Ok(removed))) => clear_ends(
            before,
            after,
            step,
            obj().flag("ok"@, true).text("change"@, before.change@).text("url"@, before.url@).flag(
                "removed_ignore_for_queue"@,
                removed,
            ).done(),
        ),
        (ClearStage::RemovingIgnore, ClearEvent::RemovedIgnore(Err(e))) => clear_ends(
            before,
            after,
            step,
            refusal("removed perma-stuck but failed to remove .ignore-for-queue.json: "@ + e@),
        ),
        _ => false,
    }
}

impl ClearRun {
    /// Begins to clear the marker of one change: its full name is looked up
    /// first. It is refused where the repository is unknown.
    pub fn start(kind: SweepMarkerKind, url: String, change: String, found: Found) -> (r: Result<
        (ClearRun, Step),
        Json,
    >)
        ensures
            match found {
                Err(e) => r matches Err(j) && j@ == refusal(e@),
                Ok(_) => {
                    &&& r matches Ok((run, step))
                    &&& run == (ClearRun { kind, url, change, stage: ClearStage::Resolving })
                    &&& step matches Step::ResolveChange { change: c, scope }
                    &&& c@ == change@
                    &&& scope == kind.marker()
                },
            },
    {
        match found {
            Err(e) => Err(refuse(e.as_str())),
            Ok(_) => {
                let step = Step::ResolveChange { change: change.clone(), scope: kind.scope() };
                Ok((ClearRun { kind, url, change, stage: ClearStage::Resolving }, step))
            },
        }
    }

    fn end(&mut self, reply: Json) -> (step: Step)
        ensures
            clear_ends(*old(self), *final(self), step, reply@),
    {
        self.stage = ClearStage::Finished;
        Step::Reply(reply)
    }

    /// Takes what came of the last step and says what to do next.
    pub fn advance(&mut self, event: ClearEvent) -> (step: Step)
        requires
            old(self).expects(event),
        ensures
            clear_follows(*old(self), event, *final(self), step),
    {
        match (self.stage, event) {
            (ClearStage::Resolving, ClearEvent::Resolved(Ok(name))) => {
                self.stage = ClearStage::Removing;
                self.change = name;
                Step::RemoveMarker { change: self.change.clone(), marker: self.kind.scope() }
            },
            (ClearStage::Resolving, ClearEvent::Resolved(Err(e))) => self.end(refuse(e.as_str())),
            (ClearStage::Removing, ClearEvent::Removed(Ok(_))) => {
                match self.kind {
                    SweepMarkerKind::PermaStuck => {
                        self.stage = ClearStage::RemovingIgnore;
                        Step::RemoveMarkerIfPresent {
                            change: self.change.clone(),
                            marker: MarkerScope::IgnoreForQueue,
                        }
                    },
                    SweepMarkerKind::Revision => {
                        let reply = Fields::new().flag("ok", true).text(
                            "change",
                            self.change.as_str(),
                        ).text("url", self.url.as_str()).finish();
                        self.end(reply)
                    },
                }
            },
            (ClearStage::Removing, ClearEvent::Removed(Err(e))) => self.end(refuse(e.as_str())),
            (ClearStage::RemovingIgnore, ClearEvent::RemovedIgnore(Ok(removed))) => {
                let reply = Fields::new().flag("ok", true).text(
                    "change",
                    self.change.as_str(),
                ).text("url", self.url.as_str()).flag(
                    "removed_ignore_for_queue",
                    removed,
                ).finish();
                self.end(reply)
            },
            (ClearStage::RemovingIgnore, ClearEvent::RemovedIgnore(Err(e))) => {
                let why = cat2(
                    "removed perma-stuck but failed to remove .ignore-for-queue.json: ",
                    e.as_str(),
                );
                self.end(refuse(why.as_str()))
            },
            _ => unreached(),
        }
    }
}

/// What a request to stamp the marker names.
#[derive(Debug)]
pub struct IgnoreRequest {
    pub url: String,
    pub change: String,
    pub marked_by: String,
}

impl IgnoreRequest {
    /// Reads the request, or refuses it.
    pub fn read(parsed: &Json) -> (r: Result<IgnoreRequest, Json>)
        ensures
            match names_change(parsed@) {
                Ok((url, change)) => r matches Ok(q) && q.url@ == url && q.change@ == change
                    && q.marked_by@ == str_or(parsed@, "marked_by"@, "operator"@),
                Err(e) => r matches Err(j) && j@ == e,
            },
    {
        match read_change(parsed) {
            Ok((url, change)) => {
                let marked_by = optional_str(parsed, "marked_by", "operator");
                Ok(IgnoreRequest { url, change, marked_by })
            },
            Err(e) => Err(e),
        }
    }

    /// Reads a request to lift the marker, which names nobody.
    pub fn read_clear(parsed: &Json) -> (r: Result<IgnoreRequest, Json>)
        ensures
            match names_change(parsed@) {
                Ok((url, change)) => r matches Ok(q) && q.url@ == url && q.change@ == change
                    && q.marked_by@.len() == 0,
                Err(e) => r matches Err(j) && j@ == e,
            },
    {
        match read_change(parsed) {
            Ok((url, change)) => Ok(IgnoreRequest { url, change, marked_by: String::new() }),
            Err(e) => Err(e),
        }
    }
}

/// What came of a step that stamps or lifts the marker.
#[derive(Debug)]
pub enum IgnoreEvent {
    /// The full name of the change, or what the operator is told instead.
    Resolved(Result<String, String>),
    /// The markers that the change carries.
    Markers { perma_stuck: bool, needs_revision: bool, ignore_for_queue: bool },
    Outcome(Result<(), String>),
}

#[derive(Debug, Clone, Copy, PartialEq, Eq, Structural)]
pub enum IgnoreStage {
    Resolving,
    /// Stamping: is the marker there already?
    Checking,
    Writing,
    /// Lifting: the marker is being removed.
    Removing,
    /// Lifting: what blocks the change now?
    Reading,
    Staging,
    Committing,
    Pushing,
    Finished,
}

/// The stamping (`stamp`) or lifting of the marker of one change. The marker is
/// committed and pushed on the agent branch.
#[derive(Debug)]
pub struct IgnoreRun {
    pub stamp: bool,
    pub url: String,
    pub change: String,
    pub marked_by: String,
    pub agent_branch: String,
    pub fork: bool,
    /// Lifting: what the queue blocks on again.
    pub underlying_marker: String,
    pub stage: IgnoreStage,
}

pub open spec fn underlying(perma_stuck: bool, needs_revision: bool) -> Seq<char> {
    if perma_stuck {
        ".perma-stuck.json"@
    } else if needs_revision {
        ".needs-spec-revision.json"@
    } else {
        "the underlying marker"@
    }
}

impl IgnoreRun {
    pub open spec fn expects(self, event: IgnoreEvent) -> bool {
        match self.stage {
            IgnoreStage::Resolving => event is Resolved,
            IgnoreStage::Checking | IgnoreStage::Reading => event is Markers,
            IgnoreStage::Finished => false,
            _ => event is Outcome,
        }
    }

    pub open spec fn at(self, stage: IgnoreStage) -> IgnoreRun {
        IgnoreRun { stage, ..self }
    }

    pub open spec fn subject(self) -> Seq<char> {
        if self.stamp {
            "chore: ignore-for-queue on "@ + self.change@ + " (operator "@ + self.marked_by@ + ")"@
        } else {
            "chore: clear ignore-for-queue on "@ + self.change@
        }
    }

    pub open spec fn after_what(self) -> Seq<char> {
        if self.stamp {
            "writing"@
        } else {
            "removing"@
        }
    }

    pub open spec fn success(self) -> JsonV {
        let base = obj().flag("ok"@, true).text("change"@, self.change@).text("url"@, self.url@);
        if self.stamp {
            base.done()
        } else {
            base.text("underlying_marker"@, self.underlying_marker@).done()
        }
    }
}

pub open spec fn ignore_ends(
    before: IgnoreRun,
    after: IgnoreRun,
    step: Step,
    reply: JsonV,
) -> bool {
    after == before.at(IgnoreStage::Finished) && is_reply(step, reply)
}

/// What follows an event: the stage after it, and the step to take.
pub open spec fn ignore_follows(
    before: IgnoreRun,
    event: IgnoreEvent,
    after: IgnoreRun,
    step: Step,
) -> bool {
    match (before.stage, event) {
        (IgnoreStage::Resolving, IgnoreEvent::Resolved(Ok(name))) => if before.stamp {
            &&& after == (IgnoreRun { stage: IgnoreStage::Checking, change: name, ..before })
            &&& step matches Step::ReadMarkers { change }
            &&& change@ == name@
        } else {
            &&& after == (IgnoreRun { stage: IgnoreStage::Removing, change: name, ..before })
            &&& step matches Step::RemoveMarker { change, marker }
            &&& change@ == name@
            &&& marker is IgnoreForQueue
        },
        (IgnoreStage::Resolving, IgnoreEvent::Resolved(Err(e))) => ignore_ends(
            before,
            after,
            step,
            refusal(e@),
        ),
        (IgnoreStage::Checking, IgnoreEvent::Markers { ignore_for_queue, .. }) => if ignore_for_queue {
            ignore_ends(
                before,
                after,
                step,
                refusal(before.change@ + " already has .ignore-for-queue.json. No change."@),
            )
        } else {
            &&& after == before.at(IgnoreStage::Writing)
            &&& step matches Step::WriteMarker { change, marked_by }
            &&& change@ == before.change@
            &&& marked_by@ == before.marked_by@
        },
        (IgnoreStage::Writing, IgnoreEvent::Outcome(Ok(_))) => after == before.at(
            IgnoreStage::Staging,
        ) && step is AddAll,
        (IgnoreStage::Writing, IgnoreEvent::Outcome(Err(e))) => ignore_ends(
            before,
            after,
            step,
            refusal("writing marker: "@ + e@),
        ),
        (IgnoreStage::Removing, IgnoreEvent::Outcome(Ok(_))) => {
            &&& after == before.at(IgnoreStage::Reading)
            &&& step matches Step::ReadMarkers { change }
            &&& change@ == before.change@
        },
        (IgnoreStage::Removing, IgnoreEvent::Outcome(Err(e))) => ignore_ends(
            before,
            after,
            step,
            refusal(e@),
        ),
        (
            IgnoreStage::Reading,
            IgnoreEvent::Markers { perma_stuck, needs_revision, .. },
        ) => {
            &&& after == (IgnoreRun {
                stage: IgnoreStage::Staging,
                underlying_marker: after.underlying_marker,
                ..before
            })
            &&& after.underlying_marker@ == underlying(perma_stuck, needs_revision)
            &&& step is AddAll
        },
        (IgnoreStage::Staging, IgnoreEvent::Outcome(Ok(_))) => after == before.at(
            IgnoreStage::Committing,
        ) && is_commit(step, before.subject()),
        (IgnoreStage::Staging, IgnoreEvent::Outcome(Err(e))) => ignore_ends(
            before,
            after,
            step,
            refusal("git add failed after "@ + before.after_what() + " marker: "@ + e@),
        ),
        (IgnoreStage::Committing, IgnoreEvent::Outcome(Ok(_))) => after == before.at(
            IgnoreStage::Pushing,
        ) && is_push(step, before.agent_branch@, push_remote(before.fork)),
        (IgnoreStage::Committing, IgnoreEvent::Outcome(Err(e))) => ignore_ends(
            before,
            after,
            step,
            refusal("git commit failed after "@ + before.after_what() + " marker: "@ + e@),
        ),
        (IgnoreStage::Pushing, IgnoreEvent::Outcome(Ok(_))) => ignore_ends(
            before,
            after,
            step,
            before.success(),
        ),
        (IgnoreStage::Pushing, IgnoreEvent::Outcome(Err(e))) => ignore_ends(
            before,
            after,
            step,
            refusal("git push failed after commit: "@ + e@),
        ),
        _ => false,
    }
}

impl IgnoreRun {
    /// Begins to stamp or lift the marker of one change: its full name is looked
    /// up first, among the blocked changes to stamp it, and among the stamped to
    /// lift it. It is refused where the repository is unknown.
    pub fn start(stamp: bool, request: IgnoreRequest, found: Found, fork: bool) -> (r: Result<
        (IgnoreRun, Step),
        Json,
    >)
        ensures
            match found {
                Err(e) => r matches Err(j) && j@ == refusal(e@),
                Ok(repo) => {
                    &&& r matches Ok((run, step))
                    &&& run.stamp == stamp
                    &&& run.url == request.url
                    &&& run.change == request.change
                    &&& run.marked_by == request.marked_by
                    &&& run.agent_branch == repo.agent_branch
                    &&& run.fork == fork
                    &&& run.stage is Resolving
                    &&& step matches Step::ResolveChange { change, scope }
                    &&& change@ == request.change@
                    &&& scope == if stamp {
                        MarkerScope::EitherBlocking
                    } else {
                        MarkerScope::IgnoreForQueue
                    }
                },
            },
    {
        match found {
            Err(e) => Err(refuse(e.as_str())),
            Ok(repo) => {
                let scope = if stamp {
                    MarkerScope::EitherBlocking
                } else {
                    MarkerScope::IgnoreForQueue
                };
                let step = Step::ResolveChange { change: request.change.clone(), scope };
                let run = IgnoreRun {
                    stamp,
                    url: request.url,
                    change: request.change,
                    marked_by: request.marked_by,
                    agent_branch: repo.agent_branch,
                    fork,
                    underlying_marker: String::new(),
                    stage: IgnoreStage::Resolving,
                };
                Ok((run, step))
            },
        }
    }

    fn end(&mut self, reply: Json) -> (step: Step)
        ensures
            ignore_ends(*old(self), *final(self), step, reply@),
    {
        self.stage = IgnoreStage::Finished;
        Step::Reply(reply)
    }

    fn fail(&mut self, why: String) -> (step: Step)
        ensures
            ignore_ends(*old(self), *final(self), step, refusal(why@)),
    {
        self.end(refuse(why.as_str()))
    }

    fn doing(&self) -> (r: &'static str)
        ensures
            r@ == self.after_what(),
    {
        if self.stamp {
            "writing"
        } else {
            "removing"
        }
    }

    fn commit_subject(&self) -> (r: String)
        ensures
            r@ == self.subject(),
    {
        if self.stamp {
            cat5(
                "chore: ignore-for-queue on ",
                self.change.as_str(),
                " (operator ",
                self.marked_by.as_str(),
                ")",
            )
        } else {
            cat2("chore: clear ignore-for-queue on ", self.change.as_str())
        }
    }

    fn succeed(&self) -> (r: Json)
        ensures
            r@ == self.success(),
    {
        let base = Fields::new().flag("ok", true).text("change", self.change.as_str()).text(
            "url",
            self.url.as_str(),
        );
        if self.stamp {
            base.finish()
        } else {
            base.text("underlying_marker", self.underlying_marker.as_str()).finish()
        }
    }

    fn after_resolve(&mut self, name: String) -> (step: Step)
        requires
            old(self).stage is Resolving,
        ensures
            ignore_follows(*old(self), IgnoreEvent::Resolved(Ok(name)), *final(self), step),
    {
        self.change = name;
        if self.stamp {
            self.stage = IgnoreStage::Checking;
            Step::ReadMarkers { change: self.change.clone() }
        } else {
            self.stage = IgnoreStage::Removing;
            Step::RemoveMarker {
                change: self.change.clone(),
                marker: MarkerScope::IgnoreForQueue,
            }
        }
    }

    /// Takes what came of the last step and says what to do next.
    pub fn advance(&mut self, event: IgnoreEvent) -> (step: Step)
        requires
            old(self).expects(event),
        ensures
            ignore_follows(*old(self), event, *final(self), step),
    {
        match (self.stage, event) {
            (IgnoreStage::Resolving, IgnoreEvent::Resolved(Ok(name))) => self.after_resolve(name),
            (IgnoreStage::Resolving, IgnoreEvent::Resolved(Err(e))) => self.fail(e),
            (IgnoreStage::Checking, IgnoreEvent::Markers { ignore_for_queue, .. }) => {
                if ignore_for_queue {
                    self.fail(
                        cat2(
                            self.change.as_str(),
                            " already has .ignore-for-queue.json. No change.",
                        ),
                    )
                } else {
                    self.stage = IgnoreStage::Writing;
                    Step::WriteMarker {
                        change: self.change.clone(),
                        marked_by: self.marked_by.clone(),
                    }
                }
            },
            (IgnoreStage::Writing, IgnoreEvent::Outcome(Ok(_))) => {
                self.stage = IgnoreStage::Staging;
                Step::AddAll
            },
            (IgnoreStage::Writing, IgnoreEvent::Outcome(Err(e))) => {
                self.fail(cat2("writing marker: ", e.as_str()))
            },
            (IgnoreStage::Removing, IgnoreEvent::Outcome(Ok(_))) => {
                self.stage = IgnoreStage::Reading;
                Step::ReadMarkers { change: self.change.clone() }
            },
            (IgnoreStage::Removing, IgnoreEvent::Outcome(Err(e))) => self.fail(e),
            (IgnoreStage::Reading, IgnoreEvent::Markers { perma_stuck, needs_revision, .. }) => {
                let name = if perma_stuck {
                    ".perma-stuck.json"
                } else if needs_revision {
                    ".needs-spec-revision.json"
                } else {
                    "the underlying marker"
                };
                self.underlying_marker = name.to_owned();
                self.stage = IgnoreStage::Staging;
                Step::AddAll
            },
            (IgnoreStage::Staging, IgnoreEvent::Outcome(Ok(_))) => {
                self.stage = IgnoreStage::Committing;
                Step::Commit { message: self.commit_subject() }
            },
            (IgnoreStage::Staging, IgnoreEvent::Outcome(Err(e))) => {
                self.fail(cat4("git add failed after ", self.doing(), " marker: ", e.as_str()))
            },
            (IgnoreStage::Committing, IgnoreEvent::Outcome(Ok(_))) => {
                self.stage = IgnoreStage::Pushing;
                Step::Push {
                    branch: self.agent_branch.clone(),
                    remote: push_remote_name(self.fork),
                }
            },
            (IgnoreStage::Committing, IgnoreEvent::Outcome(Err(e))) => {
                self.fail(
                    cat4("git commit failed after ", self.doing(), " marker: ", e.as_str()),
                )
            },
            (IgnoreStage::Pushing, IgnoreEvent::Outcome(Ok(_))) => {
                let reply = self.succeed();
                self.end(reply)
            },
            (IgnoreStage::Pushing, IgnoreEvent::Outcome(Err(e))) => {
                self.fail(cat2("git push failed after commit: ", e.as_str()))
            },
            _ => unreached(),
        }
    }
}

/// A change that is stamped already is left alone: no step after the refusal
/// changes anything, and before it nothing was changed.
pub proof fn stamping_twice_changes_nothing(
    before: IgnoreRun,
    event: IgnoreEvent,
    after: IgnoreRun,
    step: Step,
)
    requires
        before.stage is Checking,
        event matches IgnoreEvent::Markers { ignore_for_queue, .. } && ignore_for_queue,
        ignore_follows(before, event, after, step),
    ensures
        !mutates(step),
        after.stage is Finished,
        forall|e: IgnoreEvent| !after.expects(e),
{
}

/// A run of clearing one marker: it begins with the change being looked up, and each
/// event is answered by the step that follows it.
pub open spec fn is_clear_run(
    runs: Seq<ClearRun>,
    events: Seq<ClearEvent>,
    steps: Seq<Step>,
) -> bool {
    &&& runs.len() == events.len() + 1
    &&& steps.len() == events.len()
    &&& runs[0].stage is Resolving
    &&& forall|i: int|
        0 <= i < events.len() ==> clear_follows(
            runs[i],
            events[i],
            runs[i + 1],
            #[trigger] steps[i],
        )
}

/// The names of the fields tell them apart.
proof fn lemma_field_names()
    ensures
        "ok"@.len() == 2,
        "url"@.len() == 3,
        "error"@.len() == 5,
        "change"@.len() == 6,
        "results"@.len() == 7,
        "cleared"@.len() == 7,
        "results"@ != "cleared"@,
        "underlying_marker"@.len() == 17,
        "removed_ignore_for_queue"@.len() == 24,
{
    reveal_strlit("ok");
    reveal_strlit("change");
    reveal_strlit("url");
    reveal_strlit("removed_ignore_for_queue");
    reveal_strlit("error");
    reveal_strlit("underlying_marker");
    reveal_strlit("results");
    reveal_strlit("cleared");
    assert("results"@[0] != "cleared"@[0]);
}

proof fn lemma_clear_at(
    runs: Seq<ClearRun>,
    events: Seq<ClearEvent>,
    steps: Seq<Step>,
    i: int,
)
    requires
        is_clear_run(runs, events, steps),
        0 <= i < steps.len(),
    ensures
        i <= 2,
        clear_follows(runs[i], events[i], runs[i + 1], steps[i]),
        runs[i].kind == runs[0].kind,
        runs[i].url == runs[0].url,
        i == 0 ==> runs[i].stage is Resolving,
        i == 1 ==> runs[i].stage is Removing,
        i == 2 ==> runs[i].stage is RemovingIgnore && runs[0].kind is PermaStuck,
        i >= 1 ==> events[0] == ClearEvent::Resolved(Ok(runs[i].change)),
        i == 2 ==> (events[1] matches ClearEvent::Removed(Ok(_))),
    decreases i,
{
    let here = steps[i];
    assert(clear_follows(runs[i], events[i], runs[i + 1], steps[i]));
    if i > 0 {
        lemma_clear_at(runs, events, steps, i - 1);
        let prev = steps[i - 1];
        assert(clear_follows(runs[i - 1], events[i - 1], runs[i - 1 + 1], steps[i - 1]));
    }
}

/// What is cleared of a change: the marker that was asked for is removed from the change
/// that was found, and where that is the one of a stuck change, the marker that lets the
/// queue pass it goes with it, if it is there. No other marker is touched.
pub proof fn a_marker_is_cleared_with_what_rests_on_it(
    runs: Seq<ClearRun>,
    events: Seq<ClearEvent>,
    steps: Seq<Step>,
    i: int,
)
    requires
        is_clear_run(runs, events, steps),
        0 <= i < steps.len(),
    ensures
        i == 0 && !(steps[i] is Reply) ==> (events[0] matches ClearEvent::Resolved(Ok(name)) && (
        steps[i] matches Step::RemoveMarker { change, marker } && change@ == name@
            && if runs[0].kind is PermaStuck {
            marker is PermaStuck
        } else {
            marker is NeedsRevision
        })),
        i == 1 && (events[1] matches ClearEvent::Removed(Ok(_))) && runs[0].kind is PermaStuck ==> (
        events[0] matches ClearEvent::Resolved(Ok(name)) && (
        steps[i] matches Step::RemoveMarkerIfPresent { change, marker } && change@ == name@
            && marker is IgnoreForQueue)),
        i == 1 && runs[0].kind is Revision ==> steps[i] is Reply,
        i == 2 ==> steps[i] is Reply && runs[0].kind is PermaStuck,
        steps[i] is Reply ==> i + 1 == steps.len(),
{
    lemma_clear_at(runs, events, steps, i);
    if i + 1 < steps.len() {
        lemma_clear_at(runs, events, steps, i + 1);
    }
}

/// What is answered to clearing one marker: that it is cleared, from which change of which
/// repository, and for a stuck change whether the other marker went with it; or the one
/// thing that failed. It is answered as cleared exactly where nothing failed.
pub proof fn a_cleared_marker_is_told(
    runs: Seq<ClearRun>,
    events: Seq<ClearEvent>,
    steps: Seq<Step>,
    i: int,
    reply: JsonV,
)
    requires
        is_clear_run(runs, events, steps),
        0 <= i < steps.len(),
        steps[i] matches Step::Reply(j) && j@ == reply,
    ensures
        match events[i] {
            ClearEvent::Resolved(Err(e)) => reply.bool_at("ok"@) == Some(false) && reply.str_at(
                "error"@,
            ) == Some(e@),
            ClearEvent::Removed(Err(e)) => reply.bool_at("ok"@) == Some(false) && reply.str_at(
                "error"@,
            ) == Some(e@),
            ClearEvent::RemovedIgnore(Err(e)) => reply.bool_at("ok"@) == Some(false)
                && reply.str_at("error"@) == Some(
                "removed perma-stuck but failed to remove .ignore-for-queue.json: "@ + e@,
            ),
            _ => {
                &&& reply.bool_at("ok"@) == Some(true)
                &&& events[0] matches ClearEvent::Resolved(Ok(name)) && reply.str_at("change"@)
                    == Some(name@)
                &&& reply.str_at("url"@) == Some(runs[0].url@)
                &&& i == if runs[0].kind is PermaStuck {
                    2int
                } else {
                    1
                }
                &&& reply.bool_at("removed_ignore_for_queue"@) == match events[i] {
                    ClearEvent::RemovedIgnore(Ok(removed)) => Some(removed),
                    _ => None,
                }
            },
        },
{
    broadcast use {lemma_get_with, lemma_get_empty};

    lemma_field_names();
    lemma_clear_at(runs, events, steps, i);
    assert forall|why: Seq<char>|
        (#[trigger] refusal(why)).bool_at("ok"@) == Some(false) && refusal(why).str_at("error"@)
            == Some(why) by {
        a_refusal_says_why(why);
    }
}

/// A run of stamping or lifting the marker: it begins with the change being looked up,
/// and each event is answered by the step that follows it.
pub open spec fn is_ignore_run(
    runs: Seq<IgnoreRun>,
    events: Seq<IgnoreEvent>,
    steps: Seq<Step>,
) -> bool {
    &&& runs.len() == events.len() + 1
    &&& steps.len() == events.len()
    &&& runs[0].stage is Resolving
    &&& forall|i: int|
        0 <= i < events.len() ==> ignore_follows(
            runs[i],
            events[i],
            runs[i + 1],
            #[trigger] steps[i],
        )
}

proof fn lemma_ignore_at(
    runs: Seq<IgnoreRun>,
    events: Seq<IgnoreEvent>,
    steps: Seq<Step>,
    i: int,
)
    requires
        is_ignore_run(runs, events, steps),
        0 <= i < steps.len(),
    ensures
        i <= 5,
        ignore_follows(runs[i], events[i], runs[i + 1], steps[i]),
        runs[i].stamp == runs[0].stamp,
        runs[i].url == runs[0].url,
        runs[i].marked_by == runs[0].marked_by,
        runs[i].agent_branch == runs[0].agent_branch,
        runs[i].fork == runs[0].fork,
        i >= 1 ==> events[0] == IgnoreEvent::Resolved(Ok(runs[i].change)),
        i == 0 ==> runs[i].stage is Resolving,
        i == 1 ==> runs[i].stage == if runs[0].stamp {
            IgnoreStage::Checking
        } else {
            IgnoreStage::Removing
        },
        i == 2 ==> runs[i].stage == if runs[0].stamp {
            IgnoreStage::Writing
        } else {
            IgnoreStage::Reading
        },
        i == 3 ==> runs[i].stage is Staging,
        i == 4 ==> runs[i].stage is Committing,
        i == 5 ==> runs[i].stage is Pushing,
        i >= 3 && !runs[0].stamp ==> (events[2] matches IgnoreEvent::Markers {
            perma_stuck,
            needs_revision,
            ignore_for_queue,
        } && runs[i].underlying_marker@ == underlying(perma_stuck, needs_revision)),
    decreases i,
{
    let here = steps[i];
    assert(ignore_follows(runs[i], events[i], runs[i + 1], steps[i]));
    if i > 0 {
        lemma_ignore_at(runs, events, steps, i - 1);
        let prev = steps[i - 1];
        assert(ignore_follows(runs[i - 1], events[i - 1], runs[i - 1 + 1], steps[i - 1]));
    }
}

/// The order in which a marker is stamped or lifted. To stamp it, the markers of the
/// change are read and it is written, in the name of who asked; to lift it, it is removed
/// and what is left is read. Either is committed under a subject of its own and pushed on
/// the agent branch, to the fork where there is one.
pub proof fn a_stamp_is_committed_and_pushed(
    runs: Seq<IgnoreRun>,
    events: Seq<IgnoreEvent>,
    steps: Seq<Step>,
    i: int,
)
    requires
        is_ignore_run(runs, events, steps),
        0 <= i < steps.len(),
        !(steps[i] is Reply),
    ensures
        i <= 4,
        events[0] matches IgnoreEvent::Resolved(Ok(name)) && {
            let run = runs[0];
            &&& i == 0 && run.stamp ==> (steps[i] matches Step::ReadMarkers { change } && change@
                == name@)
            &&& i == 0 && !run.stamp ==> (steps[i] matches Step::RemoveMarker { change, marker }
                && change@ == name@ && marker is IgnoreForQueue)
            &&& i == 1 && run.stamp ==> (steps[i] matches Step::WriteMarker { change, marked_by }
                && change@ == name@ && marked_by@ == run.marked_by@)
            &&& i == 1 && !run.stamp ==> (steps[i] matches Step::ReadMarkers { change } && change@
                == name@)
            &&& i == 2 ==> steps[i] is AddAll
            &&& i == 3 ==> (steps[i] matches Step::Commit { message } && message@ == if run.stamp {
                "chore: ignore-for-queue on "@ + name@ + " (operator "@ + run.marked_by@ + ")"@
            } else {
                "chore: clear ignore-for-queue on "@ + name@
            })
            &&& i == 4 ==> (steps[i] matches Step::Push { branch, remote } && branch@
                == run.agent_branch@ && remote@ == if run.fork {
                "fork"@
            } else {
                "origin"@
            })
        },
{
    lemma_ignore_at(runs, events, steps, i);
}

/// What is answered to stamping or lifting a marker: that it is done, for which change of
/// which repository, and after lifting it what the queue blocks on again; or the one thing
/// that failed. A change that carries the marker already is not stamped.
pub proof fn a_stamp_is_told(
    runs: Seq<IgnoreRun>,
    events: Seq<IgnoreEvent>,
    steps: Seq<Step>,
    i: int,
)
    requires
        is_ignore_run(runs, events, steps),
        0 <= i < steps.len(),
    ensures
        ({
            let run = runs[0];
            let doing = if run.stamp {
                "writing"@
            } else {
                "removing"@
            };
            let failure = match events[i] {
                IgnoreEvent::Resolved(Err(e)) => Some(e@),
                IgnoreEvent::Markers { ignore_for_queue, .. } => if run.stamp && ignore_for_queue {
                    match events[0] {
                        IgnoreEvent::Resolved(Ok(name)) => Some(
                            name@ + " already has .ignore-for-queue.json. No change."@,
                        ),
                        _ => None,
                    }
                } else {
                    None
                },
                IgnoreEvent::Outcome(Err(e)) => if i == 2 {
                    Some("writing marker: "@ + e@)
                } else if i == 1 {
                    Some(e@)
                } else if i == 3 {
                    Some("git add failed after "@ + doing + " marker: "@ + e@)
                } else if i == 4 {
                    Some("git commit failed after "@ + doing + " marker: "@ + e@)
                } else {
                    Some("git push failed after commit: "@ + e@)
                },
                _ => None,
            };
            &&& failure matches Some(why) ==> (steps[i] matches Step::Reply(reply)
                && reply@.bool_at("ok"@) == Some(false) && reply@.str_at("error"@) == Some(why))
            &&& failure is None ==> (steps[i] is Reply <==> i == 5)
            &&& failure is None && i == 5 ==> (events[0] matches IgnoreEvent::Resolved(Ok(name))
                && (steps[i] matches Step::Reply(reply) && {
                &&& reply@.bool_at("ok"@) == Some(true)
                &&& reply@.str_at("change"@) == Some(name@)
                &&& reply@.str_at("url"@) == Some(run.url@)
                &&& run.stamp ==> reply@.get("underlying_marker"@) is None
                &&& !run.stamp ==> (events[2] matches IgnoreEvent::Markers {
                    perma_stuck,
                    needs_revision,
                    ignore_for_queue,
                } && reply@.str_at("underlying_marker"@) == Some(
                    if perma_stuck {
                        ".perma-stuck.json"@
                    } else if needs_revision {
                        ".needs-spec-revision.json"@
                    } else {
                        "the underlying marker"@
                    },
                ))
            }))
            &&& steps[i] is Reply ==> i + 1 == steps.len()
        }),
{
    broadcast use {lemma_get_with, lemma_get_empty};

    lemma_field_names();
    lemma_ignore_at(runs, events, steps, i);
    if i + 1 < steps.len() {
        lemma_ignore_at(runs, events, steps, i + 1);
    }
    assert forall|why: Seq<char>|
        (#[trigger] refusal(why)).bool_at("ok"@) == Some(false) && refusal(why).str_at("error"@)
            == Some(why) by {
        a_refusal_says_why(why);
    }
}

/// How stamping and lifting begin: the change is looked up among those that a marker
/// blocks to stamp it, and among those that are stamped to lift it.
pub proof fn a_stamp_begins_as_asked(
    stamp: bool,
    request: IgnoreRequest,
    found: Found,
    fork: bool,
    run: IgnoreRun,
    step: Step,
)
    requires
        call_ensures(
            IgnoreRun::start,
            (stamp, request, found, fork),
            Ok::<(IgnoreRun, Step), Json>((run, step)),
        ),
    ensures
        found matches Ok(repo) && run.agent_branch@ == repo.agent_branch@,
        run.stamp == stamp,
        run.url@ == request.url@,
        run.marked_by@ == request.marked_by@,
        run.fork == fork,
        run.stage is Resolving,
        step matches Step::ResolveChange { change, scope } && change@ == request.change@
            && if stamp {
            scope is EitherBlocking
        } else {
            scope is IgnoreForQueue
        },
{
}

/// How clearing begins: the change is looked up among those that carry the marker that
/// was asked for.
pub proof fn a_clearing_begins_as_asked(
    kind: SweepMarkerKind,
    url: String,
    change: String,
    found: Found,
    run: ClearRun,
    step: Step,
)
    requires
        call_ensures(
            ClearRun::start,
            (kind, url, change, found),
            Ok::<(ClearRun, Step), Json>((run, step)),
        ),
    ensures
        found is Ok,
        run.kind == kind,
        run.url@ == url@,
        run.stage is Resolving,
        step matches Step::ResolveChange { change: c, scope } && c@ == change@ && if kind
            is PermaStuck {
            scope is PermaStuck
        } else {
            scope is NeedsRevision
        },
{
}

/// What a request about markers names: `url` and `change` are required, in that order, and
/// a change of `*` asks for all of them, and nothing else does.
pub proof fn a_star_asks_for_a_sweep(parsed: Json, r: Result<ClearRequest, Json>)
    requires
        call_ensures(ClearRequest::read, (&parsed,), r),
    ensures
        match (parsed@.str_at("url"@), parsed@.str_at("change"@)) {
            (Some(u), Some(c)) => if c == "*"@ {
                r matches Ok(ClearRequest::Sweep { url }) && url@ == u
            } else {
                r matches Ok(ClearRequest::One { url, change }) && url@ == u && change@ == c
            },
            (None, _) => r matches Err(j) && j@.bool_at("ok"@) == Some(false) && j@.str_at(
                "error"@,
            ) == Some("missing `"@ + "url"@ + "` field"@),
            (Some(_), None) => r matches Err(j) && j@.bool_at("ok"@) == Some(false) && j@.str_at(
                "error"@,
            ) == Some("missing `"@ + "change"@ + "` field"@),
        },
{
    a_refusal_says_why("missing `"@ + "url"@ + "` field"@);
    a_refusal_says_why("missing `"@ + "change"@ + "` field"@);
}

/// Who stamps a marker is who the request names, and the operator where it names nobody.
pub proof fn a_stamp_bears_a_name(parsed: Json, r: IgnoreRequest)
    requires
        call_ensures(IgnoreRequest::read, (&parsed,), Ok::<IgnoreRequest, Json>(r)),
    ensures
        parsed@.str_at("url"@) == Some(r.url@),
        parsed@.str_at("change"@) == Some(r.change@),
        r.marked_by@ == match parsed@.str_at("marked_by"@) {
            Some(who) => who,
            None => "operator"@,
        },
{
}

/// Which repositories are swept: all for the address `*`, and otherwise the one that was
/// found.
pub proof fn a_star_sweeps_every_repository(
    url: &str,
    all: Vec<RepositoryConfig>,
    found: Found,
    r: Result<Vec<RepositoryConfig>, Json>,
)
    requires
        call_ensures(sweep_targets, (url, all, found), r),
    ensures
        url@ == "*"@ ==> (r matches Ok(v) && v@ == all@),
        url@ != "*"@ ==> match found {
            Ok(repo) => r matches Ok(v) && v@.len() == 1 && v@[0] == repo,
            Err(e) => r matches Err(j) && j@.str_at("error"@) == Some(e@),
        },
{
    if let Err(e) = found {
        a_refusal_says_why(e@);
    }
}

/// A sweep goes change by change: what is cleared of a list in two parts, and what failed
/// in it, is that of the one and of the other; and of one change it is the change where
/// its marker was removed, and the failure under its name otherwise.
pub proof fn a_sweep_goes_change_by_change(list: Seq<SweptChange>, more: Seq<SweptChange>)
    ensures
        list.len() == 1 ==> match list[0].removal {
            Ok(_) => cleared_changes(list) == seq![list[0].change@] && sweep_errors(list).len()
                == 0,
            Err(e) => cleared_changes(list).len() == 0 && sweep_errors(list) == seq![
                list[0].change@ + ": "@ + e@,
            ],
        },
        cleared_changes(list + more) == cleared_changes(list) + cleared_changes(more),
        sweep_errors(list + more) == sweep_errors(list) + sweep_errors(more),
    decreases more.len(),
{
    if list.len() == 1 {
        assert(list.drop_last() =~= Seq::<SweptChange>::empty());
        assert(cleared_changes(list.drop_last()) =~= Seq::<Seq<char>>::empty());
        assert(sweep_errors(list.drop_last()) =~= Seq::<Seq<char>>::empty());
        match list[0].removal {
            Ok(_) => {
                assert(cleared_changes(list) =~= seq![list[0].change@]);
            },
            Err(e) => {
                assert(sweep_errors(list) =~= seq![list[0].change@ + ": "@ + e@]);
            },
        }
    }
    if more.len() == 0 {
        assert(list + more =~= list);
        assert(cleared_changes(list) + cleared_changes(more) =~= cleared_changes(list));
        assert(sweep_errors(list) + sweep_errors(more) =~= sweep_errors(list));
    } else {
        a_sweep_goes_change_by_change(list, more.drop_last());
        assert((list + more).drop_last() =~= list + more.drop_last());
        assert((list + more).last() == more.last());
        assert(cleared_changes(list + more) =~= cleared_changes(list) + cleared_changes(more));
        assert(sweep_errors(list + more) =~= sweep_errors(list) + sweep_errors(more));
    }
}

/// What a sweep tells of each repository, in their order: where its markers could be read,
/// what was cleared, in the order of the names, whether a second marker went with any of
/// them, and all that failed, where anything did; and otherwise why they could not be read.
pub proof fn a_sweep_tells_of_every_repository(sweeps: Seq<RepoSweep>, i: int)
    requires
        0 <= i < sweeps.len(),
    ensures
        sweep_reply(sweeps).bool_at("ok"@) == Some(true),
        sweep_reply(sweeps).array_at("results"@) matches Some(entries) && {
            &&& entries.len() == sweeps.len()
            &&& entries[i].str_at("url"@) == Some(sweeps[i].url@)
            &&& match sweeps[i].listing {
                Err(e) => entries[i].str_at("error"@) == Some("could not read markers: "@ + e@)
                    && entries[i].get("cleared"@) is None,
                Ok(list) => {
                    &&& entries[i].get("cleared"@) == Some(
                        str_array(sorted(cleared_changes(list@))),
                    )
                    &&& entries[i].bool_at("removed_ignore_for_queue"@) == Some(
                        exists|k: int|
                            0 <= k < list@.len() && (#[trigger] list@[k]).removal == Ok::<
                                bool,
                                String,
                            >(true),
                    )
                    &&& entries[i].str_at("error"@) == if sweep_errors(list@).len() == 0 {
                        None
                    } else {
                        Some(join(sweep_errors(list@), "; "@))
                    }
                },
            }
        },
{
    broadcast use {lemma_get_with, lemma_get_empty};

    lemma_field_names();
}

/// Which changes are swept, and what is removed of each: those with the marker that was
/// asked for; with that of a stuck change, once it is gone, the marker that lets the queue
/// pass it.
pub proof fn a_sweep_takes_its_own_marker(
    kind: SweepMarkerKind,
    x: ExcludedChanges,
    r: Result<Vec<String>, String>,
    removed: Result<(), String>,
    next: Removal,
)
    requires
        call_ensures(
            SweepMarkerKind::list_marked,
            (&kind, Ok::<ExcludedChanges, String>(x)),
            r,
        ),
        call_ensures(SweepMarkerKind::remove_from, (&kind, removed), next),
    ensures
        kind is PermaStuck ==> (r matches Ok(v) && v@ == x.perma_stuck@),
        kind is Revision ==> (r matches Ok(v) && v@ == x.needs_revision@),
        next is RemoveIgnore <==> removed is Ok && kind is PermaStuck,
        removed matches Err(e) ==> next == Removal::Settled(Err::<bool, String>(e)),
        removed is Ok && kind is Revision ==> next == Removal::Settled(Ok::<bool, String>(false)),
{
}

/// What is done of a clearing with an event is what follows from where it stands.
pub proof fn a_clearing_goes_step_by_step(run: Ghost<&mut ClearRun>, event: ClearEvent, step: Step)
    requires
        (*run@).expects(event),
        call_ensures(ClearRun::advance, (run@, event), step),
    ensures
        clear_follows(*run@, event, *final(run@), step),
{
}

/// What is done of a stamp with an event is what follows from where it stands.
pub proof fn a_stamp_goes_step_by_step(run: Ghost<&mut IgnoreRun>, event: IgnoreEvent, step: Step)
    requires
        (*run@).expects(event),
        call_ensures(IgnoreRun::advance, (run@, event), step),
    ensures
        ignore_follows(*run@, event, *final(run@), step),
{
}

/// A sweep is about the marker of its kind, and answers with what it came to; a clearing must name
/// the repository and the change.
pub proof fn a_sweep_answers_with_what_it_came_to(
    kind: SweepMarkerKind,
    scope: MarkerScope,
    sweeps: Vec<RepoSweep>,
    reply: Json,
    parsed: Json,
    r: Result<IgnoreRequest, Json>,
)
    requires
        call_ensures(SweepMarkerKind::scope, (&kind,), scope),
        call_ensures(sweep_marker_clear, (&sweeps,), reply),
        call_ensures(IgnoreRequest::read_clear, (&parsed,), r),
    ensures
        kind is PermaStuck ==> scope is PermaStuck,
        kind is Revision ==> scope is NeedsRevision,
        reply@ == sweep_reply(sweeps@),
        r is Ok <==> parsed@.str_at("url"@) is Some && parsed@.str_at("change"@) is Some,
        r matches Ok(q) ==> parsed@.str_at("url"@) == Some(q.url@) && parsed@.str_at("change"@)
            == Some(q.change@) && q.marked_by@.len() == 0,
        r matches Err(j) ==> j@.bool_at("ok"@) == Some(false) && j@.str_at("error"@) == Some(
            if parsed@.str_at("url"@) is None {
                "missing `"@ + "url"@ + "` field"@
            } else {
                "missing `"@ + "change"@ + "` field"@
            },
        ),
{
    assert forall|why: Seq<char>| (#[trigger] refusal(why)).bool_at("ok"@) == Some(false)
        && refusal(why).str_at("error"@) == Some(why) by {
        a_refusal_says_why(why);
    }
}

} // verus!
