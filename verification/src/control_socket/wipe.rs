//! Deleting the workspace of a repository. A pass in flight is asked to stop
//! first; the deletion goes ahead whether it did or not.
use vstd::pervasive::unreached;
use vstd::prelude::*;
use crate::control_socket::request::{missing_field, require, Found};
use crate::json::{
    a_refusal_says_why, lemma_get_empty, lemma_get_with, obj, refusal, refuse, Fields, Json, JsonV,
};
use crate::text::{cat3, cat4};

verus! {

/// How a pass in flight is stopped.
#[derive(Debug, Clone, Copy, PartialEq, Eq, Structural)]
pub enum Drain {
    /// No pass is in flight.
    Idle,
    /// Ask it to stop and do not wait.
    CancelOnly,
    /// Ask it to stop and wait for so many seconds at most.
    CancelAndWait { seconds: u64 },
}

/// How a pass in flight is stopped, if there is one.
pub fn drain_for(in_flight: bool, timeout_secs: u64) -> (r: Drain)
    ensures
        r == if !in_flight {
            Drain::Idle
        } else if timeout_secs == 0 {
            Drain::CancelOnly
        } else {
            Drain::CancelAndWait { seconds: timeout_secs }
        },
{
    if !in_flight {
        Drain::Idle
    } else if timeout_secs == 0 {
        Drain::CancelOnly
    } else {
        Drain::CancelAndWait { seconds: timeout_secs }
    }
}

/// What came of the wait for a pass to stop.
#[derive(Debug)]
pub enum Drained {
    /// It stopped; the seconds that it took, as text.
    Cleanly { elapsed: String },
    /// It did not stop in time.
    TimedOut,
}

/// What the operator is told about the pass. Where nobody waited, it may as well
/// be stuck.
pub open spec fn drain_text(drain: Drain, drained: Drained) -> Seq<char> {
    match (drain, drained) {
        (Drain::Idle, _) => "no iteration in flight"@,
        (Drain::CancelAndWait { .. }, Drained::Cleanly { elapsed }) => "drained cleanly in "@
            + elapsed@ + "s"@,
        _ => "drain timeout — iteration may have been stuck"@,
    }
}

/// One thing to do next.
#[derive(Debug)]
pub enum WipeStep {
    /// Stop the pass in flight in this way.
    Drain(Drain),
    /// See whether the workspace is there.
    CheckExists { path: String },
    /// Delete the workspace with all that is in it.
    RemoveDir { path: String },
    /// Answer the request. Nothing comes after it.
    Reply(Json),
}

/// What came of a step.
#[derive(Debug)]
pub enum WipeEvent {
    Drained(Drained),
    Exists(bool),
    Removed(Result<(), String>),
}

#[derive(Debug, Clone, Copy, PartialEq, Eq, Structural)]
pub enum WipeStage {
    Draining,
    Checking,
    Removing,
    Finished,
}

/// The deletion of one workspace.
#[derive(Debug)]
pub struct WipeRun {
    pub url: String,
    pub path: String,
    pub drain: Drain,
    pub drain_outcome: String,
    pub stage: WipeStage,
}

impl WipeRun {
    pub open spec fn expects(self, event: WipeEvent) -> bool {
        match self.stage {
            WipeStage::Draining => event is Drained,
            WipeStage::Checking => event is Exists,
            WipeStage::Removing => event is Removed,
            WipeStage::Finished => false,
        }
    }

    /// The reply where the workspace is gone, by this or before.
    pub open spec fn gone_reply(self, already_absent: bool) -> JsonV {
        obj().flag("ok"@, true).text("path"@, self.path@).text("url"@, self.url@).flag(
            "already_absent"@,
            already_absent,
        ).text("drain_outcome"@, self.drain_outcome@).done()
    }
}

pub open spec fn wipe_ends(before: WipeRun, after: WipeRun, step: WipeStep, reply: JsonV) -> bool {
    &&& after == (WipeRun { stage: WipeStage::Finished, ..before })
    &&& step matches WipeStep::Reply(j)
    &&& j@ == reply
}

/// What follows an event: the stage after it, and the step to take.
pub open spec fn wipe_follows(
    before: WipeRun,
    event: WipeEvent,
    after: WipeRun,
    step: WipeStep,
) -> bool {
    match (before.stage, event) {
        (WipeStage::Draining, WipeEvent::Drained(drained)) => {
            &&& after == (WipeRun {
                stage: WipeStage::Checking,
                drain_outcome: after.drain_outcome,
                ..before
            })
            &&& after.drain_outcome@ == drain_text(before.drain, drained)
            &&& step matches WipeStep::CheckExists { path }
            &&& path@ == before.path@
        },
        (WipeStage::Checking, WipeEvent::Exists(there)) => if there {
            &&& after == (WipeRun { stage: WipeStage::Removing, ..before })
            &&& step matches WipeStep::RemoveDir { path }
            &&& path@ == before.path@
        } else {
            wipe_ends(before, after, step, before.gone_reply(true))
        },
        (WipeStage::Removing, WipeEvent::Removed(Ok(_))) => wipe_ends(
            before,
            after,
            step,
            before.gone_reply(false),
        ),
        (WipeStage::Removing, WipeEvent::Removed(Err(e))) => wipe_ends(
            before,
            after,
            step,
            refusal("removing "@ + before.path@ + ": "@ + e@),
        ),
        _ => false,
    }
}

/// The address that a request to delete a workspace names.
pub fn read_wipe(parsed: &Json) -> (r: Result<String, Json>)
    ensures
        match parsed@.str_at("url"@) {
            Some(url) => r matches Ok(u) && u@ == url,
            None => r matches Err(j) && j@ == refusal(missing_field("url"@)),
        },
{
    require(parsed, "url")
}

impl WipeRun {
    /// Begins the deletion: a pass in flight is stopped first. It is refused
    /// where the repository is unknown.
    pub fn start(url: String, found: Found, in_flight: bool, timeout_secs: u64) -> (r: Result<
        (WipeRun, WipeStep),
        Json,
    >)
        ensures
            match found {
                Err(e) => r matches Err(j) && j@ == refusal(e@),
                Ok(repo) => {
                    &&& r matches Ok((run, step))
                    &&& run.url == url
                    &&& run.path == repo.workspace
                    &&& run.stage is Draining
                    &&& step == WipeStep::Drain(run.drain)
                    &&& run.drain == if !in_flight {
                        Drain::Idle
                    } else if timeout_secs == 0 {
                        Drain::CancelOnly
                    } else {
                        Drain::CancelAndWait { seconds: timeout_secs }
                    }
                },
            },
    {
        match found {
            Err(e) => Err(refuse(e.as_str())),
            Ok(repo) => {
                let drain = drain_for(in_flight, timeout_secs);
                let run = WipeRun {
                    url,
                    path: repo.workspace,
                    drain,
                    drain_outcome: String::new(),
                    stage: WipeStage::Draining,
                };
                Ok((run, WipeStep::Drain(drain)))
            },
        }
    }

    fn end(&mut self, reply: Json) -> (step: WipeStep)
        ensures
            wipe_ends(*old(self), *final(self), step, reply@),
    {
        self.stage = WipeStage::Finished;
        WipeStep::Reply(reply)
    }

    fn gone(&self, already_absent: bool) -> (r: Json)
        ensures
            r@ == self.gone_reply(already_absent),
    {
        Fields::new().flag("ok", true).text("path", self.path.as_str()).text(
            "url",
            self.url.as_str(),
        ).flag("already_absent", already_absent).text(
            "drain_outcome",
            self.drain_outcome.as_str(),
        ).finish()
    }

    fn drain_message(&self, drained: &Drained) -> (r: String)
        ensures
            r@ == drain_text(self.drain, *drained),
    {
        match (self.drain, drained) {
            (Drain::Idle, _) => "no iteration in flight".to_owned(),
            (Drain::CancelAndWait { .. }, Drained::Cleanly { elapsed }) => cat3(
                "drained cleanly in ",
                elapsed.as_str(),
                "s",
            ),
            _ => "drain timeout — iteration may have been stuck".to_owned(),
        }
    }

    /// Takes what came of the last step and says what to do next.
    pub fn advance(&mut self, event: WipeEvent) -> (step: WipeStep)
        requires
            old(self).expects(event),
        ensures
            wipe_follows(*old(self), event, *final(self), step),
    {
        match (self.stage, event) {
            (WipeStage::Draining, WipeEvent::Drained(drained)) => {
                self.drain_outcome = self.drain_message(&drained);
                self.stage = WipeStage::Checking;
                WipeStep::CheckExists { path: self.path.clone() }
            },
            (WipeStage::Checking, WipeEvent::Exists(there)) => {
                if there {
                    self.stage = WipeStage::Removing;
                    WipeStep::RemoveDir { path: self.path.clone() }
                } else {
                    let reply = self.gone(true);
                    self.end(reply)
                }
            },
            (WipeStage::Removing, WipeEvent::Removed(Ok(_))) => {
                let reply = self.gone(false);
                self.end(reply)
            },
            (WipeStage::Removing, WipeEvent::Removed(Err(e))) => {
                let why = cat4("removing ", self.path.as_str(), ": ", e.as_str());
                self.end(refuse(why.as_str()))
            },
            _ => unreached(),
        }
    }
}

/// The deletion does not wait on the pass: whatever came of stopping it, a
/// workspace that is there is deleted next, and one that is not is reported as
/// gone.
pub proof fn wipe_runs_regardless_of_the_drain(
    a: WipeRun,
    b: WipeRun,
    c: WipeRun,
    drained: Drained,
    there: bool,
    look: WipeStep,
    next: WipeStep,
)
    requires
        a.stage is Draining,
        wipe_follows(a, WipeEvent::Drained(drained), b, look),
        wipe_follows(b, WipeEvent::Exists(there), c, next),
    ensures
        there ==> (next matches WipeStep::RemoveDir { path } && path@ == a.path@),
        !there ==> (next matches WipeStep::Reply(j) && j@ == b.gone_reply(true)),
        b.drain_outcome@ == drain_text(a.drain, drained),
{
}

/// A run of a deletion: it begins with a pass in flight being stopped, and each event is
/// answered by the step that follows it.
pub open spec fn is_wipe_run(
    runs: Seq<WipeRun>,
    events: Seq<WipeEvent>,
    steps: Seq<WipeStep>,
) -> bool {
    &&& runs.len() == events.len() + 1
    &&& steps.len() == events.len()
    &&& runs[0].stage is Draining
    &&& forall|i: int|
        0 <= i < events.len() ==> wipe_follows(
            runs[i],
            events[i],
            runs[i + 1],
            #[trigger] steps[i],
        )
}

/// The names of the fields tell them apart.
proof fn lemma_field_names()
    ensures
        "ok"@.len() == 2,
        "url"@.len() == 3,
        "path"@.len() == 4,
        "error"@.len() == 5,
        "drain_outcome"@.len() == 13,
        "already_absent"@.len() == 14,
{
    reveal_strlit("ok");
    reveal_strlit("path");
    reveal_strlit("url");
    reveal_strlit("already_absent");
    reveal_strlit("drain_outcome");
    reveal_strlit("error");
}

proof fn lemma_wipe_at(
    runs: Seq<WipeRun>,
    events: Seq<WipeEvent>,
    steps: Seq<WipeStep>,
    i: int,
)
    requires
        is_wipe_run(runs, events, steps),
        0 <= i < steps.len(),
    ensures
        i <= 2,
        wipe_follows(runs[i], events[i], runs[i + 1], steps[i]),
        runs[i].path == runs[0].path,
        runs[i].url == runs[0].url,
        i == 0 ==> runs[i].stage is Draining,
        i == 1 ==> runs[i].stage is Checking,
        i == 2 ==> runs[i].stage is Removing,
        i > 0 ==> (events[0] matches WipeEvent::Drained(drained) && runs[i].drain_outcome@
            == drain_text(runs[0].drain, drained)),
        i == 2 ==> events[1] == WipeEvent::Exists(true),
    decreases i,
{
    if i > 0 {
        lemma_wipe_at(runs, events, steps, i - 1);
        let prev = steps[i - 1];
        assert(wipe_follows(runs[i - 1], events[i - 1], runs[i - 1 + 1], steps[i - 1]));
        let here = steps[i];
        assert(wipe_follows(runs[i], events[i], runs[i + 1], steps[i]));
    }
}

/// What a deletion does: the workspace is looked for whatever came of stopping the pass,
/// it is deleted exactly where it is there, and nothing else is.
pub proof fn a_wipe_deletes_the_workspace_alone(
    runs: Seq<WipeRun>,
    events: Seq<WipeEvent>,
    steps: Seq<WipeStep>,
    i: int,
)
    requires
        is_wipe_run(runs, events, steps),
        0 <= i < steps.len(),
    ensures
        i == 0 ==> (steps[i] matches WipeStep::CheckExists { path } && path@ == runs[0].path@),
        i == 1 ==> (steps[i] is RemoveDir <==> events[1] == WipeEvent::Exists(true)),
        steps[i] matches WipeStep::RemoveDir { path } ==> path@ == runs[0].path@ && i == 1,
        i == 2 ==> steps[i] is Reply,
        !(steps[i] is Drain),
        steps[i] is Reply ==> i + 1 == steps.len(),
{
    lemma_wipe_at(runs, events, steps, i);
    if i + 1 < steps.len() {
        lemma_wipe_at(runs, events, steps, i + 1);
    }
}

/// What is reported of a deletion: which workspace of which repository is gone, whether
/// it was gone before, and what came of stopping the pass; or why it is not gone. It is
/// reported as gone exactly where it was not there or was deleted.
pub proof fn a_wipe_tells_what_is_gone(
    runs: Seq<WipeRun>,
    events: Seq<WipeEvent>,
    steps: Seq<WipeStep>,
    i: int,
    reply: JsonV,
)
    requires
        is_wipe_run(runs, events, steps),
        0 <= i < steps.len(),
        steps[i] matches WipeStep::Reply(j) && j@ == reply,
    ensures
        reply.bool_at("ok"@) == Some(
            i == 1 || (events[i] matches WipeEvent::Removed(Ok(_))),
        ),
        events[i] matches WipeEvent::Removed(Err(e)) ==> reply.str_at("error"@) == Some(
            "removing "@ + runs[0].path@ + ": "@ + e@,
        ),
        reply.bool_at("ok"@) == Some(true) ==> {
            &&& reply.str_at("path"@) == Some(runs[0].path@)
            &&& reply.str_at("url"@) == Some(runs[0].url@)
            &&& reply.bool_at("already_absent"@) == Some(i == 1)
            &&& events[0] matches WipeEvent::Drained(drained) && reply.str_at("drain_outcome"@)
                == Some(
                match runs[0].drain {
                    Drain::Idle => "no iteration in flight"@,
                    Drain::CancelOnly => "drain timeout — iteration may have been stuck"@,
                    Drain::CancelAndWait { .. } => match drained {
                        Drained::Cleanly { elapsed } => "drained cleanly in "@ + elapsed@ + "s"@,
                        Drained::TimedOut => "drain timeout — iteration may have been stuck"@,
                    },
                },
            )
        },
{
    broadcast use {lemma_get_with, lemma_get_empty};

    lemma_field_names();
    lemma_wipe_at(runs, events, steps, i);
    if let WipeEvent::Removed(Err(e)) = events[i] {
        a_refusal_says_why("removing "@ + runs[0].path@ + ": "@ + e@);
    }
}

/// How a deletion begins: a pass in flight is told to stop, and waited for as long as is
/// given; where none is, nothing is stopped.
pub proof fn a_wipe_stops_the_pass_first(
    url: String,
    found: Found,
    in_flight: bool,
    timeout_secs: u64,
    run: WipeRun,
    step: WipeStep,
)
    requires
        call_ensures(
            WipeRun::start,
            (url, found, in_flight, timeout_secs),
            Ok::<(WipeRun, WipeStep), Json>((run, step)),
        ),
    ensures
        found matches Ok(repo) && run.path@ == repo.workspace@,
        run.url@ == url@,
        run.stage is Draining,
        step == WipeStep::Drain(run.drain),
        run.drain is Idle <==> !in_flight,
        in_flight && timeout_secs > 0 ==> run.drain == (Drain::CancelAndWait {
            seconds: timeout_secs,
        }),
        in_flight && timeout_secs == 0 ==> run.drain is CancelOnly,
{
}

/// A pass in flight is stopped, and waited for where there is time for it; nothing is stopped
/// where none is.
pub proof fn a_pass_in_flight_is_stopped(in_flight: bool, timeout_secs: u64, r: Drain)
    requires
        call_ensures(drain_for, (in_flight, timeout_secs), r),
    ensures
        r is Idle <==> !in_flight,
        r is CancelOnly <==> in_flight && timeout_secs == 0,
        r matches Drain::CancelAndWait { seconds } ==> in_flight && seconds == timeout_secs
            && seconds > 0,
{
}

/// What is done of a wipe with an event is what follows from where it stands.
pub proof fn a_wipe_goes_step_by_step(run: Ghost<&mut WipeRun>, event: WipeEvent, step: WipeStep)
    requires
        (*run@).expects(event),
        call_ensures(WipeRun::advance, (run@, event), step),
    ensures
        wipe_follows(*run@, event, *final(run@), step),
{
}

/// A wipe must name its repository.
pub proof fn a_wipe_names_its_repository(parsed: Json, r: Result<String, Json>)
    requires
        call_ensures(read_wipe, (&parsed,), r),
    ensures
        r is Ok <==> parsed@.str_at("url"@) is Some,
        r matches Ok(u) ==> parsed@.str_at("url"@) == Some(u@),
        r matches Err(j) ==> j@.bool_at("ok"@) == Some(false) && j@.str_at("error"@) == Some(
            "missing `"@ + "url"@ + "` field"@,
        ),
{
    a_refusal_says_why("missing `"@ + "url"@ + "` field"@);
}

} // verus!
