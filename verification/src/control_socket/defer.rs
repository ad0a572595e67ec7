//! Setting a unit of work aside and taking it up again. A change is a
//! directory, an issue a file or a directory; both move between a lane and the
//! deferred area on a fresh agent branch, which is pushed and offered as a pull
//! request.
use vstd::pervasive::unreached;
use vstd::prelude::*;
use crate::control_socket::request::{
    missing_field, push_remote, push_remote_name, require, Fork, Found, RepositoryConfig,
};
use crate::control_socket::steps::{
    is_checkout, is_commit, is_link, is_move, is_open_pr, is_push, is_recreate, is_reply, is_reset,
    mutates, preempts, Acquired, BranchLink, Event, Step,
};
use crate::json::{
    a_refusal_says_why, lemma_get_empty, lemma_get_with, obj, refusal, refuse, Fields, Json, JsonV,
};
use crate::path::{beneath, join_path, joined, strip_prefix, trim_tail, without_tail};
use crate::text::{
    cat2, cat3, cat4, cat5, chars_of, find, join, join_texts, lemma_join_holds, opt_text, texts,
};

verus! {

/// The form that a unit of work has on disk.
#[derive(Debug, Clone, Copy, PartialEq, Eq, Structural)]
pub enum DeferKind {
    /// `openspec/changes/<slug>` and `deferred-changes/<slug>`.
    Change,
    /// `issues/<slug>.md` and `deferred-issues/<slug>.md`.
    IssueFile,
    /// `issues/<slug>` and `deferred-issues/<slug>`.
    IssueDir,
}

/// Where a unit stands in its lane and in the deferred area.
#[derive(Debug)]
pub struct DeferPaths {
    pub lane: String,
    pub deferred: String,
}

impl DeferKind {
    pub open spec fn label_text(self) -> Seq<char> {
        match self {
            DeferKind::Change => "change"@,
            DeferKind::IssueFile | DeferKind::IssueDir => "issue"@,
        }
    }

    /// The file name of the unit.
    pub open spec fn file_name(self, slug: Seq<char>) -> Seq<char> {
        match self {
            DeferKind::IssueFile => slug + ".md"@,
            _ => slug,
        }
    }

    /// The directory of the lane, seen from the workspace.
    pub open spec fn lane_dir(self) -> Seq<char> {
        match self {
            DeferKind::Change => "openspec/changes"@,
            _ => "issues"@,
        }
    }

    /// The directory of the deferred area, seen from the workspace.
    pub open spec fn deferred_dir(self) -> Seq<char> {
        match self {
            DeferKind::Change => "deferred-changes"@,
            _ => "deferred-issues"@,
        }
    }

    pub open spec fn lane_path(self, workspace: Seq<char>, slug: Seq<char>) -> Seq<char> {
        joined(joined(workspace, self.lane_dir()), self.file_name(slug))
    }

    pub open spec fn deferred_path(self, workspace: Seq<char>, slug: Seq<char>) -> Seq<char> {
        joined(joined(workspace, self.deferred_dir()), self.file_name(slug))
    }

    /// What a unit of this form is called.
    pub fn label(&self) -> (r: &'static str)
        ensures
            r@ == self.label_text(),
    {
        match self {
            DeferKind::Change => "change",
            DeferKind::IssueFile | DeferKind::IssueDir => "issue",
        }
    }

    fn dirs(&self) -> (r: (&'static str, &'static str))
        ensures
            r.0@ == self.lane_dir(),
            r.1@ == self.deferred_dir(),
    {
        match self {
            DeferKind::Change => ("openspec/changes", "deferred-changes"),
            DeferKind::IssueFile | DeferKind::IssueDir => ("issues", "deferred-issues"),
        }
    }

    fn name(&self, slug: &str) -> (r: String)
        ensures
            r@ == self.file_name(slug@),
    {
        match self {
            DeferKind::IssueFile => cat2(slug, ".md"),
            DeferKind::Change | DeferKind::IssueDir => slug.to_owned(),
        }
    }

    /// Where the unit stands in its lane and in the deferred area.
    pub fn paths(&self, workspace: &str, slug: &str) -> (r: DeferPaths)
        ensures
            r.lane@ == self.lane_path(workspace@, slug@),
            r.deferred@ == self.deferred_path(workspace@, slug@),
    {
        let (lane_dir, deferred_dir) = self.dirs();
        let name = self.name(slug);
        DeferPaths {
            lane: join_path(join_path(workspace, lane_dir).as_str(), name.as_str()),
            deferred: join_path(join_path(workspace, deferred_dir).as_str(), name.as_str()),
        }
    }
}

/// Which forms of a unit are there in one place.
#[derive(Debug, Clone, Copy, PartialEq, Eq, Structural)]
pub struct Forms {
    pub change: bool,
    pub issue_file: bool,
    pub issue_dir: bool,
}

impl Forms {
    /// The forms that are there, changes first.
    pub open spec fn kinds(self) -> Seq<DeferKind> {
        let a = if self.change {
            seq![DeferKind::Change]
        } else {
            Seq::empty()
        };
        let b = if self.issue_file {
            a.push(DeferKind::IssueFile)
        } else {
            a
        };
        if self.issue_dir {
            b.push(DeferKind::IssueDir)
        } else {
            b
        }
    }

    pub open spec fn has(self, kind: DeferKind) -> bool {
        match kind {
            DeferKind::Change => self.change,
            DeferKind::IssueFile => self.issue_file,
            DeferKind::IssueDir => self.issue_dir,
        }
    }

    pub open spec fn set(self, kind: DeferKind, there: bool) -> Forms {
        match kind {
            DeferKind::Change => Forms { change: there, ..self },
            DeferKind::IssueFile => Forms { issue_file: there, ..self },
            DeferKind::IssueDir => Forms { issue_dir: there, ..self },
        }
    }

    fn list(&self) -> (r: Vec<DeferKind>)
        ensures
            r@ == self.kinds(),
    {
        let mut out: Vec<DeferKind> = Vec::new();
        if self.change {
            out.push(DeferKind::Change);
        }
        if self.issue_file {
            out.push(DeferKind::IssueFile);
        }
        if self.issue_dir {
            out.push(DeferKind::IssueDir);
        }
        out
    }
}

/// Which forms of a unit are in the lanes and in the deferred area.
#[derive(Debug, Clone, Copy, PartialEq, Eq, Structural)]
pub struct Places {
    pub lane: Forms,
    pub deferred: Forms,
}

impl Places {
    /// Where the unit comes from.
    pub open spec fn source(self, defer: bool) -> Forms {
        if defer {
            self.lane
        } else {
            self.deferred
        }
    }

    /// Where the unit goes.
    pub open spec fn target(self, defer: bool) -> Forms {
        if defer {
            self.deferred
        } else {
            self.lane
        }
    }

    /// The places after one form has moved.
    pub open spec fn moved(self, kind: DeferKind, defer: bool) -> Places {
        Places {
            lane: self.lane.set(kind, !defer),
            deferred: self.deferred.set(kind, defer),
        }
    }
}

/// Where a unit was found.
#[derive(Debug)]
pub enum DeferLocate {
    /// It is where it comes from: a move is required.
    NeedsMove(DeferKind),
    /// It is where it goes already.
    AlreadyDone(DeferKind),
    /// It is in neither place.
    NotFound,
    /// The slug names more than one unit; the text names them.
    Ambiguous(String),
}

/// The path that a unit comes from.
pub open spec fn source_path(
    kind: DeferKind,
    workspace: Seq<char>,
    slug: Seq<char>,
    defer: bool,
) -> Seq<char> {
    if defer {
        kind.lane_path(workspace, slug)
    } else {
        kind.deferred_path(workspace, slug)
    }
}

/// The path that a unit goes to.
pub open spec fn target_path(
    kind: DeferKind,
    workspace: Seq<char>,
    slug: Seq<char>,
    defer: bool,
) -> Seq<char> {
    source_path(kind, workspace, slug, !defer)
}

/// The candidates of an ambiguous slug, each by its path and what it is.
pub open spec fn candidates(
    kinds: Seq<DeferKind>,
    workspace: Seq<char>,
    slug: Seq<char>,
    in_lane: bool,
) -> Seq<char> {
    join(
        Seq::new(
            kinds.len(),
            |i: int|
                source_path(kinds[i], workspace, slug, in_lane) + " ("@ + kinds[i].label_text()
                    + ")"@,
        ),
        " AND "@,
    )
}

/// The mathematical counterpart of [`DeferLocate`].
pub enum LocateV {
    NeedsMove(DeferKind),
    AlreadyDone(DeferKind),
    NotFound,
    Ambiguous(Seq<char>),
}

impl DeferLocate {
    pub open spec fn view(&self) -> LocateV {
        match self {
            DeferLocate::NeedsMove(kind) => LocateV::NeedsMove(*kind),
            DeferLocate::AlreadyDone(kind) => LocateV::AlreadyDone(*kind),
            DeferLocate::NotFound => LocateV::NotFound,
            DeferLocate::Ambiguous(names) => LocateV::Ambiguous(names@),
        }
    }
}

/// Where a unit is found: where it comes from, else where it goes, and
/// ambiguous where several units share the slug in one place.
pub open spec fn location(
    places: Places,
    workspace: Seq<char>,
    slug: Seq<char>,
    defer: bool,
) -> LocateV {
    let here = places.source(defer).kinds();
    let there = places.target(defer).kinds();
    if here.len() > 1 {
        LocateV::Ambiguous(candidates(here, workspace, slug, defer))
    } else if here.len() == 1 {
        LocateV::NeedsMove(here[0])
    } else if there.len() > 1 {
        LocateV::Ambiguous(candidates(there, workspace, slug, !defer))
    } else if there.len() == 1 {
        LocateV::AlreadyDone(there[0])
    } else {
        LocateV::NotFound
    }
}

fn name_candidates(kinds: &Vec<DeferKind>, workspace: &str, slug: &str, in_lane: bool) -> (r: String)
    ensures
        r@ == candidates(kinds@, workspace@, slug@, in_lane),
{
    let mut names: Vec<String> = Vec::new();
    let mut i: usize = 0;
    while i < kinds.len()
        invariant
            i <= kinds@.len(),
            names@.len() == i,
            forall|k: int|
                0 <= k < i ==> (#[trigger] names@[k])@ == source_path(
                    kinds@[k],
                    workspace@,
                    slug@,
                    in_lane,
                ) + " ("@ + kinds@[k].label_text() + ")"@,
        decreases kinds@.len() - i,
    {
        let paths = kinds[i].paths(workspace, slug);
        let path = if in_lane {
            paths.lane
        } else {
            paths.deferred
        };
        names.push(cat4(path.as_str(), " (", kinds[i].label(), ")"));
        i += 1;
    }
    proof {
        assert(texts(names@) =~= Seq::new(
            kinds@.len(),
            |i: int|
                source_path(kinds@[i], workspace@, slug@, in_lane) + " ("@ + kinds@[i].label_text()
                    + ")"@,
        ));
    }
    join_texts(&names, " AND ")
}

/// Says from what is on disk whether a unit is to be moved.
pub fn classify_defer(places: &Places, workspace: &str, slug: &str, defer: bool) -> (r: DeferLocate)
    ensures
        r@ == location(*places, workspace@, slug@, defer),
{
    let (source, target) = if defer {
        (places.lane, places.deferred)
    } else {
        (places.deferred, places.lane)
    };
    let here = source.list();
    if here.len() > 1 {
        return DeferLocate::Ambiguous(name_candidates(&here, workspace, slug, defer));
    }
    if here.len() == 1 {
        return DeferLocate::NeedsMove(here[0]);
    }
    let there = target.list();
    if there.len() > 1 {
        return DeferLocate::Ambiguous(name_candidates(&there, workspace, slug, !defer));
    }
    if there.len() == 1 {
        return DeferLocate::AlreadyDone(there[0]);
    }
    DeferLocate::NotFound
}

/// Says whether a unit is to be set aside.
pub fn locate_for_defer(places: &Places, workspace: &str, slug: &str) -> (r: DeferLocate)
    ensures
        r@ == location(*places, workspace@, slug@, true),
{
    classify_defer(places, workspace, slug, true)
}

/// Says whether a unit is to be taken up again.
pub fn locate_for_undefer(places: &Places, workspace: &str, slug: &str) -> (r: DeferLocate)
    ensures
        r@ == location(*places, workspace@, slug@, false),
{
    classify_defer(places, workspace, slug, false)
}

/// Taking up again is the exact inverse of setting aside: a unit that was set
/// aside is there to be taken up, setting it aside once more finds it done, the
/// second move goes back the way of the first, and both together leave
/// everything where it was.
pub proof fn undefer_inverts_defer(
    places: Places,
    kind: DeferKind,
    defer: bool,
    workspace: Seq<char>,
    slug: Seq<char>,
)
    requires
        location(places, workspace, slug, defer) == LocateV::NeedsMove(kind),
        places.target(defer).kinds().len() == 0,
    ensures
        location(places.moved(kind, defer), workspace, slug, defer) == LocateV::AlreadyDone(kind),
        location(places.moved(kind, defer), workspace, slug, !defer) == LocateV::NeedsMove(kind),
        source_path(kind, workspace, slug, !defer) == target_path(kind, workspace, slug, defer),
        target_path(kind, workspace, slug, !defer) == source_path(kind, workspace, slug, defer),
        places.moved(kind, defer).moved(kind, !defer) == places,
{
    let s = places.source(defer);
    let t = places.target(defer);
    lemma_kinds(s);
    lemma_kinds(t);
    let m = places.moved(kind, defer);
    lemma_kinds(m.source(defer));
    lemma_kinds(m.target(defer));
    assert(s.kinds().len() == 1);
    assert(s.kinds()[0] == kind);
    assert(m.source(defer).kinds().len() == 0);
    assert(m.target(defer).kinds().len() == 1);
    assert(m.target(defer).kinds()[0] == kind);
}

proof fn lemma_kinds(f: Forms)
    ensures
        f.kinds().len() == (if f.change { 1int } else { 0 }) + (if f.issue_file { 1int } else { 0 })
            + (if f.issue_dir { 1int } else { 0 }),
        f.kinds().len() == 1 ==> (f.kinds()[0] == DeferKind::Change <==> f.change)
            && (f.kinds()[0] == DeferKind::IssueFile <==> f.issue_file) && (f.kinds()[0]
            == DeferKind::IssueDir <==> f.issue_dir),
{
}

/// What a request to set aside or take up names.
#[derive(Debug)]
pub struct DeferRequest {
    pub url: String,
    pub slug: String,
}

impl DeferRequest {
    /// Reads the request, or refuses it.
    pub fn read(parsed: &Json) -> (r: Result<DeferRequest, Json>)
        ensures
            match r {
                Ok(q) => parsed@.str_at("url"@) == Some(q.url@) && parsed@.str_at("slug"@) == Some(
                    q.slug@,
                ),
                Err(e) => if parsed@.str_at("url"@) is None {
                    e@ == refusal(missing_field("url"@))
                } else {
                    parsed@.str_at("slug"@) is None && e@ == refusal(missing_field("slug"@))
                },
            },
    {
        let url = match require(parsed, "url") {
            Ok(s) => s,
            Err(e) => return Err(e),
        };
        match require(parsed, "slug") {
            Ok(slug) => Ok(DeferRequest { url, slug }),
            Err(e) => Err(e),
        }
    }
}

/// How far an operation has come: what it is waiting for.
#[derive(Debug, Clone, Copy, PartialEq, Eq, Structural)]
pub enum DeferStage {
    Initializing,
    /// The first look, before anything is disturbed.
    Probing,
    Preempting,
    Reinitializing,
    CheckingOut,
    Resetting,
    Locating,
    Recreating(DeferKind),
    Moving(DeferKind),
    Staging(DeferKind),
    Committing(DeferKind),
    Pushing(DeferKind),
    Linking(DeferKind),
    Opening(DeferKind),
    Finished,
}

/// One operation of setting aside (`defer`) or taking up again.
#[derive(Debug)]
pub struct DeferRun {
    pub defer: bool,
    pub slug: String,
    pub repo: RepositoryConfig,
    /// The address of the fork, where the agent branch goes to one.
    pub fork_url: Option<String>,
    pub stage: DeferStage,
    /// The change whose pass was cancelled for this operation.
    pub preempted: Option<String>,
}

pub open spec fn verb(defer: bool) -> Seq<char> {
    if defer {
        "defer"@
    } else {
        "undefer"@
    }
}

/// The reply where the unit is where it should be.
pub open spec fn already_done_reply(
    defer: bool,
    slug: Seq<char>,
    url: Seq<char>,
    preempted: Option<Seq<char>>,
) -> JsonV {
    obj().flag("ok"@, true).text(
        "outcome"@,
        if defer {
            "already_deferred"@
        } else {
            "already_active"@
        },
    ).text("slug"@, slug).text("url"@, url).opt("preempted_change"@, preempted).done()
}

pub open spec fn not_found_text(defer: bool, slug: Seq<char>, url: Seq<char>) -> Seq<char> {
    (if defer {
        "no change or issue `"@
    } else {
        "no deferred change or issue `"@
    }) + slug + "` on "@ + url
}

pub open spec fn ambiguous_text(
    defer: bool,
    slug: Seq<char>,
    url: Seq<char>,
    names: Seq<char>,
) -> Seq<char> {
    "ambiguous slug `"@ + slug + "` on "@ + url + ": it names more than one unit ("@ + names
        + "); resolve the collision before "@ + verb(defer) + "ring"@
}

pub open spec fn commit_text(defer: bool, slug: Seq<char>) -> Seq<char> {
    (if defer {
        "chore: defer "@
    } else {
        "chore: resume "@
    }) + slug
}

pub open spec fn title_text(defer: bool, kind: DeferKind, slug: Seq<char>) -> Seq<char> {
    (if defer {
        "defer: set aside "@
    } else {
        "resume: reactivate "@
    }) + kind.label_text() + " `"@ + slug + "`"@
}

/// The path of a unit, seen from the workspace. A slug that is an absolute path
/// stands for itself where it does not lie in the workspace.
pub open spec fn relative_path(
    kind: DeferKind,
    workspace: Seq<char>,
    slug: Seq<char>,
    in_lane: bool,
) -> Seq<char> {
    let name = kind.file_name(slug);
    if name.len() > 0 && name[0] == '/' {
        match beneath(name, workspace) {
            Some(rest) => rest,
            None => name,
        }
    } else {
        without_tail(
            joined(
                if in_lane {
                    kind.lane_dir()
                } else {
                    kind.deferred_dir()
                },
                name,
            ),
        )
    }
}

/// The description of the pull request.
pub open spec fn body_text(
    defer: bool,
    kind: DeferKind,
    workspace: Seq<char>,
    slug: Seq<char>,
) -> Seq<char> {
    (if defer {
        "Deferred "@
    } else {
        "Resumed "@
    }) + kind.label_text() + " `"@ + slug + "`.\n\nMoved `"@ + relative_path(
        kind,
        workspace,
        slug,
        defer,
    ) + "` → `"@ + relative_path(kind, workspace, slug, !defer)
        + "`.\n\nThis rides the agent-branch + PR flow (no base-branch commit). The unit is preserved byte-for-byte, including any markers; "@
        + (if defer {
        "`undefer`"@
    } else {
        "`defer`"@
    }) + " is the exact inverse."@
}

pub open spec fn outcome_word(defer: bool) -> Seq<char> {
    if defer {
        "deferred"@
    } else {
        "resumed"@
    }
}

impl DeferRun {
    pub open spec fn forked(self) -> bool {
        self.fork_url is Some
    }

    /// The branch that a pull request goes into when it is opened by hand.
    pub open spec fn pr_base(self) -> Seq<char> {
        match self.repo.upstream_branch {
            Some(b) => b@,
            None => self.repo.base_branch@,
        }
    }

    pub open spec fn pushed_reply(self, kind: DeferKind, link: BranchLink) -> JsonV {
        obj().flag("ok"@, true).text("outcome"@, outcome_word(self.defer)).text(
            "mechanism"@,
            "branch_pushed_no_pr"@,
        ).text("slug"@, self.slug@).text("kind"@, kind.label_text()).text("url"@, self.repo.url@).text(
            "branch"@,
            self.repo.agent_branch@,
        ).text("branch_url"@, link.branch_url@).text("suggested_command"@, link.suggested_command@).opt(
            "preempted_change"@,
            opt_text(self.preempted),
        ).done()
    }

    pub open spec fn opened_reply(self, kind: DeferKind, pr_url: Seq<char>) -> JsonV {
        obj().flag("ok"@, true).text("outcome"@, outcome_word(self.defer)).text(
            "mechanism"@,
            "pr_opened"@,
        ).text("slug"@, self.slug@).text("kind"@, kind.label_text()).text("url"@, self.repo.url@).text(
            "branch"@,
            self.repo.agent_branch@,
        ).text("pr_url"@, pr_url).opt("preempted_change"@, opt_text(self.preempted)).done()
    }

    /// The same operation at another stage.
    pub open spec fn at(self, stage: DeferStage) -> DeferRun {
        DeferRun { stage, ..self }
    }

    /// Whether an event answers what the operation waits for.
    pub open spec fn expects(self, event: Event<Places>) -> bool {
        match self.stage {
            DeferStage::Probing | DeferStage::Locating => event is Facts,
            DeferStage::Preempting => event is Marker,
            DeferStage::Linking(_) => event is Linked,
            DeferStage::Opening(_) => event is Opened,
            DeferStage::Finished => false,
            _ => event is Outcome,
        }
    }

    /// Whether the busy marker is held while the operation waits.
    pub open spec fn holds_marker(self) -> bool {
        match self.stage {
            DeferStage::Initializing | DeferStage::Probing | DeferStage::Preempting => false,
            DeferStage::Finished => false,
            _ => true,
        }
    }

    /// Whether the agent branch has been made anew.
    pub open spec fn on_agent_branch(self) -> bool {
        match self.stage {
            DeferStage::Moving(_) | DeferStage::Staging(_) | DeferStage::Committing(_)
            | DeferStage::Pushing(_) | DeferStage::Linking(_) | DeferStage::Opening(_) => true,
            _ => false,
        }
    }
}

/// The operation fails: it ends with a refusal.
pub open spec fn gives_up(before: DeferRun, after: DeferRun, step: Step, why: Seq<char>) -> bool {
    after == before.at(DeferStage::Finished) && is_reply(step, refusal(why))
}

/// What follows an event: the stage after it, and the step to take.
pub open spec fn defer_follows(
    before: DeferRun,
    event: Event<Places>,
    after: DeferRun,
    step: Step,
) -> bool {
    let repo = before.repo;
    match (before.stage, event) {
        (DeferStage::Initializing, Event::Outcome(Ok(_))) => after == before.at(DeferStage::Probing)
            && step is Locate,
        (DeferStage::Initializing, Event::Outcome(Err(e))) => gives_up(
            before,
            after,
            step,
            "workspace init failed: "@ + e@,
        ),
        (DeferStage::Probing, Event::Facts(places)) => if location(
            places,
            repo.workspace@,
            before.slug@,
            before.defer,
        ) is AlreadyDone {
            after == before.at(DeferStage::Finished) && is_reply(
                step,
                already_done_reply(before.defer, before.slug@, repo.url@, None),
            )
        } else {
            after == before.at(DeferStage::Preempting) && step is Preempt
        },
        (DeferStage::Preempting, Event::Marker(Acquired::Held { preempted })) => after == (DeferRun {
            stage: DeferStage::Reinitializing,
            preempted,
            ..before
        }) && step is EnsureInitialized,
        (DeferStage::Preempting, Event::Marker(Acquired::Busy(e))) => gives_up(
            before,
            after,
            step,
            e@,
        ),
        (DeferStage::Preempting, Event::Marker(Acquired::Internal(e))) => gives_up(
            before,
            after,
            step,
            verb(before.defer) + " preempt failed: "@ + e@,
        ),
        (DeferStage::Reinitializing, Event::Outcome(Ok(_))) => after == before.at(
            DeferStage::CheckingOut,
        ) && is_checkout(step, repo.base_branch@),
        (DeferStage::Reinitializing, Event::Outcome(Err(e))) => gives_up(
            before,
            after,
            step,
            "workspace init failed: "@ + e@,
        ),
        (DeferStage::CheckingOut, Event::Outcome(Ok(_))) => after == before.at(DeferStage::Resetting)
            && is_reset(step, repo.base_branch@),
        (DeferStage::CheckingOut, Event::Outcome(Err(e))) => gives_up(
            before,
            after,
            step,
            "checkout base branch failed: "@ + e@,
        ),
        // A clone that is up to date has nothing to reset to: either way it goes on.
        (DeferStage::Resetting, Event::Outcome(_)) => after == before.at(DeferStage::Locating)
            && step is Locate,
        (DeferStage::Locating, Event::Facts(places)) => match location(
            places,
            repo.workspace@,
            before.slug@,
            before.defer,
        ) {
            LocateV::NeedsMove(kind) => after == before.at(DeferStage::Recreating(kind))
                && is_recreate(step, repo.agent_branch@),
            LocateV::AlreadyDone(_) => after == before.at(DeferStage::Finished) && is_reply(
                step,
                already_done_reply(
                    before.defer,
                    before.slug@,
                    repo.url@,
                    opt_text(before.preempted),
                ),
            ),
            LocateV::NotFound => gives_up(
                before,
                after,
                step,
                not_found_text(before.defer, before.slug@, repo.url@),
            ),
            LocateV::Ambiguous(names) => gives_up(
                before,
                after,
                step,
                ambiguous_text(before.defer, before.slug@, repo.url@, names),
            ),
        },
        (DeferStage::Recreating(kind), Event::Outcome(Ok(_))) => after == before.at(
            DeferStage::Moving(kind),
        ) && is_move(
            step,
            source_path(kind, repo.workspace@, before.slug@, before.defer),
            target_path(kind, repo.workspace@, before.slug@, before.defer),
        ),
        (DeferStage::Recreating(_), Event::Outcome(Err(e))) => gives_up(
            before,
            after,
            step,
            "recreating agent branch failed: "@ + e@,
        ),
        (DeferStage::Moving(kind), Event::Outcome(Ok(_))) => after == before.at(
            DeferStage::Staging(kind),
        ) && step is AddAll,
        (DeferStage::Moving(_), Event::Outcome(Err(e))) => gives_up(before, after, step, e@),
        (DeferStage::Staging(kind), Event::Outcome(Ok(_))) => after == before.at(
            DeferStage::Committing(kind),
        ) && is_commit(step, commit_text(before.defer, before.slug@)),
        (DeferStage::Staging(_), Event::Outcome(Err(e))) => gives_up(
            before,
            after,
            step,
            "staging the move failed: "@ + e@,
        ),
        (DeferStage::Committing(kind), Event::Outcome(Ok(_))) => after == before.at(
            DeferStage::Pushing(kind),
        ) && is_push(step, repo.agent_branch@, push_remote(before.forked())),
        (DeferStage::Committing(_), Event::Outcome(Err(e))) => gives_up(
            before,
            after,
            step,
            "committing the move failed: "@ + e@,
        ),
        (DeferStage::Pushing(kind), Event::Outcome(Ok(_))) => if repo.auto_submit_pr {
            after == before.at(DeferStage::Opening(kind)) && is_open_pr(
                step,
                repo.agent_branch@,
                repo.base_branch@,
                title_text(before.defer, kind, before.slug@),
                body_text(before.defer, kind, repo.workspace@, before.slug@),
            )
        } else {
            after == before.at(DeferStage::Linking(kind)) && is_link(
                step,
                repo.agent_branch@,
                before.pr_base(),
            )
        },
        (DeferStage::Pushing(_), Event::Outcome(Err(e))) => gives_up(
            before,
            after,
            step,
            "pushing "@ + verb(before.defer) + " branch failed: "@ + e@,
        ),
        (DeferStage::Linking(kind), Event::Linked(Ok(link))) => after == before.at(
            DeferStage::Finished,
        ) && is_reply(step, before.pushed_reply(kind, link)),
        (DeferStage::Linking(_), Event::Linked(Err(e))) => gives_up(
            before,
            after,
            step,
            "parsing repo url: "@ + e@,
        ),
        (DeferStage::Opening(kind), Event::Opened(Ok(pr_url))) => after == before.at(
            DeferStage::Finished,
        ) && is_reply(step, before.opened_reply(kind, pr_url@)),
        (DeferStage::Opening(_), Event::Opened(Err(e))) => gives_up(
            before,
            after,
            step,
            "opening "@ + verb(before.defer) + " PR: "@ + e@,
        ),
        _ => false,
    }
}

/// A run of an operation: it begins with the workspace being initialized, and
/// each event is answered by the step that follows it.
pub open spec fn is_defer_run(
    runs: Seq<DeferRun>,
    events: Seq<Event<Places>>,
    steps: Seq<Step>,
) -> bool {
    &&& runs.len() == events.len() + 1
    &&& steps.len() == events.len()
    &&& runs[0].stage is Initializing
    &&& runs[0].preempted is None
    &&& forall|i: int|
        0 <= i < events.len() ==> defer_follows(
            runs[i],
            events[i],
            runs[i + 1],
            #[trigger] steps[i],
        )
}

/// Whether an event says that the busy marker was taken.
pub open spec fn is_held(event: Event<Places>) -> bool {
    event matches Event::Marker(Acquired::Held { .. })
}

proof fn lemma_defer_run(
    runs: Seq<DeferRun>,
    events: Seq<Event<Places>>,
    steps: Seq<Step>,
    i: int,
)
    requires
        is_defer_run(runs, events, steps),
        0 <= i < runs.len(),
    ensures
        runs[i].defer == runs[0].defer,
        runs[i].slug == runs[0].slug,
        runs[i].repo == runs[0].repo,
        runs[i].fork_url == runs[0].fork_url,
        runs[i].holds_marker() ==> exists|j: int| 0 <= j < i && is_held(#[trigger] events[j]),
        runs[i].on_agent_branch() ==> exists|j: int|
            0 <= j < i && is_recreate(#[trigger] steps[j], runs[0].repo.agent_branch@),
        runs[i].stage is Recreating ==> i > 0 && is_recreate(
            steps[i - 1],
            runs[0].repo.agent_branch@,
        ),
        i <= 1 ==> (runs[i].stage is Initializing || runs[i].stage is Probing
            || runs[i].stage is Finished),
        runs[i].stage is Initializing ==> i == 0,
        runs[i].stage is Probing ==> i == 1,
    decreases i,
{
    if i > 0 {
        lemma_defer_run(runs, events, steps, i - 1);
        assert(defer_follows(runs[i - 1], events[i - 1], runs[i - 1 + 1], steps[i - 1]));
        if runs[i].holds_marker() {
            if runs[i - 1].holds_marker() {
                let j = choose|j: int| 0 <= j < i - 1 && is_held(#[trigger] events[j]);
                assert(0 <= j < i && is_held(events[j]));
            } else {
                assert(is_held(events[i - 1]));
            }
        }
        if runs[i].on_agent_branch() {
            if runs[i - 1].on_agent_branch() {
                let j = choose|j: int|
                    0 <= j < i - 1 && is_recreate(
                        #[trigger] steps[j],
                        runs[0].repo.agent_branch@,
                    );
                assert(0 <= j < i && is_recreate(steps[j], runs[0].repo.agent_branch@));
            } else {
                assert(is_recreate(steps[i - 2], runs[0].repo.agent_branch@));
            }
        }
    }
}

/// Nothing in the workspace is changed unless the busy marker was taken before,
/// and nothing is committed or pushed before the agent branch was made anew; the
/// only branch that is pushed is the agent branch.
pub proof fn defer_changes_only_under_the_marker(
    runs: Seq<DeferRun>,
    events: Seq<Event<Places>>,
    steps: Seq<Step>,
    i: int,
)
    requires
        is_defer_run(runs, events, steps),
        0 <= i < steps.len(),
    ensures
        mutates(steps[i]) ==> exists|j: int| 0 <= j <= i && is_held(#[trigger] events[j]),
        (steps[i] is Move || steps[i] is AddAll || steps[i] is Commit || steps[i] is Push)
            ==> exists|j: int|
            0 <= j < i && is_recreate(#[trigger] steps[j], runs[0].repo.agent_branch@),
        steps[i] is Push ==> is_push(
            steps[i],
            runs[0].repo.agent_branch@,
            push_remote(runs[0].forked()),
        ),
{
    lemma_defer_run(runs, events, steps, i);
    lemma_defer_run(runs, events, steps, i + 1);
    assert(defer_follows(runs[i], events[i], runs[i + 1], steps[i]));
    if steps[i] is Move {
        assert(is_recreate(steps[i - 1], runs[0].repo.agent_branch@));
    }
}

/// A request for what is done already disturbs nothing: where the first look
/// finds the unit where it goes, the next step is the reply, no pass is
/// preempted and nothing is changed; and no pass is ever preempted before that
/// look.
pub proof fn defer_detects_before_it_preempts(
    runs: Seq<DeferRun>,
    events: Seq<Event<Places>>,
    steps: Seq<Step>,
    i: int,
)
    requires
        is_defer_run(runs, events, steps),
        0 <= i < steps.len(),
        preempts(steps[i]) || mutates(steps[i]),
    ensures
        i >= 1,
        runs[1].stage is Probing,
        events[1] matches Event::Facts(places) && location(
            places,
            runs[0].repo.workspace@,
            runs[0].slug@,
            runs[0].defer,
        ) !is AlreadyDone,
{
    lemma_defer_run(runs, events, steps, i);
    assert(defer_follows(runs[i], events[i], runs[i + 1], steps[i]));
    assert(i >= 1);
    lemma_defer_run(runs, events, steps, 1);
    assert(defer_follows(runs[0], events[0], runs[0int + 1], steps[0]));
    assert(defer_follows(runs[1], events[1], runs[1int + 1], steps[1]));
    if runs[1].stage is Finished {
        assert(false);
    }
    if runs[2].stage is Finished && i >= 2 {
        assert(defer_follows(runs[2], events[2], runs[2int + 1], steps[2]));
        assert(false);
    }
}

impl DeferStage {
    /// How many events lead to the stage; it is never reached otherwise.
    spec fn reached_after(self) -> int {
        match self {
            DeferStage::Initializing => 0,
            DeferStage::Probing => 1,
            DeferStage::Preempting => 2,
            DeferStage::Reinitializing => 3,
            DeferStage::CheckingOut => 4,
            DeferStage::Resetting => 5,
            DeferStage::Locating => 6,
            DeferStage::Recreating(_) => 7,
            DeferStage::Moving(_) => 8,
            DeferStage::Staging(_) => 9,
            DeferStage::Committing(_) => 10,
            DeferStage::Pushing(_) => 11,
            DeferStage::Linking(_) | DeferStage::Opening(_) => 12,
            DeferStage::Finished => 0,
        }
    }
}

/// What one event changes: the stage goes on by one or to the end, what the run is
/// about stays, and each kind of change has its own stage.
proof fn lemma_one_step(before: DeferRun, event: Event<Places>, after: DeferRun, step: Step)
    requires
        defer_follows(before, event, after, step),
    ensures
        before.stage !is Finished,
        after.stage !is Finished ==> after.stage.reached_after() == before.stage.reached_after()
            + 1,
        step is Move ==> before.stage is Recreating,
        step is Commit ==> before.stage is Staging,
        step is Checkout ==> before.stage is Reinitializing,
        step is ResetHard ==> before.stage is CheckingOut,
        step is RecreateBranch ==> before.stage is Locating,
        step is Reply ==> after.stage is Finished,
{
}

proof fn lemma_stage_of(
    runs: Seq<DeferRun>,
    events: Seq<Event<Places>>,
    steps: Seq<Step>,
    i: int,
)
    requires
        is_defer_run(runs, events, steps),
        0 <= i < steps.len(),
    ensures
        runs[i].stage !is Finished,
        runs[i].stage.reached_after() == i,
    decreases i,
{
    lemma_one_step(runs[i], events[i], runs[i + 1], steps[i]);
    if i > 0 {
        lemma_stage_of(runs, events, steps, i - 1);
        lemma_one_step(runs[i - 1], events[i - 1], runs[i - 1 + 1], steps[i - 1]);
    }
}

/// A refusal names no outcome, and what is done already is no move.
proof fn lemma_other_outcomes(
    why: Seq<char>,
    defer: bool,
    slug: Seq<char>,
    url: Seq<char>,
    preempted: Option<Seq<char>>,
)
    ensures
        refusal(why).str_at("outcome"@) is None,
        already_done_reply(defer, slug, url, preempted).str_at("outcome"@) != Some(
            outcome_word(defer),
        ),
{
    broadcast use {lemma_get_with, lemma_get_empty};

    lemma_field_names();
    reveal_strlit("already_deferred");
    reveal_strlit("already_active");
    reveal_strlit("deferred");
    reveal_strlit("resumed");
    assert("already_deferred"@.len() != "deferred"@.len());
    assert("already_active"@.len() != "resumed"@.len());
}

/// Whether an event says that the last step went well.
pub open spec fn went_well(event: Event<Places>) -> bool {
    event matches Event::Outcome(Ok(_))
}

/// Whether a run moved a unit of the given form: the agent branch was made anew, the
/// unit was moved from its place to the other one, all of that was committed, and
/// the branch was pushed. Each of these steps went well.
pub open spec fn moved_and_pushed(
    run: DeferRun,
    kind: DeferKind,
    events: Seq<Event<Places>>,
    steps: Seq<Step>,
) -> bool {
    &&& is_recreate(steps[6], run.repo.agent_branch@)
    &&& went_well(events[7])
    &&& is_move(
        steps[7],
        source_path(kind, run.repo.workspace@, run.slug@, run.defer),
        target_path(kind, run.repo.workspace@, run.slug@, run.defer),
    )
    &&& went_well(events[8])
    &&& steps[8] is AddAll
    &&& went_well(events[9])
    &&& is_commit(steps[9], commit_text(run.defer, run.slug@))
    &&& went_well(events[10])
    &&& is_push(steps[10], run.repo.agent_branch@, push_remote(run.forked()))
    &&& went_well(events[11])
}

/// A unit is reported as moved only where it was moved: the unit that was found on
/// the base branch went from its place to the other one, on the agent branch, in one
/// commit that was pushed. Nothing else was moved or committed, no other branch was
/// switched to after the agent branch was made, and the report is the end of the run.
pub proof fn a_reported_move_was_made(
    runs: Seq<DeferRun>,
    events: Seq<Event<Places>>,
    steps: Seq<Step>,
    i: int,
    reply: JsonV,
)
    requires
        is_defer_run(runs, events, steps),
        0 <= i < steps.len(),
        is_reply(steps[i], reply),
        reply.str_at("outcome"@) == Some(outcome_word(runs[0].defer)),
    ensures
        i == 12,
        steps.len() == 13,
        events[6] matches Event::Facts(places) && location(
            places,
            runs[0].repo.workspace@,
            runs[0].slug@,
            runs[0].defer,
        ) matches LocateV::NeedsMove(kind) && moved_and_pushed(runs[0], kind, events, steps),
        forall|j: int| 0 <= j < steps.len() && #[trigger] steps[j] is Move ==> j == 7,
        forall|j: int| 0 <= j < steps.len() && #[trigger] steps[j] is Commit ==> j == 9,
        forall|j: int|
            6 < j < steps.len() ==> !(#[trigger] steps[j] is Checkout) && !(steps[j] is ResetHard)
                && !(steps[j] is RecreateBranch),
{
    lemma_defer_run(runs, events, steps, i);
    lemma_stage_of(runs, events, steps, i);
    lemma_one_step(runs[i], events[i], runs[i + 1], steps[i]);
    lemma_no_other_report(runs[i], events[i], runs[i + 1], steps[i], reply);
    assert(runs[13].stage is Finished);
    if steps.len() > 13 {
        lemma_stage_of(runs, events, steps, 13);
    }
    assert forall|j: int| 0 <= j < steps.len() implies (#[trigger] steps[j] is Move ==> j == 7) && (
    steps[j] is Commit ==> j == 9) && (6 < j ==> !(steps[j] is Checkout) && !(steps[j] is ResetHard)
        && !(steps[j] is RecreateBranch)) by {
        lemma_stage_of(runs, events, steps, j);
        lemma_one_step(runs[j], events[j], runs[j + 1], steps[j]);
    }
    lemma_ladder(runs, events, steps);
}

/// Of all that ends a run, only what follows the push reports a move.
proof fn lemma_no_other_report(
    before: DeferRun,
    event: Event<Places>,
    after: DeferRun,
    step: Step,
    reply: JsonV,
)
    requires
        defer_follows(before, event, after, step),
        is_reply(step, reply),
        reply.str_at("outcome"@) == Some(outcome_word(before.defer)),
    ensures
        before.stage is Linking || before.stage is Opening,
        after.stage is Finished,
{
    if after.stage is Finished {
        assert forall|why: Seq<char>| reply == #[trigger] refusal(why) implies false by {
            lemma_other_outcomes(why, before.defer, before.slug@, before.repo.url@, None);
        }
        lemma_other_outcomes(
            Seq::empty(),
            before.defer,
            before.slug@,
            before.repo.url@,
            None,
        );
        lemma_other_outcomes(
            Seq::empty(),
            before.defer,
            before.slug@,
            before.repo.url@,
            opt_text(before.preempted),
        );
    }
}

/// The steps of a run that goes all the way.
proof fn lemma_ladder(runs: Seq<DeferRun>, events: Seq<Event<Places>>, steps: Seq<Step>)
    requires
        is_defer_run(runs, events, steps),
        steps.len() == 13,
    ensures
        events[6] matches Event::Facts(places) && location(
            places,
            runs[0].repo.workspace@,
            runs[0].slug@,
            runs[0].defer,
        ) matches LocateV::NeedsMove(kind) && moved_and_pushed(runs[0], kind, events, steps),
{
    assert forall|j: int| 6 <= j <= 12 implies {
        let run = #[trigger] runs[j];
        &&& run.stage !is Finished
        &&& run.stage.reached_after() == j
        &&& run.defer == runs[0].defer
        &&& run.slug == runs[0].slug
        &&& run.repo == runs[0].repo
        &&& run.fork_url == runs[0].fork_url
        &&& defer_follows(run, events[j], runs[j + 1], steps[j])
    } by {
        lemma_stage_of(runs, events, steps, j);
        lemma_defer_run(runs, events, steps, j);
    }
    assert(runs[6].stage is Locating);
    assert(runs[7].stage is Recreating);
    assert(defer_follows(runs[6], events[6], runs[7], steps[6]));
    assert(defer_follows(runs[7], events[7], runs[8], steps[7]));
    assert(defer_follows(runs[8], events[8], runs[9], steps[8]));
    assert(defer_follows(runs[9], events[9], runs[10], steps[9]));
    assert(defer_follows(runs[10], events[10], runs[11], steps[10]));
    assert(defer_follows(runs[11], events[11], runs[12], steps[11]));
}

/// Where a unit is found, by what is there: the form that stands alone where the unit
/// comes from is moved, whatever stands where it goes; where nothing stands there, the
/// form that stands alone where it goes is in place already; and of two forms in one
/// place none is taken.
pub proof fn where_a_unit_is_found(
    places: Places,
    workspace: Seq<char>,
    slug: Seq<char>,
    defer: bool,
)
    ensures
        ({
            let (from, to) = if defer {
                (places.lane, places.deferred)
            } else {
                (places.deferred, places.lane)
            };
            let nothing = Forms { change: false, issue_file: false, issue_dir: false };
            let change = Forms { change: true, ..nothing };
            let file = Forms { issue_file: true, ..nothing };
            let dir = Forms { issue_dir: true, ..nothing };
            let found = location(places, workspace, slug, defer);
            &&& found == LocateV::NeedsMove(DeferKind::Change) <==> from == change
            &&& found == LocateV::NeedsMove(DeferKind::IssueFile) <==> from == file
            &&& found == LocateV::NeedsMove(DeferKind::IssueDir) <==> from == dir
            &&& found == LocateV::AlreadyDone(DeferKind::Change) <==> from == nothing && to
                == change
            &&& found == LocateV::AlreadyDone(DeferKind::IssueFile) <==> from == nothing && to
                == file
            &&& found == LocateV::AlreadyDone(DeferKind::IssueDir) <==> from == nothing && to
                == dir
            &&& found is NotFound <==> from == nothing && to == nothing
        }),
{
    lemma_kinds(places.lane);
    lemma_kinds(places.deferred);
}

/// A unit has one name in both places, and each place is a directory of its own kind.
pub proof fn a_unit_keeps_its_name(workspace: Seq<char>, slug: Seq<char>)
    ensures
        source_path(DeferKind::Change, workspace, slug, true) == joined(
            joined(workspace, "openspec/changes"@),
            slug,
        ),
        source_path(DeferKind::Change, workspace, slug, false) == joined(
            joined(workspace, "deferred-changes"@),
            slug,
        ),
        source_path(DeferKind::IssueFile, workspace, slug, true) == joined(
            joined(workspace, "issues"@),
            slug + ".md"@,
        ),
        source_path(DeferKind::IssueFile, workspace, slug, false) == joined(
            joined(workspace, "deferred-issues"@),
            slug + ".md"@,
        ),
        source_path(DeferKind::IssueDir, workspace, slug, true) == joined(
            joined(workspace, "issues"@),
            slug,
        ),
        source_path(DeferKind::IssueDir, workspace, slug, false) == joined(
            joined(workspace, "deferred-issues"@),
            slug,
        ),
        forall|kind: DeferKind, defer: bool|
            #[trigger] target_path(kind, workspace, slug, defer) == source_path(
                kind,
                workspace,
                slug,
                !defer,
            ),
        DeferKind::Change.label_text() == "change"@,
        DeferKind::IssueFile.label_text() == "issue"@,
        DeferKind::IssueDir.label_text() == "issue"@,
{
}

/// Who is told that a slug is ambiguous is told every unit that it names, by its path
/// and what it is.
pub proof fn an_ambiguous_slug_names_its_units(
    places: Places,
    workspace: Seq<char>,
    slug: Seq<char>,
    defer: bool,
    kind: DeferKind,
)
    requires
        location(places, workspace, slug, defer) is Ambiguous,
    ensures
        ({
            let (from, to) = if defer {
                (places.lane, places.deferred)
            } else {
                (places.deferred, places.lane)
            };
            let here = from.change || from.issue_file || from.issue_dir;
            let there = if here {
                from
            } else {
                to
            };
            let present = match kind {
                DeferKind::Change => there.change,
                DeferKind::IssueFile => there.issue_file,
                DeferKind::IssueDir => there.issue_dir,
            };
            present ==> find(
                location(places, workspace, slug, defer)->Ambiguous_0,
                source_path(kind, workspace, slug, if here {
                    defer
                } else {
                    !defer
                }) + " ("@ + kind.label_text() + ")"@,
            ) is Some
        }),
{
    lemma_kinds(places.lane);
    lemma_kinds(places.deferred);
    let from = places.source(defer);
    let here = from.change || from.issue_file || from.issue_dir;
    let there = if here {
        from
    } else {
        places.target(defer)
    };
    let in_lane = if here {
        defer
    } else {
        !defer
    };
    let kinds = there.kinds();
    let names = Seq::new(
        kinds.len(),
        |i: int|
            source_path(kinds[i], workspace, slug, in_lane) + " ("@ + kinds[i].label_text()
                + ")"@,
    );
    let present = match kind {
        DeferKind::Change => there.change,
        DeferKind::IssueFile => there.issue_file,
        DeferKind::IssueDir => there.issue_dir,
    };
    if present {
        let k: int = if kind == DeferKind::Change {
            0
        } else if kind == DeferKind::IssueFile {
            if there.change {
                1
            } else {
                0
            }
        } else {
            kinds.len() - 1
        };
        assert(kinds[k] == kind);
        lemma_join_holds(names, " AND "@, k);
    }
}

/// The names of the fields tell them apart.
proof fn lemma_field_names()
    ensures
        "ok"@.len() == 2,
        "url"@.len() == 3,
        "slug"@.len() == 4,
        "kind"@.len() == 4,
        "slug"@ != "kind"@,
        "error"@.len() == 5,
        "branch"@.len() == 6,
        "pr_url"@.len() == 6,
        "branch"@ != "pr_url"@,
        "outcome"@.len() == 7,
        "mechanism"@.len() == 9,
        "branch_url"@.len() == 10,
        "preempted_change"@.len() == 16,
        "suggested_command"@.len() == 17,
{
    reveal_strlit("ok");
    reveal_strlit("outcome");
    reveal_strlit("mechanism");
    reveal_strlit("slug");
    reveal_strlit("kind");
    reveal_strlit("url");
    reveal_strlit("branch");
    reveal_strlit("branch_url");
    reveal_strlit("suggested_command");
    reveal_strlit("preempted_change");
    reveal_strlit("pr_url");
    reveal_strlit("error");
    assert("slug"@[0] != "kind"@[0]);
    assert("branch"@[0] != "pr_url"@[0]);
}

/// The order in which a unit is moved. Where it stands is looked at before anything is
/// disturbed and once more on the base branch; then the agent branch is made anew, the
/// unit moves there from the one place to the other, and everything is added, committed
/// and pushed to the fork where there is one. A pull request is opened exactly where
/// that is wanted, to set aside and to take up alike, and otherwise the branch is
/// linked.
pub proof fn a_move_leaves_nothing_out(
    runs: Seq<DeferRun>,
    events: Seq<Event<Places>>,
    steps: Seq<Step>,
    i: int,
)
    requires
        is_defer_run(runs, events, steps),
        0 <= i < steps.len(),
    ensures
        i <= 12,
        !(steps[i] is Reply) ==> {
            let run = runs[0];
            let repo = run.repo;
            &&& i < 12
            &&& i == 0 ==> steps[i] is Locate
            &&& i == 1 ==> steps[i] is Preempt
            &&& i == 2 ==> steps[i] is EnsureInitialized
            &&& i == 3 ==> (steps[i] matches Step::Checkout { branch } && branch@
                == repo.base_branch@)
            &&& i == 4 ==> (steps[i] matches Step::ResetHard { branch } && branch@
                == repo.base_branch@)
            &&& i == 5 ==> steps[i] is Locate
            &&& i == 6 ==> (steps[i] matches Step::RecreateBranch { branch } && branch@
                == repo.agent_branch@)
            &&& i == 7 ==> (events[6] matches Event::Facts(places) && {
                let kind = if run.defer && places.lane.change || !run.defer
                    && places.deferred.change {
                    DeferKind::Change
                } else if run.defer && places.lane.issue_file || !run.defer
                    && places.deferred.issue_file {
                    DeferKind::IssueFile
                } else {
                    DeferKind::IssueDir
                };
                steps[i] matches Step::Move { from, to } && from@ == source_path(
                    kind,
                    repo.workspace@,
                    run.slug@,
                    run.defer,
                ) && to@ == source_path(kind, repo.workspace@, run.slug@, !run.defer)
            })
            &&& i == 8 ==> steps[i] is AddAll
            &&& i == 9 ==> (steps[i] matches Step::Commit { message } && message@
                == if run.defer {
                "chore: defer "@ + run.slug@
            } else {
                "chore: resume "@ + run.slug@
            })
            &&& i == 10 ==> (steps[i] matches Step::Push { branch, remote } && branch@
                == repo.agent_branch@ && remote@ == if run.fork_url is Some {
                "fork"@
            } else {
                "origin"@
            })
            &&& i == 11 && repo.auto_submit_pr ==> (steps[i] matches Step::OpenPr {
                head,
                base,
                title,
                body,
            } && head@ == repo.agent_branch@ && base@ == repo.base_branch@)
            &&& i == 11 && !repo.auto_submit_pr ==> (steps[i] matches Step::Link { branch, into }
                && branch@ == repo.agent_branch@ && into@ == (match repo.upstream_branch {
                Some(b) => b@,
                None => repo.base_branch@,
            }))
        },
{
    lemma_defer_run(runs, events, steps, i);
    lemma_stage_of(runs, events, steps, i);
    assert(defer_follows(runs[i], events[i], runs[i + 1], steps[i]));
    if i >= 7 {
        lemma_kind_of(runs, events, steps, i);
    }
}

/// The form that is moved is the one that was found on the base branch.
proof fn lemma_kind_of(
    runs: Seq<DeferRun>,
    events: Seq<Event<Places>>,
    steps: Seq<Step>,
    i: int,
)
    requires
        is_defer_run(runs, events, steps),
        7 <= i < steps.len(),
    ensures
        events[6] matches Event::Facts(places) && {
            let kind = if runs[0].defer && places.lane.change || !runs[0].defer
                && places.deferred.change {
                DeferKind::Change
            } else if runs[0].defer && places.lane.issue_file || !runs[0].defer
                && places.deferred.issue_file {
                DeferKind::IssueFile
            } else {
                DeferKind::IssueDir
            };
            &&& location(places, runs[0].repo.workspace@, runs[0].slug@, runs[0].defer)
                == LocateV::NeedsMove(kind)
            &&& i == 7 ==> runs[i].stage == DeferStage::Recreating(kind)
            &&& i == 8 ==> runs[i].stage == DeferStage::Moving(kind)
            &&& i == 9 ==> runs[i].stage == DeferStage::Staging(kind)
            &&& i == 10 ==> runs[i].stage == DeferStage::Committing(kind)
            &&& i == 11 ==> runs[i].stage == DeferStage::Pushing(kind)
            &&& i == 12 ==> runs[i].stage == if runs[0].repo.auto_submit_pr {
                DeferStage::Opening(kind)
            } else {
                DeferStage::Linking(kind)
            }
        },
    decreases i,
{
    lemma_defer_run(runs, events, steps, i);
    lemma_stage_of(runs, events, steps, i);
    lemma_stage_of(runs, events, steps, i - 1);
    lemma_defer_run(runs, events, steps, i - 1);
    assert(defer_follows(runs[i - 1], events[i - 1], runs[i - 1 + 1], steps[i - 1]));
    if i > 7 {
        lemma_kind_of(runs, events, steps, i - 1);
    } else if let Event::Facts(places) = events[6] {
        lemma_kinds(places.lane);
        lemma_kinds(places.deferred);
    }
}

/// The pass that was cancelled is kept until the end.
proof fn lemma_preempted(
    runs: Seq<DeferRun>,
    events: Seq<Event<Places>>,
    steps: Seq<Step>,
    i: int,
)
    requires
        is_defer_run(runs, events, steps),
        0 <= i < steps.len(),
    ensures
        i <= 2 ==> runs[i].preempted is None,
        i >= 3 ==> (events[2] matches Event::Marker(Acquired::Held { preempted })
            && runs[i].preempted == preempted),
    decreases i,
{
    lemma_stage_of(runs, events, steps, i);
    if i > 0 {
        lemma_preempted(runs, events, steps, i - 1);
        lemma_stage_of(runs, events, steps, i - 1);
        assert(defer_follows(runs[i - 1], events[i - 1], runs[i - 1 + 1], steps[i - 1]));
    }
}

proof fn lemma_reply_fields(run: DeferRun, kind: DeferKind, link: BranchLink, pr_url: Seq<char>)
    ensures
        forall|r: JsonV|
            r == run.pushed_reply(kind, link) || r == run.opened_reply(kind, pr_url) ==> {
                &&& #[trigger] r.bool_at("ok"@) == Some(true)
                &&& r.str_at("outcome"@) == Some(
                    if run.defer {
                        "deferred"@
                    } else {
                        "resumed"@
                    },
                )
                &&& r.str_at("slug"@) == Some(run.slug@)
                &&& r.str_at("kind"@) == Some(kind.label_text())
                &&& r.str_at("url"@) == Some(run.repo.url@)
                &&& r.str_at("branch"@) == Some(run.repo.agent_branch@)
                &&& r.get("preempted_change"@) == Some(
                    match run.preempted {
                        Some(change) => JsonV::Str(change@),
                        None => JsonV::Null,
                    },
                )
            },
        run.pushed_reply(kind, link).str_at("mechanism"@) == Some("branch_pushed_no_pr"@),
        run.pushed_reply(kind, link).str_at("branch_url"@) == Some(link.branch_url@),
        run.pushed_reply(kind, link).str_at("suggested_command"@) == Some(
            link.suggested_command@,
        ),
        run.opened_reply(kind, pr_url).str_at("mechanism"@) == Some("pr_opened"@),
        run.opened_reply(kind, pr_url).str_at("pr_url"@) == Some(pr_url),
{
    broadcast use {lemma_get_with, lemma_get_empty};

    lemma_field_names();
    let pushed = run.pushed_reply(kind, link);
    let opened = run.opened_reply(kind, pr_url);
    assert(pushed.bool_at("ok"@) == Some(true));
    assert(opened.bool_at("ok"@) == Some(true));
}

proof fn lemma_done_fields(
    defer: bool,
    slug: Seq<char>,
    url: Seq<char>,
    preempted: Option<Seq<char>>,
)
    ensures
        ({
            let r = already_done_reply(defer, slug, url, preempted);
            &&& r.bool_at("ok"@) == Some(true)
            &&& r.str_at("outcome"@) == Some(
                if defer {
                    "already_deferred"@
                } else {
                    "already_active"@
                },
            )
            &&& r.str_at("slug"@) == Some(slug)
            &&& r.str_at("url"@) == Some(url)
            &&& r.get("mechanism"@) is None
            &&& r.get("preempted_change"@) == Some(
                match preempted {
                    Some(change) => JsonV::Str(change),
                    None => JsonV::Null,
                },
            )
        }),
{
    broadcast use {lemma_get_with, lemma_get_empty};

    lemma_field_names();
}

/// What is reported of a request to set aside or to take up: how it ended, and by
/// which means. A move is reported with the pull request exactly where one was wanted,
/// and with the branch otherwise; what stood in its place already is reported as such,
/// and by no means.
pub proof fn a_move_is_reported_as_it_was_made(
    runs: Seq<DeferRun>,
    events: Seq<Event<Places>>,
    steps: Seq<Step>,
    i: int,
    reply: JsonV,
)
    requires
        is_defer_run(runs, events, steps),
        0 <= i < steps.len(),
        steps[i] matches Step::Reply(j) && j@ == reply,
        reply.bool_at("ok"@) == Some(true),
    ensures
        i == 1 || i == 6 || i == 12,
        reply.str_at("slug"@) == Some(runs[0].slug@),
        reply.str_at("url"@) == Some(runs[0].repo.url@),
        i == 1 ==> reply.get("preempted_change"@) == Some(JsonV::Null),
        i != 1 ==> (events[2] matches Event::Marker(Acquired::Held { preempted }) && reply.get(
            "preempted_change"@,
        ) == Some(
            match preempted {
                Some(change) => JsonV::Str(change@),
                None => JsonV::Null,
            },
        )),
        i == 12 ==> {
            &&& reply.str_at("outcome"@) == Some(
                if runs[0].defer {
                    "deferred"@
                } else {
                    "resumed"@
                },
            )
            &&& reply.str_at("branch"@) == Some(runs[0].repo.agent_branch@)
            &&& events[6] matches Event::Facts(places) && reply.str_at("kind"@) == Some(
                if runs[0].defer && places.lane.change || !runs[0].defer && places.deferred.change {
                    "change"@
                } else {
                    "issue"@
                },
            )
            &&& runs[0].repo.auto_submit_pr ==> (events[12] matches Event::Opened(Ok(pr_url))
                && reply.str_at("mechanism"@) == Some("pr_opened"@) && reply.str_at("pr_url"@)
                == Some(pr_url@))
            &&& !runs[0].repo.auto_submit_pr ==> (events[12] matches Event::Linked(Ok(link))
                && reply.str_at("mechanism"@) == Some("branch_pushed_no_pr"@) && reply.str_at(
                "branch_url"@,
            ) == Some(link.branch_url@) && reply.str_at("suggested_command"@) == Some(
                link.suggested_command@,
            ))
        },
        i != 12 ==> {
            &&& reply.str_at("outcome"@) == Some(
                if runs[0].defer {
                    "already_deferred"@
                } else {
                    "already_active"@
                },
            )
            &&& reply.get("mechanism"@) is None
            &&& events[i] matches Event::Facts(places) && location(
                places,
                runs[0].repo.workspace@,
                runs[0].slug@,
                runs[0].defer,
            ) is AlreadyDone
        },
{
    lemma_defer_run(runs, events, steps, i);
    lemma_stage_of(runs, events, steps, i);
    lemma_preempted(runs, events, steps, i);
    assert(defer_follows(runs[i], events[i], runs[i + 1], steps[i]));
    if i >= 7 {
        lemma_kind_of(runs, events, steps, i);
    }
    assert forall|why: Seq<char>| (#[trigger] refusal(why)).bool_at("ok"@) == Some(false) by {
        a_refusal_says_why(why);
    }
    lemma_done_fields(runs[0].defer, runs[0].slug@, runs[0].repo.url@, None);
    lemma_done_fields(
        runs[0].defer,
        runs[0].slug@,
        runs[0].repo.url@,
        opt_text(runs[i].preempted),
    );
    match (runs[i].stage, events[i]) {
        (DeferStage::Linking(kind), Event::Linked(Ok(link))) => {
            lemma_reply_fields(runs[i], kind, link, Seq::empty());
        },
        (DeferStage::Opening(kind), Event::Opened(Ok(pr_url))) => {
            lemma_reply_fields(
                runs[i],
                kind,
                BranchLink { branch_url: pr_url, suggested_command: pr_url },
                pr_url@,
            );
        },
        _ => {},
    }
    assert(reply.bool_at("ok"@) == Some(true));
}

/// A request is refused exactly where a step of it failed, or the unit is not to be
/// found or not the only one on the base branch; at once, and with that reason. A reset
/// that failed is no reason, and at the first look nothing is.
pub proof fn a_failed_move_says_what_failed(
    runs: Seq<DeferRun>,
    events: Seq<Event<Places>>,
    steps: Seq<Step>,
    i: int,
)
    requires
        is_defer_run(runs, events, steps),
        0 <= i < steps.len(),
    ensures
        ({
            let run = runs[0];
            let verb = if run.defer {
                "defer"@
            } else {
                "undefer"@
            };
            let failure = match events[i] {
                Event::Outcome(Err(e)) => if i == 5 {
                    None
                } else if i == 0 || i == 3 {
                    Some("workspace init failed: "@ + e@)
                } else if i == 4 {
                    Some("checkout base branch failed: "@ + e@)
                } else if i == 7 {
                    Some("recreating agent branch failed: "@ + e@)
                } else if i == 8 {
                    Some(e@)
                } else if i == 9 {
                    Some("staging the move failed: "@ + e@)
                } else if i == 10 {
                    Some("committing the move failed: "@ + e@)
                } else {
                    Some("pushing "@ + verb + " branch failed: "@ + e@)
                },
                Event::Facts(places) => match location(
                    places,
                    run.repo.workspace@,
                    run.slug@,
                    run.defer,
                ) {
                    LocateV::NotFound => if i == 1 {
                        None
                    } else if run.defer {
                        Some("no change or issue `"@ + run.slug@ + "` on "@ + run.repo.url@)
                    } else {
                        Some(
                            "no deferred change or issue `"@ + run.slug@ + "` on "@
                                + run.repo.url@,
                        )
                    },
                    LocateV::Ambiguous(names) => if i == 1 {
                        None
                    } else {
                        Some(
                            "ambiguous slug `"@ + run.slug@ + "` on "@ + run.repo.url@
                                + ": it names more than one unit ("@ + names
                                + "); resolve the collision before "@ + verb + "ring"@,
                        )
                    },
                    _ => None,
                },
                Event::Marker(Acquired::Busy(e)) => Some(e@),
                Event::Marker(Acquired::Internal(e)) => Some(verb + " preempt failed: "@ + e@),
                Event::Linked(Err(e)) => Some("parsing repo url: "@ + e@),
                Event::Opened(Err(e)) => Some("opening "@ + verb + " PR: "@ + e@),
                _ => None,
            };
            &&& failure matches Some(why) ==> (steps[i] matches Step::Reply(reply)
                && reply@.bool_at("ok"@) == Some(false) && reply@.str_at("error"@) == Some(why))
            &&& failure is None && steps[i] is Reply ==> (steps[i] matches Step::Reply(reply)
                && reply@.bool_at("ok"@) == Some(true))
            &&& steps[i] is Reply ==> i + 1 == steps.len()
        }),
{
    lemma_defer_run(runs, events, steps, i);
    lemma_stage_of(runs, events, steps, i);
    assert(defer_follows(runs[i], events[i], runs[i + 1], steps[i]));
    lemma_one_step(runs[i], events[i], runs[i + 1], steps[i]);
    if i + 1 < steps.len() {
        lemma_stage_of(runs, events, steps, i + 1);
    }
    assert forall|why: Seq<char>|
        (#[trigger] refusal(why)).bool_at("ok"@) == Some(false) && refusal(why).str_at("error"@)
            == Some(why) by {
        a_refusal_says_why(why);
    }
    lemma_done_fields(runs[0].defer, runs[0].slug@, runs[0].repo.url@, None);
    lemma_done_fields(
        runs[0].defer,
        runs[0].slug@,
        runs[0].repo.url@,
        opt_text(runs[i].preempted),
    );
    match (runs[i].stage, events[i]) {
        (DeferStage::Linking(kind), Event::Linked(Ok(link))) => {
            lemma_reply_fields(runs[i], kind, link, Seq::empty());
            assert(runs[i].pushed_reply(kind, link).bool_at("ok"@) == Some(true));
        },
        (DeferStage::Opening(kind), Event::Opened(Ok(pr_url))) => {
            lemma_reply_fields(
                runs[i],
                kind,
                BranchLink { branch_url: pr_url, suggested_command: pr_url },
                pr_url@,
            );
            assert(runs[i].opened_reply(kind, pr_url@).bool_at("ok"@) == Some(true));
        },
        _ => {},
    }
}

/// What the pull request of a move says: which unit, of which kind, and, for a slug
/// that is a plain name, the two places as they are seen from the workspace.
pub proof fn the_pull_request_tells_the_move(
    runs: Seq<DeferRun>,
    events: Seq<Event<Places>>,
    steps: Seq<Step>,
    i: int,
)
    requires
        is_defer_run(runs, events, steps),
        0 <= i < steps.len(),
        steps[i] is OpenPr,
        runs[0].slug@.len() > 0,
        runs[0].slug@[0] != '/',
        runs[0].slug@.last() != '/',
        runs[0].slug@.last() != '.',
    ensures
        i == 11,
        events[6] matches Event::Facts(places) && {
            let run = runs[0];
            let slug = run.slug@;
            let change = run.defer && places.lane.change || !run.defer && places.deferred.change;
            let file = run.defer && places.lane.issue_file || !run.defer
                && places.deferred.issue_file;
            let lane = if change {
                "openspec/changes/"@ + slug
            } else if file {
                "issues/"@ + (slug + ".md"@)
            } else {
                "issues/"@ + slug
            };
            let deferred = if change {
                "deferred-changes/"@ + slug
            } else if file {
                "deferred-issues/"@ + (slug + ".md"@)
            } else {
                "deferred-issues/"@ + slug
            };
            let label = if change {
                "change"@
            } else {
                "issue"@
            };
            steps[i] matches Step::OpenPr { head, base, title, body } && if run.defer {
                &&& title@ == "defer: set aside "@ + label + " `"@ + slug + "`"@
                &&& body@ == "Deferred "@ + label + " `"@ + slug + "`.\n\nMoved `"@ + lane
                    + "` → `"@ + deferred
                    + "`.\n\nThis rides the agent-branch + PR flow (no base-branch commit). The unit is preserved byte-for-byte, including any markers; "@
                    + "`undefer`"@ + " is the exact inverse."@
            } else {
                &&& title@ == "resume: reactivate "@ + label + " `"@ + slug + "`"@
                &&& body@ == "Resumed "@ + label + " `"@ + slug + "`.\n\nMoved `"@ + deferred
                    + "` → `"@ + lane
                    + "`.\n\nThis rides the agent-branch + PR flow (no base-branch commit). The unit is preserved byte-for-byte, including any markers; "@
                    + "`defer`"@ + " is the exact inverse."@
            }
        },
{
    lemma_defer_run(runs, events, steps, i);
    lemma_stage_of(runs, events, steps, i);
    assert(defer_follows(runs[i], events[i], runs[i + 1], steps[i]));
    lemma_kind_of(runs, events, steps, i);
    let slug = runs[0].slug@;
    reveal_strlit(".md");
    reveal_strlit("/");
    reveal_strlit("issues");
    reveal_strlit("issues/");
    reveal_strlit("deferred-issues");
    reveal_strlit("deferred-issues/");
    reveal_strlit("openspec/changes");
    reveal_strlit("openspec/changes/");
    reveal_strlit("deferred-changes");
    reveal_strlit("deferred-changes/");
    let named = slug + ".md"@;
    assert(named[0] == slug[0]);
    assert(named.last() == 'd');
    assert("issues"@ + "/"@ =~= "issues/"@);
    assert("deferred-issues"@ + "/"@ =~= "deferred-issues/"@);
    assert("openspec/changes"@ + "/"@ =~= "openspec/changes/"@);
    assert("deferred-changes"@ + "/"@ =~= "deferred-changes/"@);
    assert("issues/"@ + slug != Seq::<char>::empty());
    lemma_plain(DeferKind::Change, runs[0].repo.workspace@, slug);
    lemma_plain(DeferKind::IssueFile, runs[0].repo.workspace@, slug);
    lemma_plain(DeferKind::IssueDir, runs[0].repo.workspace@, slug);
}

proof fn lemma_plain(kind: DeferKind, workspace: Seq<char>, slug: Seq<char>)
    requires
        slug.len() > 0,
        slug[0] != '/',
        slug.last() != '/',
        slug.last() != '.',
    ensures
        relative_path(kind, workspace, slug, true) == kind.lane_dir() + "/"@ + kind.file_name(
            slug,
        ),
        relative_path(kind, workspace, slug, false) == kind.deferred_dir() + "/"@ + kind.file_name(
            slug,
        ),
{
    reveal_strlit(".md");
    reveal_strlit("issues");
    reveal_strlit("deferred-issues");
    reveal_strlit("openspec/changes");
    reveal_strlit("deferred-changes");
    let name = kind.file_name(slug);
    assert(name[0] == slug[0]);
    assert(name.last() == if kind == DeferKind::IssueFile {
        'd'
    } else {
        slug.last()
    });
    let a = kind.lane_dir() + "/"@ + name;
    let b = kind.deferred_dir() + "/"@ + name;
    assert("issues"@.last() == 's');
    assert("deferred-issues"@.last() == 's');
    assert("openspec/changes"@.last() == 's');
    assert("deferred-changes"@.last() == 's');
    assert(joined(kind.lane_dir(), name) == a);
    assert(joined(kind.deferred_dir(), name) == b);
    assert(a.last() == name.last());
    assert(b.last() == name.last());
    assert(without_tail(a) == a);
    assert(without_tail(b) == b);
}

/// How a request to set aside or to take up begins: with the workspace of the
/// repository that was found, for the slug that the request names.
pub proof fn a_move_begins_as_asked(
    parsed: Json,
    request: DeferRequest,
    defer: bool,
    repo: RepositoryConfig,
    fork: Fork,
    run: DeferRun,
    step: Step,
)
    requires
        call_ensures(DeferRequest::read, (&parsed,), Ok::<DeferRequest, Json>(request)),
        call_ensures(
            DeferRun::start,
            (request, defer, Ok::<RepositoryConfig, String>(repo), fork),
            Ok::<(DeferRun, Step), Json>((run, step)),
        ),
    ensures
        parsed@.str_at("url"@) == Some(request.url@),
        parsed@.str_at("slug"@) == Some(run.slug@),
        run.defer == defer,
        run.repo == repo,
        run.stage is Initializing,
        run.preempted is None,
        step is EnsureInitialized,
        fork matches Fork::Url(u) ==> run.fork_url == Some(u),
        fork is Unset ==> run.fork_url is None,
        fork !is Invalid,
{
}

fn verb_text(defer: bool) -> (r: &'static str)
    ensures
        r@ == verb(defer),
{
    if defer {
        "defer"
    } else {
        "undefer"
    }
}

fn relative_text(kind: &DeferKind, workspace: &str, slug: &str, in_lane: bool) -> (r: String)
    ensures
        r@ == relative_path(*kind, workspace@, slug@, in_lane),
{
    let (lane_dir, deferred_dir) = kind.dirs();
    let dir = if in_lane {
        lane_dir
    } else {
        deferred_dir
    };
    let name = kind.name(slug);
    let letters = chars_of(name.as_str());
    if letters.len() > 0 && letters[0] == '/' {
        match strip_prefix(name.as_str(), workspace) {
            Some(rest) => rest,
            None => name,
        }
    } else {
        trim_tail(join_path(dir, name.as_str()).as_str())
    }
}

fn pr_title(defer: bool, kind: &DeferKind, slug: &str) -> (r: String)
    ensures
        r@ == title_text(defer, *kind, slug@),
{
    let head = if defer {
        "defer: set aside "
    } else {
        "resume: reactivate "
    };
    cat5(head, kind.label(), " `", slug, "`")
}

fn pr_body(defer: bool, kind: &DeferKind, workspace: &str, slug: &str) -> (r: String)
    ensures
        r@ == body_text(defer, *kind, workspace@, slug@),
{
    let head = if defer {
        "Deferred "
    } else {
        "Resumed "
    };
    let inverse = if defer {
        "`undefer`"
    } else {
        "`defer`"
    };
    let from = relative_text(kind, workspace, slug, defer);
    let to = relative_text(kind, workspace, slug, !defer);
    let first = cat5(head, kind.label(), " `", slug, "`.\n\nMoved `");
    let second = cat4(first.as_str(), from.as_str(), "` → `", to.as_str());
    cat4(
        second.as_str(),
        "`.\n\nThis rides the agent-branch + PR flow (no base-branch commit). The unit is preserved byte-for-byte, including any markers; ",
        inverse,
        " is the exact inverse.",
    )
}

fn already_done(defer: bool, slug: &str, url: &str, preempted: &Option<String>) -> (r: Json)
    ensures
        r@ == already_done_reply(defer, slug@, url@, opt_text(*preempted)),
{
    let outcome = if defer {
        "already_deferred"
    } else {
        "already_active"
    };
    Fields::new().flag("ok", true).text("outcome", outcome).text("slug", slug).text("url", url).opt(
        "preempted_change",
        preempted,
    ).finish()
}

impl DeferRun {
    /// Begins an operation, and gives its first step: to initialize the workspace.
    /// It is refused where the repository is unknown or the address of its fork
    /// cannot be derived.
    pub fn start(request: DeferRequest, defer: bool, found: Found, fork: Fork) -> (r: Result<
        (DeferRun, Step),
        Json,
    >)
        ensures
            match (found, fork) {
                (Err(e), _) => r matches Err(j) && j@ == refusal(e@),
                (Ok(_), Fork::Invalid(e)) => r matches Err(j) && j@ == refusal(
                    "deriving fork url: "@ + e@,
                ),
                (Ok(repo), _) => {
                    &&& r matches Ok((run, step))
                    &&& step is EnsureInitialized
                    &&& run == (DeferRun {
                        defer,
                        slug: request.slug,
                        repo,
                        fork_url: fork.url(),
                        stage: DeferStage::Initializing,
                        preempted: None,
                    })
                },
            },
    {
        let repo = match found {
            Ok(repo) => repo,
            Err(e) => return Err(refuse(e.as_str())),
        };
        let fork_url = match fork {
            Fork::Unset => None,
            Fork::Url(u) => Some(u),
            Fork::Invalid(e) => return Err(refuse(cat2("deriving fork url: ", e.as_str()).as_str())),
        };
        let run = DeferRun {
            defer,
            slug: request.slug,
            repo,
            fork_url,
            stage: DeferStage::Initializing,
            preempted: None,
        };
        Ok((run, Step::EnsureInitialized))
    }

    fn fail(&mut self, why: String) -> (step: Step)
        ensures
            gives_up(*old(self), *final(self), step, why@),
    {
        self.stage = DeferStage::Finished;
        Step::Reply(refuse(why.as_str()))
    }

    fn after_push(&mut self, kind: DeferKind) -> (step: Step)
        requires
            old(self).stage == DeferStage::Pushing(kind),
        ensures
            defer_follows(*old(self), Event::Outcome(Ok(())), *final(self), step),
    {
        if self.repo.auto_submit_pr {
            self.stage = DeferStage::Opening(kind);
            Step::OpenPr {
                head: self.repo.agent_branch.clone(),
                base: self.repo.base_branch.clone(),
                title: pr_title(self.defer, &kind, self.slug.as_str()),
                body: pr_body(
                    self.defer,
                    &kind,
                    self.repo.workspace.as_str(),
                    self.slug.as_str(),
                ),
            }
        } else {
            self.stage = DeferStage::Linking(kind);
            let into = match &self.repo.upstream_branch {
                Some(b) => b.clone(),
                None => self.repo.base_branch.clone(),
            };
            Step::Link { branch: self.repo.agent_branch.clone(), into }
        }
    }

    fn after_locate(&mut self, places: Places) -> (step: Step)
        requires
            old(self).stage is Locating,
        ensures
            defer_follows(*old(self), Event::Facts(places), *final(self), step),
    {
        let found = classify_defer(
            &places,
            self.repo.workspace.as_str(),
            self.slug.as_str(),
            self.defer,
        );
        match found {
            DeferLocate::NeedsMove(kind) => {
                self.stage = DeferStage::Recreating(kind);
                Step::RecreateBranch { branch: self.repo.agent_branch.clone() }
            },
            DeferLocate::AlreadyDone(_) => {
                self.stage = DeferStage::Finished;
                Step::Reply(
                    already_done(
                        self.defer,
                        self.slug.as_str(),
                        self.repo.url.as_str(),
                        &self.preempted,
                    ),
                )
            },
            DeferLocate::NotFound => {
                let head = if self.defer {
                    "no change or issue `"
                } else {
                    "no deferred change or issue `"
                };
                let why = cat4(head, self.slug.as_str(), "` on ", self.repo.url.as_str());
                self.fail(why)
            },
            DeferLocate::Ambiguous(names) => {
                let first = cat5(
                    "ambiguous slug `",
                    self.slug.as_str(),
                    "` on ",
                    self.repo.url.as_str(),
                    ": it names more than one unit (",
                );
                let why = cat5(
                    first.as_str(),
                    names.as_str(),
                    "); resolve the collision before ",
                    verb_text(self.defer),
                    "ring",
                );
                self.fail(why)
            },
        }
    }

    fn after_probe(&mut self, places: Places) -> (step: Step)
        requires
            old(self).stage is Probing,
        ensures
            defer_follows(*old(self), Event::Facts(places), *final(self), step),
    {
        let found = classify_defer(
            &places,
            self.repo.workspace.as_str(),
            self.slug.as_str(),
            self.defer,
        );
        match found {
            DeferLocate::AlreadyDone(_) => {
                self.stage = DeferStage::Finished;
                Step::Reply(
                    already_done(self.defer, self.slug.as_str(), self.repo.url.as_str(), &None),
                )
            },
            _ => {
                self.stage = DeferStage::Preempting;
                Step::Preempt
            },
        }
    }

    /// Takes what came of the last step and says what to do next.
    pub fn advance(&mut self, event: Event<Places>) -> (step: Step)
        requires
            old(self).expects(event),
        ensures
            defer_follows(*old(self), event, *final(self), step),
    {
        match (self.stage, event) {
            (DeferStage::Initializing, Event::Outcome(Ok(_))) => {
                self.stage = DeferStage::Probing;
                Step::Locate
            },
            (DeferStage::Initializing, Event::Outcome(Err(e))) => {
                self.fail(cat2("workspace init failed: ", e.as_str()))
            },
            (DeferStage::Probing, Event::Facts(places)) => self.after_probe(places),
            (DeferStage::Preempting, Event::Marker(Acquired::Held { preempted })) => {
                self.stage = DeferStage::Reinitializing;
                self.preempted = preempted;
                Step::EnsureInitialized
            },
            (DeferStage::Preempting, Event::Marker(Acquired::Busy(e))) => self.fail(e),
            (DeferStage::Preempting, Event::Marker(Acquired::Internal(e))) => {
                self.fail(cat3(verb_text(self.defer), " preempt failed: ", e.as_str()))
            },
            (DeferStage::Reinitializing, Event::Outcome(Ok(_))) => {
                self.stage = DeferStage::CheckingOut;
                Step::Checkout { branch: self.repo.base_branch.clone() }
            },
            (DeferStage::Reinitializing, Event::Outcome(Err(e))) => {
                self.fail(cat2("workspace init failed: ", e.as_str()))
            },
            (DeferStage::CheckingOut, Event::Outcome(Ok(_))) => {
                self.stage = DeferStage::Resetting;
                Step::ResetHard { branch: self.repo.base_branch.clone() }
            },
            (DeferStage::CheckingOut, Event::Outcome(Err(e))) => {
                self.fail(cat2("checkout base branch failed: ", e.as_str()))
            },
            (DeferStage::Resetting, Event::Outcome(_)) => {
                self.stage = DeferStage::Locating;
                Step::Locate
            },
            (DeferStage::Locating, Event::Facts(places)) => self.after_locate(places),
            (DeferStage::Recreating(kind), Event::Outcome(Ok(_))) => {
                self.stage = DeferStage::Moving(kind);
                let paths = kind.paths(self.repo.workspace.as_str(), self.slug.as_str());
                if self.defer {
                    Step::Move { from: paths.lane, to: paths.deferred }
                } else {
                    Step::Move { from: paths.deferred, to: paths.lane }
                }
            },
            (DeferStage::Recreating(_), Event::Outcome(Err(e))) => {
                self.fail(cat2("recreating agent branch failed: ", e.as_str()))
            },
            (DeferStage::Moving(kind), Event::Outcome(Ok(_))) => {
                self.stage = DeferStage::Staging(kind);
                Step::AddAll
            },
            (DeferStage::Moving(_), Event::Outcome(Err(e))) => self.fail(e),
            (DeferStage::Staging(kind), Event::Outcome(Ok(_))) => {
                self.stage = DeferStage::Committing(kind);
                let head = if self.defer {
                    "chore: defer "
                } else {
                    "chore: resume "
                };
                Step::Commit { message: cat2(head, self.slug.as_str()) }
            },
            (DeferStage::Staging(_), Event::Outcome(Err(e))) => {
                self.fail(cat2("staging the move failed: ", e.as_str()))
            },
            (DeferStage::Committing(kind), Event::Outcome(Ok(_))) => {
                self.stage = DeferStage::Pushing(kind);
                Step::Push {
                    branch: self.repo.agent_branch.clone(),
                    remote: push_remote_name(self.fork_url.is_some()),
                }
            },
            (DeferStage::Committing(_), Event::Outcome(Err(e))) => {
                self.fail(cat2("committing the move failed: ", e.as_str()))
            },
            (DeferStage::Pushing(kind), Event::Outcome(Ok(_))) => self.after_push(kind),
            (DeferStage::Pushing(_), Event::Outcome(Err(e))) => {
                self.fail(
                    cat4("pushing ", verb_text(self.defer), " branch failed: ", e.as_str()),
                )
            },
            (DeferStage::Linking(kind), Event::Linked(Ok(link))) => {
                let outcome = if self.defer {
                    "deferred"
                } else {
                    "resumed"
                };
                let reply = Fields::new().flag("ok", true).text("outcome", outcome).text(
                    "mechanism",
                    "branch_pushed_no_pr",
                ).text("slug", self.slug.as_str()).text("kind", kind.label()).text(
                    "url",
                    self.repo.url.as_str(),
                ).text("branch", self.repo.agent_branch.as_str()).text(
                    "branch_url",
                    link.branch_url.as_str(),
                ).text("suggested_command", link.suggested_command.as_str()).opt(
                    "preempted_change",
                    &self.preempted,
                ).finish();
                self.stage = DeferStage::Finished;
                Step::Reply(reply)
            },
            (DeferStage::Linking(_), Event::Linked(Err(e))) => {
                self.fail(cat2("parsing repo url: ", e.as_str()))
            },
            (DeferStage::Opening(kind), Event::Opened(Ok(pr_url))) => {
                let outcome = if self.defer {
                    "deferred"
                } else {
                    "resumed"
                };
                let reply = Fields::new().flag("ok", true).text("outcome", outcome).text(
                    "mechanism",
                    "pr_opened",
                ).text("slug", self.slug.as_str()).text("kind", kind.label()).text(
                    "url",
                    self.repo.url.as_str(),
                ).text("branch", self.repo.agent_branch.as_str()).text(
                    "pr_url",
                    pr_url.as_str(),
                ).opt("preempted_change", &self.preempted).finish();
                self.stage = DeferStage::Finished;
                Step::Reply(reply)
            },
            (DeferStage::Opening(_), Event::Opened(Err(e))) => {
                self.fail(cat4("opening ", verb_text(self.defer), " PR: ", e.as_str()))
            },
            _ => unreached(),
        }
    }
}

/// A unit is not moved where the repository is not known or the address of the fork could not be
/// derived, and it is told which.
pub proof fn a_move_in_an_unknown_repository_is_refused(
    request: DeferRequest,
    defer: bool,
    found: Found,
    fork: Fork,
    r: Result<(DeferRun, Step), Json>,
)
    requires
        call_ensures(DeferRun::start, (request, defer, found, fork), r),
    ensures
        r is Err <==> found is Err || fork is Invalid,
        r matches Err(j) ==> j@.bool_at("ok"@) == Some(false) && j@.str_at("error"@) == Some(
            match (found, fork) {
                (Err(e), _) => e@,
                (Ok(_), Fork::Invalid(e)) => "deriving fork url: "@ + e@,
                _ => ""@,
            },
        ),
{
    assert forall|why: Seq<char>| (#[trigger] refusal(why)).bool_at("ok"@) == Some(false)
        && refusal(why).str_at("error"@) == Some(why) by {
        a_refusal_says_why(why);
    }
}

/// What is done of a move with an event is what follows from where it stands.
pub proof fn a_move_goes_step_by_step(run: Ghost<&mut DeferRun>, event: Event<Places>, step: Step)
    requires
        (*run@).expects(event),
        call_ensures(DeferRun::advance, (run@, event), step),
    ensures
        defer_follows(*run@, event, *final(run@), step),
{
}

/// A unit is looked for by its name in the lanes and in the deferred area, both ways.
pub proof fn a_unit_is_looked_for_both_ways(
    places: Places,
    workspace: &str,
    slug: &str,
    defer: bool,
    r: DeferLocate,
    there: DeferLocate,
    back: DeferLocate,
)
    requires
        call_ensures(classify_defer, (&places, workspace, slug, defer), r),
        call_ensures(locate_for_defer, (&places, workspace, slug), there),
        call_ensures(locate_for_undefer, (&places, workspace, slug), back),
    ensures
        r@ == location(places, workspace@, slug@, defer),
        defer ==> r@ == there@,
        !defer ==> r@ == back@,
{
}

/// Where a unit stands: a change among the changes, an issue among the issues, as a file with the
/// ending `.md` or as a directory; deferred, it stands in the area of its kind, under its name.
pub proof fn a_unit_stands_under_its_name(
    kind: DeferKind,
    workspace: &str,
    slug: &str,
    r: DeferPaths,
    label: &'static str,
)
    requires
        call_ensures(DeferKind::paths, (&kind, workspace, slug), r),
        call_ensures(DeferKind::label, (&kind,), label),
    ensures
        kind is Change ==> {
            &&& r.lane@ == joined(joined(workspace@, "openspec/changes"@), slug@)
            &&& r.deferred@ == joined(joined(workspace@, "deferred-changes"@), slug@)
            &&& label@ == "change"@
        },
        kind is IssueFile ==> {
            &&& r.lane@ == joined(joined(workspace@, "issues"@), slug@ + ".md"@)
            &&& r.deferred@ == joined(joined(workspace@, "deferred-issues"@), slug@ + ".md"@)
            &&& label@ == "issue"@
        },
        kind is IssueDir ==> {
            &&& r.lane@ == joined(joined(workspace@, "issues"@), slug@)
            &&& r.deferred@ == joined(joined(workspace@, "deferred-issues"@), slug@)
            &&& label@ == "issue"@
        },
{
}

} // verus!
