//! What the daemon depends on: which programs and services it needs with its
//! configuration, which of them are there, and what an operator is told.
use vstd::prelude::*;
use crate::text::{
    cat2, cat3, cat4, cat5, chars_of, clone_opt, dec, join, join_texts, lemma_texts_empty,
    lemma_texts_push, number_text, opt_text, same_text, text_of, texts, trim, trim_text,
};

verus! {

/// What is said where `openspec` is missing.
pub const OPENSPEC_MISSING_MSG: &'static str = "openspec preflight failed: `openspec` binary not found on PATH. Install openspec and ensure the systemd unit's PATH covers its install directory.";

pub const GIT_HINT: &'static str = "Install git via your platform package manager (e.g. `apt-get install git`, `brew install git`).";

pub const SANDBOX_HINT: &'static str = "Install a usable sandbox mechanism. On Linux: bubblewrap (`apt-get install bubblewrap`) with unprivileged user namespaces enabled, OR run the daemon under systemd so transient `systemd-run` service mode is available. On macOS: `sandbox-exec` (ships with the OS).";

pub const OPENCODE_HINT: &'static str = "Install opencode per https://opencode.ai (its own installer), then authenticate it for your provider.";

pub const GH_HINT: &'static str = "Install the GitHub CLI `gh` (https://cli.github.com) and authenticate with `gh auth login`, OR disable the scout feature (`features.scout.enabled: false`).";

/// What is known of one dependency.
#[derive(Debug, Clone, PartialEq, Eq)]
pub enum DepStatus {
    /// It is there and can be used.
    Satisfied { detail: Option<String> },
    /// It is not there.
    Missing,
    /// It is there and cannot be used.
    Unusable { reason: String },
}

/// The mathematical counterpart of [`DepStatus`].
pub enum DepStatusV {
    Satisfied { detail: Option<Seq<char>> },
    Missing,
    Unusable { reason: Seq<char> },
}

impl DepStatus {
    pub open spec fn view(&self) -> DepStatusV {
        match self {
            DepStatus::Satisfied { detail } => DepStatusV::Satisfied { detail: opt_text(*detail) },
            DepStatus::Missing => DepStatusV::Missing,
            DepStatus::Unusable { reason } => DepStatusV::Unusable { reason: reason@ },
        }
    }

    /// Whether the dependency can be used.
    pub fn is_ok(&self) -> (r: bool)
        ensures
            r == (self is Satisfied),
    {
        match self {
            DepStatus::Satisfied { .. } => true,
            DepStatus::Missing => false,
            DepStatus::Unusable { .. } => false,
        }
    }

    fn copy(&self) -> (r: DepStatus)
        ensures
            r == *self,
    {
        match self {
            DepStatus::Satisfied { detail } => DepStatus::Satisfied { detail: clone_opt(detail) },
            DepStatus::Missing => DepStatus::Missing,
            DepStatus::Unusable { reason } => DepStatus::Unusable { reason: reason.clone() },
        }
    }
}

/// How much the daemon depends on something.
#[derive(Debug, Clone, Copy, PartialEq, Eq, Structural)]
pub enum Importance {
    /// It does not start without it.
    Required,
    /// A part of its configuration needs it; without it, less is done.
    Configured,
}

/// What was found of one dependency.
#[derive(Debug, Clone, PartialEq, Eq)]
pub struct DepCheck {
    pub name: String,
    pub importance: Importance,
    pub status: DepStatus,
    pub install_hint: String,
}

/// The mathematical counterpart of [`DepCheck`].
pub struct DepCheckV {
    pub name: Seq<char>,
    pub importance: Importance,
    pub status: DepStatusV,
    pub install_hint: Seq<char>,
}

impl DepCheck {
    pub open spec fn view(&self) -> DepCheckV {
        DepCheckV {
            name: self.name@,
            importance: self.importance,
            status: self.status@,
            install_hint: self.install_hint@,
        }
    }

    /// Whether the dependency can be used.
    pub open spec fn ok(self) -> bool {
        self.status is Satisfied
    }

    /// Whether the daemon cannot start for want of it.
    pub open spec fn blocks(self) -> bool {
        self.importance == Importance::Required && !self.ok()
    }

    /// Whether the dependency can be used.
    pub fn is_ok(&self) -> (r: bool)
        ensures
            r == self.ok(),
    {
        self.status.is_ok()
    }

    /// Whether the daemon cannot start for want of it.
    pub fn is_blocking(&self) -> (r: bool)
        ensures
            r == self.blocks(),
    {
        self.importance == Importance::Required && !self.is_ok()
    }

    /// Whether it is missing or unusable, and the daemon starts all the same.
    pub fn is_warning(&self) -> (r: bool)
        ensures
            r == (!self.ok() && !self.blocks()),
    {
        !self.is_ok() && !self.is_blocking()
    }

    pub open spec fn tag(self) -> Seq<char> {
        match self.status {
            DepStatus::Satisfied { .. } => "ok"@,
            DepStatus::Missing => "MISSING"@,
            DepStatus::Unusable { .. } => "UNUSABLE"@,
        }
    }

    fn status_tag(&self) -> (r: &'static str)
        ensures
            r@ == self.tag(),
    {
        match self.status {
            DepStatus::Satisfied { .. } => "ok",
            DepStatus::Missing => "MISSING",
            DepStatus::Unusable { .. } => "UNUSABLE",
        }
    }

    /// The tag, filled up with spaces to eight characters.
    pub open spec fn padded_tag(self) -> Seq<char> {
        match self.status {
            DepStatus::Satisfied { .. } => "ok      "@,
            DepStatus::Missing => "MISSING "@,
            DepStatus::Unusable { .. } => "UNUSABLE"@,
        }
    }

    /// The lines of a report on the dependency.
    pub open spec fn lines(self) -> Seq<char> {
        let head = "  ["@ + self.padded_tag() + "] "@ + self.name@;
        let rest = match self.status {
            DepStatus::Satisfied { detail: Some(d) } => "  ("@ + d@ + ")"@,
            DepStatus::Satisfied { detail: None } => ""@,
            DepStatus::Unusable { reason } => "\n              reason: "@ + reason@
                + "\n              fix:    "@ + self.install_hint@,
            DepStatus::Missing => "\n              fix:    "@ + self.install_hint@,
        };
        head + rest + "\n"@
    }

    fn render_lines(&self) -> (r: String)
        ensures
            r@ == self.lines(),
    {
        let tag = match self.status {
            DepStatus::Satisfied { .. } => "ok      ",
            DepStatus::Missing => "MISSING ",
            DepStatus::Unusable { .. } => "UNUSABLE",
        };
        let head = cat4("  [", tag, "] ", self.name.as_str());
        let rest = match &self.status {
            DepStatus::Satisfied { detail } => match detail {
                Some(d) => cat3("  (", d.as_str(), ")"),
                None => "".to_owned(),
            },
            DepStatus::Unusable { reason } => cat4(
                "\n              reason: ",
                reason.as_str(),
                "\n              fix:    ",
                self.install_hint.as_str(),
            ),
            DepStatus::Missing => cat2("\n              fix:    ", self.install_hint.as_str()),
        };
        cat3(head.as_str(), rest.as_str(), "\n")
    }

    /// The line of an error on a dependency that the daemon cannot start without.
    pub open spec fn complaint(self) -> Seq<char> {
        let detail = match self.status {
            DepStatus::Unusable { reason } => " (unusable: "@ + reason@ + ")"@,
            _ => ""@,
        };
        "\n  - "@ + self.name@ + detail + ": "@ + self.install_hint@
    }

    fn render_complaint(&self) -> (r: String)
        ensures
            r@ == self.complaint(),
    {
        let detail = match &self.status {
            DepStatus::Unusable { reason } => cat3(" (unusable: ", reason.as_str(), ")"),
            _ => "".to_owned(),
        };
        cat5("\n  - ", self.name.as_str(), detail.as_str(), ": ", self.install_hint.as_str())
    }
}

/// What was found of all dependencies, in the order in which they were looked at.
#[derive(Debug, Clone, PartialEq, Eq)]
pub struct DepReport {
    pub checks: Vec<DepCheck>,
}

/// A part of a report.
#[derive(Debug, Clone, Copy, PartialEq, Eq, Structural)]
pub enum Part {
    Blocking,
    Warnings,
    Required,
    Configured,
}

impl Part {
    pub open spec fn holds(self, c: DepCheck) -> bool {
        match self {
            Part::Blocking => c.blocks(),
            Part::Warnings => !c.ok() && !c.blocks(),
            Part::Required => c.importance == Importance::Required,
            Part::Configured => c.importance == Importance::Configured,
        }
    }

    fn takes(self, c: &DepCheck) -> (r: bool)
        ensures
            r == self.holds(*c),
    {
        match self {
            Part::Blocking => c.is_blocking(),
            Part::Warnings => c.is_warning(),
            Part::Required => c.importance == Importance::Required,
            Part::Configured => c.importance == Importance::Configured,
        }
    }
}

/// A part of a list of checks, in their order.
pub open spec fn part_of(checks: Seq<DepCheck>, part: Part) -> Seq<DepCheck>
    decreases checks.len(),
{
    if checks.len() == 0 {
        Seq::empty()
    } else {
        let before = part_of(checks.drop_last(), part);
        if part.holds(checks.last()) {
            before.push(checks.last())
        } else {
            before
        }
    }
}

/// The checks that references point to.
pub open spec fn pointed(v: Seq<&DepCheck>) -> Seq<DepCheck> {
    Seq::new(v.len(), |i: int| *v[i])
}

/// The lines of a report on some checks.
pub open spec fn all_lines(checks: Seq<DepCheck>) -> Seq<char>
    decreases checks.len(),
{
    if checks.len() == 0 {
        Seq::empty()
    } else {
        all_lines(checks.drop_last()) + checks.last().lines()
    }
}

/// The lines of an error on some checks.
pub open spec fn all_complaints(checks: Seq<DepCheck>) -> Seq<char>
    decreases checks.len(),
{
    if checks.len() == 0 {
        Seq::empty()
    } else {
        all_complaints(checks.drop_last()) + checks.last().complaint()
    }
}

/// A group of a report: nothing where there is nothing in it.
pub open spec fn group_text(checks: Seq<DepCheck>, title: Seq<char>, part: Part) -> Seq<char> {
    let group = part_of(checks, part);
    if group.len() == 0 {
        ""@
    } else {
        "\n"@ + title + "\n"@ + all_lines(group)
    }
}

/// The last line of a report.
pub open spec fn summary_text(blocking: nat, warnings: nat) -> Seq<char> {
    if blocking > 0 {
        "Summary: "@ + dec(blocking) + " required dependency(ies) missing or unusable; "@ + dec(
            warnings,
        ) + " warning(s).\n"@
    } else if warnings > 0 {
        "Summary: all required dependencies satisfied; "@ + dec(warnings) + " warning(s).\n"@
    } else {
        "Summary: all dependencies satisfied.\n"@
    }
}

/// What is written to the log of one check.
#[derive(Debug)]
pub enum LogEntry {
    Info { dependency: String, detail: String },
    Warn { dependency: String, status: String, message: String },
}

/// Whether an entry is what a check is logged as. What keeps the daemon from
/// starting is told by the error, not by the log.
pub open spec fn is_logged_as(c: DepCheck, e: LogEntry) -> bool {
    match c.status {
        DepStatus::Satisfied { detail } => {
            &&& e matches LogEntry::Info { dependency, detail: d }
            &&& dependency@ == c.name@
            &&& d@ == match detail {
                Some(t) => t@,
                None => ""@,
            }
        },
        _ => {
            &&& e matches LogEntry::Warn { dependency, status, message }
            &&& dependency@ == c.name@
            &&& status@ == c.tag()
            &&& message@ == "configuration-implied dependency missing or unusable; "@
                + c.install_hint@
        },
    }
}

/// The checks that are logged.
pub open spec fn logged(checks: Seq<DepCheck>) -> Seq<DepCheck>
    decreases checks.len(),
{
    if checks.len() == 0 {
        Seq::empty()
    } else {
        let before = logged(checks.drop_last());
        if checks.last().blocks() {
            before
        } else {
            before.push(checks.last())
        }
    }
}

impl DepReport {
    /// Whether the daemon cannot start.
    pub open spec fn blocked(self) -> bool {
        exists|i: int| 0 <= i < self.checks@.len() && (#[trigger] self.checks@[i]).blocks()
    }

    /// Whether the daemon cannot start.
    pub fn has_blocking(&self) -> (r: bool)
        ensures
            r == self.blocked(),
    {
        let mut i: usize = 0;
        while i < self.checks.len()
            invariant
                i <= self.checks@.len(),
                forall|k: int| 0 <= k < i ==> !(#[trigger] self.checks@[k]).blocks(),
            decreases self.checks@.len() - i,
        {
            if self.checks[i].is_blocking() {
                return true;
            }
            i += 1;
        }
        false
    }

    fn part(&self, part: Part) -> (r: Vec<&DepCheck>)
        ensures
            pointed(r@) == part_of(self.checks@, part),
    {
        let mut out: Vec<&DepCheck> = Vec::new();
        let mut i: usize = 0;
        proof {
            assert(pointed(out@) =~= part_of(self.checks@.take(0), part));
        }
        while i < self.checks.len()
            invariant
                i <= self.checks@.len(),
                pointed(out@) == part_of(self.checks@.take(i as int), part),
            decreases self.checks@.len() - i,
        {
            proof {
                assert(self.checks@.take(i + 1).drop_last() =~= self.checks@.take(i as int));
            }
            if part.takes(&self.checks[i]) {
                proof {
                    assert(pointed(out@.push(&self.checks@[i as int])) =~= pointed(out@).push(
                        self.checks@[i as int],
                    ));
                }
                out.push(&self.checks[i]);
            }
            i += 1;
        }
        proof {
            assert(self.checks@.take(self.checks@.len() as int) =~= self.checks@);
        }
        out
    }

    /// The checks for want of which the daemon cannot start.
    pub fn blocking(&self) -> (r: Vec<&DepCheck>)
        ensures
            pointed(r@) == part_of(self.checks@, Part::Blocking),
    {
        self.part(Part::Blocking)
    }

    /// The checks that are worth a warning.
    pub fn warnings(&self) -> (r: Vec<&DepCheck>)
        ensures
            pointed(r@) == part_of(self.checks@, Part::Warnings),
    {
        self.part(Part::Warnings)
    }

    fn render_group(&self, title: &str, part: Part) -> (r: String)
        ensures
            r@ == group_text(self.checks@, title@, part),
    {
        let group = self.part(part);
        let ghost all = pointed(group@);
        proof {
            assert(all.len() == group@.len());
        }
        if group.len() == 0 {
            return "".to_owned();
        }
        let head = cat3("\n", title, "\n");
        let mut body = String::new();
        let mut i: usize = 0;
        while i < group.len()
            invariant
                i <= group@.len(),
                all == pointed(group@),
                body@ == all_lines(all.take(i as int)),
            decreases group@.len() - i,
        {
            proof {
                assert(all.take(i + 1).drop_last() =~= all.take(i as int));
            }
            body.append(group[i].render_lines().as_str());
            i += 1;
        }
        proof {
            assert(all.take(all.len() as int) =~= all);
        }
        cat2(head.as_str(), body.as_str())
    }

    /// The report as text.
    pub open spec fn text(self) -> Seq<char> {
        "autocoder dependency report\n"@ + group_text(
            self.checks@,
            "REQUIRED"@,
            Part::Required,
        ) + group_text(self.checks@, "CONFIGURATION-IMPLIED"@, Part::Configured) + "\n"@
            + summary_text(
            part_of(self.checks@, Part::Blocking).len(),
            part_of(self.checks@, Part::Warnings).len(),
        )
    }

    /// Writes the report: the required dependencies, those that the
    /// configuration implies, and a summary.
    pub fn render(&self) -> (r: String)
        ensures
            r@ == self.text(),
    {
        let blocking = self.blocking();
        let warnings = self.warnings();
        proof {
            assert(pointed(blocking@).len() == blocking@.len());
            assert(pointed(warnings@).len() == warnings@.len());
        }
        let b: u64 = blocking.len() as u64;
        let w: u64 = warnings.len() as u64;
        let summary = if b > 0 {
            cat5(
                "Summary: ",
                number_text(b).as_str(),
                " required dependency(ies) missing or unusable; ",
                number_text(w).as_str(),
                " warning(s).\n",
            )
        } else if w > 0 {
            cat3(
                "Summary: all required dependencies satisfied; ",
                number_text(w).as_str(),
                " warning(s).\n",
            )
        } else {
            "Summary: all dependencies satisfied.\n".to_owned()
        };
        cat5(
            "autocoder dependency report\n",
            self.render_group("REQUIRED", Part::Required).as_str(),
            self.render_group("CONFIGURATION-IMPLIED", Part::Configured).as_str(),
            "\n",
            summary.as_str(),
        )
    }

    /// The error with which the start is given up.
    pub open spec fn error_text(self) -> Seq<char> {
        "dependency preflight failed: required dependency(ies) missing or unusable:"@
            + all_complaints(part_of(self.checks@, Part::Blocking))
    }

    /// Writes the error with which the start is given up: each dependency that
    /// keeps the daemon from starting, and how to install it.
    pub fn blocking_error_message(&self) -> (r: String)
        ensures
            r@ == self.error_text(),
    {
        let group = self.blocking();
        let ghost all = pointed(group@);
        let mut body = String::new();
        let mut i: usize = 0;
        while i < group.len()
            invariant
                i <= group@.len(),
                all == pointed(group@),
                body@ == all_complaints(all.take(i as int)),
            decreases group@.len() - i,
        {
            proof {
                assert(all.take(i + 1).drop_last() =~= all.take(i as int));
            }
            body.append(group[i].render_complaint().as_str());
            i += 1;
        }
        proof {
            assert(all.take(all.len() as int) =~= all);
        }
        cat2(
            "dependency preflight failed: required dependency(ies) missing or unusable:",
            body.as_str(),
        )
    }

    /// What is written to the log of the report.
    pub fn log(&self) -> (r: Vec<LogEntry>)
        ensures
            r@.len() == logged(self.checks@).len(),
            forall|i: int|
                0 <= i < r@.len() ==> is_logged_as(logged(self.checks@)[i], #[trigger] r@[i]),
    {
        let mut out: Vec<LogEntry> = Vec::new();
        let mut i: usize = 0;
        while i < self.checks.len()
            invariant
                i <= self.checks@.len(),
                out@.len() == logged(self.checks@.take(i as int)).len(),
                forall|k: int|
                    0 <= k < out@.len() ==> is_logged_as(
                        logged(self.checks@.take(i as int))[k],
                        #[trigger] out@[k],
                    ),
            decreases self.checks@.len() - i,
        {
            proof {
                assert(self.checks@.take(i + 1).drop_last() =~= self.checks@.take(i as int));
            }
            let c = &self.checks[i];
            match &c.status {
                DepStatus::Satisfied { detail } => {
                    let text = match detail {
                        Some(d) => d.clone(),
                        None => "".to_owned(),
                    };
                    out.push(LogEntry::Info { dependency: c.name.clone(), detail: text });
                },
                _ => {
                    if c.is_warning() {
                        out.push(
                            LogEntry::Warn {
                                dependency: c.name.clone(),
                                status: c.status_tag().to_owned(),
                                message: cat2(
                                    "configuration-implied dependency missing or unusable; ",
                                    c.install_hint.as_str(),
                                ),
                            },
                        );
                    }
                },
            }
            i += 1;
        }
        proof {
            assert(self.checks@.take(self.checks@.len() as int) =~= self.checks@);
        }
        out
    }
}

/// The exit code of the report on demand.
pub fn doctor_exit_code(report: &DepReport) -> (r: i32)
    ensures
        r == (if report.blocked() {
            1i32
        } else {
            0i32
        }),
{
    if report.has_blocking() {
        1
    } else {
        0
    }
}

/// Whether the daemon may start, or why not.
pub fn run_startup_preflight(report: &DepReport) -> (r: Result<(), String>)
    ensures
        if report.blocked() {
            r matches Err(e) && e@ == report.error_text()
        } else {
            r is Ok
        },
{
    if report.has_blocking() {
        Err(report.blocking_error_message())
    } else {
        Ok(())
    }
}

/// What is known of the sandbox of the platform.
#[derive(Debug)]
pub enum SandboxAvailability {
    Usable { mechanism: String },
    PresentButUnusable { present: Vec<String> },
    Absent,
}

/// How a program was run to ask for its version.
#[derive(Debug)]
pub enum VersionRun {
    Succeeded { stdout: String },
    Exited { code: Option<i32>, stderr: String },
    NotFound,
    Failed { error: String },
}

/// An exit code in words.
pub open spec fn code_text(code: Option<i32>) -> Seq<char> {
    match code {
        Some(n) => if n < 0 {
            "Some(-"@ + dec((-n) as nat) + ")"@
        } else {
            "Some("@ + dec(n as nat) + ")"@
        },
        None => "None"@,
    }
}

fn show_code(code: Option<i32>) -> (r: String)
    ensures
        r@ == code_text(code),
{
    match code {
        Some(n) => {
            if n < 0 {
                let m: u64 = (-(n as i64)) as u64;
                cat3("Some(-", number_text(m).as_str(), ")")
            } else {
                let m: u64 = n as u64;
                cat3("Some(", number_text(m).as_str(), ")")
            }
        },
        None => "None".to_owned(),
    }
}

/// The first characters of a text.
pub open spec fn first_chars(s: Seq<char>, n: nat) -> Seq<char> {
    if s.len() <= n {
        s
    } else {
        s.subrange(0, n as int)
    }
}

fn head_of(s: &str, n: usize) -> (r: String)
    ensures
        r@ == first_chars(s@, n as nat),
{
    let v = chars_of(s);
    if v.len() <= n {
        s.to_owned()
    } else {
        text_of(&v, 0, n)
    }
}

/// What a run of `openspec --version` tells: a program that is not there is
/// missing, one that fails is unusable.
pub fn probe_openspec(bin: &str, run: &VersionRun) -> (r: DepStatus)
    ensures
        r@ == match run {
            VersionRun::Succeeded { stdout } => DepStatusV::Satisfied {
                detail: Some(trim(stdout@)),
            },
            VersionRun::Exited { code, stderr } => DepStatusV::Unusable {
                reason: "openspec preflight failed: `"@ + bin@ + " --version` exited "@ + code_text(
                    *code,
                ) + ". stderr: "@ + first_chars(stderr@, 200),
            },
            VersionRun::NotFound => DepStatusV::Missing,
            VersionRun::Failed { error } => DepStatusV::Unusable {
                reason: "spawning `"@ + bin@ + " --version` errored: "@ + error@,
            },
        },
{
    match run {
        VersionRun::Succeeded { stdout } => DepStatus::Satisfied {
            detail: Some(trim_text(stdout.as_str())),
        },
        VersionRun::Exited { code, stderr } => {
            let head = cat5(
                "openspec preflight failed: `",
                bin,
                " --version` exited ",
                show_code(*code).as_str(),
                ". stderr: ",
            );
            DepStatus::Unusable {
                reason: cat2(head.as_str(), head_of(stderr.as_str(), 200).as_str()),
            }
        },
        VersionRun::NotFound => DepStatus::Missing,
        VersionRun::Failed { error } => DepStatus::Unusable {
            reason: cat4("spawning `", bin, " --version` errored: ", error.as_str()),
        },
    }
}

/// Which way changes are reviewed.
#[derive(Debug, Clone, Copy, PartialEq, Eq, Structural)]
pub enum ReviewerKind {
    Oneshot,
    Agentic,
}

/// The part of the configuration on reviews.
#[derive(Debug)]
pub struct ReviewerConfig {
    /// The key of this part in the configuration file, by which its role goes.
    pub key: String,
    pub enabled: bool,
    pub kind: ReviewerKind,
    pub command: String,
}

/// A model of the registry, and the program that drives it.
#[derive(Debug)]
pub struct ModelEntry {
    pub nick: String,
    pub cli: String,
}

/// Who computes embeddings.
#[derive(Debug, Clone, Copy, PartialEq, Eq, Structural)]
pub enum LlmProvider {
    Ollama,
    OpenAiCompatible,
    Anthropic,
}

/// The part of the configuration on the index of the canonical specifications.
#[derive(Debug)]
pub struct CanonicalRagConfig {
    pub active: bool,
    pub provider: Option<LlmProvider>,
    pub model: String,
    pub api_base_url: String,
}

/// How to install the program of an agent.
#[derive(Debug)]
pub struct CliHint {
    pub bin: String,
    pub hint: String,
}

/// The parts of the configuration that dependencies follow from.
#[derive(Debug)]
pub struct Config {
    /// How to install the programs of agents that the configuration knows.
    pub cli_hints: Vec<CliHint>,
    pub executor_command: String,
    pub reviewer: Option<ReviewerConfig>,
    pub models: Vec<ModelEntry>,
    pub scout_enabled: bool,
    pub canonical_rag: Option<CanonicalRagConfig>,
}

/// A role that needs a program.
pub struct RoleV {
    pub bin: Seq<char>,
    pub required: bool,
    pub used_by: Seq<char>,
}

/// The roles of the registered models.
pub open spec fn model_roles(models: Seq<ModelEntry>) -> Seq<RoleV> {
    Seq::new(
        models.len(),
        |i: int|
            RoleV {
                bin: models[i].cli@,
                required: false,
                used_by: "model: "@ + models[i].nick@,
            },
    )
}

/// The roles before those of the models: the executor, and the review where it is
/// switched on and works with a program of its own.
pub open spec fn first_roles(cfg: Config) -> Seq<RoleV> {
    let executor = Seq::empty().push(
        RoleV { bin: cfg.executor_command@, required: true, used_by: "executor"@ },
    );
    match cfg.reviewer {
        Some(rev) => if rev.enabled && rev.kind == ReviewerKind::Agentic {
            executor.push(RoleV { bin: rev.command@, required: false, used_by: rev.key@ })
        } else {
            executor
        },
        None => executor,
    }
}

/// All roles that the configuration gives a program.
pub open spec fn roles(cfg: Config) -> Seq<RoleV> {
    first_roles(cfg) + model_roles(cfg.models@)
}

/// A program that is needed, and what for.
#[derive(Debug)]
pub struct CliRequirement {
    pub bin: String,
    pub required: bool,
    pub used_by: Vec<String>,
}

/// The mathematical counterpart of [`CliRequirement`].
pub struct RequirementV {
    pub bin: Seq<char>,
    pub required: bool,
    pub used_by: Seq<Seq<char>>,
}

impl CliRequirement {
    pub open spec fn view(&self) -> RequirementV {
        RequirementV { bin: self.bin@, required: self.required, used_by: texts(self.used_by@) }
    }
}

pub open spec fn requirement_views(v: Seq<CliRequirement>) -> Seq<RequirementV> {
    Seq::new(v.len(), |i: int| v[i]@)
}

/// Where a program stands in a list, or the length of the list.
pub open spec fn index_of_bin(reqs: Seq<RequirementV>, bin: Seq<char>) -> int
    decreases reqs.len(),
{
    if reqs.len() == 0 || reqs[0].bin == bin {
        0
    } else {
        1 + index_of_bin(reqs.drop_first(), bin)
    }
}

proof fn lemma_index_of_bin(reqs: Seq<RequirementV>, bin: Seq<char>)
    ensures
        0 <= index_of_bin(reqs, bin) <= reqs.len(),
        index_of_bin(reqs, bin) < reqs.len() ==> reqs[index_of_bin(reqs, bin)].bin == bin,
        forall|j: int| 0 <= j < index_of_bin(reqs, bin) ==> (#[trigger] reqs[j]).bin != bin,
    decreases reqs.len(),
{
    if reqs.len() > 0 && reqs[0].bin != bin {
        lemma_index_of_bin(reqs.drop_first(), bin);
        assert forall|j: int| 0 <= j < index_of_bin(reqs, bin) implies (#[trigger] reqs[j]).bin
            != bin by {
            if j > 0 {
                assert(reqs[j] == reqs.drop_first()[j - 1]);
            }
        }
    }
}

/// A requirement with one more role.
pub open spec fn also_for(req: RequirementV, role: RoleV) -> RequirementV {
    RequirementV {
        bin: req.bin,
        required: req.required || role.required,
        used_by: if req.used_by.contains(role.used_by) {
            req.used_by
        } else {
            req.used_by.push(role.used_by)
        },
    }
}

/// The requirements with one more role: it joins those of its program, or its
/// program is added.
pub open spec fn with_role(reqs: Seq<RequirementV>, role: RoleV) -> Seq<RequirementV> {
    let i = index_of_bin(reqs, role.bin);
    if i < reqs.len() {
        reqs.update(i, also_for(reqs[i], role))
    } else {
        reqs.push(
            RequirementV {
                bin: role.bin,
                required: role.required,
                used_by: Seq::empty().push(role.used_by),
            },
        )
    }
}

/// The programs that roles need, in the order of their first role.
pub open spec fn requirements(roles: Seq<RoleV>) -> Seq<RequirementV>
    decreases roles.len(),
{
    if roles.len() == 0 {
        Seq::empty()
    } else {
        with_role(requirements(roles.drop_last()), roles.last())
    }
}

fn holds_text(v: &Vec<String>, s: &str) -> (r: bool)
    ensures
        r == texts(v@).contains(s@),
{
    let mut i: usize = 0;
    while i < v.len()
        invariant
            i <= v@.len(),
            forall|k: int| 0 <= k < i ==> (#[trigger] texts(v@)[k]) != s@,
        decreases v@.len() - i,
    {
        if same_text(v[i].as_str(), s) {
            proof {
                assert(texts(v@)[i as int] == s@);
            }
            return true;
        }
        i += 1;
    }
    false
}

/// Adds a role to the requirements.
fn add_role(reqs: &mut Vec<CliRequirement>, bin: String, required: bool, used_by: String)
    ensures
        requirement_views(final(reqs)@) == with_role(
            requirement_views(old(reqs)@),
            RoleV { bin: bin@, required, used_by: used_by@ },
        ),
{
    let ghost before = requirement_views(reqs@);
    let ghost role = RoleV { bin: bin@, required, used_by: used_by@ };
    let mut i: usize = 0;
    proof {
        assert(before.subrange(0, before.len() as int) =~= before);
    }
    while i < reqs.len() && !same_text(reqs[i].bin.as_str(), bin.as_str())
        invariant
            i <= reqs@.len(),
            *reqs == *old(reqs),
            before == requirement_views(reqs@),
            index_of_bin(before, bin@) == i + index_of_bin(
                before.subrange(i as int, before.len() as int),
                bin@,
            ),
        decreases reqs@.len() - i,
    {
        proof {
            let rest = before.subrange(i as int, before.len() as int);
            assert(rest[0] == reqs@[i as int]@);
            assert(rest.drop_first() =~= before.subrange(i + 1, before.len() as int));
        }
        i += 1;
    }
    proof {
        let rest = before.subrange(i as int, before.len() as int);
        if i < reqs@.len() {
            assert(rest[0] == reqs@[i as int]@);
        }
        assert(index_of_bin(before, bin@) == i);
    }
    if i < reqs.len() {
        let is_new = !holds_text(&reqs[i].used_by, used_by.as_str());
        let ghost was = reqs@[i as int];
        let entry: &mut CliRequirement = &mut reqs[i];
        entry.required = entry.required || required;
        if is_new {
            proof {
                lemma_texts_push(entry.used_by@, used_by);
            }
            entry.used_by.push(used_by);
        }
        proof {
            assert(requirement_views(reqs@) =~= before.update(
                i as int,
                also_for(before[i as int], role),
            ));
        }
    } else {
        let mut uses: Vec<String> = Vec::new();
        proof {
            lemma_texts_empty();
            lemma_texts_push(uses@, used_by);
        }
        uses.push(used_by);
        let req = CliRequirement { bin, required, used_by: uses };
        proof {
            assert(requirement_views(reqs@.push(req)) =~= before.push(req@));
        }
        reqs.push(req);
    }
}

/// The programs that the configured roles need. A role that is not configured
/// needs none.
pub fn configured_cli_binaries(cfg: &Config) -> (r: Vec<CliRequirement>)
    ensures
        requirement_views(r@) == requirements(roles(*cfg)),
{
    let mut reqs: Vec<CliRequirement> = Vec::new();
    let ghost all = roles(*cfg);
    proof {
        assert(requirement_views(reqs@) =~= Seq::<RequirementV>::empty());
    }
    add_role(&mut reqs, cfg.executor_command.clone(), true, "executor".to_owned());
    let ghost executor = Seq::empty().push(
        RoleV { bin: cfg.executor_command@, required: true, used_by: "executor"@ },
    );
    proof {
        assert(executor.drop_last() =~= Seq::<RoleV>::empty());
        assert(requirements(executor.drop_last()) == Seq::<RequirementV>::empty());
        assert(requirement_views(reqs@) == requirements(executor));
    }
    if let Some(rev) = &cfg.reviewer {
        if rev.enabled && rev.kind == ReviewerKind::Agentic {
            add_role(&mut reqs, rev.command.clone(), false, rev.key.clone());
            proof {
                let both = executor.push(
                    RoleV { bin: rev.command@, required: false, used_by: rev.key@ },
                );
                assert(both.drop_last() =~= executor);
            }
        }
    }
    let ghost first = first_roles(*cfg);
    proof {
        assert(requirement_views(reqs@) == requirements(first));
        assert(all.take(first.len() as int) =~= first);
    }
    let mut i: usize = 0;
    while i < cfg.models.len()
        invariant
            i <= cfg.models@.len(),
            all == first + model_roles(cfg.models@),
            requirement_views(reqs@) == requirements(all.take(first.len() + i)),
        decreases cfg.models@.len() - i,
    {
        let bin = cfg.models[i].cli.clone();
        let used_by = cat2("model: ", cfg.models[i].nick.as_str());
        proof {
            let next = all.take(first.len() + i + 1);
            assert(next.drop_last() =~= all.take(first.len() + i));
            assert(next.last() == model_roles(cfg.models@)[i as int]);
        }
        add_role(&mut reqs, bin, false, used_by);
        i += 1;
    }
    proof {
        assert(all.take(all.len() as int) =~= all);
    }
    reqs
}

/// The first hint on a program.
pub open spec fn known_hint(hints: Seq<CliHint>, bin: Seq<char>) -> Option<Seq<char>>
    decreases hints.len(),
{
    if hints.len() == 0 {
        None
    } else if hints[0].bin@ == bin {
        Some(hints[0].hint@)
    } else {
        known_hint(hints.drop_first(), bin)
    }
}

fn find_hint(hints: &Vec<CliHint>, bin: &str) -> (r: Option<String>)
    ensures
        opt_text(r) == known_hint(hints@, bin@),
{
    let mut i: usize = 0;
    proof {
        assert(hints@.skip(0) =~= hints@);
    }
    while i < hints.len()
        invariant
            i <= hints@.len(),
            known_hint(hints@, bin@) == known_hint(hints@.skip(i as int), bin@),
        decreases hints@.len() - i,
    {
        if same_text(hints[i].bin.as_str(), bin) {
            return Some(hints[i].hint.clone());
        }
        proof {
            assert(hints@.skip(i as int).drop_first() =~= hints@.skip(i + 1));
        }
        i += 1;
    }
    None
}

/// How to install the program of an agent: as the configuration says, or in
/// general terms.
pub open spec fn cli_hint(hints: Seq<CliHint>, bin: Seq<char>) -> Seq<char> {
    match known_hint(hints, bin) {
        Some(hint) => hint,
        None => if bin == "opencode"@ {
            OPENCODE_HINT@
        } else {
            "Install the `"@ + bin
                + "` agent CLI and ensure it is on the daemon's PATH and authenticated."@
        },
    }
}

fn agent_cli_hint(hints: &Vec<CliHint>, bin: &str) -> (r: String)
    ensures
        r@ == cli_hint(hints@, bin@),
{
    match find_hint(hints, bin) {
        Some(hint) => hint,
        None => {
            if same_text(bin, "opencode") {
                OPENCODE_HINT.to_owned()
            } else {
                cat3(
                    "Install the `",
                    bin,
                    "` agent CLI and ensure it is on the daemon's PATH and authenticated.",
                )
            }
        },
    }
}

/// What was found on the host.
#[derive(Debug)]
pub struct HostFacts {
    pub openspec: DepStatus,
    pub sandbox: SandboxAvailability,
    /// The programs that are there.
    pub present: Vec<String>,
}

impl HostFacts {
    /// Whether a program is there.
    pub open spec fn has(self, bin: Seq<char>) -> bool {
        texts(self.present@).contains(bin)
    }

    /// The status of a program that is there or is not.
    pub open spec fn presence(self, bin: Seq<char>) -> DepStatusV {
        if self.has(bin) {
            DepStatusV::Satisfied { detail: None }
        } else {
            DepStatusV::Missing
        }
    }

    fn status_of(&self, bin: &str) -> (r: DepStatus)
        ensures
            r@ == self.presence(bin@),
    {
        if holds_text(&self.present, bin) {
            DepStatus::Satisfied { detail: None }
        } else {
            DepStatus::Missing
        }
    }
}

pub open spec fn openspec_check(facts: HostFacts) -> DepCheckV {
    DepCheckV {
        name: "openspec"@,
        importance: Importance::Required,
        status: facts.openspec@,
        install_hint: OPENSPEC_MISSING_MSG@,
    }
}

pub open spec fn git_check(facts: HostFacts) -> DepCheckV {
    DepCheckV {
        name: "git"@,
        importance: Importance::Required,
        status: facts.presence("git"@),
        install_hint: GIT_HINT@,
    }
}

/// The check of the sandbox: one that is there and cannot be used is not as good
/// as none.
pub open spec fn sandbox_found(facts: HostFacts) -> DepCheckV {
    DepCheckV {
        name: "sandbox mechanism"@,
        importance: Importance::Required,
        status: match facts.sandbox {
            SandboxAvailability::Usable { mechanism } => DepStatusV::Satisfied {
                detail: Some(mechanism@),
            },
            SandboxAvailability::PresentButUnusable { present } => DepStatusV::Unusable {
                reason: join(texts(present@), ", "@)
                    + " present but cannot apply the sandbox (e.g. unprivileged user namespaces disabled)"@,
            },
            SandboxAvailability::Absent => DepStatusV::Missing,
        },
        install_hint: SANDBOX_HINT@,
    }
}

fn sandbox_check(facts: &HostFacts) -> (r: DepCheck)
    ensures
        r@ == sandbox_found(*facts),
{
    let status = match &facts.sandbox {
        SandboxAvailability::Usable { mechanism } => DepStatus::Satisfied {
            detail: Some(mechanism.clone()),
        },
        SandboxAvailability::PresentButUnusable { present } => DepStatus::Unusable {
            reason: cat2(
                join_texts(present, ", ").as_str(),
                " present but cannot apply the sandbox (e.g. unprivileged user namespaces disabled)",
            ),
        },
        SandboxAvailability::Absent => DepStatus::Missing,
    };
    DepCheck {
        name: "sandbox mechanism".to_owned(),
        importance: Importance::Required,
        status,
        install_hint: SANDBOX_HINT.to_owned(),
    }
}

/// The check of the program of some roles.
pub open spec fn cli_check(
    req: RequirementV,
    hints: Seq<CliHint>,
    facts: HostFacts,
) -> DepCheckV {
    DepCheckV {
        name: "agent CLI `"@ + req.bin + "` ("@ + join(req.used_by, ", "@) + ")"@,
        importance: if req.required {
            Importance::Required
        } else {
            Importance::Configured
        },
        status: facts.presence(req.bin),
        install_hint: cli_hint(hints, req.bin),
    }
}

pub open spec fn cli_checks(
    reqs: Seq<RequirementV>,
    hints: Seq<CliHint>,
    facts: HostFacts,
) -> Seq<DepCheckV> {
    Seq::new(reqs.len(), |i: int| cli_check(reqs[i], hints, facts))
}

pub open spec fn gh_check(facts: HostFacts) -> DepCheckV {
    DepCheckV {
        name: "forge/scout CLI `gh` (scout)"@,
        importance: Importance::Configured,
        status: facts.presence("gh"@),
        install_hint: GH_HINT@,
    }
}

/// The check of what computes embeddings. Ollama may run elsewhere, so that its
/// program is missing is no more than a warning; what is reached over HTTP alone
/// is taken to be there.
pub open spec fn rag_check(rag: CanonicalRagConfig, facts: HostFacts) -> DepCheckV {
    let provider = match rag.provider {
        Some(p) => p,
        None => LlmProvider::Ollama,
    };
    DepCheckV {
        name: "embedding backend (RAG)"@,
        importance: Importance::Configured,
        status: match provider {
            LlmProvider::Ollama => if facts.has("ollama"@) {
                DepStatusV::Satisfied { detail: Some("ollama, model `"@ + rag.model@ + "`"@) }
            } else {
                DepStatusV::Missing
            },
            LlmProvider::OpenAiCompatible => DepStatusV::Satisfied {
                detail: Some("openai-compatible endpoint "@ + rag.api_base_url@),
            },
            LlmProvider::Anthropic => DepStatusV::Unusable {
                reason: "anthropic does not support embeddings"@,
            },
        },
        install_hint: match provider {
            LlmProvider::Ollama => if facts.has("ollama"@) {
                ""@
            } else {
                "Install Ollama (https://ollama.com) and pull `"@ + rag.model@
                    + "`, OR ensure your Ollama endpoint at "@ + rag.api_base_url@
                    + " is reachable (the `ollama` CLI is optional if you run it as a container/remote)."@
            },
            LlmProvider::OpenAiCompatible => ""@,
            LlmProvider::Anthropic => "Set canonical_rag.provider to `ollama` or `openai_compatible`."@,
        },
    }
}

fn rag_backend_check(rag: &CanonicalRagConfig, facts: &HostFacts) -> (r: DepCheck)
    ensures
        r@ == rag_check(*rag, *facts),
{
    let provider = match rag.provider {
        Some(p) => p,
        None => LlmProvider::Ollama,
    };
    let (status, install_hint) = match provider {
        LlmProvider::Ollama => {
            if holds_text(&facts.present, "ollama") {
                (
                    DepStatus::Satisfied {
                        detail: Some(cat3("ollama, model `", rag.model.as_str(), "`")),
                    },
                    "".to_owned(),
                )
            } else {
                (
                    DepStatus::Missing,
                    cat5(
                        "Install Ollama (https://ollama.com) and pull `",
                        rag.model.as_str(),
                        "`, OR ensure your Ollama endpoint at ",
                        rag.api_base_url.as_str(),
                        " is reachable (the `ollama` CLI is optional if you run it as a container/remote).",
                    ),
                )
            }
        },
        LlmProvider::OpenAiCompatible => (
            DepStatus::Satisfied {
                detail: Some(cat2("openai-compatible endpoint ", rag.api_base_url.as_str())),
            },
            "".to_owned(),
        ),
        LlmProvider::Anthropic => (
            DepStatus::Unusable { reason: "anthropic does not support embeddings".to_owned() },
            "Set canonical_rag.provider to `ollama` or `openai_compatible`.".to_owned(),
        ),
    };
    DepCheck {
        name: "embedding backend (RAG)".to_owned(),
        importance: Importance::Configured,
        status,
        install_hint,
    }
}

/// The checks of a report: what is always required, the programs of the roles,
/// and what the features that are switched on need.
pub open spec fn report_checks(cfg: Config, facts: HostFacts) -> Seq<DepCheckV> {
    let always = Seq::empty().push(openspec_check(facts)).push(git_check(facts)).push(
        sandbox_found(facts),
    );
    let with_clis = always + cli_checks(requirements(roles(cfg)), cfg.cli_hints@, facts);
    let with_scout = if cfg.scout_enabled {
        with_clis.push(gh_check(facts))
    } else {
        with_clis
    };
    match cfg.canonical_rag {
        Some(rag) => if rag.active {
            with_scout.push(rag_check(rag, facts))
        } else {
            with_scout
        },
        None => with_scout,
    }
}

pub open spec fn check_views(v: Seq<DepCheck>) -> Seq<DepCheckV> {
    Seq::new(v.len(), |i: int| v[i]@)
}

proof fn lemma_check_views_push(v: Seq<DepCheck>, c: DepCheck)
    ensures
        check_views(v.push(c)) == check_views(v).push(c@),
{
    assert(check_views(v.push(c)) =~= check_views(v).push(c@));
}

/// The report on a host. It does not stop at the first thing that is missing.
pub fn report_on(cfg: &Config, facts: &HostFacts) -> (r: DepReport)
    ensures
        check_views(r.checks@) == report_checks(*cfg, *facts),
{
    let mut checks: Vec<DepCheck> = Vec::new();
    proof {
        assert(check_views(checks@) =~= Seq::<DepCheckV>::empty());
    }
    let openspec = DepCheck {
        name: "openspec".to_owned(),
        importance: Importance::Required,
        status: facts.openspec.copy(),
        install_hint: OPENSPEC_MISSING_MSG.to_owned(),
    };
    proof {
        lemma_check_views_push(checks@, openspec);
    }
    checks.push(openspec);
    let git = DepCheck {
        name: "git".to_owned(),
        importance: Importance::Required,
        status: facts.status_of("git"),
        install_hint: GIT_HINT.to_owned(),
    };
    proof {
        lemma_check_views_push(checks@, git);
    }
    checks.push(git);
    let sandbox = sandbox_check(facts);
    proof {
        lemma_check_views_push(checks@, sandbox);
    }
    checks.push(sandbox);
    let reqs = configured_cli_binaries(cfg);
    let ghost always = check_views(checks@);
    let ghost clis = cli_checks(requirements(roles(*cfg)), cfg.cli_hints@, *facts);
    let mut i: usize = 0;
    proof {
        assert(requirement_views(reqs@).len() == reqs@.len());
        assert(always + clis.take(0) =~= always);
    }
    while i < reqs.len()
        invariant
            i <= reqs@.len(),
            reqs@.len() == clis.len(),
            requirement_views(reqs@) == requirements(roles(*cfg)),
            clis == cli_checks(requirements(roles(*cfg)), cfg.cli_hints@, *facts),
            check_views(checks@) == always + clis.take(i as int),
        decreases reqs@.len() - i,
    {
        let head = cat2("agent CLI `", reqs[i].bin.as_str());
        let check = DepCheck {
            name: cat4(head.as_str(), "` (", join_texts(&reqs[i].used_by, ", ").as_str(), ")"),
            importance: if reqs[i].required {
                Importance::Required
            } else {
                Importance::Configured
            },
            status: facts.status_of(reqs[i].bin.as_str()),
            install_hint: agent_cli_hint(&cfg.cli_hints, reqs[i].bin.as_str()),
        };
        proof {
            lemma_check_views_push(checks@, check);
            assert(requirement_views(reqs@)[i as int] == reqs@[i as int]@);
            assert(check@ == clis[i as int]);
            assert(always + clis.take(i + 1) =~= (always + clis.take(i as int)).push(
                clis[i as int],
            ));
        }
        checks.push(check);
        i += 1;
    }
    proof {
        assert(clis.take(clis.len() as int) =~= clis);
    }
    if cfg.scout_enabled {
        let gh = DepCheck {
            name: "forge/scout CLI `gh` (scout)".to_owned(),
            importance: Importance::Configured,
            status: facts.status_of("gh"),
            install_hint: GH_HINT.to_owned(),
        };
        proof {
            lemma_check_views_push(checks@, gh);
        }
        checks.push(gh);
    }
    if let Some(rag) = &cfg.canonical_rag {
        if rag.active {
            let check = rag_backend_check(rag, facts);
            proof {
                lemma_check_views_push(checks@, check);
            }
            checks.push(check);
        }
    }
    DepReport { checks }
}

/// What is asked of a host.
pub trait DepProbe {
    /// What `openspec --version` tells.
    fn openspec(&self) -> DepStatus;

    /// What is known of the sandbox of the platform.
    fn sandbox(&self) -> SandboxAvailability;

    /// Whether a program is there.
    fn binary_present(&self, bin: &str) -> bool;
}

/// Whether Ollama is looked for.
pub open spec fn asks_for_ollama(cfg: Config) -> bool {
    match cfg.canonical_rag {
        Some(rag) => rag.active && match rag.provider {
            Some(p) => p == LlmProvider::Ollama,
            None => true,
        },
        None => false,
    }
}

pub open spec fn bins_of(reqs: Seq<RequirementV>) -> Seq<Seq<char>> {
    Seq::new(reqs.len(), |i: int| reqs[i].bin)
}

/// The programs that a report asks for.
pub open spec fn asked(cfg: Config) -> Seq<Seq<char>> {
    let with_clis = Seq::empty().push("git"@) + bins_of(requirements(roles(cfg)));
    let with_scout = if cfg.scout_enabled {
        with_clis.push("gh"@)
    } else {
        with_clis
    };
    if asks_for_ollama(cfg) {
        with_scout.push("ollama"@)
    } else {
        with_scout
    }
}

fn asked_binaries(cfg: &Config) -> (r: Vec<String>)
    ensures
        texts(r@) == asked(*cfg),
{
    let mut bins: Vec<String> = Vec::new();
    let git = "git".to_owned();
    proof {
        lemma_texts_empty();
        lemma_texts_push(bins@, git);
    }
    bins.push(git);
    let reqs = configured_cli_binaries(cfg);
    let ghost clis = bins_of(requirements(roles(*cfg)));
    let ghost first = Seq::empty().push("git"@);
    let mut i: usize = 0;
    proof {
        assert(requirement_views(reqs@).len() == reqs@.len());
        assert(first + clis.take(0) =~= first);
    }
    while i < reqs.len()
        invariant
            i <= reqs@.len(),
            reqs@.len() == clis.len(),
            requirement_views(reqs@) == requirements(roles(*cfg)),
            clis == bins_of(requirements(roles(*cfg))),
            texts(bins@) == first + clis.take(i as int),
        decreases reqs@.len() - i,
    {
        let bin = reqs[i].bin.clone();
        proof {
            lemma_texts_push(bins@, bin);
            assert(requirement_views(reqs@)[i as int] == reqs@[i as int]@);
            assert(first + clis.take(i + 1) =~= (first + clis.take(i as int)).push(
                clis[i as int],
            ));
        }
        bins.push(bin);
        i += 1;
    }
    proof {
        assert(clis.take(clis.len() as int) =~= clis);
    }
    if cfg.scout_enabled {
        let gh = "gh".to_owned();
        proof {
            lemma_texts_push(bins@, gh);
        }
        bins.push(gh);
    }
    if let Some(rag) = &cfg.canonical_rag {
        let by_ollama = match rag.provider {
            Some(p) => p == LlmProvider::Ollama,
            None => true,
        };
        if rag.active && by_ollama {
            let ollama = "ollama".to_owned();
            proof {
                lemma_texts_push(bins@, ollama);
            }
            bins.push(ollama);
        }
    }
    bins
}

/// Whether the probe can have said of a program that it is there, or that it is
/// not.
pub open spec fn said<P: DepProbe>(probe: &P, bin: Seq<char>, present: bool) -> bool {
    exists|s: &str| s@ == bin && #[trigger] call_ensures(P::binary_present, (probe, s), present)
}

/// Whether facts are what the probe gave: the programs that are there are those
/// that it said so of, and of each other one that was asked for it said that it
/// is not.
pub open spec fn are_given<P: DepProbe>(cfg: Config, probe: &P, facts: HostFacts) -> bool {
    &&& call_ensures(P::openspec, (probe,), facts.openspec)
    &&& call_ensures(P::sandbox, (probe,), facts.sandbox)
    &&& forall|bin: Seq<char>| #[trigger] facts.has(bin) ==> said(probe, bin, true)
    &&& forall|i: int|
        0 <= i < asked(cfg).len() && !facts.has(#[trigger] asked(cfg)[i]) ==> said(
            probe,
            asked(cfg)[i],
            false,
        )
}

/// Builds the report on the host that `probe` looks at: the report on the facts
/// that it gave.
pub fn build_report<P: DepProbe>(cfg: &Config, probe: &P) -> (r: DepReport)
    ensures
        exists|facts: HostFacts|
            are_given(*cfg, probe, facts) && check_views(r.checks@) == #[trigger] report_checks(
                *cfg,
                facts,
            ),
{
    let openspec = probe.openspec();
    let sandbox = probe.sandbox();
    let bins = asked_binaries(cfg);
    let mut present: Vec<String> = Vec::new();
    let mut i: usize = 0;
    proof {
        lemma_texts_empty();
    }
    while i < bins.len()
        invariant
            i <= bins@.len(),
            forall|bin: Seq<char>| #[trigger]
                texts(present@).contains(bin) ==> said(probe, bin, true),
            forall|k: int|
                0 <= k < i && !texts(present@).contains(#[trigger] texts(bins@)[k]) ==> said(
                    probe,
                    texts(bins@)[k],
                    false,
                ),
        decreases bins@.len() - i,
    {
        let ghost before = texts(present@);
        let bin: &str = bins[i].as_str();
        if probe.binary_present(bin) {
            let own = bins[i].clone();
            proof {
                assert(call_ensures(P::binary_present, (probe, bin), true));
                assert(said(probe, own@, true));
                lemma_texts_push(present@, own);
                assert forall|b: Seq<char>| #[trigger] before.push(own@).contains(b) implies said(
                    probe,
                    b,
                    true,
                ) by {
                    let k = choose|k: int|
                        0 <= k < before.push(own@).len() && before.push(own@)[k] == b;
                    if k < before.len() {
                        assert(before[k] == b);
                        assert(before.contains(b));
                    }
                }
                assert forall|k: int|
                    0 <= k < i + 1 && !before.push(own@).contains(
                        #[trigger] texts(bins@)[k],
                    ) implies said(probe, texts(bins@)[k], false) by {
                    let b = texts(bins@)[k];
                    if k == i {
                        assert(before.push(own@)[before.len() as int] == b);
                    } else if before.contains(b) {
                        let m = choose|m: int| 0 <= m < before.len() && before[m] == b;
                        assert(before.push(own@)[m] == b);
                    }
                }
            }
            present.push(own);
        } else {
            proof {
                assert(call_ensures(P::binary_present, (probe, bin), false));
                assert(said(probe, texts(bins@)[i as int], false));
            }
        }
        i += 1;
    }
    let facts = HostFacts { openspec, sandbox, present };
    proof {
        assert(are_given(*cfg, probe, facts));
    }
    report_on(cfg, &facts)
}

/// What the configuration implies never keeps the daemon from starting.
pub proof fn configured_dependencies_never_block(c: DepCheck)
    requires
        c.importance == Importance::Configured,
    ensures
        !c.blocks(),
        Part::Warnings.holds(c) == !c.ok(),
{
}

/// A dependency that cannot be used either keeps the daemon from starting or is
/// worth a warning, and never both.
pub proof fn every_problem_is_reported_once(c: DepCheck)
    ensures
        !c.ok() <==> (Part::Blocking.holds(c) || Part::Warnings.holds(c)),
        !(Part::Blocking.holds(c) && Part::Warnings.holds(c)),
        Part::Required.holds(c) != Part::Configured.holds(c),
{
}

/// The start is given up exactly where there is something to complain of.
pub proof fn blocked_where_something_blocks(checks: Seq<DepCheck>)
    ensures
        part_of(checks, Part::Blocking).len() > 0 <==> exists|i: int|
            0 <= i < checks.len() && (#[trigger] checks[i]).blocks(),
    decreases checks.len(),
{
    if checks.len() > 0 {
        let init = checks.drop_last();
        blocked_where_something_blocks(init);
        if part_of(init, Part::Blocking).len() > 0 {
            let i = choose|i: int| 0 <= i < init.len() && (#[trigger] init[i]).blocks();
            assert(checks[i].blocks());
        }
        if checks.last().blocks() {
            assert(checks[checks.len() - 1].blocks());
        }
        if exists|i: int| 0 <= i < checks.len() && (#[trigger] checks[i]).blocks() {
            let i = choose|i: int| 0 <= i < checks.len() && (#[trigger] checks[i]).blocks();
            if i < init.len() {
                assert(init[i].blocks());
            }
        }
    }
}

/// Whether a program stands in a list of requirements.
pub open spec fn asks_for(reqs: Seq<RequirementV>, bin: Seq<char>) -> bool {
    exists|i: int| 0 <= i < reqs.len() && (#[trigger] reqs[i]).bin == bin
}

/// Whether some role needs a program.
pub open spec fn needed(roles: Seq<RoleV>, bin: Seq<char>) -> bool {
    exists|k: int| 0 <= k < roles.len() && (#[trigger] roles[k]).bin == bin
}

/// Whether some role that is indispensable needs a program.
pub open spec fn indispensable(roles: Seq<RoleV>, bin: Seq<char>) -> bool {
    exists|k: int| 0 <= k < roles.len() && (#[trigger] roles[k]).bin == bin && roles[k].required
}

proof fn lemma_needed_push(roles: Seq<RoleV>, bin: Seq<char>)
    requires
        roles.len() > 0,
    ensures
        needed(roles, bin) == (needed(roles.drop_last(), bin) || roles.last().bin == bin),
        indispensable(roles, bin) == (indispensable(roles.drop_last(), bin) || (roles.last().bin
            == bin && roles.last().required)),
{
    let init = roles.drop_last();
    assert(roles[roles.len() - 1] == roles.last());
    if needed(init, bin) {
        let k = choose|k: int| 0 <= k < init.len() && (#[trigger] init[k]).bin == bin;
        assert(roles[k].bin == bin);
    }
    if needed(roles, bin) {
        let k = choose|k: int| 0 <= k < roles.len() && (#[trigger] roles[k]).bin == bin;
        if k < init.len() {
            assert(init[k].bin == bin);
        }
    }
    if indispensable(init, bin) {
        let k = choose|k: int|
            0 <= k < init.len() && (#[trigger] init[k]).bin == bin && init[k].required;
        assert(roles[k].bin == bin);
    }
    if indispensable(roles, bin) {
        let k = choose|k: int|
            0 <= k < roles.len() && (#[trigger] roles[k]).bin == bin && roles[k].required;
        if k < init.len() {
            assert(init[k].bin == bin);
        }
    }
}

/// Each program is asked for once, exactly where a configured role needs it, and
/// it is required exactly where a role that needs it is indispensable.
pub proof fn programs_follow_from_roles(roles: Seq<RoleV>)
    ensures
        forall|i: int, j: int|
            0 <= i < j < requirements(roles).len() ==> (#[trigger] requirements(roles)[i]).bin != (
            #[trigger] requirements(roles)[j]).bin,
        forall|bin: Seq<char>| #[trigger] needed(roles, bin) == asks_for(requirements(roles), bin),
        forall|i: int|
            0 <= i < requirements(roles).len() ==> (#[trigger] requirements(roles)[i]).required
                == indispensable(roles, requirements(roles)[i].bin),
    decreases roles.len(),
{
    if roles.len() > 0 {
        let init = roles.drop_last();
        let role = roles.last();
        let before = requirements(init);
        let after = requirements(roles);
        programs_follow_from_roles(init);
        lemma_index_of_bin(before, role.bin);
        let at = index_of_bin(before, role.bin);
        assert forall|i: int, j: int| 0 <= i < j < after.len() implies (#[trigger] after[i]).bin
            != (#[trigger] after[j]).bin by {
            assert(after[i].bin == before[i].bin);
            if j < before.len() {
                assert(after[j].bin == before[j].bin);
            }
        }
        assert forall|bin: Seq<char>| #[trigger] needed(roles, bin) == asks_for(after, bin) by {
            lemma_needed_push(roles, bin);
            assert(needed(init, bin) == asks_for(before, bin));
            if asks_for(before, bin) {
                let i = choose|i: int| 0 <= i < before.len() && (#[trigger] before[i]).bin == bin;
                assert(after[i].bin == bin);
            }
            assert(after[at].bin == role.bin);
            if asks_for(after, bin) {
                let i = choose|i: int| 0 <= i < after.len() && (#[trigger] after[i]).bin == bin;
                if i < before.len() {
                    assert(before[i].bin == bin);
                }
            }
        }
        assert forall|i: int| 0 <= i < after.len() implies (#[trigger] after[i]).required
            == indispensable(roles, after[i].bin) by {
            let bin = after[i].bin;
            lemma_needed_push(roles, bin);
            if i < before.len() {
                assert(before[i].bin == bin);
                assert(before[i].required == indispensable(init, bin));
                if role.bin == bin && i != at {
                    assert(before[i].bin != before[at].bin);
                }
            } else {
                assert(!asks_for(before, bin));
                assert(!needed(init, bin));
                if indispensable(init, bin) {
                    let k = choose|k: int|
                        0 <= k < init.len() && (#[trigger] init[k]).bin == bin && init[k].required;
                    assert(init[k].bin == bin);
                }
            }
        }
    }
}

/// The roles of a configuration: the executor, which is indispensable; the review, where it is
/// switched on and runs an agent; and every registered model, in order.
pub proof fn every_configured_role_counts(cfg: Config)
    ensures
        ({
            let all = roles(cfg);
            let reviews = cfg.reviewer matches Some(rev) && rev.enabled && rev.kind
                == ReviewerKind::Agentic;
            let n = if reviews {
                2int
            } else {
                1int
            };
            &&& all.len() == n + cfg.models@.len()
            &&& all[0].bin == cfg.executor_command@ && all[0].required && all[0].used_by
                == "executor"@
            &&& (cfg.reviewer matches Some(rev) ==> (reviews ==> all[1].bin == rev.command@
                && !all[1].required && all[1].used_by == rev.key@))
            &&& forall|i: int|
                0 <= i < cfg.models@.len() ==> (#[trigger] cfg.models@[i]).cli@ == all[n + i].bin
                    && !all[n + i].required && all[n + i].used_by == "model: "@
                    + cfg.models@[i].nick@
        }),
{
}

/// One role more leaves the other programs as they are. Where its program was needed before,
/// that program is needed for it too, and is indispensable where either says so; otherwise the
/// program comes last.
pub proof fn a_role_adds_to_its_program(roles: Seq<RoleV>, role: RoleV)
    ensures
        requirements(Seq::empty()).len() == 0,
        ({
            let was = requirements(roles);
            let now = requirements(roles.push(role));
            let known = exists|i: int| 0 <= i < was.len() && (#[trigger] was[i]).bin == role.bin;
            &&& now.len() == was.len() + if known {
                0int
            } else {
                1int
            }
            &&& forall|i: int|
                0 <= i < was.len() ==> (#[trigger] now[i]).bin == was[i].bin && (if was[i].bin
                    == role.bin {
                    now[i].required == (was[i].required || role.required) && now[i].used_by
                        == if was[i].used_by.contains(role.used_by) {
                        was[i].used_by
                    } else {
                        was[i].used_by.push(role.used_by)
                    }
                } else {
                    now[i] == was[i]
                })
            &&& !known ==> now.last().bin == role.bin && now.last().required == role.required
                && now.last().used_by == Seq::empty().push(role.used_by)
        }),
{
    let all = roles.push(role);
    let was = requirements(roles);
    let now = requirements(all);
    assert(all.drop_last() =~= roles);
    lemma_index_of_bin(was, role.bin);
    let at = index_of_bin(was, role.bin);
    programs_follow_from_roles(roles);
    assert forall|i: int| 0 <= i < was.len() && i != at implies (#[trigger] was[i]).bin
        != role.bin by {
        if at < i {
            assert(was[at].bin != was[i].bin);
        }
    }
}

/// The checks of a report: openspec, git and the sandbox, which are always required; every
/// program of a role, with what needs it; `gh` where the scout is switched on; and what computes
/// embeddings where the index is in use.
pub proof fn a_report_covers_what_is_needed(
    cfg: Config,
    facts: HostFacts,
    reqs: Vec<CliRequirement>,
    r: DepReport,
)
    requires
        call_ensures(configured_cli_binaries, (&cfg,), reqs),
        call_ensures(report_on, (&cfg, &facts), r),
    ensures
        ({
            let c = r.checks@;
            let n = reqs@.len();
            let there = texts(facts.present@);
            let scout = if cfg.scout_enabled {
                1int
            } else {
                0int
            };
            let rag = if cfg.canonical_rag matches Some(rag) && rag.active {
                1int
            } else {
                0int
            };
            &&& c.len() == 3 + n + scout + rag
            &&& c[0].name@ == "openspec"@ && c[1].name@ == "git"@ && c[2].name@
                == "sandbox mechanism"@
            &&& forall|i: int| 0 <= i < 3 ==> (#[trigger] c[i]).importance is Required
            &&& c[0].status@ == facts.openspec@ && c[0].install_hint@ == OPENSPEC_MISSING_MSG@
            &&& c[1].status@ == (if there.contains("git"@) {
                DepStatusV::Satisfied { detail: None }
            } else {
                DepStatusV::Missing
            }) && c[1].install_hint@ == GIT_HINT@
            &&& (facts.sandbox matches SandboxAvailability::Usable { mechanism }
                ==> c[2].status@ == (DepStatusV::Satisfied { detail: Some(mechanism@) }))
            &&& (facts.sandbox matches SandboxAvailability::PresentButUnusable { present }
                ==> c[2].status@ == (DepStatusV::Unusable {
                reason: join(texts(present@), ", "@)
                    + " present but cannot apply the sandbox (e.g. unprivileged user namespaces disabled)"@,
            }))
            &&& (facts.sandbox is Absent ==> c[2].status is Missing)
            &&& c[2].install_hint@ == SANDBOX_HINT@
            &&& forall|i: int|
                0 <= i < n ==> {
                    let q = #[trigger] reqs@[i];
                    let d = c[3 + i];
                    &&& d.name@ == "agent CLI `"@ + q.bin@ + "` ("@ + join(
                        texts(q.used_by@),
                        ", "@,
                    ) + ")"@
                    &&& d.importance is Required <==> q.required
                    &&& d.status@ == if there.contains(q.bin@) {
                        DepStatusV::Satisfied { detail: None }
                    } else {
                        DepStatusV::Missing
                    }
                    &&& d.install_hint@ == cli_hint(cfg.cli_hints@, q.bin@)
                }
            &&& cfg.scout_enabled ==> {
                let d = c[3int + n];
                &&& d.name@ == "forge/scout CLI `gh` (scout)"@
                &&& d.importance is Configured
                &&& d.status@ == if there.contains("gh"@) {
                    DepStatusV::Satisfied { detail: None }
                } else {
                    DepStatusV::Missing
                }
                &&& d.install_hint@ == GH_HINT@
            }
            &&& rag == 1 ==> c.last().name@ == "embedding backend (RAG)"@
                && c.last().importance is Configured
        }),
{
    let n = reqs@.len();
    let c = r.checks@;
    let views = report_checks(cfg, facts);
    assert(requirement_views(reqs@).len() == n);
    assert(check_views(c).len() == c.len());
    assert(check_views(c)[0] == c[0]@);
    assert(check_views(c)[1] == c[1]@);
    assert(check_views(c)[2] == c[2]@);
    assert forall|i: int| 0 <= i < n implies c[3 + i]@ == cli_check(
        (#[trigger] reqs@[i])@,
        cfg.cli_hints@,
        facts,
    ) by {
        assert(requirement_views(reqs@)[i] == reqs@[i]@);
        assert(check_views(c)[3 + i] == c[3 + i]@);
        assert(views[3 + i] == cli_checks(requirements(roles(cfg)), cfg.cli_hints@, facts)[i]);
    }
    if cfg.scout_enabled {
        assert(check_views(c)[3int + n] == c[3int + n]@);
    }
    assert(check_views(c)[c.len() - 1] == c.last()@);
}

/// How to install a program: the first hint of the configuration on it, else the one on
/// opencode, else the general one with its name.
pub proof fn the_first_hint_on_a_program_holds(hints: Seq<CliHint>, hint: CliHint, bin: Seq<char>)
    ensures
        cli_hint(Seq::empty(), "opencode"@) == OPENCODE_HINT@,
        bin != "opencode"@ ==> cli_hint(Seq::empty(), bin) == "Install the `"@ + bin
            + "` agent CLI and ensure it is on the daemon's PATH and authenticated."@,
        cli_hint(Seq::empty().push(hint) + hints, bin) == if hint.bin@ == bin {
            hint.hint@
        } else {
            cli_hint(hints, bin)
        },
{
    let all = Seq::empty().push(hint) + hints;
    assert(all.drop_first() =~= hints);
    assert(all[0] == hint);
}

/// What computes embeddings: Ollama, where nothing else is said, is there where its program is;
/// an endpoint is taken to be there; and Anthropic cannot be used.
pub proof fn embeddings_come_from_what_is_configured(
    cfg: Config,
    rag: CanonicalRagConfig,
    facts: HostFacts,
    report: DepReport,
    r: DepCheck,
)
    requires
        call_ensures(report_on, (&cfg, &facts), report),
        cfg.canonical_rag == Some(rag),
        rag.active,
        report.checks@.len() > 0,
        r == report.checks@.last(),
    ensures
        r.importance is Configured,
        (rag.provider is None || rag.provider == Some(LlmProvider::Ollama)) ==> if texts(
            facts.present@,
        ).contains("ollama"@) {
            r.status@ == (DepStatusV::Satisfied {
                detail: Some("ollama, model `"@ + rag.model@ + "`"@),
            }) && r.install_hint@ == ""@
        } else {
            r.status is Missing && r.install_hint@
                == "Install Ollama (https://ollama.com) and pull `"@ + rag.model@
                + "`, OR ensure your Ollama endpoint at "@ + rag.api_base_url@
                + " is reachable (the `ollama` CLI is optional if you run it as a container/remote)."@
        },
        rag.provider == Some(LlmProvider::OpenAiCompatible) ==> r.status@ == (
        DepStatusV::Satisfied {
            detail: Some("openai-compatible endpoint "@ + rag.api_base_url@),
        }) && r.install_hint@ == ""@,
        rag.provider == Some(LlmProvider::Anthropic) ==> r.status@ == (DepStatusV::Unusable {
            reason: "anthropic does not support embeddings"@,
        }) && r.install_hint@ == "Set canonical_rag.provider to `ollama` or `openai_compatible`."@,
{
    let v = report.checks@;
    assert(check_views(v).len() == v.len());
    assert(check_views(v)[v.len() - 1] == v.last()@);
    assert(r@ == rag_check(rag, facts));
}

/// Whether the status of a program is what the probe said of it.
pub open spec fn tells<P: DepProbe>(probe: &P, bin: Seq<char>, status: DepStatus) -> bool {
    match status {
        DepStatus::Satisfied { .. } => said(probe, bin, true),
        DepStatus::Missing => said(probe, bin, false),
        DepStatus::Unusable { .. } => false,
    }
}

/// What the host has is asked of the probe: a report on a host says of every program it checks
/// what the probe said, and of openspec and the sandbox too.
pub proof fn a_report_tells_what_the_probe_said<P: DepProbe>(
    cfg: Config,
    probe: &P,
    reqs: Vec<CliRequirement>,
    r: DepReport,
)
    requires
        call_ensures(configured_cli_binaries, (&cfg,), reqs),
        call_ensures(build_report::<P>, (&cfg, probe), r),
    ensures
        exists|s: DepStatus| #[trigger]
            call_ensures(P::openspec, (probe,), s) && r.checks@[0].status@ == s@,
        tells(probe, "git"@, r.checks@[1].status),
        r.checks@[2].status is Satisfied ==> exists|s: SandboxAvailability| #[trigger]
            call_ensures(P::sandbox, (probe,), s) && s is Usable,
        r.checks@[2].status is Missing ==> exists|s: SandboxAvailability| #[trigger]
            call_ensures(P::sandbox, (probe,), s) && s is Absent,
        forall|i: int|
            0 <= i < reqs@.len() ==> tells(
                probe,
                (#[trigger] reqs@[i]).bin@,
                r.checks@[3 + i].status,
            ),
        cfg.scout_enabled ==> tells(probe, "gh"@, r.checks@[3int + reqs@.len()].status),
        (cfg.canonical_rag matches Some(rag) && rag.active && (rag.provider is None
            || rag.provider == Some(LlmProvider::Ollama))) ==> tells(
            probe,
            "ollama"@,
            r.checks@.last().status,
        ),
{
    let facts = choose|facts: HostFacts|
        are_given(cfg, probe, facts) && check_views(r.checks@) == #[trigger] report_checks(
            cfg,
            facts,
        );
    let c = r.checks@;
    let n = reqs@.len();
    let want = asked(cfg);
    let views = report_checks(cfg, facts);
    assert(requirement_views(reqs@).len() == n);
    assert(check_views(c).len() == c.len());
    assert(check_views(c)[0] == c[0]@);
    assert(check_views(c)[1] == c[1]@);
    assert(check_views(c)[2] == c[2]@);
    assert(call_ensures(P::openspec, (probe,), facts.openspec));
    assert(call_ensures(P::sandbox, (probe,), facts.sandbox));
    assert(want[0] == "git"@);
    assert forall|i: int| 0 <= i < n implies tells(
        probe,
        (#[trigger] reqs@[i]).bin@,
        c[3 + i].status,
    ) by {
        assert(requirement_views(reqs@)[i] == reqs@[i]@);
        assert(check_views(c)[3 + i] == c[3 + i]@);
        assert(views[3 + i] == cli_checks(requirements(roles(cfg)), cfg.cli_hints@, facts)[i]);
        assert(want[1 + i] == reqs@[i].bin@);
    }
    if cfg.scout_enabled {
        assert(check_views(c)[3int + n] == c[3int + n]@);
        assert(want[1int + n] == "gh"@);
    }
    assert(check_views(c)[c.len() - 1] == c.last()@);
    if asks_for_ollama(cfg) {
        assert(want[want.len() - 1] == "ollama"@);
    }
}

/// A dependency is in order exactly where its status says that it can be used; it keeps the
/// daemon from starting where it is required and not in order; and what is not in order is
/// worth a warning otherwise.
pub proof fn the_status_and_the_importance_decide(
    c: DepCheck,
    ok: bool,
    blocking: bool,
    warning: bool,
)
    requires
        call_ensures(DepCheck::is_ok, (&c,), ok),
        call_ensures(DepCheck::is_blocking, (&c,), blocking),
        call_ensures(DepCheck::is_warning, (&c,), warning),
    ensures
        ok <==> c.status is Satisfied,
        blocking <==> c.importance is Required && c.status !is Satisfied,
        warning <==> c.importance is Configured && c.status !is Satisfied,
{
}

/// The daemon starts, and the report on demand ends without an error, exactly where every
/// required dependency can be used.
pub proof fn the_daemon_starts_with_all_that_is_required(
    report: DepReport,
    code: i32,
    r: Result<(), String>,
    blocked: bool,
)
    requires
        call_ensures(doctor_exit_code, (&report,), code),
        call_ensures(run_startup_preflight, (&report,), r),
        call_ensures(DepReport::has_blocking, (&report,), blocked),
    ensures
        r is Ok <==> forall|i: int|
            0 <= i < report.checks@.len() ==> (#[trigger] report.checks@[i]).status is Satisfied
                || report.checks@[i].importance is Configured,
        r is Ok ==> code == 0 && !blocked,
        r is Err ==> code == 1 && blocked,
        r matches Err(e) ==> e@
            == "dependency preflight failed: required dependency(ies) missing or unusable:"@
            + all_complaints(part_of(report.checks@, Part::Blocking)),
{
    if forall|i: int|
        0 <= i < report.checks@.len() ==> (#[trigger] report.checks@[i]).status is Satisfied
            || report.checks@[i].importance is Configured {
        assert(!report.blocked());
    }
}

/// A part of a report takes the checks one by one: what is required and not in order blocks,
/// what else is not in order is a warning, and the importance parts the rest.
pub proof fn a_part_takes_check_by_check(list: Seq<DepCheck>, more: Seq<DepCheck>, part: Part)
    ensures
        part_of(Seq::empty(), part) == Seq::<DepCheck>::empty(),
        list.len() == 1 ==> part_of(list, part) == if match part {
            Part::Blocking => list[0].importance is Required && list[0].status !is Satisfied,
            Part::Warnings => list[0].importance is Configured && list[0].status !is Satisfied,
            Part::Required => list[0].importance is Required,
            Part::Configured => list[0].importance is Configured,
        } {
            list
        } else {
            Seq::empty()
        },
        part_of(list + more, part) == part_of(list, part) + part_of(more, part),
    decreases more.len(),
{
    if list.len() == 1 {
        assert(list.drop_last() =~= Seq::<DepCheck>::empty());
        assert(part_of(list.drop_last(), part) =~= Seq::<DepCheck>::empty());
        assert(part_of(list, part) =~= if match part {
            Part::Blocking => list[0].importance is Required && list[0].status !is Satisfied,
            Part::Warnings => list[0].importance is Configured && list[0].status !is Satisfied,
            Part::Required => list[0].importance is Required,
            Part::Configured => list[0].importance is Configured,
        } {
            list
        } else {
            Seq::empty()
        });
    }
    if more.len() == 0 {
        assert(list + more =~= list);
        assert(part_of(list, part) + part_of(more, part) =~= part_of(list, part));
    } else {
        a_part_takes_check_by_check(list, more.drop_last(), part);
        assert((list + more).drop_last() =~= list + more.drop_last());
        assert((list + more).last() == more.last());
        assert(part_of(list + more, part) =~= part_of(list, part) + part_of(more, part));
    }
}

/// The lines of a report follow the checks: each with its tag and its name, and either what was
/// found or why it cannot be used and how to mend that.
pub proof fn the_lines_follow_the_checks(list: Seq<DepCheck>, more: Seq<DepCheck>)
    ensures
        all_lines(Seq::empty()) == Seq::<char>::empty(),
        list.len() == 1 ==> all_lines(list) == match list[0].status {
            DepStatus::Satisfied { detail: Some(d) } => "  ["@ + "ok      "@ + "] "@
                + list[0].name@ + "  ("@
                + d@ + ")"@ + "\n"@,
            DepStatus::Satisfied { detail: None } => "  ["@ + "ok      "@ + "] "@ + list[0].name@
                + "\n"@,
            DepStatus::Missing => "  ["@ + "MISSING "@ + "] "@ + list[0].name@
                + "\n              fix:    "@ + list[0].install_hint@ + "\n"@,
            DepStatus::Unusable { reason } => "  ["@ + "UNUSABLE"@ + "] "@ + list[0].name@
                + "\n              reason: "@ + reason@ + "\n              fix:    "@
                + list[0].install_hint@ + "\n"@,
        },
        all_lines(list + more) == all_lines(list) + all_lines(more),
    decreases more.len(),
{
    if list.len() == 1 {
        assert(list.drop_last() =~= Seq::<DepCheck>::empty());
        assert(all_lines(list.drop_last()) =~= Seq::<char>::empty());
        reveal_strlit("");
        assert(all_lines(list) =~= match list[0].status {
            DepStatus::Satisfied { detail: Some(d) } => "  ["@ + "ok      "@ + "] "@
                + list[0].name@ + "  ("@
                + d@ + ")"@ + "\n"@,
            DepStatus::Satisfied { detail: None } => "  ["@ + "ok      "@ + "] "@ + list[0].name@
                + "\n"@,
            DepStatus::Missing => "  ["@ + "MISSING "@ + "] "@ + list[0].name@
                + "\n              fix:    "@ + list[0].install_hint@ + "\n"@,
            DepStatus::Unusable { reason } => "  ["@ + "UNUSABLE"@ + "] "@ + list[0].name@
                + "\n              reason: "@ + reason@ + "\n              fix:    "@
                + list[0].install_hint@ + "\n"@,
        });
    }
    if more.len() == 0 {
        assert(list + more =~= list);
        assert(all_lines(list) + all_lines(more) =~= all_lines(list));
    } else {
        the_lines_follow_the_checks(list, more.drop_last());
        assert((list + more).drop_last() =~= list + more.drop_last());
        assert((list + more).last() == more.last());
        assert(all_lines(list + more) =~= all_lines(list) + all_lines(more));
    }
}

/// The lines of an error follow the checks: each with its name, why it cannot be used where it is
/// there, and how to install it.
pub proof fn every_complaint_says_how_to_mend_it(list: Seq<DepCheck>, more: Seq<DepCheck>)
    ensures
        all_complaints(Seq::empty()) == Seq::<char>::empty(),
        list.len() == 1 ==> all_complaints(list) == match list[0].status {
            DepStatus::Unusable { reason } => "\n  - "@ + list[0].name@ + " (unusable: "@ + reason@
                + ")"@ + ": "@ + list[0].install_hint@,
            _ => "\n  - "@ + list[0].name@ + ": "@ + list[0].install_hint@,
        },
        all_complaints(list + more) == all_complaints(list) + all_complaints(more),
    decreases more.len(),
{
    if list.len() == 1 {
        assert(list.drop_last() =~= Seq::<DepCheck>::empty());
        assert(all_complaints(list.drop_last()) =~= Seq::<char>::empty());
        reveal_strlit("");
        assert(all_complaints(list) =~= match list[0].status {
            DepStatus::Unusable { reason } => "\n  - "@ + list[0].name@ + " (unusable: "@ + reason@
                + ")"@ + ": "@ + list[0].install_hint@,
            _ => "\n  - "@ + list[0].name@ + ": "@ + list[0].install_hint@,
        });
    }
    if more.len() == 0 {
        assert(list + more =~= list);
        assert(all_complaints(list) + all_complaints(more) =~= all_complaints(list));
    } else {
        every_complaint_says_how_to_mend_it(list, more.drop_last());
        assert((list + more).drop_last() =~= list + more.drop_last());
        assert((list + more).last() == more.last());
        assert(all_complaints(list + more) =~= all_complaints(list) + all_complaints(more));
    }
}

/// Every check is logged but those that keep the daemon from starting.
pub proof fn all_but_what_blocks_is_logged(list: Seq<DepCheck>, more: Seq<DepCheck>)
    ensures
        logged(Seq::empty()) == Seq::<DepCheck>::empty(),
        list.len() == 1
            ==> logged(list) == if list[0].importance is Required && list[0].status !is Satisfied {
            Seq::empty()
        } else {
            list
        },
        logged(list + more) == logged(list) + logged(more),
    decreases more.len(),
{
    if list.len() == 1 {
        assert(list.drop_last() =~= Seq::<DepCheck>::empty());
        assert(logged(list.drop_last()) =~= Seq::<DepCheck>::empty());
        assert(logged(list) =~= if list[0].importance is Required && list[0].status !is Satisfied {
            Seq::empty()
        } else {
            list
        });
    }
    if more.len() == 0 {
        assert(list + more =~= list);
        assert(logged(list) + logged(more) =~= logged(list));
    } else {
        all_but_what_blocks_is_logged(list, more.drop_last());
        assert((list + more).drop_last() =~= list + more.drop_last());
        assert((list + more).last() == more.last());
        assert(logged(list + more) =~= logged(list) + logged(more));
    }
}

/// The report as text: its groups, each under its title where there is anything in it, and the
/// count of what is missing.
pub proof fn a_report_is_written_group_by_group(report: DepReport, r: String)
    requires
        call_ensures(DepReport::render, (&report,), r),
    ensures
        ({
            let required = part_of(report.checks@, Part::Required);
            let configured = part_of(report.checks@, Part::Configured);
            let blocking = part_of(report.checks@, Part::Blocking).len();
            let warnings = part_of(report.checks@, Part::Warnings).len();
            let head = "autocoder dependency report\n"@ + (if required.len() == 0 {
                ""@
            } else {
                "\n"@ + "REQUIRED"@ + "\n"@ + all_lines(required)
            }) + (if configured.len() == 0 {
                ""@
            } else {
                "\n"@ + "CONFIGURATION-IMPLIED"@ + "\n"@ + all_lines(configured)
            }) + "\n"@;
            &&& blocking > 0 ==> r@ == head + ("Summary: "@ + dec(blocking)
                + " required dependency(ies) missing or unusable; "@ + dec(warnings)
                + " warning(s).\n"@)
            &&& blocking == 0 && warnings > 0 ==> r@ == head + (
            "Summary: all required dependencies satisfied; "@ + dec(warnings) + " warning(s).\n"@)
            &&& blocking == 0 && warnings == 0 ==> r@ == head
                + "Summary: all dependencies satisfied.\n"@
        }),
{
}

/// The checks for want of which the daemon cannot start, and those that are worth a warning,
/// are given as they are.
pub proof fn what_is_wrong_can_be_listed(report: DepReport, a: Vec<&DepCheck>, b: Vec<&DepCheck>)
    requires
        call_ensures(DepReport::blocking, (&report,), a),
        call_ensures(DepReport::warnings, (&report,), b),
    ensures
        a@.len() == part_of(report.checks@, Part::Blocking).len(),
        b@.len() == part_of(report.checks@, Part::Warnings).len(),
        forall|i: int|
            0 <= i < a@.len() ==> *#[trigger] a@[i] == part_of(report.checks@, Part::Blocking)[i],
        forall|i: int|
            0 <= i < b@.len() ==> *#[trigger] b@[i] == part_of(report.checks@, Part::Warnings)[i],
{
    assert(pointed(a@).len() == a@.len());
    assert(pointed(b@).len() == b@.len());
    assert forall|i: int| 0 <= i < a@.len() implies *#[trigger] a@[i] == part_of(
        report.checks@,
        Part::Blocking,
    )[i] by {
        assert(pointed(a@)[i] == *a@[i]);
    }
    assert forall|i: int| 0 <= i < b@.len() implies *#[trigger] b@[i] == part_of(
        report.checks@,
        Part::Warnings,
    )[i] by {
        assert(pointed(b@)[i] == *b@[i]);
    }
}

/// What is logged of a check: that it is there, with what was found, or a warning with its
/// state and how to install it.
pub proof fn the_log_tells_state_and_remedy(report: DepReport, r: Vec<LogEntry>, i: int)
    requires
        call_ensures(DepReport::log, (&report,), r),
        0 <= i < r@.len(),
    ensures
        r@.len() == logged(report.checks@).len(),
        ({
            let c = logged(report.checks@)[i];
            match c.status {
                DepStatus::Satisfied { detail } => r@[i] matches LogEntry::Info {
                    dependency,
                    detail: d,
                } && dependency@ == c.name@ && d@ == match detail {
                    Some(t) => t@,
                    None => ""@,
                },
                DepStatus::Missing => r@[i] matches LogEntry::Warn { dependency, status, message }
                    && dependency@ == c.name@ && status@ == "MISSING"@ && message@
                    == "configuration-implied dependency missing or unusable; "@ + c.install_hint@,
                DepStatus::Unusable { .. } => r@[i] matches LogEntry::Warn {
                    dependency,
                    status,
                    message,
                } && dependency@ == c.name@ && status@ == "UNUSABLE"@ && message@
                    == "configuration-implied dependency missing or unusable; "@ + c.install_hint@,
            }
        }),
{
}

/// What a run of `openspec --version` tells: its version without the white space around it, that
/// it is missing, or why it cannot be used, with its exit code and the beginning of what it said.
pub proof fn a_run_tells_whether_openspec_is_there(bin: &str, run: VersionRun, r: DepStatus)
    requires
        call_ensures(probe_openspec, (bin, &run), r),
    ensures
        run matches VersionRun::Succeeded { stdout } ==> (r matches DepStatus::Satisfied {
            detail: Some(d),
        } && d@ == trim(stdout@)),
        run is NotFound <==> r is Missing,
        run matches VersionRun::Failed { error } ==> (r matches DepStatus::Unusable { reason }
            && reason@ == "spawning `"@ + bin@ + " --version` errored: "@ + error@),
        run matches VersionRun::Exited { code, stderr } ==> {
            let head = "openspec preflight failed: `"@ + bin@ + " --version` exited "@;
            let told = match code {
                Some(n) => if n >= 0 {
                    "Some("@ + dec(n as nat) + ")"@
                } else {
                    "Some(-"@ + dec((-n) as nat) + ")"@
                },
                None => "None"@,
            };
            let said = if stderr@.len() <= 200 {
                stderr@
            } else {
                stderr@.subrange(0, 200)
            };
            r matches DepStatus::Unusable { reason }
                && reason@ == head + told + ". stderr: "@ + said
        },
{
}

/// The error of a start that is given up tells every dependency that keeps it from starting.
pub proof fn the_error_tells_all_that_blocks(
    report: DepReport,
    r: String,
    status: DepStatus,
    ok: bool,
)
    requires
        call_ensures(DepReport::blocking_error_message, (&report,), r),
        call_ensures(DepStatus::is_ok, (&status,), ok),
    ensures
        r@ == "dependency preflight failed: required dependency(ies) missing or unusable:"@
            + all_complaints(part_of(report.checks@, Part::Blocking)),
        ok <==> status is Satisfied,
{
}

} // verus!
