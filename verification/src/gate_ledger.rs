//! The verdicts of the verifier gates on a change. Nothing is open by default:
//! a gate lets a change pass only where a verdict says so that was recorded.
use vstd::prelude::*;
use crate::path::{is_relative, join_path, joined, lemma_json_files};
use crate::text::{blank, cat2, cat4, is_blank, join, join_texts, trim, words, words_of};

verus! {

/// A gate that looks at a change.
#[derive(Debug, Clone, Copy, PartialEq, Eq, Structural)]
pub enum VerifierGate {
    In,
    Canon,
    Out,
}

impl VerifierGate {
    pub open spec fn label_text(self) -> Seq<char> {
        match self {
            VerifierGate::In => "[verifier:in]"@,
            VerifierGate::Canon => "[verifier:canon]"@,
            VerifierGate::Out => "[verifier:out]"@,
        }
    }

    /// What a gate is called in a pull request.
    pub fn label(self) -> (r: &'static str)
        ensures
            r@ == self.label_text(),
    {
        match self {
            VerifierGate::In => "[verifier:in]",
            VerifierGate::Canon => "[verifier:canon]",
            VerifierGate::Out => "[verifier:out]",
        }
    }
}

/// What a gate said of a change.
#[derive(Debug, Clone, Copy, PartialEq, Eq, Structural)]
pub enum GateVerdict {
    /// Nothing yet: it has not run, or not to its end.
    Pending,
    /// It ran and found nothing.
    Pass,
    /// It ran and found something.
    Fail,
    /// It ran and came to no verdict.
    FailedToRun,
    /// It is switched off.
    Disabled,
}

impl Default for GateVerdict {
    fn default() -> (r: GateVerdict)
        ensures
            r == GateVerdict::Pending,
    {
        GateVerdict::Pending
    }
}

impl GateVerdict {
    pub open spec fn text(self) -> Seq<char> {
        match self {
            GateVerdict::Pending => "PENDING"@,
            GateVerdict::Pass => "PASS"@,
            GateVerdict::Fail => "FAIL"@,
            GateVerdict::FailedToRun => "FAILED TO RUN"@,
            GateVerdict::Disabled => "DISABLED"@,
        }
    }

    /// What a verdict is called in a pull request.
    pub fn as_str(self) -> (r: &'static str)
        ensures
            r@ == self.text(),
    {
        match self {
            GateVerdict::Pending => "PENDING",
            GateVerdict::Pass => "PASS",
            GateVerdict::Fail => "FAIL",
            GateVerdict::FailedToRun => "FAILED TO RUN",
            GateVerdict::Disabled => "DISABLED",
        }
    }

    /// Whether the verdict opens a gate that can hold a change back.
    pub open spec fn opens(self) -> bool {
        self == GateVerdict::Pass || self == GateVerdict::Disabled
    }

    /// Whether the verdict opens a gate that can hold a change back.
    pub fn is_blocking_ok(self) -> (r: bool)
        ensures
            r == self.opens(),
    {
        match self {
            GateVerdict::Pass | GateVerdict::Disabled => true,
            GateVerdict::Pending | GateVerdict::Fail | GateVerdict::FailedToRun => false,
        }
    }
}

/// What is recorded of one gate: its verdict, the model that ran it, and why it
/// said what it said.
#[derive(Debug, Clone, PartialEq, Eq)]
pub struct GateEntry {
    pub verdict: GateVerdict,
    pub model: Option<String>,
    pub summary: Option<String>,
}

impl GateEntry {
    pub open spec fn is_pending(self) -> bool {
        self.verdict == GateVerdict::Pending && self.model is None && self.summary is None
    }
}

impl Default for GateEntry {
    fn default() -> (r: GateEntry)
        ensures
            r.is_pending(),
    {
        GateEntry { verdict: GateVerdict::Pending, model: None, summary: None }
    }
}

/// The verdicts of all gates on one change.
#[derive(Debug, Clone, PartialEq, Eq)]
pub struct GateLedger {
    pub in_gate: GateEntry,
    pub canon: GateEntry,
    pub out: GateEntry,
}

impl Default for GateLedger {
    fn default() -> (r: GateLedger)
        ensures
            r.in_gate.is_pending(),
            r.canon.is_pending(),
            r.out.is_pending(),
    {
        GateLedger {
            in_gate: GateEntry { verdict: GateVerdict::Pending, model: None, summary: None },
            canon: GateEntry { verdict: GateVerdict::Pending, model: None, summary: None },
            out: GateEntry { verdict: GateVerdict::Pending, model: None, summary: None },
        }
    }
}

/// A text in one line: its words with a single space between them.
pub open spec fn in_one_line(s: Seq<char>) -> Seq<char> {
    join(words(s), " "@)
}

fn one_line(s: &str) -> (r: String)
    ensures
        r@ == in_one_line(s@),
{
    join_texts(&words_of(s), " ")
}

/// A text that says something.
pub open spec fn said(o: Option<String>) -> Option<Seq<char>> {
    match o {
        Some(s) if !is_blank(s@) => Some(s@),
        _ => None,
    }
}

fn said_text(o: &Option<String>) -> (r: Option<String>)
    ensures
        crate::text::opt_text(r) == said(*o),
{
    match o {
        Some(s) => {
            if blank(s.as_str()) {
                None
            } else {
                Some(s.clone())
            }
        },
        None => None,
    }
}

/// The line of one gate: its name, its verdict, the model where one is known,
/// and the reason where it found something or came to no verdict.
pub open spec fn entry_line(gate: VerifierGate, entry: GateEntry) -> Seq<char> {
    let head = "- "@ + gate.label_text() + " "@ + entry.verdict.text();
    let with_model = match said(entry.model) {
        Some(m) => head + (" — model: "@ + m),
        None => head,
    };
    let with_reason = if entry.verdict == GateVerdict::Fail || entry.verdict
        == GateVerdict::FailedToRun {
        match said(entry.summary) {
            Some(s) => with_model + (" — "@ + in_one_line(s)),
            None => with_model,
        }
    } else {
        with_model
    };
    with_reason + "\n"@
}

fn render_entry_line(gate: VerifierGate, entry: &GateEntry) -> (r: String)
    ensures
        r@ == entry_line(gate, *entry),
{
    let mut line = cat4("- ", gate.label(), " ", entry.verdict.as_str());
    if let Some(model) = said_text(&entry.model) {
        line.append(cat2(" — model: ", model.as_str()).as_str());
    }
    if entry.verdict == GateVerdict::Fail || entry.verdict == GateVerdict::FailedToRun {
        if let Some(summary) = said_text(&entry.summary) {
            let reason = one_line(summary.as_str());
            line.append(cat2(" — ", reason.as_str()).as_str());
        }
    }
    line.append("\n");
    line
}

impl GateLedger {
    /// A ledger in which no gate has said anything.
    pub fn new() -> (r: GateLedger)
        ensures
            r.in_gate.is_pending(),
            r.canon.is_pending(),
            r.out.is_pending(),
    {
        Default::default()
    }

    /// Records the verdict of the first gate.
    pub fn set_in(&mut self, verdict: GateVerdict, model: Option<String>, summary: Option<String>)
        ensures
            final(self).in_gate == (GateEntry { verdict, model, summary }),
            final(self).canon == old(self).canon,
            final(self).out == old(self).out,
    {
        self.in_gate = GateEntry { verdict, model, summary };
    }

    /// Records the verdict on the fit with what is canonical.
    pub fn set_canon(&mut self, verdict: GateVerdict, model: Option<String>, summary: Option<String>)
        ensures
            final(self).canon == (GateEntry { verdict, model, summary }),
            final(self).in_gate == old(self).in_gate,
            final(self).out == old(self).out,
    {
        self.canon = GateEntry { verdict, model, summary };
    }

    /// Records the verdict of the last gate.
    pub fn set_out(&mut self, verdict: GateVerdict, model: Option<String>, summary: Option<String>)
        ensures
            final(self).out == (GateEntry { verdict, model, summary }),
            final(self).in_gate == old(self).in_gate,
            final(self).canon == old(self).canon,
    {
        self.out = GateEntry { verdict, model, summary };
    }

    /// Whether the change may go on.
    pub open spec fn is_open(self) -> bool {
        self.in_gate.verdict.opens() && self.canon.verdict.opens()
    }

    /// Whether the change may go on: both gates that can hold it back are open.
    /// The last gate only advises.
    pub fn blocking_ok(&self) -> (r: bool)
        ensures
            r == self.is_open(),
    {
        self.in_gate.verdict.is_blocking_ok() && self.canon.verdict.is_blocking_ok()
    }

    /// The section of a pull request that lists the verdicts.
    pub open spec fn section(self) -> Seq<char> {
        "## Gate verdicts\n\n"@ + entry_line(VerifierGate::In, self.in_gate) + entry_line(
            VerifierGate::Canon,
            self.canon,
        ) + entry_line(VerifierGate::Out, self.out)
    }

    /// Writes the section of a pull request that lists the verdicts.
    pub fn render_pr_section(&self) -> (r: String)
        ensures
            r@ == self.section(),
    {
        cat4(
            "## Gate verdicts\n\n",
            render_entry_line(VerifierGate::In, &self.in_gate).as_str(),
            render_entry_line(VerifierGate::Canon, &self.canon).as_str(),
            render_entry_line(VerifierGate::Out, &self.out).as_str(),
        )
    }
}

/// Where the ledgers of a workspace are kept: with the data of git, not in the tree
/// that it manages.
pub open spec fn ledgers_place(workspace: Seq<char>) -> Seq<char> {
    joined(joined(workspace, ".git"@), "autocoder-gate-ledger"@)
}

/// Where the ledger of a change is kept.
pub open spec fn ledger_place(workspace: Seq<char>, change: Seq<char>) -> Seq<char> {
    joined(ledgers_place(workspace), change + ".json"@)
}

/// Where the ledger of a change is kept.
pub fn ledger_path(workspace: &str, change: &str) -> (r: String)
    ensures
        r@ == ledger_place(workspace@, change@),
{
    let git = join_path(workspace, ".git");
    let dir = join_path(git.as_str(), "autocoder-gate-ledger");
    join_path(dir.as_str(), cat2(change, ".json").as_str())
}

/// Each change has a ledger of its own: no two changes of a workspace share a file.
/// The name of a change is no path from the root.
pub proof fn ledgers_have_their_own_files(workspace: Seq<char>, a: Seq<char>, b: Seq<char>)
    requires
        is_relative(a),
        is_relative(b),
        a != b,
    ensures
        ledger_place(workspace, a) != ledger_place(workspace, b),
{
    if ledger_place(workspace, a) == ledger_place(workspace, b) {
        lemma_json_files(ledgers_place(workspace), a, b);
    }
}

/// A change goes on only where each of the two gates that can hold it back has
/// a verdict that opens it: what is pending, failed or could not run holds it.
pub proof fn nothing_is_open_by_default(ledger: GateLedger)
    ensures
        ledger.in_gate.is_pending() || ledger.canon.is_pending() ==> !ledger.is_open(),
        ledger.is_open() ==> ledger.in_gate.verdict != GateVerdict::Pending
            && ledger.in_gate.verdict != GateVerdict::Fail && ledger.in_gate.verdict
            != GateVerdict::FailedToRun && ledger.canon.verdict != GateVerdict::Pending
            && ledger.canon.verdict != GateVerdict::Fail && ledger.canon.verdict
            != GateVerdict::FailedToRun,
{
}

/// The last gate has no say in whether a change goes on.
pub proof fn the_last_gate_only_advises(a: GateLedger, b: GateLedger)
    requires
        a.in_gate == b.in_gate,
        a.canon == b.canon,
    ensures
        a.is_open() == b.is_open(),
{
}

/// What a gate said is always visible: its line begins with its name and with
/// what it said, whether it passed or failed.
pub proof fn every_verdict_is_visible(gate: VerifierGate, entry: GateEntry)
    ensures
        ("- "@ + gate.label_text() + " "@ + entry.verdict.text()).is_prefix_of(
            entry_line(gate, entry),
        ),
{
}

/// A change goes on exactly where each of the two gates that can hold it back passed it or is
/// switched off; the last gate is not asked.
pub proof fn two_gates_let_a_change_on(ledger: GateLedger, r: bool)
    requires
        call_ensures(GateLedger::blocking_ok, (&ledger,), r),
    ensures
        r <==> (ledger.in_gate.verdict is Pass || ledger.in_gate.verdict is Disabled) && (
        ledger.canon.verdict is Pass || ledger.canon.verdict is Disabled),
{
}

/// A verdict is recorded for its gate, with the model and the reason as they are given, and
/// what the other gates said stays.
pub proof fn a_verdict_is_recorded_for_its_gate(
    a: Ghost<&mut GateLedger>,
    b: Ghost<&mut GateLedger>,
    c: Ghost<&mut GateLedger>,
    verdict: GateVerdict,
    model: Option<String>,
    summary: Option<String>,
)
    requires
        call_ensures(GateLedger::set_in, (a@, verdict, model, summary), ()),
        call_ensures(GateLedger::set_canon, (b@, verdict, model, summary), ()),
        call_ensures(GateLedger::set_out, (c@, verdict, model, summary), ()),
    ensures
        ({
            let entry = GateEntry { verdict, model, summary };
            &&& *final(a@) == (GateLedger { in_gate: entry, ..*a@ })
            &&& *final(b@) == (GateLedger { canon: entry, ..*b@ })
            &&& *final(c@) == (GateLedger { out: entry, ..*c@ })
        }),
{
}

/// A new ledger holds no verdict of any gate, and lets nothing on.
pub proof fn a_new_ledger_holds_everything(r: GateLedger)
    requires
        call_ensures(GateLedger::new, (), r),
    ensures
        r.in_gate.verdict is Pending && r.in_gate.model is None && r.in_gate.summary is None,
        r.canon.verdict is Pending && r.canon.model is None && r.canon.summary is None,
        r.out.verdict is Pending && r.out.model is None && r.out.summary is None,
        !r.is_open(),
{
}

/// The line of a gate, word by word: its name, its verdict, the model where one is named, and
/// the reason, in one line, where it failed or came to no verdict and one is given.
pub proof fn a_line_tells_verdict_model_and_reason(gate: VerifierGate, entry: GateEntry)
    ensures
        ({
            let name = match gate {
                VerifierGate::In => "[verifier:in]"@,
                VerifierGate::Canon => "[verifier:canon]"@,
                VerifierGate::Out => "[verifier:out]"@,
            };
            let verdict = match entry.verdict {
                GateVerdict::Pending => "PENDING"@,
                GateVerdict::Pass => "PASS"@,
                GateVerdict::Fail => "FAIL"@,
                GateVerdict::FailedToRun => "FAILED TO RUN"@,
                GateVerdict::Disabled => "DISABLED"@,
            };
            let model = match entry.model {
                Some(m) => if trim(m@).len() == 0 {
                    Seq::empty()
                } else {
                    " — model: "@ + m@
                },
                None => Seq::empty(),
            };
            let asked = entry.verdict is Fail || entry.verdict is FailedToRun;
            let reason = match entry.summary {
                Some(s) => if asked && trim(s@).len() > 0 {
                    " — "@ + join(words(s@), " "@)
                } else {
                    Seq::empty()
                },
                None => Seq::empty(),
            };
            entry_line(gate, entry) == "- "@ + name + " "@ + verdict + model + reason + "\n"@
        }),
{
    let head = "- "@ + gate.label_text() + " "@ + entry.verdict.text();
    let none = Seq::<char>::empty();
    assert(head + none =~= head);
    if let Some(m) = entry.model {
        let with = head + (" — model: "@ + m@);
        assert(with + none =~= with);
    }
}

/// The section lists the gates in their order, under its heading.
pub proof fn the_section_lists_all_gates(ledger: GateLedger)
    ensures
        ledger.section() == "## Gate verdicts\n\n"@ + entry_line(VerifierGate::In, ledger.in_gate)
            + entry_line(VerifierGate::Canon, ledger.canon) + entry_line(
            VerifierGate::Out,
            ledger.out,
        ),
{
}

/// A ledger is kept with the data of git, under the name of its change.
pub proof fn a_ledger_is_kept_with_git(workspace: &str, change: &str, r: String)
    requires
        call_ensures(ledger_path, (workspace, change), r),
    ensures
        r@ == joined(
            joined(joined(workspace@, ".git"@), "autocoder-gate-ledger"@),
            change@ + ".json"@,
        ),
{
}

/// A gate and a verdict go by their names, a verdict lets a change on where it passed or is
/// switched off, and a ledger is written as its section.
pub proof fn gates_and_verdicts_go_by_their_names(
    gate: VerifierGate,
    label: &'static str,
    verdict: GateVerdict,
    name: &'static str,
    open: bool,
    ledger: GateLedger,
    r: String,
)
    requires
        call_ensures(VerifierGate::label, (gate,), label),
        call_ensures(GateVerdict::as_str, (verdict,), name),
        call_ensures(GateVerdict::is_blocking_ok, (verdict,), open),
        call_ensures(GateLedger::render_pr_section, (&ledger,), r),
    ensures
        label@ == match gate {
            VerifierGate::In => "[verifier:in]"@,
            VerifierGate::Canon => "[verifier:canon]"@,
            VerifierGate::Out => "[verifier:out]"@,
        },
        name@ == match verdict {
            GateVerdict::Pending => "PENDING"@,
            GateVerdict::Pass => "PASS"@,
            GateVerdict::Fail => "FAIL"@,
            GateVerdict::FailedToRun => "FAILED TO RUN"@,
            GateVerdict::Disabled => "DISABLED"@,
        },
        open <==> verdict is Pass || verdict is Disabled,
        r@ == ledger.section(),
{
}

} // verus!
