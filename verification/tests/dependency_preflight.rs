use autocoder::dependency_preflight::{
    build_report, doctor_exit_code, probe_openspec, report_on, run_startup_preflight,
    CanonicalRagConfig, CliHint, Config, DepCheck, DepProbe, DepReport, DepStatus, HostFacts,
    Importance, LlmProvider, LogEntry, ModelEntry, ReviewerConfig, ReviewerKind,
    SandboxAvailability, VersionRun,
};
use std::cell::RefCell;

struct FakeProbe {
    openspec: Option<String>,
    sandbox: &'static str,
    present: Vec<String>,
    asked: RefCell<Vec<String>>,
}

impl FakeProbe {
    fn with(present: &[&str]) -> Self {
        Self {
            openspec: Some("1.3.1".into()),
            sandbox: "bwrap",
            present: present.iter().map(|s| s.to_string()).collect(),
            asked: RefCell::new(Vec::new()),
        }
    }

    fn all_present() -> Self {
        Self::with(&["git", "agent", "gh", "ollama"])
    }
}

impl DepProbe for FakeProbe {
    fn openspec(&self) -> DepStatus {
        match &self.openspec {
            Some(v) => DepStatus::Satisfied { detail: Some(v.clone()) },
            None => DepStatus::Missing,
        }
    }
    fn sandbox(&self) -> SandboxAvailability {
        match self.sandbox {
            "absent" => SandboxAvailability::Absent,
            "unusable" => {
                SandboxAvailability::PresentButUnusable { present: vec!["bwrap".into()] }
            }
            name => SandboxAvailability::Usable { mechanism: name.into() },
        }
    }
    fn binary_present(&self, bin: &str) -> bool {
        self.asked.borrow_mut().push(bin.to_string());
        self.present.iter().any(|b| b == bin)
    }
}

fn base_cfg() -> Config {
    Config {
        cli_hints: vec![CliHint { bin: "agent".into(), hint: "Install it from the vendor.".into() }],
        executor_command: "agent".into(),
        reviewer: None,
        models: Vec::new(),
        scout_enabled: false,
        canonical_rag: None,
    }
}

fn find<'a>(r: &'a DepReport, needle: &str) -> Option<&'a DepCheck> {
    r.checks.iter().find(|c| c.name.contains(needle))
}

#[test]
fn all_satisfied_has_no_blocking() {
    let report = build_report(&base_cfg(), &FakeProbe::all_present());
    assert!(!report.has_blocking(), "report: {}", report.render());
    assert_eq!(doctor_exit_code(&report), 0);
    assert_eq!(run_startup_preflight(&report), Ok(()));
}

#[test]
fn reports_multiple_missing_together_not_just_the_first() {
    let probe = FakeProbe {
        openspec: None,
        sandbox: "absent",
        ..FakeProbe::with(&["agent"])
    };
    let report = build_report(&base_cfg(), &probe);
    assert_eq!(find(&report, "openspec").unwrap().status, DepStatus::Missing);
    assert_eq!(find(&report, "git").unwrap().status, DepStatus::Missing);
    assert_eq!(find(&report, "sandbox").unwrap().status, DepStatus::Missing);
    assert_eq!(report.blocking().len(), 3, "{}", report.render());
}

#[test]
fn missing_required_dependency_blocks_with_actionable_message() {
    let probe = FakeProbe { openspec: None, ..FakeProbe::all_present() };
    let report = build_report(&base_cfg(), &probe);
    assert!(report.has_blocking());
    assert_eq!(doctor_exit_code(&report), 1);
    let msg = report.blocking_error_message();
    assert!(msg.contains("openspec"), "{msg}");
    assert!(msg.contains("not found on PATH"), "{msg}");
    assert!(msg.contains("Install openspec"), "{msg}");
    assert_eq!(run_startup_preflight(&report), Err(msg));
}

#[test]
fn configured_strategy_cli_is_checked_unconfigured_is_not() {
    let mut cfg = base_cfg();
    cfg.executor_command = "opencode".to_string();
    let report = build_report(&cfg, &FakeProbe::with(&["git", "agent"]));
    let oc = find(&report, "opencode").expect("opencode strategy must be checked");
    assert_eq!(oc.status, DepStatus::Missing);
    assert!(
        report.checks.iter().all(|c| !c.name.contains("`agent`")),
        "an unconfigured strategy must not be required: {}",
        report.render()
    );
    assert_eq!(
        oc.install_hint,
        "Install opencode per https://opencode.ai (its own installer), then authenticate it for your provider."
    );
}

#[test]
fn present_but_unusable_sandbox_is_unusable_not_satisfied() {
    let probe = FakeProbe { sandbox: "unusable", ..FakeProbe::all_present() };
    let report = build_report(&base_cfg(), &probe);
    let sb = find(&report, "sandbox").unwrap();
    assert!(matches!(sb.status, DepStatus::Unusable { .. }), "{:?}", sb.status);
    assert!(!sb.is_ok());
    assert!(sb.is_blocking());
    assert_eq!(doctor_exit_code(&report), 1);
}

#[test]
fn scout_gh_reported_when_enabled_and_missing_but_not_blocking() {
    let mut cfg = base_cfg();
    cfg.scout_enabled = true;
    let report = build_report(&cfg, &FakeProbe::with(&["git", "agent"]));
    let gh = find(&report, "gh").expect("gh must be checked when scout enabled");
    assert_eq!(gh.status, DepStatus::Missing);
    assert!(gh.is_warning(), "gh missing is a warning, not blocking");
    assert!(!report.has_blocking(), "scout gh must not block startup");
}

#[test]
fn scout_gh_not_checked_when_disabled() {
    let probe = FakeProbe::with(&["git", "agent"]);
    let report = build_report(&base_cfg(), &probe);
    assert!(find(&report, "gh").is_none(), "gh must not be checked when scout off");
    assert_eq!(*probe.asked.borrow(), vec!["git".to_string(), "agent".to_string()]);
}

#[test]
fn executor_cli_missing_blocks() {
    let report = build_report(&base_cfg(), &FakeProbe::with(&["git", "gh", "ollama"]));
    let ex = find(&report, "executor").expect("executor CLI checked");
    assert_eq!(ex.status, DepStatus::Missing);
    assert!(ex.is_blocking(), "executor CLI is required");
    assert_eq!(ex.install_hint, "Install it from the vendor.");
}

#[test]
fn probe_openspec_missing_binary_is_missing() {
    assert_eq!(probe_openspec("openspec", &VersionRun::NotFound), DepStatus::Missing);
}

#[test]
fn probe_openspec_nonzero_exit_is_unusable() {
    let st = probe_openspec(
        "/bin/false",
        &VersionRun::Exited { code: Some(1), stderr: "x".repeat(300) },
    );
    assert_eq!(
        st,
        DepStatus::Unusable {
            reason: format!(
                "openspec preflight failed: `/bin/false --version` exited Some(1). stderr: {}",
                "x".repeat(200)
            )
        }
    );
    let signal =
        probe_openspec("b", &VersionRun::Exited { code: None, stderr: String::new() });
    assert_eq!(
        signal,
        DepStatus::Unusable {
            reason: "openspec preflight failed: `b --version` exited None. stderr: ".to_string()
        }
    );
    let odd = probe_openspec("b", &VersionRun::Exited { code: Some(-7), stderr: String::new() });
    assert!(format!("{odd:?}").contains("Some(-7)"));
    let failed = probe_openspec("b", &VersionRun::Failed { error: "denied".to_string() });
    assert_eq!(
        failed,
        DepStatus::Unusable { reason: "spawning `b --version` errored: denied".to_string() }
    );
}

#[test]
fn probe_openspec_reports_its_version() {
    assert_eq!(
        probe_openspec("b", &VersionRun::Succeeded { stdout: " 1.3.1\n".to_string() }),
        DepStatus::Satisfied { detail: Some("1.3.1".to_string()) }
    );
}

fn facts(present: &[&str]) -> HostFacts {
    HostFacts {
        openspec: DepStatus::Satisfied { detail: Some("1".into()) },
        sandbox: SandboxAvailability::Usable { mechanism: "bwrap".into() },
        present: present.iter().map(|s| s.to_string()).collect(),
    }
}

fn full_cfg() -> Config {
    Config {
        reviewer: Some(ReviewerConfig {
            key: "review".into(),
            enabled: true,
            kind: ReviewerKind::Agentic,
            command: "agent".into(),
        }),
        models: vec![
            ModelEntry { nick: "m1".into(), cli: "other".into() },
            ModelEntry { nick: "m2".into(), cli: "agent".into() },
            ModelEntry { nick: "m1".into(), cli: "other".into() },
        ],
        ..base_cfg()
    }
}

#[test]
fn roles_share_their_program() {
    let report = report_on(&full_cfg(), &facts(&["git"]));
    let names: Vec<&str> = report.checks.iter().map(|c| c.name.as_str()).collect();
    assert_eq!(
        names,
        vec![
            "openspec",
            "git",
            "sandbox mechanism",
            "agent CLI `agent` (executor, review, model: m2)",
            "agent CLI `other` (model: m1)",
        ]
    );
    assert_eq!(report.checks[3].importance, Importance::Required);
    assert_eq!(report.checks[4].importance, Importance::Configured);
    assert_eq!(
        report.checks[4].install_hint,
        "Install the `other` agent CLI and ensure it is on the daemon's PATH and authenticated."
    );
}

#[test]
fn reviews_without_a_program_need_none() {
    for (enabled, kind) in [(false, ReviewerKind::Agentic), (true, ReviewerKind::Oneshot)] {
        let cfg = Config {
            reviewer: Some(ReviewerConfig {
                key: "review".into(),
                enabled,
                kind,
                command: "rev".into(),
            }),
            ..base_cfg()
        };
        assert!(find(&report_on(&cfg, &facts(&[])), "rev").is_none());
    }
}

fn rag(provider: Option<LlmProvider>, active: bool) -> Config {
    Config {
        canonical_rag: Some(CanonicalRagConfig {
            active,
            provider,
            model: "embed".into(),
            api_base_url: "http://h".into(),
        }),
        ..base_cfg()
    }
}

#[test]
fn embeddings_are_checked_by_provider() {
    let there = report_on(&rag(None, true), &facts(&["ollama"]));
    assert_eq!(
        find(&there, "RAG").unwrap().status,
        DepStatus::Satisfied { detail: Some("ollama, model `embed`".into()) }
    );
    let gone = report_on(&rag(Some(LlmProvider::Ollama), true), &facts(&[]));
    let check = find(&gone, "RAG").unwrap();
    assert_eq!(check.status, DepStatus::Missing);
    assert!(check.is_warning());
    assert_eq!(
        check.install_hint,
        "Install Ollama (https://ollama.com) and pull `embed`, OR ensure your Ollama endpoint at http://h is reachable (the `ollama` CLI is optional if you run it as a container/remote)."
    );
    let remote = report_on(&rag(Some(LlmProvider::OpenAiCompatible), true), &facts(&[]));
    assert_eq!(
        find(&remote, "RAG").unwrap().status,
        DepStatus::Satisfied { detail: Some("openai-compatible endpoint http://h".into()) }
    );
    let never = report_on(&rag(Some(LlmProvider::Anthropic), true), &facts(&[]));
    assert_eq!(
        find(&never, "RAG").unwrap().status,
        DepStatus::Unusable { reason: "anthropic does not support embeddings".into() }
    );
    assert!(find(&report_on(&rag(None, false), &facts(&[])), "RAG").is_none());
}

#[test]
fn the_report_is_exact() {
    let mut cfg = base_cfg();
    cfg.scout_enabled = true;
    let mut f = facts(&["agent"]);
    f.sandbox = SandboxAvailability::PresentButUnusable {
        present: vec!["bwrap".into(), "systemd-run".into()],
    };
    let text = report_on(&cfg, &f).render();
    assert_eq!(
        text,
        "autocoder dependency report\n\nREQUIRED\n  [ok      ] openspec  (1)\n  [MISSING ] git\n              fix:    Install git via your platform package manager (e.g. `apt-get install git`, `brew install git`).\n  [UNUSABLE] sandbox mechanism\n              reason: bwrap, systemd-run present but cannot apply the sandbox (e.g. unprivileged user namespaces disabled)\n              fix:    Install a usable sandbox mechanism. On Linux: bubblewrap (`apt-get install bubblewrap`) with unprivileged user namespaces enabled, OR run the daemon under systemd so transient `systemd-run` service mode is available. On macOS: `sandbox-exec` (ships with the OS).\n  [ok      ] agent CLI `agent` (executor)\n\nCONFIGURATION-IMPLIED\n  [MISSING ] forge/scout CLI `gh` (scout)\n              fix:    Install the GitHub CLI `gh` (https://cli.github.com) and authenticate with `gh auth login`, OR disable the scout feature (`features.scout.enabled: false`).\n\nSummary: 2 required dependency(ies) missing or unusable; 1 warning(s).\n"
    );
    let warned = report_on(&cfg, &facts(&["agent", "git"])).render();
    assert!(warned.ends_with("\nSummary: all required dependencies satisfied; 1 warning(s).\n"));
    let fine = report_on(&base_cfg(), &facts(&["agent", "git"])).render();
    assert!(fine.ends_with("\nSummary: all dependencies satisfied.\n"));
}

#[test]
fn the_error_names_every_blocking_dependency() {
    let mut f = facts(&["agent"]);
    f.openspec = DepStatus::Unusable { reason: "broken".into() };
    let report = report_on(&base_cfg(), &f);
    assert_eq!(
        report.blocking_error_message(),
        "dependency preflight failed: required dependency(ies) missing or unusable:\n  - openspec (unusable: broken): openspec preflight failed: `openspec` binary not found on PATH. Install openspec and ensure the systemd unit's PATH covers its install directory.\n  - git: Install git via your platform package manager (e.g. `apt-get install git`, `brew install git`)."
    );
}

#[test]
fn what_blocks_is_not_logged() {
    let mut cfg = base_cfg();
    cfg.scout_enabled = true;
    let entries = report_on(&cfg, &facts(&["agent"])).log();
    assert_eq!(entries.len(), 4);
    match &entries[0] {
        LogEntry::Info { dependency, detail } => {
            assert_eq!((dependency.as_str(), detail.as_str()), ("openspec", "1"))
        }
        other => panic!("{other:?}"),
    }
    match &entries[3] {
        LogEntry::Warn { dependency, status, message } => {
            assert_eq!(dependency, "forge/scout CLI `gh` (scout)");
            assert_eq!(status, "MISSING");
            assert!(message.starts_with(
                "configuration-implied dependency missing or unusable; Install the GitHub CLI"
            ));
        }
        other => panic!("{other:?}"),
    }
}
