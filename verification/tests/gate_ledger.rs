use autocoder::gate_ledger::GateVerdict::{Disabled, Fail, FailedToRun, Pass, Pending};
use autocoder::gate_ledger::{ledger_path, GateLedger, GateVerdict};

#[test]
fn fresh_ledger_is_all_pending_and_not_blocking_ok() {
    let l = GateLedger::new();
    assert_eq!(l.in_gate.verdict, GateVerdict::Pending);
    assert_eq!(l.canon.verdict, GateVerdict::Pending);
    assert_eq!(l.out.verdict, GateVerdict::Pending);
    assert!(!l.blocking_ok());
}

#[test]
fn blocking_ok_truth_table() {
    let cases: &[(GateVerdict, GateVerdict, bool)] = &[
        (Pass, Pass, true),
        (Pass, Disabled, true),
        (Disabled, Pass, true),
        (Disabled, Disabled, true),
        (Pass, Pending, false),
        (Pending, Pass, false),
        (Pass, Fail, false),
        (Fail, Pass, false),
        (Pass, FailedToRun, false),
        (FailedToRun, Pass, false),
        (Pending, Pending, false),
        (Fail, Fail, false),
    ];
    for &(in_v, canon_v, expect) in cases {
        let mut l = GateLedger::new();
        l.set_in(in_v, None, None);
        l.set_canon(canon_v, None, None);
        l.set_out(Fail, None, Some("advisory only".into()));
        assert_eq!(
            l.blocking_ok(),
            expect,
            "blocking_ok([in]={in_v:?}, [canon]={canon_v:?}) must be {expect}"
        );
    }
}

#[test]
fn disabled_blocking_gate_proceeds() {
    let mut l = GateLedger::new();
    l.set_in(GateVerdict::Disabled, None, None);
    l.set_canon(GateVerdict::Disabled, None, None);
    assert!(
        l.blocking_ok(),
        "two disabled blocking gates must let the executor proceed"
    );
}

#[test]
fn render_pr_section_names_each_gate_model_and_verdict() {
    let mut l = GateLedger::new();
    l.set_in(GateVerdict::Pass, Some("vendor/model-x".into()), None);
    l.set_canon(GateVerdict::Disabled, None, None);
    l.set_out(
        GateVerdict::Fail,
        Some("vendor/model-y".into()),
        Some("two gaps found".into()),
    );
    let section = l.render_pr_section();
    assert!(section.starts_with("## Gate verdicts"));
    assert!(section.contains("[verifier:in]"), "{section}");
    assert!(section.contains("[verifier:canon]"), "{section}");
    assert!(section.contains("[verifier:out]"), "{section}");
    assert!(section.contains("PASS"), "{section}");
    assert!(section.contains("DISABLED"), "{section}");
    assert!(section.contains("FAIL"), "{section}");
    assert!(section.contains("vendor/model-x"), "{section}");
    assert!(section.contains("vendor/model-y"), "{section}");
    assert!(section.contains("two gaps found"), "{section}");
}

#[test]
fn render_pr_section_pass_is_visible_without_summary() {
    let mut l = GateLedger::new();
    l.set_in(GateVerdict::Pass, Some("m1".into()), None);
    l.set_canon(GateVerdict::Pass, Some("m2".into()), None);
    l.set_out(GateVerdict::Pass, Some("m3".into()), None);
    let section = l.render_pr_section();
    assert_eq!(section.matches("PASS").count(), 3, "{section}");
}

#[test]
fn render_failed_to_run_carries_cause_summary() {
    let mut l = GateLedger::new();
    l.set_in(
        GateVerdict::FailedToRun,
        Some("m".into()),
        Some("session\n  timed out".into()),
    );
    let section = l.render_pr_section();
    assert!(section.contains("FAILED TO RUN"), "{section}");
    assert!(section.contains("session timed out"), "{section}");
}

#[test]
fn the_section_is_exact() {
    let mut l = GateLedger::default();
    l.set_in(GateVerdict::Pass, Some("m".into()), Some("not shown".into()));
    l.set_canon(GateVerdict::Fail, Some("  ".into()), Some(" a\t b\n".into()));
    l.set_out(GateVerdict::FailedToRun, None, Some(" \n".into()));
    assert_eq!(
        l.render_pr_section(),
        "## Gate verdicts\n\n- [verifier:in] PASS — model: m\n- [verifier:canon] FAIL — a b\n- [verifier:out] FAILED TO RUN\n"
    );
}

#[test]
fn verdicts_are_named_and_the_ledger_is_kept_with_git() {
    assert_eq!(GateVerdict::default().as_str(), "PENDING");
    assert_eq!(GateVerdict::Disabled.as_str(), "DISABLED");
    assert_eq!(
        ledger_path("/ws", "my-change"),
        "/ws/.git/autocoder-gate-ledger/my-change.json"
    );
}

#[test]
fn ledgers_do_not_share_a_file() {
    assert_ne!(ledger_path("/ws", "a"), ledger_path("/ws", "b"));
}
