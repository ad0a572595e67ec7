use autocoder::executor::{not_supported, ExecutorOutcome, OptionalMode};

#[test]
fn aborted_variant_round_trips_through_debug_and_match() {
    let v = ExecutorOutcome::Aborted { reason: "daemon shutdown (SIGTERM cascade)".to_string() };
    let dbg = format!("{v:?}");
    assert!(
        dbg.contains("Aborted") && dbg.contains("daemon shutdown"),
        "Debug must surface variant name AND reason: {dbg}"
    );
    let other = ExecutorOutcome::Aborted { reason: "daemon shutdown (SIGTERM cascade)".to_string() };
    assert_eq!(v, other, "Aborted must compare equal by reason");
    let failed = ExecutorOutcome::Failed { reason: "daemon shutdown (SIGTERM cascade)".to_string() };
    assert_ne!(
        v, failed,
        "Aborted must NOT equal Failed even when reason matches — distinct variants"
    );
    let reason = match v {
        ExecutorOutcome::Aborted { reason } => reason,
        other => panic!("expected Aborted; got {other:?}"),
    };
    assert_eq!(reason, "daemon shutdown (SIGTERM cascade)");
}

#[test]
fn modes_that_are_not_supported_fail() {
    for (mode, name) in [
        (OptionalMode::Triage, "triage mode"),
        (OptionalMode::ChatTriage, "chat-triage mode"),
        (OptionalMode::BrownfieldDraft, "brownfield-draft mode"),
        (OptionalMode::Scout, "scout mode"),
        (OptionalMode::Changelog, "changelog stylist"),
        (OptionalMode::Issue, "issue mode"),
        (OptionalMode::IssueTriage, "issue-triage mode"),
    ] {
        assert_eq!(
            not_supported(mode),
            ExecutorOutcome::Failed {
                reason: format!("{name} not supported by this executor backend")
            }
        );
    }
}
