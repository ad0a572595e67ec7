use autocoder::clock::Timestamp;
use autocoder::failure_state::{
    change_file, load, note_failure, prune_orphans, repo_dir, FailureEntry, FailureState, KeptFile,
    StateFile,
};

fn at(seconds: i64) -> Timestamp {
    Timestamp { seconds, nanos: 0 }
}

fn kept(name: &str, change_exists: bool) -> KeptFile {
    KeptFile { name: name.to_string(), change_exists }
}

#[test]
fn load_missing_returns_empty() {
    let state = load(Vec::new());
    assert!(state.entries.is_empty());
}

#[test]
fn record_failure_creates_entry() {
    let mut state = FailureState::new();
    let n = state.record_failure("foo", "first failure", at(5));
    assert_eq!(n, 1);
    let entry = state.get("foo").expect("entry present");
    assert_eq!(entry.count, 1);
    assert_eq!(entry.last_reason, "first failure");
    assert_eq!(entry.last_failed_at, at(5));
}

#[test]
fn record_failure_increments_existing() {
    let mut state = FailureState::new();
    let n1 = state.record_failure("foo", "first", at(1));
    let n2 = state.record_failure("foo", "second", at(2));
    assert_eq!(n1, 1);
    assert_eq!(n2, 2);
    let entry = state.get("foo").expect("entry present");
    assert_eq!(entry.count, 2);
    assert_eq!(entry.last_reason, "second");
}

#[test]
fn the_count_stays_at_its_limit() {
    let full = FailureEntry {
        count: u32::MAX,
        last_reason: "x".to_string(),
        last_failed_at: at(1),
    };
    assert_eq!(note_failure(&Some(full), "y", at(2)).count, u32::MAX);
    assert_eq!(note_failure(&None, "y", at(2)).count, 1);
}

#[test]
fn clear_removes_entry() {
    let mut state = FailureState::new();
    state.record_failure("foo", "x", at(1));
    state.record_failure("bar", "x", at(1));
    state.clear("foo");
    assert!(state.get("foo").is_none());
    assert!(state.get("bar").is_some());
    assert_eq!(state.record_failure("foo", "again", at(3)), 1);
}

#[test]
fn clear_is_idempotent_when_entry_absent() {
    let mut state = FailureState::new();
    state.clear("never-existed");
    state.clear("still-absent");
    assert!(state.entries.is_empty());
}

#[test]
fn prune_orphans_removes_absent_retains_present() {
    let files = vec![
        kept("present.json", true),
        kept("excluded.json", true),
        kept("gone.json", false),
        kept("notes.txt", false),
    ];
    let pruned = prune_orphans(&files);
    assert_eq!(pruned, vec!["gone".to_string()], "only the absent change is pruned");
}

#[test]
fn prune_orphans_missing_dir_is_empty() {
    assert!(prune_orphans(&Vec::new()).is_empty());
}

#[test]
fn corrupt_file_treated_as_empty() {
    let state = load(vec![StateFile { name: "foo.json".to_string(), entry: None }]);
    assert!(state.entries.is_empty(), "corrupt file must be treated as fresh state");
}

#[test]
fn entries_are_loaded_by_the_names_of_their_files() {
    let entry = |count| FailureEntry { count, last_reason: "r".to_string(), last_failed_at: at(1) };
    let state = load(vec![
        StateFile { name: "a.json".to_string(), entry: Some(entry(1)) },
        StateFile { name: "b.txt".to_string(), entry: Some(entry(2)) },
        StateFile { name: "a.json".to_string(), entry: Some(entry(3)) },
    ]);
    assert_eq!(state.entries.len(), 1);
    assert_eq!(state.get("a").unwrap().count, 3);
}

#[test]
fn entries_are_kept_by_workspace() {
    assert_eq!(repo_dir("/state", "/cache/ws/"), "/state/failure-state/ws");
    assert_eq!(repo_dir("/state", "/"), "/state/failure-state/unknown");
    assert_eq!(change_file("/state", "/cache/ws", "c1"), "/state/failure-state/ws/c1.json");
}

#[test]
fn changes_do_not_share_a_file() {
    assert_ne!(change_file("/state", "/ws/repo", "a"), change_file("/state", "/ws/repo", "b"));
    assert_eq!(change_file("/state", "/ws/repo", "a"), "/state/failure-state/repo/a.json");
}

#[test]
fn the_count_is_the_number_of_failures_since_the_last_clear() {
    let mut state = FailureState::default();
    for n in 1..=5 {
        assert_eq!(state.record_failure("foo", "x", at(n.into())), n);
    }
    state.clear("foo");
    assert_eq!(state.record_failure("foo", "again", at(9)), 1);
}
