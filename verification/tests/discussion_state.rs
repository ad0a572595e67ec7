use autocoder::clock::{Span, Timestamp};
use autocoder::discussion_state::{
    default_state_root, list_states, prune_stale_entries, state_dir, state_path, DiscussionFile,
    DiscussionState, DiscussionStatus,
};
use autocoder::path::DaemonPaths;

const DAY: i64 = 86_400;

fn days(n: i64) -> Span {
    Span { seconds: n * DAY, nanos: 0 }
}

fn at(seconds: i64) -> Timestamp {
    Timestamp { seconds, nanos: 0 }
}

fn fixture_state(thread_ts: &str, last: i64) -> DiscussionState {
    DiscussionState {
        thread_ts: thread_ts.to_string(),
        channel: "C_OPS".to_string(),
        repo_url: "git@github.com:owner/repo.git".to_string(),
        request_id: "00000000-0000-0000-0000-000000000000".to_string(),
        operator_user: "U0RAB".to_string(),
        status: DiscussionStatus::Active,
        session_id: None,
        deferred_slug: None,
        reminded_at: None,
        last_activity_at: at(last),
        created_at: at(last),
    }
}

fn file(name: &str, state: Option<DiscussionState>) -> DiscussionFile {
    DiscussionFile { name: name.to_string(), state }
}

#[test]
fn status_label_round_trips() {
    assert_eq!(DiscussionStatus::Active.label(), "active");
    assert_eq!(DiscussionStatus::Executing.label(), "executing");
    assert_eq!(DiscussionStatus::Completed.label(), "completed");
}

#[test]
fn state_path_lives_under_discussions_subdir() {
    let s = state_path("/var/lib/autocoder", "1700.abc");
    assert!(s.contains("discussions"), "{s}");
    assert!(s.ends_with("1700.abc.json"), "{s}");
    assert_eq!(s, "/var/lib/autocoder/discussions/1700.abc.json");
    assert_eq!(state_dir("/var/lib/autocoder"), "/var/lib/autocoder/discussions");
}

#[test]
fn the_default_root_is_the_state_directory() {
    let paths = DaemonPaths { state: "/s".to_string(), runtime: "/r".to_string() };
    assert_eq!(default_state_root(&paths), "/s");
}

#[test]
fn prune_removes_old_entries_and_keeps_fresh() {
    let now = at(100 * DAY);
    let files = vec![
        file("1700.old.json", Some(fixture_state("1700.old", 85 * DAY))),
        file("1700.young.json", Some(fixture_state("1700.young", 100 * DAY))),
    ];
    let removed = prune_stale_entries(&files, now, days(14));
    assert_eq!(removed.len(), 1);
    assert_eq!(removed, vec!["1700.old.json".to_string()]);
}

#[test]
fn prune_removes_regardless_of_status() {
    let mut stale_completed = fixture_state("1700.done", 80 * DAY);
    stale_completed.status = DiscussionStatus::Completed;
    let files = vec![file("1700.done.json", Some(stale_completed))];
    assert_eq!(prune_stale_entries(&files, at(100 * DAY), days(14)).len(), 1);
}

#[test]
fn prune_on_empty_or_missing_dir_returns_zero() {
    assert_eq!(prune_stale_entries(&Vec::new(), at(100 * DAY), days(14)).len(), 0);
}

#[test]
fn an_entry_goes_only_when_it_is_older_than_the_limit() {
    let now = at(100 * DAY);
    let just = vec![file("a.json", Some(fixture_state("a", 86 * DAY)))];
    assert!(prune_stale_entries(&just, now, days(14)).is_empty());
    let mut state = fixture_state("a", 86 * DAY - 1);
    state.last_activity_at.nanos = 999_999_999;
    let over = vec![file("a.json", Some(state))];
    assert_eq!(prune_stale_entries(&over, now, days(14)).len(), 1);
}

#[test]
fn files_that_are_none_or_cannot_be_read_are_passed_over() {
    let old = 10 * DAY;
    let files = vec![
        file("notes.txt", Some(fixture_state("t", old))),
        file(".json", Some(fixture_state("h", old))),
        file("bad.json", None),
        file("good.json", Some(fixture_state("g", old))),
    ];
    assert_eq!(prune_stale_entries(&files, at(100 * DAY), days(1)), vec!["good.json".to_string()]);
    let states = list_states(files);
    assert_eq!(states.len(), 1);
    assert_eq!(states[0].thread_ts, "g");
}

#[test]
fn list_states_returns_all_written() {
    let files = vec![
        file("1700.a.json", Some(fixture_state("1700.a", DAY))),
        file("1700.b.json", Some(fixture_state("1700.b", DAY))),
    ];
    let got: Vec<String> = list_states(files).into_iter().map(|s| s.thread_ts).collect();
    assert_eq!(got, vec!["1700.a".to_string(), "1700.b".to_string()]);
}

#[test]
fn threads_do_not_share_a_file() {
    assert_eq!(state_path("/state", "17.5"), "/state/discussions/17.5.json");
    assert_ne!(state_path("/state", "17.5"), state_path("/state", "17.50"));
}
