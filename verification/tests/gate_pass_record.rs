use autocoder::clock::Timestamp;
use autocoder::gate_pass_record::{
    compute_inputs_hash, gate_pass_dir, gate_pass_path, hash_matches, is_excluded, is_recorded,
    new_record, GatePassRecord, TreeFile,
};

fn file(path: &str, body: &str) -> TreeFile {
    let name = path.rsplit('/').next().unwrap();
    TreeFile {
        name: Some(name.to_string()),
        path: path.to_string(),
        bytes: Ok(body.as_bytes().to_vec()),
    }
}

fn record(hash: &str) -> Option<GatePassRecord> {
    Some(GatePassRecord { inputs_hash: hash.to_string(), recorded_at: "now".to_string() })
}

const MARKERS: [&str; 7] = [
    ".in-progress",
    ".question.json",
    ".answer.json",
    ".needs-spec-revision.json",
    ".perma-stuck.json",
    ".priority.json",
    ".ignore-for-queue.json",
];

#[test]
fn hash_is_stable_and_sensitive_to_content() {
    let files = || {
        vec![
            file("proposal.md", "## Why\nx\n"),
            file("specs/cap/delta.md", "## ADDED\n### Requirement: A\n"),
        ]
    };
    let h1 = compute_inputs_hash(&files()).unwrap();
    assert_eq!(h1, compute_inputs_hash(&files()).unwrap());
    let mut edited = files();
    edited[1] = file("specs/cap/delta.md", "## ADDED\n### Requirement: B\n");
    assert_ne!(h1, compute_inputs_hash(&edited).unwrap());
    assert_eq!(h1.len(), 64);
    assert!(h1.chars().all(|c| matches!(c, '0'..='9' | 'a'..='f')));
}

#[test]
fn the_hash_is_that_of_the_framed_inputs() {
    assert_eq!(
        compute_inputs_hash(&Vec::new()).unwrap(),
        "e3b0c44298fc1c149afbf4c8996fb92427ae41e4649b934ca495991b7852b855"
    );
    let mut framed = b"a\0".to_vec();
    framed.extend(2u64.to_le_bytes());
    framed.extend(b"xy");
    framed.extend(b"b/c\0");
    framed.extend(0u64.to_le_bytes());
    let digest = ring::digest::digest(&ring::digest::SHA256, &framed);
    let hex: String = digest.as_ref().iter().map(|b| format!("{b:02x}")).collect();
    let files = vec![file("b\\c", ""), file("a", "xy")];
    assert_eq!(compute_inputs_hash(&files).unwrap(), hex);
}

#[test]
fn the_order_of_the_listing_does_not_matter() {
    let a = vec![file("a", "1"), file("b", "2"), file("B", "3")];
    let b = vec![file("b", "2"), file("B", "3"), file("a", "1")];
    assert_eq!(compute_inputs_hash(&a), compute_inputs_hash(&b));
}

#[test]
fn inputs_cannot_be_shifted_into_each_other() {
    let a = vec![file("a", "bc")];
    let b = vec![file("ab", "c")];
    let c = vec![file("a", "b"), file("c", "")];
    assert_ne!(compute_inputs_hash(&a), compute_inputs_hash(&b));
    assert_ne!(compute_inputs_hash(&a), compute_inputs_hash(&c));
}

#[test]
fn excluded_markers_do_not_affect_the_hash() {
    let mut files = vec![file("proposal.md", "## Why\nx\n")];
    let before = compute_inputs_hash(&files).unwrap();
    for m in MARKERS {
        assert!(is_excluded(&Some(m.to_string())));
        files.push(file(m, "daemon bookkeeping"));
    }
    files.push(TreeFile {
        name: Some(".answer.json".to_string()),
        path: "deep/.answer.json".to_string(),
        bytes: Err("unread".to_string()),
    });
    assert_eq!(
        before,
        compute_inputs_hash(&files).unwrap(),
        "excluded daemon markers must not take part in the hash"
    );
    assert!(!is_excluded(&None));
    assert!(!is_excluded(&Some("proposal.md".to_string())));
}

#[test]
fn an_input_that_cannot_be_read_is_an_error() {
    let files = vec![
        file("a", "1"),
        TreeFile { name: None, path: "b".to_string(), bytes: Err("first".to_string()) },
        TreeFile { name: None, path: "c".to_string(), bytes: Err("second".to_string()) },
    ];
    assert_eq!(compute_inputs_hash(&files), Err("first".to_string()));
    assert!(!hash_matches(&record("x"), &Ok(files)));
}

#[test]
fn hash_matches_only_on_exact_inputs() {
    let files = vec![file("proposal.md", "## Why\nx\n")];
    let h = compute_inputs_hash(&files).unwrap();
    assert!(hash_matches(&record(&h), &Ok(files)), "unchanged inputs match");
    let edited = vec![file("proposal.md", "## Why\nedited\n")];
    assert!(!hash_matches(&record(&h), &Ok(edited)), "edited inputs mismatch");
}

#[test]
fn hash_matches_false_when_no_record() {
    let files = vec![file("proposal.md", "## Why\nx\n")];
    assert!(!hash_matches(&None, &Ok(files)));
}

#[test]
fn hash_of_missing_dir_is_err() {
    assert!(!hash_matches(&record("x"), &Err("reading nope".to_string())));
    assert!(!is_recorded(&record("x"), &Err("reading nope".to_string())));
    assert!(is_recorded(&record("x"), &Ok("x".to_string())));
    assert!(!is_recorded(&record("x"), &Ok("y".to_string())));
}

#[test]
fn records_tell_when_they_were_made() {
    let r = new_record("deadbeef", Timestamp { seconds: 1_700_000_000, nanos: 0 }).unwrap();
    assert_eq!(r.inputs_hash, "deadbeef");
    assert_eq!(r.recorded_at, "2023-11-14T22:13:20+00:00");
    assert!(new_record("x", Timestamp { seconds: i64::MAX, nanos: 0 }).is_none());
}

#[test]
fn records_are_kept_by_workspace_and_change() {
    assert_eq!(gate_pass_dir("/state", "ws"), "/state/gate-pass/ws");
    assert_eq!(gate_pass_path("/state", "ws", "c1"), "/state/gate-pass/ws/c1.json");
}

#[test]
fn hash_matches_false_on_unreadable_record() {
    let files = Ok(vec![file("proposal.md", "## Why\nx\n")]);
    let unreadable: Option<GatePassRecord> = None;
    assert!(!hash_matches(&unreadable, &files));
}

#[test]
fn records_do_not_share_a_file() {
    assert_ne!(gate_pass_path("/state", "ws", "a"), gate_pass_path("/state", "ws", "b"));
}
