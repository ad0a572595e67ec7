use autocoder::clock::Timestamp;
use autocoder::ignore_for_queue::{
    default_operator_action, default_reason, marker_path, write_marker, SpecRoot,
};

fn root() -> SpecRoot {
    SpecRoot { dir: "/ws/openspec".to_string() }
}

#[test]
fn write_marker_errors_when_change_directory_absent() {
    let now = Timestamp { seconds: 1, nanos: 0 };
    let msg = write_marker(&root(), "missing", "U", false, now)
        .expect_err("write_marker should fail when change dir is absent");
    assert!(
        msg.contains("change directory does not exist"),
        "error must mention missing change dir: {msg}"
    );
    assert_eq!(msg, "change directory does not exist: /ws/openspec/changes/missing");
}

#[test]
fn round_trip_marker_struct() {
    let now = Timestamp { seconds: 77, nanos: 5 };
    let m = write_marker(&root(), "foo", "U_OP_42", true, now).unwrap();
    assert_eq!(m.change, "foo");
    assert_eq!(m.marked_by, "U_OP_42");
    assert_eq!(m.marked_at, now);
    assert_eq!(m.reason, default_reason());
    assert_eq!(m.operator_action, default_operator_action());
}

#[test]
fn defaults_say_what_to_do() {
    assert_eq!(default_reason(), "operator-driven skip; original marker(s) preserved");
    assert!(default_operator_action().contains("clear-ignore"));
}

#[test]
fn the_marker_is_in_the_directory_of_its_change() {
    assert_eq!(marker_path(&root(), "foo"), "/ws/openspec/changes/foo/.ignore-for-queue.json");
}
