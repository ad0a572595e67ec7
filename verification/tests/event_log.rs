use autocoder::executor::event_log::{
    extract_final_answer, open, read_final_answer, stream_path_for, ActionKind,
    StructuredLogWriter,
};

/// The files of a log, written as they would be on disk.
struct Files {
    writer: StructuredLogWriter,
    summary: Vec<u8>,
    stream: String,
}

impl Files {
    fn new() -> Files {
        let mut files = Files { writer: open("/logs/run.log"), summary: Vec::new(), stream: String::new() };
        files.prompt("p");
        files
    }

    fn prompt(&mut self, prompt: &str) {
        self.summary = self.writer.write_prompt(prompt).into_bytes();
    }

    fn action(&mut self, kind: ActionKind, content: &str) {
        self.stream.push_str(&self.writer.append_action(&kind, content));
    }

    fn finalize(&mut self) {
        self.summary.extend(self.writer.finalize());
        self.writer.close();
    }

    fn text(&self) -> String {
        String::from_utf8(self.summary.clone()).unwrap()
    }

    fn read(&self) -> Option<String> {
        read_final_answer(&Some(self.text()))
    }
}

#[test]
fn write_prompt_then_actions_then_finalize_produces_all_sections() {
    let mut f = Files::new();
    f.prompt("PROMPT_CONTENT");
    f.action(ActionKind::ToolUse, "Read autocoder/src/foo.rs");
    f.action(ActionKind::ToolResult, "(123 bytes returned)");
    f.action(ActionKind::Assistant, "I'm looking at the file.");
    f.writer.set_final_answer("All done — implemented the change.".to_string());
    f.finalize();

    let summary = f.text();
    let prompt_idx = summary.find("=== PROMPT (").expect("PROMPT header");
    let actions_idx = summary.find("=== ACTIONS (see ").expect("ACTIONS pointer line");
    let final_idx = summary.find("=== FINAL ANSWER (").expect("FINAL ANSWER header");
    let stderr_idx = summary.find("=== STDERR (").expect("STDERR header");
    assert!(prompt_idx < actions_idx);
    assert!(actions_idx < final_idx);
    assert!(final_idx < stderr_idx);
    assert!(summary.contains("PROMPT_CONTENT"));
    assert!(summary.contains("All done — implemented the change."));
    assert!(!summary.contains("[tool_use]"), "summary log must NOT contain action stream content");
    assert!(!summary.contains("[tool_result]"), "summary log must NOT contain action stream content");
    assert!(!summary.contains("[assistant]"), "summary log must NOT contain action stream content");
    assert!(summary.contains("=== ACTIONS (see run.stream.log) ==="));

    assert!(f.stream.contains("[tool_use] Read autocoder/src/foo.rs"));
    assert!(f.stream.contains("[tool_result] (123 bytes returned)"));
    assert!(f.stream.contains("[assistant] I'm looking at the file."));
    assert!(!f.stream.contains("=== PROMPT"));
    assert!(!f.stream.contains("=== ACTIONS"));
    assert!(!f.stream.contains("=== FINAL ANSWER"));
    assert!(!f.stream.contains("=== STDERR"));
}

#[test]
fn the_summary_is_exact() {
    let mut f = Files::new();
    f.prompt("é\n");
    f.writer.append_stderr(b"oops");
    f.writer.set_final_answer("ok".to_string());
    f.finalize();
    assert_eq!(
        f.text(),
        "=== PROMPT (3 bytes) ===\né\n\n=== ACTIONS (see run.stream.log) ===\n\n=== FINAL ANSWER (2 bytes) ===\nok\n\n=== STDERR (4 bytes) ===\noops\n"
    );
}

#[test]
fn final_answer_returned_post_finalize() {
    let mut f = Files::new();
    f.writer.set_final_answer("the answer".to_string());
    f.finalize();
    assert_eq!(f.writer.final_answer().as_deref(), Some("the answer"));
}

#[test]
fn timeout_case_writes_empty_final_answer_section() {
    let mut f = Files::new();
    f.action(ActionKind::ToolUse, "Read foo");
    f.finalize();
    assert!(f.writer.final_answer().is_none());
    let summary = f.text();
    assert!(summary.contains("=== FINAL ANSWER (0 bytes) ==="));
    assert!(!summary.contains("[tool_use]"), "summary log must NOT carry action content");
    assert!(f.stream.contains("[tool_use] Read foo"));
}

#[test]
fn zero_action_run_creates_both_files_with_empty_stream() {
    let mut f = Files::new();
    f.writer.set_final_answer("Quick reply with no tool calls.".to_string());
    f.finalize();
    let summary = f.text();
    assert!(summary.contains("=== ACTIONS (see run.stream.log) ==="));
    assert!(summary.contains("Quick reply with no tool calls."));
    assert!(f.stream.is_empty(), "zero-action stream log must be empty");
}

#[test]
fn stream_path_for_replaces_log_extension() {
    assert_eq!(
        stream_path_for("/logs/runs/foo/my-change.log"),
        "/logs/runs/foo/my-change.stream.log"
    );
}

#[test]
fn stream_path_for_handles_non_log_extension() {
    assert_eq!(
        stream_path_for("/logs/runs/foo/odd-name.txt"),
        "/logs/runs/foo/odd-name.stream.log"
    );
}

#[test]
fn stream_paths_of_odd_names() {
    assert_eq!(stream_path_for("plain"), "plain.stream.log");
    assert_eq!(stream_path_for("/.log"), "/.log.stream.log");
    assert_eq!(stream_path_for("a/b.c.log"), "a/b.c.stream.log");
    assert_eq!(stream_path_for("/"), "stream.stream.log");
    assert_eq!(stream_path_for("a/.."), "a/stream.stream.log");
}

#[test]
fn unknown_kind_uses_event_type_in_prefix() {
    let mut f = Files::new();
    f.action(ActionKind::Unknown("future_kind".to_string()), "{\"foo\":1}");
    f.finalize();
    assert!(f.stream.contains("[unknown:future_kind] {\"foo\":1}"));
}

#[test]
fn raw_kind_uses_raw_prefix() {
    let mut f = Files::new();
    f.action(ActionKind::Raw, "malformed line content");
    f.finalize();
    assert!(f.stream.contains("[raw] malformed line content"));
}

#[test]
fn stderr_bytes_land_in_stderr_section() {
    let mut f = Files::new();
    f.writer.append_stderr(b"first line\n");
    f.writer.append_stderr(b"second line\n");
    f.finalize();
    let body = f.text();
    assert!(body.contains("=== STDERR ("));
    assert!(body.contains("first line"));
    assert!(body.contains("second line"));
}

#[test]
fn finalize_is_idempotent() {
    let mut f = Files::new();
    f.finalize();
    f.finalize();
    let count = f.text().matches("=== FINAL ANSWER (").count();
    assert_eq!(count, 1, "finalize must not double-write sections");
}

#[test]
fn read_final_answer_extracts_section() {
    let mut f = Files::new();
    f.writer.set_final_answer("the conversational summary".to_string());
    f.finalize();
    assert_eq!(f.read().unwrap(), "the conversational summary");
}

#[test]
fn read_final_answer_returns_none_when_section_empty() {
    let mut f = Files::new();
    f.finalize();
    assert!(f.read().is_none());
}

#[test]
fn read_final_answer_returns_none_when_section_missing() {
    assert!(read_final_answer(&Some(
        "=== PROMPT (3 bytes) ===\nabc\n=== STDOUT (5 bytes) ===\nhello\n=== STDERR (0 bytes) ===\n"
            .to_string()
    ))
    .is_none());
    assert!(read_final_answer(&None).is_none());
}

#[test]
fn read_final_answer_handles_multi_paragraph_content() {
    let mut f = Files::new();
    f.writer.set_final_answer("first paragraph\n\nsecond paragraph".to_string());
    f.finalize();
    let read = f.read().unwrap();
    assert!(read.contains("first paragraph"));
    assert!(read.contains("second paragraph"));
    assert!(!read.contains("STDERR"));
}

#[test]
fn answers_with_new_lines_or_heads_are_cut() {
    assert_eq!(extract_final_answer("=== FINAL ANSWER (x\na\n\n\n"), Some("a".to_string()));
    assert_eq!(extract_final_answer("=== FINAL ANSWER (x\na\n=== b"), Some("a".to_string()));
    assert_eq!(extract_final_answer("=== FINAL ANSWER (x"), None);
    assert_eq!(
        extract_final_answer("=== FINAL ANSWER (0 bytes) ===\n=== STDERR (0 bytes) ===\n"),
        None
    );
    assert_eq!(extract_final_answer("=== FINAL ANSWER (x\n==="), Some("===".to_string()));
}

#[test]
fn the_session_is_kept() {
    let mut w = open("x.log");
    assert!(w.session_id().is_none());
    w.set_session_id("s-1".to_string());
    assert_eq!(w.session_id().as_deref(), Some("s-1"));
    assert_eq!(w.path(), "x.log");
    assert_eq!(w.stream_path(), "x.stream.log");
}
