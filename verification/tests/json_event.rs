use autocoder::executor::json_event::{
    parse_event_line, read_event, AssistantBlock, JsonEvent, ParseError, UserBlock,
};
use autocoder::json::Json;

#[test]
fn assistant_text_block() {
    let line = r#"{"type":"assistant","message":{"content":[{"type":"text","text":"hello"}]}}"#;
    let ev = parse_event_line(line).unwrap();
    match ev {
        JsonEvent::Assistant { content_blocks } => {
            assert_eq!(content_blocks.len(), 1);
            assert_eq!(content_blocks[0], AssistantBlock::Text { text: "hello".into() });
        }
        other => panic!("expected Assistant, got {other:?}"),
    }
}

#[test]
fn assistant_tool_use_block() {
    let line = r#"{"type":"assistant","message":{"content":[{"type":"tool_use","name":"Read","input":{"path":"src/foo.rs"}}]}}"#;
    let ev = parse_event_line(line).unwrap();
    match ev {
        JsonEvent::Assistant { content_blocks } => {
            assert_eq!(content_blocks.len(), 1);
            match &content_blocks[0] {
                AssistantBlock::ToolUse { tool_name, tool_input } => {
                    assert_eq!(tool_name, "Read");
                    assert_eq!(tool_input.get_str("path").as_deref(), Some("src/foo.rs"));
                }
                other => panic!("expected ToolUse, got {other:?}"),
            }
        }
        other => panic!("expected Assistant, got {other:?}"),
    }
}

#[test]
fn user_tool_result_block() {
    let line = r#"{"type":"user","message":{"content":[{"type":"tool_result","tool_use_id":"abc","content":"file contents...","is_error":false}]}}"#;
    let ev = parse_event_line(line).unwrap();
    match ev {
        JsonEvent::User { content_blocks } => {
            assert_eq!(
                content_blocks[0],
                UserBlock::ToolResult {
                    tool_use_id: "abc".into(),
                    content: "file contents...".into(),
                    is_error: false,
                }
            );
        }
        other => panic!("expected User, got {other:?}"),
    }
}

#[test]
fn user_tool_result_with_array_content() {
    let line = r#"{"type":"user","message":{"content":[{"type":"tool_result","tool_use_id":"abc","content":[{"type":"text","text":"line1"},{"type":"text","text":"line2"}],"is_error":false}]}}"#;
    let ev = parse_event_line(line).unwrap();
    match ev {
        JsonEvent::User { content_blocks } => match &content_blocks[0] {
            UserBlock::ToolResult { content, .. } => {
                assert!(content.contains("line1"));
                assert!(content.contains("line2"));
            }
        },
        other => panic!("expected User, got {other:?}"),
    }
}

#[test]
fn a_tool_result_of_another_shape_is_shown_as_json() {
    let line = r#"{"type":"user","message":{"content":[{"type":"tool_result","tool_use_id":"x","content":{"n":1},"is_error":true}]}}"#;
    match parse_event_line(line).unwrap() {
        JsonEvent::User { content_blocks } => assert_eq!(
            content_blocks,
            vec![UserBlock::ToolResult {
                tool_use_id: "x".into(),
                content: "{\"n\":1}".into(),
                is_error: true,
            }]
        ),
        other => panic!("expected User, got {other:?}"),
    }
}

#[test]
fn result_event() {
    let line = r#"{"type":"result","stop_reason":"end_turn","result":"I've fixed the bug..."}"#;
    let ev = parse_event_line(line).unwrap();
    match ev {
        JsonEvent::Result { stop_reason, final_text } => {
            assert_eq!(stop_reason, "end_turn");
            assert_eq!(final_text, "I've fixed the bug...");
        }
        other => panic!("expected Result, got {other:?}"),
    }
}

#[test]
fn unknown_event_type_routes_to_unknown_variant() {
    let line = r#"{"type":"future_event_kind","foo":"bar"}"#;
    let ev = parse_event_line(line).unwrap();
    match ev {
        JsonEvent::Unknown { event_type, raw } => {
            assert_eq!(event_type, "future_event_kind");
            assert_eq!(raw.get_str("foo").as_deref(), Some("bar"));
        }
        other => panic!("expected Unknown, got {other:?}"),
    }
}

#[test]
fn malformed_json_returns_err() {
    let line = "{this is not json";
    let err = parse_event_line(line).expect_err("malformed JSON should error");
    match err {
        ParseError::MalformedJson { .. } => {}
    }
}

#[test]
fn a_malformed_line_is_told_with_its_cause() {
    let line = "{this is not json";
    let err = parse_event_line(line).expect_err("malformed JSON should error");
    let cause = serde_json::from_str::<serde_json::Value>(line)
        .expect_err("no JSON")
        .to_string();
    assert_eq!(err.message(), format!("malformed JSON line: {cause}"));
    let made = ParseError::MalformedJson { underlying: "oops".to_string() };
    assert_eq!(made.message(), "malformed JSON line: oops");
}

#[test]
fn system_event_carries_raw_value() {
    let line = r#"{"type":"system","subtype":"init","session_id":"abc"}"#;
    let ev = parse_event_line(line).unwrap();
    match ev {
        JsonEvent::System { content } => {
            assert_eq!(content.get_str("session_id").as_deref(), Some("abc"));
        }
        other => panic!("expected System, got {other:?}"),
    }
}

#[test]
fn result_event_accepts_subtype_as_stop_reason() {
    let line = r#"{"type":"result","subtype":"success","result":"done"}"#;
    let ev = parse_event_line(line).unwrap();
    match ev {
        JsonEvent::Result { stop_reason, final_text } => {
            assert_eq!(stop_reason, "success");
            assert_eq!(final_text, "done");
        }
        other => panic!("expected Result, got {other:?}"),
    }
}

#[test]
fn values_that_are_no_events_are_unknown() {
    for line in ["null", "[1]", "\"x\"", "{}"] {
        match parse_event_line(line).unwrap() {
            JsonEvent::Unknown { event_type, .. } => assert_eq!(event_type, ""),
            other => panic!("expected Unknown, got {other:?}"),
        }
    }
    assert_eq!(
        read_event(Json::Null),
        JsonEvent::Unknown { event_type: String::new(), raw: Json::Null }
    );
}

#[test]
fn numbers_are_shown_as_serde_json_shows_them() {
    let mut texts: Vec<String> = ["0", "-7", "1.50", "-0", "1e3", "18446744073709551616", "-0.25"]
        .iter()
        .map(|t| t.to_string())
        .collect();
    let mut n: u64 = 88_172_645_463_325_252;
    for _ in 0..2_000 {
        n ^= n << 13;
        n ^= n >> 7;
        n ^= n << 17;
        texts.push(format!("{}.{}e{}", n % 10, n, n % 60));
    }
    for text in texts {
        let line = format!(
            "{{\"type\":\"user\",\"message\":{{\"content\":[{{\"type\":\"tool_result\",\"content\":{{\"n\":{text}}}}}]}}}}"
        );
        let number = serde_json::from_str::<serde_json::Value>(&text).unwrap();
        match parse_event_line(&line).unwrap() {
            JsonEvent::User { content_blocks } => match &content_blocks[0] {
                UserBlock::ToolResult { content, .. } => {
                    assert_eq!(*content, format!("{{\"n\":{number}}}"))
                }
            },
            other => panic!("expected User, got {other:?}"),
        }
    }
}
