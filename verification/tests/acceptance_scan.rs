use autocoder::executor::acceptance_scan::{
    parse_unchecked_tasks, scan_change_tasks_md, tasks_path,
};

#[test]
fn three_unchecked_four_checked_returns_three_entries() {
    let content = "\
# Tasks

- [ ] 1.1 first unchecked task
- [x] 1.2 first checked
- [ ] 1.3 second unchecked
- [x] 1.4 second checked
- [X] 1.5 capital-X checked (case-insensitive)
- [ ] 1.6 third unchecked
- [x] 1.7 fourth checked
";
    let out = parse_unchecked_tasks(content);
    assert_eq!(out.len(), 3, "expected 3 unchecked, got {out:?}");
    assert_eq!(out[0].trailing_text, "1.1 first unchecked task");
    assert_eq!(out[1].trailing_text, "1.3 second unchecked");
    assert_eq!(out[2].trailing_text, "1.6 third unchecked");
}

#[test]
fn fenced_block_content_is_ignored() {
    let content = "\
# Tasks

- [ ] 1.1 real unchecked

```
- [ ] foo inside fence
- [ ] bar inside fence
```

- [x] 1.2 done
";
    let out = parse_unchecked_tasks(content);
    assert_eq!(out.len(), 1, "fenced unchecked items must not count: {out:?}");
    assert_eq!(out[0].trailing_text, "1.1 real unchecked");
}

#[test]
fn fenced_block_with_only_unchecked_items_returns_zero() {
    let content = "\
# Tasks

```
- [ ] foo
- [ ] bar
- [ ] baz
```
";
    let out = parse_unchecked_tasks(content);
    assert!(out.is_empty(), "fenced-only content must yield zero: {out:?}");
}

#[test]
fn no_checkbox_content_returns_zero() {
    let content = "\
# Tasks

Just narrative text. No checkboxes at all.

1. A numbered item.
2. Another numbered item.
";
    let out = parse_unchecked_tasks(content);
    assert!(out.is_empty(), "non-checkbox content must yield zero: {out:?}");
}

#[test]
fn absent_tasks_md_returns_zero() {
    let out = scan_change_tasks_md(&None);
    assert!(out.is_empty(), "absent tasks.md must yield zero");
}

#[test]
fn unreadable_tasks_md_returns_zero() {
    let out = scan_change_tasks_md(&None);
    assert!(out.is_empty());
}

#[test]
fn nested_checkboxes_count_as_separate() {
    let content = "\
- [ ] 1 parent unchecked
  - [ ] 1a nested unchecked
  - [x] 1b nested checked
- [x] 2 parent checked
";
    let out = parse_unchecked_tasks(content);
    assert_eq!(out.len(), 2);
    assert_eq!(out[0].trailing_text, "1 parent unchecked");
    assert_eq!(out[1].trailing_text, "1a nested unchecked");
}

#[test]
fn line_numbers_track_source() {
    let content = "\
header line 1
header line 2
- [ ] task on line 3
intervening text
- [ ] task on line 5
";
    let out = parse_unchecked_tasks(content);
    assert_eq!(out[0].line_number, 3);
    assert_eq!(out[1].line_number, 5);
}

#[test]
fn trailing_whitespace_trimmed() {
    let content = "- [ ] task with trailing spaces   \n";
    let out = parse_unchecked_tasks(content);
    assert_eq!(out[0].trailing_text, "task with trailing spaces");
}

#[test]
fn tab_indented_unchecked_is_counted() {
    let content = "\t- [ ] tab-indented task\n";
    let out = parse_unchecked_tasks(content);
    assert_eq!(out.len(), 1);
    assert_eq!(out[0].trailing_text, "tab-indented task");
}

#[test]
fn fence_with_info_string_still_toggles() {
    let content = "\
```rust
- [ ] inside rust fence
```

- [ ] outside fence
";
    let out = parse_unchecked_tasks(content);
    assert_eq!(out.len(), 1);
    assert_eq!(out[0].trailing_text, "outside fence");
}

#[test]
fn real_tasks_md_round_trips_through_actual_file() {
    assert_eq!(tasks_path("/ws", "x"), "/ws/openspec/changes/x/tasks.md");
    let out = scan_change_tasks_md(&Some(
        "- [ ] 1.1 alpha\n- [x] 1.2 beta\n- [ ] 1.3 gamma\n".to_string(),
    ));
    assert_eq!(out.len(), 2);
    assert_eq!(out[0].trailing_text, "1.1 alpha");
    assert_eq!(out[1].trailing_text, "1.3 gamma");
}

#[test]
fn a_box_needs_its_space_and_an_indent_of_spaces_or_tabs() {
    assert!(parse_unchecked_tasks("- [ ]no space").is_empty());
    assert!(parse_unchecked_tasks("- [ ]").is_empty());
    assert!(parse_unchecked_tasks("* [ ] other bullet").is_empty());
    assert!(parse_unchecked_tasks("- [-] other mark").is_empty());
    assert!(parse_unchecked_tasks("\u{a0}- [ ] other white space").is_empty());
    let out = parse_unchecked_tasks("- [ ] \r\n- [ ] é");
    assert_eq!(out.len(), 2);
    assert_eq!(out[0].trailing_text, "");
    assert_eq!(out[1].trailing_text, "é");
}

#[test]
fn an_open_fence_hides_the_rest() {
    let out = parse_unchecked_tasks("- [ ] a\n   ```\n- [ ] b\n- [ ] c");
    assert_eq!(out.len(), 1);
    assert_eq!(out[0].line_number, 1);
}
