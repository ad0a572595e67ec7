use autocoder::control_socket::sessions::{
    handle_consume_outcome, handle_consume_submission, handle_query_canonical_specs,
    handle_record_outcome, handle_record_submission, Deposits, SpecAnswer, SpecQuery,
};
use autocoder::json::Json;

/// The value that a text holds.
fn json(text: &str) -> Json {
    fn convert(value: serde_json::Value) -> Json {
        match value {
            serde_json::Value::Null => Json::Null,
            serde_json::Value::Bool(b) => Json::Bool(b),
            serde_json::Value::Number(n) => Json::Uint(n.as_u64().unwrap()),
            serde_json::Value::String(s) => Json::Str(s),
            serde_json::Value::Array(a) => Json::Array(a.into_iter().map(convert).collect()),
            serde_json::Value::Object(o) => {
                Json::Object(o.into_iter().map(|(k, v)| (k, convert(v))).collect())
            }
        }
    }
    convert(serde_json::from_str(text).unwrap())
}

fn text(reply: &Json, key: &str) -> String {
    reply.get_str(key).unwrap_or_else(|| panic!("no `{key}` in {reply:?}"))
}

/// Records an outcome that has the fields of its type.
fn record(store: &mut Deposits, request: &str) -> Json {
    let parsed = json(request);
    let shape = parsed.get("outcome").map(|o| o.copy()).unwrap_or(Json::Null);
    handle_record_outcome(&parsed, Ok(shape), store)
}

const CONSUME: &str = r#"{"workspace_basename":"my-repo","change":"a30-foo"}"#;

#[test]
fn record_outcome_then_consume_outcome_round_trips_success() {
    let mut store = Deposits::new();
    let resp = record(&mut store, r#"{"action":"record_outcome","workspace_basename":"my-repo","change":"a30-foo","outcome":{"type":"success","final_answer":"done"}}"#);
    assert_eq!(resp.get_bool("ok"), Some(true));
    let resp = handle_consume_outcome(&json(CONSUME), &mut store);
    assert_eq!(resp.get_bool("ok"), Some(true));
    let outcome = resp.get("outcome").unwrap();
    assert_eq!(text(outcome, "type"), "success");
    assert_eq!(text(outcome, "final_answer"), "done");
    let again = handle_consume_outcome(&json(CONSUME), &mut store);
    assert_eq!(again.get_bool("ok"), Some(true));
    assert_eq!(again.get("outcome"), Some(&Json::Null));
}

#[test]
fn record_outcome_round_trips_spec_needs_revision_payload() {
    let mut store = Deposits::new();
    let resp = record(&mut store, r#"{"action":"record_outcome","workspace_basename":"my-repo","change":"a30-foo","outcome":{"type":"spec_needs_revision","unimplementable_tasks":[{"task_id":"6.4","task_text":"Manual: SSH...","reason":"no SSH access"}],"revision_suggestion":"Replace 6.4 with a mocked unit test"}}"#);
    assert_eq!(resp.get_bool("ok"), Some(true));
    let resp = handle_consume_outcome(&json(CONSUME), &mut store);
    let outcome = resp.get("outcome").unwrap();
    assert_eq!(text(outcome, "type"), "spec_needs_revision");
    assert_eq!(text(outcome, "revision_suggestion"), "Replace 6.4 with a mocked unit test");
    assert_eq!(text(&outcome.get_array("unimplementable_tasks").unwrap()[0], "task_id"), "6.4");
}

#[test]
fn record_outcome_replaces_prior_entry_for_same_key() {
    let mut store = Deposits::new();
    record(&mut store, r#"{"action":"record_outcome","workspace_basename":"my-repo","change":"a30-foo","outcome":{"type":"success","final_answer":"first"}}"#);
    record(&mut store, r#"{"action":"record_outcome","workspace_basename":"my-repo","change":"a30-foo","outcome":{"type":"spec_needs_revision","unimplementable_tasks":[{"task_id":"1","task_text":"t","reason":"r"}],"revision_suggestion":"s"}}"#);
    let resp = handle_consume_outcome(&json(CONSUME), &mut store);
    assert_eq!(text(resp.get("outcome").unwrap(), "type"), "spec_needs_revision");
}

#[test]
fn consume_outcome_unknown_key_returns_null() {
    let mut store = Deposits::new();
    let resp =
        handle_consume_outcome(&json(r#"{"workspace_basename":"x","change":"y"}"#), &mut store);
    assert_eq!(resp.get_bool("ok"), Some(true));
    assert_eq!(resp.get("outcome"), Some(&Json::Null));
}

#[test]
fn record_outcome_with_unknown_variant_tag_returns_structured_error() {
    let mut store = Deposits::new();
    let resp = record(&mut store, r#"{"action":"record_outcome","workspace_basename":"x","change":"y","outcome":{"type":"unknown_variant","data":{}}}"#);
    assert_eq!(resp.get_bool("ok"), Some(false));
    assert_eq!(text(&resp, "error"), "unknown outcome variant tag `unknown_variant`");
    let untagged = record(
        &mut store,
        r#"{"workspace_basename":"x","change":"y","outcome":{"type":1}}"#,
    );
    assert_eq!(
        text(&untagged, "error"),
        "outcome is missing required string `type` discriminator"
    );
}

#[test]
fn record_outcome_with_missing_outcome_field_returns_error() {
    let mut store = Deposits::new();
    let resp = record(&mut store, r#"{"action":"record_outcome","workspace_basename":"x","change":"y"}"#);
    assert_eq!(resp.get_bool("ok"), Some(false));
    assert_eq!(text(&resp, "error"), "missing `outcome` field");
    assert_eq!(text(&record(&mut store, "{}"), "error"), "missing `workspace_basename` field");
    assert_eq!(
        text(&record(&mut store, r#"{"workspace_basename":"x"}"#), "error"),
        "missing `change` field"
    );
}

#[test]
fn an_outcome_of_another_shape_is_refused() {
    let mut store = Deposits::new();
    let parsed = json(r#"{"workspace_basename":"my-repo","change":"a30-foo","outcome":{"type":"success"}}"#);
    let resp =
        handle_record_outcome(&parsed, Err("missing field `final_answer`".into()), &mut store);
    assert_eq!(
        text(&resp, "error"),
        "malformed outcome payload: missing field `final_answer`"
    );
    let taken = handle_consume_outcome(&json(CONSUME), &mut store);
    assert_eq!(taken.get("outcome"), Some(&Json::Null));
}

#[test]
fn record_outcome_round_trips_iteration_request_payload() {
    let mut store = Deposits::new();
    let resp = record(&mut store, r#"{"action":"record_outcome","workspace_basename":"my-repo","change":"a30-foo","outcome":{"type":"iteration_request","completed_tasks":["1","2"],"remaining_tasks":["3"],"reason":"task 3 needs a refactor I want to plan more carefully"}}"#);
    assert_eq!(resp.get_bool("ok"), Some(true));
    let resp = handle_consume_outcome(&json(CONSUME), &mut store);
    assert_eq!(resp.get_bool("ok"), Some(true));
    let outcome = resp.get("outcome").unwrap();
    assert_eq!(text(outcome, "type"), "iteration_request");
    assert_eq!(
        outcome.get_array("completed_tasks").unwrap(),
        &vec![Json::Str("1".into()), Json::Str("2".into())]
    );
    assert_eq!(outcome.get_array("remaining_tasks").unwrap()[0], Json::Str("3".into()));
    assert_eq!(text(outcome, "reason"), "task 3 needs a refactor I want to plan more carefully");
}

#[test]
fn outcome_store_keys_do_not_collide_across_repos() {
    let mut store = Deposits::new();
    record(&mut store, r#"{"action":"record_outcome","workspace_basename":"repo-a","change":"a30-foo","outcome":{"type":"success","final_answer":"A"}}"#);
    record(&mut store, r#"{"action":"record_outcome","workspace_basename":"repo-b","change":"a30-foo","outcome":{"type":"success","final_answer":"B"}}"#);
    for (repo, answer) in [("repo-a", "A"), ("repo-b", "B")] {
        let request = json(&format!(r#"{{"workspace_basename":"{repo}","change":"a30-foo"}}"#));
        let resp = handle_consume_outcome(&request, &mut store);
        assert_eq!(text(resp.get("outcome").unwrap(), "final_answer"), answer);
    }
}

#[test]
fn record_submission_then_consume_round_trips_and_clears() {
    let mut store = Deposits::new();
    let rec = json(r#"{"action":"record_submission","workspace_basename":"repo","change":"a56-foo","role":"critic","payload":{"verdict":"approve","notes":"ok"}}"#);
    let resp = handle_record_submission(&rec, Ok(()), &mut store);
    assert_eq!(resp.get_bool("ok"), Some(true));
    let con = json(r#"{"action":"consume_submission","workspace_basename":"repo","change":"a56-foo"}"#);
    let resp = handle_consume_submission(&con, &mut store);
    assert_eq!(resp.get_bool("ok"), Some(true));
    let submission = resp.get("submission").unwrap();
    assert_eq!(text(submission, "verdict"), "approve");
    assert_eq!(text(submission, "notes"), "ok");
    let again = handle_consume_submission(&con, &mut store);
    assert_eq!(again.get_bool("ok"), Some(true));
    assert_eq!(again.get("submission"), Some(&Json::Null));
}

#[test]
fn consume_submission_with_no_entry_is_empty_not_error() {
    let mut store = Deposits::new();
    let con = json(r#"{"action":"consume_submission","workspace_basename":"repo","change":"never"}"#);
    let resp = handle_consume_submission(&con, &mut store);
    assert_eq!(resp.get_bool("ok"), Some(true));
    assert_eq!(resp.get("submission"), Some(&Json::Null));
}

#[test]
fn record_submission_rejects_schema_invalid_payload() {
    let mut store = Deposits::new();
    let rec = json(r#"{"action":"record_submission","workspace_basename":"repo","change":"a56-foo","role":"critic","payload":{"verdict":""}}"#);
    let resp = handle_record_submission(
        &rec,
        Err("verdict must be a non-empty string".to_string()),
        &mut store,
    );
    assert_eq!(resp.get_bool("ok"), Some(false));
    assert!(text(&resp, "error").contains("verdict"));
    let con = json(r#"{"action":"consume_submission","workspace_basename":"repo","change":"a56-foo"}"#);
    assert_eq!(handle_consume_submission(&con, &mut store).get("submission"), Some(&Json::Null));
}

#[test]
fn submissions_must_be_complete() {
    let mut store = Deposits::new();
    for (request, why) in [
        ("{}", "missing `workspace_basename` field"),
        (r#"{"workspace_basename":"w"}"#, "missing `change` field"),
        (r#"{"workspace_basename":"w","change":"c"}"#, "missing `role` field"),
        (r#"{"workspace_basename":"w","change":"c","role":"r"}"#, "missing `payload` field"),
    ] {
        let resp = handle_record_submission(&json(request), Ok(()), &mut store);
        assert_eq!(text(&resp, "error"), why);
    }
    let lacking = handle_consume_submission(&json("{}"), &mut store);
    assert_eq!(text(&lacking, "error"), "missing `workspace_basename` field");
}

#[test]
fn questions_fail_open() {
    let hint = |answer| {
        let resp = handle_query_canonical_specs(answer);
        assert_eq!(resp.get_bool("ok"), Some(true));
        assert!(resp.get_array("hits").unwrap().is_empty());
        text(&resp, "error_hint")
    };
    assert_eq!(hint(SpecAnswer::Inactive), "rag disabled in config");
    assert_eq!(hint(SpecAnswer::NoStore), "rag init failed; see daemon log");
    assert_eq!(hint(SpecAnswer::Failed("timeout".into())), "query failed: timeout");
    let hits = handle_query_canonical_specs(SpecAnswer::Hits(vec![Json::Uint(3)]));
    assert_eq!(hits.get_array("hits").unwrap(), &vec![Json::Uint(3)]);
    assert_eq!(hits.get("error_hint"), None);
}

#[test]
fn questions_must_be_complete() {
    let q = SpecQuery::read(&json(r#"{"workspace_basename":"w","query":"q","top_k":4}"#)).unwrap();
    assert_eq!((q.workspace_basename.as_str(), q.query.as_str(), q.top_k), ("w", "q", Some(4)));
    assert_eq!(
        text(&SpecQuery::read(&json("{}")).unwrap_err(), "error"),
        "missing required field: workspace_basename (missing `workspace_basename` field)"
    );
    assert_eq!(
        text(&SpecQuery::read(&json(r#"{"workspace_basename":"w"}"#)).unwrap_err(), "error"),
        "missing required field: query (missing `query` field)"
    );
}
