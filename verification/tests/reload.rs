use autocoder::control_socket::reload::{
    check_reload, handle_reload, next_snapshot, plan_repository_changes, NewRepository, RepositoriesDelta,
    SectionText, SectionTexts, SpawnOutcome, TaskSnapshot,
};
use autocoder::json::Json;

fn same() -> SectionText {
    SectionText { current: "a: 1".into(), new: "a: 1".into() }
}

fn other() -> SectionText {
    SectionText { current: "a: 1".into(), new: "a: 2".into() }
}

fn sections() -> SectionTexts {
    SectionTexts {
        reviewer_key: "critic".into(),
        github: same(),
        reviewer: same(),
        chatops: same(),
        cache: same(),
        executor: same(),
    }
}

fn nothing() -> RepositoriesDelta {
    RepositoriesDelta { added: vec![], removed: vec![], changed: vec![] }
}

fn list(resp: &Json, key: &str) -> Vec<String> {
    resp.get_array(key)
        .unwrap_or_else(|| panic!("no `{key}` in {resp:?}"))
        .iter()
        .map(|v| match v {
            Json::Str(s) => s.clone(),
            other => panic!("{other:?}"),
        })
        .collect()
}

fn delta(resp: &Json, key: &str) -> Vec<String> {
    list(resp.get("repositories_delta").unwrap(), key)
}

fn task(url: &str, config: &str) -> TaskSnapshot {
    TaskSnapshot { url: url.into(), cancelled: false, config: config.into() }
}

fn new(url: &str, config: &str) -> NewRepository {
    NewRepository { url: url.into(), config: config.into() }
}

/// Takes a configuration over where every task does as it is told.
fn reload(tasks: Vec<TaskSnapshot>, repos: Vec<NewRepository>) -> Json {
    let plan = plan_repository_changes(&tasks, &repos);
    let changes = RepositoriesDelta::of(
        &plan,
        &vec![true; plan.cancel.len()],
        &vec![true; plan.swap.len()],
        &vec![SpawnOutcome::Spawned; plan.spawn.len()],
    );
    handle_reload(&sections(), &Ok(()), &Ok(()), &changes)
}

#[test]
fn reload_with_no_changes_responds_unchanged() {
    let resp = reload(vec![task("r", "c")], vec![new("r", "c")]);
    assert_eq!(resp.get_bool("ok"), Some(true));
    assert!(list(&resp, "applied").is_empty());
    assert!(list(&resp, "requires_restart").is_empty());
    assert_eq!(
        list(&resp, "unchanged"),
        vec!["github", "critic", "chatops", "cache", "repositories", "executor"]
    );
    assert_eq!(resp.get("section_errors"), None);
}

#[test]
fn reload_applies_cache_cap_change() {
    let texts = SectionTexts { cache: other(), ..sections() };
    let resp = handle_reload(&texts, &Ok(()), &Ok(()), &nothing());
    assert_eq!(resp.get_bool("ok"), Some(true));
    assert_eq!(list(&resp, "applied"), vec!["cache"]);
}

#[test]
fn reload_applies_github_changes() {
    let texts = SectionTexts { github: other(), ..sections() };
    let resp = handle_reload(&texts, &Ok(()), &Ok(()), &nothing());
    assert_eq!(resp.get_bool("ok"), Some(true));
    assert_eq!(list(&resp, "applied"), vec!["github"]);
}

#[test]
fn reload_applies_reviewer_mode_change() {
    let reviewer = SectionText {
        current: "enabled: true".into(),
        new: "enabled: true\nmode: per_change\nprompt_budget_chars: 4000000".into(),
    };
    let texts = SectionTexts { reviewer, ..sections() };
    let resp = handle_reload(&texts, &Ok(()), &Ok(()), &nothing());
    assert_eq!(resp.get_bool("ok"), Some(true));
    assert_eq!(list(&resp, "applied"), vec!["critic"]);
    let left = next_snapshot(&texts, &Ok(()), &Ok(()));
    assert_eq!(left.reviewer, texts.reviewer.new);
}

#[test]
fn a_section_that_failed_is_tried_again() {
    let texts = SectionTexts { reviewer: other(), chatops: other(), ..sections() };
    let left = next_snapshot(&texts, &Err("no key".into()), &Ok(()));
    assert_eq!((left.reviewer.as_str(), left.chatops.as_str()), ("a: 1", "a: 2"));
    let again = SectionTexts {
        reviewer: SectionText { current: left.reviewer, new: texts.reviewer.new },
        chatops: SectionText { current: left.chatops, new: texts.chatops.new },
        ..sections()
    };
    let resp = handle_reload(&again, &Ok(()), &Ok(()), &nothing());
    assert_eq!(list(&resp, "applied"), vec!["critic"]);
    assert!(list(&resp, "unchanged").contains(&"chatops".to_string()));
}

#[test]
fn the_next_reload_compares_with_what_was_read() {
    let texts = SectionTexts {
        github: other(),
        cache: other(),
        executor: other(),
        chatops: other(),
        ..sections()
    };
    let left = next_snapshot(&texts, &Err("not built".into()), &Err("no token".into()));
    assert_eq!((left.github.as_str(), left.cache.as_str()), ("a: 2", "a: 2"));
    assert_eq!(left.executor, "a: 2");
    assert_eq!((left.reviewer.as_str(), left.chatops.as_str()), ("a: 1", "a: 1"));
}

#[test]
fn sections_that_cannot_be_built_are_named() {
    let texts = SectionTexts { reviewer: other(), chatops: other(), ..sections() };
    let resp = handle_reload(&texts, &Err("no key".into()), &Err("no token".into()), &nothing());
    assert_eq!(resp.get_bool("ok"), Some(true));
    assert!(list(&resp, "applied").is_empty());
    assert_eq!(list(&resp, "unchanged"), vec!["github", "cache", "repositories", "executor"]);
    let errors = resp.get("section_errors").unwrap();
    assert_eq!(errors.get_str("critic").as_deref(), Some("no key"));
    assert_eq!(errors.get_str("chatops").as_deref(), Some("no token"));
    let resp = handle_reload(&texts, &Ok(()), &Err("no token".into()), &nothing());
    assert_eq!(list(&resp, "applied"), vec!["critic"]);
    assert_eq!(resp.get("section_errors").unwrap().get("critic"), None);
}

#[test]
fn reload_reports_requires_restart_for_executor_change() {
    let texts = SectionTexts { executor: other(), ..sections() };
    let resp = handle_reload(&texts, &Ok(()), &Ok(()), &nothing());
    assert_eq!(resp.get_bool("ok"), Some(true));
    assert_eq!(list(&resp, "requires_restart"), vec!["executor"]);
}

#[test]
fn reload_executor_change_still_requires_restart() {
    let texts = SectionTexts { executor: other(), ..sections() };
    let resp = handle_reload(&texts, &Ok(()), &Ok(()), &nothing());
    let requires_restart = list(&resp, "requires_restart");
    assert!(requires_restart.contains(&"executor".to_string()));
    assert!(!requires_restart.contains(&"repositories".to_string()));
    assert!(list(&resp, "unchanged").contains(&"repositories".to_string()));
}

#[test]
fn reload_rejected_on_invalid_yaml() {
    let resp = check_reload("/etc/c.yml", Err("parsing: bad YAML".into()), Ok(()), Ok(()))
        .unwrap_err();
    assert_eq!(resp.get_bool("ok"), Some(false));
    assert_eq!(
        resp.get_str("error").as_deref(),
        Some("config file /etc/c.yml: parsing: bad YAML")
    );
}

#[test]
fn reload_rejected_on_validation_failure() {
    let collision = check_reload("c", Ok(()), Err("workspace collision".into()), Err("t".into()));
    assert_eq!(collision.unwrap_err().get_str("error").as_deref(), Some("workspace collision"));
    let token = check_reload("c", Ok(()), Ok(()), Err("no token".into()));
    assert_eq!(token.unwrap_err().get_str("error").as_deref(), Some("no token"));
    assert!(check_reload("c", Ok(()), Ok(()), Ok(())).is_ok());
}

#[test]
fn reload_adds_repository_spawns_task() {
    let resp = reload(
        vec![task("git@github.com:owner/repo.git", "c")],
        vec![
            new("git@github.com:owner/repo.git", "c"),
            new("git@github.com:owner/repo-added.git", "d"),
        ],
    );
    assert_eq!(resp.get_bool("ok"), Some(true));
    assert!(list(&resp, "applied").contains(&"repositories".to_string()));
    assert_eq!(delta(&resp, "added"), vec!["git@github.com:owner/repo-added.git"]);
    assert!(delta(&resp, "removed").is_empty());
    assert!(delta(&resp, "changed").is_empty());
}

#[test]
fn reload_removes_repository_cancels_task() {
    let resp = reload(
        vec![
            task("git@github.com:owner/repo-a.git", "c"),
            task("git@github.com:owner/repo-b.git", "c"),
        ],
        vec![new("git@github.com:owner/repo-a.git", "c")],
    );
    assert_eq!(resp.get_bool("ok"), Some(true));
    assert_eq!(delta(&resp, "removed"), vec!["git@github.com:owner/repo-b.git"]);
}

#[test]
fn reload_changes_repository_settings_in_place() {
    let url = "git@github.com:owner/repo.git";
    let resp = reload(vec![task(url, "base: main")], vec![new(url, "base: dev")]);
    assert_eq!(resp.get_bool("ok"), Some(true));
    assert_eq!(delta(&resp, "changed"), vec![url]);
    assert!(delta(&resp, "added").is_empty());
    assert!(delta(&resp, "removed").is_empty());
}

#[test]
fn reload_repo_url_change_is_remove_plus_add() {
    let resp = reload(
        vec![task("git@github.com:owner/repo.git", "c")],
        vec![new("git@github.com:owner/repo-new-url.git", "c")],
    );
    assert_eq!(resp.get_bool("ok"), Some(true));
    assert_eq!(delta(&resp, "added"), vec!["git@github.com:owner/repo-new-url.git"]);
    assert_eq!(delta(&resp, "removed"), vec!["git@github.com:owner/repo.git"]);
}

#[test]
fn reload_transient_cancelled_url_is_not_respawned() {
    let url = "git@github.com:owner/repo.git";
    let parked = TaskSnapshot { cancelled: true, ..task(url, "base: main") };
    let resp = reload(vec![parked], vec![new(url, "base: dev")]);
    assert_eq!(resp.get_bool("ok"), Some(true));
    for key in ["added", "changed", "removed"] {
        assert!(delta(&resp, key).is_empty());
    }
    assert!(list(&resp, "unchanged").contains(&"repositories".to_string()));
}

#[test]
fn plans_are_in_order_and_name_nothing_twice() {
    let plan = plan_repository_changes(
        &vec![task("c", "1"), task("a", "1"), task("k", "1"), task("j", "1")],
        &vec![new("z", "1"), new("k", "2"), new("b", "1"), new("z", "2"), new("j", "0"), new("j", "1")],
    );
    assert_eq!(plan.cancel, vec!["a", "c"]);
    assert_eq!(plan.swap, vec!["k"], "the last configuration of a repository counts");
    assert_eq!(plan.spawn, vec!["b", "z"]);
}

#[test]
fn only_what_happened_is_reported() {
    let plan = plan_repository_changes(
        &vec![task("a", "1"), task("b", "1"), task("c", "1"), task("d", "1")],
        &vec![new("c", "2"), new("d", "2"), new("e", "1"), new("f", "1"), new("g", "1")],
    );
    let changes = RepositoriesDelta::of(
        &plan,
        &vec![false, true],
        &vec![true, false],
        &vec![
            SpawnOutcome::AlreadyPresent,
            SpawnOutcome::Spawned,
            SpawnOutcome::StartupCheckFailed,
        ],
    );
    assert_eq!(changes.removed, vec!["b"]);
    assert_eq!(changes.changed, vec!["c"]);
    assert_eq!(changes.added, vec!["f"]);
}
