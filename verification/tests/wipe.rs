use autocoder::control_socket::request::RepositoryConfig;
use autocoder::control_socket::wipe::{
    drain_for, read_wipe, Drain, Drained, WipeEvent, WipeRun, WipeStep,
};
use autocoder::json::{Fields, Json};

const URL: &str = "git@github.com:owner/myrepo.git";

fn repo() -> RepositoryConfig {
    RepositoryConfig {
        url: URL.to_string(),
        workspace: "/ws".to_string(),
        base_branch: "main".to_string(),
        agent_branch: "agent-q".to_string(),
        upstream_branch: None,
        poll_interval_sec: 60,
        auto_submit_pr: false,
    }
}

fn text(reply: &Json, key: &str) -> String {
    reply.get_str(key).unwrap_or_else(|| panic!("no `{key}` in {reply:?}"))
}

struct Scene {
    in_flight: bool,
    timeout: u64,
    drained: Drained,
    there: bool,
    removed: Result<(), String>,
}

impl Scene {
    fn idle(there: bool) -> Self {
        Self {
            in_flight: false,
            timeout: 30,
            drained: Drained::TimedOut,
            there,
            removed: Ok(()),
        }
    }
}

fn wipe(scene: Scene) -> (Vec<String>, Json) {
    let (mut run, mut step) =
        WipeRun::start(URL.to_string(), Ok(repo()), scene.in_flight, scene.timeout).unwrap();
    let mut drained = Some(scene.drained);
    let mut steps = Vec::new();
    loop {
        steps.push(format!("{step:?}"));
        let event = match step {
            WipeStep::Reply(reply) => {
                steps.pop();
                return (steps, reply);
            }
            WipeStep::Drain(_) => WipeEvent::Drained(drained.take().unwrap()),
            WipeStep::CheckExists { .. } => WipeEvent::Exists(scene.there),
            WipeStep::RemoveDir { .. } => WipeEvent::Removed(scene.removed.clone()),
        };
        step = run.advance(event);
    }
}

#[test]
fn wipe_workspace_removes_directory_and_returns_path() {
    let (steps, resp) = wipe(Scene::idle(true));
    assert_eq!(resp.get_bool("ok"), Some(true));
    assert_eq!(text(&resp, "path"), "/ws");
    assert_eq!(text(&resp, "url"), URL);
    assert_eq!(resp.get_bool("already_absent"), Some(false));
    assert_eq!(
        steps,
        vec!["Drain(Idle)", "CheckExists { path: \"/ws\" }", "RemoveDir { path: \"/ws\" }"]
    );
}

#[test]
fn wipe_workspace_is_idempotent_when_directory_absent() {
    let (steps, resp) = wipe(Scene::idle(false));
    assert_eq!(resp.get_bool("ok"), Some(true));
    assert_eq!(resp.get_bool("already_absent"), Some(true));
    assert_eq!(steps.len(), 2);
}

#[test]
fn wipe_workspace_reports_no_iteration_in_flight_when_handle_unset() {
    let (_, resp) = wipe(Scene::idle(true));
    assert_eq!(text(&resp, "drain_outcome"), "no iteration in flight");
}

#[test]
fn wipe_workspace_drains_cleanly_when_iteration_responds_quickly() {
    let (steps, resp) = wipe(Scene {
        in_flight: true,
        drained: Drained::Cleanly { elapsed: "0.2".to_string() },
        ..Scene::idle(true)
    });
    assert_eq!(resp.get_bool("ok"), Some(true));
    assert_eq!(text(&resp, "drain_outcome"), "drained cleanly in 0.2s");
    assert_eq!(steps[0], "Drain(CancelAndWait { seconds: 30 })");
    assert_eq!(steps[2], "RemoveDir { path: \"/ws\" }");
}

#[test]
fn wipe_workspace_reports_drain_timeout_when_iteration_ignores_cancel() {
    for timeout in [0, 1] {
        let (steps, resp) = wipe(Scene { in_flight: true, timeout, ..Scene::idle(true) });
        assert_eq!(resp.get_bool("ok"), Some(true));
        assert_eq!(
            text(&resp, "drain_outcome"),
            "drain timeout — iteration may have been stuck"
        );
        assert_eq!(steps[2], "RemoveDir { path: \"/ws\" }", "wipe must run regardless of drain");
    }
}

#[test]
fn wipe_workspace_already_absent_includes_drain_outcome() {
    let (_, resp) = wipe(Scene::idle(false));
    assert_eq!(resp.get_bool("ok"), Some(true));
    assert_eq!(resp.get_bool("already_absent"), Some(true));
    assert_eq!(text(&resp, "drain_outcome"), "no iteration in flight");
}

#[test]
fn nobody_waits_where_there_is_no_time() {
    assert_eq!(drain_for(false, 5), Drain::Idle);
    assert_eq!(drain_for(true, 0), Drain::CancelOnly);
    assert_eq!(drain_for(true, 5), Drain::CancelAndWait { seconds: 5 });
}

#[test]
fn wipes_that_fail_say_why() {
    let (_, resp) = wipe(Scene { removed: Err("denied".to_string()), ..Scene::idle(true) });
    assert_eq!(text(&resp, "error"), "removing /ws: denied");
    let unknown = WipeRun::start(URL.to_string(), Err("no repo".to_string()), false, 1);
    assert_eq!(text(&unknown.unwrap_err(), "error"), "no repo");
    assert_eq!(text(&read_wipe(&Json::Null).unwrap_err(), "error"), "missing `url` field");
    assert_eq!(read_wipe(&Fields::new().text("url", URL).finish()).unwrap(), URL);
}
